use crate::action::{blockable, challengeable, hand_contains, Action};
use crate::character::{standard_cards, Character};
use crate::phase::Phase;
use crate::player::{first_index, Player};
use crate::random::shuffle_seeded;
use vstd::multiset::Multiset;
use vstd::prelude::*;

verus! {

/// The most participants a match can seat.
pub const MAX_PLAYERS: usize = 6;

/// The most coins any participant can hold: a turn starts below ten unless a coup is
/// forced, and no action adds more than three.
pub const MAX_COINS: usize = 12;

/// What happens once a pending card surrender is done.
#[derive(Debug, Clone, Copy, PartialEq, Eq, Structural)]
pub enum Then {
    /// The turn ends with no further effect.
    EndTurn,
    /// The action survived its challenge: it may still be blocked, then takes effect.
    Proceed(Action),
    /// The block was defeated: the action takes effect.
    Effect(Action),
}

/// Where the current turn stands.
#[derive(Debug, Clone, Copy, PartialEq, Eq, Structural)]
pub enum Stage {
    /// The current participant is to declare an action.
    Declare,
    /// The participant `offset` seats after the actor may challenge `action`.
    ActionChallenge { action: Action, offset: usize },
    /// The participant `offset` seats after the actor may block `action`.
    BlockDeclare { action: Action, offset: usize },
    /// The participant `offset` seats after `blocker` may challenge `block`.
    BlockChallenge { action: Action, block: Action, blocker: usize, offset: usize },
    /// `who` is to surrender a card, after which `then` follows.
    Surrender { who: usize, then: Then },
    /// The actor of an exchange is to return `left` more cards to the pile.
    ExchangeReturn { left: usize },
    /// One participant remains.
    Over,
}

/// Fatal conditions of a match.
#[derive(Debug, Clone, Copy, PartialEq, Eq, Structural)]
pub enum GameError {
    /// A chosen move was not among the moves offered.
    IllegalMoveSelected,
    /// A surrendered or returned card is not in the participant's hand.
    CardNotHeld,
    /// The match was not waiting for a decision of this kind.
    UnexpectedDecision,
}

/// What the match needs next from outside.
#[derive(Debug, Clone)]
pub enum Request {
    /// `player` is to pick one of `options`.
    ChooseMove { player: usize, options: Vec<Action> },
    /// `player` is to pick a card of its hand.
    ChooseCard { player: usize },
    /// The match is over.
    Finished,
}

/// The match: participants by seat, the draw pile, the revealed cards, the move log,
/// whose turn it is, and where that turn stands. Seats are stable: a participant that
/// is out keeps its seat, marked in `eliminated`, so moves name their targets by seat.
#[derive(Debug)]
pub struct GameState {
    pub players: Vec<Player>,
    pub eliminated: Vec<bool>,
    pub deck: Vec<Character>,
    pub revealed_characters: Vec<Character>,
    pub history: Vec<(Action, usize)>,
    pub current_player: usize,
    pub phase: Phase,
    pub stage: Stage,
    pub seed: u64,
}

/// The cards held in all the hands of `ps`.
pub open spec fn hands_cards(ps: Seq<Player>) -> Multiset<Character>
    decreases ps.len(),
{
    if ps.len() == 0 {
        Multiset::empty()
    } else {
        hands_cards(ps.drop_last()).add(ps.last().hand@.to_multiset())
    }
}

/// How many seats are not eliminated.
pub open spec fn count_active(e: Seq<bool>) -> nat
    decreases e.len(),
{
    if e.len() == 0 {
        0
    } else {
        count_active(e.drop_last()) + if e.last() { 0nat } else { 1nat }
    }
}

/// Replacing one participant changes the cards in hands by that participant's hand.
pub proof fn lemma_hands_update(ps: Seq<Player>, i: int, p: Player)
    requires
        0 <= i < ps.len(),
    ensures
        hands_cards(ps.update(i, p)).add(ps[i].hand@.to_multiset()) == hands_cards(ps).add(
            p.hand@.to_multiset(),
        ),
    decreases ps.len(),
{
    broadcast use vstd::multiset::group_multiset_axioms;

    let qs = ps.update(i, p);
    let a = hands_cards(qs);
    let b = hands_cards(ps);
    assert(a == hands_cards(qs.drop_last()).add(qs.last().hand@.to_multiset()));
    assert(b == hands_cards(ps.drop_last()).add(ps.last().hand@.to_multiset()));
    if i == ps.len() - 1 {
        assert(qs.drop_last() =~= ps.drop_last());
        assert(qs.last() == p);
    } else {
        assert(qs.drop_last() =~= ps.drop_last().update(i, p));
        assert(qs.last() == ps.last());
        lemma_hands_update(ps.drop_last(), i, p);
    }
    assert forall|x: Character|
        #[trigger] a.add(ps[i].hand@.to_multiset()).count(x) == b.add(
            p.hand@.to_multiset(),
        ).count(x) by {
        if i < ps.len() - 1 {
            assert(hands_cards(qs.drop_last()).add(ps[i].hand@.to_multiset()).count(x)
                == hands_cards(ps.drop_last()).add(p.hand@.to_multiset()).count(x));
        }
    }
    assert(a.add(ps[i].hand@.to_multiset()) =~= b.add(p.hand@.to_multiset()));
}

/// The active count drops by one when an active seat is eliminated.
pub proof fn lemma_count_eliminate(e: Seq<bool>, i: int)
    requires
        0 <= i < e.len(),
        !e[i],
    ensures
        count_active(e.update(i, true)) + 1 == count_active(e),
    decreases e.len(),
{
    let f = e.update(i, true);
    if i == e.len() - 1 {
        assert(f.drop_last() =~= e.drop_last());
    } else {
        assert(f.drop_last() =~= e.drop_last().update(i, true));
        lemma_count_eliminate(e.drop_last(), i);
    }
}

/// An active seat exists where the count is positive, and no seat is active where it is zero.
pub proof fn lemma_count_active_pos(e: Seq<bool>)
    ensures
        count_active(e) > 0 <==> exists|i: int| 0 <= i < e.len() && !e[i],
        count_active(e) <= e.len(),
    decreases e.len(),
{
    if e.len() > 0 {
        lemma_count_active_pos(e.drop_last());
        if exists|i: int| 0 <= i < e.drop_last().len() && !e.drop_last()[i] {
            let i = choose|i: int| 0 <= i < e.drop_last().len() && !e.drop_last()[i];
            assert(!e[i]);
        }
        if exists|i: int| 0 <= i < e.len() && !e[i] {
            let i = choose|i: int| 0 <= i < e.len() && !e[i];
            if i < e.len() - 1 {
                assert(!e.drop_last()[i]);
            }
        }
    }
}

/// Whether `a` is an action that `actor`, holding `coins`, may declare at a table of `n`
/// seats.
pub open spec fn declared_ok(a: Action, actor: int, coins: int, n: int) -> bool {
    match a {
        Action::Coup(t) => t < n && t != actor && coins >= 7,
        Action::Assassinate(t) => t < n && t != actor && 3 <= coins < 10,
        Action::Steal(t, amount) => t < n && t != actor && coins < 10 && amount <= 2,
        Action::Income | Action::ForeignAid | Action::Tax | Action::Exchange => coins < 10,
        _ => false,
    }
}

/// The phase tag that belongs to a stage.
pub open spec fn phase_of(st: Stage) -> Phase {
    match st {
        Stage::ActionChallenge { .. } | Stage::BlockChallenge { .. } => Phase::Challenge,
        Stage::BlockDeclare { .. } => Phase::Block,
        _ => Phase::Action,
    }
}

impl GameState {
    /// Every card of the match: the pile, the hands and the revealed cards.
    pub open spec fn all_cards(&self) -> Multiset<Character> {
        self.deck@.to_multiset().add(hands_cards(self.players@)).add(
            self.revealed_characters@.to_multiset(),
        )
    }

    pub open spec fn num_players(&self) -> int {
        self.players@.len() as int
    }

    /// Seat `i` is still in the match.
    pub open spec fn active(&self, i: int) -> bool {
        0 <= i < self.players@.len() && !self.eliminated@[i]
    }

    pub open spec fn coins_of(&self, i: int) -> int {
        self.players@[i].coins as int
    }

    pub open spec fn hand_of(&self, i: int) -> Seq<Character> {
        self.players@[i].hand@
    }

    /// The number of participants still in the match.
    pub open spec fn active_count(&self) -> nat {
        count_active(self.eliminated@)
    }

    /// A pending steal names as many coins as its target holds, up to two.
    pub open spec fn steal_ok(&self, a: Action) -> bool {
        a matches Action::Steal(t, amount) ==> amount as int == if self.coins_of(t as int) < 2 {
            self.coins_of(t as int)
        } else {
            2
        }
    }

    pub open spec fn then_ok(&self, then: Then) -> bool {
        let n = self.num_players();
        let c = self.current_player as int;
        match then {
            Then::EndTurn => true,
            Then::Proceed(a) => declared_ok(a, c, self.coins_of(c), n) && self.active(c)
                && self.steal_ok(a),
            Then::Effect(a) => declared_ok(a, c, self.coins_of(c), n) && blockable(a)
                && self.active(c) && self.steal_ok(a),
        }
    }

    /// The stage is consistent with the rest of the match.
    pub open spec fn stage_ok(&self) -> bool {
        let n = self.num_players();
        let c = self.current_player as int;
        match self.stage {
            Stage::Declare => self.active(c) && self.active_count() >= 2,
            Stage::ActionChallenge { action, offset } => declared_ok(action, c, self.coins_of(c), n)
                && challengeable(action) && 1 <= offset < n && self.active(c) && self.steal_ok(
                action,
            ),
            Stage::BlockDeclare { action, offset } => declared_ok(action, c, self.coins_of(c), n)
                && blockable(action) && 1 <= offset < n && self.active(c) && self.steal_ok(action),
            Stage::BlockChallenge { action, block, blocker, offset } => declared_ok(
                action,
                c,
                self.coins_of(c),
                n,
            ) && blockable(action) && block is Block && blocker < n && blocker != c && 1
                <= offset < n && self.active(blocker as int) && self.active(c) && self.steal_ok(
                action,
            ),
            Stage::Surrender { who, then } => who < n && self.hand_of(who as int).len() > 0
                && self.then_ok(then) && (then != Then::EndTurn ==> who != c)
                && self.active_count() >= 2,
            Stage::ExchangeReturn { left } => 1 <= left <= 2 && self.hand_of(c).len() >= left + 1
                && self.active(c),
            Stage::Over => self.active_count() == 1,
        }
    }

    /// The invariant of a dealt match, apart from where the turn stands.
    pub open spec fn wf_core(&self) -> bool {
        let n = self.num_players();
        &&& 2 <= n <= MAX_PLAYERS
        &&& self.eliminated@.len() == n
        &&& self.current_player < n
        &&& forall|i: int| 0 <= i < n ==> #[trigger] self.players@[i].coins <= MAX_COINS
        &&& forall|i: int|
            0 <= i < n ==> (#[trigger] self.eliminated@[i] <==> self.players@[i].hand@.len() == 0)
        &&& self.all_cards() == standard_cards()
        &&& self.active_count() >= 1
    }

    /// The invariant of a dealt match.
    pub open spec fn wf(&self) -> bool {
        &&& self.wf_core()
        &&& if self.stage is Surrender {
            self.phase == Phase::Action || self.phase == Phase::Challenge
        } else {
            self.phase == phase_of(self.stage)
        }
        &&& self.stage_ok()
    }

    /// The match as created and not yet dealt.
    pub open spec fn fresh(&self) -> bool {
        let n = self.num_players();
        &&& 2 <= n <= MAX_PLAYERS
        &&& self.eliminated@.len() == n
        &&& forall|i: int| 0 <= i < n ==> !#[trigger] self.eliminated@[i]
        &&& forall|i: int| 0 <= i < n ==> #[trigger] self.players@[i].hand@.len() == 0
        &&& forall|i: int| 0 <= i < n ==> #[trigger] self.players@[i].coins <= MAX_COINS
        &&& self.deck@.to_multiset() == standard_cards()
        &&& self.revealed_characters@.len() == 0
        &&& self.current_player == 0
        &&& self.stage == Stage::Declare
        &&& self.phase == Phase::Action
    }
}

/// Moving cards between the pile, the hands and the revealed cards keeps every role's total.
pub proof fn lemma_move_card(
    d0: Multiset<Character>,
    h0: Multiset<Character>,
    r0: Multiset<Character>,
    d1: Multiset<Character>,
    h1: Multiset<Character>,
    r1: Multiset<Character>,
)
    requires
        forall|x: Character| #[trigger] d0.count(x) + h0.count(x) + r0.count(x) == d1.count(x)
            + h1.count(x) + r1.count(x),
    ensures
        d0.add(h0).add(r0) == d1.add(h1).add(r1),
{
    broadcast use vstd::multiset::group_multiset_axioms;

    assert(d0.add(h0).add(r0) =~= d1.add(h1).add(r1));
}

impl GameState {
    /// A match for the given participants, with the unshuffled deck and nothing dealt.
    pub fn new(players: Vec<Player>) -> (g: GameState)
        ensures
            g.players@ == players@,
            g.eliminated@ == Seq::new(players@.len(), |i: int| false),
            g.deck@ == crate::character::fresh_deck(),
            g.revealed_characters@.len() == 0,
            g.history@.len() == 0,
            g.current_player == 0,
            g.phase == Phase::Action,
            g.stage == Stage::Declare,
            g.seed == 0,
    {
        let mut eliminated: Vec<bool> = Vec::new();
        let mut i: usize = 0;
        while i < players.len()
            invariant
                i <= players@.len(),
                eliminated@ == Seq::new(i as nat, |k: int| false),
            decreases players@.len() - i,
        {
            eliminated.push(false);
            i = i + 1;
            assert(eliminated@ =~= Seq::new(i as nat, |k: int| false));
        }
        GameState {
            players,
            eliminated,
            deck: Character::create_deck(),
            revealed_characters: Vec::new(),
            history: Vec::new(),
            current_player: 0,
            phase: Phase::Action,
            stage: Stage::Declare,
            seed: 0,
        }
    }

    /// How many participants are still in the match.
    pub fn active_players(&self) -> (r: usize)
        requires
            self.eliminated@.len() <= MAX_PLAYERS,
        ensures
            r == self.active_count(),
    {
        let mut r: usize = 0;
        let mut i: usize = 0;
        while i < self.eliminated.len()
            invariant
                i <= self.eliminated@.len() <= MAX_PLAYERS,
                r == count_active(self.eliminated@.subrange(0, i as int)),
                r <= i,
            decreases self.eliminated@.len() - i,
        {
            assert(self.eliminated@.subrange(0, i + 1).drop_last() =~= self.eliminated@.subrange(
                0,
                i as int,
            ));
            if !self.eliminated[i] {
                r = r + 1;
            }
            i = i + 1;
        }
        assert(self.eliminated@.subrange(0, i as int) =~= self.eliminated@);
        r
    }

    /// Whether the match is over: at most one participant remains.
    pub fn game_over(&self) -> (r: bool)
        requires
            self.eliminated@.len() <= MAX_PLAYERS,
        ensures
            r == (self.active_count() <= 1),
    {
        self.active_players() <= 1
    }

    /// The seat of the last participant standing, once the match is over.
    pub fn winner(&self) -> (r: Option<usize>)
        requires
            self.eliminated@.len() <= MAX_PLAYERS,
            self.eliminated@.len() == self.players@.len(),
        ensures
            r is Some <==> self.active_count() == 1,
            r matches Some(w) ==> self.active(w as int),
    {
        if self.active_players() != 1 {
            return None;
        }
        let mut i: usize = 0;
        while i < self.eliminated.len()
            invariant
                i <= self.eliminated@.len(),
                self.active_count() == 1,
                self.eliminated@.len() == self.players@.len(),
                forall|k: int| 0 <= k < i ==> self.eliminated@[k],
            decreases self.eliminated@.len() - i,
        {
            if !self.eliminated[i] {
                return Some(i);
            }
            i = i + 1;
        }
        proof {
            lemma_count_active_pos(self.eliminated@);
        }
        None
    }
}

impl GameState {
    /// Moves the top card of the pile into the hand of seat `to`.
    pub(crate) fn deal_card(&mut self, to: usize)
        requires
            old(self).deck@.len() > 0,
            to < old(self).players@.len(),
        ensures
            final(self).deck@ == old(self).deck@.drop_last(),
            final(self).players@.len() == old(self).players@.len(),
            forall|i: int|
                0 <= i < old(self).players@.len() && i != to ==> #[trigger] final(self).players@[i]
                    == old(self).players@[i],
            final(self).players@[to as int].hand@ == old(self).players@[to as int].hand@.push(
                old(self).deck@.last(),
            ),
            final(self).players@[to as int].coins == old(self).players@[to as int].coins,
            final(self).players@[to as int].name@ == old(self).players@[to as int].name@,
            final(self).all_cards() == old(self).all_cards(),
            final(self).revealed_characters == old(self).revealed_characters,
            final(self).eliminated == old(self).eliminated,
            final(self).current_player == old(self).current_player,
            final(self).stage == old(self).stage,
            final(self).phase == old(self).phase,
            final(self).history == old(self).history,
            final(self).seed == old(self).seed,
    {
        broadcast use vstd::seq_lib::to_multiset_build, vstd::seq_lib::to_multiset_remove;
        broadcast use vstd::multiset::group_multiset_axioms;

        let ghost d0 = self.deck@;
        let ghost ps0 = self.players@;
        let c = self.deck.pop().unwrap();
        let mut p = self.players.remove(to);
        p.add_card_to_hand(c);
        let ghost np = p;
        self.players.insert(to, p);
        proof {
            assert(self.players@ =~= ps0.update(to as int, np));
            assert(d0.remove(d0.len() - 1) =~= d0.drop_last());
            lemma_hands_update(ps0, to as int, np);
            let oh = ps0[to as int].hand@.to_multiset();
            let nh = np.hand@.to_multiset();
            assert(nh == oh.insert(c));
            assert(self.deck@.to_multiset() == d0.to_multiset().remove(c));
            vstd::seq_lib::to_multiset_contains(d0, c);
            let h0 = hands_cards(ps0);
            let h1 = hands_cards(self.players@);
            let rv = self.revealed_characters@.to_multiset();
            assert(h1.add(oh) == h0.add(nh));
            assert forall|x: Character|
                #[trigger] d0.to_multiset().count(x) + h0.count(x) + rv.count(x)
                    == self.deck@.to_multiset().count(x) + h1.count(x) + rv.count(x) by {
                assert(h1.add(oh).count(x) == h0.add(nh).count(x));
            }
            lemma_move_card(d0.to_multiset(), h0, rv, self.deck@.to_multiset(), h1, rv);
        }
    }

    /// Marks seat `index` as out of the match when its hand has just become empty, and
    /// tells whether it did so now.
    pub fn check_elimination(&mut self, index: usize) -> (r: bool)
        requires
            index < old(self).players@.len(),
            old(self).eliminated@.len() == old(self).players@.len(),
        ensures
            r == (old(self).players@[index as int].hand@.len() == 0
                && !old(self).eliminated@[index as int]),
            final(self).eliminated@ == old(self).eliminated@.update(
                index as int,
                old(self).eliminated@[index as int] || old(self).players@[index as int].hand@.len()
                    == 0,
            ),
            final(self).players == old(self).players,
            final(self).deck == old(self).deck,
            final(self).revealed_characters == old(self).revealed_characters,
            final(self).current_player == old(self).current_player,
            final(self).stage == old(self).stage,
            final(self).phase == old(self).phase,
            final(self).history == old(self).history,
            final(self).seed == old(self).seed,
    {
        if self.players[index].hand.len() == 0 && !self.eliminated[index] {
            self.eliminated.set(index, true);
            true
        } else {
            proof {
                assert(self.eliminated@ =~= self.eliminated@.update(
                    index as int,
                    self.eliminated@[index as int] || self.players@[index as int].hand@.len() == 0,
                ));
            }
            false
        }
    }

    /// Seat `who` gives up `card`, which is revealed; the seat is eliminated if that was its
    /// last card.
    pub(crate) fn surrender(&mut self, who: usize, card: Character) -> (r: Result<(), GameError>)
        requires
            who < old(self).players@.len(),
            old(self).eliminated@.len() == old(self).players@.len(),
        ensures
            r is Ok <==> old(self).hand_of(who as int).contains(card),
            r is Err ==> r == Err::<(), GameError>(GameError::CardNotHeld) && *final(self)
                == *old(self),
            r is Ok ==> {
                &&& exists|k: int|
                    first_index(old(self).hand_of(who as int), card, k) && final(self).hand_of(
                        who as int,
                    ) == old(self).hand_of(who as int).remove(k)
                &&& final(self).revealed_characters@ == old(self).revealed_characters@.push(card)
                &&& final(self).eliminated@ == old(self).eliminated@.update(
                    who as int,
                    old(self).eliminated@[who as int] || final(self).hand_of(who as int).len()
                        == 0,
                )
                &&& final(self).deck == old(self).deck
                &&& final(self).players@[who as int].coins == old(self).players@[who as int].coins
            },
            final(self).players@.len() == old(self).players@.len(),
            forall|i: int|
                0 <= i < old(self).players@.len() && i != who ==> #[trigger] final(self).players@[i]
                    == old(self).players@[i],
            final(self).all_cards() == old(self).all_cards(),
            final(self).current_player == old(self).current_player,
            final(self).stage == old(self).stage,
            final(self).phase == old(self).phase,
            final(self).history == old(self).history,
            final(self).seed == old(self).seed,
    {
        broadcast use vstd::seq_lib::to_multiset_build, vstd::seq_lib::to_multiset_remove;
        broadcast use vstd::multiset::group_multiset_axioms;

        if !hand_contains(&self.players[who].hand, card) {
            return Err(GameError::CardNotHeld);
        }
        let ghost ps0 = self.players@;
        let ghost r0 = self.revealed_characters@;
        let mut p = self.players.remove(who);
        let res = p.remove_card_from_hand(card);
        let ghost np = p;
        self.players.insert(who, p);
        self.revealed_characters.push(card);
        let ghost k = choose|k: int|
            first_index(ps0[who as int].hand@, card, k) && np.hand@ == ps0[who as int].hand@.remove(
                k,
            );
        proof {
            assert(res is Ok);
            assert(self.players@ =~= ps0.update(who as int, np));
            lemma_hands_update(ps0, who as int, np);
            vstd::seq_lib::to_multiset_contains(ps0[who as int].hand@, card);
            let oh = ps0[who as int].hand@.to_multiset();
            let nh = np.hand@.to_multiset();
            assert(nh == oh.remove(card));
            let h0 = hands_cards(ps0);
            let h1 = hands_cards(self.players@);
            assert(h1.add(oh) == h0.add(nh));
            assert forall|x: Character|
                #[trigger] self.deck@.to_multiset().count(x) + h0.count(x) + r0.to_multiset().count(
                    x,
                ) == self.deck@.to_multiset().count(x) + h1.count(x)
                    + self.revealed_characters@.to_multiset().count(x) by {
                assert(h1.add(oh).count(x) == h0.add(nh).count(x));
            }
            lemma_move_card(
                self.deck@.to_multiset(),
                h0,
                r0.to_multiset(),
                self.deck@.to_multiset(),
                h1,
                self.revealed_characters@.to_multiset(),
            );
        }
        self.check_elimination(who);
        assert(first_index(old(self).hand_of(who as int), card, k) && self.hand_of(who as int)
            == old(self).hand_of(who as int).remove(k));
        Ok(())
    }

    /// The exchanging actor puts `card` back on the pile.
    pub(crate) fn return_card(&mut self, card: Character) -> (r: Result<(), GameError>)
        requires
            old(self).current_player < old(self).players@.len(),
        ensures
            r is Ok <==> old(self).hand_of(old(self).current_player as int).contains(card),
            r is Err ==> r == Err::<(), GameError>(GameError::CardNotHeld) && *final(self)
                == *old(self),
            r is Ok ==> final(self).deck@ == old(self).deck@.push(card) && exists|k: int|
                first_index(old(self).hand_of(old(self).current_player as int), card, k)
                    && final(self).hand_of(old(self).current_player as int) == old(self).hand_of(
                    old(self).current_player as int,
                ).remove(k),
            r is Ok ==> final(self).hand_of(old(self).current_player as int).len() + 1 == old(
                self,
            ).hand_of(old(self).current_player as int).len()
                && final(self).players@[old(self).current_player as int].coins == old(
                self,
            ).players@[old(self).current_player as int].coins,
            final(self).players@.len() == old(self).players@.len(),
            forall|i: int|
                0 <= i < old(self).players@.len() && i != old(self).current_player
                    ==> #[trigger] final(self).players@[i] == old(self).players@[i],
            final(self).all_cards() == old(self).all_cards(),
            final(self).revealed_characters == old(self).revealed_characters,
            final(self).eliminated == old(self).eliminated,
            final(self).current_player == old(self).current_player,
            final(self).stage == old(self).stage,
            final(self).phase == old(self).phase,
            final(self).history == old(self).history,
            final(self).seed == old(self).seed,
    {
        broadcast use vstd::seq_lib::to_multiset_build, vstd::seq_lib::to_multiset_remove;
        broadcast use vstd::multiset::group_multiset_axioms;

        let who = self.current_player;
        if !hand_contains(&self.players[who].hand, card) {
            return Err(GameError::CardNotHeld);
        }
        let ghost ps0 = self.players@;
        let ghost d0 = self.deck@;
        let mut p = self.players.remove(who);
        let res = p.remove_card_from_hand(card);
        let ghost np = p;
        self.players.insert(who, p);
        self.deck.push(card);
        proof {
            assert(res is Ok);
            assert(self.players@ =~= ps0.update(who as int, np));
            let k = choose|k: int| first_index(ps0[who as int].hand@, card, k) && np.hand@ == ps0[
                who as int].hand@.remove(k);
            assert(first_index(old(self).hand_of(who as int), card, k) && self.hand_of(who as int)
                == old(self).hand_of(who as int).remove(k));
            lemma_hands_update(ps0, who as int, np);
            vstd::seq_lib::to_multiset_contains(ps0[who as int].hand@, card);
            let oh = ps0[who as int].hand@.to_multiset();
            let nh = np.hand@.to_multiset();
            assert(nh == oh.remove(card));
            let h0 = hands_cards(ps0);
            let h1 = hands_cards(self.players@);
            let rv = self.revealed_characters@.to_multiset();
            assert(h1.add(oh) == h0.add(nh));
            assert forall|x: Character|
                #[trigger] d0.to_multiset().count(x) + h0.count(x) + rv.count(x)
                    == self.deck@.to_multiset().count(x) + h1.count(x) + rv.count(x) by {
                assert(h1.add(oh).count(x) == h0.add(nh).count(x));
            }
            lemma_move_card(d0.to_multiset(), h0, rv, self.deck@.to_multiset(), h1, rv);
        }
        Ok(())
    }
}

/// No cards are in hands that are all empty.
pub proof fn lemma_hands_empty(ps: Seq<Player>)
    requires
        forall|i: int| 0 <= i < ps.len() ==> #[trigger] ps[i].hand@.len() == 0,
    ensures
        hands_cards(ps) == Multiset::<Character>::empty(),
    decreases ps.len(),
{
    broadcast use vstd::seq_lib::to_multiset_len;
    broadcast use vstd::multiset::group_multiset_axioms;

    if ps.len() > 0 {
        lemma_hands_empty(ps.drop_last());
        assert(ps.last().hand@.len() == 0);
        assert(ps.last().hand@.to_multiset().len() == 0);
        assert(hands_cards(ps) =~= Multiset::<Character>::empty());
    }
}

/// Seats the participants in a shuffled order, shuffles the pile and deals two cards to
/// each participant.
pub fn start_game(state: &mut GameState, seed: u64)
    requires
        old(state).fresh(),
    ensures
        final(state).wf(),
        final(state).players@.len() == old(state).players@.len(),
        exists|ps: Seq<Player>|
            #![trigger ps.to_multiset()]
            ps.to_multiset() == old(state).players@.to_multiset()
                && ps.len() == final(state).players@.len() && forall|i: int|
                0 <= i < ps.len() ==> #[trigger] final(state).players@[i].name@ == ps[i].name@
                    && final(state).players@[i].coins == ps[i].coins,
        final(state).deck@.len() == 15 - 2 * final(state).players@.len(),
        forall|i: int|
            0 <= i < final(state).players@.len() ==> #[trigger] final(state).players@[i].hand@.len()
                == 2,
        final(state).revealed_characters@.len() == 0,
        final(state).current_player == 0,
        final(state).stage == Stage::Declare,
        final(state).history == old(state).history,
{
    broadcast use vstd::seq_lib::to_multiset_contains, vstd::seq_lib::to_multiset_len;
    broadcast use vstd::multiset::group_multiset_axioms;

    let ghost ps0 = state.players@;
    shuffle_seeded(&mut state.players, seed);
    shuffle_seeded(&mut state.deck, seed);
    let next_seed: u64 = if seed < u64::MAX {
        seed + 1
    } else {
        0
    };
    state.seed = next_seed;
    let n = state.players.len();
    let ghost ps1 = state.players@;
    proof {
        assert(state.players@.to_multiset().len() == ps0.to_multiset().len());
        assert(n == ps0.len());
        assert forall|i: int| 0 <= i < n implies (#[trigger] state.players@[i]).hand@.len() == 0
            && state.players@[i].coins <= MAX_COINS by {
            let p = state.players@[i];
            assert(state.players@.contains(p));
            assert(state.players@.to_multiset().count(p) > 0);
            assert(ps0.contains(p));
            let j = choose|j: int| 0 <= j < ps0.len() && ps0[j] == p;
            assert(ps0[j].coins <= MAX_COINS);
            assert(ps0[j].hand@.len() == 0);
        }
        lemma_hands_empty(state.players@);
        crate::character::lemma_three_copies(Character::Duke);
        assert(state.deck@.len() == 15);
        assert(state.all_cards() =~= standard_cards());
    }
    let mut i: usize = 0;
    while i < n
        invariant
            i <= n,
            n == state.players@.len(),
            2 <= n <= MAX_PLAYERS,
            state.deck@.len() == 15 - 2 * i,
            state.all_cards() == standard_cards(),
            state.revealed_characters@.len() == 0,
            state.eliminated@.len() == n,
            forall|k: int| 0 <= k < n ==> !#[trigger] state.eliminated@[k],
            forall|k: int| 0 <= k < n ==> #[trigger] state.players@[k].coins <= MAX_COINS,
            forall|k: int| 0 <= k < i ==> #[trigger] state.players@[k].hand@.len() == 2,
            forall|k: int| i <= k < n ==> #[trigger] state.players@[k].hand@.len() == 0,
            state.current_player == 0,
            state.stage == Stage::Declare,
            state.phase == Phase::Action,
            state.history == old(state).history,
            ps1.len() == n,
            forall|k: int| 0 <= k < n ==> #[trigger] state.players@[k].name@ == ps1[k].name@
                && state.players@[k].coins == ps1[k].coins,
        decreases n - i,
    {
        state.deal_card(i);
        state.deal_card(i);
        i = i + 1;
    }
    assert(state.players@.to_multiset().len() == n);
    proof {
        lemma_two_active(state.eliminated@, 0, 1);
        assert(ps1.len() == n);
    }
}

/// Changing a participant without changing its hand keeps the cards in hands.
pub proof fn lemma_hands_same_hand(ps: Seq<Player>, i: int, p: Player)
    requires
        0 <= i < ps.len(),
        p.hand@ == ps[i].hand@,
    ensures
        hands_cards(ps.update(i, p)) == hands_cards(ps),
{
    broadcast use vstd::multiset::group_multiset_axioms;

    lemma_hands_update(ps, i, p);
    let a = hands_cards(ps.update(i, p));
    let b = hands_cards(ps);
    let h = p.hand@.to_multiset();
    assert forall|x: Character| #[trigger] a.count(x) == b.count(x) by {
        assert(a.add(h).count(x) == b.add(h).count(x));
    }
    assert(a =~= b);
}

/// The turn has passed on from `b`: the match is over with at most one participant left,
/// or the first seat after `b`'s actor that is still in the match declares.
pub open spec fn turn_passed(b: GameState, f: GameState) -> bool {
    let n = b.num_players();
    let c = b.current_player as int;
    ||| f.stage == Stage::Over && f.active_count() <= 1
    ||| f.stage == Stage::Declare && exists|o: int|
        1 <= o < n && f.current_player == seat_after(c, o, n) && forall|k: int|
            1 <= k < o ==> !f.active(#[trigger] seat_after(c, k, n))
}

/// Every balance in `f` is as in `b`.
pub open spec fn coins_kept(b: GameState, f: GameState) -> bool {
    &&& f.players@.len() == b.players@.len()
    &&& forall|i: int| 0 <= i < b.players@.len() ==> #[trigger] f.coins_of(i) == b.coins_of(i)
}

/// Every hand in `f` but that of seat `p` is as in `b`.
pub open spec fn hands_kept_but(b: GameState, f: GameState, p: int) -> bool {
    &&& f.players@.len() == b.players@.len()
    &&& forall|i: int|
        0 <= i < b.players@.len() && i != p ==> #[trigger] f.hand_of(i) == b.hand_of(i)
}

/// The seat `o` places after `base` at a table of `n`.
pub open spec fn seat_after(base: int, o: int, n: int) -> int {
    (base + o) % n
}

impl GameState {
    /// Gives seat `i` a balance of `v` coins.
    pub(crate) fn set_coins(&mut self, i: usize, v: usize)
        requires
            i < old(self).players@.len(),
        ensures
            final(self).players@.len() == old(self).players@.len(),
            forall|k: int|
                0 <= k < old(self).players@.len() && k != i ==> #[trigger] final(self).players@[k]
                    == old(self).players@[k],
            final(self).players@[i as int].coins == v,
            final(self).players@[i as int].hand@ == old(self).players@[i as int].hand@,
            final(self).all_cards() == old(self).all_cards(),
            final(self).deck == old(self).deck,
            final(self).revealed_characters == old(self).revealed_characters,
            final(self).eliminated == old(self).eliminated,
            final(self).current_player == old(self).current_player,
            final(self).stage == old(self).stage,
            final(self).phase == old(self).phase,
            final(self).history == old(self).history,
            final(self).seed == old(self).seed,
    {
        let ghost ps0 = self.players@;
        let mut p = self.players.remove(i);
        p.coins = v;
        let ghost np = p;
        self.players.insert(i, p);
        proof {
            assert(self.players@ =~= ps0.update(i as int, np));
            lemma_hands_same_hand(ps0, i as int, np);
        }
    }

    /// Moves the turn on to stage `st`, with the phase tag that belongs to it.
    pub(crate) fn set_stage(&mut self, st: Stage)
        ensures
            final(self).stage == st,
            final(self).phase == phase_of(st),
            final(self).players == old(self).players,
            final(self).deck == old(self).deck,
            final(self).revealed_characters == old(self).revealed_characters,
            final(self).eliminated == old(self).eliminated,
            final(self).current_player == old(self).current_player,
            final(self).history == old(self).history,
            final(self).seed == old(self).seed,
    {
        self.phase = match st {
            Stage::ActionChallenge { .. } | Stage::BlockChallenge { .. } => Phase::Challenge,
            Stage::BlockDeclare { .. } => Phase::Block,
            _ => Phase::Action,
        };
        self.stage = st;
    }

    /// Seat `thief` takes up to `amount` coins from seat `target`: as many as the target
    /// holds, at most `amount`.
    pub fn steal(&mut self, thief: usize, target: usize, amount: usize) -> (moved: usize)
        requires
            thief < old(self).players@.len(),
            target < old(self).players@.len(),
            thief != target,
            old(self).coins_of(thief as int) + amount <= usize::MAX,
        ensures
            moved == if old(self).coins_of(target as int) < amount {
                old(self).coins_of(target as int)
            } else {
                amount as int
            },
            final(self).coins_of(thief as int) == old(self).coins_of(thief as int) + moved,
            final(self).coins_of(target as int) == old(self).coins_of(target as int) - moved,
            final(self).players@.len() == old(self).players@.len(),
            forall|k: int|
                0 <= k < old(self).players@.len() && k != thief && k != target
                    ==> #[trigger] final(self).players@[k] == old(self).players@[k],
            forall|k: int|
                0 <= k < old(self).players@.len() ==> #[trigger] final(self).hand_of(k) == old(
                    self,
                ).hand_of(k),
            final(self).all_cards() == old(self).all_cards(),
            final(self).deck == old(self).deck,
            final(self).revealed_characters == old(self).revealed_characters,
            final(self).eliminated == old(self).eliminated,
            final(self).current_player == old(self).current_player,
            final(self).stage == old(self).stage,
            final(self).phase == old(self).phase,
            final(self).history == old(self).history,
            final(self).seed == old(self).seed,
    {
        let held = self.players[target].coins;
        let moved: usize = if held < amount {
            held
        } else {
            amount
        };
        let tc = self.players[thief].coins;
        self.set_coins(target, held - moved);
        self.set_coins(thief, tc + moved);
        moved
    }
}

/// Where two seats are active, one of them is not `c`.
pub proof fn lemma_other_active(e: Seq<bool>, c: int)
    requires
        0 <= c < e.len(),
        count_active(e) >= 2,
    ensures
        exists|i: int| 0 <= i < e.len() && i != c && !e[i],
{
    if !e[c] {
        lemma_count_eliminate(e, c);
        lemma_count_active_pos(e.update(c, true));
        let i = choose|i: int| 0 <= i < e.len() && !e.update(c, true)[i];
        assert(i != c && !e[i]);
    } else {
        lemma_count_active_pos(e);
    }
}

/// Two distinct seats still in the match make an active count of at least two.
pub proof fn lemma_two_active(e: Seq<bool>, i: int, j: int)
    requires
        0 <= i < e.len(),
        0 <= j < e.len(),
        i != j,
        !e[i],
        !e[j],
    ensures
        count_active(e) >= 2,
{
    lemma_count_eliminate(e, i);
    assert(!e.update(i, true)[j]);
    lemma_count_active_pos(e.update(i, true));
}

/// Every seat but `base` is some number of places after it.
pub proof fn lemma_seat_reached(base: int, i: int, n: int)
    requires
        0 <= base < n,
        0 <= i < n,
        i != base,
    ensures
        ({
            let o = if i > base {
                i - base
            } else {
                i + n - base
            };
            1 <= o < n && seat_after(base, o, n) == i
        }),
{
    if i < base {
        assert((base + (i + n - base)) % n == i) by {
            vstd::arithmetic::div_mod::lemma_mod_add_multiples_vanish(i, n);
            vstd::arithmetic::div_mod::lemma_small_mod(i as nat, n as nat);
        }
    } else {
        vstd::arithmetic::div_mod::lemma_small_mod(i as nat, n as nat);
    }
}

impl GameState {
    /// Seat `p` has at least one move where the match stands.
    pub open spec fn has_move(&self, p: int) -> bool {
        exists|m: Action| self.is_legal(p, m)
    }

    /// The turn passes to the next seat still in the match.
    pub fn next_player(&mut self)
        requires
            old(self).wf_core(),
            old(self).active_count() >= 2,
        ensures
            exists|o: int|
                1 <= o < old(self).num_players() && final(self).current_player == seat_after(
                    old(self).current_player as int,
                    o,
                    old(self).num_players(),
                ) && forall|k: int|
                    1 <= k < o ==> !old(self).active(
                        #[trigger] seat_after(
                            old(self).current_player as int,
                            k,
                            old(self).num_players(),
                        ),
                    ),
            final(self).active(final(self).current_player as int),
            final(self).wf_core(),
            final(self).players == old(self).players,
            final(self).deck == old(self).deck,
            final(self).revealed_characters == old(self).revealed_characters,
            final(self).eliminated == old(self).eliminated,
            final(self).stage == old(self).stage,
            final(self).phase == old(self).phase,
            final(self).history == old(self).history,
            final(self).seed == old(self).seed,
    {
        let n = self.players.len();
        let c = self.current_player;
        let mut o: usize = 1;
        while o < n
            invariant
                1 <= o <= n,
                n == self.players@.len(),
                self.wf_core(),
                *self == *old(self),
                c == self.current_player,
                forall|k: int| 1 <= k < o ==> !self.active(#[trigger] seat_after(c as int, k, n as int)),
            decreases n - o,
        {
            let seat = (c + o) % n;
            if !self.eliminated[seat] {
                self.current_player = seat;
                assert(self.current_player == seat_after(c as int, o as int, n as int));
                assert(forall|k: int|
                    1 <= k < o ==> !old(self).active(
                        #[trigger] seat_after(c as int, k, n as int),
                    ));
                return;
            }
            o = o + 1;
        }
        proof {
            lemma_other_active(self.eliminated@, c as int);
            let i = choose|i: int| 0 <= i < n && i != c && !self.eliminated@[i];
            lemma_seat_reached(c as int, i, n as int);
            let k = if i > c { i - c } else { i + n - c };
            assert(!self.active(seat_after(c as int, k, n as int)));
        }
    }

    /// Ends the turn: the match is over when at most one participant remains, else the
    /// next one still in it declares an action.
    pub fn end_turn(&mut self)
        requires
            old(self).wf_core(),
        ensures
            final(self).wf(),
            (final(self).stage == Stage::Over) <==> old(self).active_count() <= 1,
            final(self).stage != Stage::Over ==> final(self).stage == Stage::Declare && exists|o: int|
                1 <= o < old(self).num_players() && final(self).current_player == seat_after(
                    old(self).current_player as int,
                    o,
                    old(self).num_players(),
                ) && forall|k: int|
                    1 <= k < o ==> !old(self).active(
                        #[trigger] seat_after(
                            old(self).current_player as int,
                            k,
                            old(self).num_players(),
                        ),
                    ),
            turn_passed(*old(self), *final(self)),
            final(self).players == old(self).players,
            final(self).deck == old(self).deck,
            final(self).revealed_characters == old(self).revealed_characters,
            final(self).eliminated == old(self).eliminated,
            final(self).history == old(self).history,
    {
        if self.game_over() {
            self.set_stage(Stage::Over);
        } else {
            self.next_player();
            self.set_stage(Stage::Declare);
        }
    }
}

} // verus!
