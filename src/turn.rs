use crate::action::{blockable, challengeable, claim_backed, claim_holds, Action};
use crate::character::Character;
use crate::phase::Phase;
use crate::game::{
    coins_kept, hands_kept_but, turn_passed, declared_ok, lemma_count_eliminate, lemma_two_active, seat_after,
    GameError, GameState, Request, Stage, Then, MAX_COINS,
};
use crate::player::first_index;
use crate::random::shuffle_seeded;
use vstd::prelude::*;

verus! {

/// What follows the card surrender that settles a challenge: of a claim to an action
/// (`against_block` false) or of a block of `action` (`against_block` true).
pub open spec fn after_challenge(against_block: bool, successful: bool, action: Action) -> Then {
    if against_block {
        if successful {
            Then::Effect(action)
        } else {
            Then::EndTurn
        }
    } else {
        if successful {
            Then::EndTurn
        } else {
            Then::Proceed(action)
        }
    }
}

/// The seat a steal takes coins from, if `a` is a steal.
pub open spec fn steal_target(a: Action) -> int {
    match a {
        Action::Steal(t, _) => t as int,
        _ => -1,
    }
}

/// The effect of the actor's action `a` took place, from `b` to `f`: the coins it moves,
/// the card it costs its target, and the end of the turn.
pub open spec fn effect_done(b: GameState, f: GameState, a: Action) -> bool {
    let c = b.current_player as int;
    let before = b.coins_of(c);
    let after = f.coins_of(c);
    &&& f.players@.len() == b.players@.len()
    &&& forall|i: int|
        0 <= i < b.players@.len() && i != c && i != steal_target(a) ==> #[trigger] f.coins_of(i)
            == b.coins_of(i)
    &&& match a {
        Action::Income => after == before + 1 && turn_passed(b, f),
        Action::ForeignAid => after == before + 2 && turn_passed(b, f),
        Action::Tax => after == before + 3 && turn_passed(b, f),
        Action::Coup(t) => after == before - 7 && if f.active(t as int) {
            f.stage == Stage::Surrender { who: t, then: Then::EndTurn }
        } else {
            turn_passed(b, f)
        },
        Action::Assassinate(t) => after == before - 3 && if f.active(t as int) {
            f.stage == Stage::Surrender { who: t, then: Then::EndTurn }
        } else {
            turn_passed(b, f)
        },
        Action::Steal(t, amount) => after == before + amount && f.coins_of(t as int) == b.coins_of(
            t as int,
        ) - amount && turn_passed(b, f),
        Action::Exchange => after == before && (f.stage is ExchangeReturn || turn_passed(b, f)),
        _ => true,
    }
}

/// An action that stands went on from `b` to `f`: a blockable one is offered for blocks
/// unless nobody can block it, and otherwise it takes effect.
pub open spec fn proceed_done(b: GameState, f: GameState, a: Action) -> bool {
    if blockable(a) {
        (f.stage is BlockDeclare && f.stage->BlockDeclare_action == a && coins_kept(b, f))
            || effect_done(b, f, a)
    } else {
        effect_done(b, f, a)
    }
}

impl GameState {
    /// The first offset from `from` on, counted from seat `base`, whose seat has a move;
    /// the table size when none has.
    fn first_candidate(&self, base: usize, from: usize) -> (r: usize)
        requires
            self.wf_core(),
            base < self.players@.len(),
            1 <= from,
        ensures
            from <= r || r == self.num_players(),
            r <= self.num_players(),
            r < self.num_players() ==> self.has_move(
                seat_after(base as int, r as int, self.num_players()),
            ),
            forall|k: int|
                from <= k < r ==> !self.has_move(
                    #[trigger] seat_after(base as int, k, self.num_players()),
                ),
    {
        let n = self.players.len();
        if from >= n {
            return n;
        }
        let mut o: usize = from;
        while o < n
            invariant
                from <= o <= n,
                n == self.players@.len(),
                base < n,
                self.wf_core(),
                forall|k: int|
                    from <= k < o ==> !self.has_move(#[trigger] seat_after(base as int, k, n as int)),
            decreases n - o,
        {
            let seat = (base + o) % n;
            let moves = self.legal_moves(seat);
            if moves.len() > 0 {
                assert(moves@.contains(moves@[0]));
                assert(self.is_legal(seat as int, moves@[0]));
                return o;
            }
            proof {
                assert forall|m: Action| !self.is_legal(seat as int, m) by {
                    if self.is_legal(seat as int, m) {
                        assert(moves@.contains(m));
                    }
                }
            }
            o = o + 1;
        }
        n
    }

    /// Settles a challenge of `action` by `challenger`: of the current participant's action,
    /// or of the block made by `blocker`. The challenge succeeds when the claimant's hand
    /// does not back the claim; then the claimant surrenders a card, else the challenger
    /// does. The claimant keeps a card that proved the claim.
    pub fn resolve_challenge(&mut self, action: Action, challenger: usize, blocker: Option<usize>) -> (successful: bool)
        requires
            old(self).wf(),
            challenger < old(self).players@.len(),
            old(self).active(challenger as int),
            match blocker {
                None => old(self).stage matches Stage::ActionChallenge { action: a, .. } && a
                    == action && challenger != old(self).current_player,
                Some(b) => old(self).stage matches Stage::BlockChallenge { block, blocker: bb, .. }
                    && block == action && bb == b && challenger != b,
            },
        ensures
            ({
                let claimant = match blocker {
                    Some(b) => b,
                    None => old(self).current_player,
                };
                let pending = match old(self).stage {
                    Stage::BlockChallenge { action: a, .. } => a,
                    _ => action,
                };
                &&& successful == !claim_backed(action, old(self).hand_of(claimant as int))
                &&& final(self).stage == Stage::Surrender {
                    who: if successful {
                        claimant
                    } else {
                        challenger
                    },
                    then: after_challenge(blocker is Some, successful, pending),
                }
            }),
            final(self).wf(),
            final(self).players == old(self).players,
            final(self).deck == old(self).deck,
            final(self).revealed_characters == old(self).revealed_characters,
            final(self).eliminated == old(self).eliminated,
            final(self).current_player == old(self).current_player,
            final(self).history == old(self).history,
            final(self).phase == Phase::Challenge,
            final(self).phase == old(self).phase,
    {
        let claimant = match blocker {
            Some(b) => b,
            None => self.current_player,
        };
        let successful = !claim_holds(&action, &self.players[claimant].hand);
        let loser = if successful {
            claimant
        } else {
            challenger
        };
        let then = match (self.stage, blocker) {
            (Stage::BlockChallenge { action: a, .. }, Some(_)) => {
                if successful {
                    Then::Effect(a)
                } else {
                    Then::EndTurn
                }
            },
            _ => {
                if successful {
                    Then::EndTurn
                } else {
                    Then::Proceed(action)
                }
            },
        };
        proof {
            lemma_two_active(self.eliminated@, claimant as int, challenger as int);
        }
        self.set_stage(Stage::Surrender { who: loser, then });
        self.phase = Phase::Challenge;
        successful
    }

    /// The effect of the current participant's action, once nothing stopped it.
    pub fn apply_effect(&mut self, action: Action)
        requires
            old(self).wf_core(),
            old(self).active(old(self).current_player as int),
            declared_ok(
                action,
                old(self).current_player as int,
                old(self).coins_of(old(self).current_player as int),
                old(self).num_players(),
            ),
            old(self).steal_ok(action),
        ensures
            final(self).wf(),
            effect_done(*old(self), *final(self), action),
            hands_kept_but(*old(self), *final(self), old(self).current_player as int),
            final(self).eliminated == old(self).eliminated,
            final(self).revealed_characters == old(self).revealed_characters,
            final(self).history == old(self).history,
    {
        let c = self.current_player;
        let coins = self.players[c].coins;
        match action {
            Action::Income => {
                self.set_coins(c, coins + 1);
                proof {
                    assert forall|i: int| 0 <= i < self.num_players() && i != c implies #[trigger] self.players@[i]
                        == old(self).players@[i] by {}
                }
                self.end_turn();
            },
            Action::ForeignAid => {
                self.set_coins(c, coins + 2);
                proof {
                    assert forall|i: int| 0 <= i < self.num_players() && i != c implies #[trigger] self.players@[i]
                        == old(self).players@[i] by {}
                }
                self.end_turn();
            },
            Action::Tax => {
                self.set_coins(c, coins + 3);
                proof {
                    assert forall|i: int| 0 <= i < self.num_players() && i != c implies #[trigger] self.players@[i]
                        == old(self).players@[i] by {}
                }
                self.end_turn();
            },
            Action::Coup(t) => {
                self.set_coins(c, coins - 7);
                proof {
                    assert forall|i: int| 0 <= i < self.num_players() && i != c implies #[trigger] self.players@[i]
                        == old(self).players@[i] by {}
                }
                if !self.eliminated[t] {
                    proof {
                        lemma_two_active(self.eliminated@, c as int, t as int);
                    }
                    self.set_stage(Stage::Surrender { who: t, then: Then::EndTurn });
                } else {
                    self.end_turn();
                }
            },
            Action::Assassinate(t) => {
                self.set_coins(c, coins - 3);
                proof {
                    assert forall|i: int| 0 <= i < self.num_players() && i != c implies #[trigger] self.players@[i]
                        == old(self).players@[i] by {}
                }
                if !self.eliminated[t] {
                    proof {
                        lemma_two_active(self.eliminated@, c as int, t as int);
                    }
                    self.set_stage(Stage::Surrender { who: t, then: Then::EndTurn });
                } else {
                    self.end_turn();
                }
            },
            Action::Steal(t, amount) => {
                self.steal(c, t, amount);
                assert forall|i: int| 0 <= i < self.num_players() implies #[trigger] self.players@[i].coins
                    <= MAX_COINS && (self.eliminated@[i] <==> self.players@[i].hand@.len() == 0) by {
                    assert(self.hand_of(i) == old(self).hand_of(i));
                }
                assert forall|i: int| 0 <= i < self.num_players() && i != c && i != t implies #[trigger] self.players@[i]
                    == old(self).players@[i] by {}
                let ghost mid = *self;
                self.end_turn();
                assert forall|i: int| 0 <= i < self.num_players() && i != c implies #[trigger] self.hand_of(i)
                    == old(self).hand_of(i) by {
                    assert(self.players@[i] == mid.players@[i]);
                    assert(mid.hand_of(i) == old(self).hand_of(i));
                }
            },
            Action::Exchange => {
                let mut drawn: usize = 0;
                while drawn < 2 && self.deck.len() > 0
                    invariant
                        drawn <= 2,
                        self.wf_core(),
                        self.current_player == c,
                        self.coins_of(c as int) == coins,
                        !self.eliminated@[c as int],
                        self.hand_of(c as int).len() == old(self).hand_of(c as int).len() + drawn,
                        self.eliminated == old(self).eliminated,
                        self.revealed_characters == old(self).revealed_characters,
                        self.history == old(self).history,
                        self.players@.len() == old(self).players@.len(),
                        forall|i: int|
                            0 <= i < self.players@.len() && i != c ==> #[trigger] self.players@[i]
                                == old(self).players@[i],
                    decreases 2 - drawn,
                {
                    self.deal_card(c);
                    drawn = drawn + 1;
                }
                if drawn == 0 {
                    self.end_turn();
                } else {
                    self.set_stage(Stage::ExchangeReturn { left: drawn });
                }
            },
            _ => {
            },
        }
    }
}

/// Whether `v` holds the move `m`.
pub fn contains_move(v: &Vec<Action>, m: &Action) -> (r: bool)
    ensures
        r == v@.contains(*m),
{
    let mut i: usize = 0;
    while i < v.len()
        invariant
            i <= v@.len(),
            forall|j: int| 0 <= j < i ==> v@[j] != *m,
        decreases v@.len() - i,
    {
        if v[i] == *m {
            return true;
        }
        i = i + 1;
    }
    false
}

impl GameState {
    /// Offers the current participant's claim to the others, in seat order after it.
    fn open_action_challenge(&mut self, action: Action)
        requires
            old(self).wf_core(),
            old(self).active(old(self).current_player as int),
            declared_ok(
                action,
                old(self).current_player as int,
                old(self).coins_of(old(self).current_player as int),
                old(self).num_players(),
            ),
            challengeable(action),
            old(self).steal_ok(action),
        ensures
            final(self).wf(),
            (final(self).stage is ActionChallenge && final(self).stage->ActionChallenge_action
                == action && coins_kept(*old(self), *final(self))) || proceed_done(
                *old(self),
                *final(self),
                action,
            ),
            hands_kept_but(*old(self), *final(self), old(self).current_player as int),
            final(self).eliminated == old(self).eliminated,
            final(self).history == old(self).history,
    {
        let c = self.current_player;
        self.set_stage(Stage::ActionChallenge { action, offset: 1 });
        let o = self.first_candidate(c, 1);
        if o < self.players.len() {
            self.set_stage(Stage::ActionChallenge { action, offset: o });
        } else {
            self.proceed(action);
        }
    }

    /// The action stands: it is offered for blocks where it can be blocked, else it takes
    /// effect.
    fn proceed(&mut self, action: Action)
        requires
            old(self).wf_core(),
            old(self).active(old(self).current_player as int),
            declared_ok(
                action,
                old(self).current_player as int,
                old(self).coins_of(old(self).current_player as int),
                old(self).num_players(),
            ),
            old(self).steal_ok(action),
        ensures
            final(self).wf(),
            proceed_done(*old(self), *final(self), action),
            hands_kept_but(*old(self), *final(self), old(self).current_player as int),
            final(self).revealed_characters == old(self).revealed_characters,
            final(self).eliminated == old(self).eliminated,
            final(self).history == old(self).history,
    {
        if matches!(action, Action::ForeignAid | Action::Assassinate(_) | Action::Steal(_, _)) {
            self.open_blocks(action);
        } else {
            self.apply_effect(action);
        }
    }

    /// Offers a block of the action to the others, in seat order after the actor.
    fn open_blocks(&mut self, action: Action)
        requires
            old(self).wf_core(),
            old(self).active(old(self).current_player as int),
            declared_ok(
                action,
                old(self).current_player as int,
                old(self).coins_of(old(self).current_player as int),
                old(self).num_players(),
            ),
            blockable(action),
            old(self).steal_ok(action),
        ensures
            final(self).wf(),
            proceed_done(*old(self), *final(self), action),
            hands_kept_but(*old(self), *final(self), old(self).current_player as int),
            final(self).revealed_characters == old(self).revealed_characters,
            final(self).eliminated == old(self).eliminated,
            final(self).history == old(self).history,
    {
        let c = self.current_player;
        self.set_stage(Stage::BlockDeclare { action, offset: 1 });
        let o = self.first_candidate(c, 1);
        if o < self.players.len() {
            self.set_stage(Stage::BlockDeclare { action, offset: o });
        } else {
            self.apply_effect(action);
        }
    }

    /// Offers the block of `blocker` for challenge to the others, in seat order after it.
    fn open_block_challenge(&mut self, action: Action, block: Action, blocker: usize)
        requires
            old(self).wf_core(),
            old(self).active(old(self).current_player as int),
            declared_ok(
                action,
                old(self).current_player as int,
                old(self).coins_of(old(self).current_player as int),
                old(self).num_players(),
            ),
            blockable(action),
            block is Block,
            blocker != old(self).current_player,
            old(self).active(blocker as int),
            old(self).steal_ok(action),
        ensures
            final(self).wf(),
            (final(self).stage is BlockChallenge && final(self).stage->BlockChallenge_action == action
                && final(self).stage->BlockChallenge_block == block
                && final(self).stage->BlockChallenge_blocker == blocker) || turn_passed(
                *old(self),
                *final(self),
            ),
            final(self).players == old(self).players,
            final(self).eliminated == old(self).eliminated,
            final(self).history == old(self).history,
    {
        self.set_stage(Stage::BlockChallenge { action, block, blocker, offset: 1 });
        let o = self.first_candidate(blocker, 1);
        if o < self.players.len() {
            self.set_stage(Stage::BlockChallenge { action, block, blocker, offset: o });
        } else {
            self.end_turn();
        }
    }

    /// What follows a card surrender.
    fn continue_after(&mut self, then: Then)
        requires
            old(self).wf_core(),
            old(self).then_ok(then),
        ensures
            final(self).wf(),
            then == Then::EndTurn ==> turn_passed(*old(self), *final(self)),
            then is Proceed ==> proceed_done(*old(self), *final(self), then->Proceed_0),
            then is Effect ==> effect_done(*old(self), *final(self), then->Effect_0),
            hands_kept_but(*old(self), *final(self), old(self).current_player as int),
            final(self).revealed_characters == old(self).revealed_characters,
            final(self).eliminated == old(self).eliminated,
            then == Then::EndTurn ==> final(self).players == old(self).players,
            then == Then::EndTurn ==> final(self).stage == Stage::Declare || final(self).stage
                == Stage::Over,
            then == Then::Effect(Action::ForeignAid) ==> final(self).coins_of(
                old(self).current_player as int,
            ) == old(self).coins_of(old(self).current_player as int) + 2,
            final(self).history == old(self).history,
    {
        match then {
            Then::EndTurn => self.end_turn(),
            Then::Proceed(a) => self.proceed(a),
            Then::Effect(a) => self.apply_effect(a),
        }
    }
}

impl GameState {
    /// The seat that is to pick a move, if the match waits for a move.
    pub open spec fn asked(&self) -> Option<int> {
        let n = self.num_players();
        let c = self.current_player as int;
        match self.stage {
            Stage::Declare => Some(c),
            Stage::ActionChallenge { offset, .. } => Some(seat_after(c, offset as int, n)),
            Stage::BlockDeclare { offset, .. } => Some(seat_after(c, offset as int, n)),
            Stage::BlockChallenge { blocker, offset, .. } => Some(
                seat_after(blocker as int, offset as int, n),
            ),
            _ => None,
        }
    }

    /// The moves offered to the asked seat: its legal moves, and a pass unless it is
    /// declaring its turn's action.
    pub open spec fn offers(&self, m: Action) -> bool {
        match self.asked() {
            Some(p) => self.is_legal(p, m) || (self.stage != Stage::Declare && m == Action::Pass),
            None => false,
        }
    }

    /// The seat that is to pick a card, if the match waits for a card.
    pub open spec fn card_asked(&self) -> Option<int> {
        match self.stage {
            Stage::Surrender { who, .. } => Some(who as int),
            Stage::ExchangeReturn { .. } => Some(self.current_player as int),
            _ => None,
        }
    }

    fn asked_seat(&self) -> (r: usize)
        requires
            self.wf(),
            self.asked() is Some,
        ensures
            r as int == self.asked()->0,
            r < self.players@.len(),
    {
        let n = self.players.len();
        let c = self.current_player;
        match self.stage {
            Stage::ActionChallenge { offset, .. } => (c + offset) % n,
            Stage::BlockDeclare { offset, .. } => (c + offset) % n,
            Stage::BlockChallenge { blocker, offset, .. } => (blocker + offset) % n,
            _ => c,
        }
    }

    /// What the match needs next.
    pub fn request(&self) -> (r: Request)
        requires
            self.wf(),
        ensures
            r matches Request::ChooseMove { player, options } ==> self.asked() == Some(
                player as int,
            ) && forall|m: Action| #[trigger] options@.contains(m) <==> self.offers(m),
            r matches Request::ChooseCard { player } ==> self.card_asked() == Some(player as int),
            r is Finished <==> self.stage == Stage::Over,
            r is ChooseMove <==> self.asked() is Some,
            r is ChooseCard <==> self.card_asked() is Some,
    {
        match self.stage {
            Stage::Surrender { who, .. } => Request::ChooseCard { player: who },
            Stage::ExchangeReturn { .. } => Request::ChooseCard { player: self.current_player },
            Stage::Over => Request::Finished,
            _ => {
                let player = self.asked_seat();
                let mut options = self.legal_moves(player);
                if self.stage != Stage::Declare {
                    Self::push_move(&mut options, Action::Pass);
                }
                Request::ChooseMove { player, options }
            },
        }
    }

    /// Takes the move picked by the asked seat and runs the turn on until the next decision.
    /// A challenge is settled at once: the claimant's hand decides who surrenders a card,
    /// and whether the action still goes ahead.
    pub fn submit_move(&mut self, mv: Action) -> (r: Result<(), GameError>)
        requires
            old(self).wf(),
        ensures
            final(self).wf(),
            r == Err::<(), GameError>(GameError::UnexpectedDecision) <==> old(self).asked() is None,
            r == Err::<(), GameError>(GameError::IllegalMoveSelected) <==> old(self).asked() is Some
                && !old(self).offers(mv),
            r is Ok <==> old(self).asked() is Some && old(self).offers(mv),
            r is Err ==> *final(self) == *old(self),
            hands_kept_but(*old(self), *final(self), old(self).current_player as int),
            r is Ok && old(self).stage == Stage::Declare ==> (challengeable(mv) && final(self).stage is ActionChallenge && final(self).stage->ActionChallenge_action == mv
                && coins_kept(*old(self), *final(self))) || proceed_done(*old(self), *final(self), mv),
            r is Ok && mv == Action::Pass && old(self).stage is ActionChallenge ==> {
                let off = old(self).stage->ActionChallenge_offset as int;
                let c = old(self).current_player as int;
                let n = old(self).num_players();
                ||| final(self).stage is ActionChallenge && final(self).stage->ActionChallenge_action
                    == old(self).stage->ActionChallenge_action && off
                    < final(self).stage->ActionChallenge_offset && coins_kept(*old(self), *final(self))
                    && forall|k: int|
                    off < k < final(self).stage->ActionChallenge_offset ==> !old(self).has_move(
                        #[trigger] seat_after(c, k, n),
                    )
                ||| (forall|k: int| off < k < n ==> !old(self).has_move(#[trigger] seat_after(c, k, n)))
                    && proceed_done(*old(self), *final(self), old(self).stage->ActionChallenge_action)
            },
            r is Ok && mv == Action::Pass && old(self).stage is BlockDeclare ==> {
                let off = old(self).stage->BlockDeclare_offset as int;
                let c = old(self).current_player as int;
                let n = old(self).num_players();
                ||| final(self).stage is BlockDeclare && final(self).stage->BlockDeclare_action
                    == old(self).stage->BlockDeclare_action && off < final(self).stage->BlockDeclare_offset
                    && coins_kept(*old(self), *final(self)) && forall|k: int|
                    off < k < final(self).stage->BlockDeclare_offset ==> !old(self).has_move(
                        #[trigger] seat_after(c, k, n),
                    )
                ||| (forall|k: int| off < k < n ==> !old(self).has_move(#[trigger] seat_after(c, k, n)))
                    && effect_done(*old(self), *final(self), old(self).stage->BlockDeclare_action)
            },
            r is Ok && mv == Action::Pass && old(self).stage is BlockChallenge ==> {
                let off = old(self).stage->BlockChallenge_offset as int;
                let b = old(self).stage->BlockChallenge_blocker as int;
                let n = old(self).num_players();
                ||| final(self).stage is BlockChallenge && final(self).stage->BlockChallenge_action
                    == old(self).stage->BlockChallenge_action && final(self).stage->BlockChallenge_block
                    == old(self).stage->BlockChallenge_block && final(self).stage->BlockChallenge_blocker
                    == b && off < final(self).stage->BlockChallenge_offset && coins_kept(
                    *old(self),
                    *final(self),
                ) && forall|k: int|
                    off < k < final(self).stage->BlockChallenge_offset ==> !old(self).has_move(
                        #[trigger] seat_after(b, k, n),
                    )
                ||| (forall|k: int| off < k < n ==> !old(self).has_move(#[trigger] seat_after(b, k, n)))
                    && turn_passed(*old(self), *final(self)) && coins_kept(*old(self), *final(self))
            },
            r is Ok && mv != Action::Pass && old(self).stage is BlockDeclare ==> coins_kept(
                *old(self),
                *final(self),
            ) && ((final(self).stage is BlockChallenge && final(self).stage->BlockChallenge_action
                == old(self).stage->BlockDeclare_action && final(self).stage->BlockChallenge_block
                == mv && final(self).stage->BlockChallenge_blocker as int == old(self).asked()->0)
                || turn_passed(*old(self), *final(self))),
            r is Ok ==> final(self).history@ == old(self).history@.push(
                (mv, old(self).asked()->0 as usize),
            ),
            final(self).eliminated == old(self).eliminated,
            r is Ok && old(self).stage == Stage::Declare && mv == Action::Income
                ==> final(self).coins_of(old(self).current_player as int) == old(self).coins_of(
                old(self).current_player as int,
            ) + 1,
            r is Ok && old(self).stage == Stage::Declare && mv is Coup ==> {
                &&& final(self).coins_of(old(self).current_player as int) == old(self).coins_of(
                    old(self).current_player as int,
                ) - 7
                &&& final(self).stage == Stage::Surrender { who: mv->Coup_0, then: Then::EndTurn }
            },
            r is Ok && mv is Challenge ==> ({
                let c = old(self).current_player;
                let asked = old(self).asked()->0 as usize;
                match old(self).stage {
                    Stage::ActionChallenge { action, .. } => {
                        let successful = !claim_backed(action, old(self).hand_of(c as int));
                        final(self).stage == Stage::Surrender {
                            who: if successful {
                                c
                            } else {
                                asked
                            },
                            then: after_challenge(false, successful, action),
                        }
                    },
                    Stage::BlockChallenge { action, block, blocker, .. } => {
                        let successful = !claim_backed(block, old(self).hand_of(blocker as int));
                        final(self).stage == Stage::Surrender {
                            who: if successful {
                                blocker
                            } else {
                                asked
                            },
                            then: after_challenge(true, successful, action),
                        }
                    },
                    _ => false,
                }
            }),
    {
        match self.stage {
            Stage::Surrender { .. } | Stage::ExchangeReturn { .. } | Stage::Over => {
                return Err(GameError::UnexpectedDecision);
            },
            _ => {},
        }
        let asked = self.asked_seat();
        let legal = self.legal_moves(asked);
        let is_pass = matches!(mv, Action::Pass);
        if !contains_move(&legal, &mv) && (self.stage == Stage::Declare || !is_pass) {
            return Err(GameError::IllegalMoveSelected);
        }
        proof {
            if !is_pass || self.stage == Stage::Declare {
                assert(self.is_legal(asked as int, mv));
            }
        }
        let c = self.current_player;
        let n = self.players.len();
        self.history.push((mv, asked));
        proof {
            assert forall|p: int, m: Action| #[trigger] self.is_legal(p, m) == old(self).is_legal(
                p,
                m,
            ) by {}
            assert forall|p: int| #[trigger] self.has_move(p) == old(self).has_move(p) by {
                if self.has_move(p) {
                    let m = choose|m: Action| self.is_legal(p, m);
                    assert(old(self).is_legal(p, m));
                }
                if old(self).has_move(p) {
                    let m = choose|m: Action| old(self).is_legal(p, m);
                    assert(self.is_legal(p, m));
                }
            }
        }
        match self.stage {
            Stage::Declare => {
                if matches!(mv, Action::Tax | Action::Assassinate(_) | Action::Steal(_, _) | Action::Exchange) {
                    self.open_action_challenge(mv);
                } else if matches!(mv, Action::ForeignAid) {
                    self.open_blocks(mv);
                } else {
                    self.apply_effect(mv);
                }
            },
            Stage::ActionChallenge { action, offset } => {
                if is_pass {
                    let o = self.first_candidate(c, offset + 1);
                    if o < n {
                        self.set_stage(Stage::ActionChallenge { action, offset: o });
                    } else {
                        self.proceed(action);
                    }
                } else {
                    self.resolve_challenge(action, asked, None);
                }
            },
            Stage::BlockDeclare { action, offset } => {
                if is_pass {
                    let o = self.first_candidate(c, offset + 1);
                    if o < n {
                        self.set_stage(Stage::BlockDeclare { action, offset: o });
                    } else {
                        self.apply_effect(action);
                    }
                } else {
                    self.open_block_challenge(action, mv, asked);
                }
            },
            Stage::BlockChallenge { action, block, blocker, offset } => {
                if is_pass {
                    let o = self.first_candidate(blocker, offset + 1);
                    if o < n {
                        self.set_stage(Stage::BlockChallenge { action, block, blocker, offset: o });
                    } else {
                        self.end_turn();
                    }
                } else {
                    self.resolve_challenge(block, asked, Some(blocker));
                }
            },
            _ => {},
        }
        Ok(())
    }
}

impl GameState {
    /// Takes the card picked by the seat that is to give one up, and runs the turn on until
    /// the next decision. A surrendered card is revealed; a card returned after an exchange
    /// goes back to the pile, which is shuffled once the last one is back.
    pub fn submit_card(&mut self, card: Character) -> (r: Result<(), GameError>)
        requires
            old(self).wf(),
        ensures
            final(self).wf(),
            r == Err::<(), GameError>(GameError::UnexpectedDecision) <==> old(
                self,
            ).card_asked() is None,
            r == Err::<(), GameError>(GameError::CardNotHeld) <==> old(self).card_asked() is Some
                && !old(self).hand_of(old(self).card_asked()->0).contains(card),
            r is Err ==> *final(self) == *old(self),
            r is Ok ==> final(self).history == old(self).history,
            final(self).eliminated@.len() == old(self).eliminated@.len(),
            forall|i: int|
                0 <= i < old(self).eliminated@.len() && old(self).eliminated@[i]
                    ==> #[trigger] final(self).eliminated@[i],
            r is Ok && old(self).stage is Surrender ==> final(self).revealed_characters@ == old(
                self,
            ).revealed_characters@.push(card),
            r is Ok && old(self).stage is ExchangeReturn ==> final(self).revealed_characters
                == old(self).revealed_characters,
            r is Ok <==> old(self).card_asked() is Some && old(self).hand_of(
                old(self).card_asked()->0,
            ).contains(card),
            r is Ok && old(self).stage is Surrender ==> {
                let who = old(self).stage->who as int;
                let then = old(self).stage->then;
                let c = old(self).current_player as int;
                &&& exists|k: int|
                    first_index(old(self).hand_of(who), card, k) && final(self).hand_of(who) == old(
                        self,
                    ).hand_of(who).remove(k)
                &&& forall|i: int|
                    0 <= i < old(self).num_players() && i != who && i != c ==> #[trigger] final(self).hand_of(i) == old(self).hand_of(i)
                &&& final(self).eliminated@ == old(self).eliminated@.update(
                    who,
                    old(self).hand_of(who).len() == 1,
                )
                &&& then == Then::EndTurn ==> hands_kept_but(*old(self), *final(self), who)
                    && turn_passed(*old(self), *final(self)) && coins_kept(*old(self), *final(self))
                &&& then is Proceed ==> proceed_done(*old(self), *final(self), then->Proceed_0)
                &&& then is Effect ==> effect_done(*old(self), *final(self), then->Effect_0)
            },
            r is Ok && old(self).stage is ExchangeReturn ==> {
                let c = old(self).current_player as int;
                let left = old(self).stage->left;
                &&& final(self).deck@.to_multiset() == old(self).deck@.to_multiset().insert(card)
                &&& exists|k: int|
                    first_index(old(self).hand_of(c), card, k) && final(self).hand_of(c) == old(
                        self,
                    ).hand_of(c).remove(k)
                &&& hands_kept_but(*old(self), *final(self), c)
                &&& coins_kept(*old(self), *final(self))
                &&& left <= 1 ==> turn_passed(*old(self), *final(self))
                &&& left > 1 ==> final(self).stage == Stage::ExchangeReturn { left: (left - 1) as usize }
            },
    {
        match self.stage {
            Stage::Surrender { who, then } => {
                let ghost c = self.current_player as int;
                self.surrender(who, card)?;
                proof {
                    let e0 = old(self).eliminated@;
                    if !e0[who as int] && self.hand_of(who as int).len() == 0 {
                        lemma_count_eliminate(e0, who as int);
                    } else {
                        assert(self.eliminated@ =~= e0);
                    }
                    if then != Then::EndTurn {
                        assert(self.players@[c] == old(self).players@[c]);
                    }
                }
                proof {
                    assert forall|i: int| 0 <= i < old(self).num_players() implies #[trigger] self.coins_of(i)
                        == old(self).coins_of(i) by {
                        if i != who {
                            assert(self.players@[i] == old(self).players@[i]);
                        }
                    }
                }
                self.continue_after(then);
                Ok(())
            },
            Stage::ExchangeReturn { left } => {
                self.return_card(card)?;
                let ghost returned = *self;
                if left <= 1 {
                    let seed = self.seed;
                    let ghost before = *self;
                    shuffle_seeded(&mut self.deck, seed);
                    proof {
                        assert(self.all_cards() == before.all_cards());
                        let c = self.current_player as int;
                        assert forall|i: int| 0 <= i < self.num_players() implies #[trigger] self.players@[i].coins
                            <= MAX_COINS && (self.eliminated@[i] <==> self.players@[i].hand@.len() == 0) by {
                            if i != c {
                                assert(self.players@[i] == old(self).players@[i]);
                            }
                        }
                    }
                    self.seed = if seed < u64::MAX {
                        seed + 1
                    } else {
                        0
                    };
                    self.end_turn();
                } else {
                    self.set_stage(Stage::ExchangeReturn { left: left - 1 });
                }
                proof {
                    broadcast use vstd::seq_lib::to_multiset_build;

                    assert(self.deck@.to_multiset() == returned.deck@.to_multiset());
                    assert(self.players@ == returned.players@);
                }
                Ok(())
            },
            _ => Err(GameError::UnexpectedDecision),
        }
    }
}

} // verus!
