use crate::action::{hand_contains, Action, BlockAction, ChallengeAction};
use crate::character::Character;
use crate::game::{GameState, Stage};
use vstd::prelude::*;

verus! {

/// The challenge move that disputes `claim`, made by `claimant`, if the claim can be
/// disputed.
pub open spec fn challenge_for(claim: Action, claimant: usize) -> Option<Action> {
    match claim {
        Action::Block(BlockAction::Assassinate(from), _, _) => Some(
            Action::Challenge(ChallengeAction::BlockAssassination(from), claimant),
        ),
        Action::Block(BlockAction::Stealing(from, amount), _, _) => Some(
            Action::Challenge(ChallengeAction::BlockStealing(from, amount), claimant),
        ),
        Action::Block(BlockAction::ForeignAid(from), _, _) => Some(
            Action::Challenge(ChallengeAction::BlockForeignAid(from), claimant),
        ),
        Action::Exchange => Some(Action::Challenge(ChallengeAction::Exchange, claimant)),
        Action::Steal(target, amount) => Some(
            Action::Challenge(ChallengeAction::Stealing(target, amount), claimant),
        ),
        Action::Assassinate(target) => Some(
            Action::Challenge(ChallengeAction::Assassination(target), claimant),
        ),
        Action::Tax => Some(Action::Challenge(ChallengeAction::Tax, claimant)),
        _ => None,
    }
}

/// The challenge move that disputes `claim`, made by `claimant`.
pub fn challenge_move(claim: &Action, claimant: usize) -> (r: Option<Action>)
    ensures
        r == challenge_for(*claim, claimant),
{
    match claim {
        Action::Block(BlockAction::Assassinate(from), _, _) => Some(
            Action::Challenge(ChallengeAction::BlockAssassination(*from), claimant),
        ),
        Action::Block(BlockAction::Stealing(from, amount), _, _) => Some(
            Action::Challenge(ChallengeAction::BlockStealing(*from, *amount), claimant),
        ),
        Action::Block(BlockAction::ForeignAid(from), _, _) => Some(
            Action::Challenge(ChallengeAction::BlockForeignAid(*from), claimant),
        ),
        Action::Exchange => Some(Action::Challenge(ChallengeAction::Exchange, claimant)),
        Action::Steal(target, amount) => Some(
            Action::Challenge(ChallengeAction::Stealing(*target, *amount), claimant),
        ),
        Action::Assassinate(target) => Some(
            Action::Challenge(ChallengeAction::Assassination(*target), claimant),
        ),
        Action::Tax => Some(Action::Challenge(ChallengeAction::Tax, claimant)),
        _ => None,
    }
}

/// The role a hand claims when it blocks with `role`: that role where it holds it, none
/// for a bluff.
pub open spec fn block_claim(h: Seq<Character>, role: Character) -> Option<Character> {
    if h.contains(role) {
        Some(role)
    } else {
        None
    }
}

impl GameState {
    /// Seat `t` may be aimed at by seat `p`.
    pub open spec fn target_ok(&self, p: int, t: int) -> bool {
        t != p && self.active(t)
    }

    /// The turn action `m` is open to seat `p` with its current coins.
    pub open spec fn action_move_ok(&self, p: int, m: Action) -> bool {
        let coins = self.coins_of(p);
        if coins >= 10 {
            m matches Action::Coup(t) && self.target_ok(p, t as int)
        } else {
            match m {
                Action::Coup(t) => coins >= 7 && self.target_ok(p, t as int),
                Action::Assassinate(t) => coins >= 3 && self.target_ok(p, t as int),
                Action::Steal(t, amount) => self.target_ok(p, t as int) && amount as int == if self.coins_of(
                    t as int,
                ) < 2 {
                    self.coins_of(t as int)
                } else {
                    2
                },
                Action::Income | Action::ForeignAid | Action::Tax | Action::Exchange => true,
                _ => false,
            }
        }
    }

    /// The block `m` is open to seat `p` against the pending `action`: one for each role it
    /// holds that blocks it, or a bluff without a role when it holds none.
    pub open spec fn block_move_ok(&self, p: int, action: Action, m: Action) -> bool {
        let cur = self.current_player;
        let h = self.hand_of(p);
        match action {
            Action::Assassinate(t) => t == p && m == Action::Block(
                BlockAction::Assassinate(t),
                cur,
                block_claim(h, Character::Contessa),
            ),
            Action::Steal(t, amount) => t == p && {
                let b = BlockAction::Stealing(t, amount);
                if h.contains(Character::Captain) || h.contains(Character::Ambassador) {
                    (h.contains(Character::Captain) && m == Action::Block(
                        b,
                        cur,
                        Some(Character::Captain),
                    )) || (h.contains(Character::Ambassador) && m == Action::Block(
                        b,
                        cur,
                        Some(Character::Ambassador),
                    ))
                } else {
                    m == Action::Block(b, cur, None)
                }
            },
            Action::ForeignAid => m == Action::Block(
                BlockAction::ForeignAid(cur),
                cur,
                block_claim(h, Character::Duke),
            ),
            _ => false,
        }
    }

    /// The moves that seat `p` may declare where the match stands.
    pub open spec fn is_legal(&self, p: int, m: Action) -> bool {
        let cur = self.current_player as int;
        self.active(p) && match self.stage {
            Stage::Declare => p == cur && self.action_move_ok(p, m),
            Stage::ActionChallenge { action, .. } => p != cur && challenge_for(
                action,
                self.current_player,
            ) == Some(m),
            Stage::BlockDeclare { action, .. } => p != cur && self.block_move_ok(p, action, m),
            Stage::BlockChallenge { block, blocker, .. } => p != blocker && challenge_for(
                block,
                blocker,
            ) == Some(m),
            _ => false,
        }
    }
}

pub proof fn lemma_push_contains(s: Seq<Action>, x: Action, m: Action)
    ensures
        s.push(x).contains(m) <==> (s.contains(m) || m == x),
{
    if s.push(x).contains(m) {
        let i = choose|i: int| 0 <= i < s.push(x).len() && s.push(x)[i] == m;
        if i < s.len() {
            assert(s[i] == m);
        }
    }
    if s.contains(m) {
        let i = choose|i: int| 0 <= i < s.len() && s[i] == m;
        assert(s.push(x)[i] == m);
    }
    if m == x {
        assert(s.push(x)[s.len() as int] == m);
    }
}

impl GameState {
    pub(crate) fn push_move(v: &mut Vec<Action>, m: Action)
        ensures
            final(v)@ == old(v)@.push(m),
            forall|x: Action| #[trigger] final(v)@.contains(x) <==> (old(v)@.contains(x) || x == m),
            old(v)@.no_duplicates() && !old(v)@.contains(m) ==> final(v)@.no_duplicates(),
    {
        v.push(m);
        proof {
            if old(v)@.no_duplicates() && !old(v)@.contains(m) {
                assert forall|i: int, j: int|
                    0 <= i < v@.len() && 0 <= j < v@.len() && i != j implies v@[i] != v@[j] by {
                    if i == old(v)@.len() as int {
                        assert(old(v)@.contains(v@[j]));
                    } else if j == old(v)@.len() as int {
                        assert(old(v)@.contains(v@[i]));
                    }
                }
            }
            assert forall|x: Action| #[trigger] v@.contains(x) <==> (old(v)@.contains(x) || x == m) by {
                lemma_push_contains(old(v)@, m, x);
            }
        }
    }

    /// The turn actions open to seat `p`.
    fn action_moves(&self, p: usize) -> (r: Vec<Action>)
        requires
            p < self.players@.len(),
            self.eliminated@.len() == self.players@.len(),
        ensures
            forall|m: Action| #[trigger] r@.contains(m) <==> self.action_move_ok(p as int, m),
            r@.no_duplicates(),
    {
        let mut r: Vec<Action> = Vec::new();
        let coins = self.players[p].coins;
        let n = self.players.len();
        let mut t: usize = 0;
        while t < n
            invariant
                t <= n,
                n == self.players@.len(),
                self.eliminated@.len() == n,
                p < n,
                coins == self.coins_of(p as int),
                forall|m: Action| #[trigger]
                    r@.contains(m) <==> (self.action_move_ok(p as int, m) && match m {
                        Action::Coup(x) => x < t,
                        Action::Assassinate(x) => x < t,
                        Action::Steal(x, _) => x < t,
                        _ => false,
                    }),
                r@.no_duplicates(),
            decreases n - t,
        {
            if t != p && !self.eliminated[t] {
                if coins >= 7 {
                    Self::push_move(&mut r, Action::Coup(t));
                }
                if coins < 10 {
                    if coins >= 3 {
                        Self::push_move(&mut r, Action::Assassinate(t));
                    }
                    let tc = self.players[t].coins;
                    let amount: usize = if tc < 2 {
                        tc
                    } else {
                        2
                    };
                    Self::push_move(&mut r, Action::Steal(t, amount));
                }
            }
            t = t + 1;
        }
        if coins < 10 {
            Self::push_move(&mut r, Action::ForeignAid);
            Self::push_move(&mut r, Action::Income);
            Self::push_move(&mut r, Action::Tax);
            Self::push_move(&mut r, Action::Exchange);
        }
        r
    }
}

impl GameState {
    /// The blocks open to seat `p` against the pending `action`.
    fn block_moves(&self, p: usize, action: Action) -> (r: Vec<Action>)
        requires
            p < self.players@.len(),
        ensures
            forall|m: Action| #[trigger] r@.contains(m) <==> self.block_move_ok(p as int, action, m),
            r@.no_duplicates(),
    {
        let mut r: Vec<Action> = Vec::new();
        let cur = self.current_player;
        let h = &self.players[p].hand;
        match action {
            Action::Assassinate(t) => {
                if t == p {
                    let claim = if hand_contains(h, Character::Contessa) {
                        Some(Character::Contessa)
                    } else {
                        None
                    };
                    Self::push_move(&mut r, Action::Block(BlockAction::Assassinate(t), cur, claim));
                }
            },
            Action::Steal(t, amount) => {
                if t == p {
                    let b = BlockAction::Stealing(t, amount);
                    let captain = hand_contains(h, Character::Captain);
                    let ambassador = hand_contains(h, Character::Ambassador);
                    if captain || ambassador {
                        if captain {
                            Self::push_move(&mut r, Action::Block(b, cur, Some(Character::Captain)));
                        }
                        if ambassador {
                            Self::push_move(
                                &mut r,
                                Action::Block(b, cur, Some(Character::Ambassador)),
                            );
                        }
                    } else {
                        Self::push_move(&mut r, Action::Block(b, cur, None));
                    }
                }
            },
            Action::ForeignAid => {
                let claim = if hand_contains(h, Character::Duke) {
                    Some(Character::Duke)
                } else {
                    None
                };
                Self::push_move(&mut r, Action::Block(BlockAction::ForeignAid(cur), cur, claim));
            },
            _ => {},
        }
        r
    }

    /// The moves that seat `p` may declare where the match stands: the turn actions of the
    /// current participant, the blocks open against a pending action, or the one challenge
    /// of the pending claim.
    pub fn legal_moves(&self, p: usize) -> (r: Vec<Action>)
        requires
            self.eliminated@.len() == self.players@.len(),
        ensures
            forall|m: Action| #[trigger] r@.contains(m) <==> self.is_legal(p as int, m),
            r@.no_duplicates(),
    {
        if p >= self.players.len() || self.eliminated[p] {
            return Vec::new();
        }
        let cur = self.current_player;
        match self.stage {
            Stage::Declare => {
                if p == cur {
                    self.action_moves(p)
                } else {
                    Vec::new()
                }
            },
            Stage::ActionChallenge { action, .. } => {
                let mut r: Vec<Action> = Vec::new();
                if p != cur {
                    if let Some(c) = challenge_move(&action, cur) {
                        Self::push_move(&mut r, c);
                    }
                }
                r
            },
            Stage::BlockDeclare { action, .. } => {
                if p != cur {
                    self.block_moves(p, action)
                } else {
                    Vec::new()
                }
            },
            Stage::BlockChallenge { block, blocker, .. } => {
                let mut r: Vec<Action> = Vec::new();
                if p != blocker {
                    if let Some(c) = challenge_move(&block, blocker) {
                        Self::push_move(&mut r, c);
                    }
                }
                r
            },
            _ => Vec::new(),
        }
    }
}

} // verus!
