use crate::character::Character;
use vstd::prelude::*;

verus! {

/// A block claim, naming the action it suspends.
#[derive(Debug, Clone, Copy, PartialEq, Eq, Structural)]
pub enum BlockAction {
    /// Blocks an assassination aimed at the given participant.
    Assassinate(usize),
    /// Blocks a steal from the given participant of the given number of coins.
    Stealing(usize, usize),
    /// Blocks foreign aid taken by the given participant.
    ForeignAid(usize),
}

/// The claim that a challenge disputes.
#[derive(Debug, Clone, Copy, PartialEq, Eq, Structural)]
pub enum ChallengeAction {
    BlockAssassination(usize),
    BlockStealing(usize, usize),
    BlockForeignAid(usize),
    Exchange,
    Stealing(usize, usize),
    Assassination(usize),
    Tax,
}

/// A move: an action, a block, a challenge, or a pass.
#[derive(Debug, Clone, Copy, PartialEq, Eq, Structural)]
pub enum Action {
    Income,
    ForeignAid,
    Tax,
    /// Coup against the given participant.
    Coup(usize),
    /// Assassinate the given participant.
    Assassinate(usize),
    /// Steal from a participant (target, coins).
    Steal(usize, usize),
    Exchange,
    /// A block of an action, the participant being blocked, and the role claimed (none for a bluff).
    Block(BlockAction, usize, Option<Character>),
    /// A challenge of a claim, naming the claimant.
    Challenge(ChallengeAction, usize),
    Pass,
}

/// Whether a move is one of the seven actions a participant declares on its turn.
pub open spec fn spec_is_action(a: Action) -> bool {
    !(a is Block || a is Challenge || a is Pass)
}

/// Whether a move is an action or a block.
pub open spec fn spec_is_action_or_block(a: Action) -> bool {
    !(a is Challenge || a is Pass)
}

/// Whether a move is a claim that can be challenged: an action that needs a role, or a block.
pub open spec fn challengeable(a: Action) -> bool {
    a is Tax || a is Assassinate || a is Steal || a is Exchange || a is Block
}

/// Whether an action can be blocked.
pub open spec fn blockable(a: Action) -> bool {
    a is ForeignAid || a is Assassinate || a is Steal
}

/// Whether a hand backs the claim that a move makes. A move that claims no role is
/// always backed.
pub open spec fn claim_backed(a: Action, hand: Seq<Character>) -> bool {
    match a {
        Action::Tax => hand.contains(Character::Duke),
        Action::Assassinate(_) => hand.contains(Character::Assassin),
        Action::Steal(_, _) => hand.contains(Character::Captain),
        Action::Exchange => hand.contains(Character::Ambassador),
        Action::Block(BlockAction::ForeignAid(_), _, _) => hand.contains(Character::Duke),
        Action::Block(BlockAction::Assassinate(_), _, _) => hand.contains(Character::Contessa),
        Action::Block(BlockAction::Stealing(_, _), _, _) => hand.contains(Character::Captain)
            || hand.contains(Character::Ambassador),
        _ => true,
    }
}

/// Whether a hand holds a role.
pub fn hand_contains(hand: &Vec<Character>, c: Character) -> (r: bool)
    ensures
        r == hand@.contains(c),
{
    let mut i: usize = 0;
    while i < hand.len()
        invariant
            i <= hand@.len(),
            forall|j: int| 0 <= j < i ==> hand@[j] != c,
        decreases hand@.len() - i,
    {
        if hand[i] == c {
            return true;
        }
        i = i + 1;
    }
    false
}

/// Whether a hand backs the claim made by a move.
pub fn claim_holds(a: &Action, hand: &Vec<Character>) -> (r: bool)
    ensures
        r == claim_backed(*a, hand@),
{
    match a {
        Action::Tax => hand_contains(hand, Character::Duke),
        Action::Assassinate(_) => hand_contains(hand, Character::Assassin),
        Action::Steal(_, _) => hand_contains(hand, Character::Captain),
        Action::Exchange => hand_contains(hand, Character::Ambassador),
        Action::Block(BlockAction::ForeignAid(_), _, _) => hand_contains(hand, Character::Duke),
        Action::Block(BlockAction::Assassinate(_), _, _) => hand_contains(hand, Character::Contessa),
        Action::Block(BlockAction::Stealing(_, _), _, _) => hand_contains(hand, Character::Captain)
            || hand_contains(hand, Character::Ambassador),
        _ => true,
    }
}

/// The fixed move space for three participants at positions `pos0`, `pos1`, `pos2`, in
/// its fixed order.
pub open spec fn move_space(pos0: usize, pos1: usize, pos2: usize) -> Seq<Action> {
    seq![
        Action::Income,
        Action::ForeignAid,
        Action::Tax,
        Action::Coup(pos1),
        Action::Coup(pos2),
        Action::Assassinate(pos1),
        Action::Assassinate(pos2),
        Action::Steal(pos1, 2),
        Action::Steal(pos2, 2),
        Action::Steal(pos1, 1),
        Action::Steal(pos2, 1),
        Action::Steal(pos1, 0),
        Action::Steal(pos2, 0),
        Action::Exchange,
        Action::Block(BlockAction::Assassinate(pos1), pos0, None),
        Action::Block(BlockAction::Assassinate(pos2), pos0, None),
        Action::Block(BlockAction::Stealing(pos1, 2), pos0, None),
        Action::Block(BlockAction::Stealing(pos2, 2), pos0, None),
        Action::Block(BlockAction::Stealing(pos1, 1), pos0, None),
        Action::Block(BlockAction::Stealing(pos2, 1), pos0, None),
        Action::Block(BlockAction::Stealing(pos1, 0), pos0, None),
        Action::Block(BlockAction::Stealing(pos2, 0), pos0, None),
        Action::Block(BlockAction::ForeignAid(pos1), pos0, None),
        Action::Block(BlockAction::ForeignAid(pos2), pos0, None),
        Action::Block(BlockAction::Assassinate(pos1), pos0, Some(Character::Contessa)),
        Action::Block(BlockAction::Assassinate(pos2), pos0, Some(Character::Contessa)),
        Action::Block(BlockAction::Stealing(pos1, 2), pos0, Some(Character::Captain)),
        Action::Block(BlockAction::Stealing(pos2, 2), pos0, Some(Character::Captain)),
        Action::Block(BlockAction::Stealing(pos1, 1), pos0, Some(Character::Captain)),
        Action::Block(BlockAction::Stealing(pos2, 1), pos0, Some(Character::Captain)),
        Action::Block(BlockAction::Stealing(pos1, 0), pos0, Some(Character::Captain)),
        Action::Block(BlockAction::Stealing(pos2, 0), pos0, Some(Character::Captain)),
        Action::Block(BlockAction::Stealing(pos1, 2), pos0, Some(Character::Ambassador)),
        Action::Block(BlockAction::Stealing(pos2, 2), pos0, Some(Character::Ambassador)),
        Action::Block(BlockAction::Stealing(pos1, 1), pos0, Some(Character::Ambassador)),
        Action::Block(BlockAction::Stealing(pos2, 1), pos0, Some(Character::Ambassador)),
        Action::Block(BlockAction::Stealing(pos1, 0), pos0, Some(Character::Ambassador)),
        Action::Block(BlockAction::Stealing(pos2, 0), pos0, Some(Character::Ambassador)),
        Action::Block(BlockAction::ForeignAid(pos1), pos0, Some(Character::Duke)),
        Action::Block(BlockAction::ForeignAid(pos2), pos0, Some(Character::Duke)),
        Action::Challenge(ChallengeAction::BlockForeignAid(pos0), pos1),
        Action::Challenge(ChallengeAction::BlockForeignAid(pos0), pos2),
        Action::Challenge(ChallengeAction::BlockForeignAid(pos1), pos2),
        Action::Challenge(ChallengeAction::BlockForeignAid(pos2), pos1),
        Action::Challenge(ChallengeAction::BlockAssassination(pos0), pos1),
        Action::Challenge(ChallengeAction::BlockAssassination(pos0), pos2),
        Action::Challenge(ChallengeAction::BlockAssassination(pos1), pos2),
        Action::Challenge(ChallengeAction::BlockAssassination(pos2), pos1),
        Action::Challenge(ChallengeAction::BlockStealing(pos0, 2), pos1),
        Action::Challenge(ChallengeAction::BlockStealing(pos0, 2), pos2),
        Action::Challenge(ChallengeAction::BlockStealing(pos1, 2), pos2),
        Action::Challenge(ChallengeAction::BlockStealing(pos2, 2), pos1),
        Action::Challenge(ChallengeAction::BlockStealing(pos0, 1), pos1),
        Action::Challenge(ChallengeAction::BlockStealing(pos0, 1), pos2),
        Action::Challenge(ChallengeAction::BlockStealing(pos1, 1), pos2),
        Action::Challenge(ChallengeAction::BlockStealing(pos2, 1), pos1),
        Action::Challenge(ChallengeAction::BlockStealing(pos0, 0), pos1),
        Action::Challenge(ChallengeAction::BlockStealing(pos0, 0), pos2),
        Action::Challenge(ChallengeAction::BlockStealing(pos1, 0), pos2),
        Action::Challenge(ChallengeAction::BlockStealing(pos2, 0), pos1),
        Action::Challenge(ChallengeAction::Exchange, pos1),
        Action::Challenge(ChallengeAction::Exchange, pos2),
        Action::Challenge(ChallengeAction::Tax, pos1),
        Action::Challenge(ChallengeAction::Tax, pos2),
        Action::Challenge(ChallengeAction::Assassination(pos0), pos1),
        Action::Challenge(ChallengeAction::Assassination(pos0), pos2),
        Action::Challenge(ChallengeAction::Assassination(pos1), pos2),
        Action::Challenge(ChallengeAction::Assassination(pos2), pos1),
        Action::Challenge(ChallengeAction::Stealing(pos0, 2), pos1),
        Action::Challenge(ChallengeAction::Stealing(pos0, 2), pos2),
        Action::Challenge(ChallengeAction::Stealing(pos1, 2), pos2),
        Action::Challenge(ChallengeAction::Stealing(pos2, 2), pos1),
        Action::Challenge(ChallengeAction::Stealing(pos0, 1), pos1),
        Action::Challenge(ChallengeAction::Stealing(pos0, 1), pos2),
        Action::Challenge(ChallengeAction::Stealing(pos1, 1), pos2),
        Action::Challenge(ChallengeAction::Stealing(pos2, 1), pos1),
        Action::Challenge(ChallengeAction::Stealing(pos0, 0), pos1),
        Action::Challenge(ChallengeAction::Stealing(pos0, 0), pos2),
        Action::Challenge(ChallengeAction::Stealing(pos1, 0), pos2),
        Action::Challenge(ChallengeAction::Stealing(pos2, 0), pos1),
    ]
}

impl Action {
    /// Whether the move is one of the seven turn actions.
    pub fn is_action(&self) -> (r: bool)
        ensures
            r == spec_is_action(*self),
    {
        match self {
            Action::Income => true,
            Action::ForeignAid => true,
            Action::Tax => true,
            Action::Coup(_) => true,
            Action::Assassinate(_) => true,
            Action::Steal(_, _) => true,
            Action::Exchange => true,
            Action::Block(_, _, _) => false,
            Action::Challenge(_, _) => false,
            Action::Pass => false,
        }
    }

    /// Whether the move is a turn action or a block.
    pub fn is_action_or_block(&self) -> (r: bool)
        ensures
            r == spec_is_action_or_block(*self),
    {
        match self {
            Action::Income => true,
            Action::ForeignAid => true,
            Action::Tax => true,
            Action::Coup(_) => true,
            Action::Assassinate(_) => true,
            Action::Steal(_, _) => true,
            Action::Exchange => true,
            Action::Block(_, _, _) => true,
            Action::Challenge(_, _) => false,
            Action::Pass => false,
        }
    }

    /// Every move of a three-participant match, seen from `pos0` with opponents `pos1`
    /// and `pos2`.
    pub fn all_3players(pos0: usize, pos1: usize, pos2: usize) -> (r: Vec<Action>)
        ensures
            r@ == move_space(pos0, pos1, pos2),
    {
        let r = vec![
            Action::Income,
            Action::ForeignAid,
            Action::Tax,
            Action::Coup(pos1),
            Action::Coup(pos2),
            Action::Assassinate(pos1),
            Action::Assassinate(pos2),
            Action::Steal(pos1, 2),
            Action::Steal(pos2, 2),
            Action::Steal(pos1, 1),
            Action::Steal(pos2, 1),
            Action::Steal(pos1, 0),
            Action::Steal(pos2, 0),
            Action::Exchange,
            Action::Block(BlockAction::Assassinate(pos1), pos0, None),
            Action::Block(BlockAction::Assassinate(pos2), pos0, None),
            Action::Block(BlockAction::Stealing(pos1, 2), pos0, None),
            Action::Block(BlockAction::Stealing(pos2, 2), pos0, None),
            Action::Block(BlockAction::Stealing(pos1, 1), pos0, None),
            Action::Block(BlockAction::Stealing(pos2, 1), pos0, None),
            Action::Block(BlockAction::Stealing(pos1, 0), pos0, None),
            Action::Block(BlockAction::Stealing(pos2, 0), pos0, None),
            Action::Block(BlockAction::ForeignAid(pos1), pos0, None),
            Action::Block(BlockAction::ForeignAid(pos2), pos0, None),
            Action::Block(BlockAction::Assassinate(pos1), pos0, Some(Character::Contessa)),
            Action::Block(BlockAction::Assassinate(pos2), pos0, Some(Character::Contessa)),
            Action::Block(BlockAction::Stealing(pos1, 2), pos0, Some(Character::Captain)),
            Action::Block(BlockAction::Stealing(pos2, 2), pos0, Some(Character::Captain)),
            Action::Block(BlockAction::Stealing(pos1, 1), pos0, Some(Character::Captain)),
            Action::Block(BlockAction::Stealing(pos2, 1), pos0, Some(Character::Captain)),
            Action::Block(BlockAction::Stealing(pos1, 0), pos0, Some(Character::Captain)),
            Action::Block(BlockAction::Stealing(pos2, 0), pos0, Some(Character::Captain)),
            Action::Block(BlockAction::Stealing(pos1, 2), pos0, Some(Character::Ambassador)),
            Action::Block(BlockAction::Stealing(pos2, 2), pos0, Some(Character::Ambassador)),
            Action::Block(BlockAction::Stealing(pos1, 1), pos0, Some(Character::Ambassador)),
            Action::Block(BlockAction::Stealing(pos2, 1), pos0, Some(Character::Ambassador)),
            Action::Block(BlockAction::Stealing(pos1, 0), pos0, Some(Character::Ambassador)),
            Action::Block(BlockAction::Stealing(pos2, 0), pos0, Some(Character::Ambassador)),
            Action::Block(BlockAction::ForeignAid(pos1), pos0, Some(Character::Duke)),
            Action::Block(BlockAction::ForeignAid(pos2), pos0, Some(Character::Duke)),
            Action::Challenge(ChallengeAction::BlockForeignAid(pos0), pos1),
            Action::Challenge(ChallengeAction::BlockForeignAid(pos0), pos2),
            Action::Challenge(ChallengeAction::BlockForeignAid(pos1), pos2),
            Action::Challenge(ChallengeAction::BlockForeignAid(pos2), pos1),
            Action::Challenge(ChallengeAction::BlockAssassination(pos0), pos1),
            Action::Challenge(ChallengeAction::BlockAssassination(pos0), pos2),
            Action::Challenge(ChallengeAction::BlockAssassination(pos1), pos2),
            Action::Challenge(ChallengeAction::BlockAssassination(pos2), pos1),
            Action::Challenge(ChallengeAction::BlockStealing(pos0, 2), pos1),
            Action::Challenge(ChallengeAction::BlockStealing(pos0, 2), pos2),
            Action::Challenge(ChallengeAction::BlockStealing(pos1, 2), pos2),
            Action::Challenge(ChallengeAction::BlockStealing(pos2, 2), pos1),
            Action::Challenge(ChallengeAction::BlockStealing(pos0, 1), pos1),
            Action::Challenge(ChallengeAction::BlockStealing(pos0, 1), pos2),
            Action::Challenge(ChallengeAction::BlockStealing(pos1, 1), pos2),
            Action::Challenge(ChallengeAction::BlockStealing(pos2, 1), pos1),
            Action::Challenge(ChallengeAction::BlockStealing(pos0, 0), pos1),
            Action::Challenge(ChallengeAction::BlockStealing(pos0, 0), pos2),
            Action::Challenge(ChallengeAction::BlockStealing(pos1, 0), pos2),
            Action::Challenge(ChallengeAction::BlockStealing(pos2, 0), pos1),
            Action::Challenge(ChallengeAction::Exchange, pos1),
            Action::Challenge(ChallengeAction::Exchange, pos2),
            Action::Challenge(ChallengeAction::Tax, pos1),
            Action::Challenge(ChallengeAction::Tax, pos2),
            Action::Challenge(ChallengeAction::Assassination(pos0), pos1),
            Action::Challenge(ChallengeAction::Assassination(pos0), pos2),
            Action::Challenge(ChallengeAction::Assassination(pos1), pos2),
            Action::Challenge(ChallengeAction::Assassination(pos2), pos1),
            Action::Challenge(ChallengeAction::Stealing(pos0, 2), pos1),
            Action::Challenge(ChallengeAction::Stealing(pos0, 2), pos2),
            Action::Challenge(ChallengeAction::Stealing(pos1, 2), pos2),
            Action::Challenge(ChallengeAction::Stealing(pos2, 2), pos1),
            Action::Challenge(ChallengeAction::Stealing(pos0, 1), pos1),
            Action::Challenge(ChallengeAction::Stealing(pos0, 1), pos2),
            Action::Challenge(ChallengeAction::Stealing(pos1, 1), pos2),
            Action::Challenge(ChallengeAction::Stealing(pos2, 1), pos1),
            Action::Challenge(ChallengeAction::Stealing(pos0, 0), pos1),
            Action::Challenge(ChallengeAction::Stealing(pos0, 0), pos2),
            Action::Challenge(ChallengeAction::Stealing(pos1, 0), pos2),
            Action::Challenge(ChallengeAction::Stealing(pos2, 0), pos1),
        ];
        assert(r@ =~= move_space(pos0, pos1, pos2));
        r
    }
}

} // verus!
