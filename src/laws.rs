use crate::action::Action;
use crate::character::Character;
use crate::game::{count_active, hands_cards, GameState, Stage, MAX_COINS};
use vstd::prelude::*;

verus! {

/// Eliminations are never undone, so the number of participants still in the match never
/// grows.
pub proof fn lemma_count_monotone(e: Seq<bool>, f: Seq<bool>)
    requires
        e.len() == f.len(),
        forall|i: int| 0 <= i < e.len() && e[i] ==> #[trigger] f[i],
    ensures
        count_active(f) <= count_active(e),
    decreases e.len(),
{
    if e.len() > 0 {
        let e1 = e.drop_last();
        let f1 = f.drop_last();
        assert forall|i: int| 0 <= i < e1.len() && e1[i] implies #[trigger] f1[i] by {
            assert(e[i]);
        }
        lemma_count_monotone(e1, f1);
    }
}

/// In every dealt match each role has three cards, between the pile, the hands and the
/// revealed cards.
pub proof fn lemma_role_conservation(g: GameState, c: Character)
    requires
        g.wf(),
    ensures
        g.deck@.to_multiset().count(c) + hands_cards(g.players@).count(c)
            + g.revealed_characters@.to_multiset().count(c) == 3,
{
    broadcast use vstd::multiset::group_multiset_axioms;

    crate::character::lemma_three_copies(c);
    assert(g.all_cards().count(c) == 3);
}

/// In every dealt match each balance lies between zero and the most a participant can hold.
pub proof fn lemma_coins_bounded(g: GameState, i: int)
    requires
        g.wf(),
        0 <= i < g.num_players(),
    ensures
        0 <= g.coins_of(i) <= MAX_COINS,
{
}

/// A steal offered to a participant names as many coins as the target can give, up to two.
pub proof fn lemma_steal_amount(g: GameState, p: int, t: usize, amount: usize)
    requires
        g.action_move_ok(p, Action::Steal(t, amount)),
    ensures
        amount as int == if g.coins_of(t as int) < 2 {
            g.coins_of(t as int)
        } else {
            2
        },
        amount <= g.coins_of(t as int),
{
}

/// In every dealt match a participant is out exactly when its hand is empty.
pub proof fn lemma_elimination_iff_empty(g: GameState, i: int)
    requires
        g.wf(),
        0 <= i < g.num_players(),
    ensures
        !g.active(i) <==> g.hand_of(i).len() == 0,
{
}

/// A participant holding ten coins or more at the start of its turn may only launch a coup
/// on another participant still in the match.
pub proof fn lemma_forced_coup(g: GameState, m: Action)
    requires
        g.stage == Stage::Declare,
        g.coins_of(g.current_player as int) >= 10,
        g.is_legal(g.current_player as int, m),
    ensures
        m matches Action::Coup(t) && t != g.current_player && g.active(t as int),
{
}

/// Over a decision the number of participants still in the match does not grow, and a
/// finished match has exactly one.
pub proof fn lemma_active_non_increasing(before: GameState, after: GameState)
    requires
        before.wf(),
        after.wf(),
        after.eliminated@.len() == before.eliminated@.len(),
        forall|i: int|
            0 <= i < before.eliminated@.len() && before.eliminated@[i]
                ==> #[trigger] after.eliminated@[i],
    ensures
        after.active_count() <= before.active_count(),
        after.stage == Stage::Over ==> after.active_count() == 1,
{
    lemma_count_monotone(before.eliminated@, after.eliminated@);
}

} // verus!
