use crate::action::Action;
use crate::character::Character;
use crate::game::GameState;
use crate::phase::Phase;
use vstd::prelude::*;

verus! {

/// What one participant may see of a match: every hand's size but only its own cards.
#[derive(Debug, Clone)]
pub struct GameStateAI {
    pub players_lives: Vec<usize>,
    pub players_coins: Vec<usize>,
    pub revealed_characters: Vec<Character>,
    pub cards_in_hand: Vec<Character>,
    pub history: Vec<(Action, usize)>,
    pub current_player: usize,
    pub phase: Phase,
}

impl GameStateAI {
    /// The view of `gamestate` for the first participant named `player_name`.
    pub fn from_gamestate(gamestate: &GameState, player_name: String) -> (v: GameStateAI)
        requires
            exists|i: int|
                0 <= i < gamestate.players@.len() && gamestate.players@[i].name@ == player_name@,
        ensures
            v.players_lives@.len() == gamestate.players@.len(),
            v.players_coins@.len() == gamestate.players@.len(),
            forall|i: int|
                0 <= i < gamestate.players@.len() ==> #[trigger] v.players_lives@[i]
                    == gamestate.players@[i].hand@.len() && v.players_coins@[i]
                    == gamestate.players@[i].coins,
            v.revealed_characters@ == gamestate.revealed_characters@,
            exists|i: int|
                0 <= i < gamestate.players@.len() && gamestate.players@[i].name@ == player_name@
                    && v.cards_in_hand@ == gamestate.players@[i].hand@ && forall|j: int|
                    0 <= j < i ==> gamestate.players@[j].name@ != player_name@,
            v.history@ == gamestate.history@,
            v.current_player == gamestate.current_player,
            v.phase == gamestate.phase,
    {
        let n = gamestate.players.len();
        let mut players_lives: Vec<usize> = Vec::new();
        let mut players_coins: Vec<usize> = Vec::new();
        let mut own: Option<usize> = None;
        let mut i: usize = 0;
        while i < n
            invariant
                i <= n,
                n == gamestate.players@.len(),
                players_lives@.len() == i,
                players_coins@.len() == i,
                forall|k: int|
                    0 <= k < i ==> #[trigger] players_lives@[k] == gamestate.players@[k].hand@.len()
                        && players_coins@[k] == gamestate.players@[k].coins,
                match own {
                    None => forall|j: int| 0 <= j < i ==> gamestate.players@[j].name@ != player_name@,
                    Some(o) => o < i && gamestate.players@[o as int].name@ == player_name@ && forall|
                        j: int,
                    | 0 <= j < o ==> gamestate.players@[j].name@ != player_name@,
                },
            decreases n - i,
        {
            let p = &gamestate.players[i];
            players_lives.push(p.hand.len());
            players_coins.push(p.coins);
            if own.is_none() && p.name == player_name {
                own = Some(i);
            }
            i = i + 1;
        }
        let o = match own {
            Some(o) => o,
            None => {
                proof {
                    let w = choose|w: int|
                        0 <= w < gamestate.players@.len() && gamestate.players@[w].name@
                            == player_name@;
                    assert(gamestate.players@[w].name@ == player_name@);
                }
                0
            },
        };
        let mut history: Vec<(Action, usize)> = Vec::new();
        let mut k: usize = 0;
        while k < gamestate.history.len()
            invariant
                k <= gamestate.history@.len(),
                history@ == gamestate.history@.subrange(0, k as int),
            decreases gamestate.history@.len() - k,
        {
            history.push(gamestate.history[k]);
            k = k + 1;
            assert(history@ =~= gamestate.history@.subrange(0, k as int));
        }
        assert(history@ =~= gamestate.history@);
        GameStateAI {
            players_lives,
            players_coins,
            revealed_characters: gamestate.revealed_characters.clone(),
            cards_in_hand: gamestate.players[o].hand.clone(),
            history,
            current_player: gamestate.current_player,
            phase: gamestate.phase,
        }
    }
}

} // verus!
