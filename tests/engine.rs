use coup::action::{Action, BlockAction, ChallengeAction};
use coup::character::Character;
use coup::character::Character::{Ambassador, Assassin, Captain, Contessa, Duke};
use coup::game::{start_game, GameError, GameState, Request, Stage, Then};
use coup::gameai::GameStateAI;
use coup::phase::Phase;
use coup::player::Player;

fn table(hands: Vec<Vec<Character>>, coins: Vec<usize>) -> GameState {
    let names = ["A", "B", "C", "D", "E", "F"];
    let mut players = Vec::new();
    for i in 0..hands.len() {
        players.push(Player::new(names[i].to_string()));
    }
    let mut g = GameState::new(players);
    for (i, hand) in hands.into_iter().enumerate() {
        for c in hand {
            let pos = g.deck.iter().position(|d| *d == c).unwrap();
            g.deck.remove(pos);
            g.players[i].add_card_to_hand(c);
        }
        g.players[i].coins = coins[i];
    }
    g
}

fn asked(g: &GameState) -> (usize, Vec<Action>) {
    match g.request() {
        Request::ChooseMove { player, options } => (player, options),
        other => panic!("expected a move request, got {:?}", other),
    }
}

fn card_asked(g: &GameState) -> usize {
    match g.request() {
        Request::ChooseCard { player } => player,
        other => panic!("expected a card request, got {:?}", other),
    }
}

#[test]
fn tax_unchallenged_adds_three_and_passes_turn() {
    let mut g = table(vec![vec![Duke, Captain], vec![Assassin, Contessa], vec![Ambassador, Captain]], vec![2, 2, 2]);
    assert_eq!(asked(&g).0, 0);
    g.submit_move(Action::Tax).unwrap();
    let (p, options) = asked(&g);
    assert_eq!(p, 1);
    assert_eq!(g.phase, Phase::Challenge);
    assert_eq!(options, vec![Action::Challenge(ChallengeAction::Tax, 0), Action::Pass]);
    g.submit_move(Action::Pass).unwrap();
    assert_eq!(asked(&g).0, 2);
    g.submit_move(Action::Pass).unwrap();
    assert_eq!(g.players[0].coins, 5);
    assert_eq!(g.current_player, 1);
    assert_eq!(g.stage, Stage::Declare);
    assert_eq!(g.phase, Phase::Action);
    assert_eq!(asked(&g).0, 1);
    assert_eq!(g.history.len(), 3);
}

#[test]
fn bluffed_assassination_challenged_costs_the_actor() {
    let mut g = table(vec![vec![Duke], vec![Assassin, Contessa], vec![Ambassador, Captain]], vec![3, 2, 2]);
    g.submit_move(Action::Assassinate(1)).unwrap();
    let (p, _) = asked(&g);
    assert_eq!(p, 1);
    g.submit_move(Action::Challenge(ChallengeAction::Assassination(1), 0)).unwrap();
    assert_eq!(g.stage, Stage::Surrender { who: 0, then: Then::EndTurn });
    assert_eq!(g.phase, Phase::Challenge);
    assert_eq!(card_asked(&g), 0);
    g.submit_card(Duke).unwrap();
    assert!(g.eliminated[0]);
    assert_eq!(g.revealed_characters, vec![Duke]);
    assert_eq!(g.players[1].hand, vec![Assassin, Contessa]);
    assert_eq!(g.players[1].coins, 2);
    assert_eq!(g.players[0].coins, 3);
    assert_eq!(g.current_player, 1);
}

#[test]
fn truthful_captain_block_stops_steal() {
    let mut g = table(vec![vec![Duke, Duke], vec![Captain, Contessa], vec![Ambassador, Assassin]], vec![2, 2, 2]);
    g.submit_move(Action::Steal(1, 2)).unwrap();
    // nobody disputes the steal itself
    assert_eq!(asked(&g).0, 1);
    g.submit_move(Action::Pass).unwrap();
    assert_eq!(asked(&g).0, 2);
    g.submit_move(Action::Pass).unwrap();
    // only the target may block
    let (p, options) = asked(&g);
    assert_eq!(p, 1);
    assert_eq!(g.phase, Phase::Block);
    let block = Action::Block(BlockAction::Stealing(1, 2), 0, Some(Captain));
    assert_eq!(options, vec![block, Action::Pass]);
    g.submit_move(block).unwrap();
    assert_eq!(asked(&g).0, 2);
    g.submit_move(Action::Pass).unwrap();
    assert_eq!(asked(&g).0, 0);
    g.submit_move(Action::Pass).unwrap();
    assert_eq!(g.players[0].coins, 2);
    assert_eq!(g.players[1].coins, 2);
    assert_eq!(g.current_player, 1);
}

#[test]
fn ten_coins_force_a_coup() {
    let g = table(vec![vec![Duke, Duke], vec![Captain, Contessa], vec![Ambassador, Assassin]], vec![10, 2, 2]);
    let moves = g.legal_moves(0);
    assert_eq!(moves.len(), 2);
    assert!(moves.contains(&Action::Coup(1)));
    assert!(moves.contains(&Action::Coup(2)));
    assert!(moves.iter().all(|m| matches!(m, Action::Coup(_))));
}

#[test]
fn action_moves_by_coins() {
    let g = table(vec![vec![Duke, Duke], vec![Captain, Contessa], vec![Ambassador, Assassin]], vec![7, 1, 0]);
    let moves = g.legal_moves(0);
    for m in [
        Action::Coup(1),
        Action::Coup(2),
        Action::Assassinate(1),
        Action::Assassinate(2),
        Action::Steal(1, 1),
        Action::Steal(2, 0),
        Action::Income,
        Action::ForeignAid,
        Action::Tax,
        Action::Exchange,
    ] {
        assert!(moves.contains(&m), "{:?}", m);
    }
    assert_eq!(moves.len(), 10);
    assert!(g.legal_moves(1).is_empty());
    let poor = table(vec![vec![Duke, Duke], vec![Captain, Contessa]], vec![2, 5]);
    let moves = poor.legal_moves(0);
    assert!(!moves.contains(&Action::Assassinate(1)));
    assert!(!moves.contains(&Action::Coup(1)));
    assert!(moves.contains(&Action::Steal(1, 2)));
}

#[test]
fn failed_challenge_costs_challenger_and_action_goes_on() {
    let mut g = table(vec![vec![Duke, Captain], vec![Assassin, Contessa], vec![Ambassador, Captain]], vec![2, 2, 2]);
    g.submit_move(Action::Tax).unwrap();
    g.submit_move(Action::Challenge(ChallengeAction::Tax, 0)).unwrap();
    assert_eq!(g.stage, Stage::Surrender { who: 1, then: Then::Proceed(Action::Tax) });
    assert_eq!(g.submit_card(Duke), Err(GameError::CardNotHeld));
    g.submit_card(Contessa).unwrap();
    assert_eq!(g.players[1].hand, vec![Assassin]);
    assert_eq!(g.players[0].coins, 5);
    assert_eq!(g.current_player, 1);
}

#[test]
fn foreign_aid_blocked_by_bluffing_duke_then_challenged() {
    let mut g = table(vec![vec![Duke, Captain], vec![Assassin, Contessa], vec![Ambassador, Captain]], vec![2, 2, 2]);
    g.submit_move(Action::ForeignAid).unwrap();
    let (p, options) = asked(&g);
    assert_eq!(p, 1);
    let bluff = Action::Block(BlockAction::ForeignAid(0), 0, None);
    assert_eq!(options, vec![bluff, Action::Pass]);
    g.submit_move(bluff).unwrap();
    let (p, options) = asked(&g);
    assert_eq!(p, 2);
    assert_eq!(options, vec![Action::Challenge(ChallengeAction::BlockForeignAid(0), 1), Action::Pass]);
    g.submit_move(Action::Challenge(ChallengeAction::BlockForeignAid(0), 1)).unwrap();
    assert_eq!(g.stage, Stage::Surrender { who: 1, then: Then::Effect(Action::ForeignAid) });
    g.submit_card(Assassin).unwrap();
    assert_eq!(g.players[0].coins, 4);
    assert_eq!(g.revealed_characters, vec![Assassin]);
}

#[test]
fn block_challenge_fails_block_stands() {
    let mut g = table(vec![vec![Duke, Captain], vec![Duke, Contessa], vec![Ambassador, Captain]], vec![2, 2, 2]);
    g.submit_move(Action::ForeignAid).unwrap();
    let block = Action::Block(BlockAction::ForeignAid(0), 0, Some(Duke));
    g.submit_move(block).unwrap();
    g.submit_move(Action::Pass).unwrap();
    assert_eq!(asked(&g).0, 0);
    g.submit_move(Action::Challenge(ChallengeAction::BlockForeignAid(0), 1)).unwrap();
    assert_eq!(g.stage, Stage::Surrender { who: 0, then: Then::EndTurn });
    g.submit_card(Captain).unwrap();
    assert_eq!(g.players[0].coins, 2);
    assert_eq!(g.current_player, 1);
}

#[test]
fn coup_takes_a_card_and_eliminates() {
    let mut g = table(vec![vec![Duke, Captain], vec![Contessa]], vec![7, 2]);
    g.submit_move(Action::Coup(1)).unwrap();
    assert_eq!(g.players[0].coins, 0);
    assert_eq!(card_asked(&g), 1);
    assert_eq!(g.phase, Phase::Action);
    g.submit_card(Contessa).unwrap();
    assert!(g.eliminated[1]);
    assert!(g.game_over());
    assert_eq!(g.winner(), Some(0));
    assert_eq!(g.stage, Stage::Over);
    assert!(matches!(g.request(), Request::Finished));
}

#[test]
fn exchange_draws_two_and_returns_two() {
    let mut g = table(vec![vec![Duke, Captain], vec![Assassin, Contessa]], vec![2, 2]);
    g.submit_move(Action::Exchange).unwrap();
    g.submit_move(Action::Pass).unwrap();
    assert_eq!(g.players[0].hand.len(), 4);
    assert_eq!(g.deck.len(), 9);
    assert_eq!(card_asked(&g), 0);
    g.submit_card(Duke).unwrap();
    g.submit_card(Captain).unwrap();
    assert_eq!(g.players[0].hand.len(), 2);
    assert_eq!(g.deck.len(), 11);
    assert_eq!(g.current_player, 1);
}

#[test]
fn illegal_and_unexpected_decisions_are_refused() {
    let mut g = table(vec![vec![Duke, Captain], vec![Assassin, Contessa]], vec![2, 2]);
    assert_eq!(g.submit_move(Action::Coup(1)), Err(GameError::IllegalMoveSelected));
    assert_eq!(g.submit_move(Action::Pass), Err(GameError::IllegalMoveSelected));
    assert_eq!(g.submit_card(Duke), Err(GameError::UnexpectedDecision));
    g.submit_move(Action::Income).unwrap();
    assert_eq!(g.players[0].coins, 3);
    assert_eq!(g.submit_move(Action::Challenge(ChallengeAction::Tax, 0)), Err(GameError::IllegalMoveSelected));
}

#[test]
fn steal_takes_what_the_target_has() {
    let mut g = table(vec![vec![Duke, Captain], vec![Assassin, Contessa]], vec![2, 1]);
    assert_eq!(g.steal(0, 1, 2), 1);
    assert_eq!(g.players[0].coins, 3);
    assert_eq!(g.players[1].coins, 0);
    assert_eq!(g.steal(1, 0, 2), 2);
    assert_eq!(g.players[0].coins, 1);
    assert_eq!(g.players[1].coins, 2);
}

#[test]
fn resolve_challenge_reports_success() {
    let mut g = table(vec![vec![Duke, Captain], vec![Assassin, Contessa], vec![Ambassador, Captain]], vec![2, 2, 2]);
    g.submit_move(Action::Exchange).unwrap();
    assert!(g.resolve_challenge(Action::Exchange, 1, None));
    assert_eq!(g.stage, Stage::Surrender { who: 0, then: Then::EndTurn });
}

#[test]
fn check_elimination_only_once() {
    let mut g = table(vec![vec![Duke], vec![Assassin, Contessa]], vec![2, 2]);
    assert!(!g.check_elimination(0));
    g.players[0].hand.clear();
    assert!(g.check_elimination(0));
    assert!(!g.check_elimination(0));
    assert!(g.eliminated[0]);
}

#[test]
fn next_player_skips_eliminated() {
    let mut g = table(vec![vec![Duke], vec![], vec![Captain]], vec![2, 2, 2]);
    g.eliminated[1] = true;
    g.next_player();
    assert_eq!(g.current_player, 2);
    g.next_player();
    assert_eq!(g.current_player, 0);
    assert_eq!(g.active_players(), 2);
    assert_eq!(g.winner(), None);
}

#[test]
fn start_game_deals_two_each() {
    let players = vec![Player::new("A".to_string()), Player::new("B".to_string()), Player::new("C".to_string())];
    let mut g = GameState::new(players);
    start_game(&mut g, 7);
    assert_eq!(g.deck.len(), 9);
    for p in &g.players {
        assert_eq!(p.hand.len(), 2);
        assert_eq!(p.coins, 2);
    }
    let mut names: Vec<String> = g.players.iter().map(|p| p.name()).collect();
    names.sort();
    assert_eq!(names, vec!["A", "B", "C"]);
    for c in Character::all() {
        let held = g.players.iter().map(|p| p.hand.iter().filter(|h| **h == c).count()).sum::<usize>();
        let piled = g.deck.iter().filter(|h| **h == c).count();
        assert_eq!(held + piled, 3);
    }
}

#[test]
fn redacted_view_shows_own_hand_only() {
    let mut g = table(vec![vec![Duke, Captain], vec![Assassin]], vec![4, 2]);
    g.submit_move(Action::Income).unwrap();
    let v = GameStateAI::from_gamestate(&g, "B".to_string());
    assert_eq!(v.players_lives, vec![2, 1]);
    assert_eq!(v.players_coins, vec![5, 2]);
    assert_eq!(v.cards_in_hand, vec![Assassin]);
    assert_eq!(v.history, vec![(Action::Income, 0)]);
    assert_eq!(v.current_player, 1);
}

#[test]
fn start_game_shuffles_the_pile() {
    let players = vec![Player::new("A".to_string()), Player::new("B".to_string())];
    let mut g = GameState::new(players);
    start_game(&mut g, 11);
    let fresh = Character::create_deck();
    assert_eq!(g.deck.len(), 11);
    assert_ne!(g.deck.as_slice(), &fresh[0..11]);
    assert_eq!(g.stage, Stage::Declare);
    assert_eq!(g.current_player, 0);
    assert_eq!(g.active_players(), 2);
}

#[test]
fn assassination_unblocked_takes_a_card() {
    let mut g = table(vec![vec![Assassin, Duke], vec![Captain, Contessa], vec![Ambassador, Duke]], vec![3, 2, 2]);
    g.submit_move(Action::Assassinate(2)).unwrap();
    g.submit_move(Action::Pass).unwrap();
    g.submit_move(Action::Pass).unwrap();
    // only the target is offered a block, and it holds no Contessa
    let (p, options) = asked(&g);
    assert_eq!(p, 2);
    assert_eq!(options, vec![Action::Block(BlockAction::Assassinate(2), 0, None), Action::Pass]);
    g.submit_move(Action::Pass).unwrap();
    assert_eq!(g.players[0].coins, 0);
    assert_eq!(g.stage, Stage::Surrender { who: 2, then: Then::EndTurn });
    g.submit_card(Duke).unwrap();
    assert_eq!(g.players[2].hand, vec![Ambassador]);
    assert_eq!(g.current_player, 1);
}

#[test]
fn six_seats_leave_three_cards_in_the_pile() {
    let players: Vec<Player> = ["A", "B", "C", "D", "E", "F"].iter().map(|n| Player::new(n.to_string())).collect();
    let mut g = GameState::new(players);
    start_game(&mut g, 3);
    assert_eq!(g.deck.len(), 3);
    assert_eq!(g.active_players(), 6);
    assert!(!g.game_over());
    let (p, options) = asked(&g);
    assert_eq!(p, g.current_player);
    // five opponents to steal from, plus income, foreign aid, tax and exchange
    assert_eq!(options.len(), 9);
}
