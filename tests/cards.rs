use coup::action::{claim_holds, Action, BlockAction, ChallengeAction};
use coup::character::Character;
use coup::character::Character::{Ambassador, Assassin, Captain, Contessa, Duke};
use coup::player::{Player, PlayerError};

#[test]
fn deck_has_three_of_each_role() {
    let deck = Character::create_deck();
    assert_eq!(deck.len(), 15);
    for c in Character::all() {
        assert_eq!(deck.iter().filter(|d| **d == c).count(), 3);
    }
    assert_eq!(&deck[0..5], Character::all().as_slice());
    assert_eq!(Character::all().len(), 5);
}

#[test]
fn action_kinds() {
    assert!(Action::Income.is_action());
    assert!(Action::Steal(1, 2).is_action());
    assert!(!Action::Pass.is_action());
    assert!(!Action::Block(BlockAction::ForeignAid(0), 0, None).is_action());
    assert!(Action::Block(BlockAction::ForeignAid(0), 0, None).is_action_or_block());
    assert!(!Action::Challenge(ChallengeAction::Tax, 0).is_action_or_block());
    assert!(Action::Coup(2).is_action_or_block());
}

#[test]
fn move_space_for_three() {
    let all = Action::all_3players(0, 1, 2);
    assert_eq!(all.len(), 80);
    assert_eq!(all[0], Action::Income);
    assert_eq!(all[3], Action::Coup(1));
    assert_eq!(all[79], Action::Challenge(ChallengeAction::Stealing(2, 0), 1));
}

#[test]
fn claims_need_the_right_role() {
    assert!(claim_holds(&Action::Tax, &vec![Duke]));
    assert!(!claim_holds(&Action::Tax, &vec![Captain]));
    let steal_block = Action::Block(BlockAction::Stealing(1, 2), 0, None);
    assert!(claim_holds(&steal_block, &vec![Ambassador]));
    assert!(claim_holds(&steal_block, &vec![Captain]));
    assert!(!claim_holds(&steal_block, &vec![Contessa]));
    assert!(claim_holds(&Action::Block(BlockAction::Assassinate(1), 0, None), &vec![Contessa]));
    assert!(claim_holds(&Action::Income, &vec![]));
}

#[test]
fn player_bookkeeping() {
    let mut p = Player::new("A".to_string());
    assert_eq!(p.coins(), 2);
    assert_eq!(p.name(), "A");
    p.add_coins(3);
    assert_eq!(p.lose_coins(6), Err(PlayerError::InsufficientFunds));
    assert_eq!(p.lose_coins(5), Ok(()));
    assert_eq!(p.coins(), 0);
    p.add_card_to_hand(Duke);
    p.add_card_to_hand(Captain);
    p.add_card_to_hand(Duke);
    assert_eq!(p.remove_card_from_hand(Contessa), Err(PlayerError::CardNotHeld));
    assert_eq!(p.remove_card_from_hand(Duke), Ok(()));
    assert_eq!(p.hand(), vec![Captain, Duke]);
}

#[test]
fn role_names() {
    assert_eq!(Character::Duke.name(), "Duke");
    assert_eq!(Character::Ambassador.name(), "Ambassador");
}
