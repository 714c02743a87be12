use vstd::multiset::Multiset;
use vstd::prelude::*;

verus! {

/// The five concealed role identities.
#[derive(Debug, Clone, Copy, PartialEq, Eq, Structural)]
pub enum Character {
    Duke,
    Assassin,
    Captain,
    Ambassador,
    Contessa,
}

/// The roles in their fixed listing order.
pub open spec fn all_roles() -> Seq<Character> {
    seq![
        Character::Duke,
        Character::Assassin,
        Character::Captain,
        Character::Ambassador,
        Character::Contessa,
    ]
}

/// The unshuffled deck: three rounds of every role, in listing order.
pub open spec fn fresh_deck() -> Seq<Character> {
    all_roles() + all_roles() + all_roles()
}

/// The full set of cards in a match: three copies of each role.
pub open spec fn standard_cards() -> Multiset<Character> {
    fresh_deck().to_multiset()
}

/// Every role occurs exactly three times among the cards of a match.
pub proof fn lemma_three_copies(c: Character)
    ensures
        standard_cards().count(c) == 3,
        standard_cards().len() == 15,
{
    broadcast use vstd::seq_lib::to_multiset_build, vstd::seq_lib::to_multiset_len;
    broadcast use vstd::multiset::group_multiset_axioms;

    let d = Character::Duke;
    let a = Character::Assassin;
    let p = Character::Captain;
    let m = Character::Ambassador;
    let t = Character::Contessa;
    let s0 = Seq::<Character>::empty();
    let s5 = s0.push(d).push(a).push(p).push(m).push(t);
    let s10 = s5.push(d).push(a).push(p).push(m).push(t);
    let s15 = s10.push(d).push(a).push(p).push(m).push(t);
    assert(fresh_deck() =~= s15);
    assert(s0.to_multiset().len() == 0);
    assert(s0.to_multiset() =~= Multiset::empty());
}

/// The name of each role.
pub open spec fn role_name(c: Character) -> Seq<char> {
    match c {
        Character::Duke => "Duke"@,
        Character::Assassin => "Assassin"@,
        Character::Captain => "Captain"@,
        Character::Ambassador => "Ambassador"@,
        Character::Contessa => "Contessa"@,
    }
}

impl Character {
    /// All five roles, in listing order.
    pub fn all() -> (r: Vec<Character>)
        ensures
            r@ == all_roles(),
    {
        let r = vec![
            Character::Duke,
            Character::Assassin,
            Character::Captain,
            Character::Ambassador,
            Character::Contessa,
        ];
        assert(r@ =~= all_roles());
        r
    }

    /// The fifteen-card deck, not yet shuffled: three rounds of every role.
    pub fn create_deck() -> (deck: Vec<Character>)
        ensures
            deck@ == fresh_deck(),
            deck@.to_multiset() == standard_cards(),
    {
        let mut deck: Vec<Character> = Vec::new();
        let mut round: usize = 0;
        while round < 3
            invariant
                round <= 3,
                deck@.len() == 5 * round,
                forall|i: int| 0 <= i < deck@.len() ==> deck@[i] == #[trigger] all_roles()[i % 5],
            decreases 3 - round,
        {
            deck.push(Character::Duke);
            deck.push(Character::Assassin);
            deck.push(Character::Captain);
            deck.push(Character::Ambassador);
            deck.push(Character::Contessa);
            round = round + 1;
        }
        assert forall|i: int| 0 <= i < 15 implies deck@[i] == fresh_deck()[i] by {
            assert(deck@[i] == all_roles()[i % 5]);
        }
        assert(deck@ =~= fresh_deck());
        deck
    }

    /// The role's name as shown to players.
    pub fn name(&self) -> (s: String)
        ensures
            s@ == role_name(*self),
    {
        match self {
            Character::Duke => "Duke".to_string(),
            Character::Assassin => "Assassin".to_string(),
            Character::Captain => "Captain".to_string(),
            Character::Ambassador => "Ambassador".to_string(),
            Character::Contessa => "Contessa".to_string(),
        }
    }
}

} // verus!
