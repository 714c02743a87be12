use crate::character::Character;
use vstd::prelude::*;

verus! {

/// Why a participant's bookkeeping refused a change.
#[derive(Debug, Clone, Copy, PartialEq, Eq, Structural)]
pub enum PlayerError {
    /// More coins were to be spent than the participant holds.
    InsufficientFunds,
    /// A role was to be removed that the participant does not hold.
    CardNotHeld,
}

/// A participant: a name, a coin balance and a concealed hand.
#[derive(Debug, Clone)]
pub struct Player {
    pub name: String,
    pub coins: usize,
    pub hand: Vec<Character>,
}

/// `i` is the first position of `c` in `s`.
pub open spec fn first_index(s: Seq<Character>, c: Character, i: int) -> bool {
    &&& 0 <= i < s.len()
    &&& s[i] == c
    &&& forall|j: int| 0 <= j < i ==> s[j] != c
}

impl Player {
    /// A participant as it joins a match: two coins and no cards yet.
    pub fn new(name: String) -> (p: Player)
        ensures
            p.name@ == name@,
            p.coins == 2,
            p.hand@.len() == 0,
    {
        Player { name, coins: 2, hand: Vec::new() }
    }

    pub fn name(&self) -> (r: String)
        ensures
            r@ == self.name@,
    {
        self.name.clone()
    }

    pub fn coins(&self) -> (r: usize)
        ensures
            r == self.coins,
    {
        self.coins
    }

    pub fn hand(&self) -> (r: Vec<Character>)
        ensures
            r@ == self.hand@,
    {
        self.hand.clone()
    }

    pub fn add_coins(&mut self, n: usize)
        requires
            old(self).coins + n <= usize::MAX,
        ensures
            final(self).coins == old(self).coins + n,
            final(self).hand@ == old(self).hand@,
            final(self).name@ == old(self).name@,
    {
        self.coins = self.coins + n;
    }

    /// Spends `n` coins, or refuses when the balance is smaller.
    pub fn lose_coins(&mut self, n: usize) -> (r: Result<(), PlayerError>)
        ensures
            r is Ok <==> n <= old(self).coins,
            r is Ok ==> final(self).coins == old(self).coins - n,
            r is Err ==> r == Err::<(), PlayerError>(PlayerError::InsufficientFunds)
                && final(self).coins == old(self).coins,
            final(self).hand@ == old(self).hand@,
            final(self).name@ == old(self).name@,
    {
        if n <= self.coins {
            self.coins = self.coins - n;
            Ok(())
        } else {
            Err(PlayerError::InsufficientFunds)
        }
    }

    pub fn add_card_to_hand(&mut self, card: Character)
        ensures
            final(self).hand@ == old(self).hand@.push(card),
            final(self).coins == old(self).coins,
            final(self).name@ == old(self).name@,
    {
        self.hand.push(card);
    }

    /// Removes the first copy of `card` from the hand, or refuses when none is held.
    pub fn remove_card_from_hand(&mut self, card: Character) -> (r: Result<(), PlayerError>)
        ensures
            r is Ok <==> old(self).hand@.contains(card),
            r is Ok ==> exists|i: int|
                first_index(old(self).hand@, card, i) && final(self).hand@ == old(
                    self,
                ).hand@.remove(i),
            r is Err ==> r == Err::<(), PlayerError>(PlayerError::CardNotHeld)
                && final(self).hand@ == old(self).hand@,
            final(self).coins == old(self).coins,
            final(self).name@ == old(self).name@,
    {
        let mut i: usize = 0;
        while i < self.hand.len()
            invariant
                i <= self.hand@.len(),
                self.hand@ == old(self).hand@,
                self.coins == old(self).coins,
                self.name@ == old(self).name@,
                forall|j: int| 0 <= j < i ==> self.hand@[j] != card,
            decreases self.hand@.len() - i,
        {
            if self.hand[i] == card {
                self.hand.remove(i);
                assert(first_index(old(self).hand@, card, i as int));
                return Ok(());
            }
            i = i + 1;
        }
        Err(PlayerError::CardNotHeld)
    }
}

} // verus!
