//! Cards, suits and the weapon a player can hold.

use vstd::prelude::*;

verus! {

/// Suits of the cards. In Scoundrel:
/// - Spades and Clubs (black) are the monsters (value 2-14, Ace = 14)
/// - Diamonds are the weapons (value 2-10)
/// - Hearts are the potions (value 2-10)
#[derive(Clone, Copy, Debug, PartialEq, Eq, Structural)]
pub enum Suit {
    Spades,
    Clubs,
    Diamonds,
    Hearts,
}

/// A playing card: a suit and a value.
#[derive(Clone, Copy, Debug, PartialEq, Eq, Structural)]
pub struct Card {
    pub suit: Suit,
    pub value: u8,
}

impl Card {
    /// A black card: a monster to fight.
    pub open spec fn spec_monster(self) -> bool {
        self.suit is Spades || self.suit is Clubs
    }

    /// A diamond: a weapon to equip.
    pub open spec fn spec_weapon(self) -> bool {
        self.suit is Diamonds
    }

    /// A heart: a potion to drink.
    pub open spec fn spec_potion(self) -> bool {
        self.suit is Hearts
    }

    pub fn new(suit: Suit, value: u8) -> (card: Card)
        ensures
            card.suit == suit,
            card.value == value,
    {
        Card { suit, value }
    }

    pub fn is_monster(&self) -> (r: bool)
        ensures
            r == self.spec_monster(),
    {
        matches!(self.suit, Suit::Spades | Suit::Clubs)
    }

    pub fn is_weapon(&self) -> (r: bool)
        ensures
            r == self.spec_weapon(),
    {
        self.suit == Suit::Diamonds
    }

    pub fn is_potion(&self) -> (r: bool)
        ensures
            r == self.spec_potion(),
    {
        self.suit == Suit::Hearts
    }
}

/// The weapon the player holds.
#[derive(Clone, Copy, Debug)]
pub struct Weapon {
    pub value: u8,
    /// Value of the last monster slain with this weapon: from then on the
    /// weapon is bound and can only fight monsters of at most that strength.
    pub last_monster_value: Option<u8>,
}

impl Weapon {
    pub fn new(value: u8) -> (w: Self)
        ensures
            w.value == value,
            w.last_monster_value is None,
    {
        Self { value, last_monster_value: None }
    }
}

} // verus!
