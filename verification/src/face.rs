//! How a card shows on the table: its rank, suit symbol and kind.

use vstd::prelude::*;

use crate::card::{Card, Suit};

verus! {

/// The decimal digit `d` as a character.
pub open spec fn digit_char(d: int) -> char {
    (48 + d) as char
}

/// The decimal writing of `v`, without leading zeros.
pub open spec fn decimal(v: nat) -> Seq<char>
    decreases v,
{
    if v < 10 {
        seq![digit_char(v as int)]
    } else {
        decimal(v / 10).push(digit_char((v % 10) as int))
    }
}

/// The rank shown on a card: J, Q, K and A for the court cards and aces
/// (values 11 to 14), the value written in decimal otherwise.
pub open spec fn rank_text(value: u8) -> Seq<char> {
    if value == 11 {
        "J"@
    } else if value == 12 {
        "Q"@
    } else if value == 13 {
        "K"@
    } else if value == 14 {
        "A"@
    } else {
        decimal(value as nat)
    }
}

/// The symbol of a suit.
pub open spec fn suit_text(suit: Suit) -> Seq<char> {
    match suit {
        Suit::Spades => "♠"@,
        Suit::Clubs => "♣"@,
        Suit::Diamonds => "♦"@,
        Suit::Hearts => "♥"@,
    }
}

/// What a card is in the game.
pub open spec fn kind_text(card: Card) -> Seq<char> {
    if card.spec_monster() {
        "Monster"@
    } else if card.spec_weapon() {
        "Weapon"@
    } else {
        "Potion"@
    }
}

/// The decimal digit `d`.
fn digit(d: u8) -> (s: &'static str)
    requires
        d < 10,
    ensures
        s@ == seq![digit_char(d as int)],
{
    proof {
        reveal_strlit("0");
        reveal_strlit("1");
        reveal_strlit("2");
        reveal_strlit("3");
        reveal_strlit("4");
        reveal_strlit("5");
        reveal_strlit("6");
        reveal_strlit("7");
        reveal_strlit("8");
        reveal_strlit("9");
    }
    match d {
        0 => "0",
        1 => "1",
        2 => "2",
        3 => "3",
        4 => "4",
        5 => "5",
        6 => "6",
        7 => "7",
        8 => "8",
        _ => "9",
    }
}

/// Writes `v` in decimal.
pub fn decimal_string(v: u8) -> (s: String)
    ensures
        s@ == decimal(v as nat),
{
    let mut s = String::new();
    if v >= 100 {
        s.append(digit(v / 100));
    }
    if v >= 10 {
        s.append(digit((v / 10) % 10));
    }
    s.append(digit(v % 10));
    proof {
        let n = v as nat;
        if n >= 100 {
            assert(decimal(n / 10 / 10) == seq![digit_char((n / 100) as int)]);
            assert(decimal(n / 10) =~= seq![digit_char((n / 100) as int)].push(
                digit_char((n / 10 % 10) as int),
            ));
        } else if n >= 10 {
            assert(decimal(n / 10) == seq![digit_char((n / 10 % 10) as int)]);
        }
    }
    assert(s@ =~= decimal(v as nat));
    s
}

impl Card {
    /// The rank shown on the card.
    pub fn rank_label(&self) -> (s: String)
        ensures
            s@ == rank_text(self.value),
    {
        match self.value {
            11 => "J".to_string(),
            12 => "Q".to_string(),
            13 => "K".to_string(),
            14 => "A".to_string(),
            v => decimal_string(v),
        }
    }

    /// The symbol of the card's suit.
    pub fn suit_symbol(&self) -> (s: &'static str)
        ensures
            s@ == suit_text(self.suit),
    {
        match self.suit {
            Suit::Spades => "♠",
            Suit::Clubs => "♣",
            Suit::Diamonds => "♦",
            Suit::Hearts => "♥",
        }
    }

    /// What the card is in the game: a monster, a weapon or a potion.
    pub fn kind_label(&self) -> (s: &'static str)
        ensures
            s@ == kind_text(*self),
    {
        if self.is_monster() {
            "Monster"
        } else if self.is_weapon() {
            "Weapon"
        } else {
            "Potion"
        }
    }

    /// A red card: a weapon or a potion.
    pub fn is_red(&self) -> (r: bool)
        ensures
            r == (self.spec_weapon() || self.spec_potion()),
            r == !self.spec_monster(),
    {
        self.is_weapon() || self.is_potion()
    }
}

} // verus!
