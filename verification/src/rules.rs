//! The rules of the game, stated over a mathematical picture of a game.

use vstd::prelude::*;

use crate::card::{Card, Weapon};

verus! {

/// Health points at the start of a game, and the most a potion can bring back.
pub const MAX_HP: i8 = 20;

/// Number of slots in a room.
pub const ROOM_SIZE: usize = 4;

/// A game as the rules see it.
pub struct GameView {
    pub hp: int,
    pub turn: nat,
    pub weapon: Option<Weapon>,
    /// The dungeon deck; its last card is the top one, drawn first.
    pub deck: Seq<Card>,
    /// The slots of the room, in order.
    pub room: Seq<Option<Card>>,
    /// The last room was fled from.
    pub avoided: bool,
    /// A potion was drunk in this room.
    pub healed: bool,
}

/// A card of the 44-card dungeon deck: black cards 2 to 14 (court cards and
/// aces included), red cards 2 to 10 (red court cards and aces are removed).
pub open spec fn in_dungeon_deck(c: Card) -> bool {
    if c.spec_monster() {
        2 <= c.value <= 14
    } else {
        2 <= c.value <= 10
    }
}

/// `deck` holds each card of the dungeon deck exactly once, and nothing else.
pub open spec fn is_dungeon_deck(deck: Seq<Card>) -> bool {
    &&& deck.len() == 44
    &&& forall|c: Card| #[trigger]
        deck.to_multiset().count(c) == if in_dungeon_deck(c) {
            1nat
        } else {
            0nat
        }
}

/// How an 8-bit unsigned value reads as an 8-bit signed one.
pub open spec fn as_signed_byte(v: int) -> int {
    if v < 128 {
        v
    } else {
        v - 256
    }
}

/// Number of occupied slots.
pub open spec fn occupied(room: Seq<Option<Card>>) -> nat
    decreases room.len(),
{
    if room.len() == 0 {
        0
    } else {
        occupied(room.drop_last()) + if room.last() is Some {
            1nat
        } else {
            0nat
        }
    }
}

/// The cards of the occupied slots, in slot order.
pub open spec fn cards_of(room: Seq<Option<Card>>) -> Seq<Card>
    decreases room.len(),
{
    if room.len() == 0 {
        Seq::empty()
    } else {
        cards_of(room.drop_last()) + match room.last() {
            Some(c) => seq![c],
            None => Seq::empty(),
        }
    }
}

/// Some slot holds a monster.
pub open spec fn holds_monster(room: Seq<Option<Card>>) -> bool {
    exists|i: int|
        0 <= i < room.len() && #[trigger] room[i] is Some && room[i]->0.spec_monster()
}

/// Some slot holds a card that can still be used: a weapon, which can
/// always be equipped, or a potion while none was drunk in this room.
pub open spec fn holds_usable(room: Seq<Option<Card>>, healed: bool) -> bool {
    exists|i: int|
        0 <= i < room.len() && #[trigger] room[i] is Some && (room[i]->0.spec_weapon() || (
        room[i]->0.spec_potion() && !healed))
}

/// The first slot that holds `card`.
pub open spec fn first_slot_of(room: Seq<Option<Card>>, card: Card) -> int
    recommends
        room.contains(Some(card)),
{
    choose|i: int|
        0 <= i < room.len() && room[i] == Some(card) && forall|j: int|
            0 <= j < i ==> room[j] != Some(card)
}

/// The room once `card` was taken out of the first slot holding it; the
/// room itself where no slot holds it.
pub open spec fn without(room: Seq<Option<Card>>, card: Card) -> Seq<Option<Card>> {
    if room.contains(Some(card)) {
        room.update(first_slot_of(room, card), None)
    } else {
        room
    }
}

/// A full room dealt from the top of `deck`: slot `k` gets the `k`-th card
/// from the top, or stays empty when the deck runs out. Also gives the
/// deck that is left.
pub open spec fn deal(deck: Seq<Card>) -> (Seq<Option<Card>>, Seq<Card>) {
    let n = deck.len();
    (
        Seq::new(
            ROOM_SIZE as nat,
            |k: int|
                if k < n {
                    Some(deck[n - 1 - k])
                } else {
                    None
                },
        ),
        if n >= ROOM_SIZE {
            deck.take(n - ROOM_SIZE)
        } else {
            Seq::empty()
        },
    )
}

/// Starting from slot `i`, each empty slot in turn gets the top card of the
/// deck, while there is one. Gives the room and the deck that is left.
pub open spec fn fill_from(room: Seq<Option<Card>>, deck: Seq<Card>, i: nat) -> (
    Seq<Option<Card>>,
    Seq<Card>,
)
    decreases room.len() - i,
{
    if i >= room.len() {
        (room, deck)
    } else if room[i as int] is None && deck.len() > 0 {
        fill_from(room.update(i as int, Some(deck.last())), deck.drop_last(), i + 1)
    } else {
        fill_from(room, deck, i + 1)
    }
}

/// The game that starts with `deck` shuffled: full health, first turn,
/// no weapon, and a room dealt from the deck.
pub open spec fn fresh_game(deck: Seq<Card>) -> GameView {
    GameView {
        hp: MAX_HP as int,
        turn: 1,
        weapon: None,
        deck: deal(deck).1,
        room: deal(deck).0,
        avoided: false,
        healed: false,
    }
}

/// The text of the error of an attack on a card that is not a monster.
pub open spec fn not_a_monster_msg() -> Seq<char> {
    "The selected card is not a monster"@
}

/// The text of the error of an attack that a bound weapon cannot make.
pub open spec fn weapon_bound_msg() -> Seq<char> {
    "Your weapon is bound: it can only fight monsters of equal or lower strength than the last one it defeated. Fight barehanded instead."@
}

/// The text of the error of equipping a card that is neither a weapon nor a potion.
pub open spec fn not_a_weapon_msg() -> Seq<char> {
    "The selected card is not a weapon"@
}

/// The text of the error of a second potion in one room.
pub open spec fn one_potion_msg() -> Seq<char> {
    "You can only drink one potion per room"@
}

/// The text of the error of fleeing two rooms in a row.
pub open spec fn double_flee_msg() -> Seq<char> {
    "You cannot avoid two rooms in a row"@
}

impl GameView {
    /// The game is lost: no health left.
    pub open spec fn dead(self) -> bool {
        self.hp <= 0
    }

    /// The game is won: the deck is used up and the room is empty.
    pub open spec fn won(self) -> bool {
        &&& self.deck.len() == 0
        &&& forall|i: int| 0 <= i < self.room.len() ==> #[trigger] self.room[i] is None
    }

    /// An attack with the weapon is refused: the weapon is bound to a
    /// monster weaker than `card`.
    pub open spec fn weapon_blocks(self, card: Card, barehanded: bool) -> bool {
        &&& !barehanded
        &&& self.weapon matches Some(w)
        &&& w.last_monster_value matches Some(last)
        &&& card.value > last
    }

    /// The damage that `card` deals: its full value barehanded or without a
    /// weapon, else what the weapon does not absorb.
    pub open spec fn damage(self, card: Card, barehanded: bool) -> int {
        if barehanded {
            card.value as int
        } else {
            match self.weapon {
                Some(w) => if card.value > w.value {
                    card.value - w.value
                } else {
                    0
                },
                None => card.value as int,
            }
        }
    }

    /// The game right after the blow against `card`, before the room moves on:
    /// the damage is taken, a weapon that fought is bound to the monster,
    /// and the monster leaves the room.
    pub open spec fn struck(self, card: Card, barehanded: bool) -> GameView {
        GameView {
            hp: self.hp - as_signed_byte(self.damage(card, barehanded)),
            weapon: if !barehanded && self.weapon is Some {
                Some(
                    Weapon { value: self.weapon->0.value, last_monster_value: Some(card.value) },
                )
            } else {
                self.weapon
            },
            room: without(self.room, card),
            ..self
        }
    }

    /// The room moves on: either no monster is left, or a single card is.
    pub open spec fn advances(self) -> bool {
        !holds_monster(self.room) || occupied(self.room) == 1
    }

    /// The game once the room moved on where it does. With no monster
    /// left, what is left is dropped and a whole room is dealt; with a single
    /// card left, it stays and the empty slots are filled. Either way the
    /// turn counts up and fleeing and drinking are allowed again.
    pub open spec fn advanced(self) -> GameView {
        if !holds_monster(self.room) {
            GameView {
                turn: self.turn + 1,
                deck: deal(self.deck).1,
                room: deal(self.deck).0,
                avoided: false,
                healed: false,
                ..self
            }
        } else if occupied(self.room) == 1 {
            GameView {
                turn: self.turn + 1,
                deck: fill_from(self.room, self.deck, 0).1,
                room: fill_from(self.room, self.deck, 0).0,
                avoided: false,
                healed: false,
                ..self
            }
        } else {
            self
        }
    }

    /// The game after an attack on the monster `card` that is not refused.
    pub open spec fn attacked(self, card: Card, barehanded: bool) -> GameView {
        self.struck(card, barehanded).advanced()
    }

    /// An attack on `card` keeps health and turn within their machine range.
    pub open spec fn attack_in_range(self, card: Card, barehanded: bool) -> bool {
        (card.spec_monster() && !self.weapon_blocks(card, barehanded)) ==> {
            &&& i8::MIN <= self.hp - as_signed_byte(self.damage(card, barehanded)) <= i8::MAX
            &&& self.struck(card, barehanded).advances() ==> self.turn < u32::MAX
        }
    }

    /// The game right after a weapon is equipped or a potion drunk, before
    /// the room moves on: a new weapon replaces the old one, unbound; a
    /// potion heals by its value up to `MAX_HP`. The card leaves the room.
    pub open spec fn used(self, card: Card) -> GameView {
        if card.spec_weapon() {
            GameView {
                weapon: Some(Weapon { value: card.value, last_monster_value: None }),
                room: without(self.room, card),
                ..self
            }
        } else {
            GameView {
                hp: if self.hp + as_signed_byte(card.value as int) < MAX_HP {
                    self.hp + as_signed_byte(card.value as int)
                } else {
                    MAX_HP as int
                },
                healed: true,
                room: without(self.room, card),
                ..self
            }
        }
    }

    /// Once a card is used, the room moves on when a single card is left
    /// beside a monster, as after a blow, or when no monster and nothing
    /// usable is left (which also covers rooms without monsters).
    pub open spec fn use_moves_room_on(self) -> bool {
        if holds_monster(self.room) {
            occupied(self.room) == 1
        } else {
            !holds_usable(self.room, self.healed)
        }
    }

    /// The game after a weapon or potion `card` is used, where that is allowed.
    pub open spec fn equipped(self, card: Card) -> GameView {
        if self.used(card).use_moves_room_on() {
            self.used(card).advanced()
        } else {
            self.used(card)
        }
    }

    /// Using `card` keeps health and turn within their machine range.
    pub open spec fn equip_in_range(self, card: Card) -> bool {
        &&& (card.spec_potion() && !self.healed) ==> i8::MIN <= self.hp + as_signed_byte(
            card.value as int,
        ) <= i8::MAX
        &&& ((card.spec_weapon() || (card.spec_potion() && !self.healed))
            && self.used(card).use_moves_room_on()) ==> self.turn < u32::MAX
    }

    /// The deck with the cards of the room laid on top of it, slot by slot.
    pub open spec fn gathered(self) -> Seq<Card> {
        self.deck + cards_of(self.room)
    }

    /// The game after fleeing, where `shuffled` is the deck once the room
    /// was put back into it and it was shuffled: a new room is dealt.
    pub open spec fn fled(self, shuffled: Seq<Card>) -> GameView {
        GameView {
            deck: deal(shuffled).1,
            room: deal(shuffled).0,
            avoided: true,
            healed: false,
            ..self
        }
    }
}

} // verus!
