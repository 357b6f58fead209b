//! The state of a game and the moves a player makes.

use vstd::prelude::*;

use crate::card::{Card, Suit, Weapon};
use crate::random::{shuffle_cards, thread_rng};
use crate::rules::{
    as_signed_byte, cards_of, deal, double_flee_msg, fill_from, first_slot_of, fresh_game,
    holds_monster, holds_usable, in_dungeon_deck, is_dungeon_deck, not_a_monster_msg,
    not_a_weapon_msg, occupied, one_potion_msg, weapon_bound_msg, without, GameView, MAX_HP,
    ROOM_SIZE,
};

verus! {

/// A game in progress.
#[derive(Clone)]
pub struct GameState {
    pub hp: i8,
    pub turn: u32,
    pub weapon: Option<Weapon>,
    /// The dungeon deck; its last card is the top one.
    pub dungeon_deck: Vec<Card>,
    pub current_room: [Option<Card>; ROOM_SIZE],
    pub last_action_was_avoid: bool,
    pub have_healed: bool,
}

impl View for GameState {
    type V = GameView;

    open spec fn view(&self) -> GameView {
        GameView {
            hp: self.hp as int,
            turn: self.turn as nat,
            weapon: self.weapon,
            deck: self.dungeon_deck@,
            room: self.current_room@,
            avoided: self.last_action_was_avoid,
            healed: self.have_healed,
        }
    }
}

impl GameState {
    /// The game is lost: health at zero or below.
    pub fn is_dead(&self) -> (r: bool)
        ensures
            r == self@.dead(),
    {
        self.hp <= 0
    }

    /// The game is won: the deck is used up and the room is empty.
    pub fn has_won(&self) -> (r: bool)
        ensures
            r == self@.won(),
    {
        if !self.dungeon_deck.is_empty() {
            return false;
        }
        let mut i: usize = 0;
        while i < ROOM_SIZE
            invariant
                0 <= i <= ROOM_SIZE,
                self.dungeon_deck@.len() == 0,
                forall|j: int| 0 <= j < i ==> #[trigger] self.current_room@[j] is None,
            decreases ROOM_SIZE - i,
        {
            if self.current_room[i].is_some() {
                return false;
            }
            i += 1;
        }
        true
    }

    /// Is there a monster in the room?
    fn has_monsters(&self) -> (r: bool)
        ensures
            r == holds_monster(self.current_room@),
    {
        let mut i: usize = 0;
        while i < ROOM_SIZE
            invariant
                0 <= i <= ROOM_SIZE,
                forall|j: int|
                    0 <= j < i ==> !(#[trigger] self.current_room@[j] is Some
                        && self.current_room@[j]->0.spec_monster()),
            decreases ROOM_SIZE - i,
        {
            if let Some(c) = self.current_room[i] {
                if c.is_monster() {
                    return true;
                }
            }
            i += 1;
        }
        false
    }

    /// Is some card left that can be used? A weapon can always be equipped;
    /// a potion only while none was drunk in this room.
    fn has_usable_cards(&self) -> (r: bool)
        ensures
            r == holds_usable(self.current_room@, self.have_healed),
    {
        let mut i: usize = 0;
        while i < ROOM_SIZE
            invariant
                0 <= i <= ROOM_SIZE,
                forall|j: int|
                    0 <= j < i ==> !(#[trigger] self.current_room@[j] is Some && (
                    self.current_room@[j]->0.spec_weapon() || (
                    self.current_room@[j]->0.spec_potion() && !self.have_healed))),
            decreases ROOM_SIZE - i,
        {
            if let Some(c) = self.current_room[i] {
                if c.is_weapon() || (c.is_potion() && !self.have_healed) {
                    return true;
                }
            }
            i += 1;
        }
        false
    }

    /// Number of occupied slots.
    fn count_occupied(&self) -> (n: usize)
        ensures
            n == occupied(self.current_room@),
    {
        let mut n: usize = 0;
        let mut i: usize = 0;
        while i < ROOM_SIZE
            invariant
                0 <= i <= ROOM_SIZE,
                n <= i,
                n == occupied(self.current_room@.take(i as int)),
            decreases ROOM_SIZE - i,
        {
            assert(self.current_room@.take(i + 1).drop_last() =~= self.current_room@.take(
                i as int,
            ));
            if self.current_room[i].is_some() {
                n += 1;
            }
            i += 1;
        }
        assert(self.current_room@.take(ROOM_SIZE as int) =~= self.current_room@);
        n
    }

    /// Takes `card` out of the first slot that holds it, if any.
    fn remove_card(&mut self, card: Card)
        ensures
            final(self)@ == (GameView { room: without(old(self)@.room, card), ..old(self)@ }),
    {
        let mut i: usize = 0;
        while i < ROOM_SIZE
            invariant
                0 <= i <= ROOM_SIZE,
                self@ == old(self)@,
                forall|j: int| 0 <= j < i ==> #[trigger] self.current_room@[j] != Some(card),
            decreases ROOM_SIZE - i,
        {
            if let Some(c) = self.current_room[i] {
                if c == card {
                    proof {
                        let room = self.current_room@;
                        assert(room.contains(Some(card))) by {
                            assert(room[i as int] == Some(card));
                        }
                        let k = first_slot_of(room, card);
                        assert(0 <= k < room.len() && room[k] == Some(card) && forall|j: int|
                            0 <= j < k ==> room[j] != Some(card));
                        assert(k == i);
                    }
                    self.current_room[i] = None;
                    assert(self.current_room@ =~= without(old(self)@.room, card));
                    return;
                }
            }
            i += 1;
        }
        assert(!self.current_room@.contains(Some(card)));
    }

    /// Deals a whole room: each slot gets the top card of the deck, if any.
    fn draw_room(&mut self)
        ensures
            final(self)@ == (GameView {
                room: deal(old(self)@.deck).0,
                deck: deal(old(self)@.deck).1,
                ..old(self)@
            }),
    {
        let ghost d0 = self.dungeon_deck@;
        let mut i: usize = 0;
        while i < ROOM_SIZE
            invariant
                0 <= i <= ROOM_SIZE,
                d0 == old(self)@.deck,
                self.dungeon_deck@ == (if d0.len() >= i {
                    d0.take(d0.len() - i)
                } else {
                    Seq::<Card>::empty()
                }),
                forall|k: int| 0 <= k < i ==> #[trigger] self.current_room@[k] == deal(d0).0[k],
                self.hp == old(self).hp,
                self.turn == old(self).turn,
                self.weapon == old(self).weapon,
                self.last_action_was_avoid == old(self).last_action_was_avoid,
                self.have_healed == old(self).have_healed,
            decreases ROOM_SIZE - i,
        {
            let ghost before = self.dungeon_deck@;
            let top = self.dungeon_deck.pop();
            proof {
                if d0.len() > i {
                    assert(before.last() == d0[d0.len() - 1 - i]);
                    assert(before.drop_last() =~= d0.take(d0.len() - i - 1));
                }
            }
            self.current_room[i] = top;
            i += 1;
        }
        assert(self.current_room@ =~= deal(d0).0);
        assert(self.dungeon_deck@ =~= deal(d0).1);
    }

    /// Moves the room on after a move that took a card out of it:
    ///
    /// 1. Completion: when no monster is left, the remaining cards (unused
    ///    potions and weapons) are dropped and a whole new room is dealt.
    /// 2. New turn: otherwise, when a single card is left (monster or not),
    ///    it stays and the empty slots are filled from the deck.
    ///
    /// Either way fleeing and drinking are allowed again and the turn counts up.
    fn maybe_advance(&mut self)
        requires
            old(self)@.advances() ==> old(self).turn < u32::MAX,
        ensures
            final(self)@ == old(self)@.advanced(),
    {
        let has_monster = self.has_monsters();
        if !has_monster {
            self.current_room = [None, None, None, None];
            self.draw_room();
        } else if self.count_occupied() == 1 {
            let ghost r0 = self.current_room@;
            let ghost d0 = self.dungeon_deck@;
            let mut i: usize = 0;
            while i < ROOM_SIZE
                invariant
                    0 <= i <= ROOM_SIZE,
                    fill_from(self.current_room@, self.dungeon_deck@, i as nat) == fill_from(
                        r0,
                        d0,
                        0,
                    ),
                    self.hp == old(self).hp,
                    self.turn == old(self).turn,
                    self.turn < u32::MAX,
                    self.weapon == old(self).weapon,
                decreases ROOM_SIZE - i,
            {
                let ghost room = self.current_room@;
                let ghost deck = self.dungeon_deck@;
                if self.current_room[i].is_none() {
                    let top = self.dungeon_deck.pop();
                    self.current_room[i] = top;
                    proof {
                        if deck.len() == 0 {
                            assert(self.current_room@ =~= room);
                        }
                    }
                }
                i += 1;
            }
        } else {
            return;
        }
        self.turn = self.turn + 1;
        self.last_action_was_avoid = false;
        self.have_healed = false;
    }

    /// Attacks a monster (spades or clubs).
    ///
    /// - `barehanded == false`: uses the equipped weapon, if any, which the
    ///   monster's value binds; without a weapon the damage is full.
    /// - `barehanded == true`: fights barehanded even with a weapon equipped
    ///   (full damage; the weapon stays and its binding does not change). This
    ///   is the way to face monsters stronger than the last one slain.
    ///
    /// After the blow the room may move on (see `maybe_advance`).
    pub fn attack(&mut self, card: Card, barehanded: bool) -> (r: Result<(), String>)
        requires
            old(self)@.attack_in_range(card, barehanded),
        ensures
            !card.spec_monster() ==> r is Err && r->Err_0@ == not_a_monster_msg() && final(self)@
                == old(self)@,
            card.spec_monster() && old(self)@.weapon_blocks(card, barehanded) ==> r is Err
                && r->Err_0@ == weapon_bound_msg() && final(self)@ == old(self)@,
            card.spec_monster() && !old(self)@.weapon_blocks(card, barehanded) ==> r is Ok
                && final(self)@ == old(self)@.attacked(card, barehanded),
    {
        if !card.is_monster() {
            return Err("The selected card is not a monster".to_string());
        }
        let damage: u8 = if barehanded {
            card.value
        } else {
            match self.weapon {
                Some(weapon) => {
                    if let Some(last) = weapon.last_monster_value {
                        if card.value > last {
                            return Err(
                                "Your weapon is bound: it can only fight monsters of equal or lower \
                                 strength than the last one it defeated. Fight barehanded instead.".to_string(),
                            );
                        }
                    }
                    card.value.saturating_sub(weapon.value)
                },
                None => card.value,
            }
        };
        assert(damage == old(self)@.damage(card, barehanded));
        let delta: i8 = damage as i8;
        assert(delta == as_signed_byte(damage as int)) by (bit_vector)
            requires
                delta == damage as i8,
        ;
        self.hp = self.hp - delta;
        if !barehanded {
            if let Some(w) = self.weapon {
                self.weapon = Some(Weapon { value: w.value, last_monster_value: Some(card.value) });
            }
        }
        self.remove_card(card);
        assert(self@ == old(self)@.struck(card, barehanded));
        self.maybe_advance();
        Ok(())
    }

    /// Equips a weapon (diamonds) or drinks a potion (hearts).
    /// One potion per room; health cannot go above `MAX_HP`.
    pub fn equip(&mut self, card: Card) -> (r: Result<(), String>)
        requires
            old(self)@.equip_in_range(card),
        ensures
            card.spec_weapon() ==> r is Ok && final(self)@ == old(self)@.equipped(card),
            card.spec_potion() && !old(self).have_healed ==> r is Ok && final(self)@ == old(
                self,
            )@.equipped(card),
            card.spec_potion() && old(self).have_healed ==> r is Err && r->Err_0@
                == one_potion_msg() && final(self)@ == old(self)@,
            card.spec_monster() ==> r is Err && r->Err_0@ == not_a_weapon_msg() && final(self)@
                == old(self)@,
    {
        if card.is_weapon() {
            self.weapon = Some(Weapon::new(card.value));
        } else if card.is_potion() {
            if self.have_healed {
                return Err("You can only drink one potion per room".to_string());
            }
            let value: u8 = card.value;
            let gain: i8 = value as i8;
            assert(gain == as_signed_byte(value as int)) by (bit_vector)
                requires
                    gain == value as i8,
            ;
            let healed = self.hp + gain;
            self.hp = if healed < MAX_HP {
                healed
            } else {
                MAX_HP
            };
            self.have_healed = true;
        } else {
            return Err("The selected card is not a weapon".to_string());
        }
        self.remove_card(card);
        assert(self@ == old(self)@.used(card));
        // Beside a monster the room moves on as after a blow: when a single
        // card is left. Without monsters it moves on once nothing usable is
        // left (a weapon, or a potion while none was drunk in this room).
        if self.has_monsters() {
            self.maybe_advance();
        } else if !self.has_usable_cards() {
            self.maybe_advance();
        }
        Ok(())
    }

    /// Starts a game with a shuffled 44-card deck: full health, first turn,
    /// no weapon, and the first room dealt.
    pub fn new() -> (g: Self)
        ensures
            exists|deck: Seq<Card>| is_dungeon_deck(deck) && #[trigger] fresh_game(deck) == g@,
            g.hp == MAX_HP,
            g.turn == 1,
            g.weapon is None,
            g.dungeon_deck@.len() == 40,
            forall|i: int| 0 <= i < ROOM_SIZE ==> #[trigger] g.current_room@[i] is Some,
            !g.last_action_was_avoid,
            !g.have_healed,
    {
        let deck = Self::spawn_deck();
        let ghost shuffled = deck@;
        let g = Self::with_deck(deck);
        assert(fresh_game(shuffled) == g@);
        g
    }

    /// Starts a game on the given deck, as it lies (its last card is the
    /// top one): full health, first turn, no weapon, and the first room
    /// dealt from the top of the deck.
    pub fn with_deck(deck: Vec<Card>) -> (g: Self)
        ensures
            g@ == fresh_game(deck@),
    {
        let mut state = GameState {
            hp: MAX_HP,
            turn: 1,
            weapon: None,
            dungeon_deck: deck,
            current_room: [None, None, None, None],
            last_action_was_avoid: false,
            have_healed: false,
        };
        state.draw_room();
        state
    }

    /// The 44-card deck, shuffled: black cards 2 to 14 (court cards and
    /// aces included), red cards 2 to 10 (red court cards and aces are
    /// removed by the rules).
    fn spawn_deck() -> (deck: Vec<Card>)
        ensures
            is_dungeon_deck(deck@),
    {
        broadcast use vstd::seq_lib::group_to_multiset_ensures;
        broadcast use vstd::multiset::group_multiset_axioms;

        let mut result: Vec<Card> = Vec::with_capacity(44);
        // Monsters: 13 values (2..=14) of two suits.
        let mut value: u8 = 2;
        while value <= 14
            invariant
                2 <= value <= 15,
                result@.len() == 2 * (value - 2),
                forall|c: Card| #[trigger]
                    result@.to_multiset().count(c) == if c.spec_monster() && 2 <= c.value
                        < value {
                        1nat
                    } else {
                        0nat
                    },
            decreases 15 - value,
        {
            let ghost before = result@;
            let clubs = Card::new(Suit::Clubs, value);
            let spades = Card::new(Suit::Spades, value);
            result.push(clubs);
            result.push(spades);
            assert(result@ == before.push(clubs).push(spades));
            proof {
                vstd::seq_lib::to_multiset_build(before, clubs);
                vstd::seq_lib::to_multiset_build(before.push(clubs), spades);
            }
            value += 1;
            assert forall|c: Card| #[trigger]
                result@.to_multiset().count(c) == if c.spec_monster() && 2 <= c.value < value {
                    1nat
                } else {
                    0nat
                } by {
                assert(result@.to_multiset() =~= before.to_multiset().insert(clubs).insert(spades));
            }
        }
        // Weapons and potions: 9 values (2..=10) of two suits.
        let mut value: u8 = 2;
        while value <= 10
            invariant
                2 <= value <= 11,
                result@.len() == 26 + 2 * (value - 2),
                forall|c: Card| #[trigger]
                    result@.to_multiset().count(c) == if (c.spec_monster() && 2 <= c.value <= 14)
                        || (!c.spec_monster() && 2 <= c.value < value) {
                        1nat
                    } else {
                        0nat
                    },
            decreases 11 - value,
        {
            let ghost before = result@;
            let diamonds = Card::new(Suit::Diamonds, value);
            let hearts = Card::new(Suit::Hearts, value);
            result.push(diamonds);
            result.push(hearts);
            assert(result@ == before.push(diamonds).push(hearts));
            proof {
                vstd::seq_lib::to_multiset_build(before, diamonds);
                vstd::seq_lib::to_multiset_build(before.push(diamonds), hearts);
            }
            value += 1;
            assert forall|c: Card| #[trigger]
                result@.to_multiset().count(c) == if (c.spec_monster() && 2 <= c.value <= 14) || (
                !c.spec_monster() && 2 <= c.value < value) {
                    1nat
                } else {
                    0nat
                } by {
                assert(result@.to_multiset() =~= before.to_multiset().insert(diamonds).insert(
                    hearts,
                ));
            }
        }
        let ghost ordered = result@;
        assert forall|c: Card| #[trigger]
            ordered.to_multiset().count(c) == if in_dungeon_deck(c) {
                1nat
            } else {
                0nat
            } by {}
        let mut rng = thread_rng();
        shuffle_cards(&mut result, &mut rng);
        assert(result@.len() == result@.to_multiset().len());
        assert(ordered.len() == ordered.to_multiset().len());
        result
    }

    /// Flees the room: its cards go back into the deck, which is shuffled,
    /// and a new room is dealt. Two rooms in a row cannot be fled.
    pub fn flee(&mut self) -> (r: Result<(), String>)
        ensures
            old(self).last_action_was_avoid ==> r is Err && r->Err_0@ == double_flee_msg()
                && final(self)@ == old(self)@,
            !old(self).last_action_was_avoid ==> r is Ok && exists|shuffled: Seq<Card>|
                #[trigger] old(self)@.fled(shuffled) == final(self)@
                    && shuffled.to_multiset() == old(self)@.gathered().to_multiset(),
    {
        if self.last_action_was_avoid {
            return Err("You cannot avoid two rooms in a row".to_string());
        }
        let ghost r0 = self.current_room@;
        let ghost d0 = self.dungeon_deck@;
        let mut deck: Vec<Card> = Vec::new();
        std::mem::swap(&mut deck, &mut self.dungeon_deck);
        let mut i: usize = 0;
        while i < ROOM_SIZE
            invariant
                0 <= i <= ROOM_SIZE,
                r0 == old(self)@.room,
                d0 == old(self)@.deck,
                deck@ == d0 + cards_of(r0.take(i as int)),
                forall|k: int| i <= k < ROOM_SIZE ==> #[trigger] self.current_room@[k] == r0[k],
                self.hp == old(self).hp,
                self.turn == old(self).turn,
                self.weapon == old(self).weapon,
                !self.last_action_was_avoid,
            decreases ROOM_SIZE - i,
        {
            assert(r0.take(i + 1).drop_last() =~= r0.take(i as int));
            if let Some(card) = self.current_room[i] {
                deck.push(card);
                self.current_room[i] = None;
            }
            assert(deck@ =~= d0 + cards_of(r0.take(i + 1)));
            i += 1;
        }
        assert(r0.take(ROOM_SIZE as int) =~= r0);
        let mut rng = thread_rng();
        shuffle_cards(&mut deck, &mut rng);
        let ghost shuffled = deck@;
        self.deal_after_flee(deck);
        assert(old(self)@.fled(shuffled) == self@);
        Ok(())
    }


    /// Enters a new room after fleeing: `shuffled` becomes the deck (its
    /// last card is the top one), a room is dealt from it, fleeing is
    /// blocked until the room moves on and drinking is allowed again.
    pub fn deal_after_flee(&mut self, shuffled: Vec<Card>)
        ensures
            final(self)@ == old(self)@.fled(shuffled@),
    {
        self.dungeon_deck = shuffled;
        self.draw_room();
        self.last_action_was_avoid = true;
        self.have_healed = false;
    }
    /// A copy of the game with the same room and an empty deck, to look
    /// ahead at a move without touching the game.
    fn probe(&self) -> (p: Self)
        ensures
            p@ == (GameView { deck: Seq::empty(), ..self@ }),
    {
        GameState {
            hp: self.hp,
            turn: self.turn,
            weapon: self.weapon,
            dungeon_deck: Vec::new(),
            current_room: self.current_room,
            last_action_was_avoid: self.last_action_was_avoid,
            have_healed: self.have_healed,
        }
    }

    /// Would the room move on once `card` is struck out of it?
    fn advances_without(&self, card: Card) -> (r: bool)
        ensures
            r == (GameView { room: without(self@.room, card), ..self@ }).advances(),
    {
        let mut p = self.probe();
        p.remove_card(card);
        !p.has_monsters() || p.count_occupied() == 1
    }

    /// Would the room move on once `card` is used?
    fn moves_on_after_use(&self, card: Card) -> (r: bool)
        ensures
            r == self@.used(card).use_moves_room_on(),
    {
        let mut p = self.probe();
        if !card.is_weapon() {
            p.have_healed = true;
        }
        p.remove_card(card);
        if p.has_monsters() {
            p.count_occupied() == 1
        } else {
            !p.has_usable_cards()
        }
    }

    /// Whether an attack on `card` keeps health and turn within their
    /// machine range (see `attack`).
    pub fn attack_in_range(&self, card: Card, barehanded: bool) -> (r: bool)
        ensures
            r == self@.attack_in_range(card, barehanded),
    {
        if !card.is_monster() {
            return true;
        }
        let damage: u8 = if barehanded {
            card.value
        } else {
            match self.weapon {
                Some(weapon) => {
                    if let Some(last) = weapon.last_monster_value {
                        if card.value > last {
                            return true;
                        }
                    }
                    card.value.saturating_sub(weapon.value)
                },
                None => card.value,
            }
        };
        assert(damage == self@.damage(card, barehanded));
        let delta: i8 = damage as i8;
        assert(delta == as_signed_byte(damage as int)) by (bit_vector)
            requires
                delta == damage as i8,
        ;
        let after: i16 = self.hp as i16 - delta as i16;
        if after < -128 || after > 127 {
            return false;
        }
        self.turn < u32::MAX || !self.advances_without(card)
    }

    /// Whether using `card` keeps health and turn within their machine
    /// range (see `equip`).
    pub fn equip_in_range(&self, card: Card) -> (r: bool)
        ensures
            r == self@.equip_in_range(card),
    {
        if !(card.is_weapon() || (card.is_potion() && !self.have_healed)) {
            return true;
        }
        if card.is_potion() {
            let value: u8 = card.value;
            let gain: i8 = value as i8;
            assert(gain == as_signed_byte(value as int)) by (bit_vector)
                requires
                    gain == value as i8,
            ;
            let after: i16 = self.hp as i16 + gain as i16;
            if after < -128 || after > 127 {
                return false;
            }
        }
        self.turn < u32::MAX || !self.moves_on_after_use(card)
    }
}

} // verus!
