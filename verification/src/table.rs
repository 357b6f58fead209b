//! The table a player sits at: the game, the card picked from the room, and
//! the notice shown after each move.

use vstd::prelude::*;

use crate::card::Card;
use crate::game::GameState;
use crate::rules::{
    double_flee_msg, fresh_game, is_dungeon_deck, not_a_monster_msg, not_a_weapon_msg,
    one_potion_msg, weapon_bound_msg,
};

verus! {

/// The notice of an attack with no card picked.
pub open spec fn pick_monster_msg() -> Seq<char> {
    "Select a monster card first"@
}

/// The notice of equipping with no card picked.
pub open spec fn pick_usable_msg() -> Seq<char> {
    "Select a weapon or potion card first"@
}

/// A game with the card picked from the room and the notice of the last move.
pub struct Table {
    pub game: GameState,
    pub selected: Option<Card>,
    /// Empty after a move that went through; the reason a move was refused otherwise.
    pub notice: String,
}

impl Table {
    /// A table with a new game, nothing picked and no notice.
    pub fn new() -> (t: Self)
        ensures
            exists|deck: Seq<Card>| is_dungeon_deck(deck) && #[trigger] fresh_game(deck) == t.game@,
            t.selected is None,
            t.notice@ == Seq::<char>::empty(),
    {
        Table { game: GameState::new(), selected: None, notice: String::new() }
    }

    /// The game is over: lost or won.
    pub fn game_over(&self) -> (r: bool)
        ensures
            r == (self.game@.dead() || self.game@.won()),
    {
        self.game.is_dead() || self.game.has_won()
    }

    /// Picks a card of the room; the notice is cleared.
    pub fn select(&mut self, card: Card)
        ensures
            final(self).selected == Some(card),
            final(self).notice@ == Seq::<char>::empty(),
            final(self).game@ == old(self).game@,
    {
        self.selected = Some(card);
        self.notice = String::new();
    }

    /// Attacks the picked card, with the weapon or barehanded; the pick is
    /// dropped either way.
    pub fn attack(&mut self, barehanded: bool)
        requires
            old(self).selected matches Some(c) ==> old(self).game@.attack_in_range(c, barehanded),
        ensures
            final(self).selected is None,
            old(self).selected is None ==> final(self).notice@ == pick_monster_msg()
                && final(self).game@ == old(self).game@,
            old(self).selected matches Some(c) ==> if !c.spec_monster() {
                final(self).notice@ == not_a_monster_msg() && final(self).game@ == old(self).game@
            } else if old(self).game@.weapon_blocks(c, barehanded) {
                final(self).notice@ == weapon_bound_msg() && final(self).game@ == old(self).game@
            } else {
                final(self).notice@ == Seq::<char>::empty() && final(self).game@ == old(
                    self,
                ).game@.attacked(c, barehanded)
            },
    {
        match self.selected {
            Some(card) => match self.game.attack(card, barehanded) {
                Ok(()) => self.notice = String::new(),
                Err(e) => self.notice = e,
            },
            None => self.notice = "Select a monster card first".to_string(),
        }
        self.selected = None;
    }

    /// Equips the picked weapon or drinks the picked potion; the pick is
    /// dropped either way.
    pub fn equip(&mut self)
        requires
            old(self).selected matches Some(c) ==> old(self).game@.equip_in_range(c),
        ensures
            final(self).selected is None,
            old(self).selected is None ==> final(self).notice@ == pick_usable_msg()
                && final(self).game@ == old(self).game@,
            old(self).selected matches Some(c) ==> if c.spec_monster() {
                final(self).notice@ == not_a_weapon_msg() && final(self).game@ == old(self).game@
            } else if c.spec_potion() && old(self).game.have_healed {
                final(self).notice@ == one_potion_msg() && final(self).game@ == old(self).game@
            } else {
                final(self).notice@ == Seq::<char>::empty() && final(self).game@ == old(
                    self,
                ).game@.equipped(c)
            },
    {
        match self.selected {
            Some(card) => match self.game.equip(card) {
                Ok(()) => self.notice = String::new(),
                Err(e) => self.notice = e,
            },
            None => self.notice = "Select a weapon or potion card first".to_string(),
        }
        self.selected = None;
    }

    /// Flees the room; the pick is dropped.
    pub fn flee(&mut self)
        ensures
            final(self).selected is None,
            old(self).game.last_action_was_avoid ==> final(self).notice@ == double_flee_msg()
                && final(self).game@ == old(self).game@,
            !old(self).game.last_action_was_avoid ==> final(self).notice@ == Seq::<char>::empty()
                && exists|shuffled: Seq<Card>|
                #[trigger] old(self).game@.fled(shuffled) == final(self).game@
                    && shuffled.to_multiset() == old(self).game@.gathered().to_multiset(),
    {
        match self.game.flee() {
            Ok(()) => self.notice = String::new(),
            Err(e) => self.notice = e,
        }
        self.selected = None;
    }
}

} // verus!
