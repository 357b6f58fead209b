use scoundrel::card::{Card, Suit, Weapon};
use scoundrel::face::decimal_string;
use scoundrel::game::GameState;
use scoundrel::project::{call_to_action, CallToAction};
use scoundrel::rules::{MAX_HP, ROOM_SIZE};

fn monster(v: u8) -> Card {
    Card::new(Suit::Spades, v)
}

fn potion(v: u8) -> Card {
    Card::new(Suit::Hearts, v)
}

fn weapon(v: u8) -> Card {
    Card::new(Suit::Diamonds, v)
}

fn occupied(state: &GameState) -> usize {
    state.current_room.iter().filter(|c| c.is_some()).count()
}

/// The deck in the order it is built before the shuffle.
fn ordered_deck() -> Vec<Card> {
    let mut deck = Vec::new();
    for v in 2..=14 {
        deck.push(Card::new(Suit::Clubs, v));
        deck.push(Card::new(Suit::Spades, v));
    }
    for v in 2..=10 {
        deck.push(Card::new(Suit::Diamonds, v));
        deck.push(Card::new(Suit::Hearts, v));
    }
    deck
}

fn all_cards(state: &GameState) -> Vec<Card> {
    let mut cards = state.dungeon_deck.clone();
    for c in state.current_room.iter().flatten() {
        cards.push(*c);
    }
    cards
}

fn same_cards(a: &[Card], b: &[Card]) -> bool {
    a.len() == b.len()
        && a.iter().all(|x| {
            a.iter().filter(|y| *y == x).count() == b.iter().filter(|y| *y == x).count()
        })
}

#[test]
fn new_game_holds_each_dungeon_card_once() {
    let state = GameState::new();
    let cards = all_cards(&state);
    assert_eq!(cards.len(), 44);
    assert!(same_cards(&cards, &ordered_deck()));
    assert_eq!(state.turn, 1);
    assert!(state.weapon.is_none());
    assert!(!state.last_action_was_avoid);
    assert!(!state.have_healed);
}

#[test]
fn new_game_deck_is_shuffled() {
    // The room of an unshuffled deck would be its four last cards; over
    // several games a shuffle shows another order.
    let ordered = ordered_deck();
    let shuffled = (0..5).any(|_| {
        let state = GameState::new();
        let mut cards = state.dungeon_deck.clone();
        for c in state.current_room.iter().rev().flatten() {
            cards.push(*c);
        }
        cards != ordered
    });
    assert!(shuffled);
}

#[test]
fn with_deck_deals_from_the_top() {
    let deck = vec![potion(2), potion(3), monster(4), monster(5), weapon(6)];
    let state = GameState::with_deck(deck);
    assert_eq!(
        state.current_room,
        [Some(weapon(6)), Some(monster(5)), Some(monster(4)), Some(potion(3))]
    );
    assert_eq!(state.dungeon_deck, vec![potion(2)]);
    assert_eq!(state.hp, MAX_HP);
    assert_eq!(state.turn, 1);
}

#[test]
fn with_short_deck_leaves_slots_empty() {
    let state = GameState::with_deck(vec![monster(9), potion(2)]);
    assert_eq!(state.current_room, [Some(potion(2)), Some(monster(9)), None, None]);
    assert!(state.dungeon_deck.is_empty());
}

#[test]
fn attack_on_red_card_names_the_error() {
    let mut state = GameState::with_deck(vec![monster(3), potion(5)]);
    let err = state.attack(potion(5), false).unwrap_err();
    assert_eq!(err, "The selected card is not a monster");
    assert_eq!(state.hp, MAX_HP);
    assert_eq!(occupied(&state), 2);
}

#[test]
fn bound_weapon_error_leaves_game_unchanged() {
    let mut state = GameState::with_deck(vec![monster(3), monster(9)]);
    state.weapon = Some(Weapon { value: 5, last_monster_value: Some(8) });
    let err = state.attack(monster(9), false).unwrap_err();
    assert_eq!(
        err,
        "Your weapon is bound: it can only fight monsters of equal or lower strength than the last one it defeated. Fight barehanded instead."
    );
    assert_eq!(state.hp, MAX_HP);
    assert_eq!(state.weapon.unwrap().last_monster_value, Some(8));
    assert_eq!(state.current_room, [Some(monster(9)), Some(monster(3)), None, None]);
}

#[test]
fn bound_weapon_fights_equal_monster() {
    let mut state = GameState::with_deck(vec![monster(3), monster(8)]);
    state.weapon = Some(Weapon { value: 5, last_monster_value: Some(8) });
    state.attack(monster(8), false).unwrap();
    assert_eq!(state.hp, MAX_HP - 3);
    assert_eq!(state.weapon.unwrap().last_monster_value, Some(8));
}

#[test]
fn strong_weapon_absorbs_all_damage() {
    let mut state = GameState::with_deck(vec![monster(3), monster(4)]);
    state.weapon = Some(Weapon::new(9));
    state.attack(monster(4), false).unwrap();
    assert_eq!(state.hp, MAX_HP);
    assert_eq!(state.weapon.unwrap().last_monster_value, Some(4));
}

#[test]
fn equip_monster_names_the_error() {
    let mut state = GameState::with_deck(vec![monster(3), monster(4)]);
    let err = state.equip(monster(4)).unwrap_err();
    assert_eq!(err, "The selected card is not a weapon");
    assert_eq!(occupied(&state), 2);
}

#[test]
fn second_potion_names_the_error() {
    let mut state = GameState::with_deck(vec![monster(3), potion(4), potion(5)]);
    state.hp = 5;
    state.equip(potion(5)).unwrap();
    assert_eq!(state.hp, 10);
    let err = state.equip(potion(4)).unwrap_err();
    assert_eq!(err, "You can only drink one potion per room");
    assert_eq!(state.hp, 10);
    assert_eq!(state.current_room, [None, Some(potion(4)), Some(monster(3)), None]);
}

#[test]
fn new_weapon_replaces_bound_one() {
    let mut state = GameState::with_deck(vec![monster(3), monster(4), weapon(7)]);
    state.weapon = Some(Weapon { value: 2, last_monster_value: Some(2) });
    state.equip(weapon(7)).unwrap();
    let w = state.weapon.unwrap();
    assert_eq!(w.value, 7);
    assert_eq!(w.last_monster_value, None);
}

#[test]
fn potion_heals_exactly_below_cap() {
    let mut state = GameState::with_deck(vec![monster(3), potion(6)]);
    state.hp = 7;
    state.equip(potion(6)).unwrap();
    assert_eq!(state.hp, 13);
    // a single monster is left: the room moves on and drinking is allowed again
    assert_eq!(state.turn, 2);
    assert!(!state.have_healed);
}

#[test]
fn equip_leaving_one_card_beside_monster_moves_room_on() {
    let deck = vec![potion(2), potion(3), potion(4), weapon(4), monster(3)];
    let mut state = GameState::with_deck(deck);
    // room: S3, D4, H4, H3; deck: H2
    state.current_room = [Some(monster(3)), Some(weapon(4)), None, None];
    state.equip(weapon(4)).unwrap();
    assert_eq!(state.turn, 2);
    assert_eq!(state.current_room, [Some(monster(3)), Some(potion(2)), None, None]);
    assert!(state.dungeon_deck.is_empty());
}

#[test]
fn equip_leaving_two_cards_beside_monster_keeps_room() {
    let mut state = GameState::with_deck(vec![potion(2), monster(3), weapon(4)]);
    // room: D4, S3, H2
    state.equip(weapon(4)).unwrap();
    assert_eq!(state.turn, 1);
    assert_eq!(state.current_room, [None, Some(monster(3)), Some(potion(2)), None]);
}

#[test]
fn deal_after_flee_deals_from_given_deck() {
    let mut state = GameState::with_deck(vec![monster(3), potion(4)]);
    state.have_healed = true;
    state.hp = 9;
    state.deal_after_flee(vec![potion(2), monster(5), weapon(6), monster(7), potion(8)]);
    assert_eq!(
        state.current_room,
        [Some(potion(8)), Some(monster(7)), Some(weapon(6)), Some(monster(5))]
    );
    assert_eq!(state.dungeon_deck, vec![potion(2)]);
    assert!(state.last_action_was_avoid);
    assert!(!state.have_healed);
    assert_eq!(state.hp, 9);
    assert_eq!(state.turn, 1);
}

#[test]
fn one_potion_per_room_across_a_blow() {
    let mut state =
        GameState::with_deck(vec![monster(2), monster(3), monster(4), potion(5), potion(6)]);
    // room: H6, H5, M4, M3; deck: M2
    state.hp = 10;
    state.equip(potion(6)).unwrap();
    state.attack(monster(4), true).unwrap();
    assert_eq!(state.turn, 1);
    let before = state.current_room;
    assert_eq!(state.equip(potion(5)).unwrap_err(), "You can only drink one potion per room");
    assert_eq!(state.current_room, before);
    assert_eq!(state.hp, 12);
}

#[test]
fn project_links_and_coming_soon() {
    assert_eq!(
        call_to_action(Some("View"), Some("https://example.org"), true),
        CallToAction::Link {
            label: "View",
            href: "https://example.org",
            target: "_blank",
            rel: "noopener noreferrer"
        }
    );
    assert_eq!(
        call_to_action(Some("Play"), Some("/scoundrel"), false),
        CallToAction::Link { label: "Play", href: "/scoundrel", target: "_self", rel: "" }
    );
    assert_eq!(call_to_action(None, Some("/x"), true), CallToAction::ComingSoon);
    assert_eq!(call_to_action(Some("x"), None, false), CallToAction::ComingSoon);
}

#[test]
fn flee_error_names_the_rule() {
    let mut state = GameState::with_deck(vec![monster(3), potion(6)]);
    state.last_action_was_avoid = true;
    let before = state.current_room;
    let err = state.flee().unwrap_err();
    assert_eq!(err, "You cannot avoid two rooms in a row");
    assert_eq!(state.current_room, before);
}

#[test]
fn flee_keeps_every_card() {
    let mut state = GameState::new();
    state.hp = 7;
    state.turn = 5;
    state.have_healed = true;
    let before = all_cards(&state);
    let turn = state.turn;
    let hp = state.hp;
    state.flee().unwrap();
    assert!(same_cards(&all_cards(&state), &before));
    assert_eq!(state.turn, turn);
    assert_eq!(state.hp, hp);
    assert!(state.last_action_was_avoid);
    assert!(!state.have_healed);
}

#[test]
fn single_card_left_refills_from_short_deck() {
    let mut state = GameState::with_deck(vec![]);
    state.dungeon_deck = vec![potion(9)];
    state.current_room = [Some(monster(5)), Some(monster(6)), None, None];
    state.attack(monster(5), true).unwrap();
    // one card left: the empty slots are filled in order while the deck lasts
    assert_eq!(state.current_room, [Some(potion(9)), Some(monster(6)), None, None]);
    assert!(state.dungeon_deck.is_empty());
    assert_eq!(state.turn, 2);
}

#[test]
fn attack_takes_out_only_the_first_copy() {
    let mut state = GameState::with_deck(vec![monster(2), monster(2), monster(2), monster(9)]);
    state.attack(monster(2), true).unwrap();
    assert_eq!(state.current_room, [Some(monster(9)), None, Some(monster(2)), Some(monster(2))]);
    assert_eq!(state.hp, MAX_HP - 2);
    assert_eq!(state.turn, 1);
}

#[test]
fn attack_on_card_not_in_room_still_strikes() {
    let mut state = GameState::with_deck(vec![monster(2), monster(3)]);
    state.attack(monster(10), true).unwrap();
    assert_eq!(state.hp, MAX_HP - 10);
    assert_eq!(occupied(&state), 2);
}

#[test]
fn completed_room_drops_leftovers() {
    let deck = vec![potion(2), potion(3), potion(4), potion(5), weapon(6), potion(7), monster(8)];
    let mut state = GameState::with_deck(deck);
    // room: M8, H7, D6, H5; deck: H2, H3, H4
    state.attack(monster(8), true).unwrap();
    assert_eq!(state.turn, 2);
    assert_eq!(state.current_room, [Some(potion(4)), Some(potion(3)), Some(potion(2)), None]);
    assert!(state.dungeon_deck.is_empty());
    assert!(!state.has_won());
}

#[test]
fn potion_mark_stays_until_room_advances() {
    let mut state = GameState::with_deck(vec![monster(2), monster(3), monster(4), potion(5)]);
    state.hp = 10;
    state.equip(potion(5)).unwrap();
    state.attack(monster(4), true).unwrap();
    // two monsters are left: the room has not moved on, the mark stays
    assert_eq!(state.turn, 1);
    assert!(state.have_healed);
    state.current_room[0] = Some(potion(6));
    assert!(state.equip(potion(6)).is_err());
    state.current_room[0] = None;
    state.attack(monster(3), true).unwrap();
    // a single card is left: the room moves on and drinking is allowed again
    assert_eq!(state.turn, 2);
    assert!(!state.have_healed);
}

#[test]
fn attacks_never_heal_with_dungeon_cards() {
    for v in 2..=14u8 {
        let mut state = GameState::with_deck(vec![monster(2), monster(v)]);
        state.weapon = Some(Weapon::new(5));
        let hp = state.hp;
        state.attack(monster(v), false).unwrap();
        assert!(state.hp <= hp);
        assert_eq!(state.hp, hp - v.saturating_sub(5) as i8);
    }
}

#[test]
fn deck_shrinks_from_the_top_only() {
    let deck = vec![potion(2), potion(3), potion(4), monster(5), monster(6), monster(7), monster(8)];
    let mut state = GameState::with_deck(deck.clone());
    for m in [8, 7, 6] {
        state.attack(monster(m), true).unwrap();
        let n = state.dungeon_deck.len();
        assert_eq!(&state.dungeon_deck[..], &deck[..n]);
    }
    assert!(state.dungeon_deck.is_empty());
    assert_eq!(state.current_room, [Some(potion(4)), Some(potion(3)), Some(potion(2)), Some(monster(5))]);
}

#[test]
fn win_requires_empty_deck_and_room() {
    let mut state = GameState::with_deck(vec![]);
    assert!(state.has_won());
    state.current_room[3] = Some(potion(2));
    assert!(!state.has_won());
    state.current_room[3] = None;
    state.dungeon_deck.push(potion(2));
    assert!(!state.has_won());
}

#[test]
fn death_at_zero_and_below() {
    let mut state = GameState::with_deck(vec![]);
    state.hp = 1;
    assert!(!state.is_dead());
    state.hp = 0;
    assert!(state.is_dead());
    state.hp = -5;
    assert!(state.is_dead());
}

#[test]
fn range_checks_spot_overflow() {
    let mut state = GameState::with_deck(vec![monster(3), monster(14), potion(9)]);
    assert!(state.attack_in_range(monster(14), true));
    assert!(state.equip_in_range(potion(9)));
    state.hp = -120;
    assert!(!state.attack_in_range(monster(14), true));
    assert!(state.attack_in_range(monster(3), true));
    state.hp = 120;
    assert!(!state.equip_in_range(potion(9)));
    state.have_healed = true;
    assert!(state.equip_in_range(potion(9)));
    state.hp = 10;
    state.turn = u32::MAX;
    // striking the 14 leaves two cards: no new turn, nothing to overflow
    assert!(state.attack_in_range(monster(14), true));
    state.current_room = [Some(monster(14)), Some(monster(3)), None, None];
    assert!(!state.attack_in_range(monster(14), true));
}

#[test]
fn card_kinds() {
    assert!(Card::new(Suit::Clubs, 2).is_monster());
    assert!(Card::new(Suit::Spades, 14).is_monster());
    assert!(weapon(4).is_weapon() && !weapon(4).is_potion() && !weapon(4).is_monster());
    assert!(potion(4).is_potion() && !potion(4).is_weapon());
    assert!(weapon(3).is_red() && potion(3).is_red() && !monster(3).is_red());
}

#[test]
fn card_faces() {
    assert_eq!(monster(2).rank_label(), "2");
    assert_eq!(potion(10).rank_label(), "10");
    assert_eq!(monster(11).rank_label(), "J");
    assert_eq!(monster(12).rank_label(), "Q");
    assert_eq!(monster(13).rank_label(), "K");
    assert_eq!(monster(14).rank_label(), "A");
    assert_eq!(decimal_string(0), "0");
    assert_eq!(decimal_string(137), "137");
    assert_eq!(decimal_string(255), "255");
    assert_eq!(Card::new(Suit::Spades, 2).suit_symbol(), "♠");
    assert_eq!(Card::new(Suit::Clubs, 2).suit_symbol(), "♣");
    assert_eq!(Card::new(Suit::Diamonds, 2).suit_symbol(), "♦");
    assert_eq!(Card::new(Suit::Hearts, 2).suit_symbol(), "♥");
    assert_eq!(monster(5).kind_label(), "Monster");
    assert_eq!(weapon(5).kind_label(), "Weapon");
    assert_eq!(potion(5).kind_label(), "Potion");
}

#[test]
fn room_size_is_four() {
    assert_eq!(ROOM_SIZE, 4);
    assert_eq!(MAX_HP, 20);
}

fn is_sub_collection(small: &[Card], big: &[Card]) -> bool {
    small.iter().all(|x| {
        small.iter().filter(|y| *y == x).count() <= big.iter().filter(|y| *y == x).count()
    })
}

#[test]
fn moves_bring_no_new_cards() {
    let deck = vec![potion(2), potion(3), potion(4), potion(5), weapon(6), potion(7), monster(8)];
    let mut state = GameState::with_deck(deck);
    let before = all_cards(&state);
    state.equip(weapon(6)).unwrap();
    let middle = all_cards(&state);
    assert!(is_sub_collection(&middle, &before));
    assert_eq!(middle.len(), before.len() - 1);
    state.attack(monster(8), false).unwrap();
    let after = all_cards(&state);
    assert!(is_sub_collection(&after, &middle));
    // the potions left in the completed room went out of play
    assert_eq!(after.len(), 3);
}
