use scoundrel::card::{Card, Suit};
use scoundrel::game::GameState;
use scoundrel::rules::MAX_HP;
use scoundrel::table::Table;

fn monster(v: u8) -> Card {
    Card::new(Suit::Clubs, v)
}

fn potion(v: u8) -> Card {
    Card::new(Suit::Hearts, v)
}

fn table_with(deck: Vec<Card>) -> Table {
    let mut t = Table::new();
    t.game = GameState::with_deck(deck);
    t
}

#[test]
fn new_table_is_fresh() {
    let t = Table::new();
    assert!(t.selected.is_none());
    assert!(t.notice.is_empty());
    assert_eq!(t.game.hp, MAX_HP);
    assert!(!t.game_over());
}

#[test]
fn attack_without_pick_asks_for_one() {
    let mut t = table_with(vec![monster(3), monster(4)]);
    t.attack(false);
    assert_eq!(t.notice, "Select a monster card first");
    assert_eq!(t.game.hp, MAX_HP);
}

#[test]
fn equip_without_pick_asks_for_one() {
    let mut t = table_with(vec![monster(3), potion(4)]);
    t.equip();
    assert_eq!(t.notice, "Select a weapon or potion card first");
}

#[test]
fn picked_attack_goes_through_and_clears_notice() {
    let mut t = table_with(vec![monster(3), monster(4), monster(5)]);
    t.attack(false);
    t.select(monster(5));
    assert!(t.notice.is_empty());
    assert_eq!(t.selected, Some(monster(5)));
    t.attack(true);
    assert_eq!(t.game.hp, MAX_HP - 5);
    assert!(t.selected.is_none());
    assert!(t.notice.is_empty());
}

#[test]
fn refused_move_shows_its_reason() {
    let mut t = table_with(vec![monster(3), potion(4)]);
    t.select(potion(4));
    t.attack(true);
    assert_eq!(t.notice, "The selected card is not a monster");
    assert!(t.selected.is_none());
    t.select(monster(3));
    t.equip();
    assert_eq!(t.notice, "The selected card is not a weapon");
}

#[test]
fn second_flee_shows_its_reason() {
    let mut t = table_with(vec![monster(3), potion(4), monster(5), monster(6), monster(7)]);
    t.select(monster(3));
    t.flee();
    assert!(t.notice.is_empty());
    assert!(t.selected.is_none());
    t.flee();
    assert_eq!(t.notice, "You cannot avoid two rooms in a row");
}

#[test]
fn game_over_when_dead_or_won() {
    let mut t = table_with(vec![]);
    assert!(t.game_over());
    t.game.dungeon_deck.push(monster(2));
    assert!(!t.game_over());
    t.game.hp = 0;
    assert!(t.game_over());
}
