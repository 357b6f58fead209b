use scoundrel::card::{Card, Suit, Weapon};
use scoundrel::game::GameState;
use scoundrel::rules::{MAX_HP, ROOM_SIZE};

/// Costruisce una stanza di ROOM_SIZE a partire da una lista di carte.
fn room_with(cards: &[Option<Card>]) -> [Option<Card>; ROOM_SIZE] {
    let mut r = [None; ROOM_SIZE];
    for (i, c) in cards.iter().enumerate().take(ROOM_SIZE) {
        r[i] = *c;
    }
    r
}

fn monster(v: u8) -> Card {
    Card::new(Suit::Spades, v)
}

#[test]
fn deck_is_44_cards_and_room_is_dealt() {
    let state = GameState::new();
    assert_eq!(state.dungeon_deck.len(), 40); // 44 - 4 pescate
    assert_eq!(
        state.current_room.iter().filter(|c| c.is_some()).count(),
        4
    );
    assert_eq!(state.hp, MAX_HP);
}

#[test]
fn barehanded_attack_deals_full_damage() {
    let mut state = GameState::new();
    // Due mostri: dopo il primo colpo la stanza non avanza subito (resta un mostro)
    state.current_room =
        room_with(&[Some(monster(7)), Some(monster(3)), None, None]);
    state.attack(monster(7), false).unwrap();
    assert_eq!(state.hp, MAX_HP - 7);
    assert!(
        state.current_room.iter().all(|c| *c != Some(monster(7))),
        "il mostro ucciso deve sparire dalla stanza"
    );
}

#[test]
fn weapon_reduces_damage() {
    let mut state = GameState::new();
    state.weapon = Some(Weapon::new(4));
    state.current_room =
        room_with(&[Some(monster(12)), Some(monster(6)), None, None]);
    state.attack(monster(12), false).unwrap();
    assert_eq!(state.hp, MAX_HP - 8); // 12 - 4
}

#[test]
fn weapon_binds_to_last_monster() {
    let mut state = GameState::new();
    state.weapon = Some(Weapon::new(10));
    state.current_room =
        room_with(&[Some(monster(13)), Some(monster(10)), None, None]);
    state.attack(monster(13), false).unwrap();
    assert_eq!(state.weapon.unwrap().last_monster_value, Some(13));

    // Legata a 13: puoi ancora attaccare un 10 (≤ 13)
    state.attack(monster(10), false).unwrap();
    assert_eq!(state.weapon.unwrap().last_monster_value, Some(10));
}

#[test]
fn bound_weapon_blocks_stronger_monster_but_barehanded_works() {
    let mut state = GameState::new();
    state.weapon = Some(Weapon {
        value: 10,
        last_monster_value: Some(3),
    });
    state.current_room =
        room_with(&[Some(monster(14)), Some(monster(3)), None, None]);

    // Con l'arma legata a 3 non puoi colpire un 14...
    assert!(state.attack(monster(14), false).is_err());

    // ... ma puoi combatterlo a mani nude (danno pieno), l'arma resta.
    state.attack(monster(14), true).unwrap();
    assert_eq!(state.hp, MAX_HP - 14);
    assert_eq!(state.weapon.unwrap().last_monster_value, Some(3));
}

#[test]
fn cannot_attack_red_cards() {
    let mut state = GameState::new();
    state.current_room =
        room_with(&[Some(Card::new(Suit::Hearts, 5)), Some(monster(4)), None, None]);
    assert!(state.attack(Card::new(Suit::Hearts, 5), true).is_err());
}

#[test]
fn potion_heals_and_caps_at_max_hp() {
    let mut state = GameState::new();
    state.hp = 10;
    state.current_room =
        room_with(&[Some(Card::new(Suit::Hearts, 8)), Some(monster(3)), None, None]);
    state.equip(Card::new(Suit::Hearts, 8)).unwrap();
    assert_eq!(state.hp, 18);

    // nuova stanza (qui simulata): il limite "una pozione per stanza" si azzera
    state.have_healed = false;
    state.hp = 19;
    state.current_room =
        room_with(&[Some(Card::new(Suit::Hearts, 8)), Some(monster(3)), None, None]);
    state.equip(Card::new(Suit::Hearts, 8)).unwrap();
    assert_eq!(state.hp, MAX_HP);
}

#[test]
fn only_one_potion_per_room() {
    let mut state = GameState::new();
    state.have_healed = true;
    state.current_room = room_with(&[Some(Card::new(Suit::Hearts, 4)), Some(monster(3)), None, None]);
    assert!(state.equip(Card::new(Suit::Hearts, 4)).is_err());
}

#[test]
fn flee_shuffles_cards_back_and_forbids_double_avoid() {
    let mut state = GameState::new();
    let deck_before = state.dungeon_deck.len();
    state.flee().unwrap();
    // le 4 carte + 4 nuove pescate: il mazzo torna alla stessa dimensione
    assert_eq!(state.dungeon_deck.len(), deck_before);
    assert_eq!(
        state.current_room.iter().filter(|c| c.is_some()).count(),
        4
    );
    assert!(state.last_action_was_avoid);
    assert!(state.flee().is_err());
}

#[test]
fn room_completes_when_last_monster_dies() {
    let mut state = GameState::new();
    state.current_room = room_with(&[
        Some(Card::new(Suit::Hearts, 5)),
        Some(Card::new(Suit::Hearts, 6)),
        Some(Card::new(Suit::Hearts, 7)),
        Some(monster(4)),
    ]);
    let deck_before = state.dungeon_deck.len();

    state.equip(Card::new(Suit::Hearts, 5)).unwrap(); // bevi 1 pozione
    state.attack(monster(4), false).unwrap(); // ultimo mostro muore

    // Completamento automatico: le pozzi residue sono scartate,
    // ne vengono pescate 4 nuove, flag azzerati e turn incrementato.
    assert_eq!(
        state.current_room.iter().filter(|c| c.is_some()).count(),
        4
    );
    assert_eq!(state.dungeon_deck.len(), deck_before - 4);
    assert_eq!(state.turn, 2);
    assert!(!state.have_healed);
    assert!(!state.last_action_was_avoid);
}

#[test]
fn auto_advance_when_single_card_left() {
    let mut state = GameState::new();
    let deck_before = state.dungeon_deck.len();
    state.current_room = room_with(&[
        Some(monster(2)),
        Some(monster(3)),
        Some(Card::new(Suit::Diamonds, 4)),
        None,
    ]);

    state.equip(Card::new(Suit::Diamonds, 4)).unwrap(); // resta 2 mostri
    state.attack(monster(2), false).unwrap(); // resta 1 mostro -> auto new turn

    assert_eq!(
        state.current_room.iter().filter(|c| c.is_some()).count(),
        4
    );
    assert_eq!(state.dungeon_deck.len(), deck_before - 3); // 3 nuove pescate
    assert_eq!(state.turn, 2);
}

#[test]
fn flee_stays_blocked_until_room_advances() {
    let mut state = GameState::new();
    state.flee().unwrap();

    // giocare una carta (equip) NON sblocca la fuga
    state.current_room[0] = Some(Card::new(Suit::Diamonds, 5));
    state.equip(Card::new(Suit::Diamonds, 5)).unwrap();
    assert!(
        state.flee().is_err(),
        "non si può fuggire due stanze di fila, anche dopo aver giocato una carta"
    );

    // uccidere l'ultimo mostro fa avanzare la stanza e sblocca la fuga
    state.current_room = room_with(&[Some(monster(3)), Some(monster(4)), None, None]);
    state.attack(monster(3), true).unwrap();
    state.attack(monster(4), true).unwrap(); // ultimo mostro -> completamento
    assert!(state.flee().is_ok());
}

#[test]
fn room_without_monsters_advances_after_usable_cards_gone() {
    let mut state = GameState::new();
    // stanza senza mostri: 1 arma + 3 pozioni
    state.current_room = room_with(&[
        Some(Card::new(Suit::Diamonds, 4)),
        Some(Card::new(Suit::Hearts, 6)),
        Some(Card::new(Suit::Hearts, 8)),
        Some(Card::new(Suit::Hearts, 10)),
    ]);
    let deck_before = state.dungeon_deck.len();

    // bevi la pozione: c'è ancora l'arma da equipaggiare -> nessun avanzamento
    state.equip(Card::new(Suit::Hearts, 6)).unwrap();
    assert_eq!(state.turn, 1);

    // equipaggi l'arma: restano solo pozioni non più bevibili -> avanzamento
    state.equip(Card::new(Suit::Diamonds, 4)).unwrap();
    assert_eq!(state.turn, 2);
    assert_eq!(
        state.current_room.iter().filter(|c| c.is_some()).count(),
        4
    );
    assert_eq!(state.dungeon_deck.len(), deck_before - 4);
}

#[test]
fn win_and_loss_conditions() {
    let mut won = GameState::new();
    won.dungeon_deck.clear();
    won.current_room = [None; ROOM_SIZE];
    assert!(won.has_won());
    assert!(!won.is_dead());

    let mut lost = GameState::new();
    lost.hp = 0;
    assert!(lost.is_dead());
    assert!(!lost.has_won());
}
