//! Laws of the game: what holds of every move, over the rules' picture of a game.

use vstd::prelude::*;

use crate::card::{Card, Suit, Weapon};
use crate::face::{decimal, digit_char, kind_text, rank_text, suit_text};
use crate::rules::{
    cards_of, deal, fill_from, fresh_game, in_dungeon_deck, is_dungeon_deck, GameView, MAX_HP,
    ROOM_SIZE,
};

verus! {

/// The cards of a room whose first `j` slots are occupied and whose other
/// slots are empty are those of the first `j` slots, in order.
proof fn lemma_cards_of_front(r: Seq<Option<Card>>, j: int)
    requires
        0 <= j <= r.len(),
        forall|k: int| 0 <= k < j ==> #[trigger] r[k] is Some,
        forall|k: int| j <= k < r.len() ==> #[trigger] r[k] is None,
    ensures
        cards_of(r) =~= Seq::new(j as nat, |k: int| r[k]->0),
    decreases r.len(),
{
    if r.len() > 0 {
        let d = r.drop_last();
        if j == r.len() {
            lemma_cards_of_front(d, j - 1);
        } else {
            lemma_cards_of_front(d, j);
        }
    }
}

/// Dealing a room moves cards from the deck into the room and loses none:
/// the deck that is left and the cards of the room are, together, the deck
/// that was dealt from.
pub proof fn deal_keeps_cards(deck: Seq<Card>)
    ensures
        (deal(deck).1 + cards_of(deal(deck).0)).to_multiset() == deck.to_multiset(),
{
    let n = deck.len();
    let m: int = if n >= ROOM_SIZE {
        n - ROOM_SIZE
    } else {
        0
    };
    let room = deal(deck).0;
    lemma_cards_of_front(room, n - m);
    let top = deck.skip(m);
    assert(cards_of(room) =~= top.reverse());
    assert(deal(deck).1 =~= deck.take(m));
    assert(deck =~= deck.take(m) + top);
    top.lemma_reverse_to_multiset();
    vstd::seq_lib::lemma_multiset_commutative(deck.take(m), top);
    vstd::seq_lib::lemma_multiset_commutative(deck.take(m), top.reverse());
}

/// A new game holds the whole dungeon deck: the 40 cards left in the deck and
/// the 4 of the first room are, together, each card of the deck once.
pub proof fn new_game_holds_whole_deck(deck: Seq<Card>)
    requires
        is_dungeon_deck(deck),
    ensures
        fresh_game(deck).deck.len() == 40,
        forall|i: int| 0 <= i < ROOM_SIZE ==> #[trigger] fresh_game(deck).room[i] is Some,
        forall|c: Card| #[trigger]
            fresh_game(deck).gathered().to_multiset().count(c) == if in_dungeon_deck(c) {
                1nat
            } else {
                0nat
            },
{
    deal_keeps_cards(deck);
}

/// Fleeing loses no card: the deck and the room hold, together, the same
/// cards after fleeing as before.
pub proof fn flee_keeps_cards(g: GameView, shuffled: Seq<Card>)
    requires
        shuffled.to_multiset() == g.gathered().to_multiset(),
    ensures
        g.fled(shuffled).gathered().to_multiset() == g.gathered().to_multiset(),
{
    deal_keeps_cards(shuffled);
}

/// A room cannot be fled right after fleeing: fleeing marks the game, and
/// only a room that moves on clears the mark again.
pub proof fn flee_blocked_until_room_advances(g: GameView, shuffled: Seq<Card>, card: Card, barehanded: bool)
    ensures
        g.fled(shuffled).avoided,
        g.attacked(card, barehanded).avoided == (g.avoided && !g.struck(card, barehanded).advances()),
        g.equipped(card).avoided == (g.avoided && !g.used(card).use_moves_room_on()),
{
}


/// Drinking a potion marks the room, and the mark goes only when the room
/// moves on: one potion per room. After a potion, a second one is refused
/// unless drinking the first ended the room.
pub proof fn one_potion_per_room(g: GameView, potion: Card, card: Card, barehanded: bool)
    requires
        potion.spec_potion(),
        !g.healed,
    ensures
        g.equipped(potion).healed || g.equipped(potion).turn == g.turn + 1,
        g.healed && !g.struck(card, barehanded).advances() ==> g.attacked(card, barehanded).healed,
        g.healed && !g.used(card).use_moves_room_on() ==> g.equipped(card).healed,
{
}

/// Health never goes above `MAX_HP`: a potion heals up to it and no
/// further, and a blow never heals (for cards whose value reads as a
/// non-negative 8-bit signed number, as all cards of the dungeon deck do);
/// fleeing leaves health alone.
pub proof fn health_never_above_max(g: GameView, card: Card, barehanded: bool, shuffled: Seq<Card>)
    requires
        g.hp <= MAX_HP,
        card.value < 128,
    ensures
        g.equipped(card).hp <= MAX_HP,
        g.attacked(card, barehanded).hp <= g.hp,
        g.fled(shuffled).hp == g.hp,
{
}

/// A weapon that slays a monster is bound to it: afterwards it refuses any
/// stronger monster, which can still be fought barehanded. Fighting
/// barehanded leaves the weapon and its binding as they were.
pub proof fn weapon_binds_to_last_monster(g: GameView, monster: Card, stronger: Card)
    requires
        monster.spec_monster(),
        g.weapon is Some,
        !g.weapon_blocks(monster, false),
        stronger.value > monster.value,
    ensures
        g.attacked(monster, false).weapon == Some(
            crate::card::Weapon {
                value: g.weapon->0.value,
                last_monster_value: Some(monster.value),
            },
        ),
        g.attacked(monster, false).weapon_blocks(stronger, false),
        !g.attacked(monster, false).weapon_blocks(stronger, true),
        g.attacked(monster, true).weapon == g.weapon,
{
}

/// Counts the empty slots from slot `i` on.
spec fn vacancies(r: Seq<Option<Card>>, i: nat) -> nat
    decreases r.len() - i,
{
    if i >= r.len() {
        0
    } else {
        (if r[i as int] is None {
            1nat
        } else {
            0nat
        }) + vacancies(r, i + 1)
    }
}

proof fn lemma_vacancies_update(r: Seq<Option<Card>>, i: nat, j: int, v: Option<Card>)
    requires
        0 <= j < i,
        j < r.len(),
    ensures
        vacancies(r.update(j, v), i) == vacancies(r, i),
    decreases r.len() - i,
{
    if i < r.len() {
        lemma_vacancies_update(r, i + 1, j, v);
    }
}

/// Filling from slot `i` keeps the slots before `i` and the occupied ones,
/// draws from the top of the deck only, and fills every empty slot when the
/// deck holds enough cards.
proof fn lemma_fill_from(r: Seq<Option<Card>>, d: Seq<Card>, i: nat)
    requires
        i <= r.len(),
    ensures
        fill_from(r, d, i).0.len() == r.len(),
        forall|k: int| 0 <= k < i ==> #[trigger] fill_from(r, d, i).0[k] == r[k],
        forall|k: int|
            i <= k < r.len() && r[k] is Some ==> #[trigger] fill_from(r, d, i).0[k] == r[k],
        fill_from(r, d, i).1.len() <= d.len(),
        fill_from(r, d, i).1 == d.take(fill_from(r, d, i).1.len() as int),
        d.len() >= vacancies(r, i) ==> fill_from(r, d, i).1.len() == d.len() - vacancies(r, i)
            && forall|k: int| i <= k < r.len() ==> #[trigger] fill_from(r, d, i).0[k] is Some,
    decreases r.len() - i,
{
    if i >= r.len() {
        assert(d.take(d.len() as int) =~= d);
    } else if r[i as int] is None && d.len() > 0 {
        let r2 = r.update(i as int, Some(d.last()));
        let d2 = d.drop_last();
        lemma_fill_from(r2, d2, i + 1);
        lemma_vacancies_update(r, i + 1, i as int, Some(d.last()));
        let out = fill_from(r2, d2, i + 1).1;
        assert(out =~= d.take(out.len() as int));
    } else {
        lemma_fill_from(r, d, i + 1);
    }
}

proof fn lemma_vacancies_of_room(r: Seq<Option<Card>>)
    requires
        r.len() == ROOM_SIZE,
    ensures
        vacancies(r, 0) + crate::rules::occupied(r) == ROOM_SIZE,
{
    reveal_with_fuel(vacancies, 5);
    reveal_with_fuel(crate::rules::occupied, 5);
    assert(r.drop_last().drop_last().drop_last().drop_last().len() == 0);
}

/// Moves only ever draw from the top of the deck: after an attack or after
/// using a card, the deck is what it was with its top cards taken away.
pub proof fn moves_draw_from_top(g: GameView, card: Card, barehanded: bool)
    requires
        g.room.len() == ROOM_SIZE,
    ensures
        g.attacked(card, barehanded).deck.len() <= g.deck.len(),
        g.attacked(card, barehanded).deck == g.deck.take(
            g.attacked(card, barehanded).deck.len() as int,
        ),
        g.equipped(card).deck.len() <= g.deck.len(),
        g.equipped(card).deck == g.deck.take(g.equipped(card).deck.len() as int),
{
    lemma_advanced_draws_from_top(g.struck(card, barehanded));
    lemma_advanced_draws_from_top(g.used(card));
    assert(g.deck.take(g.deck.len() as int) =~= g.deck);
}

proof fn lemma_advanced_draws_from_top(g: GameView)
    requires
        g.room.len() == ROOM_SIZE,
    ensures
        g.advanced().deck.len() <= g.deck.len(),
        g.advanced().deck == g.deck.take(g.advanced().deck.len() as int),
{
    lemma_fill_from(g.room, g.deck, 0);
    assert(Seq::<Card>::empty() =~= g.deck.take(0));
    assert(g.deck.take(g.deck.len() as int) =~= g.deck);
}

/// Each move counts the turn up by one at most: by one exactly when the
/// room moves on. Fleeing does not count a turn.
pub proof fn turn_counts_rooms(g: GameView, card: Card, barehanded: bool, shuffled: Seq<Card>)
    ensures
        g.attacked(card, barehanded).turn == if g.struck(card, barehanded).advances() {
            g.turn + 1
        } else {
            g.turn
        },
        g.equipped(card).turn == if g.used(card).use_moves_room_on() {
            g.turn + 1
        } else {
            g.turn
        },
        g.fled(shuffled).turn == g.turn,
{
}

/// When the room moves on and the deck holds enough cards, the room is
/// full again: a room without monsters is replaced by four new cards, and
/// the single card left of a room stays and is joined by three new ones.
pub proof fn advance_fills_room(g: GameView)
    requires
        g.room.len() == ROOM_SIZE,
        g.advances(),
        !crate::rules::holds_monster(g.room) ==> g.deck.len() >= 4,
        crate::rules::holds_monster(g.room) ==> g.deck.len() >= 3,
    ensures
        forall|i: int| 0 <= i < ROOM_SIZE ==> #[trigger] g.advanced().room[i] is Some,
        g.advanced().deck.len() == g.deck.len() - if crate::rules::holds_monster(g.room) {
            3int
        } else {
            4int
        },
        forall|i: int|
            0 <= i < ROOM_SIZE && crate::rules::holds_monster(g.room) && g.room[i] is Some
                ==> #[trigger] g.advanced().room[i] == g.room[i],
{
    if crate::rules::holds_monster(g.room) {
        lemma_vacancies_of_room(g.room);
        lemma_fill_from(g.room, g.deck, 0);
    }
}


/// The first slot from slot `i` on that holds `card`.
proof fn lemma_first_slot(room: Seq<Option<Card>>, card: Card, i: int) -> (k: int)
    requires
        0 <= i <= room.len(),
        exists|j: int| i <= j < room.len() && room[j] == Some(card),
        forall|j: int| 0 <= j < i ==> room[j] != Some(card),
    ensures
        0 <= k < room.len(),
        room[k] == Some(card),
        forall|j: int| 0 <= j < k ==> room[j] != Some(card),
    decreases room.len() - i,
{
    if room[i] == Some(card) {
        i
    } else {
        lemma_first_slot(room, card, i + 1)
    }
}

/// Emptying an occupied slot takes exactly its card out of the room's cards.
proof fn lemma_cards_of_clear(r: Seq<Option<Card>>, k: int)
    requires
        0 <= k < r.len(),
        r[k] is Some,
    ensures
        cards_of(r).to_multiset() =~= cards_of(r.update(k, None)).to_multiset().insert(r[k]->0),
    decreases r.len(),
{
    broadcast use vstd::multiset::group_multiset_axioms;

    let d = r.drop_last();
    let u = r.update(k, None);
    let tail = cards_of(r).skip(cards_of(d).len() as int);
    assert(cards_of(r) =~= cards_of(d) + tail);
    vstd::seq_lib::lemma_multiset_commutative(cards_of(d), tail);
    if k == r.len() - 1 {
        assert(u.drop_last() =~= d);
        assert(cards_of(u) =~= cards_of(d));
        assert(tail =~= seq![r[k]->0]);
        assert(seq![r[k]->0].to_multiset() =~= vstd::multiset::Multiset::empty().insert(r[k]->0)) by {
            broadcast use vstd::seq_lib::group_to_multiset_ensures;

            assert(seq![r[k]->0] =~= Seq::<Card>::empty().push(r[k]->0));
            vstd::seq_lib::to_multiset_build(Seq::<Card>::empty(), r[k]->0);
            assert(Seq::<Card>::empty().to_multiset() =~= vstd::multiset::Multiset::empty());
        }
    } else {
        lemma_cards_of_clear(d, k);
        assert(u.drop_last() =~= d.update(k, None));
        assert(cards_of(u) =~= cards_of(d.update(k, None)) + tail);
        vstd::seq_lib::lemma_multiset_commutative(cards_of(d.update(k, None)), tail);
    }
}

/// A move takes exactly the played card out of the room, from the first
/// slot that holds it, and leaves the deck alone; a card that is not in the
/// room leaves the room as it is.
pub proof fn play_takes_out_only_the_card(g: GameView, card: Card, barehanded: bool)
    ensures
        g.room.contains(Some(card)) ==> cards_of(g.room).to_multiset() == cards_of(
            g.struck(card, barehanded).room,
        ).to_multiset().insert(card),
        g.room.contains(Some(card)) ==> cards_of(g.room).to_multiset() == cards_of(
            g.used(card).room,
        ).to_multiset().insert(card),
        !g.room.contains(Some(card)) ==> g.struck(card, barehanded).room == g.room
            && g.used(card).room == g.room,
        g.struck(card, barehanded).deck == g.deck,
        g.used(card).deck == g.deck,
{
    if g.room.contains(Some(card)) {
        let first = lemma_first_slot(g.room, card, 0);
        assert(g.room[first] == Some(card));
        let f = crate::rules::first_slot_of(g.room, card);
        assert(0 <= f < g.room.len() && g.room[f] == Some(card));
        lemma_cards_of_clear(g.room, f);
    }
}


/// Filling empty slots moves cards from the deck into the room and loses none.
proof fn lemma_fill_keeps_cards(r: Seq<Option<Card>>, d: Seq<Card>, i: nat)
    requires
        i <= r.len(),
    ensures
        (fill_from(r, d, i).1 + cards_of(fill_from(r, d, i).0)).to_multiset() =~= (d + cards_of(
            r,
        )).to_multiset(),
    decreases r.len() - i,
{
    broadcast use vstd::multiset::group_multiset_axioms;

    if i < r.len() {
        if r[i as int] is None && d.len() > 0 {
            let x = d.last();
            let r2 = r.update(i as int, Some(x));
            let d2 = d.drop_last();
            lemma_fill_keeps_cards(r2, d2, i + 1);
            lemma_cards_of_clear(r2, i as int);
            assert(r2.update(i as int, None) =~= r);
            assert(d =~= d2.push(x));
            vstd::seq_lib::to_multiset_build(d2, x);
            vstd::seq_lib::lemma_multiset_commutative(d2, cards_of(r2));
            vstd::seq_lib::lemma_multiset_commutative(d, cards_of(r));
        } else {
            lemma_fill_keeps_cards(r, d, i + 1);
        }
    }
}

/// No move brings a card into play: after an attack or after using a card,
/// the deck and the room hold, together, some of the cards they held
/// before. Only the played card and, when a room without monsters is
/// replaced, the cards left in it go out of play.
pub proof fn moves_create_no_cards(g: GameView, card: Card, barehanded: bool)
    ensures
        g.attacked(card, barehanded).gathered().to_multiset().subset_of(g.gathered().to_multiset()),
        g.equipped(card).gathered().to_multiset().subset_of(g.gathered().to_multiset()),
{
    lemma_advanced_keeps_some_cards(g, g.struck(card, barehanded));
    lemma_advanced_keeps_some_cards(g, g.used(card));
}

/// Striking or using `card` leaves the deck alone and takes at most that
/// card out of the room; moving the room on then keeps what is left or
/// drops part of it.
proof fn lemma_advanced_keeps_some_cards(g: GameView, h: GameView)
    requires
        h.deck == g.deck,
        exists|card: Card| h.room == crate::rules::without(g.room, card),
    ensures
        h.advanced().gathered().to_multiset().subset_of(g.gathered().to_multiset()),
        h.gathered().to_multiset().subset_of(g.gathered().to_multiset()),
{
    broadcast use vstd::multiset::group_multiset_axioms;

    let card = choose|card: Card| h.room == crate::rules::without(g.room, card);
    let gm = g.gathered().to_multiset();
    vstd::seq_lib::lemma_multiset_commutative(g.deck, cards_of(g.room));
    vstd::seq_lib::lemma_multiset_commutative(h.deck, cards_of(h.room));
    if g.room.contains(Some(card)) {
        play_takes_out_only_the_card(g, card, true);
        assert(h.room == g.struck(card, true).room);
    }
    assert(h.gathered().to_multiset().subset_of(gm));
    let a = h.advanced();
    if !crate::rules::holds_monster(h.room) {
        deal_keeps_cards(h.deck);
        vstd::seq_lib::lemma_multiset_commutative(h.deck, cards_of(h.room));
        assert(a.gathered().to_multiset() =~= h.deck.to_multiset());
    } else if crate::rules::occupied(h.room) == 1 {
        lemma_fill_keeps_cards(h.room, h.deck, 0);
        assert(a.gathered().to_multiset() =~= h.gathered().to_multiset());
    }
}


/// One potion per room, whatever is fought in between: after a potion is
/// drunk, as long as neither the drink nor the blows that follow moved the
/// room on, the room stays marked, so `equip` refuses a second potion.
pub proof fn one_potion_per_room_across_blows(
    g: GameView,
    potion: Card,
    monster: Card,
    barehanded: bool,
)
    requires
        potion.spec_potion(),
        !g.healed,
    ensures
        ({
            let drunk = g.equipped(potion);
            let fought = drunk.attacked(monster, barehanded);
            drunk.turn == g.turn && fought.turn == g.turn ==> fought.healed
        }),
{
}

/// Moving the room on keeps every card in play when a monster is left: the
/// refill only moves cards from the deck into the room. When no monster is
/// left, the cards left in the room go out of play and the others stay.
/// Either way no card comes into play, so cards that were all different
/// stay all different.
pub proof fn advance_keeps_cards(g: GameView)
    ensures
        crate::rules::holds_monster(g.room) ==> g.advanced().gathered().to_multiset()
            == g.gathered().to_multiset(),
        !crate::rules::holds_monster(g.room) ==> g.advanced().gathered().to_multiset()
            == g.deck.to_multiset(),
        g.gathered().to_multiset() == g.deck.to_multiset().add(cards_of(g.room).to_multiset()),
        (forall|c: Card| #[trigger] g.gathered().to_multiset().count(c) <= 1) ==> (forall|c: Card|
            #[trigger] g.advanced().gathered().to_multiset().count(c) <= 1),
{
    broadcast use vstd::multiset::group_multiset_axioms;

    vstd::seq_lib::lemma_multiset_commutative(g.deck, cards_of(g.room));
    if !crate::rules::holds_monster(g.room) {
        deal_keeps_cards(g.deck);
    } else if crate::rules::occupied(g.room) == 1 {
        lemma_fill_keeps_cards(g.room, g.deck, 0);
    }
    if forall|c: Card| #[trigger] g.gathered().to_multiset().count(c) <= 1 {
        assert forall|c: Card| #[trigger] g.advanced().gathered().to_multiset().count(c) <= 1 by {
            assert(g.gathered().to_multiset().count(c) <= 1);
        }
    }
}


/// What a card is follows from its suit alone: spades and clubs are the
/// monsters, diamonds the weapons, hearts the potions, and each card is
/// exactly one of them.
pub proof fn kind_follows_suit(c: Card)
    ensures
        c.spec_monster() <==> (c.suit == Suit::Spades || c.suit == Suit::Clubs),
        c.spec_weapon() <==> c.suit == Suit::Diamonds,
        c.spec_potion() <==> c.suit == Suit::Hearts,
        c.spec_monster() || c.spec_weapon() || c.spec_potion(),
        !(c.spec_monster() && c.spec_weapon()),
        !(c.spec_monster() && c.spec_potion()),
        !(c.spec_weapon() && c.spec_potion()),
{
}

/// A card's face: the kind reads "Monster" on spades and clubs, "Weapon"
/// on diamonds and "Potion" on hearts; each suit has its own symbol; the
/// court cards and the ace read J, Q, K and A.
pub proof fn card_face_follows_card(c: Card)
    ensures
        (c.suit == Suit::Spades || c.suit == Suit::Clubs) ==> kind_text(c) == "Monster"@,
        c.suit == Suit::Diamonds ==> kind_text(c) == "Weapon"@,
        c.suit == Suit::Hearts ==> kind_text(c) == "Potion"@,
        c.suit == Suit::Spades ==> suit_text(c.suit) == "♠"@,
        c.suit == Suit::Clubs ==> suit_text(c.suit) == "♣"@,
        c.suit == Suit::Diamonds ==> suit_text(c.suit) == "♦"@,
        c.suit == Suit::Hearts ==> suit_text(c.suit) == "♥"@,
        c.value == 11 ==> rank_text(c.value) == "J"@,
        c.value == 12 ==> rank_text(c.value) == "Q"@,
        c.value == 13 ==> rank_text(c.value) == "K"@,
        c.value == 14 ==> rank_text(c.value) == "A"@,
{
}

/// The game is won exactly when the deck is used up and every slot of the
/// room, the first one included, is empty; a card left anywhere in the
/// room, or in the deck, means the game goes on. It is lost exactly when
/// health is at zero or below.
pub proof fn won_only_with_nothing_left(g: GameView)
    requires
        g.room.len() == ROOM_SIZE,
    ensures
        g.won() <==> (g.deck.len() == 0 && forall|i: int|
            0 <= i < ROOM_SIZE ==> #[trigger] g.room[i] is None),
        g.won() ==> g.room[0] is None && g.room[1] is None && g.room[2] is None && g.room[3]
            is None,
        (exists|i: int| 0 <= i < ROOM_SIZE && #[trigger] g.room[i] is Some) ==> !g.won(),
        g.deck.len() > 0 ==> !g.won(),
        g.dead() <==> g.hp <= 0,
{
}

/// Fleeing changes the room and the deck only: the weapon and its binding,
/// health and the turn stay as they were. The new room holds the top
/// cards of the reshuffled deck, fleeing is blocked and drinking allowed.
pub proof fn fleeing_keeps_the_player(g: GameView, shuffled: Seq<Card>)
    ensures
        g.fled(shuffled).weapon == g.weapon,
        g.fled(shuffled).hp == g.hp,
        g.fled(shuffled).turn == g.turn,
        g.fled(shuffled).avoided,
        !g.fled(shuffled).healed,
        g.fled(shuffled).room.len() == ROOM_SIZE,
        forall|k: int|
            0 <= k < ROOM_SIZE && k < shuffled.len() ==> #[trigger] g.fled(shuffled).room[k]
                == Some(shuffled[shuffled.len() - 1 - k]),
        forall|k: int|
            0 <= k < ROOM_SIZE && k >= shuffled.len() ==> #[trigger] g.fled(shuffled).room[k]
                is None,
{
}

/// Equipping a weapon card puts that weapon in hand, unbound, whatever was
/// held before, and leaves health alone. Drinking a potion leaves the
/// weapon alone and heals by the potion's value, up to `MAX_HP` (for cards
/// whose value reads as a non-negative 8-bit signed number).
pub proof fn equipping_replaces_weapon_or_heals(g: GameView, c: Card)
    ensures
        c.suit == Suit::Diamonds ==> g.equipped(c).weapon == Some(
            Weapon { value: c.value, last_monster_value: None },
        ),
        c.suit == Suit::Diamonds ==> g.equipped(c).hp == g.hp,
        c.suit == Suit::Hearts ==> g.equipped(c).weapon == g.weapon,
        c.suit == Suit::Hearts && c.value < 128 ==> g.equipped(c).hp == if g.hp + c.value
            < MAX_HP {
            g.hp + c.value
        } else {
            MAX_HP as int
        },
{
}

/// The damage of a blow, stated on the monster's value (for cards whose
/// value reads as a non-negative 8-bit signed number): barehanded or
/// without a weapon the full value is lost; with a weapon that is not bound
/// below the monster, only what the weapon's value does not absorb, and
/// the weapon is bound to the monster. A weapon bound to a weaker monster
/// refuses the blow; fighting barehanded is never refused.
pub proof fn blow_damage_follows_values(g: GameView, c: Card)
    requires
        c.value < 128,
    ensures
        g.attacked(c, true).hp == g.hp - c.value,
        g.attacked(c, true).weapon == g.weapon,
        g.weapon is None ==> g.attacked(c, false).hp == g.hp - c.value,
        g.weapon is None ==> g.attacked(c, false).weapon is None,
        g.weapon is Some && (g.weapon->0.last_monster_value is None || c.value
            <= g.weapon->0.last_monster_value->0) ==> {
            &&& g.attacked(c, false).hp == g.hp - if c.value > g.weapon->0.value {
                c.value - g.weapon->0.value
            } else {
                0
            }
            &&& g.attacked(c, false).weapon == Some(
                Weapon { value: g.weapon->0.value, last_monster_value: Some(c.value) },
            )
            &&& !g.weapon_blocks(c, false)
        },
        g.weapon is Some && g.weapon->0.last_monster_value is Some && c.value
            > g.weapon->0.last_monster_value->0 ==> g.weapon_blocks(c, false),
        !g.weapon_blocks(c, true),
{
}


/// The dungeon deck holds the black cards from 2 to 14 and the red cards
/// from 2 to 10, of all four suits, and nothing else.
pub proof fn dungeon_deck_cards(c: Card)
    ensures
        (c.suit == Suit::Spades || c.suit == Suit::Clubs) ==> (in_dungeon_deck(c) <==> 2
            <= c.value <= 14),
        (c.suit == Suit::Diamonds || c.suit == Suit::Hearts) ==> (in_dungeon_deck(c) <==> 2
            <= c.value <= 10),
{
}

/// Ranks from 2 to 10 read as their decimal value, digit by digit.
pub proof fn number_ranks_read_decimal(v: u8)
    ensures
        2 <= v <= 9 ==> rank_text(v) == seq![digit_char(v as int)],
        v == 10 ==> rank_text(v) == seq![digit_char(1), digit_char(0)],
        digit_char(0) == '0',
        digit_char(1) == '1',
        digit_char(9) == '9',
{
    reveal_with_fuel(decimal, 2);
}

/// A blow or a use empties the first slot that holds the played card and
/// no other; a card that is not in the room leaves it as it is.
pub proof fn play_empties_first_slot_of_card(g: GameView, card: Card, barehanded: bool)
    ensures
        g.room.contains(Some(card)) ==> exists|k: int|
            0 <= k < g.room.len() && g.room[k] == Some(card) && (forall|j: int|
                0 <= j < k ==> g.room[j] != Some(card)) && #[trigger] g.room.update(k, None)
                == g.struck(card, barehanded).room && g.room.update(k, None) == g.used(card).room,
        !g.room.contains(Some(card)) ==> g.struck(card, barehanded).room == g.room,
{
    if g.room.contains(Some(card)) {
        let first = lemma_first_slot(g.room, card, 0);
        assert(g.room[first] == Some(card));
        let f = crate::rules::first_slot_of(g.room, card);
        assert(0 <= f < g.room.len() && g.room[f] == Some(card));
        assert(f == first);
        assert(g.room.update(f, None) == g.struck(card, barehanded).room);
    }
}

/// When the room moves on, stated on its cards: a room without a monster
/// always moves on; one with a monster moves on when that is the only card
/// left and stays while another card lies beside it. Moving on counts the
/// turn up and allows fleeing and drinking again; otherwise nothing changes.
pub proof fn room_moves_on_by_its_cards(g: GameView, k: int, j: int)
    requires
        g.room.len() == ROOM_SIZE,
    ensures
        (forall|i: int|
            0 <= i < ROOM_SIZE ==> #[trigger] g.room[i] is None || !g.room[i]->0.spec_monster())
            ==> g.advances(),
        0 <= k < ROOM_SIZE && g.room[k] is Some && g.room[k]->0.spec_monster() && (forall|i: int|
            0 <= i < ROOM_SIZE && i != k ==> #[trigger] g.room[i] is None) ==> g.advances(),
        0 <= k < ROOM_SIZE && 0 <= j < ROOM_SIZE && k != j && g.room[k] is Some
            && g.room[k]->0.spec_monster() && g.room[j] is Some ==> !g.advances(),
        g.advances() ==> g.advanced().turn == g.turn + 1 && !g.advanced().avoided
            && !g.advanced().healed && g.advanced().hp == g.hp && g.advanced().weapon == g.weapon,
        !g.advances() ==> g.advanced() == g,
{
    reveal_with_fuel(crate::rules::occupied, 5);
    if 0 <= k < ROOM_SIZE && g.room[k] is Some && g.room[k]->0.spec_monster() {
        assert(crate::rules::holds_monster(g.room));
    }
    assert(g.room.drop_last().drop_last().drop_last().drop_last().len() == 0);
}

/// After a card is used, stated on the cards left: beside a monster the
/// room moves on only when a single card is left; without monsters it stays
/// while a weapon lies in it, or a potion while none was drunk, and moves
/// on once only potions that cannot be drunk, or nothing, are left.
pub proof fn use_moves_room_on_by_its_cards(h: GameView, k: int, j: int)
    requires
        h.room.len() == ROOM_SIZE,
    ensures
        0 <= k < ROOM_SIZE && 0 <= j < ROOM_SIZE && k != j && h.room[k] is Some
            && h.room[k]->0.spec_monster() && h.room[j] is Some ==> !h.use_moves_room_on(),
        0 <= k < ROOM_SIZE && h.room[k] is Some && h.room[k]->0.spec_monster() && (forall|i: int|
            0 <= i < ROOM_SIZE && i != k ==> #[trigger] h.room[i] is None) ==> h.use_moves_room_on(),
        (forall|i: int|
            0 <= i < ROOM_SIZE ==> #[trigger] h.room[i] is None || !h.room[i]->0.spec_monster())
            && 0 <= k < ROOM_SIZE && h.room[k] is Some && h.room[k]->0.suit == Suit::Diamonds
            ==> !h.use_moves_room_on(),
        (forall|i: int|
            0 <= i < ROOM_SIZE ==> #[trigger] h.room[i] is None || !h.room[i]->0.spec_monster())
            && 0 <= k < ROOM_SIZE && h.room[k] is Some && h.room[k]->0.suit == Suit::Hearts
            && !h.healed ==> !h.use_moves_room_on(),
        (forall|i: int|
            0 <= i < ROOM_SIZE ==> #[trigger] h.room[i] is None || h.room[i]->0.suit
                == Suit::Hearts) && h.healed ==> h.use_moves_room_on(),
{
    reveal_with_fuel(crate::rules::occupied, 5);
    if 0 <= k < ROOM_SIZE && h.room[k] is Some && h.room[k]->0.spec_monster() {
        assert(crate::rules::holds_monster(h.room));
    }
    if 0 <= k < ROOM_SIZE && h.room[k] is Some && (h.room[k]->0.suit == Suit::Diamonds || (
    h.room[k]->0.suit == Suit::Hearts && !h.healed)) {
        assert(crate::rules::holds_usable(h.room, h.healed));
    }
    assert(h.room.drop_last().drop_last().drop_last().drop_last().len() == 0);
}

} // verus!
