# scoundrel

The rules of Scoundrel, a dungeon-crawling solitaire, as a verified library,
with a small web front end around it.

- `src/card.rs`: suits, cards and the weapon the player holds.
- `src/rules.rs`: the rules stated over a mathematical picture of a game
  (`GameView`): damage, weapon binding, potions, how a room moves on, fleeing.
- `src/game.rs`: `GameState` and the moves (`attack`, `equip`, `flee`), each
  proved to follow the rules.
- `src/laws.rs`: what holds of every move: no card is lost when fleeing, one
  potion per room, health never above the maximum, weapons bind, the deck is
  only drawn from the top, rooms refill.
- `src/face.rs`: how a card shows on the table (rank, suit symbol, kind).
- `src/table.rs`: the board: the game, the picked card and the notice of the last move.
- `src/project.rs`: the call to action of a project card on the portfolio page.
- `src/random.rs`: the shuffle, from the `rand` crate.
- `app/`: the web pages (leptos), which call the library.
