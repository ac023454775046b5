# balatro_bot

The game-state model of a Balatro bot, verified with Verus.

- `src/cards.rs`: card suits, ranks and poker hands, their positions
  (`as_index`) and their names in the game state, with the proofs that both
  number and name each variant one to one.
- `src/enum_array.rs`: reading a table keyed by variant names into one slot
  per variant, in position order, strictly or with defaults.
- `src/state.rs`: the game phase and its wire number, the bot's request names,
  and the text form of a card rank.
- `src/fields.rs`, `src/text.rs`: small readers and text comparison.
- `app/`: the bot program and the Lua module; serde, mlua and the sockets live
  there and hand plain values to the library.
