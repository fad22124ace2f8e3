# tensho

Message decoding, answer encoding and duel bookkeeping for a single-player practice
client of the `ocgcore` duel engine, verified with Verus.

## Layout

- `src/` — the verified library.
  - `bytes`, `collect`, `error`: little-endian readers, list decoding, decoding errors.
  - `constants`, `data`: the engine's codes for locations, players, positions and duel
    states; card records.
  - `actions`, `messages/`: decoders for the messages the engine sends while it waits for
    the player.
  - `query`, `ocgcore`: the engine's answers to location and count queries, and the
    framing of its message buffer.
  - `response`: the bytes of each answer to the engine.
  - `state`: what the client shows of a duel and how messages and clicks change it.
  - `deck`, `scripts`: the preset deck, the cards the client knows, and the Lua scripts a
    duel needs.
  - `hand`, `custom_hand`, `text`, `memory`: hand layout, a starting hand given as text,
    decimal text, engine addresses.
- `tests/` — tests of the library on concrete inputs.
- `app/` — a headless runner: the engine's C interface, the loop that hands the engine's
  reports to the library, and a network loader for scripts. The runner itself reads the
  scripts from a local directory; the network loader is there for clients that fetch them.
