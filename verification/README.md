# Toppa Drill

A drilling game on a planet made of chunks of tiles. This crate is its world logic,
written in Verus and proved against its contracts; the program around it lives in `app/`.

- `src/` — the verified library:
  - `game_world` — chunk and tile indices, clamping to the planet, the planet's chunk store,
    the tile store of a chunk, the layout of a chunk's tiles;
  - `tiles` — tile kinds, the depth tables that decide which tile is drawn, tile sprites;
  - `systems` — the player's position tracking and the window of chunks kept loaded around
    it, the queue of chunk loads and unloads, the update counters;
  - `states` — what window events and button clicks lead to, the startup sequence;
  - `components`, `entities`, `events`, `resources`, `session`, `text`, `key_order` — the
    game's components, entity kinds and sprite tables, events, the sprite registry, the
    session data, index formatting and the order of indices.
- `tests/` — tests of the library on concrete values.
- `app/` — the game program on the Amethyst engine: rendering, input, float physics, the
  geometry between screen positions and the grid, and savegames in RON.
