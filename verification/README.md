# bevy_beth

Readers for The Elder Scrolls III (Morrowind) game data, verified with Verus.

`src/` is the verified library:

- `paths`, `tes_id`, `latin1`, `bytes`, `math` — the shared primitives: the game-data
  path normal form, case-insensitive editor ids, Windows-1252 text, NUL-terminated and
  fixed-length string fields, colours.
- `bsa` — the BSA archive directory: validation with exact error messages, the path
  hash, and lookups through the sorted hash table.
- `nif` — the NIF 4.0.0.2 model format: a bounds-checked reader, one body parser per
  block type, the whole-file parse, and scene traversal (shape instances with inherited
  texture and material, the node hierarchy as a spawn plan, and which shapes share a
  material).
- `vfs`, `loose` — the layered view over loose files and archives: loose files win
  over archives, later archives over earlier ones, and texture/model references
  resolve through their usual fallbacks; loose files are indexed by path hash.
- `load_order` — plain-text load-order lists.
- `cell`, `plugin`, `terrain` — cell identifiers, what becomes of each placed
  reference, the components that mark spawned cells, the configuration of the data
  integration, and the texture-layer assignment of splatted terrain.

Floats are kept as their IEEE-754 bit patterns throughout the library.

`app/` holds what the library leaves to its callers: reading archives, models and
directory trees from disk, error types with `Display`, and the float arithmetic of
transforms.
