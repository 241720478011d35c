# Jasper's World — verified core

The engine-independent logic of the Jasper's World platformer, written in
Verus and proved against its contracts:

- `src/ldtk/` — the LDtk level compiler: the project model (`schema`), field
  lookups and colour parsing (`fields`), validation with exact error messages
  (`validator`), conversion of levels into game layers (`converter`), merging
  of sublevels into the layers of their level (`merge`), the built-in level
  layouts (`bootstrap`), command-line argument lookup (`cli`) and text helpers
  (`text`).
- `src/tilemap.rs` — tile types, autotiling, neighbour lookups, collider runs
  and tile model classification.
- `src/game/` — application states, control bindings, graphics settings, the
  sanctuary cutscene, HUD texts, weather choice and window geometry
  persistence.

`app/` is the command-line compiler around the library: it reads and writes
JSON (serde), turns the library's integer positions and numbers into the
floating-point output schema, and writes the built-in levels
(`jaspers_world bootstrap [--output path]`).
