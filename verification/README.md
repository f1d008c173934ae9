# emerald_tools

A verified library for a Game Boy Advance party menu and the data importers
that feed the game's C tables, with an importer program around it.

- `src/` is the library, verified with Verus:
  - `charmap`: encoding ASCII text into the game's character set.
  - `input`, `future`: button bits and the frame-by-frame polling of tasks.
  - `data`, `party_screen`, `party_screen::graphics`: party members, the
    layout of the party slots, navigation, hit-point bars, the decisions of
    the menu loop, sprites, palettes and tilemaps.
  - `resources`, `slice_write`: owned buffers and bounded print buffers.
  - `importers`: the edits that carry exported move and species data into
    C initializers, learnset tables, trainer parties in the party-file
    format, and the application of edits to C source.
- `app/` is the importer program: reading and writing files, JSON with
  serde, and parsing C source with tree-sitter, handing the library plain
  values.
- `tests/` runs the library on concrete values.
