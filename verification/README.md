# chariot

Verified readers and data models for the game data of Age of Empires (1997),
written in Verus. The verifier proves the contract of every function of the
library, except for seven small trusted wrappers whose contracts are taken on
trust: the little-endian reads of `byteorder`, std's UTF-8 and UTF-16 string
conversions, and raw-deflate decompression with `flate2` (`src/bytes.rs` and
`src/file_formats/language.rs`).

- `src/` — the library:
  - `bytes`, `layout`: little-endian reading, fixed-width texts, raw deflate,
    and a reader of field schemas;
  - `file_formats`: DRS archives, SLP shapes, palettes, the language
    library's string table (a PE image), scenario data, and the later reader
    of the empires database (graphics, sounds, research, terrain
    restrictions, resource costs, tile edges);
  - `drs`, `slp`, `dat`: the earlier readers of archives, shapes and the
    empires database. `dat::database` reads the database in file order from
    its version through the ages; the civilizations that follow are left out
    (their unit records are not part of this library), and so is the
    research after them;
  - `identifier`, `fixed`, `vector3`, `aabox`, `media`: identifiers,
    fixed-point numbers, vectors, boxes, input states, rectangles and the
    conversion of palette images;
  - `resource`: the archives of the game data directory, shape metadata,
    shape layout and the ordering of draw commands.
- `tests/` — tests of the library on concrete data.
- `app/` — what the library leaves to ordinary Rust: reading files from
  disk, the game data directory on disk, and drawing and input with SDL2.
