# opengine-core

The verified core of the op-display terrain and wargame engine.

- `src/` is the library, written in Verus and proved:
  - `terrain` — nearest-pixel resampling of raw pixel buffers onto the baked
    grid, colour-to-material classification, and the integer plan of a bake
    (grid size, height source, blur passes, material layer).
  - `hex` — the hex geometry constants, as IEEE-754 binary32 bit patterns.
  - `wargame` — units (`units`), terrain materials (`query`), placement rules
    and the board (`placement`), and the command session (`session`), with the
    laws the session keeps (unique increasing ids, remove undoes place, clear
    empties the board, terrain commands refuse without terrain).
- `app/` is the `op-engine` program around it: PNG decoding and the CLI, the
  single-precision geometry and terrain queries (hex containment, bilinear
  heights, slopes, line of sight, blur), the JSON protocol of the session and
  the browser ABI.
- `tests/` exercises the library.

Single-precision quantities (positions, headings, slope limits) cross the
library as their bit patterns (`wargame::units::F32Bits`); `app/` converts them
with `f32::from_bits` / `f32::to_bits`.
