# matrix_rain

Digital rain in a terminal, and the simulation behind a GPU renderer, with
the logic verified by Verus.

- `src/` — the verified library
  - `glyphs` — the terminal character set (half-width katakana, digits, symbols)
  - `palette` — brightness tiers along a stream, terminal styles, colour themes
  - `terminal::stream` — one falling stream of glyphs: reset, per-frame advance,
    glitches, and the cells it draws
  - `terminal::screen` — all streams of a screen: spawning, resizing, a frame,
    which cells to blank, bursts of new streams
  - `terminal::menu` — the options menu: key handling, presets, box layout, row text
  - `gpu::rain` — the layered rain simulation (positions in millionths of a row)
  - `gpu::atlas` — glyph-atlas layout, pixel plotting, dilation and the whole atlas build
  - `gpu::camera`, `gpu::viewer` — zoom, keys, resizes and frame counting
  - `random` — the two draws from `rand` that all chance goes through
- `app/` — the terminal program (crossterm I/O) and the floating-point side of
  the GPU renderer (font rasterising with `ab_glyph`, `glam` matrices,
  instance data)
- `tests/` — tests of the library
