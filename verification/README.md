# mythterm

The logic of the mythterm terminal emulator as a Verus-verified library,
with the I/O edges beside it.

- `src/` — the verified library:
  - `png`: CRC-32, Adler-32, stored zlib streams and PNG files for snapshots
  - `input`: keyboard, mouse and paste input as VT sequences
  - `mux`: windows, tabs, panes, activity, and the id registry
  - `splits`: the split-pane tree
  - `atlas`: packing glyphs into an atlas with `guillotiere`
  - `overlay`, `ui`: the command palette, search overlay and tab bar state
  - `font`: which font files and fallback families are wanted
  - `args`: command-line options of the test programs
  - `bloom`, `texture`: the bloom pass plan and the procedural test texture
  - `config`, `cell`, `colored`, `clipboard`, `text`, `bytes`: supporting types
- `tests/` — tests of the library on concrete values.
- `app/` — configuration files and live reload, the system clipboard,
  snapshot files, colour conversion, egui input and layout rectangles.
