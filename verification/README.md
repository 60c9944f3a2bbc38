# winmine

The classic Windows Minesweeper: its rules, board, layout arithmetic,
preferences and bitmap decoding as a Verus library whose functions carry
proved contracts, and a thin Win32 program around it.

## Layout

- `src/` — the verified library.
  - `board.rs`: the mine field, flood fill, chords, bomb placement.
  - `placement.rs`: where the bombs of a new game go, as spec functions.
  - `census.rs`: counting lemmas over the cell storage.
  - `rtns.rs`: the game state machine (mouse, keyboard, timer events).
  - `window.rs`: window sizing, placement and the menu commands.
  - `grafix.rs`: DPI scaling, sprite layout, LED digits, border strokes.
  - `bmp.rs`: parsing and decoding of the sprite sheets.
  - `pref.rs`, `help.rs`, `sound.rs`, `util.rs`, `geometry.rs`: settings,
    help topics, tunes, the random generator, points and rectangles.
  - `laws.rs`: properties that span several operations, proved.
- `tests/` — the library's tests.
- `app/` — the Win32 program: window, dialogs, registry, drawing, sound.
  It performs the effects that the library returns and feeds it events.
