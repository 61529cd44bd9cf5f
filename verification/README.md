# rust_snake

A terminal snake game whose rules, geometry, rendering and terminal output are a verified
library. `src/` holds the library; `app/` runs it in a terminal: it reads the keyboard,
paces the updates, plays the sounds the library asks for and writes the bytes the renderer
composes.

- `geometry`, `movement`: grid vectors, rotations and one-cell moves.
- `models`: the snake, the apple, text widgets and the scorebar.
- `collision`, `board`: contact shapes, vacant cells and the walled board.
- `game`: the state of a session and what each key does to it.
- `scene`: the snake game itself; one update applies the keys, moves and collides the
  objects and dispatches the signals they emitted.
- `signal`: a queue of typed signals delivered to listeners in order.
- `frame`, `terminal`: frames ordered by depth, and their composition into terminal cells
  and the ANSI bytes that update only what changed.

The sound files are read at run time from `assets/`.
