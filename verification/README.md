# gluttony

The logic of a puzzle game about rolling a die across tile levels made in
the `tiled` editor: which number the die shows as it rolls, which tiles are
active for that number, what the tiles do to whatever arrives on them, how
a level is decoded from a map, and the player's progress.

- `src/` is the library, written in Verus: every function carries a
  contract, and the `law_` proof functions state what holds across calls.
- `tests/` runs the library on concrete values.
- `app/` reads maps, the level info and the save from disk and hands them
  to the library.
