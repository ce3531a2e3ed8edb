# cells

The integer core of an agar.io-like game of cells, verified with Verus.

Entities are stored column-wise (`entity`), indexed by a grid of the map
(`map`), owned by players and updated by solvers (`game_solver`) that
queue their changes in buffers and apply them at the end of an update.
Every operation states in its contract what it does to the game and that
the game stays well formed: each entity is where its indexes, its handle,
its player's list and the grid say it is.

Real numbers (speeds, radii, distances, gravity, colours computed from
hues) stay outside the library: the solvers take what they need of them
as arguments, such as the offsets at which pieces are placed or whether an
entity is within reach of another.

Layout:

- `src/` the verified library;
- `tests/` tests of the library on concrete games;
- `app/` a headless driver that loads a premade map (`map::premade`), runs
  updates with the space bar or the W key held if asked, computing the
  real-number parts and asking the library for every decision.
