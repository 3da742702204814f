# Huragok

A single-player toolbox for Halo: Campaign Evolved: a free camera, camera paths, time control, an
in-game panel with skull toggles, and a way to take over an enemy and play as it. It runs as a DLL
inside the game and leaves the game's files alone.

## Layout

- `src/` is the library, verified with Verus. It works on an image of the game's memory
  (`memory.rs`): every operation states exactly what it reads, what it changes and what it returns,
  an access that would fault included.
  - `bytes`, `ieee`, `text`, `mem`, `memory`, `offsets`: bytes, floating-point bit patterns,
    strings, module bases and the memory image
  - `ue/`: the engine's names, object table, classes and prepared calls
  - `simtime/`, `simunit`: the simulation's roots, clock, units, players, weapons and AI
  - `hooks/`: the detours of the camera, the controller, the panel and the seed builder
  - `pawn/`: what a command comes down to, in engine calls and memory writes
  - `possess/`: picking a target, binding the player to it, holding the binding, giving it back
  - `campaign`, `cmd`, `console`, `dump`, `input`, `log`, `look`, `paths`, `perf`, `script`,
    `state`, `stats`: the rest of the toolbox
- `app/` is the DLL around it: live memory, engine calls, threads, keys, files, drawing, and all
  floating-point arithmetic. Floating-point numbers cross into the library as bit patterns.
- `extras/seh.c` is the structured-exception frame that `app/` links.
- `tests/` runs the library on concrete images.

Proof functions whose names begin with `law_` state what holds of the library as a whole, such as
that a release gives back every field that taking over a unit and any number of ticks after it
changed, but for the trampoline and the place of the streaming anchor, and leaves the unit without
an owner.
