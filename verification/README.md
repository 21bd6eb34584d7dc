# flo_scenery

The decision logic of a small scene-based drawing application (tool state, focus
routing, tool docks, sprite allocation, binding programs, the physics simulation's
bookkeeping, document frames, dialog state and input keys, a float frame encoder and the OpenGL
renderer's resource tables), written in Verus with its contracts and laws proved.

Layout:

- `src/` is the verified library. Each module holds a state machine or data structure,
  a mathematical model of it (a view over `Seq`/`Map`/`Set`), executable functions whose
  `ensures` pin their result to that model, and public `law_*` proof functions that state
  what holds across calls.
- `tests/` runs the library on concrete values.
- `app/` is the ordinary Rust around the library: the scene programs that await messages,
  drawing, geometry in floating point, OpenGL calls and the rapier2d simulation. Each
  program hands plain values to the library and performs the actions it returns.
