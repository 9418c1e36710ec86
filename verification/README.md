# bios

A small fantasy-computer toolkit, verified with Verus.

- `src/bios.rs`: an 80 by 45 character grid with half-block pixels, the keys
  that stop it, and the per-cell drawing calls of a frame.
- `src/io.rs`: the display list of a 640 by 480 window: text that accumulates
  as it is printed or typed, its layout in text mode, and what graphics mode
  draws.
- `src/managed.rs`: generational object buffers, each with an id that its
  references carry, an entity table that queues the deletion of a freed
  entity's objects in each of its component buffers, and a first-in
  first-out event queue.
  A queued deletion is recorded as `(generation, index)` but run as
  `(index, generation)`, so it frees an object only where the two are
  equal; immediate deletion frees the object named.
- `src/interpreter.rs`: a register machine over stack frames and a heap of
  objects; I/O and floating-point arithmetic are handed to its driver.
- `src/*_laws.rs`: properties that span several operations.

`app/` holds what runs around the library: the terminal and window drivers
(crossterm, raylib), thread-parallel loops (rayon), saving with MessagePack,
loading programs at run time, and the machine's driver.
