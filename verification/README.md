# hubris_servers

The decisions of two tasks of an embedded operating system, verified with
Verus:

- the update server, which erases and programs the alternate flash bank of an
  STM32H7, chooses the bank that the system boots from next, and reads the
  caboose of the image in the alternate bank (`src/update_server/`);
- the supervisor, which restarts or holds tasks when they fault
  (`src/jefe/`).

The library touches neither hardware nor kernel. What takes several steps is a
`Procedure` (`src/procedure.rs`): it says what to do next, is told what came of
it, and goes on from there. The laws of the library are stated over whole runs
of such procedures, whatever the hardware answers.

`app/` is the two tasks around the library. They build in the source tree of
the firmware, with its crates and its generated files, and need an allocator,
for the library keeps tables in `Vec`s.
