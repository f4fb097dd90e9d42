# nirdosha-hi

The build console of the Nirdosha workspace: it keeps a graph of what a project
is to be, has a model write the program, checks and publishes it, composes
projects from templates and serves all of this over HTTP and as agent tools.

- `src/` is the library: every rule, plan, text and document of the console,
  each function with a contract that Verus proves.
- `src/outside.rs` holds every call out of the library, with what is believed
  of it.
- `app/` is the program around the library: files, processes, the network, the
  database and the services of the rest of the workspace. What the bodies of a
  generated program hold is listed there, since a visitor of `syn` meets it;
  what follows from it is decided in `src/`.
- `tests/` runs the library.
