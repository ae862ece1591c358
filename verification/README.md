# tendon

A verified library for reading the public surface of Rust crates.

- `src/analysis` decides how analysis data is brought up to date: the stages of running
  `cargo check` and the language server, the progress messages that the server prints, where the
  toolchain keeps its data, and which files are read in which order.
- `src/resolve` walks the items of a module: definitions go to a database, imports to the scope of
  their module, and macro invocations wait with the macros that they can see. Lowering the types
  and attributes of items is done elsewhere: where it fails, the walk is told so. It also says where
  the source file of a module can be.
- `src/text` holds what both need to know of lines, words and white space.
- `tests` runs the library on concrete values.
- `app` connects the library to processes, files and logs.

Every function in `src` states in its contract what it returns or changes, and Verus proves it.
The exceptions are small functions marked `external_body`, which call `serde_json` and `syn`; what
they claim of those crates stands in their contracts. The `law_` functions state what holds of
several functions together.
