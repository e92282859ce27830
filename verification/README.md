# recuvora

Watches systems through registered extensions, keeps the faults it finds, and carries out
approved repairs. What may have happened and is not known is kept as unknown; nothing that may
have had an effect is repeated on its own.

- `src/` is the library. Every rule, state machine, parser and check stands there with a contract
  that Verus proves. Each module with promises of its own holds them as public proof functions,
  most of them in a `laws` module.
- `app/` is the program around it: arguments, files, processes, sockets and locks. It carries the
  encodings of the library's types (`wire.rs`) and performs what the library plans.
- `tests/` runs the library on concrete values.

Stores are written in three steps: the library plans a record, the program writes it, the library
installs it. A write that fails leaves the store without further steps.

Five functions are trusted: extending a text, its lowercase form, the debug forms of a text and of
a path, and the quoted form of a text in JSON. Their contracts stand where they are
declared, in `src/text.rs` and `src/json/ops.rs`.
