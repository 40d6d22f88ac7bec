# monty

The runtime core of a small Python interpreter, written and verified in Verus: a
reference-counted heap with cycle collection, interned literals, equality, hashing and
`repr`, builtin modules (`collections`, `os`, `re`), named tuples, argument binding and
the call opcodes of the virtual machine.

- `src/` is the library. Its functions carry contracts, and the public proof functions
  state laws that hold across functions.
- `tests/` runs the library: whole sessions in `repl.rs`, the parts in the other files.
- `app/` stores heaps and literals with serde.

Where a function needs a method of a builtin type, the event loop or the regex engine,
it returns a description of that work, and the host loop goes on from there.
