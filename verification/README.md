# pulsedb

The verified core of an embedded memory store for agents, and of the protocol by which
two stores keep each other up to date.

- `src/` is the library. Its functions carry contracts, and Verus proves them.
  - `storage/` holds the keys and records of the store, the writes of every operation
    (computed as a `Plan`, whose meaning is defined on `StoreView`), and the state
    machines that open, back up and migrate a store file.
  - `sync/` holds the frame format, the packing of pushes and pulls, the application of
    remote changes, and the state machines of a sync session.
- `tests/` runs the library on concrete values.
- `app/` is ordinary Rust around it: the database file, serialization, tasks and
  transports. It performs the operations the library asks for and reports what happened.

Floating-point values are carried through the library as bit patterns. Outside calls in
`src/` stand behind trusted items, each with a doc comment that says what is taken on
trust: the serializer on plain numbers and the words of its errors, the system clock,
and UTF-8 decoding.
