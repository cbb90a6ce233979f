# convex_dart

A bridge between Dart (through flutter_rust_bridge) and a Convex deployment
(through the `convex` crate).

- `src/` is the verified library (Verus): the values that cross the bridge
  and their JSON text, reading a value back from the `Debug` text that the
  convex crate writes for it, the arguments that mutations, queries and
  subscriptions send, and what replies and subscription updates give.
- `app/` is the Dart-facing client: connecting, awaiting calls and
  subscription updates, and turning convex values into what the library
  reads (their `Debug` text, and the float parsing that stays out of the
  library).
- `tests/` runs the library on concrete values.
