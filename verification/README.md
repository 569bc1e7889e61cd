# mui

A drop guard for a slot under initialization, verified with Verus.

A slot is an `Option<T>`; `None` stands for storage that holds no value.
`MuiGuard` borrows a slot and holds the value under construction; a write
consumes (without dropping) what the slot held. Finishing the guard moves
the value into the slot; dropping an unfinished guard (for instance while
unwinding from a panic) drops the value and leaves the slot empty, or as it
was if nothing was written. `SeqGuard` does this element by element for an
array of slots, and `utils` builds values through an initiator closure that
is handed fresh guards.

Layout:

- `src/guard.rs`: `MuiGuard`, its contracts and the laws about one guard,
  including what it holds after any sequence of calls.
- `src/seq.rs`: `SeqGuard` (an array of guards) and its laws.
- `src/utils.rs`: `init`, `try_init`, their boxed, array and slice forms, and
  the laws relating them.
- `src/err.rs`: `InitErr`.
- `app/lib.rs`: `Display` and `Error` for a copy of `InitErr`.
- `tests/`: executable scenarios.
