# Open Kernel platform layer, verified

The logic of the Open Kernel (x86_64 userspace) platform layer of std, written
in Verus and proved against its contracts.

- `src/`: the verified library.
  - `heap`: the `brk` bump allocator as a state machine (plan, query the break, move it).
  - `env`: the environment store and the parsing of `KEY=VALUE` startup entries.
  - `args`: gathering the process arguments slot by slot.
  - `stdio`: console reads key by key, console write chunking and results.
  - `futex`: futex syscall arguments and replies.
  - `io_error`: error numbers, categories and messages.
  - `pal`: the unsupported-operation error.
  - `target`: the compiler target description.
- `app/`: the syscalls (inline assembly), the process-wide state (atomics,
  `OnceLock`/`Mutex`) and std's trait impls and types, calling the library.
- `tests/`: tests of the library on concrete values.

Syscalls report a failure as a reply that is negative as a signed value (the
negated error number); the library reads every reply that way.
