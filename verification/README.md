# rwasm_trace

Traces the execution of WebAssembly programs that an engine carries out step by step, and chooses
the shapes of the tables that proofs of the execution are made from. The library is verified with
Verus: every function states what it returns and changes, and the laws that relate several functions
are proved beside them.

The engine itself is not part of the library. It reports each of its steps as a `StepOutcome`; the
executor turns the reports into events, cuts the execution into shards and batches, and keeps
checkpoints.

## Layout

- `src/memory.rs`, `src/maps.rs`: word-addressed memory, records of accesses, and the hashed
  collections.
- `src/opcode.rs`, `src/events.rs`, `src/record.rs`, `src/state.rs`: the data of a trace.
- `src/executor.rs`: the executor and its word-level memory.
- `src/emit.rs`: the events of a step.
- `src/cycle.rs`: what a step does, and when a shard ends.
- `src/finish.rs`: the tables of initial and final memory.
- `src/batch.rs`, `src/checkpoint.rs`, `src/run.rs`: batches, checkpoints and whole programs.
- `src/air.rs`, `src/math.rs`, `src/shape.rs`, `src/ordered.rs`: tables, heights, shapes and
  clusters of shapes.
- `src/cluster.rs`, `src/precompile.rs`, `src/config.rs`, `src/catalog.rs`, `src/maximal.rs`,
  `src/defaults.rs`: the configuration of allowed shapes and the search in it.
- `src/laws.rs`, `src/shape_laws.rs`: what holds of the executor and of the choice of shapes as a
  whole.
- `app/`: the loop over an engine, files, messages and hooks.
