# VexFS core, verified

The bookkeeping core of the VexFS vector filesystem, written in Verus: every
function in `src/` carries a contract that the verifier proves.

## Layout

- `src/fs_core/`: inodes, locks, paths, permissions, snapshots and
  copy-on-write bookkeeping.
- `src/ipc/`: the communication layer with the embedding services: request
  and response tracking, queues with flow control, the service registry,
  discovery and health monitoring, load balancing and transports.
- `src/anns/`, `src/knn_search.rs`, `src/hybrid_query_optimizer.rs`: the
  index bookkeeping, search filters and the planning of hybrid queries.
- `src/ioctl_integration.rs`: security levels, permissions and resource
  accounting of ioctl operations.
- `src/ordered_map.rs`, `src/text_map.rs`, `src/text.rs`: ordered maps keyed
  by integers and by text, and text helpers the rest is built on.
- `app/`: what computes in floating point or talks to the terminal,
  built on the library: percentages and averages, plan costs, the random
  projections and clustering of the approximate indexes, benchmarks and the
  test runner.
- `tests/`: tests of the library on concrete values.

A `LockGuard` (from `acquire_read_lock_guard` or `acquire_write_lock_guard`)
does not give its lock back when it goes out of scope: call its `release`,
whose contract says how the lock manager ends.

Floating-point values that the library keeps or compares are held as the
bit patterns of IEEE 754 numbers; the arithmetic on them lives in `app/`.
