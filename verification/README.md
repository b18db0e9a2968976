# buffex

Building blocks for buffered byte streams, verified with Verus.

| Module | What it holds |
| --- | --- |
| `ring_buffer` | a ring for one producer and one consumer: the state word, segments, parking, futures as state machines, the handoff of regions to a kernel |
| `stream` | the decisions of the two tasks between a pair of rings and a socket |
| `locks` | a spinlock, a reader-writer lock with upgradable readers, a queue of contenders |
| `mcf` | planning the types of a cancellable future from the text of a function, which `syn` parses |

Each module states its laws in a file of its own, as public proof functions.

The library owns no thread, waker or socket. Where a task has to be woken, an operation
returns the keys of the wakers (`Woken`); where a cancellation token is polled, the caller
passes what it says; where a half, a segment or a future goes away, it is given up
explicitly (`release`, `commit`, `abandon`).

`app/` puts the library to use: shared handles behind a mutex, the stream traits of compio,
tokio and futures-io, a buffered unix stream, a spinlock over an atomic word, and the
expansion of the attribute `gen_may_cancel_future`.
