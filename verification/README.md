# gorustines

Go-style concurrency pieces in Rust, with the channel logic verified by Verus.

- `src/` is the verified library:
  - `gorust/rust_prim_tools.rs`: `Channelish`, a bounded FIFO channel that can be
    closed, with its abstract state `ChannelState` and one spec function per
    operation (`send_step`, `send_timeout_step`, `recv_step`,
    `recv_timeout_step`, `close_step`). Each operation `requires` that a
    blocking caller would no longer wait (`send_ready`, `recv_ready`, or a
    passed deadline for the timed ones), and its contract is exactly its step.
  - `gorust/rust_prim_threads.rs`: `StandardChannel`, a bounded FIFO channel
    without close, whose `send` and `recv` require room and a value.
  - `gorust/adv_go_pool.rs`: `parallel_execute`, which runs tasks on rayon and
    returns their results in task order.
  - `gorust/channel_laws.rs`: proved properties of the channel (FIFO order,
    capacity bound, behaviour after close, refused sends hand the value back),
    including FIFO over any interleaving of calls (`law_interleaved_fifo`).
  - `benchmarks.rs`: `PoolBenchmarkResult`, the record of a pool run.
- `app/` is the program around it: thread-shared channels that lock the
  library's channels and wait on condition variables until a call may go
  ahead or its deadline passes, the worker pools (threads, `threadpool`,
  `crossbeam`, `tokio`), the benchmarks (`sysinfo`), and the async demo
  (`gorustines async-demo`).
