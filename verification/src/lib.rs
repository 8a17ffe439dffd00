//! Go-style channels and the pieces of goroutine-like worker pools that can
//! be stated and proved: a bounded FIFO channel with a close flag, a plain
//! bounded channel, and an order-preserving parallel map over tasks.

pub mod benchmarks;
pub mod gorust;

pub use benchmarks::PoolBenchmarkResult;
pub use gorust::adv_go_pool::parallel_execute;
pub use gorust::rust_prim_threads::StandardChannel;
pub use gorust::rust_prim_tools::{ChannelState, Channelish, RecvError, SendError, SendTimeoutError};
