//! A bank ledger that is served by a fixed pool of workers through a blocking
//! channel with two priority tiers.
//!
//! * [`priority_async_channel`]: the channel. A normal item joins the back of
//!   the queue, an urgent one the front; receivers sleep while the queue is
//!   empty and a sender is alive.
//! * [`threadpool`]: the rules of the pool: what a worker does with a
//!   message, how jobs are handed in, how the pool is wound down.
//! * [`bank`]: the ledger of accounts and its operations.

pub mod bank;
pub mod priority_async_channel;
mod sync;
pub mod threadpool;
