//! Two pieces of an edge runtime.
//!
//! [`queue`] is the outbound mailbox a broker keeps for each connected
//! client: a FIFO queue of publications bounded by count and by aggregate
//! payload bytes, with a configurable reaction to overflow. [`laws`] states
//! what holds of it over any run of calls.
//!
//! [`management`] renders an error and the chain of causes behind it as
//! the answer of the management interface.

pub mod laws;
pub mod limit;
pub mod management;
pub mod publication;
pub mod queue;
pub mod settings;
