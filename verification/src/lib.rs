//! Core of a Byzantine-fault-tolerant consensus node: the per-height round
//! state machine, the vote accumulator, the request and timeout bookkeeping,
//! the transaction pool and the explorer queries, each with a machine-checked
//! contract.

pub mod blockchain;
pub mod crypto;
pub mod explorer;
pub mod helpers;
pub mod messages;
pub mod node;
pub mod wire;
