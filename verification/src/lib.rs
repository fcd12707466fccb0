//! Checkpoint/rollback support for a single-node development chain.
//!
//! The crate has three layers, leaf to root:
//!
//! - [`fees`]: a pure, stateless converter between a two-dimensional block
//!   resource cost and a fee, using saturating integer rational arithmetic
//!   that truncates toward zero.
//! - [`store`]: an in-memory ordered registry of checkpoints keyed by
//!   monotonically increasing identifiers that are never reused.
//! - [`snapshot`]: the request-facing manager that captures checkpoints of
//!   host state and plans best-effort rollbacks against an append-only
//!   storage layer's truncation primitive.
//!
//! The storage layer, the RPC transport and the chain client are host
//! collaborators: the manager only decides, from plain values handed in,
//! what to truncate and what to restore, so every decision here is verified.

pub mod fees;
pub mod snapshot;
pub mod store;
