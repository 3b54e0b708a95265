//! Redstone: the block, proof-of-work, wire-format and node-state logic of a
//! two-chain proof-of-concept blockchain node.

pub mod digest;
pub mod text;
pub mod encoding;
pub mod clock;
pub mod transaction;
pub mod block;
pub mod command;
pub mod message;
pub mod server;
pub mod cli;
