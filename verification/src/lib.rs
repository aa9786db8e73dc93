//! A per-channel counter driven by IBC channel and packet events: handshake
//! validation, counter lifecycle, packet receipt that always acknowledges,
//! and timeout bookkeeping.

pub mod ack;
pub mod base64;
pub mod contract;
pub mod error;
pub mod events;
pub mod ibc;
pub mod json;
pub mod msg;
pub mod response;
pub mod state;

pub use crate::error::ContractError;
