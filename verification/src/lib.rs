//! The decision logic of a relay that carries compute requests from a
//! contract to a proving backend and the results back, together with the
//! sequence program that the relay serves.

pub mod abi;
pub mod adapter;
pub mod error;
pub mod guest;
pub mod handshake;
pub mod registry;
pub mod relay;
pub mod trace;
pub mod word;
