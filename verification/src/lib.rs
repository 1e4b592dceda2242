//! A simulated packet-switched overlay network: source-routed packets,
//! flood-based topology discovery and the relay that forwards them.

pub mod controller;
pub mod drone;
pub mod network;
pub mod packet;
pub mod text;
