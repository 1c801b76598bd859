//! A bridge between WebSocket clients and DDS topics: the wire protocol, the
//! QoS encoding, the registries of readers and writers, and the rules by which
//! requests are answered.
pub mod assoc;
pub mod bridge;
pub mod cli;
pub mod config;
pub mod dds;
pub mod protocol;
pub mod qos;
pub mod text;
pub mod wire;
pub mod ws;
