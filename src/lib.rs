//! Triggered frame capture: a bounded window of recent camera frames is
//! exported, as a metadata table and an encoded video, whenever a trigger
//! event arrives from a pub/sub transport.

pub mod camera;
pub mod capture;
pub mod config;
pub mod error;
pub mod export;
pub mod frame;
pub mod messages;
pub mod text;
