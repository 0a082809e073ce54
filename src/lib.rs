//! A GATT server model: an attribute tree built by the application, the
//! registration sequence that mirrors it into a Bluetooth controller, and the
//! routing of controller events back to tree nodes.
//!
//! The library never talks to the controller itself. Every entry point takes
//! an event as plain values and answers with the commands that the host must
//! issue, so that each decision is stated and proved here.

pub mod resolve;
pub mod uuid;
pub mod attributes;
pub mod characteristic;
pub mod service;
pub mod event;
pub mod profile;
pub mod registration;
pub mod routing;
pub mod connections;
pub mod notify;
pub mod persistence;
pub mod server;
pub mod laws;
