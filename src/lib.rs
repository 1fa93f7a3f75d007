//! Binding of uProtocol-style messaging onto a Zenoh-like substrate: the
//! address codec, the attribute attachment codec, the priority and payload
//! format maps, and the registries that back listener registration.
pub mod error;
pub mod hex;
pub mod uri;
pub mod key;
pub mod priority;
pub mod attributes;
pub mod registry;
pub mod correlation;
pub mod client;
