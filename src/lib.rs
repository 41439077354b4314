//! Marshaling of D-Bus messages into their wire format.
pub mod address;
pub mod dict;
pub mod error;
pub mod type_system;
pub mod writer;
pub mod message;
