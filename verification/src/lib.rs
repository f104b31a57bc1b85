//! A peer-to-peer chat engine: peers find each other, subscribe to named
//! topics and pass messages on, each message once.

pub mod address;
pub mod bridge;
pub mod bytes;
pub mod chat;
pub mod codec;
pub mod discovery;
pub mod driver;
pub mod engine;
pub mod identity;
pub mod seen;
pub mod topics;
