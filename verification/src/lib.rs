//! A bridge from a chat-hosted command to a Wake-on-LAN broadcast.
//!
//! The library holds the rules of the bridge: how a hardware address is read
//! from text, how the wake payload is laid out, and which actions follow each
//! interaction event. Networking and the chat platform live outside it.

pub mod error;
pub mod address;
pub mod packet;
pub mod event;
pub mod router;
