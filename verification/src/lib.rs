//! The verified core of a chat server: the messages of its protocol, the
//! registry of users and channels, the life of a channel, and what a connection
//! does with each message that arrives on it.
//!
//! Nothing here reads a socket or waits. Each part is a state and functions that
//! take an event and say, in the order in which it is to happen, what to do next.
pub mod channel;
pub mod effects;
pub mod laws;
pub mod message;
pub mod name_map;
pub mod session;
pub mod state;
pub mod websocket;
