//! Sans-I/O core of a client for the twinkle key-value protocol.
//!
//! The protocol runs over connectionless datagrams: one frame per datagram,
//! no ordering and no delivery guarantee. This crate holds everything the
//! client decides: how a request becomes a frame, how an inbound datagram is
//! matched to the call that waits for it, and when a call sends again or
//! gives up. It performs no I/O; the caller owns the socket and the timers and
//! feeds what happened back in.

pub mod client;
pub mod dispatcher;
pub mod errors;
pub mod ident;
pub mod listener;
pub mod packet;
pub mod policy;
pub mod request;
pub mod response;
pub mod table;
pub mod types;
pub mod wire;

