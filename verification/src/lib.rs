//! A verified terminal-session bridge: it connects a character-cell rendering
//! surface, designed to own a local terminal synchronously, to asynchronous,
//! flow-controlled transports serving remote clients.
//!
//! The pieces, leaves first:
//! - [`events`]: the normalized input event model shared by all transports.
//! - [`decoder`]: turns raw transport frames (terminal escape sequences, plus
//!   a framed control protocol for out-of-band resizes) into events; its
//!   headline guarantees are proved in [`decoder_laws`].
//! - [`sink`]: bridges the surface's synchronous write/flush contract to a
//!   bounded outbound channel.
//! - [`session`]: one rendering surface plus one instance of application
//!   state, stepped by one event at a time.
//! - [`driver`]: the per-connection lifecycle, as a state machine from
//!   inbound frames to session steps and termination.
//! - [`registry`]: the table from connection identity to live session.
//! - [`app`] and [`recipes`]: the hosted application's state machine and its
//!   domain model.

pub mod app;
pub mod decoder;
pub mod decoder_laws;
pub mod driver;
pub mod events;
pub mod recipes;
pub mod registry;
pub mod session;
pub mod sink;
