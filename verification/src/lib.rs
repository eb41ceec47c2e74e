//! An interactive browser for a hierarchical, path-addressed key/value store.
//!
//! The crate provides the two verified cores of such a browser:
//! the event multiplexer ([`events::Events`]), which fuses the keyboard
//! producer, the timer and externally injected messages into one ordered
//! stream, and the navigation state machine ([`session::Session`]), which
//! consumes that stream and turns it into tree-browsing transitions against
//! a remote, fallible store.  The terminal surface and the remote store
//! themselves are collaborators of the surrounding program: the library
//! takes their answers as plain values and says exactly what it does with
//! every possible one of them.

pub mod events;
pub mod session;
