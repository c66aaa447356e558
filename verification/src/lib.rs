//! A verified "bulls and cows" code-breaking game service core.
//!
//! `game` holds the scorer and the per-session state machine, `id_pool` the
//! allocator of session identifiers, and `store` the session store that maps
//! identifiers to games. An HTTP adapter around this crate is expected to wrap
//! the store in a mutex and translate wire requests into the calls offered
//! here.

pub mod game;
pub mod id_pool;
pub mod store;
