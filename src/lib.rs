//! A local process supervisor's core: the persisted registry of supervised
//! processes, the resolution of user targets to records, and the decisions of
//! the start / stop / restart / delete lifecycle.
//!
//! Everything that touches the operating system (spawning, signalling,
//! liveness queries, files) is performed by the caller; the functions here
//! take the outcome of that work as plain values and decide what follows.
pub mod record;
pub mod text;
pub mod store;
pub mod resolve;
pub mod lifecycle;
pub mod listing;
