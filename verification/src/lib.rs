//! Readiness polling: the registration, readiness queue and event rules of a
//! `Poll` handle, with machine-checked contracts.
//!
//! * [`event`]: tokens, readiness sets, poll options and events.
//! * [`events`]: the buffer that a poll fills.
//! * [`state`]: the word in which a node packs its whole state.
//! * [`node`]: what is kept for one registration, and how its state changes.
//! * [`model`]: the readiness queue as a mathematical value, and its steps.
//! * [`queue`]: the readiness queue.
//! * [`registration`]: the two handles of a registration.
//! * [`poll`]: the poll handle.
//! * [`steps`]: what no interleaving of the steps of several threads breaks.
//! * [`runs`]: what comes of such interleavings.
//! * [`effects`]: what each operation comes to, by flags, tokens and entries.
//! * [`laws`]: what holds of the library as a whole.

pub mod effects;
pub mod event;
pub mod events;
pub mod laws;
pub mod model;
pub mod node;
pub mod poll;
pub mod queue;
pub mod registration;
pub mod runs;
pub mod state;
pub mod steps;
