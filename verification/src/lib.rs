//! Core of a replicated note-taking worker.
//!
//! The library holds the verified logic of the system: note records and
//! their byte codec, the key framing convention for the replicated
//! document, an executable model of that document, the note store's CRUD
//! rules, the sync supervisor's retry schedule, the worker's command
//! dispatch, and the timer transitions. I/O, the UI and the network
//! engine live outside and drive these functions with plain values.

pub mod codec;
pub mod comms;
pub mod doc;
pub mod keys;
pub mod laws;
pub mod note;
pub mod render;
pub mod snapshot;
pub mod store;
pub mod supervisor;
pub mod timer;
pub mod ui;
pub mod worker;
