//! A journal of timestamped actions against resources named by URL.
//!
//! A caller builds a [`PlaceAction`], hands it to a [`Store`], and later asks
//! the store for every action recorded under one URL, oldest first.
//! [`MemoryStore`] is the store that keeps everything in memory.
//!
//! The module [`journal`] holds the mathematical model that the contracts of
//! the stores are written in, and the lemmas that say what a caller can rely
//! on. The module [`trusted`] lists what is believed of the `url` and `time`
//! crates without proof.

pub mod trusted;
pub mod action;
pub mod journal;
pub mod store;
pub mod memory;

pub use action::PlaceAction;
pub use memory::MemoryStore;
pub use store::Store;
