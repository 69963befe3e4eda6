//! Tracks configuration files that live across a filesystem, moves their
//! canonical copies into a managed folder and leaves symbolic links behind.
//!
//! The library holds the tracking records, the folder registry and the
//! lifecycle engine. The engine never touches a disk itself: it plans each
//! operation as a sequence of filesystem steps, a driver performs them and
//! reports each result, and the engine then settles the tracking records.
pub mod codec;
pub mod commands;
pub mod disk;
pub mod engine;
pub mod error;
pub mod laws;
pub mod path;
pub mod plan;
pub mod registry;
pub mod store;
