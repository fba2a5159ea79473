//! Core logic of a pluggable speech-synthesis engine: language-aware voice
//! selection, the streaming synthesis protocol, class-factory dispatch with a
//! module keep-alive count, and registration plans for the hosting shell.
//!
//! Everything here is plain computation with verified contracts; the thin
//! layer that talks to the operating system lives outside this library and
//! exchanges plain values with it.

pub mod comserver;
pub mod detect;
pub mod detector;
pub mod engine;
pub mod factory;
pub mod format;
pub mod guid;
pub mod lang;
pub mod latch;
pub mod refcount;
pub mod registry;
pub mod scale;
pub mod stream;
pub mod text;
pub mod voice;
