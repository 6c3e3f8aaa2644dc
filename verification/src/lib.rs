//! Keyboard remapping core: a byte-exact codec for kernel input records, the
//! remap engine with its press history, and the plans that a driver follows
//! to read a grabbed keyboard and to register a synthetic one.

pub mod keys;
pub mod codec;
pub mod emitter;
pub mod engine;
pub mod combo_key;
pub mod reader;
pub mod device;
