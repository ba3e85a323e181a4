//! A bounded, filterable view over a growing text log.
//!
//! The library keeps the most recent lines of a log in a capacity-bounded
//! buffer, derives the indices of the lines that match a case-insensitive
//! search substring, and decides, each time the live log is read again,
//! whether the buffer is replaced (the file shrank) or extended (it grew).
//! Reading files and watching them for changes is left to the caller.

pub mod buffer;
pub mod filter;
pub mod text;
pub mod watch;
pub mod view;
