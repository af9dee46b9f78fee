//! External-process introspection over an explicit kernel-object model.
//!
//! The crate locates a process by the title of one of its top-level windows,
//! finds the base load address of a named module mapped into that process,
//! and reads a fixed-width little-endian value from the process's memory at a
//! module-relative offset.
//!
//! Every kernel object the logic touches — windows, processes, the handle
//! table, module lists, readable memory — is represented explicitly by the
//! [`os::OsState`] value, so the whole attach / enumerate / read sequence is
//! ordinary verified code: each operation's contract pins down its result and
//! its effect on the handle table, and handle accounting (every handle closed
//! exactly once, on every exit path) is part of the proofs. A driver that
//! talks to a real kernel supplies the `OsState` contents from the underlying
//! platform calls.

pub mod os;
pub mod player;
pub mod process;
pub mod util;
