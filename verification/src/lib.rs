//! A minimal host-interface shim for capability-restricted programs.
//!
//! The host hands the program packed argument/environment buffers and a
//! small set of pre-opened directory descriptors.  This crate holds the
//! verified core: the packed dual-buffer decoder, the capability table,
//! the longest-prefix path resolver, and the scoped file-access session.
//! The raw host calls themselves are performed by an unverified driver
//! that feeds their results to these functions as plain values.

pub mod caps;
pub mod console;
pub mod files;
pub mod packed;
pub mod text;
pub mod timing;

pub use caps::AccessibleDirectory;
pub use console::{Channel, WriteRequest};
pub use files::{ErrorKind, FileSession, HostCall, HostReply, Outcome, SessionStep};
pub use packed::EnvironmentalVariable;
