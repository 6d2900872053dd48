//! How long a process has been running, worked out from what the system
//! reports about it.
//!
//! The library reads nothing itself. A [`Resolver`] says which reading of
//! the system it needs next, takes the reply and decides: the number that
//! the process-listing tool prints is the uptime; where the tool gives
//! none, the kernel's pseudo-files and the clock ticks per second give it.
//! The functions of [`ProcessUptime`] read the single replies, and
//! [`ProcessUptime::new`] takes all of them at once.
//!
//! Every function states what it returns over the texts and numbers it is
//! given: see the `spec` functions beside it, and the proofs that follow
//! them for what holds of all inputs.

pub mod error;
pub mod number;
pub mod procfs;
pub mod resolver;
pub mod text;
pub mod uptime;

pub use error::{FieldFault, UptimeError};
pub use procfs::PseudoFile;
pub use resolver::{Phase, Reply, Request, Resolver, Step};
pub use uptime::ProcessUptime;
