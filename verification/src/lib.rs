//! A minimal process supervisor library.
//!
//! The library holds the verified logic of the supervisor: decimal numerals
//! for the PID-file protocol, log-line construction, the naming of log and
//! PID files, the lifecycle controller's restart policy, and the planning of
//! `leave` requests that stop running supervisors.  The surrounding binary
//! performs the process, file and thread work and consults this library for
//! every decision and every formatted byte.

pub mod channel;
pub mod leave;
pub mod lifecycle;
pub mod logline;
pub mod numerals;
pub mod program;
pub mod signals;
