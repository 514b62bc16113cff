//! A process supervisor: launches a configured, ordered list of service
//! executables, waits for every successfully started child in launch order,
//! and reports one terminal outcome per configured service. A failure to
//! launch or to wait on one service never disturbs the others.
//!
//! The operating-system calls that actually spawn and reap processes live
//! outside this library; the supervisor is driven with the plain results of
//! those calls and is verified for every value they may take.

pub mod greeter;
pub mod isolation;
pub mod outcome;
pub mod supervisor;
