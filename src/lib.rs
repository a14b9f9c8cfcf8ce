//! Monitoring and control of background file-transfer jobs.
//!
//! The transfer engine itself lives outside this library. What is here is the
//! job lifecycle, the single-slot mailbox that turns pushed notifications into
//! a pollable status stream, the decisions of a blocking `get_status` with a
//! timeout, and the command surface that validates requests against what was
//! last observed of each job. Job identities read and write their canonical
//! hex text, and commands, outcomes and status reports have byte frames for a
//! controller that talks to the service from another process.
pub mod bytes;
pub mod controller;
pub mod error;
pub mod identity;
pub mod monitor;
pub mod report;
pub mod state;
pub mod wire;
