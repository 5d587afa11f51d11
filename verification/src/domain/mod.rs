//! The data the daemon reasons about: capabilities, operations, policies and
//! runtime processes.

pub mod capability;
pub mod operation;
pub mod policy;
pub mod runtime;
