//! Verified control logic of the freezeit daemon: freeze policies, the
//! decisions of the freezer backend, the control pass, the operation log and
//! the wire formats that the daemon speaks with its hook and its manager.

pub mod app;
pub mod config;
pub mod domain;
pub mod protocol;
pub mod sys;
pub mod text;
