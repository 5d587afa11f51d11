//! The daemon's application layer: errors, foreground classification, the
//! freezer backend, the operation log, the package inventory, the scheduler
//! and the control pass.

pub mod error;
pub mod foreground;

pub mod logging;
pub mod freezer_backend;
pub mod operation_log;
pub mod controller;
pub mod package_inventory;
pub mod scheduler;
pub mod compatibility;
