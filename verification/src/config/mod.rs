//! The daemon's configuration: the module's policy files and the migration
//! of legacy policy and label lines.

pub mod loader;
pub mod migration;
