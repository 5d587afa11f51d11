//! Wire formats: the frames exchanged with the Xposed hook, the
//! little-endian integers inside them, and the manager's app records.

pub mod bytes;
pub mod manager_v1;
pub mod xposed;
