//! Character-level text handling: decimal and hexadecimal rendering, JSON
//! escaping, whitespace trimming, line and token splitting, and integer
//! parsing and string order, each stated over sequences of characters.

pub mod chars;
pub mod format;
pub mod scan;
pub mod split;
pub mod num;
pub mod order;
