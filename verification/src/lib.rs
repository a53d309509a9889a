//! Flattens XDG desktop entries into launcher records.
//!
//! A desktop entry describes one application; each of its declared actions is
//! an alternate way to launch it. A launcher wants a flat list: one record per
//! action, and one for the entry itself unless the entry asks not to be
//! displayed. Every record is printed as one tab-separated line.

pub mod actions;
pub mod decimal;
pub mod decode;
pub mod entry;
pub mod listing;
pub mod record;
pub mod syntax;
