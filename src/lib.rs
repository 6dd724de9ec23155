//! Conversion between an analysis engine's byte-offset results and the
//! editor protocol's (line, UTF-16 column) messages.
pub mod analysis;
pub mod convert;
pub mod line_map;
pub mod protocol;
pub mod vfs;
