//! Scanning a directory tree for JPEG images: which files are candidates, what
//! each decodes to, and the ordered batch of rows that is kept of them.

pub mod orientation;
pub mod text;
pub mod outcome;
pub mod aggregate;
pub mod config;
pub mod display;
pub mod collector;
pub mod probe;
pub mod extract;
pub mod report;
pub mod laws;
