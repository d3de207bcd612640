//! Verified core of a video-to-GIF command-line tool.
//!
//! The tool validates its inputs, derives a sampling frame rate from a
//! playback-speed multiplier, builds the filter expression and argument
//! list for an external video processor, and reports the resulting file
//! sizes. Everything the tool decides or computes is here, with contracts;
//! the thin shell that touches the file system and spawns the processor
//! lives outside the library.
pub mod cli;
pub mod command;
pub mod convert;
pub mod numfmt;
pub mod paths;
pub mod speed;
pub mod strutil;
