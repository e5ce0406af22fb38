//! The decisions of a small Java and Kotlin build tool: what its progress display
//! shows, how a Kotlin compiler is found, unpacked and called, and how one run of
//! the command line goes from its first step to its exit code.

pub mod archive;
pub mod display;
pub mod json;
pub mod kotlin;
pub mod location;
pub mod progress;
pub mod run;
pub mod status;
pub mod text;
pub mod version;
