//! Core logic of a front-end for an external video-download tool: the
//! progress-line parser, the quality-to-format mapping, and the state
//! transitions of the process supervisor. Process spawning, stream I/O and
//! the interactive window live outside this library.

pub mod parser;
pub mod quality;
pub mod supervisor;
pub mod text;

pub use quality::VideoQuality;
pub use supervisor::{ErrorCapture, RunState, WaitResult};
