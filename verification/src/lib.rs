//! An interactive read-eval-print session for a compiled language.
//!
//! The library holds the logic of the session: classifying submitted lines,
//! tracking open scopes, buffering statements, rendering the buffer into a
//! compilable program with the final statement instrumented so its effect is
//! printed, and rolling the buffer back when a compilation attempt fails.
//! Reading lines from the terminal and driving the external toolchain are
//! left to the surrounding program, which reports each outcome back to the
//! library as a plain value.

pub mod digits;
pub mod instrument;
pub mod runner;
pub mod session;
pub mod text;
