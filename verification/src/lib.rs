//! A build-system dispatcher: recognizes which build tool governs a project
//! from the marker file present in a directory, and constructs the concrete
//! command line to invoke that tool.
//!
//! Detection deliberately uses the full search order — the working directory
//! first, then its `build` subdirectory, then each ancestor up to the
//! filesystem root — rather than the working directory alone, and the
//! constructed invocation is meant to be executed, with its exit code
//! propagated, not merely printed. Finding no build system anywhere is a
//! normal terminal outcome, not an error.
//!
//! The library itself touches no filesystem and starts no process: it works
//! on directory listings handed in as plain values and returns the program
//! name and argument list to run. Every function here is verified against the
//! specification functions published by each module.

pub mod command;
pub mod detect;
pub mod numeral;
pub mod search;
