//! Apple Container compute driver for OpenShell.
//!
//! The driver manages sandbox containers through Apple's `container` command
//! line tool. This library holds everything that the driver decides: the
//! command lines it issues, what it makes of their output, how a sandbox moves
//! from one lifecycle step to the next, what a watcher reports, and which
//! calls a sandbox credential may make. Running processes, touching files and
//! serving gRPC is left to the code around it.
pub mod text;
pub mod string_map;
pub mod error;
pub mod compute;
pub mod cli;
pub mod config;
pub mod driver;
pub mod observe;
pub mod watcher;
pub mod creation;
pub mod deletion;
pub mod auth;
pub mod laws;
