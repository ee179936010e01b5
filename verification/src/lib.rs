//! A sandboxed tool-execution bridge for a writing application that
//! delegates language-model reasoning to an external engine process.
//!
//! The bridge speaks a line-delimited JSON protocol with the engine over
//! its standard streams, arbitrates multi-round tool-call exchanges, gates
//! which tools are callable by session mode and a write-confirmation flag,
//! and executes file tools against the project directory through a
//! path-escape-proof, backup-protected layer.
//!
//! Every decision the bridge takes is a verified function here; the process
//! plumbing and the file system calls around them belong to the caller.

pub mod bridge;
pub mod chapter;
pub mod config;
pub mod file_ops;
pub mod import;
pub mod jsonval;
pub mod presets;
pub mod project;
pub mod rag;
pub mod recent;
pub mod security;
pub mod session;
pub mod summary;
pub mod text;
pub mod write_protection;
