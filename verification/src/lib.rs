//! The core of a project manager's dependency commands: deciding where a
//! requirement comes from, collecting the edits to a manifest, and sequencing
//! the steps that bring a project to a locked and installed state.

pub mod add;
pub mod credentials;
pub mod edits;
pub mod entrypoints;
pub mod inflight;
pub mod init;
pub mod manifest;
pub mod markers;
pub mod orchestrator;
pub mod python;
pub mod requirement;
pub mod resolver;
pub mod scan;
pub mod setup;
pub mod source;
pub mod text;
pub mod tool;
