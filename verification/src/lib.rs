//! podci: a local-first continuous-integration runner core.
//!
//! The library holds the verified logic of the runner: deterministic
//! fingerprinting of the inputs that define a container environment,
//! derivation of a volume-safe namespace, classification of container
//! engine failures, prune planning for cache volumes, the run
//! orchestrator's step machine, and the manifest record with its JSON
//! codec. Everything that touches the outside world (the container
//! engine subprocess, the filesystem, the terminal) lives in the
//! accompanying application crate and hands plain values in and out.

pub mod config;
pub mod dict;
pub mod fingerprint;
pub mod gc;
pub mod image;
pub mod json;
pub mod manifest;
pub mod namespace;
pub mod process;
pub mod runner;
pub mod templates;
pub mod text;
