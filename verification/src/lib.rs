//! An interactive terminal dashboard for discovering scripts in a directory
//! tree, loading them into a polyglot execution runtime, invoking individual
//! functions with ad-hoc arguments, chaining calls into a replayable pipeline,
//! and exporting the pipeline as generated source code.
//!
//! This crate holds the verified core: the script catalog, the function-name
//! extractor, the pipeline model, the bounded history log, the view/input
//! state machine, and the exporter. Terminal rendering and the calls into the
//! external runtime are performed by the host program around this library.

pub mod app;
pub mod catalog;
pub mod export;
pub mod extract;
pub mod input;
pub mod invoke;
pub mod model;
pub mod pipeline;
pub mod present;
pub mod text;
