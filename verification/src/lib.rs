//! Core of a compiler playground service.
//!
//! The crate covers the trusted boundary between network input and local
//! process execution:
//!
//! * [`harness`] — a narrow static analyzer that extracts foreign-function
//!   bindings (trampolines) from submitted source text and emits a host
//!   program that calls into the compiled code;
//! * [`sandbox`] — turns a program invocation into a confined invocation
//!   under a selectable backend, described as plain data;
//! * [`compile`] — the per-request pipeline decisions that drive source
//!   through the sandboxed compiler and, for run mode, a secondary build;
//! * [`config`] — the compiler and sandbox settings the pipeline reads;
//! * [`scan`] — the character-level scanning primitives the analyzer is
//!   built from.
//!
//! Process spawning, filesystem access and HTTP handling live outside this
//! crate; the functions here compute every decision those steps need and
//! are verified against the contracts below.

pub mod compile;
pub mod config;
pub mod harness;
pub mod sandbox;
pub mod scan;
