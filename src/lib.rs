//! Validation of mbox-style patches: a header parser, a fixed set of lint
//! checks, severity resolution and report formatting.
pub mod checks;
pub mod config;
pub mod patch;
pub mod report;
