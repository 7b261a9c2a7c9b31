//! A static-analysis engine for Solidity sources.
//!
//! A run parses every source file once, then hands the parsed trees to the
//! detection rules of three categories: vulnerabilities, gas optimizations
//! and code quality. Each rule reports, per file, the constructs it flags,
//! with their exact location and their text.

pub mod loc;
pub mod tree;
pub mod extractors;
pub mod outcome;
pub mod source;
pub mod engine;
pub mod optimizations;
pub mod solidity;
