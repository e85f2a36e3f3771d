//! Deterministic post-processing for identity-document extraction.

pub mod fusion;
pub mod grammar;
pub mod json;
pub mod repair;
pub mod text;
