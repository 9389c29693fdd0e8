//! Kabu: the rules of a personal stock portfolio tracker, verified with Verus.
pub mod assets;
pub mod config;
pub mod gemini;
pub mod market;
pub mod models;
pub mod pdf;
pub mod portfolio;
pub mod text;
pub mod transactions;
