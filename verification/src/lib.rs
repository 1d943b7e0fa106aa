//! A habit-logging engine: an ordered registry of habits, a sparse store of
//! per-day logs, a single staged status edit that is committed at navigation
//! boundaries, the back-fill rule for weekly habits, and the per-day summary
//! symbol. Every function carries a contract that Verus proves.

pub mod app;
pub mod document;
pub mod input;
pub mod laws;
pub mod models;
pub mod session;
pub mod storage;
pub mod text;
