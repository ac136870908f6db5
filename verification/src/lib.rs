//! Core of a local-network file-sharing service: filename sanitization,
//! collision-safe naming, streaming upload ingestion under a byte
//! ceiling, and file listing and serving, with the behaviour of each
//! operation stated in its contract and proved.

pub mod config;
pub mod errors;
pub mod format;
pub mod html;
pub mod ingest;
pub mod laws;
pub mod naming;
pub mod records;
pub mod sanitize;
pub mod storage;
pub mod strutil;
