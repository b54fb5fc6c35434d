//! Backend core of a file-catalog / duplicate-detection tool: it turns
//! discovered files into records with a content fingerprint, and persists
//! them in batched transactions while reporting progress.
pub mod catalog;
pub mod hashing;
pub mod models;
pub mod writer;
