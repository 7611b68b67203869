//! A static-site publishing pipeline built around a verified remote
//! directory synchronization engine.
//!
//! The engine takes a local directory tree and makes a remote object-storage
//! namespace under a prefix an exact mirror of it: it derives a normalized
//! key for every regular file, wipes the prefix, uploads one object per file
//! with a best-effort content type, and reports either the number of tasks
//! attempted or the first failure in submission order.

pub mod cli;
pub mod content_type;
pub mod deploy;
pub mod hugo;
pub mod keys;
pub mod mem_peak;
pub mod mime_layer;
pub mod mirror;
pub mod notify;
pub mod storage;
pub mod tasks;
