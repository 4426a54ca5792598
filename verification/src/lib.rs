//! Verified core of a static-site import pipeline.
//!
//! The library packages a directory tree (modelled in memory) into a
//! content-addressed deployment manifest, plans the upload of each file
//! blob, and resolves the finished deployment to a stable alias, falling
//! back to the provisional URL when no alias is available.  All remote
//! and filesystem work is performed by the surrounding application; the
//! decisions, encodings and data transformations are verified here.

pub mod errors;
pub mod trusted;
pub mod hex;
pub mod content;
pub mod bytes;
pub mod walker;
pub mod manifest;
pub mod name;
pub mod deploy;
pub mod pipeline;
