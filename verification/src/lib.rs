//! Loader, integrity checker and navigation layer for nuScenes-style datasets.
//!
//! A dataset is thirteen tables of records that refer to each other by token.
//! The library decodes the custom field encodings, checks that every reference
//! resolves and that the `prev`/`next` links agree, derives the per-sample
//! groups, the per-instance and per-scene chains and the chronological orders,
//! and hands out cheap handles to walk the result.

pub mod chain;
pub mod check;
pub mod dataset;
pub mod ends;
pub mod error;
pub mod group;
pub mod index;
pub mod laws;
pub mod links;
pub mod loader;
pub mod order;
pub mod parsed;
pub mod pointcloud;
pub mod refs;
pub mod serializable;
pub mod table;
pub mod tables;
pub mod token;

pub use crate::dataset::Dataset;
pub use crate::error::{Error, Result};
pub use crate::loader::DatasetLoader;
pub use crate::refs::DatasetRef;
pub use crate::tables::{RecordLists, Tables};
pub use crate::token::{Token, VisibilityToken};
