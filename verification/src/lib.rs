//! VixenLens core: the decisions and text building behind indexing VRChat
//! screenshots, with their contracts proved by Verus.
//!
//! The application shell (Tauri commands, SQLite, the file system, image
//! decoding) calls into this library with plain values and gets plain values
//! back.
use vstd::prelude::*;

pub mod text;
pub mod config;
pub mod folders;
pub mod paths;
pub mod sql;
pub mod search;
pub mod scan;
pub mod cache;
pub mod metadata;

verus! {

} // verus!
