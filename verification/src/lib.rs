//! The decisions of a plugin that serves an image generator: which model files to bring into a
//! size-limited memory directory and which to drop from it, how a service instance is registered,
//! and how a piece of text is translated.
//!
//! The library performs no file or network operation itself. A job is a value that says which
//! operation it waits for; the caller performs it and hands the outcome back.
pub mod caches;
pub mod config;
pub mod error;
pub mod eviction;
pub mod items;
pub mod loading;
pub mod loading_course;
pub mod loading_laws;
pub mod location;
pub mod models;
pub mod registry;
pub mod setup;
pub mod translate;
pub mod tree_copy;
pub mod tree_copy_laws;

