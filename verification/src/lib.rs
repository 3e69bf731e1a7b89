//! Core engine of a library manager for episodic video content: it turns
//! loosely formatted release titles, filenames, folder names and free-text
//! queries into structured identifiers (show, season, episode, release
//! group, quality), classifies directory trees into seasons and specials,
//! expands queries into ranked search strings, and scores candidate results
//! against the parsed intent.

pub mod app_state;
pub mod batch;
pub mod compression;
pub mod config;
pub mod filename;
pub mod library;
pub mod metadata;
pub mod models;
pub mod notify;
pub mod nyaa;
pub mod query;
pub mod scanner;
pub mod text;
pub mod torrent;
pub mod tracking;
