//! Podcast episode extraction, naming and download planning.
//!
//! The library turns raw feed items into validated episodes, derives a
//! filesystem-safe file name for each, and decides what a download worker
//! does at each step of fetching an episode.
pub mod text;
pub mod media;
pub mod date;
pub mod episode;
pub mod naming;
pub mod queue;
pub mod download;
pub mod config;
