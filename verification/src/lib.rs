//! The logic of a Hentai@Home client: protocol requests and replies, cache
//! bookkeeping, bandwidth limits, flood control and download planning.
//!
//! Everything here is synchronous and free of I/O. Clocks, sockets, files and
//! the database belong to the program around the library, which hands in plain
//! values (a response body, the current time) and acts on what comes back.

pub mod text;
pub mod digest;
pub mod web;
pub mod config;
pub mod api;
pub mod rounding;
pub mod throttle;
pub mod metrics;
pub mod tables;
pub mod cache;
pub mod static_ranges;
pub mod archive;
pub mod gallery;
pub mod hath_downloader;
pub mod server;
pub mod tui;
