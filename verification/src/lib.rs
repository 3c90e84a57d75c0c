//! Argument building, output parsing and session state for a desktop front end of yt-dlp.

pub mod downloader;
pub mod session;
pub mod settings;
pub mod text;
