//! Output parsing, version comparison, release checking and the decisions
//! around yt-dlp and winget runs for a desktop front-end of yt-dlp.
pub mod scan;
pub mod text;
pub mod version;
pub mod parse;
pub mod tools;
pub mod winget;
pub mod update;
pub mod ytdlp;
pub mod settings;
pub mod install;
pub mod download;
pub mod setup;
