//! Downloads videos that M3U8 playlists describe: the decisions, free of input and output.
//!
//! A playlist is parsed stage by stage ([`parse`]), a master playlist by way of its best variant
//! ([`master`]), into the files to download and the playlist to save with them ([`playlist`]).
//! The manager ([`manager`]) keeps the state of the download, and [`download`] says what is done
//! next, for the whole download and for each file. What the user entered becomes a configuration
//! ([`config`]), and what the window shows is said by [`ui`]. What holds of all this together is
//! proved in [`laws`].
pub mod config;
pub mod download;
pub mod error;
pub mod laws;
pub mod manager;
pub mod master;
pub mod outside;
pub mod parse;
pub mod playlist;
pub mod segment;
pub mod size;
pub mod text;
pub mod ui;

pub use config::UserConfig;
pub use download::ChannelMessage;
pub use manager::{DownloadManager, DownloadState};
pub use segment::Segment;
