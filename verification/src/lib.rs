//! Verified core of `ytcli`: the session queue, playlists and audio cache,
//! the auto-advance and download steps, mpv's IPC messages, Spotify links and
//! yt-dlp output, and the text that the command line shows.

pub mod cache;
pub mod cli;
pub mod commands;
pub mod display;
pub mod download;
pub mod error;
pub mod paths;
pub mod playback;
pub mod player;
pub mod playlists;
pub mod queue;
pub mod spotify;
pub mod state;
pub mod text;
pub mod watch;
pub mod youtube;

pub use error::{Result, YtcliError};
