//! A Discord bot's decision logic: its slash commands, the routing of
//! interactions, the search result menu and the song selection it accepts,
//! the labels and messages it shows, and the parsing of `yt-dlp` output.

pub mod text;
pub mod youtube;
pub mod commands;
pub mod state;
pub mod events;
