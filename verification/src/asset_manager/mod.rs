pub mod assets;
pub mod error;
pub mod playlists;
pub mod types;
