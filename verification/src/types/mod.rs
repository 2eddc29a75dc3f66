pub mod asset;
pub mod channel;
pub mod coin;
pub mod msg;
pub mod config;
