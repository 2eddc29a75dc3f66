pub mod error;
pub mod channel;
pub mod types;
