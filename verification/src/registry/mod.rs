pub mod assets;
pub mod channels;
pub mod contract;
pub mod error;
pub mod helpers;
pub mod playlist;
