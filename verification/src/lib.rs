//! Channel, asset and playlist logic of the OmniFlix channel contract.
pub mod asset_manager;
pub mod bank;
pub mod contract;
pub mod channel_manager;
pub mod error;
pub mod helpers;
pub mod json;
pub mod keys;
pub mod map;
pub mod order;
pub mod random;
pub mod registry;
pub mod string_validation;
pub mod text;
pub mod types;
