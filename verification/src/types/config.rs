use vstd::prelude::*;

use crate::types::coin::Coin;

verus! {

/// Who administers the protocol and who collects its fees.
#[derive(Debug, PartialEq, Eq, Clone)]
pub struct AuthDetails {
    pub protocol_admin: String,
    pub fee_collector: String,
}

/// The settings of the channel contract.
#[derive(Debug, PartialEq, Eq, Clone)]
pub struct ChannelConractConfig {
    pub channels_collection_id: String,
    pub channel_creation_fee: Vec<Coin>,
    pub accepted_tip_denoms: Vec<String>,
    pub auth_details: AuthDetails,
}

} // verus!
