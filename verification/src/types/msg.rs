use vstd::prelude::*;

use crate::types::asset::{Asset, AssetMetadata, Flag};
use crate::types::coin::{Coin, Decimal};

verus! {

/// How the collection of channel ONFTs is described.
#[derive(Debug, PartialEq, Eq, Clone)]
pub struct ChannelsCollectionDetails {
    pub collection_id: String,
    pub collection_name: String,
    pub collection_symbol: String,
    pub description: String,
    pub preview_uri: String,
    pub schema: String,
    pub uri: String,
    pub uri_hash: String,
    pub data: String,
}

impl ChannelsCollectionDetails {
    /// A copy of these details.
    pub fn duplicate(&self) -> (r: ChannelsCollectionDetails)
        ensures
            r == *self,
    {
        ChannelsCollectionDetails {
            collection_id: self.collection_id.clone(),
            collection_name: self.collection_name.clone(),
            collection_symbol: self.collection_symbol.clone(),
            description: self.description.clone(),
            preview_uri: self.preview_uri.clone(),
            schema: self.schema.clone(),
            uri: self.uri.clone(),
            uri_hash: self.uri_hash.clone(),
            data: self.data.clone(),
        }
    }
}

/// How each channel ONFT is described.
#[derive(Debug, PartialEq, Eq, Clone)]
pub struct ChannelTokenDetails {
    pub description: String,
    pub media_uri: String,
    pub preview_uri: String,
    pub uri_hash: String,
    pub transferable: bool,
    pub extensible: bool,
    pub nsfw: bool,
    pub royalty_share: String,
}

impl ChannelTokenDetails {
    /// A copy of these details.
    pub fn duplicate(&self) -> (r: ChannelTokenDetails)
        ensures
            r == *self,
    {
        ChannelTokenDetails {
            description: self.description.clone(),
            media_uri: self.media_uri.clone(),
            preview_uri: self.preview_uri.clone(),
            uri_hash: self.uri_hash.clone(),
            transferable: self.transferable,
            extensible: self.extensible,
            nsfw: self.nsfw,
            royalty_share: self.royalty_share.clone(),
        }
    }
}

/// A username kept back from channel creation, for an address or for nobody.
#[derive(Debug, PartialEq, Eq, Clone)]
pub struct ReservedUsername {
    pub username: String,
    pub address: Option<String>,
}

impl ReservedUsername {
    /// A copy of this reservation.
    pub fn duplicate(&self) -> (r: ReservedUsername)
        ensures
            r == *self,
    {
        ReservedUsername {
            username: self.username.clone(),
            address: crate::types::channel::copy_opt_string(&self.address),
        }
    }
}

/// The settings the contract starts with.
#[derive(Debug, PartialEq, Eq, Clone)]
pub struct InstantiateMsg {
    pub protocol_admin: String,
    pub fee_collector: String,
    pub channels_collection_details: ChannelsCollectionDetails,
    pub channel_token_details: ChannelTokenDetails,
    pub channel_creation_fee: Vec<Coin>,
    pub accepted_tip_denoms: Vec<String>,
    pub reserved_usernames: Vec<ReservedUsername>,
}

/// How many times an asset was flagged with one kind of flag.
#[derive(Debug, PartialEq, Eq, Clone)]
pub struct FlagInfo {
    pub flag: Flag,
    pub count: u64,
}

impl FlagInfo {
    /// A copy of this record.
    pub fn duplicate(&self) -> (r: FlagInfo)
        ensures
            r == *self,
    {
        FlagInfo { flag: self.flag.duplicate(), count: self.count }
    }
}

/// An asset with its flags and details.
#[derive(Debug, PartialEq, Eq, Clone)]
pub struct AssetResponse {
    pub asset: Asset,
    pub flags: Vec<FlagInfo>,
    pub metadata: AssetMetadata,
}

/// A collaborator of a channel, as queries report it.
#[derive(Debug, PartialEq, Eq, Clone)]
pub struct CollaboratorInfo {
    pub address: String,
    pub role: String,
    pub share: Decimal,
}

/// A channel, as queries report it.
#[derive(Debug, PartialEq, Eq, Clone)]
pub struct ChannelResponse {
    pub channel_id: String,
    pub user_name: String,
    pub onft_id: String,
    pub payment_address: String,
    pub channel_name: String,
    pub description: Option<String>,
    pub profile_picture: Option<String>,
    pub banner_picture: Option<String>,
    pub collaborators: Vec<CollaboratorInfo>,
    pub follower_count: u64,
}

} // verus!
