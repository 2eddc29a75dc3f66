use vstd::prelude::*;

use crate::asset_manager::error::AssetError;
use crate::text::utf8_len;

verus! {

/// Where the media of a playlist entry lives.
#[derive(Debug, PartialEq, Eq, Clone)]
pub enum AssetType {
    Nft { collection_id: String, onft_id: String },
    OffChain { media_uri: String, name: String, description: String },
}

/// What `AssetType::validate` answers for `t`.
pub open spec fn asset_type_check(t: AssetType) -> Result<(), AssetError> {
    match t {
        AssetType::Nft { collection_id, onft_id } => {
            if collection_id@.len() == 0 {
                Err(AssetError::CollectionIdCannotBeEmpty {})
            } else if onft_id@.len() == 0 {
                Err(AssetError::OnftIdCannotBeEmpty {})
            } else {
                Ok(())
            }
        },
        AssetType::OffChain { media_uri, name, description } => {
            if media_uri@.len() == 0 {
                Err(AssetError::MediaUriCannotBeEmpty {})
            } else if (utf8_len(media_uri@) as usize) > 255 {
                Err(AssetError::MediaUriTooLong {})
            } else if description@.len() == 0 {
                Err(AssetError::DescriptionCannotBeEmpty {})
            } else {
                Ok(())
            }
        },
    }
}

impl AssetType {
    /// Checks that the identifying fields are present and the media link is at
    /// most 255 bytes long; an empty name is allowed.
    pub fn validate(&self) -> (r: Result<(), AssetError>)
        ensures
            r == asset_type_check(*self),
    {
        match self {
            AssetType::Nft { collection_id, onft_id } => {
                if collection_id.as_str().is_empty() {
                    return Err(AssetError::CollectionIdCannotBeEmpty {});
                }
                if onft_id.as_str().is_empty() {
                    return Err(AssetError::OnftIdCannotBeEmpty {});
                }
            },
            AssetType::OffChain { media_uri, name: _, description } => {
                if media_uri.as_str().is_empty() {
                    return Err(AssetError::MediaUriCannotBeEmpty {});
                }
                if media_uri.as_str().len() > 255 {
                    return Err(AssetError::MediaUriTooLong {});
                }
                if description.as_str().is_empty() {
                    return Err(AssetError::DescriptionCannotBeEmpty {});
                }
            },
        }
        Ok(())
    }
}

/// The text of an asset type.
pub open spec fn asset_type_text(t: AssetType) -> Seq<char> {
    match t {
        AssetType::Nft { collection_id, onft_id } => "NFT: "@ + collection_id@ + " "@ + onft_id@,
        AssetType::OffChain { media_uri, name, description } => "OffChain: "@ + media_uri@ + " "@ + name@ + " "@
            + description@,
    }
}

impl AssetType {
    /// The text of this asset type.
    pub fn to_text(&self) -> (r: String)
        ensures
            r@ == asset_type_text(*self),
    {
        let mut s = String::new();
        match self {
            AssetType::Nft { collection_id, onft_id } => {
                s.append("NFT: ");
                s.append(collection_id.as_str());
                s.append(" ");
                s.append(onft_id.as_str());
            },
            AssetType::OffChain { media_uri, name, description } => {
                s.append("OffChain: ");
                s.append(media_uri.as_str());
                s.append(" ");
                s.append(name.as_str());
                s.append(" ");
                s.append(description.as_str());
            },
        }
        assert(s@ =~= asset_type_text(*self));
        s
    }
}

/// An entry of a channel's playlist.
#[derive(Debug, PartialEq, Eq, Clone)]
pub struct Asset {
    pub channel_id: String,
    pub publish_id: String,
    pub asset_type: AssetType,
    pub is_visible: bool,
}

/// A named list of playlist entries.
#[derive(Debug, PartialEq, Eq, Clone)]
pub struct Playlist {
    pub playlist_name: String,
    pub assets: Vec<Asset>,
}

} // verus!
