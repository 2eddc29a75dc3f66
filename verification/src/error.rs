use vstd::prelude::*;

use crate::asset_manager::error::{AssetError, PlaylistError};
use crate::bank::PaymentError;
use crate::channel_manager::error::ChannelError;
use crate::string_validation::StringValidationError;
use crate::types::coin::Coin;

verus! {

/// Errors that the contract's operations report.
#[derive(Debug, PartialEq, Eq)]
pub enum ContractError {
    /// A failure reported by the host (address validation, storage).
    Std(String),
    /// The contract is paused.
    Paused {},
    Channel(ChannelError),
    Playlist(PlaylistError),
    Asset(AssetError),
    Payment(PaymentError),
    StringValidationError(StringValidationError),
    Unauthorized {},
    InvalidMinterCodeId {},
    InvalidMintDenom {},
    MintDenomNotAllowed {},
    MissingCreationFee {},
    MissingMinterCreationFee {},
    PaymentError { expected: Vec<Coin>, received: Vec<Coin> },
    InvalidOnftData {},
    AssetNotFound {},
    OnftNotFound { collection_id: String, onft_id: String },
    OnftNotOwned { collection_id: String, onft_id: String },
    CollectionCreationFeeError {},
    UserNameAlreadyTaken {},
    UserNameNotFound {},
    InvalidChannelQuery {},
    AssetNotVisible {},
    InvalidUserName {},
    InvalidDescription {},
    UserNameReserved {},
    InvalidLink {},
    InvalidChannelName {},
    InvalidTipDenom {},
    InvalidTipAmount {},
}

} // verus!
