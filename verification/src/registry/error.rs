use vstd::prelude::*;

use crate::types::coin::Coin;

verus! {

/// Errors of the channel registry contract.
#[derive(Debug, PartialEq, Eq, Clone)]
pub enum ContractError {
    /// A failure that carries only a message.
    GenericErr { msg: String },
    /// The contract is paused.
    Paused {},
    Unauthorized {},
    InvalidMinterCodeId {},
    InvalidMintDenom {},
    MintDenomNotAllowed {},
    MissingCreationFee {},
    MissingMinterCreationFee {},
    MultiMinterNotEnabled {},
    ChannelAlreadyExists {},
    ChannelNotFound {},
    PaymentError { expected: Vec<Coin>, received: Vec<Coin> },
    InvalidOnftData {},
    AssetNotFound {},
    ChannelOnftNotFound {},
    OnftQueryFailed {},
    OnftNotFound {},
    OnftNotOwned {},
    PaymentMismatch {},
    CollectionCreationFeeError {},
    PlaylistAlreadyExists {},
    PlaylistNotFound {},
    AssetAlreadyExistsInPlaylist {},
    AssetNotInPlaylist {},
    CannotDeleteDefaultPlaylist {},
    InvalidUserName {},
    InvalidDescription {},
    ChannelIdAlreadyExists {},
    UserNameAlreadyTaken {},
    ChannelIdNotFound {},
    UserNameNotFound {},
}

/// `r` is the failure with message `m`.
pub open spec fn generic_err<T>(r: Result<T, ContractError>, m: Seq<char>) -> bool {
    r matches Err(ContractError::GenericErr { msg }) && msg@ == m
}

} // verus!
