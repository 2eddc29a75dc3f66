use vstd::prelude::*;

verus! {

/// Errors of playlist bookkeeping.
#[derive(Debug, PartialEq, Eq, Clone, Copy)]
pub enum PlaylistError {
    PlaylistNotFound {},
    PlaylistAlreadyExists {},
    AssetAlreadyExistsInPlaylist {},
    AssetNotInPlaylist {},
    SavePlaylistError {},
    PlaylistAssetLimitReached {},
}

/// Errors of asset bookkeeping.
#[derive(Debug, PartialEq, Eq, Clone, Copy)]
pub enum AssetError {
    AssetNotFound {},
    AssetAlreadyExists {},
    SaveAssetError {},
    IpfsLinkCannotBeEmpty {},
    NameCannotBeEmpty {},
    NameTooLong {},
    DescriptionCannotBeEmpty {},
    DescriptionTooLong {},
    IpfsLinkTooLong {},
    CollectionIdCannotBeEmpty {},
    OnftIdCannotBeEmpty {},
    MediaUriCannotBeEmpty {},
    MediaUriTooLong {},
}

} // verus!
