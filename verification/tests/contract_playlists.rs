use omniflix_channel::asset_manager::error::{AssetError, PlaylistError};
use omniflix_channel::contract::{instantiate, ChannelContract, Response};
use omniflix_channel::error::ContractError;
use omniflix_channel::random::BlockEnv;
use omniflix_channel::string_validation::StringValidationError;
use omniflix_channel::types::asset::{AssetMetadata, AssetSource};
use omniflix_channel::types::channel::{ChannelCollaborator, Role};
use omniflix_channel::types::coin::{Coin, Decimal};
use omniflix_channel::types::msg::{
    ChannelTokenDetails, ChannelsCollectionDetails, InstantiateMsg, ReservedUsername,
};

const ADMIN: &str = "cosmwasm1admin";
const CREATOR: &str = "cosmwasm1creator";
const COLLECTOR: &str = "cosmwasm1collector";
const FOLLOWER: &str = "cosmwasm1follower";

fn coin(amount: u128, denom: &str) -> Coin {
    Coin { denom: denom.to_string(), amount }
}

fn env() -> BlockEnv {
    BlockEnv {
        block_time_nanos: 1_000,
        block_height: 1_000,
        tx_index: None,
        contract_address: "cosmwasm1contract".to_string(),
    }
}

fn instantiate_msg(admin: &str) -> InstantiateMsg {
    InstantiateMsg {
        channel_creation_fee: vec![],
        fee_collector: admin.to_string(),
        protocol_admin: admin.to_string(),
        accepted_tip_denoms: vec!["uflix".to_string()],
        channel_token_details: ChannelTokenDetails {
            media_uri: "https://example.com/media.png".to_string(),
            preview_uri: "https://example.com/preview.png".to_string(),
            description: "Channel token details".to_string(),
            uri_hash: "".to_string(),
            transferable: true,
            extensible: true,
            nsfw: false,
            royalty_share: "0".to_string(),
        },
        channels_collection_details: ChannelsCollectionDetails {
            collection_id: "Channels".to_string(),
            collection_name: "Channels".to_string(),
            collection_symbol: "CH".to_string(),
            description: "Channels collection".to_string(),
            preview_uri: "https://example.com/preview.png".to_string(),
            uri: "https://example.com/uri".to_string(),
            schema: "https://example.com/schema".to_string(),
            uri_hash: "".to_string(),
            data: "".to_string(),
        },
        reserved_usernames: vec![ReservedUsername { username: "reserved".to_string(), address: None }],
    }
}

fn start(msg: InstantiateMsg) -> ChannelContract {
    let checks: Vec<Result<(), String>> = msg.reserved_usernames.iter().map(|_| Ok(())).collect();
    let admin = msg.protocol_admin.clone();
    let collector = msg.fee_collector.clone();
    instantiate(
        vec![coin(1_000_000, "uflix")],
        env(),
        msg,
        Ok(admin),
        Ok(collector),
        Some(("uflix".to_string(), "1000000".to_string())),
        checks,
    )
    .unwrap()
    .0
}

fn start_with_fee() -> ChannelContract {
    let mut msg = instantiate_msg(ADMIN);
    msg.channel_creation_fee = vec![coin(1_000_000, "uflix")];
    start(msg)
}

fn create(
    c: &mut ChannelContract,
    sender: &str,
    user_name: &str,
    salt: &str,
    funds: Vec<Coin>,
) -> Result<Response, ContractError> {
    c.create_channel(
        false,
        sender.to_string(),
        funds,
        env(),
        salt.as_bytes().to_vec(),
        Some("Default description".to_string()),
        Ok(sender.to_string()),
        user_name.to_string(),
        user_name.to_string(),
        None,
        None,
    )
}

fn attribute(r: &Response, key: &str) -> String {
    r.attributes.iter().find(|(k, _)| k == key).unwrap().1.clone()
}

fn channel_id_of(c: &ChannelContract, user_name: &str) -> String {
    c.query_channel_id(user_name.to_string()).unwrap()
}

/// The ONFT owner a chain query reports for channel `channel_id`: its creator.
fn owner(_channel_id: &str, creator: &str) -> Option<String> {
    Some(creator.to_string())
}

const CREATOR2: &str = "cosmwasm1creator2";

fn env_at(nanos: u64) -> BlockEnv {
    BlockEnv { block_time_nanos: nanos, ..env() }
}

fn metadata(name: &str, description: &str, media_uri: &str) -> AssetMetadata {
    AssetMetadata {
        name: name.to_string(),
        description: description.to_string(),
        media_uri: media_uri.to_string(),
        thumbnail_uri: None,
    }
}

fn default_metadata() -> AssetMetadata {
    metadata("validassetname", "validassetdescription", "https://example.com/media.png")
}

fn off_chain() -> AssetSource {
    AssetSource::OffChain {
        media_uri: "https://example.com/media.png".to_string(),
        name: "validassetname".to_string(),
        description: "validassetdescription".to_string(),
    }
}

fn nft(collection_id: &str, onft_id: &str) -> AssetSource {
    AssetSource::Nft { collection_id: collection_id.to_string(), onft_id: onft_id.to_string() }
}

/// A contract with one channel, "username", created by the creator; its id.
fn with_channel(user_name: &str) -> (ChannelContract, String) {
    let mut c = start(instantiate_msg(ADMIN));
    create(&mut c, CREATOR, user_name, "salt", vec![]).unwrap();
    let id = channel_id_of(&c, user_name);
    (c, id)
}

#[allow(clippy::too_many_arguments)]
fn publish(
    c: &mut ChannelContract,
    sender: &str,
    at: BlockEnv,
    channel_id: &str,
    source: AssetSource,
    playlist: Option<&str>,
    is_visible: bool,
    meta: AssetMetadata,
    source_owner: Option<&str>,
) -> Result<Response, ContractError> {
    c.publish(
        false,
        sender.to_string(),
        at,
        source,
        b"salt".to_vec(),
        channel_id.to_string(),
        playlist.map(|p| p.to_string()),
        is_visible,
        meta,
        owner(channel_id, CREATOR),
        source_owner.map(|o| o.to_string()),
    )
}

fn add(c: &mut ChannelContract, sender: &str, asset_channel_id: &str, publish_id: &str, channel_id: &str, playlist: &str) -> Result<Response, ContractError> {
    c.add_asset_to_playlist(
        false,
        sender.to_string(),
        asset_channel_id.to_string(),
        publish_id.to_string(),
        channel_id.to_string(),
        playlist.to_string(),
        owner(channel_id, CREATOR),
    )
}

fn new_playlist(c: &mut ChannelContract, sender: &str, channel_id: &str, name: &str) -> Result<Response, ContractError> {
    c.create_playlist(false, sender.to_string(), channel_id.to_string(), name.to_string(), owner(channel_id, CREATOR))
}

#[test]
fn asset_not_visible() {
    let (mut c, id) = with_channel("creator");
    publish(&mut c, CREATOR, env(), &id, nft("id", "asset_id"), None, true, default_metadata(), Some(CREATOR)).unwrap();
    new_playlist(&mut c, CREATOR, &id, "My Playlist").unwrap();
    let err = add(&mut c, CREATOR, "id", "asset_id", &id, "My Playlist").unwrap_err();
    assert_eq!(err, ContractError::Asset(AssetError::AssetNotFound {}));
}

#[test]
fn hidden_asset_is_not_added() {
    let (mut c, id) = with_channel("creator");
    let r = publish(&mut c, CREATOR, env(), &id, off_chain(), None, false, default_metadata(), None).unwrap();
    let publish_id = attribute(&r, "publish_id");
    new_playlist(&mut c, CREATOR, &id, "My Playlist").unwrap();
    let err = add(&mut c, CREATOR, &id, &publish_id, &id, "My Playlist").unwrap_err();
    assert_eq!(err, ContractError::AssetNotVisible {});
}

#[test]
fn asset_from_diffirent_channel() {
    let mut c = start(instantiate_msg(ADMIN));
    create(&mut c, CREATOR, "creatorone", "salt", vec![]).unwrap();
    let one = channel_id_of(&c, "creatorone");
    c.create_channel(
        false,
        CREATOR2.to_string(),
        vec![],
        env_at(5_000_000),
        b"salt".to_vec(),
        Some("Creator 2 Description".to_string()),
        Ok(CREATOR2.to_string()),
        "creatortwo".to_string(),
        "Creator2".to_string(),
        None,
        None,
    )
    .unwrap();
    let two = channel_id_of(&c, "creatortwo");
    let r = publish(&mut c, CREATOR, env(), &one, nft("id", "asset_id"), None, true, default_metadata(), Some(CREATOR)).unwrap();
    let publish_id = attribute(&r, "publish_id");
    c.create_playlist(false, CREATOR2.to_string(), two.clone(), "Creator2 Playlist".to_string(), Some(CREATOR2.to_string())).unwrap();
    c.add_asset_to_playlist(
        false,
        CREATOR2.to_string(),
        one.clone(),
        publish_id.clone(),
        two.clone(),
        "Creator2 Playlist".to_string(),
        Some(CREATOR2.to_string()),
    )
    .unwrap();
    let playlist = c.query_playlist(two, "Creator2 Playlist".to_string()).unwrap();
    assert_eq!(playlist.assets.len(), 1);
    assert_eq!(playlist.assets[0].1, publish_id);
    assert_eq!(playlist.assets[0].0, one);
}

#[test]
fn asset_already_exists_in_playlist() {
    let (mut c, id) = with_channel("creator");
    let r = publish(&mut c, CREATOR, env(), &id, nft("id", "asset_id"), None, true, default_metadata(), Some(CREATOR)).unwrap();
    let publish_id = attribute(&r, "publish_id");
    new_playlist(&mut c, CREATOR, &id, "My Playlist").unwrap();
    add(&mut c, CREATOR, &id, &publish_id, &id, "My Playlist").unwrap();
    let err = add(&mut c, CREATOR, &id, &publish_id, &id, "My Playlist").unwrap_err();
    assert_eq!(err, ContractError::Playlist(PlaylistError::AssetAlreadyExistsInPlaylist {}));
}

#[test]
fn playlist_asset_limit_reached() {
    let (mut c, id) = with_channel("creator");
    new_playlist(&mut c, CREATOR, &id, "My Playlist").unwrap();
    for i in 0..101u64 {
        let r = publish(&mut c, CREATOR, env_at(1_001 + i), &id, off_chain(), None, true, default_metadata(), None).unwrap();
        let publish_id = attribute(&r, "publish_id");
        if i < 100 {
            add(&mut c, CREATOR, &id, &publish_id, &id, "My Playlist").unwrap();
        } else {
            let err = add(&mut c, CREATOR, &id, &publish_id, &id, "My Playlist").unwrap_err();
            assert_eq!(err, ContractError::Playlist(PlaylistError::PlaylistAssetLimitReached {}));
        }
    }
    assert_eq!(c.query_playlist(id, "My Playlist".to_string()).unwrap().assets.len(), 100);
}

#[test]
fn already_exists() {
    let (mut c, id) = with_channel("creator");
    new_playlist(&mut c, CREATOR, &id, "My Videos").unwrap();
    let playlists = c.query_playlists(id.clone(), None, None).unwrap();
    assert_eq!(playlists.len(), 1);
    assert_eq!(playlists[0].playlist_name, "My Videos");
    let err = new_playlist(&mut c, CREATOR, &id, "My Videos").unwrap_err();
    assert_eq!(err, ContractError::Playlist(PlaylistError::PlaylistAlreadyExists {}));
}

#[test]
fn invalid_playlist_name() {
    let (mut c, id) = with_channel("creator");
    let err = new_playlist(&mut c, CREATOR, &id, "My_Videos").unwrap_err();
    assert_eq!(
        err,
        ContractError::StringValidationError(StringValidationError::SpecialCharsNotAllowed { sent: "My_Videos".to_string() })
    );
}

#[test]
fn create_not_owned() {
    let (mut c, id) = with_channel("creator");
    let err = new_playlist(&mut c, COLLECTOR, &id, "My Playlist").unwrap_err();
    assert_eq!(err, ContractError::Unauthorized {});
}

#[test]
fn playlist_create_happy_path() {
    let (mut c, id) = with_channel("creator");
    new_playlist(&mut c, CREATOR, &id, "My Videos").unwrap();
    let playlists = c.query_playlists(id, None, None).unwrap();
    assert_eq!(playlists.len(), 1);
    assert_eq!(playlists[0].playlist_name, "My Videos");
}

#[test]
fn try_creating_same_playlist() {
    let (mut c, id) = with_channel("creator");
    new_playlist(&mut c, CREATOR, &id, "My Videos").unwrap();
    let playlists = c.query_playlists(id.clone(), None, None).unwrap();
    assert_eq!(playlists.len(), 1);
    assert_eq!(playlists[0].playlist_name, "My Videos");
    let err = new_playlist(&mut c, CREATOR, &id, "My Videos").unwrap_err();
    assert_eq!(err, ContractError::Playlist(PlaylistError::PlaylistAlreadyExists {}));
}

#[test]
fn empty_playlist() {
    let (mut c, id) = with_channel("username");
    new_playlist(&mut c, CREATOR, &id, "My Playlist").unwrap();
    assert_eq!(c.query_playlist(id.clone(), "My Playlist".to_string()).unwrap().assets.len(), 0);
    c.refresh_playlist(false, CREATOR.to_string(), id.clone(), "My Playlist".to_string(), owner(&id, CREATOR)).unwrap();
    assert_eq!(c.query_playlist(id, "My Playlist".to_string()).unwrap().assets.len(), 0);
}

#[test]
fn playlist_with_assets() {
    let (mut c, id) = with_channel("username");
    let r = publish(&mut c, CREATOR, env(), &id, off_chain(), None, true, default_metadata(), None).unwrap();
    let p1 = attribute(&r, "publish_id");
    let r = publish(&mut c, CREATOR, env_at(1_001), &id, off_chain(), None, true, default_metadata(), None).unwrap();
    let p2 = attribute(&r, "publish_id");
    new_playlist(&mut c, CREATOR, &id, "My Playlist").unwrap();
    add(&mut c, CREATOR, &id, &p1, &id, "My Playlist").unwrap();
    add(&mut c, CREATOR, &id, &p2, &id, "My Playlist").unwrap();
    let playlist = c.query_playlist(id.clone(), "My Playlist".to_string()).unwrap();
    assert_eq!(playlist.assets, vec![(id.clone(), p1.clone()), (id.clone(), p2.clone())]);
    c.refresh_playlist(false, CREATOR.to_string(), id.clone(), "My Playlist".to_string(), owner(&id, CREATOR)).unwrap();
    let playlist = c.query_playlist(id.clone(), "My Playlist".to_string()).unwrap();
    assert_eq!(playlist.assets, vec![(id.clone(), p1), (id, p2)]);
}

#[test]
fn playlist_with_assets_and_removed_assets() {
    let (mut c, id) = with_channel("username");
    let r = publish(&mut c, CREATOR, env(), &id, off_chain(), None, true, default_metadata(), None).unwrap();
    let p1 = attribute(&r, "publish_id");
    let r = publish(&mut c, CREATOR, env_at(1_001), &id, off_chain(), None, true, default_metadata(), None).unwrap();
    let p2 = attribute(&r, "publish_id");
    new_playlist(&mut c, CREATOR, &id, "My Playlist").unwrap();
    add(&mut c, CREATOR, &id, &p1, &id, "My Playlist").unwrap();
    add(&mut c, CREATOR, &id, &p2, &id, "My Playlist").unwrap();
    assert_eq!(c.query_playlist(id.clone(), "My Playlist".to_string()).unwrap().assets.len(), 2);
    c.unpublish(false, CREATOR.to_string(), p1, id.clone(), owner(&id, CREATOR)).unwrap();
    c.refresh_playlist(false, CREATOR.to_string(), id.clone(), "My Playlist".to_string(), owner(&id, CREATOR)).unwrap();
    let playlist = c.query_playlist(id.clone(), "My Playlist".to_string()).unwrap();
    assert_eq!(playlist.assets, vec![(id, p2)]);
}

#[test]
fn refresh_playlist_not_owned() {
    let (mut c, id) = with_channel("username");
    new_playlist(&mut c, CREATOR, &id, "My Playlist").unwrap();
    let err = c.refresh_playlist(false, CREATOR2.to_string(), id.clone(), "My Playlist".to_string(), owner(&id, CREATOR)).unwrap_err();
    assert_eq!(err, ContractError::Unauthorized {});
}

#[test]
fn asset_not_in_playlist() {
    let (mut c, id) = with_channel("username");
    new_playlist(&mut c, CREATOR, &id, "My Playlist").unwrap();
    let playlists = c.query_playlists(id.clone(), None, None).unwrap();
    assert_eq!(playlists.len(), 1);
    assert_eq!(playlists[0].playlist_name, "My Playlist");
    let err = c
        .remove_asset_from_playlist(false, CREATOR.to_string(), "publish_id".to_string(), id.clone(), "My Playlist".to_string(), owner(&id, CREATOR))
        .unwrap_err();
    assert_eq!(err, ContractError::Playlist(PlaylistError::AssetNotInPlaylist {}));
}

#[test]
fn remove_asset_from_playlist_playlist_does_not_exist() {
    let (mut c, id) = with_channel("username");
    let err = c
        .remove_asset_from_playlist(false, CREATOR.to_string(), "publish_id".to_string(), id.clone(), "My Playlist".to_string(), owner(&id, CREATOR))
        .unwrap_err();
    assert_eq!(err, ContractError::Playlist(PlaylistError::PlaylistNotFound {}));
    new_playlist(&mut c, CREATOR, &id, "My Playlist").unwrap();
    let playlists = c.query_playlists(id.clone(), None, None).unwrap();
    assert_eq!(playlists.len(), 1);
    assert_eq!(playlists[0].playlist_name, "My Playlist");
    assert_eq!(playlists[0].assets.len(), 0);
    let err = c
        .remove_asset_from_playlist(false, CREATOR.to_string(), "publish_id".to_string(), id.clone(), "My Playlist".to_string(), owner(&id, CREATOR))
        .unwrap_err();
    assert_eq!(err, ContractError::Playlist(PlaylistError::AssetNotInPlaylist {}));
}

#[test]
fn add_then_remove_restores_playlist() {
    let (mut c, id) = with_channel("username");
    let r = publish(&mut c, CREATOR, env(), &id, off_chain(), None, true, default_metadata(), None).unwrap();
    let p1 = attribute(&r, "publish_id");
    new_playlist(&mut c, CREATOR, &id, "My Playlist").unwrap();
    add(&mut c, CREATOR, &id, &p1, &id, "My Playlist").unwrap();
    c.remove_asset_from_playlist(false, CREATOR.to_string(), p1, id.clone(), "My Playlist".to_string(), owner(&id, CREATOR)).unwrap();
    assert!(c.query_playlist(id, "My Playlist".to_string()).unwrap().assets.is_empty());
}

#[test]
fn delete_playlist_then_missing() {
    let (mut c, id) = with_channel("username");
    new_playlist(&mut c, CREATOR, &id, "My Playlist").unwrap();
    c.delete_playlist(false, CREATOR.to_string(), id.clone(), "My Playlist".to_string(), owner(&id, CREATOR)).unwrap();
    assert_eq!(c.query_playlist(id.clone(), "My Playlist".to_string()).unwrap_err(), ContractError::Playlist(PlaylistError::PlaylistNotFound {}));
    let err = c.delete_playlist(false, CREATOR.to_string(), id.clone(), "My Playlist".to_string(), owner(&id, CREATOR)).unwrap_err();
    assert_eq!(err, ContractError::Playlist(PlaylistError::PlaylistNotFound {}));
}
