use omniflix_channel::asset_manager::error::{AssetError, PlaylistError};
use omniflix_channel::contract::{instantiate, ChannelContract, Response};
use omniflix_channel::error::ContractError;
use omniflix_channel::random::BlockEnv;
use omniflix_channel::string_validation::StringValidationError;
use omniflix_channel::types::asset::{AssetMetadata, AssetSource, Flag};
use omniflix_channel::types::channel::{ChannelCollaborator, Role};
use omniflix_channel::types::coin::{Coin, Decimal};
use omniflix_channel::types::msg::{
    ChannelTokenDetails, ChannelsCollectionDetails, InstantiateMsg, ReservedUsername,
};

const ADMIN: &str = "cosmwasm1admin";
const CREATOR: &str = "cosmwasm1creator";
const COLLECTOR: &str = "cosmwasm1collector";
const FOLLOWER: &str = "cosmwasm1follower";

fn coin(amount: u128, denom: &str) -> Coin {
    Coin { denom: denom.to_string(), amount }
}

fn env() -> BlockEnv {
    BlockEnv {
        block_time_nanos: 1_000,
        block_height: 1_000,
        tx_index: None,
        contract_address: "cosmwasm1contract".to_string(),
    }
}

fn instantiate_msg(admin: &str) -> InstantiateMsg {
    InstantiateMsg {
        channel_creation_fee: vec![],
        fee_collector: admin.to_string(),
        protocol_admin: admin.to_string(),
        accepted_tip_denoms: vec!["uflix".to_string()],
        channel_token_details: ChannelTokenDetails {
            media_uri: "https://example.com/media.png".to_string(),
            preview_uri: "https://example.com/preview.png".to_string(),
            description: "Channel token details".to_string(),
            uri_hash: "".to_string(),
            transferable: true,
            extensible: true,
            nsfw: false,
            royalty_share: "0".to_string(),
        },
        channels_collection_details: ChannelsCollectionDetails {
            collection_id: "Channels".to_string(),
            collection_name: "Channels".to_string(),
            collection_symbol: "CH".to_string(),
            description: "Channels collection".to_string(),
            preview_uri: "https://example.com/preview.png".to_string(),
            uri: "https://example.com/uri".to_string(),
            schema: "https://example.com/schema".to_string(),
            uri_hash: "".to_string(),
            data: "".to_string(),
        },
        reserved_usernames: vec![ReservedUsername { username: "reserved".to_string(), address: None }],
    }
}

fn start(msg: InstantiateMsg) -> ChannelContract {
    let checks: Vec<Result<(), String>> = msg.reserved_usernames.iter().map(|_| Ok(())).collect();
    let admin = msg.protocol_admin.clone();
    let collector = msg.fee_collector.clone();
    instantiate(
        vec![coin(1_000_000, "uflix")],
        env(),
        msg,
        Ok(admin),
        Ok(collector),
        Some(("uflix".to_string(), "1000000".to_string())),
        checks,
    )
    .unwrap()
    .0
}

fn start_with_fee() -> ChannelContract {
    let mut msg = instantiate_msg(ADMIN);
    msg.channel_creation_fee = vec![coin(1_000_000, "uflix")];
    start(msg)
}

fn create(
    c: &mut ChannelContract,
    sender: &str,
    user_name: &str,
    salt: &str,
    funds: Vec<Coin>,
) -> Result<Response, ContractError> {
    c.create_channel(
        false,
        sender.to_string(),
        funds,
        env(),
        salt.as_bytes().to_vec(),
        Some("Default description".to_string()),
        Ok(sender.to_string()),
        user_name.to_string(),
        user_name.to_string(),
        None,
        None,
    )
}

fn attribute(r: &Response, key: &str) -> String {
    r.attributes.iter().find(|(k, _)| k == key).unwrap().1.clone()
}

fn channel_id_of(c: &ChannelContract, user_name: &str) -> String {
    c.query_channel_id(user_name.to_string()).unwrap()
}

/// The ONFT owner a chain query reports for channel `channel_id`: its creator.
fn owner(_channel_id: &str, creator: &str) -> Option<String> {
    Some(creator.to_string())
}

const CREATOR2: &str = "cosmwasm1creator2";

fn env_at(nanos: u64) -> BlockEnv {
    BlockEnv { block_time_nanos: nanos, ..env() }
}

fn metadata(name: &str, description: &str, media_uri: &str) -> AssetMetadata {
    AssetMetadata {
        name: name.to_string(),
        description: description.to_string(),
        media_uri: media_uri.to_string(),
        thumbnail_uri: None,
    }
}

fn default_metadata() -> AssetMetadata {
    metadata("validassetname", "validassetdescription", "https://example.com/media.png")
}

fn off_chain() -> AssetSource {
    AssetSource::OffChain {
        media_uri: "https://example.com/media.png".to_string(),
        name: "validassetname".to_string(),
        description: "validassetdescription".to_string(),
    }
}

fn nft(collection_id: &str, onft_id: &str) -> AssetSource {
    AssetSource::Nft { collection_id: collection_id.to_string(), onft_id: onft_id.to_string() }
}

/// A contract with one channel, "username", created by the creator; its id.
fn with_channel(user_name: &str) -> (ChannelContract, String) {
    let mut c = start(instantiate_msg(ADMIN));
    create(&mut c, CREATOR, user_name, "salt", vec![]).unwrap();
    let id = channel_id_of(&c, user_name);
    (c, id)
}

#[allow(clippy::too_many_arguments)]
fn publish(
    c: &mut ChannelContract,
    sender: &str,
    at: BlockEnv,
    channel_id: &str,
    source: AssetSource,
    playlist: Option<&str>,
    is_visible: bool,
    meta: AssetMetadata,
    source_owner: Option<&str>,
) -> Result<Response, ContractError> {
    c.publish(
        false,
        sender.to_string(),
        at,
        source,
        b"salt".to_vec(),
        channel_id.to_string(),
        playlist.map(|p| p.to_string()),
        is_visible,
        meta,
        owner(channel_id, CREATOR),
        source_owner.map(|o| o.to_string()),
    )
}

#[test]
fn publish_asset_does_not_exist() {
    let (mut c, id) = with_channel("username");
    let err = publish(&mut c, CREATOR, env(), &id, nft("id", "asset_id"), None, true, default_metadata(), None).unwrap_err();
    assert_eq!(err, ContractError::OnftNotFound { collection_id: "id".to_string(), onft_id: "asset_id".to_string() });
}

#[test]
fn publish_channel_not_owned() {
    let (mut c, id) = with_channel("username");
    let err = publish(&mut c, COLLECTOR, env(), &id, nft("id", "asset_id"), None, true, default_metadata(), Some(COLLECTOR)).unwrap_err();
    assert_eq!(err, ContractError::Unauthorized {});
}

#[test]
fn publish_playlist_does_not_exist() {
    let (mut c, id) = with_channel("username");
    let err = publish(&mut c, CREATOR, env(), &id, nft("id", "asset_id"), Some("Wrong playlist"), true, default_metadata(), Some(CREATOR))
        .unwrap_err();
    assert_eq!(err, ContractError::Playlist(PlaylistError::PlaylistNotFound {}));
    assert!(c.query_assets(id, None, None).unwrap().is_empty());
}

#[test]
fn with_playlist() {
    let (mut c, id) = with_channel("username");
    c.create_playlist(false, CREATOR.to_string(), id.clone(), "My Videos".to_string(), owner(&id, CREATOR)).unwrap();
    let r = publish(&mut c, CREATOR, env(), &id, nft("id", "asset_id"), Some("My Videos"), true, default_metadata(), Some(CREATOR)).unwrap();
    let publish_id = attribute(&r, "publish_id");
    assert_eq!(attribute(&r, "playlist_name"), "My Videos");
    let playlist = c.query_playlist(id.clone(), "My Videos".to_string()).unwrap();
    assert_eq!(playlist.assets.len(), 1);
    assert_eq!(playlist.assets[0].1, publish_id);
    assert_eq!(playlist.assets[0].0, id);
}

#[test]
fn asset_not_owned() {
    let (mut c, id) = with_channel("username");
    let err = publish(&mut c, CREATOR, env(), &id, nft("id", "asset_id"), None, true, default_metadata(), Some(COLLECTOR)).unwrap_err();
    assert_eq!(err, ContractError::OnftNotOwned { collection_id: "id".to_string(), onft_id: "asset_id".to_string() });
}

#[test]
fn publish_off_chain_asset() {
    let (mut c, id) = with_channel("username");
    let meta = metadata("name", "description", "https://omniflix.network/");
    let r = publish(&mut c, CREATOR, env(), &id, off_chain(), None, true, meta.clone(), None).unwrap();
    let publish_id = attribute(&r, "publish_id");
    let asset = c.query_asset(id, publish_id.clone()).unwrap();
    assert_eq!(asset.asset.publish_id, publish_id);
    assert_eq!(asset.asset.asset_source, off_chain());
    assert_eq!(asset.metadata, meta);
    assert_eq!(attribute(&r, "asset_source"), off_chain().to_text());
}

#[test]
fn publish_happy_path() {
    let (mut c, id) = with_channel("username");
    let r = publish(&mut c, CREATOR, env(), &id, nft("id", "asset_id"), None, true, default_metadata(), Some(CREATOR)).unwrap();
    let publish_id = attribute(&r, "publish_id");
    assert!(publish_id.starts_with("publish"));
    let asset = c.query_asset(id, publish_id.clone()).unwrap();
    assert_eq!(asset.asset.publish_id, publish_id);
    assert_eq!(asset.asset.asset_source, nft("id", "asset_id"));
    assert!(asset.flags.is_empty());
}

#[test]
fn publish_invalid_metadata_changes_nothing() {
    let (mut c, id) = with_channel("username");
    let err = publish(&mut c, CREATOR, env(), &id, off_chain(), None, true, metadata("validassetname", "d", "https://example.com/media.png"), None)
        .unwrap_err();
    assert_eq!(
        err,
        ContractError::StringValidationError(StringValidationError::InvalidLength { sent: "d".to_string(), min_length: 3, max_length: 256 })
    );
    assert!(c.query_assets(id, None, None).unwrap().is_empty());
}

#[test]
fn unpublish_channel_not_owned() {
    let (mut c, id) = with_channel("username");
    let r = publish(&mut c, CREATOR, env(), &id, nft("id", "asset_id"), None, true, default_metadata(), Some(CREATOR)).unwrap();
    let publish_id = attribute(&r, "publish_id");
    let err = c.unpublish(false, COLLECTOR.to_string(), publish_id.clone(), id.clone(), owner(&id, CREATOR)).unwrap_err();
    assert_eq!(err, ContractError::Unauthorized {});
    assert!(c.query_asset(id, publish_id).is_ok());
}

#[test]
fn asset_not_pubished() {
    let (mut c, id) = with_channel("username");
    let err = c.unpublish(false, CREATOR.to_string(), "publish_id".to_string(), id.clone(), owner(&id, CREATOR)).unwrap_err();
    assert_eq!(err, ContractError::Asset(AssetError::AssetNotFound {}));
}

#[test]
fn unpublish_happy_path() {
    let (mut c, id) = with_channel("username");
    let r = publish(&mut c, CREATOR, env(), &id, nft("id", "asset_id"), None, true, default_metadata(), Some(CREATOR)).unwrap();
    let publish_id = attribute(&r, "publish_id");
    let assets = c.query_assets(id.clone(), None, None).unwrap();
    assert_eq!(assets[0].publish_id, publish_id);
    c.unpublish(false, CREATOR.to_string(), publish_id.clone(), id.clone(), owner(&id, CREATOR)).unwrap();
    assert_eq!(c.query_assets(id.clone(), None, None).unwrap().len(), 0);
    assert_eq!(c.query_asset(id, publish_id).unwrap_err(), ContractError::Asset(AssetError::AssetNotFound {}));
}

#[test]
fn update_details_asset_does_not_exist() {
    let (mut c, id) = with_channel("username");
    let err = c
        .update_asset_details(
            false,
            CREATOR.to_string(),
            "non_existent_publish_id".to_string(),
            id.clone(),
            Some(false),
            Some("Updated Name".to_string()),
            Some("Updated Description".to_string()),
            Some("https://updated-media-uri.com".to_string()),
            None,
            owner(&id, CREATOR),
        )
        .unwrap_err();
    assert_eq!(err, ContractError::Asset(AssetError::AssetNotFound {}));
}

#[test]
fn update_details_channel_not_owned() {
    let (mut c, id) = with_channel("username");
    let r = publish(&mut c, CREATOR, env(), &id, off_chain(), None, true, default_metadata(), None).unwrap();
    let publish_id = attribute(&r, "publish_id");
    let err = c
        .update_asset_details(
            false,
            "cosmwasm1other".to_string(),
            publish_id,
            id.clone(),
            Some(false),
            Some("Updated Name".to_string()),
            Some("Updated Description".to_string()),
            Some("https://updated-media-uri.com".to_string()),
            None,
            owner(&id, CREATOR),
        )
        .unwrap_err();
    assert_eq!(err, ContractError::Unauthorized {});
}

#[test]
fn partial_update() {
    let (mut c, id) = with_channel("username");
    let meta = metadata("Original Asset Name", "Original Asset Description", "https://original-media-uri.com");
    let r = publish(&mut c, CREATOR, env(), &id, off_chain(), None, true, meta, None).unwrap();
    let publish_id = attribute(&r, "publish_id");
    c.update_asset_details(
        false,
        CREATOR.to_string(),
        publish_id.clone(),
        id.clone(),
        None,
        Some("Updated Asset Name".to_string()),
        None,
        None,
        None,
        owner(&id, CREATOR),
    )
    .unwrap();
    let a = c.query_asset(id, publish_id).unwrap();
    assert_eq!(a.metadata.name, "Updated Asset Name");
    assert_eq!(a.metadata.description, "Original Asset Description");
    assert_eq!(a.metadata.media_uri, "https://original-media-uri.com");
    assert!(a.asset.is_visible);
}

#[test]
fn full_update() {
    let (mut c, id) = with_channel("username");
    let mut meta = metadata("Original Asset Name", "Original Asset Description", "https://original-media-uri.com");
    meta.thumbnail_uri = Some("https://original-thumbnail-uri.com".to_string());
    let r = publish(&mut c, CREATOR, env(), &id, off_chain(), None, true, meta, None).unwrap();
    let publish_id = attribute(&r, "publish_id");
    c.update_asset_details(
        false,
        CREATOR.to_string(),
        publish_id.clone(),
        id.clone(),
        Some(false),
        Some("Completely Updated Name".to_string()),
        Some("Completely Updated Description".to_string()),
        Some("https://completely-updated-media-uri.com".to_string()),
        Some("https://completely-updated-thumbnail-uri.com".to_string()),
        owner(&id, CREATOR),
    )
    .unwrap();
    let a = c.query_asset(id, publish_id).unwrap();
    assert_eq!(a.metadata.name, "Completely Updated Name");
    assert_eq!(a.metadata.description, "Completely Updated Description");
    assert_eq!(a.metadata.media_uri, "https://completely-updated-media-uri.com");
    assert_eq!(a.metadata.thumbnail_uri, Some("https://completely-updated-thumbnail-uri.com".to_string()));
    assert!(!a.asset.is_visible);
}

#[test]
fn collaborator_update() {
    let (mut c, id) = with_channel("username");
    let collaborator = "cosmwasm1collaborator";
    c.add_collaborator(
        false,
        CREATOR.to_string(),
        id.clone(),
        Ok(collaborator.to_string()),
        ChannelCollaborator { role: Role::Publisher, share: Decimal::percent(10) },
        owner(&id, CREATOR),
    )
    .unwrap();
    let meta = metadata("Original Asset Name", "Original Asset Description", "https://original-media-uri.com");
    let r = publish(&mut c, CREATOR, env(), &id, off_chain(), None, true, meta, None).unwrap();
    let publish_id = attribute(&r, "publish_id");
    c.update_asset_details(
        false,
        collaborator.to_string(),
        publish_id.clone(),
        id.clone(),
        Some(false),
        Some("Collaborator Updated Name".to_string()),
        None,
        None,
        None,
        owner(&id, CREATOR),
    )
    .unwrap();
    let a = c.query_asset(id, publish_id).unwrap();
    assert_eq!(a.metadata.name, "Collaborator Updated Name");
    assert_eq!(a.metadata.description, "Original Asset Description");
    assert_eq!(a.metadata.media_uri, "https://original-media-uri.com");
    assert!(!a.asset.is_visible);
}

#[test]
fn flag_asset_happy_path() {
    let (mut c, id) = with_channel("creator");
    let r = publish(&mut c, CREATOR, env(), &id, nft("collection1", "asset1"), None, true, default_metadata(), Some(CREATOR)).unwrap();
    let publish_id = attribute(&r, "publish_id");
    let r = c.flag_asset(false, id.clone(), publish_id.clone(), Flag::NSFW).unwrap();
    assert_eq!(attribute(&r, "action"), "asset_flag");
    assert_eq!(attribute(&r, "publish_id"), publish_id);
    assert_eq!(attribute(&r, "channel_id"), id);
    assert_eq!(attribute(&r, "flag"), "NSFW");
    c.flag_asset(false, id.clone(), publish_id.clone(), Flag::NSFW).unwrap();
    let a = c.query_asset(id, publish_id).unwrap();
    assert_eq!(a.flags.len(), 1);
    assert_eq!(a.flags[0].flag, Flag::NSFW);
    assert_eq!(a.flags[0].count, 2);
}

#[test]
fn remove_assets_happy_path() {
    let (mut c, id) = with_channel("creator");
    let r = publish(&mut c, CREATOR, env(), &id, off_chain(), None, true, metadata("Media Asset", "This is a media asset", "https://example.com/media.png"), None)
        .unwrap();
    let publish_id = attribute(&r, "publish_id");
    c.remove_assets(ADMIN.to_string(), vec![(id.clone(), publish_id)], None).unwrap();
    assert!(c.query_assets(id, None, None).unwrap().is_empty());
}

#[test]
fn remove_assets_unauthorized() {
    let (mut c, id) = with_channel("creator");
    let r = publish(&mut c, CREATOR, env(), &id, off_chain(), None, true, default_metadata(), None).unwrap();
    let publish_id = attribute(&r, "publish_id");
    let err = c.remove_assets(CREATOR.to_string(), vec![(id.clone(), publish_id)], None).unwrap_err();
    assert_eq!(err, ContractError::Unauthorized {});
    assert_eq!(c.query_assets(id, None, None).unwrap().len(), 1);
}

#[test]
fn remove_assets_asset_does_not_exist() {
    let (mut c, id) = with_channel("creator");
    let err = c.remove_assets(ADMIN.to_string(), vec![(id, "publish_id".to_string())], None).unwrap_err();
    assert_eq!(err, ContractError::Asset(AssetError::AssetNotFound {}));
}

#[test]
fn set_config_happy_path() {
    let mut c = start(instantiate_msg(ADMIN));
    c.set_config(ADMIN.to_string(), Some(vec![]), Some(Ok(CREATOR.to_string())), Some(Ok(CREATOR.to_string()))).unwrap();
    assert_eq!(c.config.auth_details.protocol_admin, CREATOR);
    assert_eq!(c.config.auth_details.fee_collector, CREATOR);
    assert!(c.config.channel_creation_fee.is_empty());
}

#[test]
fn set_config_unauthorized() {
    let mut c = start(instantiate_msg(ADMIN));
    let err = c
        .set_config(CREATOR.to_string(), Some(vec![]), Some(Ok(CREATOR.to_string())), Some(Ok(CREATOR.to_string())))
        .unwrap_err();
    assert_eq!(err, ContractError::Unauthorized {});
    assert_eq!(c.config.auth_details.protocol_admin, ADMIN);
}

#[test]
fn set_config_invalid() {
    let mut c = start(instantiate_msg(ADMIN));
    let err = c
        .set_config(ADMIN.to_string(), Some(vec![]), Some(Err("Error decoding bech32".to_string())), Some(Ok(CREATOR.to_string())))
        .unwrap_err();
    assert_eq!(err, ContractError::Std("Error decoding bech32".to_string()));
    assert_eq!(c.config.auth_details.protocol_admin, ADMIN);
}

#[test]
fn paused_publish_is_refused() {
    let (mut c, id) = with_channel("creator");
    let err = c
        .publish(true, CREATOR.to_string(), env(), off_chain(), b"salt".to_vec(), id.clone(), None, true, default_metadata(), owner(&id, CREATOR), None)
        .unwrap_err();
    assert_eq!(err, ContractError::Paused {});
    let _ = env_at(1);
    let _ = CREATOR2;
}
