use omniflix_channel::contract::{CosmosMsg, Response};
use omniflix_channel::random::BlockEnv;
use omniflix_channel::registry::contract::{instantiate, InstantiateMsg, RegistryContract};
use omniflix_channel::registry::error::ContractError;
use omniflix_channel::registry::helpers::generate_random_id_with_prefix;
use omniflix_channel::registry::playlist::Asset;
use omniflix_channel::types::coin::Coin;

const ADMIN: &str = "admin";
const CREATOR: &str = "creator";
const COLLECTOR: &str = "collector";

fn coin(amount: u128, denom: &str) -> Coin {
    Coin { denom: denom.to_string(), amount }
}

fn env() -> BlockEnv {
    BlockEnv {
        block_time_nanos: 1_000,
        block_height: 1_000,
        tx_index: None,
        contract_address: "contract0".to_string(),
    }
}

fn msg() -> InstantiateMsg {
    InstantiateMsg {
        admin: ADMIN.to_string(),
        fee_collector: ADMIN.to_string(),
        channels_collection_id: "Channels".to_string(),
        channels_collection_name: "Channels".to_string(),
        channels_collection_symbol: "CH".to_string(),
        channel_creation_fee: coin(0, "uflix"),
    }
}

fn start() -> RegistryContract {
    instantiate(
        vec![coin(1_000_000, "uflix")],
        msg(),
        Ok(ADMIN.to_string()),
        Ok(ADMIN.to_string()),
        ("uflix".to_string(), "1000000".to_string()),
    )
    .unwrap()
    .0
}

fn register(c: &mut RegistryContract, sender: &str, salt: &[u8], user_name: &str, description: &str) -> Result<Response, ContractError> {
    c.register_channel(false, sender.to_string(), env(), salt.to_vec(), description.to_string(), user_name.to_string())
}

fn channel_id(salt: &[u8]) -> String {
    generate_random_id_with_prefix(&salt.to_vec(), &env(), "channel")
}

fn onft_id(salt: &[u8]) -> String {
    generate_random_id_with_prefix(&salt.to_vec(), &env(), "onft")
}

fn attribute(r: &Response, key: &str) -> String {
    r.attributes.iter().find(|(k, _)| k == key).unwrap().1.clone()
}

#[test]
fn instantiate_channel_contract() {
    // the collection creation fee is missing
    let err = instantiate(vec![], msg(), Ok(ADMIN.to_string()), Ok(ADMIN.to_string()), ("uflix".to_string(), "1000000".to_string()))
        .err()
        .unwrap();
    assert_eq!(err, ContractError::PaymentError { expected: vec![coin(1_000_000, "uflix")], received: vec![] });
    // more than the fee is sent
    let err = instantiate(
        vec![coin(1_000_001, "uflix")],
        msg(),
        Ok(ADMIN.to_string()),
        Ok(ADMIN.to_string()),
        ("uflix".to_string(), "1000000".to_string()),
    )
    .err()
    .unwrap();
    assert_eq!(
        err,
        ContractError::PaymentError { expected: vec![coin(1_000_000, "uflix")], received: vec![coin(1_000_001, "uflix")] }
    );
    let (c, r) = instantiate(
        vec![coin(1_000_000, "uflix")],
        msg(),
        Ok(ADMIN.to_string()),
        Ok(ADMIN.to_string()),
        ("uflix".to_string(), "1000000".to_string()),
    )
    .unwrap();
    assert_eq!(c.config.admin, ADMIN);
    assert_eq!(c.config.channels_collection_id, "Channels");
    assert_eq!(c.config.channels_collection_name, "Channels");
    assert_eq!(c.config.channels_collection_symbol, "CH");
    assert_eq!(c.config.channel_creation_fee, coin(0, "uflix"));
    match &r.messages[0] {
        CosmosMsg::CreateDenom(d) => {
            assert_eq!(d.id, "Channels");
            assert_eq!(d.creation_fee, coin(1_000_000, "uflix"));
        },
        _ => panic!("expected the creation of the collection"),
    }
}

#[test]
fn instantiate_falls_back_to_admin_as_fee_collector() {
    let (c, _) = instantiate(
        vec![coin(1_000_000, "uflix")],
        msg(),
        Ok(ADMIN.to_string()),
        Err("invalid address".to_string()),
        ("uflix".to_string(), "1000000".to_string()),
    )
    .unwrap();
    assert_eq!(c.config.fee_collector, ADMIN);
    let err = instantiate(
        vec![coin(1_000_000, "uflix")],
        msg(),
        Err("invalid address".to_string()),
        Ok(ADMIN.to_string()),
        ("uflix".to_string(), "1000000".to_string()),
    )
    .err()
    .unwrap();
    assert_eq!(err, ContractError::GenericErr { msg: "invalid address".to_string() });
}

#[test]
fn create_channel_create_channel() {
    let mut c = start();
    let err = register(&mut c, CREATOR, b"", "creatorcreatorcreatorcreatorcreator", "creator").unwrap_err();
    assert_eq!(err, ContractError::InvalidUserName {});
    let err = register(&mut c, CREATOR, b"", "creator", &"a".repeat(257)).unwrap_err();
    assert_eq!(err, ContractError::InvalidDescription {});
    let r = register(&mut c, CREATOR, b"", "creator", "creator").unwrap();
    assert_eq!(attribute(&r, "action"), "register_channel");
    let details = c.query_channel_details(channel_id(b"")).unwrap();
    assert_eq!(details.user_name, "creator");
    assert_eq!(details.description, "creator");
    assert_eq!(details.onft_id, onft_id(b""));
    match &r.messages[0] {
        CosmosMsg::MintOnft(m) => {
            assert_eq!(m.id, onft_id(b""));
            assert_eq!(m.denom_id, "Channels");
            assert_eq!(m.recipient, CREATOR);
            assert_eq!(m.data, format!("{{\"channel_id\":\"{}\",\"user_name\":\"creator\"}}", channel_id(b"")));
        },
        _ => panic!("expected the minting of the channel ONFT"),
    }
    let playlist = c.playlists.get_playlist(channel_id(b""), "My Videos".to_string()).unwrap();
    assert_eq!(playlist.playlist_name, "My Videos");
    assert!(playlist.assets.is_empty());
}

#[test]
fn channels_create_channel() {
    let mut c = start();
    let err = register(&mut c, CREATOR, b"", "creatorcreatorcreatorcreatorcreator", "creator").unwrap_err();
    assert_eq!(err, ContractError::InvalidUserName {});
    let err = register(&mut c, CREATOR, b"", "creator", &"a".repeat(257)).unwrap_err();
    assert_eq!(err, ContractError::InvalidDescription {});
    register(&mut c, CREATOR, b"", "creator", "creator").unwrap();
    let playlists = c.playlists.get_all_playlists(channel_id(b""), None, None).unwrap();
    assert_eq!(playlists.len(), 1);
    assert_eq!(playlists[0].playlist_name, "My Videos");
    assert_eq!(playlists[0].assets.len(), 0);
}

#[test]
fn set_channel_details() {
    let mut c = start();
    register(&mut c, CREATOR, b"", "creator", "creator").unwrap();
    let id = channel_id(b"");
    let owner = Some(CREATOR.to_string());
    let err = c.set_channel_details(false, CREATOR.to_string(), "".to_string(), "creator".to_string(), owner.clone()).unwrap_err();
    assert_eq!(err, ContractError::ChannelIdNotFound {});
    let err = c.set_channel_details(false, CREATOR.to_string(), id.clone(), "".to_string(), owner.clone()).unwrap_err();
    assert_eq!(err, ContractError::InvalidDescription {});
    let err = c.set_channel_details(false, CREATOR.to_string(), "1".to_string(), "creator".to_string(), owner.clone()).unwrap_err();
    assert_eq!(err, ContractError::ChannelIdNotFound {});
    let err = c.set_channel_details(false, COLLECTOR.to_string(), id.clone(), "creator".to_string(), owner.clone()).unwrap_err();
    assert_eq!(err, ContractError::OnftNotOwned {});
    let r = c.set_channel_details(false, CREATOR.to_string(), id.clone(), "new description".to_string(), owner).unwrap();
    assert_eq!(attribute(&r, "description"), "new description");
    assert_eq!(c.query_channel_details(id).unwrap().description, "new description");
}

#[test]
fn same_user_name() {
    let mut c = start();
    register(&mut c, CREATOR, b"", "creator", "creator").unwrap();
    let err = register(&mut c, COLLECTOR, b"salt", "creator", "creator").unwrap_err();
    assert_eq!(err, ContractError::UserNameAlreadyTaken {});
    // the same salt in another block draws another channel id; the name is still taken
    let later = BlockEnv { block_time_nanos: 123_123, block_height: 123_123, ..env() };
    let err = c
        .register_channel(false, COLLECTOR.to_string(), later, vec![], "creator".to_string(), "creator".to_string())
        .unwrap_err();
    assert_eq!(err, ContractError::UserNameAlreadyTaken {});
}

#[test]
fn register_when_paused() {
    let mut c = start();
    let err = c.register_channel(true, CREATOR.to_string(), env(), vec![], "creator".to_string(), "creator".to_string()).unwrap_err();
    assert_eq!(err, ContractError::Paused {});
    assert!(c.query_channel_details(channel_id(b"")).is_err());
}

#[test]
fn create_playlist() {
    let mut c = start();
    register(&mut c, CREATOR, b"salt", "user_name", "description").unwrap();
    let id = channel_id(b"salt");
    let owner = Some(CREATOR.to_string());
    let err = c.create_playlist(false, CREATOR.to_string(), id.clone(), "My Videos".to_string(), owner.clone()).unwrap_err();
    assert_eq!(err, ContractError::PlaylistAlreadyExists {});
    let err = c.create_playlist(false, COLLECTOR.to_string(), id.clone(), "My Playlist".to_string(), owner.clone()).unwrap_err();
    assert_eq!(err, ContractError::OnftNotOwned {});
    c.create_playlist(false, CREATOR.to_string(), id.clone(), "My Playlist".to_string(), owner).unwrap();
    assert_eq!(c.playlists.get_all_playlists(id, None, None).unwrap().len(), 2);
}

#[test]
fn publish_asset() {
    let mut c = start();
    register(&mut c, CREATOR, b"salt", "user_name", "description").unwrap();
    let id = channel_id(b"salt");
    let owner = Some(CREATOR.to_string());
    // the asset ONFT does not exist yet
    let err = c
        .publish(false, CREATOR.to_string(), env(), "id".to_string(), "asset_id".to_string(), b"salt".to_vec(), id.clone(), None, owner.clone(), None)
        .unwrap_err();
    assert_eq!(err, ContractError::OnftNotFound {});
    // the collector does not own the channel
    let err = c
        .publish(
            false,
            COLLECTOR.to_string(),
            env(),
            "id".to_string(),
            "asset_id".to_string(),
            b"salt".to_vec(),
            id.clone(),
            None,
            owner.clone(),
            Some(CREATOR.to_string()),
        )
        .unwrap_err();
    assert_eq!(err, ContractError::OnftNotOwned {});
    let r = c
        .publish(
            false,
            CREATOR.to_string(),
            env(),
            "id".to_string(),
            "asset_id".to_string(),
            b"salt".to_vec(),
            id.clone(),
            None,
            owner,
            Some(CREATOR.to_string()),
        )
        .unwrap();
    let publish_id = attribute(&r, "publish_id");
    assert_eq!(publish_id, generate_random_id_with_prefix(&b"salt".to_vec(), &env(), "publish"));
    assert_eq!(attribute(&r, "playlist_id"), "My Videos");
    let playlist = c.playlists.get_playlist(id, "My Videos".to_string()).unwrap();
    assert_eq!(playlist.assets.len(), 1);
    assert_eq!(playlist.assets[0].publish_id, publish_id);
}

#[test]
fn publish_asset_without_owning_the_channel() {
    let mut c = start();
    register(&mut c, CREATOR, b"salt", "user_name", "description").unwrap();
    let id = channel_id(b"salt");
    let err = c
        .publish(
            false,
            COLLECTOR.to_string(),
            env(),
            "id".to_string(),
            "asset_id".to_string(),
            b"salt".to_vec(),
            id,
            None,
            Some(CREATOR.to_string()),
            Some(COLLECTOR.to_string()),
        )
        .unwrap_err();
    assert_eq!(err, ContractError::OnftNotOwned {});
}

#[test]
fn publish_into_a_second_playlist() {
    let mut c = start();
    register(&mut c, CREATOR, b"salt", "user_name", "description").unwrap();
    let id = channel_id(b"salt");
    let owner = Some(CREATOR.to_string());
    c.create_playlist(false, CREATOR.to_string(), id.clone(), "Shows".to_string(), owner.clone()).unwrap();
    let pub_with = |c: &mut RegistryContract, playlist: Option<String>| {
        c.publish(
            false,
            CREATOR.to_string(),
            env(),
            "id".to_string(),
            "asset_id".to_string(),
            b"salt".to_vec(),
            id.clone(),
            playlist,
            owner.clone(),
            Some(CREATOR.to_string()),
        )
    };
    // naming the default playlist again fails, and nothing is kept
    assert_eq!(pub_with(&mut c, Some("My Videos".to_string())).unwrap_err(), ContractError::AssetAlreadyExistsInPlaylist {});
    assert!(c.playlists.get_playlist(id.clone(), "My Videos".to_string()).unwrap().assets.is_empty());
    assert_eq!(pub_with(&mut c, Some("Missing".to_string())).unwrap_err(), ContractError::PlaylistNotFound {});
    pub_with(&mut c, Some("Shows".to_string())).unwrap();
    assert_eq!(c.playlists.get_playlist(id.clone(), "My Videos".to_string()).unwrap().assets.len(), 1);
    assert_eq!(c.playlists.get_playlist(id.clone(), "Shows".to_string()).unwrap().assets.len(), 1);
    // the same draw gives the same asset, which both playlists already hold
    assert_eq!(pub_with(&mut c, None).unwrap_err(), ContractError::AssetAlreadyExistsInPlaylist {});
}

#[test]
fn add_then_remove_asset_restores_playlist() {
    let mut c = start();
    register(&mut c, CREATOR, b"salt", "user_name", "description").unwrap();
    let id = channel_id(b"salt");
    let asset = Asset { publish_id: "p1".to_string(), collection_id: "c".to_string(), onft_id: "o".to_string() };
    c.playlists.add_asset_to_playlist(id.clone(), "My Videos".to_string(), asset.clone()).unwrap();
    assert_eq!(
        c.playlists.add_asset_to_playlist(id.clone(), "My Videos".to_string(), asset.clone()).unwrap_err(),
        ContractError::AssetAlreadyExistsInPlaylist {}
    );
    c.playlists.remove_asset_from_playlist(id.clone(), "My Videos".to_string(), asset.clone()).unwrap();
    assert!(c.playlists.get_playlist(id.clone(), "My Videos".to_string()).unwrap().assets.is_empty());
    assert_eq!(
        c.playlists.remove_asset_from_playlist(id.clone(), "My Videos".to_string(), asset).unwrap_err(),
        ContractError::AssetNotInPlaylist {}
    );
    assert_eq!(c.playlists.remove_playlist(id.clone(), "My Videos".to_string()).unwrap_err(), ContractError::CannotDeleteDefaultPlaylist {});
    c.playlists.remove_playlist(id, "Missing".to_string()).unwrap();
}

#[test]
fn test_generate_publish_id() {
    // the bytes that base64 "salt" decodes to
    let salt = vec![0xb1u8, 0xa9, 0x6d];
    let env = BlockEnv {
        block_time_nanos: 1_571_797_419_879_305_533,
        block_height: 12_345,
        tx_index: Some(3),
        contract_address: "cosmwasm1contract".to_string(),
    };
    let channel_id = generate_random_id_with_prefix(&salt, &env, "channel");
    let onft_id = generate_random_id_with_prefix(&salt, &env, "onft");
    let channel_id = channel_id.split_at(7).1;
    let onft_id = onft_id.split_at(4).1;
    assert_eq!(channel_id.len(), 32);
    assert_eq!(onft_id.len(), 32);
    assert_ne!(channel_id, onft_id);
    assert!(channel_id.chars().all(|ch| ch.is_ascii_lowercase() || ch.is_ascii_digit()));
}
