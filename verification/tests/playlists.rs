use omniflix_channel::asset_manager::assets::AssetsManager;
use omniflix_channel::asset_manager::error::PlaylistError;
use omniflix_channel::asset_manager::playlists::PlaylistsManager;
use omniflix_channel::types::asset::{Asset, AssetKey, AssetSource};

#[test]
fn test_delete_playlists_by_channel_id() {
    let mut playlists_manager = PlaylistsManager::new();
    let channel_id = "channel_id".to_string();
    let playlist_name = "playlist_name".to_string();

    for i in 0..24 {
        let playlist_name = format!("playlist_{}", i);
        playlists_manager.add_new_playlist(channel_id.clone(), playlist_name).unwrap();
    }

    let all_playlists = playlists_manager.get_all_playlists(channel_id.clone(), None, None);
    assert_eq!(all_playlists.len(), 24);

    playlists_manager.delete_playlists_by_channel_id(channel_id.clone());

    let all_playlists = playlists_manager.get_all_playlists(channel_id.clone(), None, None);
    assert_eq!(all_playlists.len(), 0);

    let playlist = playlists_manager.get_playlist(channel_id.clone(), playlist_name.clone());
    assert!(playlist.is_err());
}

#[test]
fn test_add_new_playlist() {
    let mut playlists_manager = PlaylistsManager::new();
    let channel_id = "channel_id".to_string();
    let playlist_name = "playlist_name".to_string();

    playlists_manager.add_new_playlist(channel_id.clone(), playlist_name.clone()).unwrap();

    let playlist = playlists_manager.get_playlist(channel_id.clone(), playlist_name.clone());
    assert!(playlist.is_ok());
}

#[test]
fn test_add_asset_to_playlist() {
    let mut playlists_manager = PlaylistsManager::new();
    let channel_id = "channel_id".to_string();
    let playlist_name = "playlist_name".to_string();
    let asset_key: AssetKey = ("asset_channel_id".to_string(), "publish_id".to_string());

    playlists_manager.add_new_playlist(channel_id.clone(), playlist_name.clone()).unwrap();
    playlists_manager
        .add_asset_to_playlist(channel_id.clone(), playlist_name.clone(), asset_key.clone())
        .unwrap();

    let playlist = playlists_manager.get_playlist(channel_id.clone(), playlist_name.clone()).unwrap();
    assert_eq!(playlist.assets.len(), 1);
    assert_eq!(playlist.assets[0], asset_key);
}

#[test]
fn test_remove_assets_from_playlist() {
    let mut playlists_manager = PlaylistsManager::new();
    let channel_id = "channel_id".to_string();
    let playlist_name = "playlist_name".to_string();
    let asset_key: AssetKey = ("asset_channel_id".to_string(), "publish_id".to_string());

    playlists_manager.add_new_playlist(channel_id.clone(), playlist_name.clone()).unwrap();
    playlists_manager
        .add_asset_to_playlist(channel_id.clone(), playlist_name.clone(), asset_key.clone())
        .unwrap();
    playlists_manager
        .remove_assets_from_playlist(channel_id.clone(), playlist_name.clone(), vec![asset_key.clone()])
        .unwrap();

    let playlist = playlists_manager.get_playlist(channel_id.clone(), playlist_name.clone()).unwrap();
    assert_eq!(playlist.assets.len(), 0);
}

#[test]
fn test_get_playlist() {
    let mut playlists_manager = PlaylistsManager::new();
    let channel_id = "channel_id".to_string();
    let playlist_name = "playlist_name".to_string();

    playlists_manager.add_new_playlist(channel_id.clone(), playlist_name.clone()).unwrap();

    let playlist = playlists_manager.get_playlist(channel_id.clone(), playlist_name.clone()).unwrap();
    assert_eq!(playlist.playlist_name, playlist_name);
}

#[test]
fn test_get_all_playlists_with_start_after() {
    let mut playlists_manager = PlaylistsManager::new();
    let channel_id = "channel_id".to_string();

    for i in 0..100 {
        let playlist_name = format!("playlist_{}", i);
        playlists_manager.add_new_playlist(channel_id.clone(), playlist_name).unwrap();
    }

    let all_playlists =
        playlists_manager.get_all_playlists(channel_id.clone(), Some("playlist_24".to_string()), Some(25));
    assert_eq!(all_playlists.len(), 25);
    assert_eq!(all_playlists[0].playlist_name, "playlist_25");
}

#[test]
fn test_delete_playlist() {
    let mut playlists_manager = PlaylistsManager::new();
    let channel_id = "channel_id".to_string();
    let playlist_name = "playlist_name".to_string();

    playlists_manager.add_new_playlist(channel_id.clone(), playlist_name.clone()).unwrap();
    playlists_manager.delete_playlist(channel_id.clone(), playlist_name.clone()).unwrap();

    let playlist = playlists_manager.get_playlist(channel_id.clone(), playlist_name.clone());
    assert!(playlist.is_err());
}

#[test]
fn playlist_errors() {
    let mut p = PlaylistsManager::new();
    let c = "ch".to_string();
    let n = "list".to_string();
    let k: AssetKey = ("ch".to_string(), "pub".to_string());
    assert_eq!(p.add_asset_to_playlist(c.clone(), n.clone(), k.clone()), Err(PlaylistError::PlaylistNotFound {}));
    p.add_new_playlist(c.clone(), n.clone()).unwrap();
    assert_eq!(p.add_new_playlist(c.clone(), n.clone()), Err(PlaylistError::PlaylistAlreadyExists {}));
    p.add_asset_to_playlist(c.clone(), n.clone(), k.clone()).unwrap();
    assert_eq!(
        p.add_asset_to_playlist(c.clone(), n.clone(), k.clone()),
        Err(PlaylistError::AssetAlreadyExistsInPlaylist {})
    );
    let other: AssetKey = ("ch".to_string(), "other".to_string());
    // removal is all or nothing: the missing key keeps the present one in place
    assert_eq!(
        p.remove_assets_from_playlist(c.clone(), n.clone(), vec![k.clone(), other]),
        Err(PlaylistError::AssetNotInPlaylist {})
    );
    assert_eq!(p.get_playlist(c.clone(), n.clone()).unwrap().assets, vec![k.clone()]);
    assert_eq!(p.delete_playlist(c.clone(), "none".to_string()), Err(PlaylistError::PlaylistNotFound {}));
}

#[test]
fn refresh_drops_missing_and_hidden_assets() {
    let mut assets = AssetsManager::new();
    let shown: AssetKey = ("ch".to_string(), "shown".to_string());
    let hidden: AssetKey = ("ch".to_string(), "hidden".to_string());
    let gone: AssetKey = ("ch".to_string(), "gone".to_string());
    for (k, visible) in [(&shown, true), (&hidden, false)] {
        let a = Asset {
            channel_id: k.0.clone(),
            publish_id: k.1.clone(),
            asset_source: AssetSource::Nft { collection_id: "c".to_string(), onft_id: "o".to_string() },
            is_visible: visible,
        };
        assets.add_asset(k.clone(), a).unwrap();
    }
    let mut p = PlaylistsManager::new();
    p.add_new_playlist("ch".to_string(), "l".to_string()).unwrap();
    for k in [&hidden, &shown, &gone] {
        p.add_asset_to_playlist("ch".to_string(), "l".to_string(), k.clone()).unwrap();
    }
    let removed = p.refresh_playlist("ch".to_string(), "l".to_string(), &assets).unwrap();
    assert_eq!(removed, vec![hidden.clone(), gone.clone()]);
    assert_eq!(p.get_playlist("ch".to_string(), "l".to_string()).unwrap().assets, vec![shown.clone()]);
    assert_eq!(
        p.refresh_playlist("ch".to_string(), "none".to_string(), &assets),
        Err(PlaylistError::PlaylistNotFound {})
    );
}
