use omniflix_channel::asset_manager::assets::{Assets, PAGINATION_LIMIT};
use omniflix_channel::types::asset::{Asset, AssetSource};

fn nft_asset(channel_id: &str, publish_id: &str, collection_id: &str, onft_id: &str, is_visible: bool) -> Asset {
    Asset {
        publish_id: publish_id.to_string(),
        channel_id: channel_id.to_string(),
        is_visible,
        asset_source: AssetSource::Nft { collection_id: collection_id.to_string(), onft_id: onft_id.to_string() },
    }
}

fn hundred_assets(channel_id: &str) -> Assets {
    let mut assets = Assets::new();
    for i in 0..100 {
        let publish_id = format!("asset{}", i);
        let asset = nft_asset(channel_id, &publish_id, "collection_id", "onft_id", true);
        assets.add_asset((channel_id.to_string(), publish_id), asset).unwrap();
    }
    assets
}

#[test]
fn test_get_all_assets_with_limit() {
    let channel_id = "channel1".to_string();
    let assets = hundred_assets(&channel_id);

    // Test with a limit of 25
    let assets_page_1 = assets.get_all_assets(channel_id.clone(), None, Some(25));
    assert_eq!(assets_page_1.len(), 25);

    // Test with a limit of 15
    let assets_page_2 = assets.get_all_assets(channel_id.clone(), None, Some(15));
    assert_eq!(assets_page_2.len(), 15);

    // Test with a limit > MAX_LIMIT
    let assets_page_3 = assets.get_all_assets(channel_id.clone(), None, Some(PAGINATION_LIMIT + 1));
    assert_eq!(assets_page_3.len(), PAGINATION_LIMIT as usize);
}

#[test]
fn test_get_all_assets_with_start_after() {
    let channel_id = "channel1".to_string();
    let assets = hundred_assets(&channel_id);

    let assets_start_after = assets.get_all_assets(channel_id.clone(), Some("asset50".to_string()), Some(20));
    assert_eq!(assets_start_after.len(), 20);
    assert_eq!(assets_start_after[0].publish_id, "asset51".to_string());
}

#[test]
fn test_get_all_assets_with_limit_and_start_after() {
    let channel_id = "channel1".to_string();
    let assets = hundred_assets(&channel_id);

    let assets_with_start_after_and_limit =
        assets.get_all_assets(channel_id.clone(), Some("asset40".to_string()), Some(20));
    assert_eq!(assets_with_start_after_and_limit.len(), 20);
    assert_eq!(assets_with_start_after_and_limit[0].publish_id, "asset41".to_string());
}

#[test]
fn test_add_asset() {
    let mut assets = Assets::new();
    let channel_id = "channel1".to_string();
    let publish_id = "asset1".to_string();
    let asset = nft_asset(&channel_id, &publish_id, "collection_id", "onft_id", true);

    let add_result = assets.add_asset((channel_id.clone(), publish_id.clone()), asset.clone());
    assert!(add_result.is_ok());

    let add_result_again = assets.add_asset((channel_id.clone(), publish_id), asset);
    assert!(add_result_again.is_err());
}

#[test]
fn test_get_asset() {
    let mut assets = Assets::new();
    let channel_id = "channel1".to_string();
    let publish_id = "asset1".to_string();
    let asset = nft_asset(&channel_id, &publish_id, "collection_id", "onft_id", true);
    assets.add_asset((channel_id.clone(), publish_id.clone()), asset).unwrap();

    let retrieved_asset = assets.get_asset((channel_id.clone(), publish_id.clone())).unwrap();
    assert_eq!(retrieved_asset.publish_id, publish_id);
}

#[test]
fn test_delete_asset() {
    let mut assets = Assets::new();
    let channel_id = "channel1".to_string();
    let publish_id = "asset1".to_string();
    let asset = nft_asset(&channel_id, &publish_id, "collection_id", "onft_id", true);
    assets.add_asset((channel_id.clone(), publish_id.clone()), asset).unwrap();

    let delete_result = assets.delete_asset((channel_id.clone(), publish_id.clone()));
    assert!(delete_result.is_ok());

    let get_result = assets.get_asset((channel_id.clone(), publish_id.clone()));
    assert!(get_result.is_err());
}

#[test]
fn test_update_asset() {
    let mut assets = Assets::new();
    let channel_id = "channel1".to_string();
    let publish_id = "asset1".to_string();
    let asset = nft_asset(&channel_id, &publish_id, "collection_id", "onft_id", true);
    assets.add_asset((channel_id.clone(), publish_id.clone()), asset).unwrap();

    let updated_asset = nft_asset(&channel_id, &publish_id, "new_collection", "new_onft_id", false);
    let update_result = assets.update_asset((channel_id.clone(), publish_id.clone()), updated_asset);
    assert!(update_result.is_ok());

    let retrieved_asset = assets.get_asset((channel_id.clone(), publish_id.clone())).unwrap();
    assert!(!retrieved_asset.is_visible);
}

#[test]
fn test_delete_assets_by_channel_id() {
    let mut assets = Assets::new();
    let channel_id = "channel1".to_string();
    let publish_id1 = "asset1".to_string();
    let publish_id2 = "asset2".to_string();
    let asset1 = nft_asset(&channel_id, &publish_id1, "collection_id", "onft_id", true);
    let asset2 = nft_asset(&channel_id, &publish_id2, "collection_id", "onft_id", true);
    assets.add_asset((channel_id.clone(), publish_id1.clone()), asset1).unwrap();
    assets.add_asset((channel_id.clone(), publish_id2.clone()), asset2).unwrap();

    let delete_result = assets.delete_assets_by_channel_id(channel_id.clone());
    assert!(delete_result.is_ok());

    let get_result1 = assets.get_asset((channel_id.clone(), publish_id1.clone()));
    let get_result2 = assets.get_asset((channel_id.clone(), publish_id2.clone()));
    assert!(get_result1.is_err());
    assert!(get_result2.is_err());
}

#[test]
fn test_asset_exists() {
    let mut assets = Assets::new();
    let channel_id = "channel1".to_string();
    let publish_id = "asset1".to_string();
    let asset = nft_asset(&channel_id, &publish_id, "collection_id", "onft_id", true);
    assets.add_asset((channel_id.clone(), publish_id.clone()), asset).unwrap();

    assert!(assets.asset_exists((channel_id.clone(), publish_id.clone())));
    assert!(!assets.asset_exists((channel_id.clone(), "nonexistent".to_string())));
}

#[test]
fn assets_of_other_channels_are_not_listed() {
    let mut assets = hundred_assets("channel1");
    let other = nft_asset("channel2", "asset0", "collection_id", "onft_id", true);
    assets.add_asset(("channel2".to_string(), "asset0".to_string()), other).unwrap();
    assert_eq!(assets.get_all_assets("channel2".to_string(), None, None).len(), 1);
    // "channel1" lists only its own, up to the page limit
    assert_eq!(assets.get_all_assets("channel1".to_string(), None, None).len(), PAGINATION_LIMIT as usize);
    assert_eq!(assets.get_all_assets("channel".to_string(), None, None).len(), 0);
}

#[test]
fn deleting_several_assets_is_all_or_nothing() {
    let mut assets = Assets::new();
    for p in ["a", "b", "c"] {
        let asset = nft_asset("ch", p, "col", "onft", true);
        assets.add_asset(("ch".to_string(), p.to_string()), asset).unwrap();
    }
    // a key that names no asset refuses the whole deletion
    let missing = vec![("ch".to_string(), "a".to_string()), ("ch".to_string(), "z".to_string())];
    assert!(assets.delete_assets(missing).is_err());
    assert!(assets.asset_exists(("ch".to_string(), "a".to_string())));
    // a key named twice refuses it too
    let twice = vec![("ch".to_string(), "b".to_string()), ("ch".to_string(), "b".to_string())];
    assert!(assets.delete_assets(twice).is_err());
    assert!(assets.asset_exists(("ch".to_string(), "b".to_string())));
    let fine = vec![("ch".to_string(), "a".to_string()), ("ch".to_string(), "c".to_string())];
    assert!(assets.delete_assets(fine).is_ok());
    assert!(!assets.asset_exists(("ch".to_string(), "a".to_string())));
    assert!(assets.asset_exists(("ch".to_string(), "b".to_string())));
    assert!(!assets.asset_exists(("ch".to_string(), "c".to_string())));
}
