use omniflix_channel::channel_manager::error::ChannelError;
use omniflix_channel::channel_manager::types::ChannelDetails;
use omniflix_channel::registry::assets::{AssetError, Assets};
use omniflix_channel::registry::playlist::Asset;

fn asset(publish_id: &str) -> Asset {
    Asset {
        publish_id: publish_id.to_string(),
        collection_id: "collection".to_string(),
        onft_id: format!("onft_{}", publish_id),
    }
}

#[test]
fn registry_assets_add_get_remove() {
    let mut assets = Assets::new();
    assets.add_asset("ch1".to_string(), asset("p1")).unwrap();
    assert_eq!(assets.add_asset("ch1".to_string(), asset("p1")), Err(AssetError::AssetAlreadyExists {}));
    // the same publish id in another channel is another asset
    assets.add_asset("ch2".to_string(), asset("p1")).unwrap();
    assert_eq!(assets.get_asset("ch1".to_string(), "p1".to_string()), Ok(asset("p1")));
    assert_eq!(assets.get_asset("ch1".to_string(), "p2".to_string()), Err(AssetError::AssetNotFound {}));
    assets.remove_asset("ch1".to_string(), "p1".to_string()).unwrap();
    assert_eq!(assets.get_asset("ch1".to_string(), "p1".to_string()), Err(AssetError::AssetNotFound {}));
    assert_eq!(assets.remove_asset("ch1".to_string(), "p1".to_string()), Err(AssetError::AssetNotFound {}));
    assert_eq!(assets.get_asset("ch2".to_string(), "p1".to_string()), Ok(asset("p1")));
}

#[test]
fn registry_assets_listing_and_lookup() {
    let mut assets = Assets::new();
    for i in 0..30 {
        assets.add_asset("ch".to_string(), asset(&format!("p{:02}", i))).unwrap();
    }
    assets.add_asset("other".to_string(), asset("q")).unwrap();
    let all = assets.get_all_assets("ch".to_string(), None, None);
    assert_eq!(all.len(), 25);
    assert_eq!(all[0], asset("p00"));
    let page = assets.get_all_assets("ch".to_string(), Some("p09".to_string()), Some(3));
    assert_eq!(page, vec![asset("p10"), asset("p11"), asset("p12")]);
    assert_eq!(assets.get_all_assets("ch".to_string(), None, Some(40)).len(), 30);
    assert!(assets.asset_exists("q".to_string()));
    assert!(assets.asset_exists("p29".to_string()));
    assert!(!assets.asset_exists("p30".to_string()));
    assert_eq!(
        assets.update_asset("ch".to_string(), "missing".to_string(), asset("missing")),
        Err(AssetError::AssetNotFound {})
    );
    let mut changed = asset("p03");
    changed.collection_id = "new_collection".to_string();
    assets.update_asset("ch".to_string(), "p03".to_string(), changed.clone()).unwrap();
    assert_eq!(assets.get_asset("ch".to_string(), "p03".to_string()), Ok(changed));
}

#[test]
fn channel_book_details_validate() {
    let ok = ChannelDetails::new(
        "id".to_string(),
        "user".to_string(),
        "a description".to_string(),
        "onft".to_string(),
        vec![],
    );
    assert_eq!(ok.validate(), Ok(()));
    let short = ChannelDetails::new("id".to_string(), "ab".to_string(), "desc".to_string(), "onft".to_string(), vec![]);
    assert_eq!(short.validate(), Err(ChannelError::InvalidUserName {}));
    let long_name = ChannelDetails::new("id".to_string(), "a".repeat(33), "desc".to_string(), "onft".to_string(), vec![]);
    assert_eq!(long_name.validate(), Err(ChannelError::InvalidUserName {}));
    let bad_description =
        ChannelDetails::new("id".to_string(), "user".to_string(), "d".repeat(257), "onft".to_string(), vec![]);
    assert_eq!(bad_description.validate(), Err(ChannelError::InvalidDescription {}));
}
