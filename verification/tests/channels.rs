use omniflix_channel::channel_manager::channel::ChannelsManager;
use omniflix_channel::channel_manager::error::ChannelError;
use omniflix_channel::types::channel::{ChannelCollaborator, ChannelDetails, ChannelMetadata, Role};
use omniflix_channel::types::coin::Decimal;
use omniflix_channel::types::msg::ReservedUsername;

#[test]
fn test_collaborator_operations() {
    let mut channels = ChannelsManager::new();
    let channel_id1 = "channel1".to_string();
    let channel_id2 = "channel2".to_string();
    let addr1 = "addr1".to_string();
    let addr2 = "addr2".to_string();
    let addr3 = "addr3".to_string();
    let addr4 = "addr4".to_string();

    let collab1 = ChannelCollaborator { role: Role::Moderator, share: Decimal::percent(50) };
    assert!(channels.add_collaborator(channel_id1.clone(), addr1.clone(), collab1).is_ok());
    let collab2 = ChannelCollaborator { role: Role::Publisher, share: Decimal::percent(50) };
    assert!(channels.add_collaborator(channel_id1.clone(), addr2.clone(), collab2).is_ok());
    let collab3 = ChannelCollaborator { role: Role::Moderator, share: Decimal::percent(30) };
    assert!(channels.add_collaborator(channel_id2.clone(), addr3.clone(), collab3).is_ok());
    let collab4 = ChannelCollaborator { role: Role::Publisher, share: Decimal::percent(70) };
    assert!(channels.add_collaborator(channel_id2.clone(), addr4.clone(), collab4).is_ok());

    let shares1 = channels.get_collaborator_shares(channel_id1.clone()).unwrap();
    assert_eq!(shares1.len(), 2);
    assert!(shares1.contains(&(addr1.clone(), Decimal::percent(50))));
    assert!(shares1.contains(&(addr2.clone(), Decimal::percent(50))));

    let shares2 = channels.get_collaborator_shares(channel_id2.clone()).unwrap();
    assert_eq!(shares2.len(), 2);
    assert!(shares2.contains(&(addr3.clone(), Decimal::percent(30))));
    assert!(shares2.contains(&(addr4.clone(), Decimal::percent(70))));

    assert!(channels.remove_collaborator(channel_id1.clone(), addr1.clone()).is_ok());

    let shares1_after = channels.get_collaborator_shares(channel_id1.clone()).unwrap();
    assert_eq!(shares1_after.len(), 1);
    assert!(shares1_after.contains(&(addr2.clone(), Decimal::percent(50))));

    let shares2_after = channels.get_collaborator_shares(channel_id2.clone()).unwrap();
    assert_eq!(shares2_after.len(), 2);
    assert!(shares2_after.contains(&(addr3.clone(), Decimal::percent(30))));
    assert!(shares2_after.contains(&(addr4.clone(), Decimal::percent(70))));
}

#[test]
fn test_add_collaborator_overflow() {
    let mut channels = ChannelsManager::new();
    let channel_id = "channel1".to_string();

    let collab1 = ChannelCollaborator { role: Role::Moderator, share: Decimal::percent(50) };
    assert!(channels.add_collaborator(channel_id.clone(), "addr1".to_string(), collab1).is_ok());

    let collab2 = ChannelCollaborator { role: Role::Moderator, share: Decimal::percent(50) };
    assert!(channels.add_collaborator(channel_id.clone(), "addr2".to_string(), collab2).is_ok());

    let collab3 = ChannelCollaborator { role: Role::Moderator, share: Decimal::percent(50) };
    let result = channels.add_collaborator(channel_id.clone(), "addr3".to_string(), collab3);
    assert_eq!(result.unwrap_err(), ChannelError::InvalidSharePercentage {});
}

#[test]
fn test_duplicate_collaborator() {
    let mut channels = ChannelsManager::new();
    let channel_id = "channel1".to_string();
    let collab = ChannelCollaborator { role: Role::Moderator, share: Decimal::percent(50) };
    assert!(channels.add_collaborator(channel_id.clone(), "addr1".to_string(), collab).is_ok());
    let result = channels.add_collaborator(channel_id.clone(), "addr1".to_string(), collab);
    assert!(matches!(result, Err(ChannelError::CollaboratorExists {})));
}

#[test]
fn at_most_ten_collaborators() {
    let mut channels = ChannelsManager::new();
    for i in 0..10 {
        let c = ChannelCollaborator { role: Role::Publisher, share: Decimal::percent(1) };
        channels.add_collaborator("ch".to_string(), format!("addr{}", i), c).unwrap();
    }
    let c = ChannelCollaborator { role: Role::Publisher, share: Decimal::percent(1) };
    assert_eq!(
        channels.add_collaborator("ch".to_string(), "addr10".to_string(), c),
        Err(ChannelError::TotalUniqueCollaboratorsLimitExceeded {})
    );
    // the limit is per channel
    assert!(channels.add_collaborator("other".to_string(), "addr10".to_string(), c).is_ok());
    // removing one makes room again
    channels.remove_collaborator("ch".to_string(), "addr3".to_string()).unwrap();
    assert!(channels.add_collaborator("ch".to_string(), "addr10".to_string(), c).is_ok());
    assert_eq!(
        channels.remove_collaborator("ch".to_string(), "addr3".to_string()),
        Err(ChannelError::CollaboratorNotFound {})
    );
}

fn details(id: &str, name: &str) -> ChannelDetails {
    ChannelDetails {
        channel_id: id.to_string(),
        user_name: name.to_string(),
        onft_id: format!("onft{}", id),
        payment_address: "payee".to_string(),
    }
}

fn metadata(name: &str) -> ChannelMetadata {
    ChannelMetadata { channel_name: name.to_string(), description: None, profile_picture: None, banner_picture: None }
}

#[test]
fn channels_and_usernames() {
    let mut channels = ChannelsManager::new();
    channels.add_channel("c1".to_string(), details("c1", "alice"), metadata("Alice")).unwrap();
    assert_eq!(
        channels.add_channel("c1".to_string(), details("c1", "bob"), metadata("Bob")),
        Err(ChannelError::ChannelIdAlreadyExists {})
    );
    assert_eq!(
        channels.add_channel("c2".to_string(), details("c2", "alice"), metadata("Alice2")),
        Err(ChannelError::UserNameAlreadyTaken {})
    );
    assert_eq!(channels.get_channel_id("alice".to_string()), Ok("c1".to_string()));
    assert_eq!(channels.get_username_from_channel_id("c1".to_string()), Ok("alice".to_string()));
    channels.update_payment_address("c1".to_string(), "newpayee".to_string()).unwrap();
    assert_eq!(channels.get_channel_details("c1".to_string()).unwrap().payment_address, "newpayee");
    channels.delete_channel("c1".to_string()).unwrap();
    assert_eq!(channels.get_channel_id("alice".to_string()), Err(ChannelError::UserNameNotFound {}));
    assert_eq!(channels.delete_channel("c1".to_string()), Err(ChannelError::ChannelIdNotFound {}));
    // the username is free again
    assert!(channels.add_channel("c2".to_string(), details("c2", "alice"), metadata("Alice2")).is_ok());
}

#[test]
fn followers_are_counted_per_channel() {
    let mut channels = ChannelsManager::new();
    assert_eq!(channels.add_follower("c1".to_string(), "f1".to_string()), Err(ChannelError::ChannelIdNotFound {}));
    channels.add_channel("c1".to_string(), details("c1", "alice"), metadata("Alice")).unwrap();
    channels.add_follower("c1".to_string(), "f1".to_string()).unwrap();
    channels.add_follower("c1".to_string(), "f2".to_string()).unwrap();
    assert_eq!(channels.add_follower("c1".to_string(), "f1".to_string()), Err(ChannelError::AlreadyFollowing {}));
    assert_eq!(channels.get_followers_count("c1".to_string()), Ok(2));
    assert_eq!(channels.get_followers("c1".to_string(), None, None), Ok(vec!["f1".to_string(), "f2".to_string()]));
    assert_eq!(channels.get_followers("c1".to_string(), Some("f1".to_string()), None), Ok(vec!["f2".to_string()]));
    channels.remove_follower("c1".to_string(), "f1".to_string()).unwrap();
    assert_eq!(channels.get_followers_count("c1".to_string()), Ok(1));
    assert_eq!(channels.remove_follower("c1".to_string(), "f1".to_string()), Err(ChannelError::FollowerNotFound {}));
}

#[test]
fn reserved_usernames() {
    let mut channels = ChannelsManager::new();
    let r = vec![
        ReservedUsername { username: "bob".to_string(), address: None },
        ReservedUsername { username: "amy".to_string(), address: Some("addr".to_string()) },
    ];
    channels.add_reserved_usernames(r).unwrap();
    assert_eq!(channels.get_reserved_status("amy".to_string()), Some(Some("addr".to_string())));
    assert_eq!(channels.get_reserved_status("bob".to_string()), Some(None));
    assert_eq!(channels.get_reserved_status("cat".to_string()), None);
    let listed = channels.get_reserved_usernames(None, None);
    assert_eq!(listed.len(), 2);
    assert_eq!(listed[0].username, "amy");
    assert_eq!(
        channels.remove_reserved_usernames(vec!["bob".to_string(), "cat".to_string()]),
        Err(ChannelError::UsernameNotReserved {})
    );
    // the reservation lifted before the missing name stays lifted
    assert_eq!(channels.get_reserved_status("bob".to_string()), None);
    assert_eq!(channels.get_reserved_usernames(Some("amy".to_string()), Some(100)).len(), 0);
}
