use omniflix_channel::bank::PaymentError;
use omniflix_channel::channel_manager::error::ChannelError;
use omniflix_channel::contract::{instantiate, ChannelContract, CosmosMsg, Response};
use omniflix_channel::error::ContractError;
use omniflix_channel::random::BlockEnv;
use omniflix_channel::string_validation::StringValidationError;
use omniflix_channel::types::channel::{ChannelCollaborator, Role};
use omniflix_channel::types::coin::{Coin, Decimal};
use omniflix_channel::types::msg::{
    ChannelTokenDetails, ChannelsCollectionDetails, InstantiateMsg, ReservedUsername,
};

const ADMIN: &str = "cosmwasm1admin";
const CREATOR: &str = "cosmwasm1creator";
const COLLECTOR: &str = "cosmwasm1collector";
const FOLLOWER: &str = "cosmwasm1follower";

fn coin(amount: u128, denom: &str) -> Coin {
    Coin { denom: denom.to_string(), amount }
}

fn env() -> BlockEnv {
    BlockEnv {
        block_time_nanos: 1_000,
        block_height: 1_000,
        tx_index: None,
        contract_address: "cosmwasm1contract".to_string(),
    }
}

fn instantiate_msg(admin: &str) -> InstantiateMsg {
    InstantiateMsg {
        channel_creation_fee: vec![],
        fee_collector: admin.to_string(),
        protocol_admin: admin.to_string(),
        accepted_tip_denoms: vec!["uflix".to_string()],
        channel_token_details: ChannelTokenDetails {
            media_uri: "https://example.com/media.png".to_string(),
            preview_uri: "https://example.com/preview.png".to_string(),
            description: "Channel token details".to_string(),
            uri_hash: "".to_string(),
            transferable: true,
            extensible: true,
            nsfw: false,
            royalty_share: "0".to_string(),
        },
        channels_collection_details: ChannelsCollectionDetails {
            collection_id: "Channels".to_string(),
            collection_name: "Channels".to_string(),
            collection_symbol: "CH".to_string(),
            description: "Channels collection".to_string(),
            preview_uri: "https://example.com/preview.png".to_string(),
            uri: "https://example.com/uri".to_string(),
            schema: "https://example.com/schema".to_string(),
            uri_hash: "".to_string(),
            data: "".to_string(),
        },
        reserved_usernames: vec![ReservedUsername { username: "reserved".to_string(), address: None }],
    }
}

fn start(msg: InstantiateMsg) -> ChannelContract {
    let checks: Vec<Result<(), String>> = msg.reserved_usernames.iter().map(|_| Ok(())).collect();
    let admin = msg.protocol_admin.clone();
    let collector = msg.fee_collector.clone();
    instantiate(
        vec![coin(1_000_000, "uflix")],
        env(),
        msg,
        Ok(admin),
        Ok(collector),
        Some(("uflix".to_string(), "1000000".to_string())),
        checks,
    )
    .unwrap()
    .0
}

fn start_with_fee() -> ChannelContract {
    let mut msg = instantiate_msg(ADMIN);
    msg.channel_creation_fee = vec![coin(1_000_000, "uflix")];
    start(msg)
}

fn create(
    c: &mut ChannelContract,
    sender: &str,
    user_name: &str,
    salt: &str,
    funds: Vec<Coin>,
) -> Result<Response, ContractError> {
    c.create_channel(
        false,
        sender.to_string(),
        funds,
        env(),
        salt.as_bytes().to_vec(),
        Some("Default description".to_string()),
        Ok(sender.to_string()),
        user_name.to_string(),
        user_name.to_string(),
        None,
        None,
    )
}

fn attribute(r: &Response, key: &str) -> String {
    r.attributes.iter().find(|(k, _)| k == key).unwrap().1.clone()
}

fn channel_id_of(c: &ChannelContract, user_name: &str) -> String {
    c.query_channel_id(user_name.to_string()).unwrap()
}

/// The ONFT owner a chain query reports for channel `channel_id`: its creator.
fn owner(_channel_id: &str, creator: &str) -> Option<String> {
    Some(creator.to_string())
}

fn bank_sends(r: &Response) -> Vec<(String, Vec<Coin>)> {
    r.messages
        .iter()
        .filter_map(|m| match m {
            CosmosMsg::Bank(b) => Some((b.to_address.clone(), b.amount.clone())),
            _ => None,
        })
        .collect()
}

#[test]
fn missing_creation_fee() {
    let mut c = start_with_fee();
    let err = create(&mut c, CREATOR, "creator", "salt", vec![]).unwrap_err();
    assert_eq!(
        err,
        ContractError::PaymentError { expected: vec![coin(1_000_000, "uflix")], received: vec![] }
    );
}

#[test]
fn paused() {
    let mut c = start_with_fee();
    let err = c
        .create_channel(
            true,
            CREATOR.to_string(),
            vec![],
            env(),
            b"salt".to_vec(),
            Some("Default description".to_string()),
            Ok(CREATOR.to_string()),
            "creator".to_string(),
            "creator".to_string(),
            None,
            None,
        )
        .unwrap_err();
    assert_eq!(err, ContractError::Paused {});
}

#[test]
fn failed_validations() {
    let mut c = start_with_fee();
    let long = "creatorcreatorcreatorcreatorcreator";
    let err = create(&mut c, CREATOR, long, "salt", vec![coin(1_000_000, "uflix")]).unwrap_err();
    assert_eq!(
        err,
        ContractError::StringValidationError(StringValidationError::InvalidLength {
            sent: long.to_string(),
            min_length: 3,
            max_length: 32,
        })
    );
    let err = c
        .create_channel(
            false,
            CREATOR.to_string(),
            vec![coin(1_000_000, "uflix")],
            env(),
            b"salt".to_vec(),
            Some("a".repeat(257)),
            Ok(CREATOR.to_string()),
            "creator".to_string(),
            "creator".to_string(),
            None,
            None,
        )
        .unwrap_err();
    assert_eq!(
        err,
        ContractError::StringValidationError(StringValidationError::InvalidLength {
            sent: "a".repeat(257),
            min_length: 3,
            max_length: 256,
        })
    );
}

#[test]
fn username_already_exists() {
    let mut c = start_with_fee();
    create(&mut c, CREATOR, "creator", "salt", vec![coin(1_000_000, "uflix")]).unwrap();
    let err = create(&mut c, CREATOR, "creator", "salt2", vec![coin(1_000_000, "uflix")]).unwrap_err();
    assert_eq!(err, ContractError::Channel(ChannelError::UserNameAlreadyTaken {}));
}

#[test]
fn create_happy_path() {
    let mut c = start_with_fee();
    let r = create(&mut c, CREATOR, "creator", "salt", vec![coin(1_000_000, "uflix")]).unwrap();
    // the creation fee goes to the fee collector
    assert_eq!(bank_sends(&r), vec![(ADMIN.to_string(), vec![coin(1_000_000, "uflix")])]);
    let onft_id = attribute(&r, "onft_id");
    let channels = c.query_channels(None, None).unwrap();
    assert_eq!(channels.len(), 1);
    assert_eq!(channels[0].user_name, "creator");
    assert_eq!(channels[0].onft_id, onft_id);
}

#[test]
fn create_reserved_channel() {
    let mut msg = instantiate_msg(ADMIN);
    msg.channel_creation_fee = vec![coin(1_000_000, "uflix")];
    msg.reserved_usernames = vec![
        ReservedUsername { username: "admin".to_string(), address: Some(ADMIN.to_string()) },
        ReservedUsername { username: "reserved".to_string(), address: None },
    ];
    let mut c = start(msg);
    let err = create(&mut c, CREATOR, "admin", "salt", vec![coin(1_000_000, "uflix")]).unwrap_err();
    assert_eq!(err, ContractError::UserNameReserved {});
    assert!(create(&mut c, CREATOR, "reserved", "salt", vec![coin(1_000_000, "uflix")]).is_err());
    create(&mut c, ADMIN, "admin", "salt", vec![coin(1_000_000, "uflix")]).unwrap();
    let reserved = c.query_reserved_usernames(None, None).unwrap();
    assert_eq!(reserved.len(), 1);
    assert_eq!(reserved[0].username, "reserved");
}

#[test]
fn delete_channel_happy_path() {
    let mut c = start(instantiate_msg(ADMIN));
    create(&mut c, CREATOR, "creator", "salt", vec![]).unwrap();
    let id = channel_id_of(&c, "creator");
    assert_eq!(c.query_channel_details(id.clone()).unwrap().user_name, "creator");
    let r = c.delete_channel(false, CREATOR.to_string(), id.clone(), owner(&id, CREATOR)).unwrap();
    assert_eq!(attribute(&r, "action"), "delete_channel");
    assert_eq!(attribute(&r, "channel_id"), id);
    assert!(c.query_channel_details(id).is_err());
}

#[test]
fn delete_channel_not_creator() {
    let mut c = start(instantiate_msg(ADMIN));
    create(&mut c, CREATOR, "creator", "salt", vec![]).unwrap();
    let id = channel_id_of(&c, "creator");
    let err = c.delete_channel(false, "cosmwasm1creator2".to_string(), id.clone(), owner(&id, CREATOR)).unwrap_err();
    assert_eq!(err, ContractError::Unauthorized {});
    assert_eq!(c.query_channel_details(id).unwrap().user_name, "creator");
}

#[test]
fn delete_channel_when_paused() {
    let mut c = start(instantiate_msg(ADMIN));
    create(&mut c, CREATOR, "creator", "salt", vec![]).unwrap();
    let id = channel_id_of(&c, "creator");
    let err = c.delete_channel(true, CREATOR.to_string(), id.clone(), owner(&id, CREATOR)).unwrap_err();
    assert_eq!(err, ContractError::Paused {});
}

#[test]
fn delete_nonexistent_channel() {
    let mut c = start(instantiate_msg(ADMIN));
    let err = c.delete_channel(false, CREATOR.to_string(), "nonexistent_channel_id".to_string(), None).unwrap_err();
    assert_eq!(err, ContractError::Channel(ChannelError::ChannelIdNotFound {}));
}

#[test]
fn follow_non_existent_channel() {
    let mut c = start(instantiate_msg(ADMIN));
    assert!(c.follow_channel(false, FOLLOWER.to_string(), "non_existent_channel".to_string()).is_err());
}

#[test]
fn already_following() {
    let mut c = start(instantiate_msg(ADMIN));
    create(&mut c, CREATOR, "creator", "salt", vec![]).unwrap();
    let id = channel_id_of(&c, "creator");
    c.follow_channel(false, FOLLOWER.to_string(), id.clone()).unwrap();
    let err = c.follow_channel(false, FOLLOWER.to_string(), id).unwrap_err();
    assert_eq!(err, ContractError::Channel(ChannelError::AlreadyFollowing {}));
}

#[test]
fn follow_happy_path() {
    let mut c = start(instantiate_msg(ADMIN));
    create(&mut c, CREATOR, "creator", "salt", vec![]).unwrap();
    let id = channel_id_of(&c, "creator");
    c.follow_channel(false, FOLLOWER.to_string(), id.clone()).unwrap();
    assert_eq!(c.query_followers_count(id.clone()).unwrap(), 1);
    let followers = c.query_followers(id, None, None).unwrap();
    assert_eq!(followers, vec![FOLLOWER.to_string()]);
}

#[test]
fn paused_contract_refuses_follow_and_collaborator_changes() {
    let mut c = start(instantiate_msg(ADMIN));
    create(&mut c, CREATOR, "creator", "salt", vec![]).unwrap();
    let id = channel_id_of(&c, "creator");
    let err = c.follow_channel(true, FOLLOWER.to_string(), id.clone()).unwrap_err();
    assert_eq!(err, ContractError::Paused {});
    assert_eq!(c.query_followers_count(id.clone()).unwrap(), 0);
    c.follow_channel(false, FOLLOWER.to_string(), id.clone()).unwrap();
    let err = c.unfollow_channel(true, FOLLOWER.to_string(), id.clone()).unwrap_err();
    assert_eq!(err, ContractError::Paused {});
    assert_eq!(c.query_followers_count(id.clone()).unwrap(), 1);
    let details = ChannelCollaborator { role: Role::Publisher, share: Decimal::percent(10) };
    let err = c
        .add_collaborator(true, CREATOR.to_string(), id.clone(), Ok(COLLECTOR.to_string()), details, owner(&id, CREATOR))
        .unwrap_err();
    assert_eq!(err, ContractError::Paused {});
    assert!(c.query_channel_collaborators(id.clone(), None, None).unwrap().is_empty());
    c.add_collaborator(false, CREATOR.to_string(), id.clone(), Ok(COLLECTOR.to_string()), details, owner(&id, CREATOR))
        .unwrap();
    let err = c
        .remove_collaborator(true, CREATOR.to_string(), id.clone(), Ok(COLLECTOR.to_string()), owner(&id, CREATOR))
        .unwrap_err();
    assert_eq!(err, ContractError::Paused {});
    assert_eq!(c.query_channel_collaborators(id.clone(), None, None).unwrap().len(), 1);
}

#[test]
fn follow_then_unfollow_restores_count() {
    let mut c = start(instantiate_msg(ADMIN));
    create(&mut c, CREATOR, "creator", "salt", vec![]).unwrap();
    let id = channel_id_of(&c, "creator");
    c.follow_channel(false, FOLLOWER.to_string(), id.clone()).unwrap();
    c.unfollow_channel(false, FOLLOWER.to_string(), id.clone()).unwrap();
    assert_eq!(c.query_followers_count(id.clone()).unwrap(), 0);
    assert!(c.query_followers(id.clone(), None, None).unwrap().is_empty());
    let err = c.unfollow_channel(false, FOLLOWER.to_string(), id).unwrap_err();
    assert_eq!(err, ContractError::Channel(ChannelError::FollowerNotFound {}));
}

#[test]
fn add_collaborator_unauthorized() {
    let mut c = start(instantiate_msg(ADMIN));
    create(&mut c, CREATOR, "creator", "salt", vec![]).unwrap();
    let id = channel_id_of(&c, "creator");
    let err = c
        .add_collaborator(
            false,
            COLLECTOR.to_string(),
            id.clone(),
            Ok(CREATOR.to_string()),
            ChannelCollaborator { role: Role::Moderator, share: Decimal { atomics: 333_333_333_333_333_333 } },
            owner(&id, CREATOR),
        )
        .unwrap_err();
    assert_eq!(err, ContractError::Unauthorized {});
}

#[test]
fn add_collaborator_invalid_share() {
    let mut c = start(instantiate_msg(ADMIN));
    create(&mut c, CREATOR, "creator", "salt", vec![]).unwrap();
    let id = channel_id_of(&c, "creator");
    let err = c
        .add_collaborator(
            false,
            CREATOR.to_string(),
            id.clone(),
            Ok(COLLECTOR.to_string()),
            ChannelCollaborator { role: Role::Moderator, share: Decimal::percent(101) },
            owner(&id, CREATOR),
        )
        .unwrap_err();
    assert_eq!(err, ContractError::Channel(ChannelError::InvalidSharePercentage {}));
}

#[test]
fn add_collaborator_total_unique_limit_exceeded() {
    let mut c = start(instantiate_msg(ADMIN));
    create(&mut c, CREATOR, "creator", "salt", vec![]).unwrap();
    let id = channel_id_of(&c, "creator");
    for i in 0..10 {
        c.add_collaborator(
            false,
            CREATOR.to_string(),
            id.clone(),
            Ok(format!("cosmwasm1collaborator{}", i)),
            ChannelCollaborator { role: Role::Moderator, share: Decimal::percent(9) },
            owner(&id, CREATOR),
        )
        .unwrap();
    }
    let err = c
        .add_collaborator(
            false,
            CREATOR.to_string(),
            id.clone(),
            Ok("cosmwasm1newcollaborator".to_string()),
            ChannelCollaborator { role: Role::Moderator, share: Decimal::percent(9) },
            owner(&id, CREATOR),
        )
        .unwrap_err();
    assert_eq!(err, ContractError::Channel(ChannelError::TotalUniqueCollaboratorsLimitExceeded {}));
}

#[test]
fn collaborators_happy_path() {
    let mut c = start(instantiate_msg(ADMIN));
    create(&mut c, CREATOR, "creator", "salt", vec![]).unwrap();
    let id = channel_id_of(&c, "creator");
    c.add_collaborator(
        false,
        CREATOR.to_string(),
        id.clone(),
        Ok(COLLECTOR.to_string()),
        ChannelCollaborator { role: Role::Moderator, share: Decimal::percent(30) },
        owner(&id, CREATOR),
    )
    .unwrap();
    let info = c.query_channel_collaborator(id, COLLECTOR.to_string()).unwrap();
    assert_eq!(info.role, Role::Moderator.name());
    assert_eq!(info.role, "Moderator");
    assert_eq!(info.share, Decimal::percent(30));
}

#[test]
fn add_then_remove_collaborator_restores_channel() {
    let mut c = start(instantiate_msg(ADMIN));
    create(&mut c, CREATOR, "creator", "salt", vec![]).unwrap();
    let id = channel_id_of(&c, "creator");
    c.add_collaborator(
        false,
        CREATOR.to_string(),
        id.clone(),
        Ok(COLLECTOR.to_string()),
        ChannelCollaborator { role: Role::Publisher, share: Decimal::percent(40) },
        owner(&id, CREATOR),
    )
    .unwrap();
    c.remove_collaborator(false, CREATOR.to_string(), id.clone(), Ok(COLLECTOR.to_string()), owner(&id, CREATOR)).unwrap();
    assert!(c.query_channel_collaborators(id.clone(), None, None).unwrap().is_empty());
    // the whole share is free again
    c.add_collaborator(
        false,
        CREATOR.to_string(),
        id.clone(),
        Ok(COLLECTOR.to_string()),
        ChannelCollaborator { role: Role::Publisher, share: Decimal::percent(100) },
        owner(&id, CREATOR),
    )
    .unwrap();
}

#[test]
fn add_reserved_usernames() {
    let mut msg = instantiate_msg(ADMIN);
    msg.channel_creation_fee = vec![coin(1_000_000, "uflix")];
    let mut c = start(msg);
    assert_eq!(c.query_reserved_usernames(None, None).unwrap().len(), 1);
    let add = |name: &str, address: Option<String>| Some(vec![ReservedUsername { username: name.to_string(), address }]);
    c.manage_reserved_usernames(false, ADMIN.to_string(), add("admin", None), vec![Ok(())], None).unwrap();
    assert_eq!(c.query_reserved_usernames(None, None).unwrap().len(), 2);
    let err = c.manage_reserved_usernames(false, ADMIN.to_string(), add("Ad", None), vec![Ok(())], None).unwrap_err();
    assert_eq!(
        err,
        ContractError::StringValidationError(StringValidationError::InvalidLength {
            sent: "Ad".to_string(),
            min_length: 3,
            max_length: 32,
        })
    );
    // an address that does not validate is refused
    assert!(c
        .manage_reserved_usernames(
            false,
            ADMIN.to_string(),
            add("Admin", Some("".to_string())),
            vec![Err("Invalid input: human address too short".to_string())],
            None,
        )
        .is_err());
    c.manage_reserved_usernames(false, ADMIN.to_string(), add("admin", Some(CREATOR.to_string())), vec![Ok(())], None)
        .unwrap();
    let reserved = c.query_reserved_usernames(None, None).unwrap();
    assert_eq!(reserved.len(), 2);
    assert_eq!(reserved[0].address, Some(CREATOR.to_string()));
    c.manage_reserved_usernames(false, ADMIN.to_string(), add("admin", None), vec![Ok(())], None).unwrap();
    let reserved = c.query_reserved_usernames(None, None).unwrap();
    assert_eq!(reserved.len(), 2);
    assert_eq!(reserved[0].address, None);
}

#[test]
fn remove_reserved_usernames() {
    let mut msg = instantiate_msg(ADMIN);
    msg.channel_creation_fee = vec![coin(1_000_000, "uflix")];
    let mut c = start(msg);
    assert_eq!(c.query_reserved_usernames(None, None).unwrap().len(), 1);
    let err = c
        .manage_reserved_usernames(false, ADMIN.to_string(), None, vec![], Some(vec!["admin".to_string()]))
        .unwrap_err();
    assert_eq!(err, ContractError::Channel(ChannelError::UsernameNotReserved {}));
    c.manage_reserved_usernames(false, ADMIN.to_string(), None, vec![], Some(vec!["reserved".to_string()]))
        .unwrap();
    assert_eq!(c.query_reserved_usernames(None, None).unwrap().len(), 0);
    c.manage_reserved_usernames(
        false,
        ADMIN.to_string(),
        Some(vec![ReservedUsername { username: "admin".to_string(), address: None }]),
        vec![Ok(())],
        Some(vec!["admin".to_string()]),
    )
    .unwrap();
    assert_eq!(c.query_reserved_usernames(None, None).unwrap().len(), 0);
}

#[test]
fn manage_reserved_usernames_needs_admin() {
    let mut c = start(instantiate_msg(ADMIN));
    let err = c
        .manage_reserved_usernames(false, CREATOR.to_string(), None, vec![], Some(vec!["reserved".to_string()]))
        .unwrap_err();
    assert_eq!(err, ContractError::Unauthorized {});
    assert_eq!(c.query_reserved_usernames(None, None).unwrap().len(), 1);
}

#[test]
fn invalid_payment_address() {
    let mut c = start_with_fee();
    let err = c
        .create_channel(
            false,
            CREATOR.to_string(),
            vec![coin(1_000_000, "uflix")],
            env(),
            b"salt".to_vec(),
            Some("Default description".to_string()),
            Err("Invalid input: human address too short".to_string()),
            "creator".to_string(),
            "creator".to_string(),
            None,
            None,
        )
        .unwrap_err();
    assert_eq!(err, ContractError::Std("Invalid input: human address too short".to_string()));
}

#[test]
fn invalid_tipping_denom() {
    let mut c = start_with_fee();
    create(&mut c, CREATOR, "creator", "salt", vec![coin(1_000_000, "uflix")]).unwrap();
    let id = channel_id_of(&c, "creator");
    let err = c
        .tip_channel(false, vec![coin(1_000_000, "different_denom")], id, coin(100_000, "different_denom"))
        .unwrap_err();
    assert_eq!(err, ContractError::InvalidTipDenom {});
}

#[test]
fn invalid_tip_amount() {
    let mut c = start_with_fee();
    create(&mut c, CREATOR, "creator", "salt", vec![coin(1_000_000, "uflix")]).unwrap();
    let id = channel_id_of(&c, "creator");
    let err = c.tip_channel(false, vec![coin(100, "uflix")], id.clone(), coin(1000, "uflix")).unwrap_err();
    assert_eq!(err, ContractError::InvalidTipAmount {});
    let err = c.tip_channel(false, vec![coin(1000, "different_denom")], id, coin(1000, "uflix")).unwrap_err();
    assert_eq!(err, ContractError::Payment(PaymentError::MissingDenom("uflix".to_string())));
}

#[test]
fn tipping_happy_path() {
    let mut c = start_with_fee();
    create(&mut c, CREATOR, "creator", "salt", vec![coin(1_000_000, "uflix")]).unwrap();
    let id = channel_id_of(&c, "creator");
    let r = c.tip_channel(false, vec![coin(100_000, "uflix")], id.clone(), coin(100_000, "uflix")).unwrap();
    assert_eq!(bank_sends(&r), vec![(CREATOR.to_string(), vec![coin(100_000, "uflix")])]);
    c.add_collaborator(
        false,
        CREATOR.to_string(),
        id.clone(),
        Ok(COLLECTOR.to_string()),
        ChannelCollaborator { role: Role::Moderator, share: Decimal { atomics: 333_333_333_333_333_333 } },
        owner(&id, CREATOR),
    )
    .unwrap();
    let r = c.tip_channel(false, vec![coin(100_000, "uflix")], id, coin(100_000, "uflix")).unwrap();
    assert_eq!(attribute(&r, CREATOR), "66667uflix");
    assert_eq!(attribute(&r, COLLECTOR), "33333uflix");
    // nothing is lost or made up: the transfers add up to the tip
    let sent: u128 = bank_sends(&r).iter().map(|(_, coins)| coins.iter().map(|c| c.amount).sum::<u128>()).sum();
    assert_eq!(sent, 100_000);
}

#[test]
fn tip_shared_between_two_halves() {
    let mut c = start_with_fee();
    create(&mut c, CREATOR, "creator", "salt", vec![coin(1_000_000, "uflix")]).unwrap();
    let id = channel_id_of(&c, "creator");
    for who in [COLLECTOR, FOLLOWER] {
        c.add_collaborator(
            false,
            CREATOR.to_string(),
            id.clone(),
            Ok(who.to_string()),
            ChannelCollaborator { role: Role::Publisher, share: Decimal::percent(50) },
            owner(&id, CREATOR),
        )
        .unwrap();
    }
    let r = c.tip_channel(false, vec![coin(100, "uflix")], id, coin(100, "uflix")).unwrap();
    let sends = bank_sends(&r);
    assert_eq!(sends.len(), 2);
    assert!(sends.contains(&(COLLECTOR.to_string(), vec![coin(50, "uflix")])));
    assert!(sends.contains(&(FOLLOWER.to_string(), vec![coin(50, "uflix")])));
}

#[test]
fn missing_channel_id() {
    let mut c = start_with_fee();
    let err = c
        .update_channel_details(false, CREATOR.to_string(), "".to_string(), Some("creator".to_string()), None, None, None, None, None)
        .unwrap_err();
    assert_eq!(err, ContractError::Channel(ChannelError::ChannelIdNotFound {}));
}

#[test]
fn invalid_channel() {
    let mut c = start_with_fee();
    let err = c
        .update_channel_details(false, CREATOR.to_string(), "1".to_string(), Some("creator".to_string()), None, None, None, None, None)
        .unwrap_err();
    assert_eq!(err, ContractError::Channel(ChannelError::ChannelIdNotFound {}));
}

#[test]
fn update_channel_details_unauthorized() {
    let mut c = start_with_fee();
    create(&mut c, CREATOR, "creator", "salt", vec![coin(1_000_000, "uflix")]).unwrap();
    let id = channel_id_of(&c, "creator");
    let err = c
        .update_channel_details(false, COLLECTOR.to_string(), id.clone(), Some("creator".to_string()), None, None, None, None, owner(&id, CREATOR))
        .unwrap_err();
    assert_eq!(err, ContractError::Unauthorized {});
}

#[test]
fn update_channel_details_happy_path() {
    let mut c = start_with_fee();
    create(&mut c, CREATOR, "creator", "salt", vec![coin(1_000_000, "uflix")]).unwrap();
    let id = channel_id_of(&c, "creator");
    c.update_channel_details(
        false,
        CREATOR.to_string(),
        id.clone(),
        Some("new description".to_string()),
        None,
        None,
        None,
        None,
        owner(&id, CREATOR),
    )
    .unwrap();
    let m = c.query_channel_metadata(id).unwrap();
    assert_eq!(m.description, Some("new description".to_string()));
    assert_eq!(m.channel_name, "creator");
}

#[test]
fn update_channel_details_invalid() {
    let mut c = start_with_fee();
    create(&mut c, CREATOR, "creator", "salt", vec![coin(1_000_000, "uflix")]).unwrap();
    let id = channel_id_of(&c, "creator");
    let o = owner(&id, CREATOR);
    assert!(c
        .update_channel_details(false, CREATOR.to_string(), id.clone(), None, None, None, Some("i".repeat(1001)), None, o.clone())
        .is_err());
    assert!(c
        .update_channel_details(false, CREATOR.to_string(), id.clone(), None, None, Some("i".repeat(1001)), None, None, o.clone())
        .is_err());
    assert!(c
        .update_channel_details(false, CREATOR.to_string(), id.clone(), None, Some("creator_1".to_string()), None, None, None, o)
        .is_err());
    assert_eq!(c.query_channel_metadata(id).unwrap().channel_name, "creator");
}
