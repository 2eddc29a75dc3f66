use omniflix_channel::asset_manager::error::AssetError;
use omniflix_channel::asset_manager::types::AssetType;
use omniflix_channel::bank::{bank_msg_wrapper, check_payment, distribute_funds_with_shares};
use omniflix_channel::error::ContractError;
use omniflix_channel::random::{byte_to_alphanumeric, generate_random_id_with_prefix, BlockEnv};
use omniflix_channel::registry::channels::{ChannelDetails as RegisteredChannel, ChannelOnftData as RegistryOnftData};
use omniflix_channel::registry::error::ContractError as RegistryError;
use omniflix_channel::string_validation::StringValidationConfig;
use omniflix_channel::text::{decimal_string, join_strings, parse_u128_text};
use omniflix_channel::types::asset::{AssetSource, Flag};
use omniflix_channel::types::channel::{ChannelOnftData, Role};
use omniflix_channel::types::coin::{Coin, Decimal};

fn coin(amount: u128, denom: &str) -> Coin {
    Coin { denom: denom.to_string(), amount }
}

fn mock_env() -> BlockEnv {
    BlockEnv {
        block_time_nanos: 1_571_797_419_879_305_533,
        block_height: 12_345,
        tx_index: Some(3),
        contract_address: "cosmwasm1contract".to_string(),
    }
}

#[test]
fn random_id_generator() {
    let salt = vec![0xb1u8, 0xa9, 0x6d];
    let env = mock_env();
    let channel_id = generate_random_id_with_prefix("channel", None, Some(&env), Some(&salt));
    let onft_id = generate_random_id_with_prefix("onft", None, Some(&env), Some(&salt));
    let channel_id = channel_id.split_at(7).1;
    let onft_id = onft_id.split_at(4).1;
    // the draw does not depend on the prefix
    assert_eq!(channel_id, onft_id);
    assert_eq!(channel_id.len(), 32);
}

#[test]
fn random_ids_follow_their_source() {
    let env = mock_env();
    let a = generate_random_id_with_prefix("publish", Some("entropy"), None, None);
    let b = generate_random_id_with_prefix("publish", Some("entropy"), Some(&env), None);
    let c = generate_random_id_with_prefix("publish", Some("other"), None, None);
    assert!(a.starts_with("publish"));
    assert_eq!(a.len(), "publish".len() + 32);
    // entropy alone decides when it is given
    assert_eq!(a, b);
    assert_ne!(a, c);
    let later = BlockEnv { block_height: 12_346, ..mock_env() };
    let d = generate_random_id_with_prefix("x", None, Some(&env), Some(&b"salt".to_vec()));
    let e = generate_random_id_with_prefix("x", None, Some(&later), Some(&b"salt".to_vec()));
    assert_ne!(d, e);
}

#[test]
fn byte_to_alphanumeric_wraps_at_36() {
    assert_eq!(byte_to_alphanumeric(0), 'a');
    assert_eq!(byte_to_alphanumeric(25), 'z');
    assert_eq!(byte_to_alphanumeric(26), '0');
    assert_eq!(byte_to_alphanumeric(35), '9');
    assert_eq!(byte_to_alphanumeric(36), 'a');
    assert_eq!(byte_to_alphanumeric(255), 'd');
}

#[test]
fn check_payment_compares_totals() {
    assert!(check_payment(vec![coin(10, "uflix")], vec![coin(10, "uflix")]).is_ok());
    // the same totals, split or reordered
    assert!(check_payment(vec![coin(10, "uflix"), coin(5, "atom")], vec![coin(5, "atom"), coin(4, "uflix"), coin(6, "uflix")]).is_ok());
    // zero amounts count for nothing
    assert!(check_payment(vec![], vec![coin(0, "uflix")]).is_ok());
    let err = check_payment(vec![coin(10, "uflix")], vec![coin(11, "uflix")]).unwrap_err();
    assert_eq!(err, ContractError::PaymentError { expected: vec![coin(10, "uflix")], received: vec![coin(11, "uflix")] });
}

#[test]
fn bank_msg_wrapper_normalizes() {
    assert!(bank_msg_wrapper("addr".to_string(), vec![]).is_empty());
    assert!(bank_msg_wrapper("addr".to_string(), vec![coin(0, "uflix")]).is_empty());
    let sends = bank_msg_wrapper("addr".to_string(), vec![coin(3, "uflix"), coin(4, "uflix"), coin(1, "atom")]);
    assert_eq!(sends.len(), 1);
    assert_eq!(sends[0].to_address, "addr");
    assert_eq!(sends[0].amount, vec![coin(1, "atom"), coin(7, "uflix")]);
}

#[test]
fn distribute_funds_with_shares_of_the_whole() {
    let shares = vec![("a".to_string(), Decimal::percent(30)), ("b".to_string(), Decimal::percent(40))];
    let (msgs, attrs) = distribute_funds_with_shares(shares, coin(100, "uflix"), "payee".to_string()).unwrap();
    // 30% and 40% of the whole 100, then the rest
    assert_eq!(msgs.len(), 3);
    assert_eq!((msgs[0].to_address.as_str(), msgs[0].amount.clone()), ("a", vec![coin(30, "uflix")]));
    assert_eq!((msgs[1].to_address.as_str(), msgs[1].amount.clone()), ("b", vec![coin(40, "uflix")]));
    assert_eq!((msgs[2].to_address.as_str(), msgs[2].amount.clone()), ("payee", vec![coin(30, "uflix")]));
    assert_eq!(attrs[0], ("a".to_string(), "30uflix".to_string()));
    assert_eq!(attrs[1], ("b".to_string(), "40uflix".to_string()));
    assert_eq!(attrs[2], ("payee".to_string(), "30uflix".to_string()));
    let total: u128 = msgs.iter().map(|m| m.amount[0].amount).sum();
    assert_eq!(total, 100);
}

#[test]
fn distribute_two_halves_leaves_nothing() {
    let shares = vec![("a".to_string(), Decimal::percent(50)), ("b".to_string(), Decimal::percent(50))];
    let (msgs, attrs) = distribute_funds_with_shares(shares, coin(100, "uflix"), "payee".to_string()).unwrap();
    assert_eq!(msgs.len(), 2);
    assert_eq!((msgs[0].to_address.as_str(), msgs[0].amount.clone()), ("a", vec![coin(50, "uflix")]));
    assert_eq!((msgs[1].to_address.as_str(), msgs[1].amount.clone()), ("b", vec![coin(50, "uflix")]));
    assert_eq!(attrs.len(), 2);
}

#[test]
fn distribute_rounds_each_share_down() {
    let third = Decimal { atomics: 333_333_333_333_333_333 };
    let shares = vec![("a".to_string(), third), ("b".to_string(), third)];
    let (msgs, _) = distribute_funds_with_shares(shares, coin(100_000, "uflix"), "payee".to_string()).unwrap();
    assert_eq!(msgs.len(), 3);
    assert_eq!(msgs[0].amount, vec![coin(33_333, "uflix")]);
    assert_eq!(msgs[1].amount, vec![coin(33_333, "uflix")]);
    assert_eq!((msgs[2].to_address.as_str(), msgs[2].amount.clone()), ("payee", vec![coin(33_334, "uflix")]));
}

#[test]
fn distribute_everything_to_collaborators() {
    let shares = vec![("a".to_string(), Decimal::percent(100))];
    let (msgs, attrs) = distribute_funds_with_shares(shares, coin(100, "uflix"), "payee".to_string()).unwrap();
    assert_eq!(msgs.len(), 1);
    assert_eq!(msgs[0].amount, vec![coin(100, "uflix")]);
    assert_eq!(attrs.len(), 1);
}

#[test]
fn decimals_and_coins_as_text() {
    assert_eq!(Decimal::percent(30).to_text(), "0.3");
    assert_eq!(Decimal::one().to_text(), "1");
    assert_eq!(Decimal::zero().to_text(), "0");
    assert_eq!(Decimal { atomics: 333_333_333_333_333_333 }.to_text(), "0.333333333333333333");
    assert_eq!(Decimal { atomics: 1_500_000_000_000_000_000 }.to_text(), "1.5");
    assert_eq!(coin(100_000, "uflix").to_text(), "100000uflix");
    assert_eq!(decimal_string(0), "0");
    assert_eq!(decimal_string(1_000_000), "1000000");
    assert_eq!(join_strings(&vec!["a".to_string(), "b".to_string()], ","), "a,b");
    assert_eq!(join_strings(&vec![], ","), "");
}

#[test]
fn parse_u128_matches_from_str() {
    assert_eq!(parse_u128_text("1000000"), Some(1_000_000));
    assert_eq!(parse_u128_text("+7"), Some(7));
    assert_eq!(parse_u128_text("007"), Some(7));
    assert_eq!(parse_u128_text(""), None);
    assert_eq!(parse_u128_text("-1"), None);
    assert_eq!(parse_u128_text("1.5"), None);
    assert_eq!(parse_u128_text("340282366920938463463374607431768211455"), Some(u128::MAX));
    assert_eq!(parse_u128_text("340282366920938463463374607431768211456"), None);
    for s in ["0", "42", "+42", "18446744073709551616", "abc", "+"] {
        assert_eq!(parse_u128_text(s), s.parse::<u128>().ok());
    }
}

#[test]
fn onft_data_as_json() {
    let data = ChannelOnftData {
        onft_id: "onft1".to_string(),
        channel_id: "channel1".to_string(),
        user_name: "quote\"back\\slash".to_string(),
    };
    assert_eq!(data.to_json(), "{\"onft_id\":\"onft1\",\"channel_id\":\"channel1\",\"user_name\":\"quote\\\"back\\\\slash\"}");
    let data = ChannelOnftData { onft_id: "a".to_string(), channel_id: "b".to_string(), user_name: "line\nbreak\u{1}".to_string() };
    assert_eq!(data.to_json(), "{\"onft_id\":\"a\",\"channel_id\":\"b\",\"user_name\":\"line\\nbreak\\u0001\"}");
    let registry = RegistryOnftData { channel_id: "c".to_string(), user_name: "u".to_string() };
    assert_eq!(registry.to_json(), "{\"channel_id\":\"c\",\"user_name\":\"u\"}");
}

#[test]
fn texts_of_sources_and_types() {
    let nft = AssetSource::Nft { collection_id: "c".to_string(), onft_id: "o".to_string() };
    assert_eq!(nft.to_text(), "NFT: c o");
    let off = AssetSource::OffChain { media_uri: "m".to_string(), name: "n".to_string(), description: "d".to_string() };
    assert_eq!(off.to_text(), "OffChain: m n d");
    let t = AssetType::OffChain { media_uri: "m".to_string(), name: "n".to_string(), description: "d".to_string() };
    assert_eq!(t.to_text(), "OffChain: m n d");
    assert_eq!(AssetType::Nft { collection_id: "c".to_string(), onft_id: "o".to_string() }.to_text(), "NFT: c o");
    assert_eq!(Flag::Other("x".to_string()).to_text(), "Other: x");
    assert_eq!(Flag::NSFW.to_text(), "NSFW");
    assert_eq!(Role::Publisher.name(), "Publisher");
}

#[test]
fn flags_keys_and_values() {
    let keys: Vec<String> = Flag::values().iter().map(|f| f.to_key()).collect();
    assert_eq!(keys, vec!["n", "e", "s", "h", "o"]);
}

#[test]
fn roles_rank() {
    assert!(Role::Admin.has_sufficient_privileges(&Role::Publisher));
    assert!(Role::Moderator.has_sufficient_privileges(&Role::Moderator));
    assert!(!Role::Publisher.has_sufficient_privileges(&Role::Moderator));
    assert!(Role::Admin.privilege_level() > Role::Moderator.privilege_level());
}

#[test]
fn asset_types_validate() {
    let nft = AssetType::Nft { collection_id: "".to_string(), onft_id: "o".to_string() };
    assert_eq!(nft.validate(), Err(AssetError::CollectionIdCannotBeEmpty {}));
    let nft = AssetType::Nft { collection_id: "c".to_string(), onft_id: "".to_string() };
    assert_eq!(nft.validate(), Err(AssetError::OnftIdCannotBeEmpty {}));
    let off = AssetType::OffChain { media_uri: "m".repeat(256), name: "".to_string(), description: "d".to_string() };
    assert_eq!(off.validate(), Err(AssetError::MediaUriTooLong {}));
    let off = AssetType::OffChain { media_uri: "m".to_string(), name: "".to_string(), description: "".to_string() };
    assert_eq!(off.validate(), Err(AssetError::DescriptionCannotBeEmpty {}));
    let off = AssetType::OffChain { media_uri: "m".to_string(), name: "".to_string(), description: "d".to_string() };
    assert_eq!(off.validate(), Ok(()));
}

#[test]
fn string_validation_default_config() {
    let c = StringValidationConfig::default();
    assert_eq!((c.min_length, c.max_length), (3, 32));
    assert!(!c.allow_numbers && !c.allow_uppercase && !c.allow_spaces && !c.allow_special_chars);
    assert!(c.required_prefixes.is_empty() && c.required_suffixes.is_empty() && c.must_contain.is_empty());
}

#[test]
fn registered_channel_lengths_are_bytes() {
    let d = |u: &str, desc: &str| RegisteredChannel::new("c".to_string(), u.to_string(), "o".to_string(), desc.to_string());
    assert_eq!(d("ab", "abc").validate_channel_details(), Err(RegistryError::InvalidUserName {}));
    assert_eq!(d("abc", "ab").validate_channel_details(), Err(RegistryError::InvalidDescription {}));
    // eleven three-byte characters are 33 bytes
    assert_eq!(d(&"\u{20ac}".repeat(11), "abc").validate_channel_details(), Err(RegistryError::InvalidUserName {}));
    assert_eq!(d(&"a".repeat(32), &"b".repeat(256)).validate_channel_details(), Ok(()));
}
