use vstd::prelude::*;

use crate::asset_manager::assets::{asset_storage_key, sift, AssetsManager};
use crate::asset_manager::error::{AssetError, PlaylistError};
use crate::asset_manager::playlists::{remove_each, PlaylistsManager};
use crate::bank::{
    attrs_view, bank_msg_wrapper, canonical, check_payment, distribute_funds_with_shares, lemma_pays_within, lemma_share_total_push,
    must_pay,
    must_pay_result, paid, payouts, share_addresses, share_atomics, share_attrs, share_total, total, totals_fit,
    transfers,
    BankSend,
};
use crate::channel_manager::channel::{
    reserve_all, share_weight, strings_view, unreserve_all, ChannelsManager, Collaborator,
};
use crate::channel_manager::error::ChannelError;
use crate::error::ContractError;
use crate::helpers::{
    asset_source_outcome, checked, checks_view, collection_checks, filter_assets_to_remove, first_invalid,
    first_reservation_problem, metadata_checks, opt_check, push_opt_check, reports, str_len, token_checks, valid,
    validate_asset_source, validate_channel_collection_details, validate_channel_details, validate_channel_metadata,
    validate_channel_token_details, validate_reserved_usernames, validate_strings,
};
use crate::json::onft_json;
use crate::keys::{key1, key2, key3};
use crate::map::{in_channel_after, lemma_selected_in, lemma_tally_bounds, selected, tally};
use crate::random::{generate_random_id_with_prefix, id_source, random_id, BlockEnv};
use crate::string_validation::StringValidationType;
use crate::text::{join_strings, joined, parse_u128, parse_u128_text};
use crate::types::asset::{
    asset_key_view, asset_keys_view, copy_asset_key, flag_key, flag_text, source_text, Asset, AssetKey,
    AssetMetadata, AssetSource, Flag, Playlist,
};
use crate::types::channel::{
    copy_opt_string, role_allows, role_name, ChannelCollaborator, ChannelDetails, ChannelMetadata, ChannelOnftData,
    Role,
};
use crate::types::coin::{coin_text, coins_view, decimal_text, Coin, Decimal, DECIMAL_FRACTIONAL};
use crate::types::config::{AuthDetails, ChannelConractConfig};
use crate::types::msg::{
    AssetResponse, ChannelResponse, ChannelTokenDetails, ChannelsCollectionDetails, CollaboratorInfo, FlagInfo,
    InstantiateMsg, ReservedUsername,
};

verus! {

/// A message for the chain to run after a handler succeeds.
#[derive(Debug, PartialEq, Eq)]
pub enum CosmosMsg {
    /// A transfer of coins.
    Bank(BankSend),
    /// The minting of an ONFT.
    MintOnft(MintOnftMsg),
    /// The creation of an ONFT collection.
    CreateDenom(CreateDenomMsg),
}

/// The minting of an ONFT into a collection.
#[derive(Debug, PartialEq, Eq)]
pub struct MintOnftMsg {
    pub id: String,
    pub denom_id: String,
    pub sender: String,
    pub recipient: String,
    pub data: String,
    pub media_uri: String,
    pub name: String,
    pub description: String,
    pub preview_uri: String,
    pub uri_hash: String,
    pub nsfw: bool,
    pub extensible: bool,
    pub royalty_share: String,
    pub transferable: bool,
}

/// The creation of an ONFT collection.
#[derive(Debug, PartialEq, Eq)]
pub struct CreateDenomMsg {
    pub id: String,
    pub name: String,
    pub symbol: String,
    pub description: String,
    pub preview_uri: String,
    pub schema: String,
    pub sender: String,
    pub creation_fee: Coin,
    pub uri: String,
    pub uri_hash: String,
    pub data: String,
}

/// What a handler hands back: messages to run and attributes to report.
#[derive(Debug, PartialEq, Eq)]
pub struct Response {
    pub messages: Vec<CosmosMsg>,
    pub attributes: Vec<(String, String)>,
}


/// An attribute.
pub(crate) fn attr(k: &str, v: &str) -> (r: (String, String))
    ensures
        r.0@ == k@,
        r.1@ == v@,
{
    (k.to_owned(), v.to_owned())
}

/// A response with no messages and the given attributes.
pub(crate) fn attrs_only(attributes: Vec<(String, String)>) -> (r: Response)
    ensures
        r.messages@.len() == 0,
        r.attributes@ == attributes@,
{
    Response { messages: Vec::new(), attributes }
}

/// The attributes reporting reservations made.
pub open spec fn added_attrs(us: Seq<ReservedUsername>) -> Seq<(Seq<char>, Seq<char>)> {
    us.map_values(|u: ReservedUsername| ("add_username"@, u.username@))
}

/// The attributes reporting reservations lifted.
pub open spec fn removed_attrs(names: Seq<String>) -> Seq<(Seq<char>, Seq<char>)> {
    names.map_values(|n: String| ("remove_username"@, n@))
}

/// `b` written out.
pub open spec fn bool_text(b: bool) -> Seq<char> {
    if b { "true"@ } else { "false"@ }
}

/// The text of `o` when present, `d` otherwise.
pub open spec fn text_or(o: Option<String>, d: Seq<char>) -> Seq<char> {
    match o {
        Some(t) => t@,
        None => d,
    }
}

/// The details stored for the asset under `k`, each field as characters; empty
/// details when none are stored.
pub open spec fn stored_metadata(m: Map<Seq<Seq<char>>, AssetMetadata>, k: Seq<Seq<char>>) -> (
    Seq<char>,
    Seq<char>,
    Seq<char>,
    Option<Seq<char>>,
) {
    if m.contains_key(k) {
        (m[k].name@, m[k].description@, m[k].media_uri@, crate::channel_manager::channel::opt_chars(m[k].thumbnail_uri))
    } else {
        (Seq::empty(), Seq::empty(), Seq::empty(), None)
    }
}

/// The checks of the new details of an asset: name, description, media link
/// and thumbnail link, each when given.
pub open spec fn asset_update_checks(
    name: Option<String>,
    description: Option<String>,
    media_uri: Option<String>,
    thumbnail_uri: Option<String>,
) -> Seq<(StringValidationType, Seq<char>)> {
    opt_check(StringValidationType::AssetName, name) + opt_check(StringValidationType::Description, description)
        + opt_check(StringValidationType::Link, media_uri) + opt_check(StringValidationType::Link, thumbnail_uri)
}

/// A channel's presentation with the given fields replaced.
pub open spec fn merged_metadata(
    old: ChannelMetadata,
    description: Option<String>,
    channel_name: Option<String>,
    profile_picture: Option<String>,
    banner_picture: Option<String>,
) -> ChannelMetadata {
    ChannelMetadata {
        channel_name: match channel_name {
            Some(n) => n,
            None => old.channel_name,
        },
        description: match description {
            Some(d) => Some(d),
            None => old.description,
        },
        profile_picture: match profile_picture {
            Some(p) => Some(p),
            None => old.profile_picture,
        },
        banner_picture: match banner_picture {
            Some(b) => Some(b),
            None => old.banner_picture,
        },
    }
}

/// Updating a channel's presentation replaces exactly the fields that are sent:
/// each field given takes its new value, and each field left out (`None`) keeps
/// the value it had.
pub proof fn law_update_keeps_unsent_presentation(
    old: ChannelMetadata,
    description: Option<String>,
    channel_name: Option<String>,
    profile_picture: Option<String>,
    banner_picture: Option<String>,
)
    ensures
        ({
            let m = merged_metadata(old, description, channel_name, profile_picture, banner_picture);
            &&& channel_name is None ==> m.channel_name == old.channel_name
            &&& channel_name matches Some(n) ==> m.channel_name == n
            &&& description is None ==> m.description == old.description
            &&& description matches Some(d) ==> m.description == Some(d)
            &&& profile_picture is None ==> m.profile_picture == old.profile_picture
            &&& profile_picture matches Some(p) ==> m.profile_picture == Some(p)
            &&& banner_picture is None ==> m.banner_picture == old.banner_picture
            &&& banner_picture matches Some(b) ==> m.banner_picture == Some(b)
        }),
{
}

/// The first failing check of two lists run one after the other: none exactly
/// when neither list has one.
proof fn lemma_first_invalid_concat(
    a: Seq<(StringValidationType, Seq<char>)>,
    b: Seq<(StringValidationType, Seq<char>)>,
)
    ensures
        first_invalid(a + b) is None <==> first_invalid(a) is None && first_invalid(b) is None,
    decreases a.len(),
{
    if a.len() > 0 {
        assert((a + b)[0] == a[0]);
        assert((a + b).drop_first() =~= a.drop_first() + b);
        lemma_first_invalid_concat(a.drop_first(), b);
    } else {
        assert(a + b =~= b);
    }
}

/// The check of one optional string passes exactly when the string is absent or
/// valid for its kind.
proof fn lemma_opt_check(t: StringValidationType, o: Option<String>)
    ensures
        first_invalid(opt_check(t, o)) is None <==> (o matches Some(x) ==> valid(t, x@)),
{
    let e = Seq::<(StringValidationType, Seq<char>)>::empty();
    assert(first_invalid(e) is None);
    if let Some(x) = o {
        assert(opt_check(t, o)[0] == (t, x@));
        assert(opt_check(t, o).drop_first() =~= e);
    } else {
        assert(opt_check(t, o) =~= e);
    }
}

/// New asset details pass their checks exactly when the name, if sent, is a
/// valid asset name, the description, if sent, a valid description, and the
/// media and thumbnail links, if sent, valid links.
pub proof fn law_asset_update_checks(
    name: Option<String>,
    description: Option<String>,
    media_uri: Option<String>,
    thumbnail_uri: Option<String>,
)
    ensures
        first_invalid(asset_update_checks(name, description, media_uri, thumbnail_uri)) is None <==> {
            &&& name matches Some(n) ==> valid(StringValidationType::AssetName, n@)
            &&& description matches Some(d) ==> valid(StringValidationType::Description, d@)
            &&& media_uri matches Some(m) ==> valid(StringValidationType::Link, m@)
            &&& thumbnail_uri matches Some(t) ==> valid(StringValidationType::Link, t@)
        },
{
    let a = opt_check(StringValidationType::AssetName, name);
    let b = opt_check(StringValidationType::Description, description);
    let c = opt_check(StringValidationType::Link, media_uri);
    let d = opt_check(StringValidationType::Link, thumbnail_uri);
    lemma_first_invalid_concat(a, b);
    lemma_first_invalid_concat(a + b, c);
    lemma_first_invalid_concat(a + b + c, d);
    lemma_opt_check(StringValidationType::AssetName, name);
    lemma_opt_check(StringValidationType::Description, description);
    lemma_opt_check(StringValidationType::Link, media_uri);
    lemma_opt_check(StringValidationType::Link, thumbnail_uri);
}

/// When only a new description is sent, the details pass their checks exactly
/// when the description is 3 to 256 bytes long, whatever its characters, so
/// punctuation is allowed.
pub proof fn law_asset_description_update_checks(description: String)
    ensures
        first_invalid(asset_update_checks(None, Some(description), None, None)) is None <==> 3 <= str_len(
            description@,
        ) <= 256,
{
    law_asset_update_checks(None, Some(description), None, None);
    crate::string_validation::law_description_rules(description@, str_len(description@));
}

/// The attributes reporting a minted channel ONFT.
pub open spec fn mint_attrs(
    denom_id: Seq<char>,
    onft_id: Seq<char>,
    owner: Seq<char>,
    name: Seq<char>,
    data: Seq<char>,
) -> Seq<(Seq<char>, Seq<char>)> {
    seq![
        ("denom_id"@, denom_id),
        ("onft_id"@, onft_id),
        ("owner"@, owner),
        ("name"@, name),
        ("description"@, ""@),
        ("media_uri"@, ""@),
        ("preview_uri"@, ""@),
        ("uri_hash"@, ""@),
        ("nsfw"@, "false"@),
        ("data"@, data),
        ("extensible"@, "false"@),
        ("royalty_share"@, "0"@),
        ("transferable"@, "true"@),
        ("created_at"@, ""@),
    ]
}

/// The minting of channel ONFT `onft_id` into collection `denom_id` by
/// `contract_address` for `recipient`, carrying `onft_data` and named after the
/// username, with the collection-wide token details.
pub fn generate_mint_onft_msg(
    onft_id: String,
    denom_id: String,
    contract_address: String,
    recipient: String,
    onft_data: String,
    user_name: String,
    channel_token_details: ChannelTokenDetails,
) -> (r: (CosmosMsg, Vec<(String, String)>))
    ensures
        r.0 == CosmosMsg::MintOnft(
            MintOnftMsg {
                id: onft_id,
                denom_id,
                sender: contract_address,
                recipient,
                data: onft_data,
                media_uri: channel_token_details.media_uri,
                name: user_name,
                description: channel_token_details.description,
                preview_uri: channel_token_details.preview_uri,
                uri_hash: channel_token_details.uri_hash,
                nsfw: channel_token_details.nsfw,
                extensible: channel_token_details.extensible,
                royalty_share: channel_token_details.royalty_share,
                transferable: channel_token_details.transferable,
            },
        ),
        attrs_view(r.1@) == mint_attrs(denom_id@, onft_id@, recipient@, user_name@, onft_data@),
{
    let mut v: Vec<(String, String)> = Vec::new();
    v.push(attr("denom_id", denom_id.as_str()));
    v.push(attr("onft_id", onft_id.as_str()));
    v.push(attr("owner", recipient.as_str()));
    v.push(attr("name", user_name.as_str()));
    v.push(attr("description", ""));
    v.push(attr("media_uri", ""));
    v.push(attr("preview_uri", ""));
    v.push(attr("uri_hash", ""));
    v.push(attr("nsfw", "false"));
    v.push(attr("data", onft_data.as_str()));
    v.push(attr("extensible", "false"));
    v.push(attr("royalty_share", "0"));
    v.push(attr("transferable", "true"));
    v.push(attr("created_at", ""));
    assert(attrs_view(v@) =~= mint_attrs(denom_id@, onft_id@, recipient@, user_name@, onft_data@));
    let msg = CosmosMsg::MintOnft(
        MintOnftMsg {
            id: onft_id,
            denom_id,
            sender: contract_address,
            recipient,
            data: onft_data,
            media_uri: channel_token_details.media_uri,
            name: user_name,
            description: channel_token_details.description,
            preview_uri: channel_token_details.preview_uri,
            uri_hash: channel_token_details.uri_hash,
            nsfw: channel_token_details.nsfw,
            extensible: channel_token_details.extensible,
            royalty_share: channel_token_details.royalty_share,
            transferable: channel_token_details.transferable,
        },
    );
    (msg, v)
}

/// The creation of the collection of channel ONFTs, paid with `creation_fee`.
pub fn generate_create_denom_msg(
    collection_details: ChannelsCollectionDetails,
    contract_address: String,
    creation_fee: Coin,
) -> (r: CosmosMsg)
    ensures
        r matches CosmosMsg::CreateDenom(m) && {
            &&& m.id == collection_details.collection_id
            &&& m.name == collection_details.collection_name
            &&& m.symbol == collection_details.collection_symbol
            &&& m.description == collection_details.description
            &&& m.preview_uri == collection_details.preview_uri
            &&& m.schema == collection_details.schema
            &&& m.sender == contract_address
            &&& m.creation_fee == creation_fee
            &&& m.uri == collection_details.uri
            &&& m.uri_hash@ == Seq::<char>::empty()
            &&& m.data@ == Seq::<char>::empty()
        },
{
    CosmosMsg::CreateDenom(
        CreateDenomMsg {
            id: collection_details.collection_id,
            name: collection_details.collection_name,
            symbol: collection_details.collection_symbol,
            description: collection_details.description,
            preview_uri: collection_details.preview_uri,
            schema: collection_details.schema,
            sender: contract_address,
            creation_fee,
            uri: collection_details.uri,
            uri_hash: String::new(),
            data: String::new(),
        },
    )
}

/// The fee for creating an ONFT collection, from the denomination and decimal
/// amount that a query of the chain's parameters reported (`None` when it
/// reported none).
pub fn get_collection_creation_fee(queried: Option<(String, String)>) -> (r: Result<Coin, ContractError>)
    ensures
        match queried {
            None => r == Err::<Coin, ContractError>(ContractError::CollectionCreationFeeError {}),
            Some((denom, amount)) => match parse_u128(amount@) {
                None => r == Err::<Coin, ContractError>(ContractError::CollectionCreationFeeError {}),
                Some(a) => r == Ok::<Coin, ContractError>(Coin { denom, amount: a }),
            },
        },
{
    match queried {
        None => Err(ContractError::CollectionCreationFeeError {}),
        Some((denom, amount)) => match parse_u128_text(amount.as_str()) {
            None => Err(ContractError::CollectionCreationFeeError {}),
            Some(a) => Ok(Coin { denom, amount: a }),
        },
    }
}

/// `c` reports channel `id` as `query_channel` does: its identity, presentation,
/// first collaborators and number of followers.
pub open spec fn describes_channel(ch: ChannelsManager, id: Seq<char>, c: ChannelResponse) -> bool {
    let d = ch.channel_details.view()[key1(id)];
    let m = ch.channel_metadata.view()[key1(id)];
    &&& c.channel_id == d.channel_id
    &&& c.user_name == d.user_name
    &&& c.onft_id == d.onft_id
    &&& c.payment_address == d.payment_address
    &&& c.channel_name == m.channel_name
    &&& c.description == m.description
    &&& c.profile_picture == m.profile_picture
    &&& c.banner_picture == m.banner_picture
    &&& ch.lists_collaborators(id, None, None, c.collaborators@)
    &&& c.follower_count == ch.follower_count(id)
}

/// The ids of the channels that a listing of up to `limit` (25 when not given)
/// channels after `start_after` shows, in order.
pub open spec fn listed_ids(ch: ChannelsManager, start_after: Option<String>, limit: Option<u32>) -> Seq<Seq<char>> {
    let n = match limit {
        Some(l) => l as int,
        None => crate::channel_manager::channel::DEFAULT_LIMIT as int,
    };
    let idx = crate::map::first_n(
        selected(
            ch.channel_details.key_seq(),
            crate::channel_manager::channel::after_opt(crate::channel_manager::channel::opt_chars(start_after)),
            ch.channel_details.key_seq().len() as int,
        ),
        n,
    );
    Seq::new(idx.len(), |j: int| ch.channel_details.val_seq()[idx[j]].channel_id@)
}

/// Channel `id` has both an identity and a presentation.
pub open spec fn channel_known(ch: ChannelsManager, id: Seq<char>) -> bool {
    ch.channel_details.view().contains_key(key1(id)) && ch.channel_metadata.view().contains_key(key1(id))
}

/// The outcome of a handler without its response.
pub open spec fn unit_of(r: Result<Response, ContractError>) -> Result<(), ContractError> {
    match r {
        Ok(_) => Ok(()),
        Err(e) => Err(e),
    }
}

/// The collaborators of channel `c` with their shares, in address order.
pub open spec fn channel_shares(ch: ChannelsManager, c: Seq<char>) -> Seq<(String, Decimal)> {
    let ks = ch.channel_collaborators.key_seq();
    let vs = ch.channel_collaborators.val_seq();
    let idx = selected(ks, |k: Seq<Seq<char>>| in_channel_after(k, c, None), ks.len() as int);
    Seq::new(idx.len(), |j: int| (vs[idx[j]].0, vs[idx[j]].1.share))
}

/// The shares, in atomics, of the collaborator entries of `vs` at indices `idx`.
pub open spec fn picked_shares(vs: Seq<Collaborator>, idx: Seq<int>) -> Seq<u128> {
    Seq::new(idx.len(), |j: int| vs[idx[j]].1.share.atomics)
}

/// Among the first `n` entries, the shares of channel `c`'s collaborators add up
/// to the tally of its shares there.
pub proof fn lemma_channel_share_total(ks: Seq<Seq<Seq<char>>>, vs: Seq<Collaborator>, c: Seq<char>, n: int)
    requires
        ks.len() == vs.len(),
        0 <= n <= ks.len(),
    ensures
        share_total(picked_shares(vs, selected(ks, |k: Seq<Seq<char>>| in_channel_after(k, c, None), n))) == tally(
            ks.take(n),
            vs.take(n),
            share_weight(c),
        ),
    decreases n,
{
    let pred = |k: Seq<Seq<char>>| in_channel_after(k, c, None);
    if n == 0 {
        assert(picked_shares(vs, selected(ks, pred, 0)) =~= Seq::<u128>::empty());
    } else {
        lemma_channel_share_total(ks, vs, c, n - 1);
        let prev = selected(ks, pred, n - 1);
        assert(ks.take(n).drop_last() =~= ks.take(n - 1));
        assert(vs.take(n).drop_last() =~= vs.take(n - 1));
        assert(ks.take(n).last() == ks[n - 1]);
        assert(vs.take(n).last() == vs[n - 1]);
        if pred(ks[n - 1]) {
            let x = vs[n - 1].1.share.atomics;
            assert(picked_shares(vs, prev.push(n - 1)) =~= picked_shares(vs, prev).push(x));
            lemma_share_total_push(picked_shares(vs, prev), x);
        }
    }
}

/// The messages are bank transfers of `denom` as `ts` lists them, in order.
pub open spec fn transfers_sent(msgs: Seq<CosmosMsg>, ts: Seq<(Seq<char>, int)>, denom: Seq<char>) -> bool {
    &&& msgs.len() == ts.len()
    &&& forall|j: int|
        0 <= j < ts.len() ==> (#[trigger] msgs[j] matches CosmosMsg::Bank(b) && b.to_address@ == ts[j].0
            && coins_view(b.amount@) == seq![(denom, ts[j].1 as u128)])
}

/// `r` refuses with error `e` and leaves the state `before` as it was.
pub open spec fn refused(r: Result<Response, ContractError>, e: ContractError, before: ChannelContract, after: ChannelContract) -> bool {
    r matches Err(x) && x == e && after == before
}

/// `r` succeeds with no messages and with attributes `attrs`.
pub open spec fn answered(r: Result<Response, ContractError>, attrs: Seq<(Seq<char>, Seq<char>)>) -> bool {
    r matches Ok(resp) && resp.messages@.len() == 0 && attrs_view(resp.attributes@) == attrs
}

/// Whether `sender` may act on channel `channel_id` with role `required`: it holds
/// the channel's ONFT (the query reported it as the holder), or it collaborates
/// on the channel with a role that allows `required`.
pub open spec fn allowed(
    channels: ChannelsManager,
    channel_id: Seq<char>,
    sender: Seq<char>,
    required: Role,
    queried_owner: Option<String>,
) -> bool {
    ||| queried_owner matches Some(o) && o@ == sender
    ||| channels.channel_collaborators.view().contains_key(key2(channel_id, sender)) && role_allows(
        channels.channel_collaborators.view()[key2(channel_id, sender)].1.role,
        required,
    )
}

/// The error, if any, with which a permission check refuses `sender` on channel
/// `channel_id`.
pub open spec fn permission_error(
    channels: ChannelsManager,
    channel_id: Seq<char>,
    sender: Seq<char>,
    required: Role,
    queried_owner: Option<String>,
) -> Option<ContractError> {
    if !channels.channel_details.view().contains_key(key1(channel_id)) {
        Some(ContractError::Channel(ChannelError::ChannelIdNotFound {}))
    } else if !allowed(channels, channel_id, sender, required, queried_owner) {
        Some(ContractError::Unauthorized {})
    } else {
        None
    }
}

/// Checks that `sender` may act on channel `channel_id` with role
/// `required_role`, given the holder of the channel's ONFT that a query reported
/// (`None` when it found none).
pub fn validate_permissions(
    channels: &ChannelsManager,
    channel_id: &String,
    sender: &String,
    required_role: Role,
    queried_owner: &Option<String>,
) -> (r: Result<(), ContractError>)
    requires
        channels.wf(),
    ensures
        match permission_error(*channels, channel_id@, sender@, required_role, *queried_owner) {
            Some(e) => r == Err::<(), ContractError>(e),
            None => r is Ok,
        },
{
    if let Err(e) = channels.get_channel_details(channel_id.clone()) {
        return Err(ContractError::Channel(e));
    }
    if let Some(o) = queried_owner {
        if *o == *sender {
            return Ok(());
        }
    }
    if let Ok(collaborator) = channels.get_collaborator(channel_id.clone(), sender.clone()) {
        if has_sufficient_privileges(collaborator.role, required_role) {
            return Ok(());
        }
    }
    Err(ContractError::Unauthorized {})
}

/// Whether `actual_role` allows what `required_role` allows.
pub fn has_sufficient_privileges(actual_role: Role, required_role: Role) -> (r: bool)
    ensures
        r == role_allows(actual_role, required_role),
{
    match (actual_role, required_role) {
        (Role::Admin, _) => true,
        (Role::Moderator, Role::Moderator) => true,
        (Role::Moderator, Role::Publisher) => true,
        (Role::Publisher, Role::Publisher) => true,
        _ => false,
    }
}

/// The state of the channel contract.
pub struct ChannelContract {
    pub config: ChannelConractConfig,
    /// How each channel ONFT is described.
    pub channel_token_details: ChannelTokenDetails,
    pub channels: ChannelsManager,
    pub assets: AssetsManager,
    pub playlists: PlaylistsManager,
}

/// The error, if any, with which a pausable handler that needs role `required`
/// refuses `sender` on channel `channel_id`.
pub open spec fn gate(
    c: ChannelContract,
    paused: bool,
    channel_id: Seq<char>,
    sender: Seq<char>,
    required: Role,
    queried_owner: Option<String>,
) -> Option<ContractError> {
    if paused {
        Some(ContractError::Paused {})
    } else {
        permission_error(c.channels, channel_id, sender, required, queried_owner)
    }
}

impl ChannelContract {
    pub open spec fn wf(&self) -> bool {
        &&& self.channels.wf()
        &&& self.assets.wf()
        &&& self.playlists.wf()
    }

    /// Refuses when paused, then checks permissions.
    fn check_gate(
        &self,
        paused: bool,
        channel_id: &String,
        sender: &String,
        required: Role,
        queried_owner: &Option<String>,
    ) -> (r: Result<(), ContractError>)
        requires
            self.wf(),
        ensures
            match gate(*self, paused, channel_id@, sender@, required, *queried_owner) {
                Some(e) => r == Err::<(), ContractError>(e),
                None => r is Ok,
            },
    {
        if paused {
            return Err(ContractError::Paused {});
        }
        validate_permissions(&self.channels, channel_id, sender, required, queried_owner)
    }

    /// Creates playlist `playlist_name` in channel `channel_id`; the name is
    /// checked as an asset name is.
    pub fn create_playlist(
        &mut self,
        paused: bool,
        sender: String,
        channel_id: String,
        playlist_name: String,
        queried_owner: Option<String>,
    ) -> (r: Result<Response, ContractError>)
        requires
            old(self).wf(),
        ensures
            final(self).wf(),
            ({
                let k = key2(channel_id@, playlist_name@);
                match gate(*old(self), paused, channel_id@, sender@, Role::Publisher, queried_owner) {
                    Some(e) => r matches Err(x) && x == e && *final(self) == *old(self),
                    None => if !crate::helpers::valid(StringValidationType::AssetName, playlist_name@) {
                        crate::helpers::reports(unit_of(r), StringValidationType::AssetName, playlist_name@)
                            && *final(self) == *old(self)
                    } else if old(self).playlists.view().contains_key(k) {
                        r matches Err(x) && x == ContractError::Playlist(
                            crate::asset_manager::error::PlaylistError::PlaylistAlreadyExists {},
                        ) && *final(self) == *old(self)
                    } else {
                        &&& r matches Ok(resp) && resp.messages@.len() == 0 && attrs_view(resp.attributes@) == seq![
                            ("action"@, "create_playlist"@),
                            ("channel_id"@, channel_id@),
                            ("playlist_name"@, playlist_name@),
                        ]
                        &&& final(self).playlists.view().dom() == old(self).playlists.view().dom().insert(k)
                        &&& final(self).playlists.view().remove(k) == old(self).playlists.view().remove(k)
                        &&& final(self).playlists.view()[k].playlist_name == playlist_name
                        &&& final(self).playlists.view()[k].assets@.len() == 0
                        &&& final(self).channels == old(self).channels
                        &&& final(self).assets == old(self).assets
                        &&& final(self).config == old(self).config
                    },
                }
            }),
    {
        self.check_gate(paused, &channel_id, &sender, Role::Publisher, &queried_owner)?;
        if let Err(e) = crate::string_validation::validate_string(playlist_name.as_str(), StringValidationType::AssetName) {
            return Err(e);
        }
        if let Err(e) = self.playlists.add_new_playlist(channel_id.clone(), playlist_name.clone()) {
            return Err(ContractError::Playlist(e));
        }
        let mut attributes: Vec<(String, String)> = Vec::new();
        attributes.push(attr("action", "create_playlist"));
        attributes.push(attr("channel_id", channel_id.as_str()));
        attributes.push(attr("playlist_name", playlist_name.as_str()));
        let resp = attrs_only(attributes);
        assert(attrs_view(resp.attributes@) =~= seq![
            ("action"@, "create_playlist"@),
            ("channel_id"@, channel_id@),
            ("playlist_name"@, playlist_name@),
        ]);
        Ok(resp)
    }

    /// Makes `sender` a follower of channel `channel_id`; refused while paused.
    pub fn follow_channel(&mut self, paused: bool, sender: String, channel_id: String) -> (r: Result<Response, ContractError>)
        requires
            old(self).wf(),
        ensures
            final(self).wf(),
            if paused {
                refused(r, ContractError::Paused {}, *old(self), *final(self))
            } else {
                ({
                    let k = key2(channel_id@, sender@);
                    if !old(self).channels.channel_details.view().contains_key(key1(channel_id@)) {
                        refused(r, ContractError::Channel(ChannelError::ChannelIdNotFound {}), *old(self), *final(self))
                    } else if old(self).channels.followers.view().contains_key(k) {
                        refused(r, ContractError::Channel(ChannelError::AlreadyFollowing {}), *old(self), *final(self))
                    } else {
                        &&& answered(r, seq![("action"@, "follow_channel"@), ("channel_id"@, channel_id@)])
                        &&& final(self).channels.followers.view() == old(self).channels.followers.view().insert(k, sender)
                        &&& final(self).channels.channel_details == old(self).channels.channel_details
                        &&& final(self).assets == old(self).assets
                        &&& final(self).playlists == old(self).playlists
                    }
                })
            },
    {
        if paused {
            return Err(ContractError::Paused {});
        }
        if let Err(e) = self.channels.add_follower(channel_id.clone(), sender) {
            return Err(ContractError::Channel(e));
        }
        let mut v: Vec<(String, String)> = Vec::new();
        v.push(attr("action", "follow_channel"));
        v.push(attr("channel_id", channel_id.as_str()));
        assert(attrs_view(v@) =~= seq![("action"@, "follow_channel"@), ("channel_id"@, channel_id@)]);
        Ok(attrs_only(v))
    }

    /// Stops `sender` following channel `channel_id`; refused while paused.
    pub fn unfollow_channel(&mut self, paused: bool, sender: String, channel_id: String) -> (r: Result<Response, ContractError>)
        requires
            old(self).wf(),
        ensures
            final(self).wf(),
            if paused {
                refused(r, ContractError::Paused {}, *old(self), *final(self))
            } else {
                ({
                    let k = key2(channel_id@, sender@);
                    if !old(self).channels.followers.view().contains_key(k) {
                        refused(r, ContractError::Channel(ChannelError::FollowerNotFound {}), *old(self), *final(self))
                    } else {
                        &&& answered(r, seq![("action"@, "unfollow_channel"@), ("channel_id"@, channel_id@)])
                        &&& final(self).channels.followers.view() == old(self).channels.followers.view().remove(k)
                        &&& final(self).channels.channel_details == old(self).channels.channel_details
                        &&& final(self).assets == old(self).assets
                        &&& final(self).playlists == old(self).playlists
                    }
                })
            },
    {
        if paused {
            return Err(ContractError::Paused {});
        }
        if let Err(e) = self.channels.remove_follower(channel_id.clone(), sender) {
            return Err(ContractError::Channel(e));
        }
        let mut v: Vec<(String, String)> = Vec::new();
        v.push(attr("action", "unfollow_channel"));
        v.push(attr("channel_id", channel_id.as_str()));
        assert(attrs_view(v@) =~= seq![("action"@, "unfollow_channel"@), ("channel_id"@, channel_id@)]);
        Ok(attrs_only(v))
    }

    /// Deletes channel `channel_id` with its assets and playlists.
    pub fn delete_channel(
        &mut self,
        paused: bool,
        sender: String,
        channel_id: String,
        queried_owner: Option<String>,
    ) -> (r: Result<Response, ContractError>)
        requires
            old(self).wf(),
        ensures
            final(self).wf(),
            match gate(*old(self), paused, channel_id@, sender@, Role::Admin, queried_owner) {
                Some(e) => refused(r, e, *old(self), *final(self)),
                None => if !old(self).channels.channel_id_to_username.view().contains_key(key1(channel_id@)) {
                    refused(r, ContractError::Channel(ChannelError::UserNameNotFound {}), *old(self), *final(self))
                } else {
                    &&& answered(r, seq![("action"@, "delete_channel"@), ("channel_id"@, channel_id@)])
                    &&& final(self).channels.channel_details.view() == old(self).channels.channel_details.view().remove(
                        key1(channel_id@),
                    )
                    &&& forall|x: Seq<Seq<char>>|
                        #[trigger] final(self).assets.view().contains_key(x) <==> old(self).assets.view().contains_key(x)
                            && !(x.len() > 0 && x[0] == channel_id@)
                    &&& forall|x: Seq<Seq<char>>|
                        #[trigger] final(self).playlists.view().contains_key(x) <==> old(
                            self,
                        ).playlists.view().contains_key(x) && !(x.len() > 0 && x[0] == channel_id@)
                }
            },
    {
        self.check_gate(paused, &channel_id, &sender, Role::Admin, &queried_owner)?;
        if let Err(e) = self.channels.delete_channel(channel_id.clone()) {
            return Err(ContractError::Channel(e));
        }
        let _ = self.assets.delete_assets_by_channel_id(channel_id.clone());
        self.playlists.delete_playlists_by_channel_id(channel_id.clone());
        let mut v: Vec<(String, String)> = Vec::new();
        v.push(attr("action", "delete_channel"));
        v.push(attr("channel_id", channel_id.as_str()));
        assert(attrs_view(v@) =~= seq![("action"@, "delete_channel"@), ("channel_id"@, channel_id@)]);
        Ok(attrs_only(v))
    }

    /// Removes the asset `publish_id` of channel `channel_id` and its details.
    pub fn unpublish(
        &mut self,
        paused: bool,
        sender: String,
        publish_id: String,
        channel_id: String,
        queried_owner: Option<String>,
    ) -> (r: Result<Response, ContractError>)
        requires
            old(self).wf(),
        ensures
            final(self).wf(),
            match gate(*old(self), paused, channel_id@, sender@, Role::Publisher, queried_owner) {
                Some(e) => refused(r, e, *old(self), *final(self)),
                None => if !old(self).assets.view().contains_key(key2(channel_id@, publish_id@)) {
                    refused(
                        r,
                        ContractError::Asset(crate::asset_manager::error::AssetError::AssetNotFound {}),
                        *old(self),
                        *final(self),
                    )
                } else {
                    &&& answered(
                        r,
                        seq![("action"@, "unpublish"@), ("publish_id"@, publish_id@), ("channel_id"@, channel_id@)],
                    )
                    &&& final(self).assets.view() == old(self).assets.view().remove(key2(channel_id@, publish_id@))
                    &&& final(self).assets.metadata.view() == old(self).assets.metadata.view().remove(
                        key2(channel_id@, publish_id@),
                    )
                    &&& final(self).channels == old(self).channels
                    &&& final(self).playlists == old(self).playlists
                }
            },
    {
        self.check_gate(paused, &channel_id, &sender, Role::Publisher, &queried_owner)?;
        let mut keys: Vec<AssetKey> = Vec::new();
        keys.push((channel_id.clone(), publish_id.clone()));
        proof {
            let ghost m = self.assets.view();
            assert(asset_storage_key(keys@[0]) == key2(channel_id@, publish_id@));
            if m.contains_key(key2(channel_id@, publish_id@)) {
                assert forall|i: int| 0 <= i < keys@.len() implies m.contains_key(asset_storage_key(#[trigger] keys@[i]))
                    && crate::asset_manager::assets::fresh_before(keys@, i) by {
                    assert(i == 0);
                }
            }
            assert(crate::asset_manager::assets::deletable(m, keys@) ==> m.contains_key(asset_storage_key(keys@[0])));
        }
        if let Err(e) = self.assets.delete_assets(keys) {
            return Err(ContractError::Asset(e));
        }
        proof {
            assert forall|x: Seq<Seq<char>>| #[trigger] self.assets.view().contains_key(x) <==> old(self).assets.view().remove(key2(channel_id@, publish_id@)).contains_key(x) by {
                if x == key2(channel_id@, publish_id@) {
                    assert(asset_storage_key(keys@[0]) == x);
                }
            }
            assert(self.assets.view() =~= old(self).assets.view().remove(key2(channel_id@, publish_id@)));
        }
        let mut v: Vec<(String, String)> = Vec::new();
        v.push(attr("action", "unpublish"));
        v.push(attr("publish_id", publish_id.as_str()));
        v.push(attr("channel_id", channel_id.as_str()));
        assert(attrs_view(v@) =~= seq![("action"@, "unpublish"@), ("publish_id"@, publish_id@), ("channel_id"@, channel_id@)]);
        Ok(attrs_only(v))
    }

    /// Deletes playlist `playlist_name` of channel `channel_id`.
    pub fn delete_playlist(
        &mut self,
        paused: bool,
        sender: String,
        channel_id: String,
        playlist_name: String,
        queried_owner: Option<String>,
    ) -> (r: Result<Response, ContractError>)
        requires
            old(self).wf(),
        ensures
            final(self).wf(),
            match gate(*old(self), paused, channel_id@, sender@, Role::Publisher, queried_owner) {
                Some(e) => refused(r, e, *old(self), *final(self)),
                None => if !old(self).playlists.view().contains_key(key2(channel_id@, playlist_name@)) {
                    refused(r, ContractError::Playlist(PlaylistError::PlaylistNotFound {}), *old(self), *final(self))
                } else {
                    &&& answered(
                        r,
                        seq![("action"@, "delete_playlist"@), ("channel_id"@, channel_id@), ("playlist_name"@, playlist_name@)],
                    )
                    &&& final(self).playlists.view() == old(self).playlists.view().remove(key2(channel_id@, playlist_name@))
                    &&& final(self).channels == old(self).channels
                    &&& final(self).assets == old(self).assets
                }
            },
    {
        self.check_gate(paused, &channel_id, &sender, Role::Publisher, &queried_owner)?;
        if let Err(e) = self.playlists.delete_playlist(channel_id.clone(), playlist_name.clone()) {
            return Err(ContractError::Playlist(e));
        }
        let mut v: Vec<(String, String)> = Vec::new();
        v.push(attr("action", "delete_playlist"));
        v.push(attr("channel_id", channel_id.as_str()));
        v.push(attr("playlist_name", playlist_name.as_str()));
        assert(attrs_view(v@) =~= seq![("action"@, "delete_playlist"@), ("channel_id"@, channel_id@), ("playlist_name"@, playlist_name@)]);
        Ok(attrs_only(v))
    }

    /// Adds the visible asset `publish_id` of channel `asset_channel_id` to playlist
    /// `playlist_name` of channel `channel_id`.
    pub fn add_asset_to_playlist(
        &mut self,
        paused: bool,
        sender: String,
        asset_channel_id: String,
        publish_id: String,
        channel_id: String,
        playlist_name: String,
        queried_owner: Option<String>,
    ) -> (r: Result<Response, ContractError>)
        requires
            old(self).wf(),
        ensures
            final(self).wf(),
            ({
                let ak = key2(asset_channel_id@, publish_id@);
                let pk = key2(channel_id@, playlist_name@);
                let key_view = (asset_channel_id@, publish_id@);
                match gate(*old(self), paused, channel_id@, sender@, Role::Publisher, queried_owner) {
                    Some(e) => refused(r, e, *old(self), *final(self)),
                    None => if !old(self).assets.view().contains_key(ak) {
                        refused(r, ContractError::Asset(AssetError::AssetNotFound {}), *old(self), *final(self))
                    } else if !old(self).assets.view()[ak].is_visible {
                        refused(r, ContractError::AssetNotVisible {}, *old(self), *final(self))
                    } else if !old(self).playlists.view().contains_key(pk) {
                        refused(r, ContractError::Playlist(PlaylistError::PlaylistNotFound {}), *old(self), *final(self))
                    } else if asset_keys_view(old(self).playlists.view()[pk].assets@).contains(key_view) {
                        refused(
                            r,
                            ContractError::Playlist(PlaylistError::AssetAlreadyExistsInPlaylist {}),
                            *old(self),
                            *final(self),
                        )
                    } else if old(self).playlists.view()[pk].assets@.len() >= 100 {
                        refused(
                            r,
                            ContractError::Playlist(PlaylistError::PlaylistAssetLimitReached {}),
                            *old(self),
                            *final(self),
                        )
                    } else {
                        &&& answered(
                            r,
                            seq![
                                ("action"@, "add_asset_to_playlist"@),
                                ("channel_id"@, channel_id@),
                                ("playlist_name"@, playlist_name@),
                                ("publish_id"@, publish_id@),
                            ],
                        )
                        &&& final(self).playlists.view().dom() == old(self).playlists.view().dom()
                        &&& final(self).playlists.view().remove(pk) == old(self).playlists.view().remove(pk)
                        &&& asset_keys_view(final(self).playlists.view()[pk].assets@) == asset_keys_view(
                            old(self).playlists.view()[pk].assets@,
                        ).push(key_view)
                        &&& final(self).channels == old(self).channels
                        &&& final(self).assets == old(self).assets
                    }
                }
            }),
    {
        self.check_gate(paused, &channel_id, &sender, Role::Publisher, &queried_owner)?;
        let key: AssetKey = (asset_channel_id.clone(), publish_id.clone());
        let asset = match self.assets.get_asset(copy_asset_key(&key)) {
            Ok(a) => a,
            Err(e) => {
                return Err(ContractError::Asset(e));
            },
        };
        if !asset.is_visible {
            return Err(ContractError::AssetNotVisible {});
        }
        let ghost before = self.playlists.view()[key2(channel_id@, playlist_name@)].assets@;
        if let Err(e) = self.playlists.add_asset_to_playlist(channel_id.clone(), playlist_name.clone(), key) {
            return Err(ContractError::Playlist(e));
        }
        proof {
            let pk = key2(channel_id@, playlist_name@);
            assert(asset_keys_view(self.playlists.view()[pk].assets@) =~= asset_keys_view(before).push(
                (asset_channel_id@, publish_id@),
            ));
        }
        let mut v: Vec<(String, String)> = Vec::new();
        v.push(attr("action", "add_asset_to_playlist"));
        v.push(attr("channel_id", channel_id.as_str()));
        v.push(attr("playlist_name", playlist_name.as_str()));
        v.push(attr("publish_id", publish_id.as_str()));
        assert(attrs_view(v@) =~= seq![
            ("action"@, "add_asset_to_playlist"@),
            ("channel_id"@, channel_id@),
            ("playlist_name"@, playlist_name@),
            ("publish_id"@, publish_id@),
        ]);
        Ok(attrs_only(v))
    }

    /// Removes the first occurrence of asset `publish_id` of channel `channel_id`
    /// from the channel's playlist `playlist_name`.
    pub fn remove_asset_from_playlist(
        &mut self,
        paused: bool,
        sender: String,
        publish_id: String,
        channel_id: String,
        playlist_name: String,
        queried_owner: Option<String>,
    ) -> (r: Result<Response, ContractError>)
        requires
            old(self).wf(),
        ensures
            final(self).wf(),
            ({
                let pk = key2(channel_id@, playlist_name@);
                let outcome = remove_each(
                    asset_keys_view(old(self).playlists.view()[pk].assets@),
                    seq![(channel_id@, publish_id@)],
                );
                match gate(*old(self), paused, channel_id@, sender@, Role::Publisher, queried_owner) {
                    Some(e) => refused(r, e, *old(self), *final(self)),
                    None => if !old(self).playlists.view().contains_key(pk) {
                        refused(r, ContractError::Playlist(PlaylistError::PlaylistNotFound {}), *old(self), *final(self))
                    } else if outcome is None {
                        refused(r, ContractError::Playlist(PlaylistError::AssetNotInPlaylist {}), *old(self), *final(self))
                    } else {
                        &&& answered(
                            r,
                            seq![
                                ("action"@, "remove_asset_from_playlist"@),
                                ("channel_id"@, channel_id@),
                                ("playlist_name"@, playlist_name@),
                                ("publish_id"@, publish_id@),
                            ],
                        )
                        &&& final(self).playlists.view().dom() == old(self).playlists.view().dom()
                        &&& final(self).playlists.view().remove(pk) == old(self).playlists.view().remove(pk)
                        &&& asset_keys_view(final(self).playlists.view()[pk].assets@) == outcome->0
                        &&& final(self).channels == old(self).channels
                        &&& final(self).assets == old(self).assets
                    }
                }
            }),
    {
        self.check_gate(paused, &channel_id, &sender, Role::Publisher, &queried_owner)?;
        let mut keys: Vec<AssetKey> = Vec::new();
        keys.push((channel_id.clone(), publish_id.clone()));
        assert(asset_keys_view(keys@) =~= seq![(channel_id@, publish_id@)]);
        if let Err(e) = self.playlists.remove_assets_from_playlist(channel_id.clone(), playlist_name.clone(), keys) {
            return Err(ContractError::Playlist(e));
        }
        let mut v: Vec<(String, String)> = Vec::new();
        v.push(attr("action", "remove_asset_from_playlist"));
        v.push(attr("channel_id", channel_id.as_str()));
        v.push(attr("playlist_name", playlist_name.as_str()));
        v.push(attr("publish_id", publish_id.as_str()));
        assert(attrs_view(v@) =~= seq![
            ("action"@, "remove_asset_from_playlist"@),
            ("channel_id"@, channel_id@),
            ("playlist_name"@, playlist_name@),
            ("publish_id"@, publish_id@),
        ]);
        Ok(attrs_only(v))
    }

    /// Counts a flag of the kind of `flag` against the asset `publish_id` of channel
    /// `channel_id`.
    pub fn flag_asset(&mut self, paused: bool, channel_id: String, publish_id: String, flag: Flag) -> (r: Result<
        Response,
        ContractError,
    >)
        requires
            old(self).wf(),
        ensures
            final(self).wf(),
            ({
                let fk = key3(channel_id@, publish_id@, flag_key(flag));
                let before = if old(self).assets.flags.view().contains_key(fk) {
                    old(self).assets.flags.view()[fk].count as int
                } else {
                    0
                };
                if paused {
                    refused(r, ContractError::Paused {}, *old(self), *final(self))
                } else if !old(self).assets.view().contains_key(key2(channel_id@, publish_id@)) {
                    refused(r, ContractError::Asset(AssetError::AssetNotFound {}), *old(self), *final(self))
                } else {
                    &&& answered(
                        r,
                        seq![
                            ("action"@, "asset_flag"@),
                            ("channel_id"@, channel_id@),
                            ("publish_id"@, publish_id@),
                            ("flag"@, flag_text(flag)),
                        ],
                    )
                    &&& final(self).assets.flags.view().dom() == old(self).assets.flags.view().dom().insert(fk)
                    &&& final(self).assets.flags.view().remove(fk) == old(self).assets.flags.view().remove(fk)
                    &&& final(self).assets.flags.view()[fk].flag == flag
                    &&& final(self).assets.flags.view()[fk].count == if before < u64::MAX { before + 1 } else { before }
                    &&& final(self).assets.assets == old(self).assets.assets
                    &&& final(self).channels == old(self).channels
                    &&& final(self).playlists == old(self).playlists
                }
            }),
    {
        if paused {
            return Err(ContractError::Paused {});
        }
        let text = flag.to_text();
        if let Err(e) = self.assets.add_flag(channel_id.clone(), publish_id.clone(), flag) {
            return Err(ContractError::Asset(e));
        }
        let mut v: Vec<(String, String)> = Vec::new();
        v.push(attr("action", "asset_flag"));
        v.push(attr("channel_id", channel_id.as_str()));
        v.push(attr("publish_id", publish_id.as_str()));
        v.push(attr("flag", text.as_str()));
        assert(attrs_view(v@) =~= seq![
            ("action"@, "asset_flag"@),
            ("channel_id"@, channel_id@),
            ("publish_id"@, publish_id@),
            ("flag"@, flag_text(flag)),
        ]);
        Ok(attrs_only(v))
    }

    /// Removes the assets `asset_keys` and, when `refresh_flags` is set, every flag
    /// of every asset. Only the protocol admin may.
    pub fn remove_assets(&mut self, sender: String, asset_keys: Vec<AssetKey>, refresh_flags: Option<bool>) -> (r: Result<
        Response,
        ContractError,
    >)
        requires
            old(self).wf(),
        ensures
            final(self).wf(),
            if sender@ != old(self).config.auth_details.protocol_admin@ {
                refused(r, ContractError::Unauthorized {}, *old(self), *final(self))
            } else if !crate::asset_manager::assets::deletable(old(self).assets.view(), asset_keys@) {
                refused(r, ContractError::Asset(AssetError::AssetNotFound {}), *old(self), *final(self))
            } else {
                &&& answered(
                    r,
                    seq![("action"@, "remove_assets"@), ("admin"@, old(self).config.auth_details.protocol_admin@)],
                )
                &&& forall|x: Seq<Seq<char>>|
                    #![trigger final(self).assets.view().contains_key(x)]
                    #![trigger old(self).assets.view().contains_key(x)]
                    final(self).assets.view().contains_key(x) <==> old(self).assets.view().contains_key(x) && !(exists|i: int|
                        0 <= i < asset_keys@.len() && asset_storage_key(#[trigger] asset_keys@[i]) == x)
                &&& forall|x: Seq<Seq<char>>|
                    #[trigger] final(self).assets.view().contains_key(x) ==> final(self).assets.view()[x] == old(
                        self,
                    ).assets.view()[x]
                &&& (refresh_flags == Some(true) ==> final(self).assets.flags.view() == Map::<
                    Seq<Seq<char>>,
                    crate::types::msg::FlagInfo,
                >::empty())
                &&& (refresh_flags != Some(true) ==> final(self).assets.flags == old(self).assets.flags)
                &&& final(self).channels == old(self).channels
                &&& final(self).playlists == old(self).playlists
            },
    {
        if !(sender == self.config.auth_details.protocol_admin) {
            return Err(ContractError::Unauthorized {});
        }
        if let Err(e) = self.assets.delete_assets(asset_keys) {
            return Err(ContractError::Asset(e));
        }
        let ghost mid = self.assets;
        if let Some(refresh) = refresh_flags {
            if refresh {
                let _ = self.assets.remove_all_flags();
            }
        }
        assert(self.assets.view() == mid.view());
        let mut v: Vec<(String, String)> = Vec::new();
        v.push(attr("action", "remove_assets"));
        v.push(attr("admin", self.config.auth_details.protocol_admin.as_str()));
        assert(attrs_view(v@) =~= seq![("action"@, "remove_assets"@), ("admin"@, old(self).config.auth_details.protocol_admin@)]);
        Ok(attrs_only(v))
    }

    /// Drops from playlist `playlist_name` of channel `channel_id` each asset that is
    /// no longer stored or no longer visible, reporting their publish ids.
    pub fn refresh_playlist(
        &mut self,
        paused: bool,
        sender: String,
        channel_id: String,
        playlist_name: String,
        queried_owner: Option<String>,
    ) -> (r: Result<Response, ContractError>)
        requires
            old(self).wf(),
        ensures
            final(self).wf(),
            ({
                let pk = key2(channel_id@, playlist_name@);
                let before = old(self).playlists.view()[pk].assets@;
                let dropped = sift(old(self).assets.view(), before, false);
                let outcome = remove_each(asset_keys_view(before), asset_keys_view(dropped));
                match gate(*old(self), paused, channel_id@, sender@, Role::Publisher, queried_owner) {
                    Some(e) => refused(r, e, *old(self), *final(self)),
                    None => if !old(self).playlists.view().contains_key(pk) {
                        refused(r, ContractError::Playlist(PlaylistError::PlaylistNotFound {}), *old(self), *final(self))
                    } else if outcome is None {
                        refused(r, ContractError::Playlist(PlaylistError::AssetNotInPlaylist {}), *old(self), *final(self))
                    } else {
                        &&& answered(
                            r,
                            seq![
                                ("action"@, "refresh_playlist"@),
                                ("channel_id"@, channel_id@),
                                ("playlist_name"@, playlist_name@),
                                (
                                    "removed_publish_ids"@,
                                    joined(dropped.map_values(|k: AssetKey| k.1@), ", "@),
                                ),
                            ],
                        )
                        &&& final(self).playlists.view().dom() == old(self).playlists.view().dom()
                        &&& final(self).playlists.view().remove(pk) == old(self).playlists.view().remove(pk)
                        &&& asset_keys_view(final(self).playlists.view()[pk].assets@) == outcome->0
                        &&& final(self).channels == old(self).channels
                        &&& final(self).assets == old(self).assets
                    }
                }
            }),
    {
        self.check_gate(paused, &channel_id, &sender, Role::Publisher, &queried_owner)?;
        let playlist = match self.playlists.get_playlist(channel_id.clone(), playlist_name.clone()) {
            Ok(p) => p,
            Err(e) => {
                return Err(ContractError::Playlist(e));
            },
        };
        let to_remove = filter_assets_to_remove(&self.assets, playlist.assets);
        let mut ids: Vec<String> = Vec::new();
        let mut i: usize = 0;
        while i < to_remove.len()
            invariant
                i <= to_remove@.len(),
                ids@.len() == i,
                forall|j: int| 0 <= j < i ==> #[trigger] ids@[j]@ == to_remove@[j].1@,
            decreases to_remove@.len() - i,
        {
            ids.push(to_remove[i].1.clone());
            i = i + 1;
        }
        assert(ids@.map_values(|p: String| p@) =~= to_remove@.map_values(|k: AssetKey| k.1@));
        let removed = join_strings(&ids, ", ");
        if let Err(e) = self.playlists.remove_assets_from_playlist(
            channel_id.clone(),
            playlist_name.clone(),
            to_remove,
        ) {
            return Err(ContractError::Playlist(e));
        }
        let mut v: Vec<(String, String)> = Vec::new();
        v.push(attr("action", "refresh_playlist"));
        v.push(attr("channel_id", channel_id.as_str()));
        v.push(attr("playlist_name", playlist_name.as_str()));
        v.push(attr("removed_publish_ids", removed.as_str()));
        assert(attrs_view(v@) =~= seq![
            ("action"@, "refresh_playlist"@),
            ("channel_id"@, channel_id@),
            ("playlist_name"@, playlist_name@),
            ("removed_publish_ids"@, joined(to_remove@.map_values(|k: AssetKey| k.1@), ", "@)),
        ]);
        Ok(attrs_only(v))
    }

    /// Makes the validated `collaborator_address` a collaborator of channel
    /// `channel_id`; only a channel admin may, and not while paused.
    /// `collaborator_address` is the outcome of validating the address (`Err` with
    /// the host's message).
    pub fn add_collaborator(
        &mut self,
        paused: bool,
        sender: String,
        channel_id: String,
        collaborator_address: Result<String, String>,
        collaborator_details: ChannelCollaborator,
        queried_owner: Option<String>,
    ) -> (r: Result<Response, ContractError>)
        requires
            old(self).wf(),
            !paused && permission_error(old(self).channels, channel_id@, sender@, Role::Admin, queried_owner) is None
                && collaborator_address is Ok && !old(self).channels.channel_collaborators.view().contains_key(
                key2(channel_id@, collaborator_address->Ok_0@),
            ) ==> old(self).channels.total_of(channel_id@) + collaborator_details.share.atomics <= u128::MAX,
        ensures
            final(self).wf(),
            if paused {
                refused(r, ContractError::Paused {}, *old(self), *final(self))
            } else {
                match permission_error(old(self).channels, channel_id@, sender@, Role::Admin, queried_owner) {
                    Some(e) => refused(r, e, *old(self), *final(self)),
                    None => match collaborator_address {
                        Err(m) => refused(r, ContractError::Std(m), *old(self), *final(self)),
                        Ok(a) => {
                            let c = channel_id@;
                            let k = key2(c, a@);
                            let present = old(self).channels.channel_collaborators.view().contains_key(k);
                            let count = old(self).channels.collaborator_count(c);
                            let total = old(self).channels.total_of(c) + collaborator_details.share.atomics;
                            if present {
                                refused(r, ContractError::Channel(ChannelError::CollaboratorExists {}), *old(self), *final(self))
                            } else if count >= crate::channel_manager::channel::TOTAL_UNIQUE_COLLABORATOR_LIMIT {
                                refused(
                                    r,
                                    ContractError::Channel(ChannelError::TotalUniqueCollaboratorsLimitExceeded {}),
                                    *old(self),
                                    *final(self),
                                )
                            } else if total > DECIMAL_FRACTIONAL {
                                refused(r, ContractError::Channel(ChannelError::InvalidSharePercentage {}), *old(self), *final(self))
                            } else {
                                &&& answered(
                                    r,
                                    seq![
                                        ("action"@, "add_collaborator"@),
                                        ("channel_id"@, c),
                                        ("collaborator_address"@, a@),
                                        ("share"@, decimal_text(collaborator_details.share.atomics)),
                                    ],
                                )
                                &&& final(self).channels.channel_collaborators.view() == old(
                                    self,
                                ).channels.channel_collaborators.view().insert(k, (a, collaborator_details))
                                &&& final(self).channels.total_of(c) == total
                                &&& final(self).assets == old(self).assets
                                &&& final(self).playlists == old(self).playlists
                            }
                        },
                    },
                }
            },
    {
        if paused {
            return Err(ContractError::Paused {});
        }
        validate_permissions(&self.channels, &channel_id, &sender, Role::Admin, &queried_owner)?;
        let address = match collaborator_address {
            Ok(a) => a,
            Err(m) => {
                return Err(ContractError::Std(m));
            },
        };
        let share = collaborator_details.share.to_text();
        if let Err(e) = self.channels.add_collaborator(channel_id.clone(), address.clone(), collaborator_details) {
            return Err(ContractError::Channel(e));
        }
        let mut v: Vec<(String, String)> = Vec::new();
        v.push(attr("action", "add_collaborator"));
        v.push(attr("channel_id", channel_id.as_str()));
        v.push(attr("collaborator_address", address.as_str()));
        v.push(attr("share", share.as_str()));
        assert(attrs_view(v@) =~= seq![
            ("action"@, "add_collaborator"@),
            ("channel_id"@, channel_id@),
            ("collaborator_address"@, address@),
            ("share"@, decimal_text(collaborator_details.share.atomics)),
        ]);
        Ok(attrs_only(v))
    }

    /// Removes collaborator `collaborator_address`, once validated, from channel
    /// `channel_id`; only a channel admin may, and not while paused.
    pub fn remove_collaborator(
        &mut self,
        paused: bool,
        sender: String,
        channel_id: String,
        collaborator_address: Result<String, String>,
        queried_owner: Option<String>,
    ) -> (r: Result<Response, ContractError>)
        requires
            old(self).wf(),
        ensures
            final(self).wf(),
            if paused {
                refused(r, ContractError::Paused {}, *old(self), *final(self))
            } else {
                match permission_error(old(self).channels, channel_id@, sender@, Role::Admin, queried_owner) {
                    Some(e) => refused(r, e, *old(self), *final(self)),
                    None => match collaborator_address {
                        Err(m) => refused(r, ContractError::Std(m), *old(self), *final(self)),
                        Ok(a) => {
                            let k = key2(channel_id@, a@);
                            if !old(self).channels.channel_collaborators.view().contains_key(k) {
                                refused(r, ContractError::Channel(ChannelError::CollaboratorNotFound {}), *old(self), *final(self))
                            } else {
                                &&& answered(
                                    r,
                                    seq![
                                        ("action"@, "remove_collaborator"@),
                                        ("channel_id"@, channel_id@),
                                        ("collaborator_address"@, a@),
                                    ],
                                )
                                &&& final(self).channels.channel_collaborators.view() == old(
                                    self,
                                ).channels.channel_collaborators.view().remove(k)
                                &&& final(self).channels.total_of(channel_id@) == old(self).channels.total_of(channel_id@)
                                    - old(self).channels.channel_collaborators.view()[k].1.share.atomics
                                &&& final(self).assets == old(self).assets
                                &&& final(self).playlists == old(self).playlists
                            }
                        },
                    },
                }
            },
    {
        if paused {
            return Err(ContractError::Paused {});
        }
        validate_permissions(&self.channels, &channel_id, &sender, Role::Admin, &queried_owner)?;
        let address = match collaborator_address {
            Ok(a) => a,
            Err(m) => {
                return Err(ContractError::Std(m));
            },
        };
        if let Err(e) = self.channels.remove_collaborator(channel_id.clone(), address.clone()) {
            return Err(ContractError::Channel(e));
        }
        let mut v: Vec<(String, String)> = Vec::new();
        v.push(attr("action", "remove_collaborator"));
        v.push(attr("channel_id", channel_id.as_str()));
        v.push(attr("collaborator_address", address.as_str()));
        assert(attrs_view(v@) =~= seq![
            ("action"@, "remove_collaborator"@),
            ("channel_id"@, channel_id@),
            ("collaborator_address"@, address@),
        ]);
        Ok(attrs_only(v))
    }

    /// Replaces the channel creation fee, protocol admin or fee collector, each
    /// when given; only the protocol admin may. The addresses come validated (`Err`
    /// with the host's message).
    pub fn set_config(
        &mut self,
        sender: String,
        channel_creation_fee: Option<Vec<Coin>>,
        protocol_admin: Option<Result<String, String>>,
        fee_collector: Option<Result<String, String>>,
    ) -> (r: Result<Response, ContractError>)
        requires
            old(self).wf(),
        ensures
            final(self).wf(),
            if sender@ != old(self).config.auth_details.protocol_admin@ {
                refused(r, ContractError::Unauthorized {}, *old(self), *final(self))
            } else {
                match protocol_admin {
                    Some(Err(m)) => refused(r, ContractError::Std(m), *old(self), *final(self)),
                    _ => match fee_collector {
                        Some(Err(m)) => refused(r, ContractError::Std(m), *old(self), *final(self)),
                        _ => {
                            let admin = match protocol_admin {
                                Some(Ok(a)) => a,
                                _ => old(self).config.auth_details.protocol_admin,
                            };
                            let collector = match fee_collector {
                                Some(Ok(a)) => a,
                                _ => old(self).config.auth_details.fee_collector,
                            };
                            &&& answered(
                                r,
                                seq![("action"@, "set_config"@), ("protocol_admin"@, admin@), ("fee_collector"@, collector@)],
                            )
                            &&& final(self).config.auth_details == (AuthDetails { protocol_admin: admin, fee_collector: collector })
                            &&& final(self).config.channel_creation_fee@ == match channel_creation_fee {
                                Some(f) => f@,
                                None => old(self).config.channel_creation_fee@,
                            }
                            &&& final(self).config.channels_collection_id == old(self).config.channels_collection_id
                            &&& final(self).config.accepted_tip_denoms == old(self).config.accepted_tip_denoms
                            &&& final(self).channels == old(self).channels
                            &&& final(self).assets == old(self).assets
                            &&& final(self).playlists == old(self).playlists
                        },
                    },
                }
            },
    {
        if !(sender == self.config.auth_details.protocol_admin) {
            return Err(ContractError::Unauthorized {});
        }
        let admin = match protocol_admin {
            Some(Ok(a)) => a,
            Some(Err(m)) => {
                return Err(ContractError::Std(m));
            },
            None => self.config.auth_details.protocol_admin.clone(),
        };
        let collector = match fee_collector {
            Some(Ok(a)) => a,
            Some(Err(m)) => {
                return Err(ContractError::Std(m));
            },
            None => self.config.auth_details.fee_collector.clone(),
        };
        self.config.auth_details = AuthDetails { protocol_admin: admin, fee_collector: collector };
        if let Some(fee) = channel_creation_fee {
            self.config.channel_creation_fee = fee;
        }
        let mut v: Vec<(String, String)> = Vec::new();
        v.push(attr("action", "set_config"));
        v.push(attr("protocol_admin", self.config.auth_details.protocol_admin.as_str()));
        v.push(attr("fee_collector", self.config.auth_details.fee_collector.as_str()));
        assert(attrs_view(v@) =~= seq![
            ("action"@, "set_config"@),
            ("protocol_admin"@, self.config.auth_details.protocol_admin@),
            ("fee_collector"@, self.config.auth_details.fee_collector@),
        ]);
        Ok(attrs_only(v))
    }

    /// Reserves `add_usernames` (each checked, its address's validation outcome at
    /// the same index of `addr_checks`), then lifts the reservation of each of
    /// `remove_usernames` in turn; only the protocol admin may. A removal of a name
    /// that is not reserved stops with an error, the earlier changes made.
    pub fn manage_reserved_usernames(
        &mut self,
        paused: bool,
        sender: String,
        add_usernames: Option<Vec<ReservedUsername>>,
        addr_checks: Vec<Result<(), String>>,
        remove_usernames: Option<Vec<String>>,
    ) -> (r: Result<Response, ContractError>)
        requires
            old(self).wf(),
            add_usernames matches Some(us) ==> addr_checks@.len() == us@.len(),
        ensures
            final(self).wf(),
            ({
                let adds: Seq<ReservedUsername> = match add_usernames {
                    Some(us) => us@,
                    None => Seq::empty(),
                };
                let names: Seq<String> = match remove_usernames {
                    Some(n) => n@,
                    None => Seq::empty(),
                };
                let problem = first_reservation_problem(adds, addr_checks@, 0);
                let after_add = reserve_all(old(self).channels.reserved_usernames.view(), adds);
                let out = unreserve_all(after_add, strings_view(names));
                if paused {
                    refused(r, ContractError::Paused {}, *old(self), *final(self))
                } else if sender@ != old(self).config.auth_details.protocol_admin@ {
                    refused(r, ContractError::Unauthorized {}, *old(self), *final(self))
                } else if problem is Some {
                    &&& *final(self) == *old(self)
                    &&& match problem {
                        Some((i, true)) => r matches Err(e) && reports(
                            Err(e),
                            StringValidationType::Username,
                            adds[i].username@,
                        ),
                        Some((i, false)) => r matches Err(e) && e == ContractError::Std(addr_checks@[i]->Err_0),
                        None => true,
                    }
                } else {
                    &&& final(self).channels.reserved_usernames.view() == out.0
                    &&& (r is Ok <==> out.1)
                    &&& (r matches Err(e) ==> e == ContractError::Channel(ChannelError::UsernameNotReserved {}))
                    &&& (r matches Ok(resp) ==> resp.messages@.len() == 0 && attrs_view(resp.attributes@) == seq![
                        ("action"@, "manage_reserved_usernames"@),
                    ] + added_attrs(adds) + removed_attrs(names))
                    &&& final(self).channels.same_channels(&old(self).channels)
                    &&& final(self).channels.same_people(&old(self).channels)
                    &&& final(self).assets == old(self).assets
                    &&& final(self).playlists == old(self).playlists
                    &&& final(self).config == old(self).config
                }
            }),
    {
        if paused {
            return Err(ContractError::Paused {});
        }
        if !(sender == self.config.auth_details.protocol_admin) {
            return Err(ContractError::Unauthorized {});
        }
        let ghost adds: Seq<ReservedUsername> = match &add_usernames {
            Some(us) => us@,
            None => Seq::empty(),
        };
        let mut v: Vec<(String, String)> = Vec::new();
        v.push(attr("action", "manage_reserved_usernames"));
        let ghost head = attrs_view(v@);
        if let Some(us) = add_usernames {
            let us = validate_reserved_usernames(us, &addr_checks)?;
            let mut i: usize = 0;
            while i < us.len()
                invariant
                    i <= us@.len(),
                    us@ == adds,
                    attrs_view(v@) == head + added_attrs(adds.take(i as int)),
                decreases us@.len() - i,
            {
                let ghost before = v@;
                let a = attr("add_username", us[i].username.as_str());
                v.push(a);
                proof {
                    let t = adds.take(i + 1);
                    assert(added_attrs(t).len() == i + 1);
                    assert(added_attrs(t)[i as int] == ("add_username"@, adds[i as int].username@));
                    assert(attrs_view(v@)[v@.len() - 1] == (a.0@, a.1@));
                    assert(added_attrs(t) =~= added_attrs(adds.take(i as int)).push(("add_username"@, adds[i as int].username@)));
                    assert(attrs_view(v@) =~= attrs_view(before).push((a.0@, a.1@)));
                    assert(a.0@ == "add_username"@);
                    assert(a.1@ == adds[i as int].username@);
                }
                assert(attrs_view(v@) =~= head + added_attrs(adds.take(i + 1)));
                i = i + 1;
            }
            assert(adds.take(i as int) =~= adds);
            let _ = self.channels.add_reserved_usernames(us);
        } else {
            assert(attrs_view(v@) =~= head + added_attrs(adds));
        }
        let ghost mid = attrs_view(v@);
        let names: Vec<String> = match remove_usernames {
            Some(n) => n,
            None => Vec::new(),
        };
        let ghost all = strings_view(names@);
        let ghost after_add = self.channels.reserved_usernames.view();
        let mut i: usize = 0;
        assert(all.skip(0) =~= all);
        while i < names.len()
            invariant
                i <= names@.len(),
                self.wf(),
                all == strings_view(names@),
                unreserve_all(after_add, all) == unreserve_all(self.channels.reserved_usernames.view(), all.skip(i as int)),
                after_add == reserve_all(old(self).channels.reserved_usernames.view(), adds),
                first_reservation_problem(adds, addr_checks@, 0) is None,
                adds == match add_usernames {
                    Some(us) => us@,
                    None => Seq::<ReservedUsername>::empty(),
                },
                names@ == match remove_usernames {
                    Some(n) => n@,
                    None => Seq::<String>::empty(),
                },
                !paused,
                sender@ == old(self).config.auth_details.protocol_admin@,
                attrs_view(v@) == mid + removed_attrs(names@.take(i as int)),
                self.channels.same_channels(&old(self).channels),
                self.channels.same_people(&old(self).channels),
                self.assets == old(self).assets,
                self.playlists == old(self).playlists,
                self.config == old(self).config,
            decreases names@.len() - i,
        {
            let mut one: Vec<String> = Vec::new();
            one.push(names[i].clone());
            proof {
                let cur = self.channels.reserved_usernames.view();
                let n = names@[i as int]@;
                assert(strings_view(one@) =~= seq![n]);
                assert(seq![n].drop_first() =~= Seq::<Seq<char>>::empty());
                assert(all.skip(i as int)[0] == n);
                assert(all.skip(i as int).drop_first() =~= all.skip(i + 1));
                if cur.contains_key(key1(n)) {
                    assert(unreserve_all(cur.remove(key1(n)), Seq::<Seq<char>>::empty()) == (cur.remove(key1(n)), true));
                } else {
                    assert(unreserve_all(cur, all.skip(i as int)) == (cur, false));
                    assert(unreserve_all(cur, seq![n]) == (cur, false));
                }
            }
            if let Err(e) = self.channels.remove_reserved_usernames(one) {
                return Err(ContractError::Channel(e));
            }
            let ghost before = v@;
            let a = attr("remove_username", names[i].as_str());
            v.push(a);
            proof {
                assert(removed_attrs(names@.take(i + 1)) =~= removed_attrs(names@.take(i as int)).push(("remove_username"@, names@[i as int]@)));
                assert(attrs_view(v@) =~= attrs_view(before).push((a.0@, a.1@)));
            }
            assert(attrs_view(v@) =~= mid + removed_attrs(names@.take(i + 1)));
            i = i + 1;
        }
        assert(names@.take(i as int) =~= names@);
        assert(all.skip(i as int) =~= Seq::<Seq<char>>::empty());
        assert(attrs_view(v@) =~= seq![("action"@, "manage_reserved_usernames"@)] + added_attrs(adds) + removed_attrs(names@));
        Ok(attrs_only(v))
    }

    /// Tips channel `channel_id` with `amount`, which `funds` must pay exactly:
    /// each collaborator gets its share of the whole amount, rounded down, and the
    /// channel's payment address the rest.
    pub fn tip_channel(&self, paused: bool, funds: Vec<Coin>, channel_id: String, amount: Coin) -> (r: Result<
        Response,
        ContractError,
    >)
        requires
            self.wf(),
            !paused && crate::channel_manager::channel::strings_view(self.config.accepted_tip_denoms@).contains(
                amount.denom@,
            ) && paid(coins_view(funds@), amount.denom@) == Some(amount.amount)
                && self.channels.channel_details.view().contains_key(key1(channel_id@)) && channel_shares(
                self.channels,
                channel_id@,
            ).len() > 0 ==> amount.amount * DECIMAL_FRACTIONAL <= u128::MAX,
        ensures
            ({
                let c = channel_id@;
                let d = amount.denom@;
                let fv = coins_view(funds@);
                let sh = channel_shares(self.channels, c);
                let pays = payouts(amount.amount as int, share_atomics(sh)).0;
                let rest = payouts(amount.amount as int, share_atomics(sh)).1;
                let payee = self.channels.channel_details.view()[key1(c)].payment_address@;
                if paused {
                    r == Err::<Response, ContractError>(ContractError::Paused {})
                } else if !crate::channel_manager::channel::strings_view(self.config.accepted_tip_denoms@).contains(d) {
                    r == Err::<Response, ContractError>(ContractError::InvalidTipDenom {})
                } else if paid(fv, d) is None {
                    r matches Err(ContractError::Payment(p)) && must_pay_result(Err(p), fv, d)
                } else if paid(fv, d) != Some(amount.amount) {
                    r == Err::<Response, ContractError>(ContractError::InvalidTipAmount {})
                } else if !self.channels.channel_details.view().contains_key(key1(c)) {
                    r == Err::<Response, ContractError>(ContractError::Channel(ChannelError::ChannelIdNotFound {}))
                } else {
                    r matches Ok(resp) && {
                        &&& transfers_sent(resp.messages@, transfers(share_addresses(sh), pays, rest, payee), d)
                        &&& attrs_view(resp.attributes@) == share_attrs(share_addresses(sh), pays, rest, payee, d)
                            + seq![("action"@, "tip_creator"@), ("channel_id"@, c), ("amount"@, coin_text(amount))]
                    }
                }
            }),
    {
        if paused {
            return Err(ContractError::Paused {});
        }
        let mut accepted = false;
        let mut i: usize = 0;
        let ghost denoms = crate::channel_manager::channel::strings_view(self.config.accepted_tip_denoms@);
        while i < self.config.accepted_tip_denoms.len()
            invariant
                i <= self.config.accepted_tip_denoms@.len(),
                denoms == crate::channel_manager::channel::strings_view(self.config.accepted_tip_denoms@),
                accepted <==> exists|j: int| 0 <= j < i && #[trigger] denoms[j] == amount.denom@,
            decreases self.config.accepted_tip_denoms@.len() - i,
        {
            if self.config.accepted_tip_denoms[i] == amount.denom {
                accepted = true;
                assert(denoms[i as int] == amount.denom@);
            }
            i = i + 1;
        }
        if !accepted {
            return Err(ContractError::InvalidTipDenom {});
        }
        let sent = match must_pay(&funds, amount.denom.as_str()) {
            Ok(a) => a,
            Err(p) => {
                return Err(ContractError::Payment(p));
            },
        };
        if sent != amount.amount {
            return Err(ContractError::InvalidTipAmount {});
        }
        let details = match self.channels.get_channel_details(channel_id.clone()) {
            Ok(d) => d,
            Err(e) => {
                return Err(ContractError::Channel(e));
            },
        };
        let shares = match self.channels.get_collaborator_shares(channel_id.clone()) {
            Ok(v) => v,
            Err(e) => {
                return Err(ContractError::Channel(e));
            },
        };
        proof {
            let c = channel_id@;
            let ks = self.channels.channel_collaborators.key_seq();
            let vs = self.channels.channel_collaborators.val_seq();
            let pred = |k: Seq<Seq<char>>| in_channel_after(k, c, None);
            let idx = selected(ks, pred, ks.len() as int);
            assert(shares@ =~= channel_shares(self.channels, c));
            lemma_selected_in(ks, pred, ks.len() as int);
            self.channels.channel_collaborators.lemma_lens();
            assert(self.channels.share_sum(c) <= DECIMAL_FRACTIONAL);
            lemma_channel_share_total(ks, vs, c, ks.len() as int);
            assert(ks.take(ks.len() as int) =~= ks);
            assert(vs.take(vs.len() as int) =~= vs);
            assert(share_atomics(shares@) =~= picked_shares(vs, idx));
            assert forall|a: Seq<Seq<char>>, b: crate::channel_manager::channel::Collaborator|
                #[trigger] share_weight(c)(a, b) >= 0 by {}
            assert forall|j: int| 0 <= j < share_atomics(shares@).len() implies #[trigger] share_atomics(shares@)[j]
                <= DECIMAL_FRACTIONAL by {
                let ix = idx[j];
                assert(pred(ks[ix]));
                lemma_tally_bounds(ks, vs, share_weight(c), ix);
            }
            lemma_pays_within(amount.amount as int, share_atomics(shares@));
        }
        let (bank_msgs, mut attributes) = match distribute_funds_with_shares(
            shares,
            amount.duplicate(),
            details.payment_address.clone(),
        ) {
            Ok(x) => x,
            Err(e) => {
                return Err(e);
            },
        };
        let ghost ts = transfers(
            share_addresses(channel_shares(self.channels, channel_id@)),
            payouts(amount.amount as int, share_atomics(channel_shares(self.channels, channel_id@))).0,
            payouts(amount.amount as int, share_atomics(channel_shares(self.channels, channel_id@))).1,
            details.payment_address@,
        );
        let mut messages: Vec<CosmosMsg> = Vec::new();
        let mut j: usize = 0;
        let n = bank_msgs.len();
        let mut bank_msgs = bank_msgs;
        let ghost all = bank_msgs@;
        while j < n
            invariant
                j <= n,
                n == all.len(),
                bank_msgs@ == all.skip(j as int),
                messages@.len() == j,
                forall|t: int|
                    0 <= t < j ==> (#[trigger] messages@[t] matches CosmosMsg::Bank(b) && b.to_address == all[t].to_address
                        && b.amount@ == all[t].amount@),
            decreases n - j,
        {
            let b = bank_msgs.remove(0);
            assert(b == all[j as int]);
            messages.push(CosmosMsg::Bank(b));
            assert(bank_msgs@ =~= all.skip(j + 1));
            j = j + 1;
        }
        let ghost before = attrs_view(attributes@);
        attributes.push(attr("action", "tip_creator"));
        attributes.push(attr("channel_id", channel_id.as_str()));
        attributes.push(attr("amount", amount.to_text().as_str()));
        assert(attrs_view(attributes@) =~= before + seq![
            ("action"@, "tip_creator"@),
            ("channel_id"@, channel_id@),
            ("amount"@, coin_text(amount)),
        ]);
        Ok(Response { messages, attributes })
    }

    /// Replaces the given details of asset `publish_id` of channel `channel_id`,
    /// each checked first: its visibility, name, description, media link and
    /// thumbnail link.
    pub fn update_asset_details(
        &mut self,
        paused: bool,
        sender: String,
        publish_id: String,
        channel_id: String,
        is_visible: Option<bool>,
        name: Option<String>,
        description: Option<String>,
        media_uri: Option<String>,
        thumbnail_uri: Option<String>,
        queried_owner: Option<String>,
    ) -> (r: Result<Response, ContractError>)
        requires
            old(self).wf(),
        ensures
            final(self).wf(),
            ({
                let k = key2(channel_id@, publish_id@);
                let checks = asset_update_checks(name, description, media_uri, thumbnail_uri);
                let md = stored_metadata(old(self).assets.metadata.view(), k);
                let visible = match is_visible {
                    Some(v) => v,
                    None => old(self).assets.view()[k].is_visible,
                };
                match gate(*old(self), paused, channel_id@, sender@, Role::Publisher, queried_owner) {
                    Some(e) => refused(r, e, *old(self), *final(self)),
                    None => if !old(self).assets.view().contains_key(k) {
                        refused(r, ContractError::Asset(AssetError::AssetNotFound {}), *old(self), *final(self))
                    } else if crate::helpers::first_invalid(checks) is Some {
                        *final(self) == *old(self) && checked(
                            match r {
                                Ok(_) => Ok(()),
                                Err(e) => Err(e),
                            },
                            checks,
                        ) && r is Err
                    } else {
                        &&& answered(
                            r,
                            seq![
                                ("action"@, "update_asset_details"@),
                                ("channel_id"@, channel_id@),
                                ("publish_id"@, publish_id@),
                                ("is_visible"@, bool_text(visible)),
                                ("name"@, text_or(name, md.0)),
                                ("description"@, text_or(description, md.1)),
                                ("media_uri"@, text_or(media_uri, md.2)),
                            ],
                        )
                        &&& final(self).assets.view() == old(self).assets.view().insert(
                            k,
                            crate::types::asset::Asset { is_visible: visible, ..old(self).assets.view()[k] },
                        )
                        &&& final(self).assets.metadata.view().contains_key(k)
                        &&& final(self).assets.metadata.view().remove(k) == old(self).assets.metadata.view().remove(k)
                        &&& final(self).assets.metadata.view()[k].name@ == text_or(name, md.0)
                        &&& final(self).assets.metadata.view()[k].description@ == text_or(description, md.1)
                        &&& final(self).assets.metadata.view()[k].media_uri@ == text_or(media_uri, md.2)
                        &&& crate::channel_manager::channel::opt_chars(final(self).assets.metadata.view()[k].thumbnail_uri)
                            == match thumbnail_uri {
                            Some(t) => Some(t@),
                            None => md.3,
                        }
                        &&& final(self).assets.flags == old(self).assets.flags
                        &&& final(self).channels == old(self).channels
                        &&& final(self).playlists == old(self).playlists
                    }
                }
            }),
    {
        self.check_gate(paused, &channel_id, &sender, Role::Publisher, &queried_owner)?;
        let key: AssetKey = (channel_id.clone(), publish_id.clone());
        let mut asset = match self.assets.get_asset(copy_asset_key(&key)) {
            Ok(a) => a,
            Err(e) => {
                return Err(ContractError::Asset(e));
            },
        };
        let mut checks: Vec<(StringValidationType, String)> = Vec::new();
        push_opt_check(&mut checks, StringValidationType::AssetName, &name);
        push_opt_check(&mut checks, StringValidationType::Description, &description);
        push_opt_check(&mut checks, StringValidationType::Link, &media_uri);
        push_opt_check(&mut checks, StringValidationType::Link, &thumbnail_uri);
        assert(checks_view(checks@) =~= asset_update_checks(name, description, media_uri, thumbnail_uri));
        validate_strings(checks)?;
        let mut md = self.assets.get_metadata(&key);
        proof {
            let k = key2(channel_id@, publish_id@);
            if !self.assets.metadata.view().contains_key(k) {
                assert(md.name@ =~= Seq::<char>::empty());
                assert(md.description@ =~= Seq::<char>::empty());
                assert(md.media_uri@ =~= Seq::<char>::empty());
            }
            let m = stored_metadata(self.assets.metadata.view(), k);
            assert(md.name@ == m.0 && md.description@ == m.1 && md.media_uri@ == m.2);
            assert(crate::channel_manager::channel::opt_chars(md.thumbnail_uri) == m.3);
        }
        if let Some(n) = name {
            md.name = n;
        }
        if let Some(d) = description {
            md.description = d;
        }
        if let Some(u) = media_uri {
            md.media_uri = u;
        }
        if let Some(t) = thumbnail_uri {
            md.thumbnail_uri = Some(t);
        }
        if let Some(v) = is_visible {
            asset.is_visible = v;
        }
        let visible_text: &str = if asset.is_visible { "true" } else { "false" };
        let mut v: Vec<(String, String)> = Vec::new();
        v.push(attr("action", "update_asset_details"));
        v.push(attr("channel_id", channel_id.as_str()));
        v.push(attr("publish_id", publish_id.as_str()));
        v.push(attr("is_visible", visible_text));
        v.push(attr("name", md.name.as_str()));
        v.push(attr("description", md.description.as_str()));
        v.push(attr("media_uri", md.media_uri.as_str()));
        let _ = self.assets.update_asset(copy_asset_key(&key), asset);
        self.assets.set_metadata(&key, md);
        proof {
            let k = key2(channel_id@, publish_id@);
            let m = stored_metadata(old(self).assets.metadata.view(), k);
            assert(attrs_view(v@) =~= seq![
                ("action"@, "update_asset_details"@),
                ("channel_id"@, channel_id@),
                ("publish_id"@, publish_id@),
                ("is_visible"@, bool_text(asset.is_visible)),
                ("name"@, text_or(name, m.0)),
                ("description"@, text_or(description, m.1)),
                ("media_uri"@, text_or(media_uri, m.2)),
            ]);
            assert(self.assets.metadata.view().remove(k) =~= old(self).assets.metadata.view().remove(k));
        }
        Ok(attrs_only(v))
    }

    /// Replaces the given parts of the presentation of channel `channel_id`, which
    /// must still pass its checks, and its payment address when given (validated,
    /// `Err` with the host's message).
    pub fn update_channel_details(
        &mut self,
        paused: bool,
        sender: String,
        channel_id: String,
        description: Option<String>,
        channel_name: Option<String>,
        profile_picture: Option<String>,
        banner_picture: Option<String>,
        payment_address: Option<Result<String, String>>,
        queried_owner: Option<String>,
    ) -> (r: Result<Response, ContractError>)
        requires
            old(self).wf(),
        ensures
            final(self).wf(),
            ({
                let id = key1(channel_id@);
                let merged = merged_metadata(
                    old(self).channels.channel_metadata.view()[id],
                    description,
                    channel_name,
                    profile_picture,
                    banner_picture,
                );
                match gate(*old(self), paused, channel_id@, sender@, Role::Admin, queried_owner) {
                    Some(e) => refused(r, e, *old(self), *final(self)),
                    None => if !old(self).channels.channel_metadata.view().contains_key(id) {
                        refused(r, ContractError::Channel(ChannelError::ChannelIdNotFound {}), *old(self), *final(self))
                    } else if crate::helpers::first_invalid(metadata_checks(merged)) is Some {
                        *final(self) == *old(self) && r is Err && checked(
                            match r {
                                Ok(_) => Ok(()),
                                Err(e) => Err(e),
                            },
                            metadata_checks(merged),
                        )
                    } else {
                        match payment_address {
                            Some(Err(m)) => refused(r, ContractError::Std(m), *old(self), *final(self)),
                            _ => {
                                &&& answered(
                                    r,
                                    seq![("action"@, "update_channel_details"@), ("channel_id"@, channel_id@)],
                                )
                                &&& final(self).channels.channel_metadata.view() == old(
                                    self,
                                ).channels.channel_metadata.view().insert(id, merged)
                                &&& final(self).channels.channel_details.view() == match payment_address {
                                    Some(Ok(a)) => old(self).channels.channel_details.view().insert(
                                        id,
                                        ChannelDetails {
                                            payment_address: a,
                                            ..old(self).channels.channel_details.view()[id]
                                        },
                                    ),
                                    _ => old(self).channels.channel_details.view(),
                                }
                                &&& final(self).channels.same_people(&old(self).channels)
                                &&& final(self).assets == old(self).assets
                                &&& final(self).playlists == old(self).playlists
                            },
                        }
                    }
                }
            }),
    {
        self.check_gate(paused, &channel_id, &sender, Role::Admin, &queried_owner)?;
        let mut md = match self.channels.get_channel_metadata(channel_id.clone()) {
            Ok(m) => m,
            Err(e) => {
                return Err(ContractError::Channel(e));
            },
        };
        if let Some(d) = description {
            md.description = Some(d);
        }
        if let Some(n) = channel_name {
            md.channel_name = n;
        }
        if let Some(p) = profile_picture {
            md.profile_picture = Some(p);
        }
        if let Some(b) = banner_picture {
            md.banner_picture = Some(b);
        }
        validate_channel_metadata(md.duplicate())?;
        let address = match payment_address {
            Some(Ok(a)) => Some(a),
            Some(Err(m)) => {
                return Err(ContractError::Std(m));
            },
            None => None,
        };
        let _ = self.channels.update_channel_metadata(channel_id.clone(), md);
        if let Some(a) = address {
            let _ = self.channels.update_payment_address(channel_id.clone(), a);
        }
        let mut v: Vec<(String, String)> = Vec::new();
        v.push(attr("action", "update_channel_details"));
        v.push(attr("channel_id", channel_id.as_str()));
        assert(attrs_view(v@) =~= seq![("action"@, "update_channel_details"@), ("channel_id"@, channel_id@)]);
        Ok(attrs_only(v))
    }

    /// Publishes an asset in channel `channel_id` under an id drawn from the block
    /// and `salt`, with its details, and adds it to playlist `playlist_name` when
    /// one is named and the asset is visible. `source_owner` is the holder of the
    /// source ONFT that a query reported.
    pub fn publish(
        &mut self,
        paused: bool,
        sender: String,
        env: BlockEnv,
        asset_source: AssetSource,
        salt: Vec<u8>,
        channel_id: String,
        playlist_name: Option<String>,
        is_visible: bool,
        metadata: AssetMetadata,
        queried_owner: Option<String>,
        source_owner: Option<String>,
    ) -> (r: Result<Response, ContractError>)
        requires
            old(self).wf(),
        ensures
            final(self).wf(),
            ({
                let pid = random_id("publish"@, id_source(None, Some(env), Some(salt@)));
                let k = key2(channel_id@, pid);
                let src = asset_source_outcome(
                    Ok(()),
                    asset_source,
                    sender,
                    metadata.name,
                    metadata.description,
                    metadata.media_uri,
                    source_owner,
                );
                let to_playlist = playlist_name is Some && is_visible;
                let pk = key2(channel_id@, playlist_name->0@);
                match gate(*old(self), paused, channel_id@, sender@, Role::Publisher, queried_owner) {
                    Some(e) => refused(r, e, *old(self), *final(self)),
                    None => if !src {
                        *final(self) == *old(self) && (r matches Err(e) && asset_source_outcome(
                            Err(e),
                            asset_source,
                            sender,
                            metadata.name,
                            metadata.description,
                            metadata.media_uri,
                            source_owner,
                        ))
                    } else if old(self).assets.view().contains_key(k) {
                        refused(r, ContractError::Asset(AssetError::AssetAlreadyExists {}), *old(self), *final(self))
                    } else if to_playlist && !old(self).playlists.view().contains_key(pk) {
                        refused(r, ContractError::Playlist(PlaylistError::PlaylistNotFound {}), *old(self), *final(self))
                    } else if to_playlist && asset_keys_view(old(self).playlists.view()[pk].assets@).contains(
                        (channel_id@, pid),
                    ) {
                        refused(
                            r,
                            ContractError::Playlist(PlaylistError::AssetAlreadyExistsInPlaylist {}),
                            *old(self),
                            *final(self),
                        )
                    } else if to_playlist && old(self).playlists.view()[pk].assets@.len() >= 100 {
                        refused(
                            r,
                            ContractError::Playlist(PlaylistError::PlaylistAssetLimitReached {}),
                            *old(self),
                            *final(self),
                        )
                    } else {
                        &&& answered(
                            r,
                            seq![
                                ("action"@, "publish"@),
                                ("publish_id"@, pid),
                                ("channel_id"@, channel_id@),
                                ("asset_source"@, source_text(asset_source)),
                            ] + match playlist_name {
                                Some(p) => seq![("playlist_name"@, p@)],
                                None => Seq::empty(),
                            },
                        )
                        &&& final(self).assets.view().dom() == old(self).assets.view().dom().insert(k)
                        &&& final(self).assets.view().remove(k) == old(self).assets.view().remove(k)
                        &&& final(self).assets.view()[k].channel_id == channel_id
                        &&& final(self).assets.view()[k].publish_id@ == pid
                        &&& final(self).assets.view()[k].asset_source == asset_source
                        &&& final(self).assets.view()[k].is_visible == is_visible
                        &&& final(self).assets.metadata.view() == old(self).assets.metadata.view().insert(k, metadata)
                        &&& final(self).assets.flags == old(self).assets.flags
                        &&& (to_playlist ==> {
                            &&& final(self).playlists.view().dom() == old(self).playlists.view().dom()
                            &&& final(self).playlists.view().remove(pk) == old(self).playlists.view().remove(pk)
                            &&& asset_keys_view(final(self).playlists.view()[pk].assets@) == asset_keys_view(
                                old(self).playlists.view()[pk].assets@,
                            ).push((channel_id@, pid))
                        })
                        &&& (!to_playlist ==> final(self).playlists == old(self).playlists)
                        &&& final(self).channels == old(self).channels
                    }
                }
            }),
    {
        self.check_gate(paused, &channel_id, &sender, Role::Publisher, &queried_owner)?;
        let publish_id = generate_random_id_with_prefix("publish", None, Some(&env), Some(&salt));
        proof {
            assert(publish_id@ == random_id("publish"@, id_source(None, Some(env), Some(salt@))));
        }
        let source = asset_source.duplicate();
        validate_asset_source(
            source,
            sender.clone(),
            metadata.name.clone(),
            metadata.description.clone(),
            metadata.media_uri.clone(),
            source_owner,
        )?;
        let key: AssetKey = (channel_id.clone(), publish_id.clone());
        if self.assets.asset_exists(copy_asset_key(&key)) {
            return Err(ContractError::Asset(AssetError::AssetAlreadyExists {}));
        }
        let to_playlist = playlist_name.is_some() && is_visible;
        if to_playlist {
            let pl = match &playlist_name {
                Some(p) => p.clone(),
                None => String::new(),
            };
            match self.playlists.get_playlist(channel_id.clone(), pl) {
                Err(e) => {
                    return Err(ContractError::Playlist(e));
                },
                Ok(p) => {
                    match crate::asset_manager::playlists::position_of(&p.assets, &key) {
                        Some(i) => {
                            proof {
                                crate::asset_manager::playlists::lemma_first_index_found(
                                    asset_keys_view(p.assets@),
                                    asset_key_view(key),
                                );
                            }
                            return Err(ContractError::Playlist(PlaylistError::AssetAlreadyExistsInPlaylist {}));
                        },
                        None => {
                            proof {
                                crate::asset_manager::playlists::lemma_first_index_absent(
                                    asset_keys_view(p.assets@),
                                    asset_key_view(key),
                                );
                            }
                        },
                    }
                    if p.assets.len() >= 100 {
                        return Err(ContractError::Playlist(PlaylistError::PlaylistAssetLimitReached {}));
                    }
                },
            }
        }
        let text = asset_source.to_text();
        let ghost old_source = asset_source;
        let asset = Asset {
            channel_id: channel_id.clone(),
            publish_id: publish_id.clone(),
            asset_source,
            is_visible,
        };
        let _ = self.assets.add_asset(copy_asset_key(&key), asset);
        self.assets.set_metadata(&key, metadata);
        let mut v: Vec<(String, String)> = Vec::new();
        v.push(attr("action", "publish"));
        v.push(attr("publish_id", publish_id.as_str()));
        v.push(attr("channel_id", channel_id.as_str()));
        v.push(attr("asset_source", text.as_str()));
        let ghost head = attrs_view(v@);
        assert(head =~= seq![
            ("action"@, "publish"@),
            ("publish_id"@, publish_id@),
            ("channel_id"@, channel_id@),
            ("asset_source"@, source_text(old_source)),
        ]);
        match playlist_name {
            Some(pl) => {
                if is_visible {
                    let ghost before = self.playlists.view()[key2(channel_id@, pl@)].assets@;
                    let _ = self.playlists.add_asset_to_playlist(channel_id.clone(), pl.clone(), key);
                    proof {
                        let pk = key2(channel_id@, pl@);
                        assert(asset_keys_view(self.playlists.view()[pk].assets@) =~= asset_keys_view(before).push(
                            (channel_id@, publish_id@),
                        ));
                    }
                }
                v.push(attr("playlist_name", pl.as_str()));
                assert(attrs_view(v@) =~= head + seq![("playlist_name"@, pl@)]);
            },
            None => {
                assert(attrs_view(v@) =~= head + Seq::<(Seq<char>, Seq<char>)>::empty());
            },
        }
        proof {
            let k = key2(channel_id@, publish_id@);
            assert(self.assets.view().dom() =~= old(self).assets.view().dom().insert(k));
            assert(self.assets.view().remove(k) =~= old(self).assets.view().remove(k));
        }
        Ok(attrs_only(v))
    }

    /// Creates a channel for `sender`: checks the fee paid, draws the channel's id
    /// and its ONFT's id from the block and `salt`, checks its username and
    /// presentation and the username's reservation (which it lifts when it was
    /// for `sender`), registers it, and answers with the minting of its ONFT and
    /// the transfer of the fee to the fee collector.
    pub fn create_channel(
        &mut self,
        paused: bool,
        sender: String,
        funds: Vec<Coin>,
        env: BlockEnv,
        salt: Vec<u8>,
        description: Option<String>,
        payment_address: Result<String, String>,
        user_name: String,
        channel_name: String,
        profile_picture: Option<String>,
        banner_picture: Option<String>,
    ) -> (r: Result<Response, ContractError>)
        requires
            old(self).wf(),
            !paused ==> totals_fit(coins_view(old(self).config.channel_creation_fee@)) && totals_fit(coins_view(funds@)),
        ensures
            final(self).wf(),
            ({
                let cfg = old(self).config;
                let fee = coins_view(cfg.channel_creation_fee@);
                let fee_ok = forall|d: Seq<char>| #[trigger] total(fee, d) == total(coins_view(funds@), d);
                let oid = random_id("onft"@, id_source(None, Some(env), Some(salt@)));
                let cid = random_id("channel"@, id_source(None, Some(env), Some(salt@)));
                let md = ChannelMetadata { channel_name, description, profile_picture, banner_picture };
                let u = key1(user_name@);
                let rs = old(self).channels.reserved_usernames.view();
                let ch = old(self).channels;
                let tkn = old(self).channel_token_details;
                if paused {
                    refused(r, ContractError::Paused {}, *old(self), *final(self))
                } else if !fee_ok {
                    *final(self) == *old(self) && (r matches Err(ContractError::PaymentError { expected: x, received: y })
                        && x@ == cfg.channel_creation_fee@ && y@ == funds@)
                } else {
                    match payment_address {
                        Err(m) => refused(r, ContractError::Std(m), *old(self), *final(self)),
                        Ok(a) => if first_invalid(seq![(StringValidationType::Username, user_name@)]) is Some {
                            *final(self) == *old(self) && r is Err && checked(
                                unit_of(r),
                                seq![(StringValidationType::Username, user_name@)],
                            )
                        } else if first_invalid(metadata_checks(md)) is Some {
                            *final(self) == *old(self) && r is Err && checked(unit_of(r), metadata_checks(md))
                        } else if rs.contains_key(u) && crate::channel_manager::channel::opt_chars(rs[u].address)
                            != Some(sender@) {
                            refused(r, ContractError::UserNameReserved {}, *old(self), *final(self))
                        } else if ch.channel_details.view().contains_key(key1(cid)) {
                            refused(r, ContractError::Channel(ChannelError::ChannelIdAlreadyExists {}), *old(self), *final(self))
                        } else if ch.username_to_channel_id.view().contains_key(u) {
                            refused(r, ContractError::Channel(ChannelError::UserNameAlreadyTaken {}), *old(self), *final(self))
                        } else {
                            &&& r matches Ok(resp) && {
                                &&& resp.messages@.len() >= 1
                                &&& resp.messages@[0] matches CosmosMsg::MintOnft(m) && {
                                    &&& m.id@ == oid
                                    &&& m.denom_id == cfg.channels_collection_id
                                    &&& m.sender == env.contract_address
                                    &&& m.recipient == sender
                                    &&& m.data@ == onft_json(oid, cid, user_name@)
                                    &&& m.name == user_name
                                    &&& m.media_uri == tkn.media_uri
                                    &&& m.description == tkn.description
                                    &&& m.preview_uri == tkn.preview_uri
                                    &&& m.uri_hash == tkn.uri_hash
                                    &&& m.nsfw == tkn.nsfw
                                    &&& m.extensible == tkn.extensible
                                    &&& m.royalty_share == tkn.royalty_share
                                    &&& m.transferable == tkn.transferable
                                }
                                &&& (forall|d: Seq<char>| #[trigger] total(fee, d) == 0) ==> resp.messages@.len() == 1
                                &&& !(forall|d: Seq<char>| #[trigger] total(fee, d) == 0) ==> {
                                    &&& resp.messages@.len() == 2
                                    &&& resp.messages@[1] matches CosmosMsg::Bank(b) && b.to_address
                                        == cfg.auth_details.fee_collector && canonical(coins_view(b.amount@))
                                        && forall|d: Seq<char>| #[trigger] total(coins_view(b.amount@), d) == total(fee, d)
                                }
                                &&& attrs_view(resp.attributes@) == seq![("action"@, "register_channel"@)] + mint_attrs(
                                    cfg.channels_collection_id@,
                                    oid,
                                    sender@,
                                    user_name@,
                                    onft_json(oid, cid, user_name@),
                                )
                            }
                            &&& final(self).channels.channel_details.view().dom() == ch.channel_details.view().dom().insert(
                                key1(cid),
                            )
                            &&& final(self).channels.channel_details.view().remove(key1(cid)) == ch.channel_details.view().remove(
                                key1(cid),
                            )
                            &&& final(self).channels.channel_details.view()[key1(cid)].channel_id@ == cid
                            &&& final(self).channels.channel_details.view()[key1(cid)].user_name == user_name
                            &&& final(self).channels.channel_details.view()[key1(cid)].onft_id@ == oid
                            &&& final(self).channels.channel_details.view()[key1(cid)].payment_address == a
                            &&& final(self).channels.channel_metadata.view() == ch.channel_metadata.view().insert(key1(cid), md)
                            &&& final(self).channels.username_to_channel_id.view().dom() == ch.username_to_channel_id.view().dom().insert(u)
                            &&& final(self).channels.username_to_channel_id.view().remove(u) == ch.username_to_channel_id.view().remove(u)
                            &&& final(self).channels.username_to_channel_id.view()[u]@ == cid
                            &&& final(self).channels.channel_id_to_username.view() == ch.channel_id_to_username.view().insert(
                                key1(cid),
                                user_name,
                            )
                            &&& final(self).channels.reserved_usernames.view() == if rs.contains_key(u) {
                                rs.remove(u)
                            } else {
                                rs
                            }
                            &&& final(self).channels.same_people(&ch)
                            &&& final(self).assets == old(self).assets
                            &&& final(self).playlists == old(self).playlists
                            &&& final(self).config == old(self).config
                        },
                    }
                }
            }),
    {
        if paused {
            return Err(ContractError::Paused {});
        }
        check_payment(crate::bank::copy_coins(&self.config.channel_creation_fee), funds)?;
        // Both ids are drawn from the same block and salt, and the prefix is not
        // hashed: the ONFT id and the channel id share their 32 drawn characters
        // and differ by prefix only.
        let onft_id = generate_random_id_with_prefix("onft", None, Some(&env), Some(&salt));
        let channel_id = generate_random_id_with_prefix("channel", None, Some(&env), Some(&salt));
        let address = match payment_address {
            Ok(a) => a,
            Err(m) => {
                return Err(ContractError::Std(m));
            },
        };
        let details = ChannelDetails {
            channel_id: channel_id.clone(),
            user_name: user_name.clone(),
            onft_id: onft_id.clone(),
            payment_address: address,
        };
        let md = ChannelMetadata { channel_name, description, profile_picture, banner_picture };
        validate_channel_details(details.duplicate())?;
        validate_channel_metadata(md.duplicate())?;
        let lift = match self.channels.get_reserved_status(user_name.clone()) {
            None => false,
            Some(Some(a)) => {
                if a == sender {
                    true
                } else {
                    return Err(ContractError::UserNameReserved {});
                }
            },
            Some(None) => {
                return Err(ContractError::UserNameReserved {});
            },
        };
        if self.channels.channel_details.contains(&crate::keys::Key::one(channel_id.as_str())) {
            return Err(ContractError::Channel(ChannelError::ChannelIdAlreadyExists {}));
        }
        if self.channels.username_to_channel_id.contains(&crate::keys::Key::one(user_name.as_str())) {
            return Err(ContractError::Channel(ChannelError::UserNameAlreadyTaken {}));
        }
        if lift {
            let mut one: Vec<String> = Vec::new();
            one.push(user_name.clone());
            proof {
                let n = user_name@;
                let cur = self.channels.reserved_usernames.view();
                assert(strings_view(one@) =~= seq![n]);
                assert(seq![n].drop_first() =~= Seq::<Seq<char>>::empty());
                assert(unreserve_all(cur.remove(key1(n)), Seq::<Seq<char>>::empty()) == (cur.remove(key1(n)), true));
            }
            let _ = self.channels.remove_reserved_usernames(one);
        }
        let _ = self.channels.add_channel(channel_id.clone(), details, md);
        let data = ChannelOnftData {
            onft_id: onft_id.clone(),
            channel_id: channel_id.clone(),
            user_name: user_name.clone(),
        }.to_json();
        let (mint, nft_attributes) = generate_mint_onft_msg(
            onft_id,
            self.config.channels_collection_id.clone(),
            env.contract_address.clone(),
            sender.clone(),
            data,
            user_name.clone(),
            self.channel_token_details.duplicate(),
        );
        let mut fee_msgs = bank_msg_wrapper(
            self.config.auth_details.fee_collector.clone(),
            crate::bank::copy_coins(&self.config.channel_creation_fee),
        );
        let mut messages: Vec<CosmosMsg> = Vec::new();
        messages.push(mint);
        if fee_msgs.len() == 1 {
            let b = fee_msgs.remove(0);
            messages.push(CosmosMsg::Bank(b));
        }
        let ghost tail = attrs_view(nft_attributes@);
        let mut attributes = nft_attributes;
        attributes.insert(0, attr("action", "register_channel"));
        assert(attrs_view(attributes@) =~= seq![("action"@, "register_channel"@)] + tail);
        Ok(Response { messages, attributes })
    }

    /// Channel `channel_id`: its identity, presentation, first collaborators and
    /// number of followers.
    pub fn query_channel(&self, channel_id: String) -> (r: Result<ChannelResponse, ContractError>)
        requires
            self.wf(),
        ensures
            !channel_known(self.channels, channel_id@) ==> r == Err::<ChannelResponse, ContractError>(
                ContractError::Channel(ChannelError::ChannelIdNotFound {}),
            ),
            channel_known(self.channels, channel_id@) ==> (r matches Ok(c) && describes_channel(self.channels, channel_id@, c)),
    {
        let d = match self.channels.get_channel_details(channel_id.clone()) {
            Ok(d) => d,
            Err(e) => {
                return Err(ContractError::Channel(e));
            },
        };
        let m = match self.channels.get_channel_metadata(channel_id.clone()) {
            Ok(m) => m,
            Err(e) => {
                return Err(ContractError::Channel(e));
            },
        };
        let collaborators = match self.channels.get_channel_collaborators(channel_id.clone(), None, None) {
            Ok(v) => v,
            Err(e) => {
                return Err(ContractError::Channel(e));
            },
        };
        let follower_count = match self.channels.get_followers_count(channel_id) {
            Ok(n) => n,
            Err(e) => {
                return Err(ContractError::Channel(e));
            },
        };
        Ok(ChannelResponse {
            channel_id: d.channel_id,
            user_name: d.user_name,
            onft_id: d.onft_id,
            payment_address: d.payment_address,
            channel_name: m.channel_name,
            description: m.description,
            profile_picture: m.profile_picture,
            banner_picture: m.banner_picture,
            collaborators,
            follower_count,
        })
    }

    /// Up to `limit` (25 when not given) channels, in channel id order, after
    /// `start_after` when given, each as `query_channel` reports it.
    pub fn query_channels(&self, start_after: Option<String>, limit: Option<u32>) -> (r: Result<
        Vec<ChannelResponse>,
        ContractError,
    >)
        requires
            self.wf(),
        ensures
            ({
                let ids = listed_ids(self.channels, start_after, limit);
                &&& (r is Ok <==> forall|j: int| 0 <= j < ids.len() ==> channel_known(self.channels, #[trigger] ids[j]))
                &&& r matches Err(e) ==> e == ContractError::Channel(ChannelError::ChannelIdNotFound {})
                &&& r matches Ok(v) ==> v@.len() == ids.len() && forall|j: int|
                    0 <= j < ids.len() ==> describes_channel(self.channels, ids[j], #[trigger] v@[j])
            }),
    {
        let ghost n = match limit {
            Some(l) => l as int,
            None => crate::channel_manager::channel::DEFAULT_LIMIT as int,
        };
        let ghost idx = crate::map::first_n(
            selected(
                self.channels.channel_details.key_seq(),
                crate::channel_manager::channel::after_opt(crate::channel_manager::channel::opt_chars(start_after)),
                self.channels.channel_details.key_seq().len() as int,
            ),
            n,
        );
        let list = self.channels.get_channels_list(start_after, limit);
        let ghost ids = Seq::new(list@.len(), |j: int| list@[j].channel_id@);
        assert(ids =~= listed_ids(self.channels, start_after, limit));
        let mut out: Vec<ChannelResponse> = Vec::new();
        let mut i: usize = 0;
        while i < list.len()
            invariant
                self.wf(),
                i <= list@.len(),
                ids == Seq::new(list@.len(), |j: int| list@[j].channel_id@),
                ids == listed_ids(self.channels, start_after, limit),
                out@.len() == i,
                forall|j: int| 0 <= j < i ==> channel_known(self.channels, #[trigger] ids[j]),
                forall|j: int| 0 <= j < i ==> describes_channel(self.channels, ids[j], #[trigger] out@[j]),
            decreases list@.len() - i,
        {
            let c = match self.query_channel(list[i].channel_id.clone()) {
                Ok(c) => c,
                Err(e) => {
                    assert(!channel_known(self.channels, ids[i as int]));
                    return Err(e);
                },
            };
            out.push(c);
            i = i + 1;
        }
        Ok(out)
    }

    /// Asset `publish_id` of channel `channel_id` with its flags and details.
    pub fn query_asset(&self, channel_id: String, publish_id: String) -> (r: Result<AssetResponse, ContractError>)
        requires
            self.wf(),
        ensures
            ({
                let k = key2(channel_id@, publish_id@);
                if !self.assets.view().contains_key(k) {
                    r == Err::<AssetResponse, ContractError>(ContractError::Asset(AssetError::AssetNotFound {}))
                } else {
                    r matches Ok(a) && {
                        &&& a.asset == self.assets.view()[k]
                        &&& self.assets.metadata.view().contains_key(k) ==> a.metadata == self.assets.metadata.view()[k]
                        &&& {
                            let idx = selected(
                                self.assets.flags.key_seq(),
                                |q: Seq<Seq<char>>| q.len() > 2 && q[0] == channel_id@ && q[1] == publish_id@,
                                self.assets.flags.key_seq().len() as int,
                            );
                            &&& a.flags@.len() == idx.len()
                            &&& forall|j: int| 0 <= j < idx.len() ==> #[trigger] a.flags@[j] == self.assets.flags.val_seq()[idx[j]]
                        }
                    }
                }
            }),
    {
        let key: AssetKey = (channel_id.clone(), publish_id.clone());
        let asset = match self.assets.get_asset(copy_asset_key(&key)) {
            Ok(a) => a,
            Err(e) => {
                return Err(ContractError::Asset(e));
            },
        };
        let flags = self.assets.get_all_flags_for_asset(channel_id, publish_id);
        let metadata = self.assets.get_metadata(&key);
        Ok(AssetResponse { asset, flags, metadata })
    }

    /// Collaborator `collaborator_address` of channel `channel_id`: its address,
    /// role name and share.
    pub fn query_channel_collaborator(&self, channel_id: String, collaborator_address: String) -> (r: Result<
        CollaboratorInfo,
        ContractError,
    >)
        requires
            self.wf(),
        ensures
            ({
                let k = key2(channel_id@, collaborator_address@);
                if !self.channels.channel_collaborators.view().contains_key(k) {
                    r == Err::<CollaboratorInfo, ContractError>(
                        ContractError::Channel(ChannelError::CollaboratorNotFound {}),
                    )
                } else {
                    r matches Ok(c) && c.address == collaborator_address && c.role@ == role_name(
                        self.channels.channel_collaborators.view()[k].1.role,
                    ) && c.share == self.channels.channel_collaborators.view()[k].1.share
                }
            }),
    {
        let c = match self.channels.get_collaborator(channel_id, collaborator_address.clone()) {
            Ok(c) => c,
            Err(e) => {
                return Err(ContractError::Channel(e));
            },
        };
        Ok(CollaboratorInfo { address: collaborator_address, role: c.role.name(), share: c.share })
    }

    /// The identity record of channel `channel_id`.
    pub fn query_channel_details(&self, channel_id: String) -> (r: Result<ChannelDetails, ContractError>)
        requires
            self.wf(),
        ensures
            r is Err <==> !self.channels.channel_details.view().contains_key(key1(channel_id@)),
            r matches Err(e) ==> e == ContractError::Channel(ChannelError::ChannelIdNotFound {}),
            r matches Ok(d) ==> d == self.channels.channel_details.view()[key1(channel_id@)],
    {
        match self.channels.get_channel_details(channel_id) {
            Ok(d) => Ok(d),
            Err(e) => Err(ContractError::Channel(e)),
        }
    }

    /// The presentation of channel `channel_id`.
    pub fn query_channel_metadata(&self, channel_id: String) -> (r: Result<ChannelMetadata, ContractError>)
        requires
            self.wf(),
        ensures
            r is Err <==> !self.channels.channel_metadata.view().contains_key(key1(channel_id@)),
            r matches Err(e) ==> e == ContractError::Channel(ChannelError::ChannelIdNotFound {}),
            r matches Ok(m) ==> m == self.channels.channel_metadata.view()[key1(channel_id@)],
    {
        match self.channels.get_channel_metadata(channel_id) {
            Ok(m) => Ok(m),
            Err(e) => Err(ContractError::Channel(e)),
        }
    }

    /// Playlist `playlist_name` of channel `channel_id`.
    pub fn query_playlist(&self, channel_id: String, playlist_name: String) -> (r: Result<Playlist, ContractError>)
        requires
            self.wf(),
        ensures
            ({
                let k = key2(channel_id@, playlist_name@);
                &&& r is Err <==> !self.playlists.view().contains_key(k)
                &&& r matches Err(e) ==> e == ContractError::Playlist(PlaylistError::PlaylistNotFound {})
                &&& r matches Ok(p) ==> p.playlist_name == self.playlists.view()[k].playlist_name
                    && p.assets@ == self.playlists.view()[k].assets@
            }),
    {
        match self.playlists.get_playlist(channel_id, playlist_name) {
            Ok(p) => Ok(p),
            Err(e) => Err(ContractError::Playlist(e)),
        }
    }

    /// Up to `limit` (25 when not given) playlists of channel `channel_id`, in name
    /// order, after `start_after` when given.
    pub fn query_playlists(&self, channel_id: String, start_after: Option<String>, limit: Option<u32>) -> (r: Result<
        Vec<Playlist>,
        ContractError,
    >)
        requires
            self.wf(),
        ensures
            ({
                let n = match limit { Some(l) => l as int, None => 25 };
                let idx = crate::map::first_n(
                    selected(
                        self.playlists.playlists.key_seq(),
                        |k: Seq<Seq<char>>| in_channel_after(k, channel_id@, crate::asset_manager::playlists::opt_view(start_after)),
                        self.playlists.playlists.key_seq().len() as int,
                    ),
                    n,
                );
                r matches Ok(v) && {
                    &&& v@.len() == idx.len()
                    &&& forall|j: int| 0 <= j < idx.len() ==> {
                        &&& (#[trigger] v@[j]).playlist_name == self.playlists.playlists.val_seq()[idx[j]].playlist_name
                        &&& v@[j].assets@ == self.playlists.playlists.val_seq()[idx[j]].assets@
                    }
                }
            }),
    {
        Ok(self.playlists.get_all_playlists(channel_id, start_after, limit))
    }

    /// The id of the channel registered under `user_name`.
    pub fn query_channel_id(&self, user_name: String) -> (r: Result<String, ContractError>)
        requires
            self.wf(),
        ensures
            r is Err <==> !self.channels.username_to_channel_id.view().contains_key(key1(user_name@)),
            r matches Err(e) ==> e == ContractError::Channel(ChannelError::UserNameNotFound {}),
            r matches Ok(id) ==> id == self.channels.username_to_channel_id.view()[key1(user_name@)],
    {
        match self.channels.get_channel_id(user_name) {
            Ok(id) => Ok(id),
            Err(e) => Err(ContractError::Channel(e)),
        }
    }

    /// Up to `limit` (at most 50, 50 when not given) assets of channel
    /// `channel_id`, in publish id order, after `start_after` when given.
    pub fn query_assets(&self, channel_id: String, start_after: Option<String>, limit: Option<u32>) -> (r: Result<
        Vec<Asset>,
        ContractError,
    >)
        requires
            self.wf(),
        ensures
            ({
                let n = match limit {
                    Some(l) => if l < 50 { l as int } else { 50 },
                    None => 50,
                };
                let idx = crate::map::first_n(
                    selected(
                        self.assets.assets.key_seq(),
                        |k: Seq<Seq<char>>| in_channel_after(k, channel_id@, crate::asset_manager::playlists::opt_view(start_after)),
                        self.assets.assets.key_seq().len() as int,
                    ),
                    n,
                );
                r matches Ok(v) && {
                    &&& v@.len() == idx.len()
                    &&& forall|j: int| 0 <= j < idx.len() ==> #[trigger] v@[j] == self.assets.assets.val_seq()[idx[j]]
                }
            }),
    {
        Ok(self.assets.get_all_assets(channel_id, start_after, limit))
    }

    /// Up to `limit` (at most 25, 25 when not given) reserved usernames in name
    /// order, after `start_after` when given.
    pub fn query_reserved_usernames(&self, start_after: Option<String>, limit: Option<u32>) -> (r: Result<
        Vec<ReservedUsername>,
        ContractError,
    >)
        requires
            self.wf(),
        ensures
            ({
                let n = match limit {
                    Some(l) => if l < 25 { l as int } else { 25 },
                    None => 25,
                };
                let idx = crate::map::first_n(
                    selected(
                        self.channels.reserved_usernames.key_seq(),
                        crate::channel_manager::channel::after_opt(crate::channel_manager::channel::opt_chars(start_after)),
                        self.channels.reserved_usernames.key_seq().len() as int,
                    ),
                    n,
                );
                r matches Ok(v) && {
                    &&& v@.len() == idx.len()
                    &&& forall|j: int| 0 <= j < idx.len() ==> #[trigger] v@[j] == self.channels.reserved_usernames.val_seq()[idx[j]]
                }
            }),
    {
        Ok(self.channels.get_reserved_usernames(start_after, limit))
    }

    /// Up to `limit` (25 when not given) collaborators of channel `channel_id`, in
    /// address order, after `start_after` when given.
    pub fn query_channel_collaborators(
        &self,
        channel_id: String,
        start_after: Option<String>,
        limit: Option<u32>,
    ) -> (r: Result<Vec<CollaboratorInfo>, ContractError>)
        requires
            self.wf(),
        ensures
            r matches Ok(v) && self.channels.lists_collaborators(channel_id@, start_after, limit, v@),
    {
        match self.channels.get_channel_collaborators(channel_id, start_after, limit) {
            Ok(v) => Ok(v),
            Err(e) => Err(ContractError::Channel(e)),
        }
    }

    /// How many accounts follow channel `channel_id`.
    pub fn query_followers_count(&self, channel_id: String) -> (r: Result<u64, ContractError>)
        requires
            self.wf(),
        ensures
            r matches Ok(n) && n == self.channels.follower_count(channel_id@),
    {
        match self.channels.get_followers_count(channel_id) {
            Ok(n) => Ok(n),
            Err(e) => Err(ContractError::Channel(e)),
        }
    }

    /// Up to `limit` (25 when not given) followers of channel `channel_id`, in
    /// address order, after `start_after` when given.
    pub fn query_followers(&self, channel_id: String, start_after: Option<String>, limit: Option<u32>) -> (r: Result<
        Vec<String>,
        ContractError,
    >)
        requires
            self.wf(),
        ensures
            ({
                let n = match limit { Some(l) => l as int, None => 25 };
                let idx = crate::map::first_n(
                    selected(
                        self.channels.followers.key_seq(),
                        |k: Seq<Seq<char>>| in_channel_after(k, channel_id@, crate::asset_manager::playlists::opt_view(start_after)),
                        self.channels.followers.key_seq().len() as int,
                    ),
                    n,
                );
                r matches Ok(v) && {
                    &&& v@.len() == idx.len()
                    &&& forall|j: int| 0 <= j < idx.len() ==> #[trigger] v@[j] == self.channels.followers.val_seq()[idx[j]]
                }
            }),
    {
        match self.channels.get_followers(channel_id, start_after, limit) {
            Ok(v) => Ok(v),
            Err(e) => Err(ContractError::Channel(e)),
        }
    }
}


/// The outcome of instantiating without its result.
pub open spec fn instantiate_unit(r: Result<(ChannelContract, Response), ContractError>) -> Result<(), ContractError> {
    match r {
        Ok(_) => Ok(()),
        Err(e) => Err(e),
    }
}

/// Sets the contract up: checks the admin and fee collector addresses (validated,
/// `Err` with the host's message), the collection and token details, the fee for
/// creating the collection (as a query reported it), that `funds` pay exactly
/// that fee, and the reserved usernames (their addresses' validation outcomes at
/// the same index of `addr_checks`); answers with the creation of the collection.
pub fn instantiate(
    funds: Vec<Coin>,
    env: BlockEnv,
    msg: InstantiateMsg,
    protocol_admin: Result<String, String>,
    fee_collector: Result<String, String>,
    collection_fee: Option<(String, String)>,
    addr_checks: Vec<Result<(), String>>,
) -> (r: Result<(ChannelContract, Response), ContractError>)
    requires
        addr_checks@.len() == msg.reserved_usernames@.len(),
        protocol_admin is Ok && fee_collector is Ok && first_invalid(collection_checks(msg.channels_collection_details))
            is None && first_invalid(token_checks(msg.channel_token_details)) is None && collection_fee is Some
            && parse_u128((collection_fee->0).1@) is Some ==> totals_fit(coins_view(funds@)),
    ensures
        ({
            let cd = msg.channels_collection_details;
            let fee = Coin { denom: (collection_fee->0).0, amount: parse_u128((collection_fee->0).1@)->0 };
            match protocol_admin {
                Err(m) => r matches Err(e) && e == ContractError::Std(m),
                Ok(admin) => match fee_collector {
                    Err(m) => r matches Err(e) && e == ContractError::Std(m),
                    Ok(collector) => if first_invalid(collection_checks(cd)) is Some {
                        r is Err && checked(instantiate_unit(r), collection_checks(cd))
                    } else if first_invalid(token_checks(msg.channel_token_details)) is Some {
                        r is Err && checked(instantiate_unit(r), token_checks(msg.channel_token_details))
                    } else if collection_fee is None || parse_u128((collection_fee->0).1@) is None {
                        r == Err::<(ChannelContract, Response), ContractError>(
                            ContractError::CollectionCreationFeeError {},
                        )
                    } else if !(forall|d: Seq<char>| #[trigger] total(seq![(fee.denom@, fee.amount)], d) == total(
                        coins_view(funds@),
                        d,
                    )) {
                        r matches Err(ContractError::PaymentError { expected: x, received: y }) && x@ == seq![fee]
                            && y@ == funds@
                    } else {
                        match first_reservation_problem(msg.reserved_usernames@, addr_checks@, 0) {
                            Some((i, true)) => r matches Err(e) && reports(
                                Err(e),
                                StringValidationType::Username,
                                msg.reserved_usernames@[i].username@,
                            ),
                            Some((i, false)) => r matches Err(e) && e == ContractError::Std(addr_checks@[i]->Err_0),
                            None => r matches Ok((c, resp)) && {
                                &&& c.wf()
                                &&& c.config.channels_collection_id == cd.collection_id
                                &&& c.config.channel_creation_fee@ == msg.channel_creation_fee@
                                &&& c.config.accepted_tip_denoms@ == msg.accepted_tip_denoms@
                                &&& c.config.auth_details == (AuthDetails { protocol_admin: admin, fee_collector: collector })
                                &&& c.channel_token_details == msg.channel_token_details
                                &&& c.channels.reserved_usernames.view() == reserve_all(
                                    Map::<Seq<Seq<char>>, ReservedUsername>::empty(),
                                    msg.reserved_usernames@,
                                )
                                &&& c.channels.channel_details.view() == Map::<Seq<Seq<char>>, ChannelDetails>::empty()
                                &&& c.channels.channel_collaborators.view() == Map::<
                                    Seq<Seq<char>>,
                                    crate::channel_manager::channel::Collaborator,
                                >::empty()
                                &&& c.channels.followers.view() == Map::<Seq<Seq<char>>, String>::empty()
                                &&& c.assets.view() == Map::<Seq<Seq<char>>, Asset>::empty()
                                &&& c.playlists.view() == Map::<Seq<Seq<char>>, crate::types::asset::Playlist>::empty()
                                &&& resp.messages@.len() == 1
                                &&& resp.messages@[0] matches CosmosMsg::CreateDenom(m) && {
                                    &&& m.id == cd.collection_id
                                    &&& m.name == cd.collection_name
                                    &&& m.symbol == cd.collection_symbol
                                    &&& m.description == cd.description
                                    &&& m.preview_uri == cd.preview_uri
                                    &&& m.schema == cd.schema
                                    &&& m.sender == env.contract_address
                                    &&& m.creation_fee == fee
                                    &&& m.uri == cd.uri
                                    &&& m.uri_hash@ == Seq::<char>::empty()
                                    &&& m.data@ == Seq::<char>::empty()
                                }
                                &&& attrs_view(resp.attributes@) == seq![
                                    ("action"@, "instantiate"@),
                                    ("channels_collection_id"@, cd.collection_id@),
                                    ("channels_collection_name"@, cd.collection_name@),
                                    ("channels_collection_symbol"@, cd.collection_symbol@),
                                ]
                            },
                        }
                    },
                },
            }
        }),
{
    let admin = match protocol_admin {
        Ok(a) => a,
        Err(m) => {
            return Err(ContractError::Std(m));
        },
    };
    let collector = match fee_collector {
        Ok(a) => a,
        Err(m) => {
            return Err(ContractError::Std(m));
        },
    };
    let cd = msg.channels_collection_details;
    if let Err(e) = validate_channel_collection_details(cd.duplicate()) {
        return Err(e);
    }
    if let Err(e) = validate_channel_token_details(msg.channel_token_details.duplicate()) {
        return Err(e);
    }
    let config = ChannelConractConfig {
        channels_collection_id: cd.collection_id.clone(),
        channel_creation_fee: msg.channel_creation_fee,
        accepted_tip_denoms: msg.accepted_tip_denoms,
        auth_details: AuthDetails { protocol_admin: admin, fee_collector: collector },
    };
    let fee = get_collection_creation_fee(collection_fee)?;
    let mut expected: Vec<Coin> = Vec::new();
    expected.push(fee.duplicate());
    proof {
        assert(coins_view(expected@) =~= seq![(fee.denom@, fee.amount)]);
        assert forall|d: Seq<char>| #[trigger] total(coins_view(expected@), d) <= u128::MAX by {
            crate::bank::lemma_total_single((fee.denom@, fee.amount), d);
        }
    }
    if let Err(e) = check_payment(expected, funds) {
        return Err(e);
    }
    let reserved = validate_reserved_usernames(msg.reserved_usernames, &addr_checks)?;
    let mut channels = ChannelsManager::new();
    let _ = channels.add_reserved_usernames(reserved);
    let attributes = {
        let mut v: Vec<(String, String)> = Vec::new();
        v.push(attr("action", "instantiate"));
        v.push(attr("channels_collection_id", cd.collection_id.as_str()));
        v.push(attr("channels_collection_name", cd.collection_name.as_str()));
        v.push(attr("channels_collection_symbol", cd.collection_symbol.as_str()));
        assert(attrs_view(v@) =~= seq![
            ("action"@, "instantiate"@),
            ("channels_collection_id"@, cd.collection_id@),
            ("channels_collection_name"@, cd.collection_name@),
            ("channels_collection_symbol"@, cd.collection_symbol@),
        ]);
        v
    };
    let denom_msg = generate_create_denom_msg(cd, env.contract_address.clone(), fee);
    let mut messages: Vec<CosmosMsg> = Vec::new();
    messages.push(denom_msg);
    let contract = ChannelContract {
        config,
        channel_token_details: msg.channel_token_details,
        channels,
        assets: AssetsManager::new(),
        playlists: PlaylistsManager::new(),
    };
    Ok((contract, Response { messages, attributes }))
}

} // verus!
