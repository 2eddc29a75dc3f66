use vstd::prelude::*;

use crate::asset_manager::assets::{sift, AssetsManager};
use crate::error::ContractError;
use crate::string_validation::{accepts, config_for, describes, validate_string, validation_failure, StringValidationType};
use crate::types::asset::{AssetKey, AssetSource};
use crate::types::channel::{ChannelDetails, ChannelMetadata};
use crate::types::msg::{ChannelTokenDetails, ChannelsCollectionDetails, ReservedUsername};

verus! {

/// The length in bytes that `str::len` reports for a string with characters `s`.
pub open spec fn str_len(s: Seq<char>) -> nat {
    (vstd::utf8::encode_utf8(s).len() as usize) as nat
}

/// The string `s` passes the checks for kind `t`.
pub open spec fn valid(t: StringValidationType, s: Seq<char>) -> bool {
    accepts(t, s, str_len(s))
}

/// `r` is the error that checking `s` as kind `t` reports.
pub open spec fn reports(r: Result<(), ContractError>, t: StringValidationType, s: Seq<char>) -> bool {
    r matches Err(ContractError::StringValidationError(sve)) && describes(
        sve,
        validation_failure(s, str_len(s), config_for(t))->0,
        s,
        config_for(t),
    )
}

/// The first of `checks` that fails, if any.
pub open spec fn first_invalid(checks: Seq<(StringValidationType, Seq<char>)>) -> Option<(StringValidationType, Seq<char>)>
    decreases checks.len(),
{
    if checks.len() == 0 {
        None
    } else if !valid(checks[0].0, checks[0].1) {
        Some(checks[0])
    } else {
        first_invalid(checks.drop_first())
    }
}

/// `r` is what running `checks` in order gives: success when all pass, else the
/// error of the first that fails.
pub open spec fn checked(r: Result<(), ContractError>, checks: Seq<(StringValidationType, Seq<char>)>) -> bool {
    match first_invalid(checks) {
        None => r is Ok,
        Some(c) => reports(r, c.0, c.1),
    }
}

/// The checks of `v`, each string taken by its characters.
pub open spec fn checks_view(v: Seq<(StringValidationType, String)>) -> Seq<(StringValidationType, Seq<char>)> {
    v.map_values(|c: (StringValidationType, String)| (c.0, c.1@))
}

/// The check of an optional string: none when it is absent.
pub open spec fn opt_check(t: StringValidationType, o: Option<String>) -> Seq<(StringValidationType, Seq<char>)> {
    match o {
        Some(s) => seq![(t, s@)],
        None => Seq::empty(),
    }
}

/// Runs each check in order and stops at the first that fails.
pub fn validate_strings(checks: Vec<(StringValidationType, String)>) -> (r: Result<(), ContractError>)
    ensures
        checked(r, checks_view(checks@)),
{
    let ghost all = checks_view(checks@);
    let mut i: usize = 0;
    assert(all.skip(0) =~= all);
    while i < checks.len()
        invariant
            i <= checks@.len(),
            all == checks_view(checks@),
            first_invalid(all) == first_invalid(all.skip(i as int)),
        decreases checks@.len() - i,
    {
        let ghost rest = all.skip(i as int);
        assert(rest[0] == (checks@[i as int].0, checks@[i as int].1@));
        assert(rest.drop_first() =~= all.skip(i + 1));
        let r = validate_string(checks[i].1.as_str(), checks[i].0);
        if r.is_err() {
            return r;
        }
        i = i + 1;
    }
    assert(all.skip(i as int) =~= Seq::<(StringValidationType, Seq<char>)>::empty());
    Ok(())
}

/// Adds the check of `o`, when it is present, to `v`.
pub fn push_opt_check(v: &mut Vec<(StringValidationType, String)>, t: StringValidationType, o: &Option<String>)
    ensures
        checks_view(final(v)@) == checks_view(old(v)@) + opt_check(t, *o),
{
    match o {
        Some(s) => {
            v.push((t, s.clone()));
            assert(checks_view(v@) =~= checks_view(old(v)@) + opt_check(t, *o));
        },
        None => {
            assert(checks_view(v@) =~= checks_view(old(v)@) + opt_check(t, *o));
        },
    }
}

/// The checks of a channel's presentation: its name, then its description,
/// profile picture and banner picture when present.
pub open spec fn metadata_checks(m: ChannelMetadata) -> Seq<(StringValidationType, Seq<char>)> {
    seq![(StringValidationType::ChannelName, m.channel_name@)] + opt_check(StringValidationType::Description, m.description)
        + opt_check(StringValidationType::Link, m.profile_picture) + opt_check(StringValidationType::Link, m.banner_picture)
}

/// Checks a channel's presentation: its name, then its description, profile
/// picture and banner picture when present.
pub fn validate_channel_metadata(metadata: ChannelMetadata) -> (r: Result<(), ContractError>)
    ensures
        checked(r, metadata_checks(metadata)),
{
    let mut v: Vec<(StringValidationType, String)> = Vec::new();
    v.push((StringValidationType::ChannelName, metadata.channel_name.clone()));
    push_opt_check(&mut v, StringValidationType::Description, &metadata.description);
    push_opt_check(&mut v, StringValidationType::Link, &metadata.profile_picture);
    push_opt_check(&mut v, StringValidationType::Link, &metadata.banner_picture);
    assert(checks_view(v@) =~= metadata_checks(metadata));
    validate_strings(v)
}

/// Checks a channel's username.
pub fn validate_channel_details(details: ChannelDetails) -> (r: Result<(), ContractError>)
    ensures
        checked(r, seq![(StringValidationType::Username, details.user_name@)]),
{
    let mut v: Vec<(StringValidationType, String)> = Vec::new();
    v.push((StringValidationType::Username, details.user_name.clone()));
    assert(checks_view(v@) =~= seq![(StringValidationType::Username, details.user_name@)]);
    validate_strings(v)
}

/// The checks of the details of each channel ONFT.
pub open spec fn token_checks(d: ChannelTokenDetails) -> Seq<(StringValidationType, Seq<char>)> {
    seq![
        (StringValidationType::Link, d.media_uri@),
        (StringValidationType::Link, d.preview_uri@),
        (StringValidationType::Description, d.description@),
    ]
}

/// Checks the details of each channel ONFT: its media link, its preview link,
/// then its description.
pub fn validate_channel_token_details(channel_token_details: ChannelTokenDetails) -> (r: Result<(), ContractError>)
    ensures
        checked(r, token_checks(channel_token_details)),
{
    let mut v: Vec<(StringValidationType, String)> = Vec::new();
    v.push((StringValidationType::Link, channel_token_details.media_uri.clone()));
    v.push((StringValidationType::Link, channel_token_details.preview_uri.clone()));
    v.push((StringValidationType::Description, channel_token_details.description.clone()));
    assert(checks_view(v@) =~= token_checks(channel_token_details));
    validate_strings(v)
}

/// The checks of the details of the collection of channel ONFTs.
pub open spec fn collection_checks(d: ChannelsCollectionDetails) -> Seq<(StringValidationType, Seq<char>)> {
    seq![
        (StringValidationType::Description, d.description@),
        (StringValidationType::Link, d.preview_uri@),
        (StringValidationType::Link, d.uri@),
    ]
}

/// Checks the details of the collection of channel ONFTs: its description, its
/// preview link, then its link.
pub fn validate_channel_collection_details(collection_details: ChannelsCollectionDetails) -> (r: Result<(), ContractError>)
    ensures
        checked(r, collection_checks(collection_details)),
{
    let mut v: Vec<(StringValidationType, String)> = Vec::new();
    v.push((StringValidationType::Description, collection_details.description.clone()));
    v.push((StringValidationType::Link, collection_details.preview_uri.clone()));
    v.push((StringValidationType::Link, collection_details.uri.clone()));
    assert(checks_view(v@) =~= collection_checks(collection_details));
    validate_strings(v)
}

/// The keys of `asset_keys`, in order, whose asset is no longer stored or no longer
/// visible.
pub fn filter_assets_to_remove(assets: &AssetsManager, asset_keys: Vec<AssetKey>) -> (r: Vec<AssetKey>)
    requires
        assets.wf(),
    ensures
        r@ == sift(assets.view(), asset_keys@, false),
{
    assets.sift_keys(&asset_keys, false)
}

/// The first problem with a list of reservations, checked in order: the index,
/// and whether it is the username (`true`) or the address (`false`) that is at
/// fault. `addr_checks[i]` is the outcome of validating the address of the `i`th
/// reservation, where it has one.
pub open spec fn first_reservation_problem(
    us: Seq<ReservedUsername>,
    addr_checks: Seq<Result<(), String>>,
    i: int,
) -> Option<(int, bool)>
    decreases us.len() - i,
{
    if i < 0 || i >= us.len() {
        None
    } else if !valid(StringValidationType::Username, us[i].username@) {
        Some((i, true))
    } else if us[i].address is Some && addr_checks[i] is Err {
        Some((i, false))
    } else {
        first_reservation_problem(us, addr_checks, i + 1)
    }
}

/// Checks each reservation in turn: its username, then its address where it has
/// one, whose validation outcome `addr_checks` holds at the same index. Hands back
/// the reservations when all pass.
pub fn validate_reserved_usernames(
    reserved_usernames: Vec<ReservedUsername>,
    addr_checks: &Vec<Result<(), String>>,
) -> (r: Result<Vec<ReservedUsername>, ContractError>)
    requires
        addr_checks@.len() == reserved_usernames@.len(),
    ensures
        ({
            let us = reserved_usernames@;
            match first_reservation_problem(us, addr_checks@, 0) {
                None => r matches Ok(v) && v@ == us,
                Some((i, true)) => r matches Err(e) && reports(Err(e), StringValidationType::Username, us[i].username@),
                Some((i, false)) => r matches Err(e) && e == ContractError::Std(addr_checks@[i]->Err_0),
            }
        }),
{
    let ghost us = reserved_usernames@;
    let mut i: usize = 0;
    while i < reserved_usernames.len()
        invariant
            i <= us.len(),
            us == reserved_usernames@,
            addr_checks@.len() == us.len(),
            first_reservation_problem(us, addr_checks@, 0) == first_reservation_problem(us, addr_checks@, i as int),
        decreases us.len() - i,
    {
        let u = &reserved_usernames[i];
        let r = validate_string(u.username.as_str(), StringValidationType::Username);
        match r {
            Err(e) => {
                return Err(e);
            },
            Ok(()) => {},
        }
        if u.address.is_some() {
            match &addr_checks[i] {
                Err(m) => {
                    return Err(ContractError::Std(m.clone()));
                },
                Ok(()) => {},
            }
        }
        i = i + 1;
    }
    Ok(reserved_usernames)
}

/// `r` is the outcome of checking that `owner` holds ONFT `onft_id` of collection
/// `collection_id`, when a query reported `queried_owner` as its holder.
pub open spec fn onft_outcome(
    r: Result<(), ContractError>,
    collection_id: String,
    onft_id: String,
    owner: String,
    queried_owner: Option<String>,
) -> bool {
    match queried_owner {
        None => r matches Err(ContractError::OnftNotFound { collection_id: c, onft_id: o }) && c == collection_id
            && o == onft_id,
        Some(q) => if q@ == owner@ {
            r is Ok
        } else {
            r matches Err(ContractError::OnftNotOwned { collection_id: c, onft_id: o }) && c == collection_id
                && o == onft_id
        },
    }
}

/// Checks that the ONFT `onft_id` of collection `collection_id` exists and is
/// held by `owner`, given the holder that a query reported (`None` when the
/// query found no such ONFT).
pub fn check_onft_owner(
    collection_id: &String,
    onft_id: &String,
    owner: &String,
    queried_owner: &Option<String>,
) -> (r: Result<(), ContractError>)
    ensures
        onft_outcome(r, *collection_id, *onft_id, *owner, *queried_owner),
{
    match queried_owner {
        None => {
            let c = collection_id.clone();
            let o = onft_id.clone();
            let r = Err(ContractError::OnftNotFound { collection_id: c, onft_id: o });
            r
        },
        Some(q) => {
            if !(*q == *owner) {
                Err(ContractError::OnftNotOwned { collection_id: collection_id.clone(), onft_id: onft_id.clone() })
            } else {
                Ok(())
            }
        },
    }
}

/// The checks of an asset's name, description and media link.
pub open spec fn asset_checks(name: String, description: String, media_uri: String) -> Seq<(StringValidationType, Seq<char>)> {
    seq![
        (StringValidationType::AssetName, name@),
        (StringValidationType::Description, description@),
        (StringValidationType::Link, media_uri@),
    ]
}

/// `r` is the outcome of checking an asset's name, description and media link,
/// then, for an ONFT source, that `owner` holds the ONFT, given the holder a query
/// reported.
pub open spec fn asset_source_outcome(
    r: Result<(), ContractError>,
    asset_source: AssetSource,
    owner: String,
    name: String,
    description: String,
    media_uri: String,
    queried_owner: Option<String>,
) -> bool {
    if first_invalid(asset_checks(name, description, media_uri)) is Some {
        checked(r, asset_checks(name, description, media_uri))
    } else {
        match asset_source {
            AssetSource::OffChain { .. } => r is Ok,
            AssetSource::Nft { collection_id, onft_id } => onft_outcome(r, collection_id, onft_id, owner, queried_owner),
        }
    }
}

/// Checks an asset's name, description and media link, then, for an ONFT source,
/// that `owner` holds the ONFT, given the holder a query reported.
pub fn validate_asset_source(
    asset_source: AssetSource,
    owner: String,
    name: String,
    description: String,
    media_uri: String,
    queried_owner: Option<String>,
) -> (r: Result<(), ContractError>)
    ensures
        asset_source_outcome(r, asset_source, owner, name, description, media_uri, queried_owner),
{
    let mut v: Vec<(StringValidationType, String)> = Vec::new();
    v.push((StringValidationType::AssetName, name.clone()));
    v.push((StringValidationType::Description, description.clone()));
    v.push((StringValidationType::Link, media_uri.clone()));
    assert(checks_view(v@) =~= asset_checks(name, description, media_uri));
    let r = validate_strings(v);
    if r.is_err() {
        return r;
    }
    match &asset_source {
        AssetSource::Nft { collection_id, onft_id } => check_onft_owner(collection_id, onft_id, &owner, &queried_owner),
        AssetSource::OffChain { .. } => Ok(()),
    }
}

} // verus!
