use vstd::prelude::*;

use crate::bank::attrs_view;
use crate::contract::{attr, CosmosMsg, CreateDenomMsg, MintOnftMsg, Response};
use crate::keys::{key1, key2, Key};
use crate::random::BlockEnv;
use crate::registry::channels::{name_problem, onft_data_text, ChannelDetails, ChannelOnftData, Channels};
use crate::registry::error::{generic_err, ContractError};
use crate::registry::helpers::{check_onft_owner, drawn_id, generate_random_id_with_prefix, get_collection_creation_fee};
use crate::registry::playlist::{asset_view, assets_view, holds, holds_playlist, Asset, AssetView, PlaylistsManager};
use crate::text::parse_u128;
use crate::types::coin::{coins_view, Coin};

verus! {

/// The settings of the channel registry.
#[derive(Debug, PartialEq, Eq, Clone)]
pub struct ChannelConractConfig {
    pub channels_collection_name: String,
    pub channels_collection_symbol: String,
    pub channels_collection_id: String,
    pub admin: String,
    pub fee_collector: String,
    pub channel_creation_fee: Coin,
}

/// What the registry is set up with.
#[derive(Debug, PartialEq, Eq, Clone)]
pub struct InstantiateMsg {
    pub admin: String,
    pub fee_collector: String,
    pub channels_collection_id: String,
    pub channels_collection_name: String,
    pub channels_collection_symbol: String,
    pub channel_creation_fee: Coin,
}

/// The state of the channel registry.
pub struct RegistryContract {
    pub config: ChannelConractConfig,
    pub channels: Channels,
    pub playlists: PlaylistsManager,
}

/// `funds` are exactly the one coin `fee`.
pub open spec fn pays_exactly(funds: Seq<Coin>, fee: Coin) -> bool {
    coins_view(funds) == seq![(fee.denom@, fee.amount)]
}

/// Whether `funds` are exactly the one coin `fee`.
fn exactly(funds: &Vec<Coin>, fee: &Coin) -> (r: bool)
    ensures
        r == pays_exactly(funds@, *fee),
{
    if funds.len() != 1 {
        proof {
            assert(coins_view(funds@).len() != 1);
        }
        return false;
    }
    let r = funds[0].denom == fee.denom && funds[0].amount == fee.amount;
    proof {
        if r {
            assert(coins_view(funds@) =~= seq![(fee.denom@, fee.amount)]);
        } else {
            assert(coins_view(funds@)[0] != (fee.denom@, fee.amount));
        }
    }
    r
}

/// Sets the registry up: the admin address must be valid (its validation's
/// message otherwise), the fee collector falls back to the admin when its own
/// is not, and `funds` must be exactly the fee for creating the channels
/// collection (as the chain's parameters report it); answers with the creation
/// of that collection.
pub fn instantiate(
    funds: Vec<Coin>,
    msg: InstantiateMsg,
    admin: Result<String, String>,
    fee_collector: Result<String, String>,
    collection_fee: (String, String),
) -> (r: Result<(RegistryContract, Response), ContractError>)
    requires
        parse_u128(collection_fee.1@) is Some,
    ensures
        ({
            let fee = Coin { denom: collection_fee.0, amount: parse_u128(collection_fee.1@)->0 };
            match admin {
                Err(m) => generic_err(r, m@),
                Ok(a) => if !pays_exactly(funds@, fee) {
                    r matches Err(ContractError::PaymentError { expected: x, received: y }) && x@ == seq![fee]
                        && y@ == funds@
                } else {
                    r matches Ok((c, resp)) && {
                        &&& c.wf()
                        &&& c.config == (ChannelConractConfig {
                            channels_collection_name: c.config.channels_collection_name,
                            channels_collection_symbol: c.config.channels_collection_symbol,
                            channels_collection_id: msg.channels_collection_id,
                            admin: a,
                            fee_collector: match fee_collector {
                                Ok(f) => f,
                                Err(_) => a,
                            },
                            channel_creation_fee: msg.channel_creation_fee,
                        })
                        &&& c.config.channels_collection_name@ == "Channels"@
                        &&& c.config.channels_collection_symbol@ == "CH"@
                        &&& c.channels.channel_details.view() == Map::<Seq<Seq<char>>, ChannelDetails>::empty()
                        &&& c.channels.username_to_channel_id.view() == Map::<Seq<Seq<char>>, String>::empty()
                        &&& c.channels.channel_id_to_username.view() == Map::<Seq<Seq<char>>, String>::empty()
                        &&& c.playlists.view() == Map::<Seq<Seq<char>>, crate::registry::playlist::Playlist>::empty()
                        &&& resp.messages@.len() == 1
                        &&& resp.messages@[0] matches CosmosMsg::CreateDenom(d) && {
                            &&& d.id == msg.channels_collection_id
                            &&& d.name == msg.channels_collection_name
                            &&& d.symbol == msg.channels_collection_symbol
                            &&& d.creation_fee == fee
                            &&& d.description@.len() == 0 && d.preview_uri@.len() == 0 && d.schema@.len() == 0
                            &&& d.sender@.len() == 0 && d.uri@.len() == 0 && d.uri_hash@.len() == 0
                            &&& d.data@.len() == 0
                        }
                        &&& attrs_view(resp.attributes@) == seq![("action"@, "instantiate"@)]
                    }
                },
            }
        }),
{
    let admin = match admin {
        Ok(a) => a,
        Err(m) => {
            return Err(ContractError::GenericErr { msg: m });
        },
    };
    let fee_collector = match fee_collector {
        Ok(f) => f,
        Err(_) => admin.clone(),
    };
    let config = ChannelConractConfig {
        admin,
        fee_collector,
        channels_collection_id: msg.channels_collection_id.clone(),
        channels_collection_name: "Channels".to_owned(),
        channels_collection_symbol: "CH".to_owned(),
        channel_creation_fee: msg.channel_creation_fee,
    };
    let fee = get_collection_creation_fee(collection_fee.0, collection_fee.1);
    if !exactly(&funds, &fee) {
        let mut expected: Vec<Coin> = Vec::new();
        expected.push(fee);
        return Err(ContractError::PaymentError { expected, received: funds });
    }
    let denom = CreateDenomMsg {
        id: msg.channels_collection_id,
        name: msg.channels_collection_name,
        symbol: msg.channels_collection_symbol,
        description: String::new(),
        preview_uri: String::new(),
        schema: String::new(),
        sender: String::new(),
        creation_fee: fee,
        uri: String::new(),
        uri_hash: String::new(),
        data: String::new(),
    };
    let mut messages: Vec<CosmosMsg> = Vec::new();
    messages.push(CosmosMsg::CreateDenom(denom));
    let mut attributes: Vec<(String, String)> = Vec::new();
    attributes.push(attr("action", "instantiate"));
    assert(attrs_view(attributes@) =~= seq![("action"@, "instantiate"@)]);
    let c = RegistryContract {
        config,
        channels: Channels::new(),
        playlists: PlaylistsManager::new(),
    };
    Ok((c, Response { messages, attributes }))
}

/// The id a channel registered by `salt` in block `env` gets.
pub open spec fn channel_id_of(salt: Seq<u8>, env: BlockEnv) -> Seq<char> {
    drawn_id(salt, env, "channel"@)
}

/// The id a channel ONFT minted for `salt` in block `env` gets.
pub open spec fn onft_id_of(salt: Seq<u8>, env: BlockEnv) -> Seq<char> {
    drawn_id(salt, env, "onft"@)
}

/// The asset that publishing ONFT `onft_id` of collection `collection_id` with
/// `salt` in block `env` adds.
pub open spec fn published(salt: Seq<u8>, env: BlockEnv, collection_id: Seq<char>, onft_id: Seq<char>) -> AssetView {
    (drawn_id(salt, env, "publish"@), collection_id, onft_id)
}

/// Why adding `a` to playlist `k` of `pl` fails, if it does.
pub open spec fn add_refusal(pl: Map<Seq<Seq<char>>, crate::registry::playlist::Playlist>, k: Seq<Seq<char>>, a: AssetView) -> Option<
    ContractError,
> {
    if !pl.contains_key(k) {
        Some(ContractError::PlaylistNotFound {})
    } else if assets_view(pl[k].assets@).contains(a) {
        Some(ContractError::AssetAlreadyExistsInPlaylist {})
    } else {
        None
    }
}

/// Why publishing `a` into the default playlist of channel `c` and then into
/// `playlist_id`, when given, fails, if it does.
pub open spec fn publish_refusal(
    pl: Map<Seq<Seq<char>>, crate::registry::playlist::Playlist>,
    c: Seq<char>,
    playlist_id: Option<String>,
    a: AssetView,
) -> Option<ContractError> {
    let k0 = key2(c, "My Videos"@);
    match add_refusal(pl, k0, a) {
        Some(e) => Some(e),
        None => match playlist_id {
            None => None,
            Some(p) => if key2(c, p@) == k0 {
                Some(ContractError::AssetAlreadyExistsInPlaylist {})
            } else {
                add_refusal(pl, key2(c, p@), a)
            },
        },
    }
}

/// The outcome of a handler without its response.
pub open spec fn outcome(r: Result<Response, ContractError>) -> Result<(), ContractError> {
    match r {
        Ok(_) => Ok(()),
        Err(e) => Err(e),
    }
}

impl RegistryContract {
    pub open spec fn wf(&self) -> bool {
        &&& self.channels.wf()
        &&& self.playlists.wf()
    }

    /// Registers a channel for `sender` under `user_name`: draws the ONFT and
    /// channel ids from `salt` and the block, checks the username and the
    /// description, records the channel with an empty default playlist, and
    /// answers with the minting of the channel's ONFT to `sender`.
    pub fn register_channel(
        &mut self,
        paused: bool,
        sender: String,
        env: BlockEnv,
        salt: Vec<u8>,
        description: String,
        user_name: String,
    ) -> (r: Result<Response, ContractError>)
        requires
            old(self).wf(),
        ensures
            final(self).wf(),
            r is Err ==> *final(self) == *old(self),
            ({
                let onft = onft_id_of(salt@, env);
                let cid = channel_id_of(salt@, env);
                if paused {
                    r == Err::<Response, ContractError>(ContractError::Paused {})
                } else if name_problem(user_name@, description@) is Some {
                    r == Err::<Response, ContractError>(name_problem(user_name@, description@)->0)
                } else if old(self).channels.add_problem(cid, user_name@) is Some {
                    r == Err::<Response, ContractError>(old(self).channels.add_problem(cid, user_name@)->0)
                } else {
                    r matches Ok(resp) && {
                        let d = final(self).channels.channel_details.view()[key1(cid)];
                        &&& final(self).channels.channel_details.view().dom() == old(
                            self,
                        ).channels.channel_details.view().dom().insert(key1(cid))
                        &&& forall|k: Seq<Seq<char>>| k != key1(cid) ==> #[trigger] final(self).channels.channel_details.view().get(k)
                            == old(self).channels.channel_details.view().get(k)
                        &&& d.channel_id@ == cid && d.user_name == user_name && d.onft_id@ == onft
                            && d.description == description
                        &&& final(self).channels.username_to_channel_id.view().dom() == old(
                            self,
                        ).channels.username_to_channel_id.view().dom().insert(key1(user_name@))
                        &&& final(self).channels.username_to_channel_id.view()[key1(user_name@)]@ == cid
                        &&& final(self).channels.channel_id_to_username.view() == old(
                            self,
                        ).channels.channel_id_to_username.view().insert(key1(cid), user_name)
                        &&& final(self).playlists.view().dom() == old(self).playlists.view().dom().insert(
                            key2(cid, "My Videos"@),
                        )
                        &&& holds_playlist(
                            final(self).playlists.view()[key2(cid, "My Videos"@)],
                            "My Videos"@,
                            Seq::empty(),
                        )
                        &&& final(self).config == old(self).config
                                                &&& resp.messages@.len() == 1
                        &&& resp.messages@[0] matches CosmosMsg::MintOnft(m) && {
                            &&& m.id@ == onft
                            &&& m.denom_id == old(self).config.channels_collection_id
                            &&& m.sender == env.contract_address
                            &&& m.recipient == sender
                            &&& m.data@ == onft_data_text(cid, user_name@)
                            &&& m.media_uri@.len() == 0 && m.name@.len() == 0 && m.description@.len() == 0
                            &&& m.preview_uri@.len() == 0 && m.uri_hash@.len() == 0 && m.royalty_share@.len() == 0
                            &&& !m.nsfw && !m.extensible && !m.transferable
                        }
                        &&& attrs_view(resp.attributes@) == seq![("action"@, "register_channel"@)]
                    }
                }
            }),
    {
        if paused {
            return Err(ContractError::Paused {});
        }
        let onft_id = generate_random_id_with_prefix(&salt, &env, "onft");
        let channel_id = generate_random_id_with_prefix(&salt, &env, "channel");
        let details = ChannelDetails::new(channel_id.clone(), user_name.clone(), onft_id.clone(), description);
        match details.validate_channel_details() {
            Ok(()) => {},
            Err(e) => {
                return Err(e);
            },
        }
        if self.channels.channel_details.contains(&Key::one(channel_id.as_str())) {
            return Err(ContractError::ChannelIdAlreadyExists {});
        }
        if self.channels.username_to_channel_id.contains(&Key::one(user_name.as_str())) {
            return Err(ContractError::UserNameAlreadyTaken {});
        }
        let denom_id = self.config.channels_collection_id.clone();
        match self.channels.add_channel(channel_id.clone(), user_name.clone(), onft_id.clone(), details) {
            Ok(()) => {},
            Err(e) => {
                return Err(e);
            },
        }
        match self.playlists.initialize_playlist_for_new_channel(channel_id.clone()) {
            Ok(()) => {},
            Err(e) => {
                proof {
                    assert(false);
                }
                return Err(e);
            },
        }
        let data = ChannelOnftData { channel_id, user_name }.to_json();
        let mint = MintOnftMsg {
            id: onft_id,
            denom_id,
            sender: env.contract_address,
            recipient: sender,
            data,
            media_uri: String::new(),
            name: String::new(),
            description: String::new(),
            preview_uri: String::new(),
            uri_hash: String::new(),
            nsfw: false,
            extensible: false,
            royalty_share: String::new(),
            transferable: false,
        };
        let mut messages: Vec<CosmosMsg> = Vec::new();
        messages.push(CosmosMsg::MintOnft(mint));
        let mut attributes: Vec<(String, String)> = Vec::new();
        attributes.push(attr("action", "register_channel"));
        assert(attrs_view(attributes@) =~= seq![("action"@, "register_channel"@)]);
        Ok(Response { messages, attributes })
    }

    /// `r` answers checking that `sender` owns channel `c`: the channel must
    /// exist and `sender` must hold the channel's ONFT, whose holder a query
    /// reported.
    pub open spec fn owner_checked(
        &self,
        r: Result<(), ContractError>,
        c: Seq<char>,
        sender: Seq<char>,
        channel_onft_owner: Option<String>,
    ) -> bool {
        if !self.channels.channel_details.view().contains_key(key1(c)) {
            r == Err::<(), ContractError>(ContractError::ChannelIdNotFound {})
        } else {
            match channel_onft_owner {
                None => r == Err::<(), ContractError>(ContractError::OnftNotFound {}),
                Some(q) => if q@ == sender {
                    r is Ok
                } else {
                    r == Err::<(), ContractError>(ContractError::OnftNotOwned {})
                },
            }
        }
    }

    fn check_channel_owner(
        &self,
        channel_id: &String,
        sender: &String,
        channel_onft_owner: &Option<String>,
    ) -> (r: Result<(), ContractError>)
        requires
            self.wf(),
        ensures
            self.owner_checked(r, channel_id@, sender@, *channel_onft_owner),
    {
        match self.channels.get_channel_details(channel_id.clone()) {
            Ok(_) => {},
            Err(e) => {
                return Err(e);
            },
        }
        check_onft_owner(channel_onft_owner, sender)
    }

    /// Publishes ONFT `asset_onft_id` of collection `asset_onft_collection_id`
    /// in channel `channel_id`: `sender` must own the channel and hold the ONFT
    /// (as queries reported); the asset, under an id drawn from `salt` and the
    /// block, goes into the default playlist and then into `playlist_id` when
    /// given.
    pub fn publish(
        &mut self,
        paused: bool,
        sender: String,
        env: BlockEnv,
        asset_onft_collection_id: String,
        asset_onft_id: String,
        salt: Vec<u8>,
        channel_id: String,
        playlist_id: Option<String>,
        channel_onft_owner: Option<String>,
        asset_onft_owner: Option<String>,
    ) -> (r: Result<Response, ContractError>)
        requires
            old(self).wf(),
        ensures
            final(self).wf(),
            r is Err ==> *final(self) == *old(self),
            ({
                let a = published(salt@, env, asset_onft_collection_id@, asset_onft_id@);
                if paused {
                    r == Err::<Response, ContractError>(ContractError::Paused {})
                } else if !old(self).owner_checked(Ok(()), channel_id@, sender@, channel_onft_owner) {
                    old(self).owner_checked(outcome(r), channel_id@, sender@, channel_onft_owner)
                } else if asset_onft_owner is None {
                    r == Err::<Response, ContractError>(ContractError::OnftNotFound {})
                } else if asset_onft_owner->0@ != sender@ {
                    r == Err::<Response, ContractError>(ContractError::OnftNotOwned {})
                } else {
                    match publish_refusal(old(self).playlists.view(), channel_id@, playlist_id, a) {
                        Some(e) => r == Err::<Response, ContractError>(e),
                        None => r matches Ok(resp) && {
                            let k0 = key2(channel_id@, "My Videos"@);
                            let pl = old(self).playlists.view();
                            &&& final(self).playlists.view().dom() == pl.dom()
                            &&& holds_playlist(final(self).playlists.view()[k0], pl[k0].playlist_name@, assets_view(pl[k0].assets@).push(a))
                            &&& playlist_id matches Some(p) ==> holds_playlist(
                                final(self).playlists.view()[key2(channel_id@, p@)],
                                pl[key2(channel_id@, p@)].playlist_name@,
                                assets_view(pl[key2(channel_id@, p@)].assets@).push(a),
                            )
                            &&& forall|k: Seq<Seq<char>>| k != k0 && (playlist_id matches Some(p) ==> k != key2(channel_id@, p@))
                                ==> #[trigger] final(self).playlists.view().get(k) == pl.get(k)
                            &&& final(self).channels == old(self).channels
                            &&& final(self).config == old(self).config
                                                        &&& resp.messages@.len() == 0
                            &&& attrs_view(resp.attributes@) == seq![
                                ("action"@, "publish"@),
                                ("publish_id"@, a.0),
                                ("channel_id"@, channel_id@),
                                ("playlist_id"@, match playlist_id { Some(p) => p@, None => "My Videos"@ }),
                                ("asset_onft_collection_id"@, asset_onft_collection_id@),
                                ("asset_onft_id"@, asset_onft_id@),
                            ]
                        },
                    }
                }
            }),
    {
        if paused {
            return Err(ContractError::Paused {});
        }
        match self.check_channel_owner(&channel_id, &sender, &channel_onft_owner) {
            Ok(()) => {},
            Err(e) => {
                return Err(e);
            },
        }
        match check_onft_owner(&asset_onft_owner, &sender) {
            Ok(()) => {},
            Err(e) => {
                return Err(e);
            },
        }
        let publish_id = generate_random_id_with_prefix(&salt, &env, "publish");
        let asset = Asset {
            publish_id: publish_id.clone(),
            collection_id: asset_onft_collection_id.clone(),
            onft_id: asset_onft_id.clone(),
        };
        let ghost a = asset_view(asset);
        let ghost pl = self.playlists.view();
        let ghost k0v = key2(channel_id@, "My Videos"@);
        let k0 = Key::two(channel_id.as_str(), "My Videos");
        let first = match self.playlists.playlists.get(&k0) {
            Some(p) => holds(&p.assets, &asset),
            None => {
                return Err(ContractError::PlaylistNotFound {});
            },
        };
        if first {
            return Err(ContractError::AssetAlreadyExistsInPlaylist {});
        }
        match &playlist_id {
            None => {},
            Some(p) => {
                if *p == "My Videos".to_owned() {
                    return Err(ContractError::AssetAlreadyExistsInPlaylist {});
                }
                proof {
                    assert(key2(channel_id@, p@)[1] != k0v[1]);
                }
                let k1 = Key::two(channel_id.as_str(), p.as_str());
                let second = match self.playlists.playlists.get(&k1) {
                    Some(q) => holds(&q.assets, &asset),
                    None => {
                        return Err(ContractError::PlaylistNotFound {});
                    },
                };
                if second {
                    return Err(ContractError::AssetAlreadyExistsInPlaylist {});
                }
            },
        }
        assert(publish_refusal(pl, channel_id@, playlist_id, a) is None);
        match self.playlists.add_asset_to_playlist(channel_id.clone(), "My Videos".to_owned(), asset.duplicate()) {
            Ok(()) => {},
            Err(e) => {
                proof {
                    assert(false);
                }
                return Err(e);
            },
        }
        let ghost mid = self.playlists.view();
        let shown = match &playlist_id {
            None => "My Videos".to_owned(),
            Some(p) => {
                proof {
                    assert(key2(channel_id@, p@)[1] != k0v[1]);
                    assert(mid.get(key2(channel_id@, p@)) == pl.get(key2(channel_id@, p@)));
                }
                match self.playlists.add_asset_to_playlist(channel_id.clone(), p.clone(), asset) {
                    Ok(()) => {},
                    Err(e) => {
                        proof {
                            assert(false);
                        }
                        return Err(e);
                    },
                }
                proof {
                    assert(self.playlists.view().get(k0v) == mid.get(k0v));
                }
                p.clone()
            },
        };
        let mut attributes: Vec<(String, String)> = Vec::new();
        attributes.push(attr("action", "publish"));
        attributes.push(("publish_id".to_owned(), publish_id));
        attributes.push(("channel_id".to_owned(), channel_id));
        attributes.push(("playlist_id".to_owned(), shown));
        attributes.push(("asset_onft_collection_id".to_owned(), asset_onft_collection_id));
        attributes.push(("asset_onft_id".to_owned(), asset_onft_id));
        assert(attrs_view(attributes@) =~= seq![
            ("action"@, "publish"@),
            ("publish_id"@, a.0),
            ("channel_id"@, channel_id@),
            ("playlist_id"@, match playlist_id { Some(p) => p@, None => "My Videos"@ }),
            ("asset_onft_collection_id"@, asset_onft_collection_id@),
            ("asset_onft_id"@, asset_onft_id@),
        ]);
        Ok(Response { messages: Vec::new(), attributes })
    }

    /// Adds the empty playlist `playlist_id` to channel `channel_id`, which
    /// `sender` must own (as a query of the channel's ONFT reported).
    pub fn create_playlist(
        &mut self,
        paused: bool,
        sender: String,
        channel_id: String,
        playlist_id: String,
        channel_onft_owner: Option<String>,
    ) -> (r: Result<Response, ContractError>)
        requires
            old(self).wf(),
        ensures
            final(self).wf(),
            r is Err ==> *final(self) == *old(self),
            ({
                let k = key2(channel_id@, playlist_id@);
                if paused {
                    r == Err::<Response, ContractError>(ContractError::Paused {})
                } else if !old(self).owner_checked(Ok(()), channel_id@, sender@, channel_onft_owner) {
                    old(self).owner_checked(outcome(r), channel_id@, sender@, channel_onft_owner)
                } else if old(self).playlists.view().contains_key(k) {
                    r == Err::<Response, ContractError>(ContractError::PlaylistAlreadyExists {})
                } else {
                    r matches Ok(resp) && {
                        &&& final(self).playlists.view().dom() == old(self).playlists.view().dom().insert(k)
                        &&& holds_playlist(final(self).playlists.view()[k], playlist_id@, Seq::empty())
                        &&& forall|k2: Seq<Seq<char>>| k2 != k ==> #[trigger] final(self).playlists.view().get(k2)
                            == old(self).playlists.view().get(k2)
                        &&& final(self).channels == old(self).channels
                        &&& final(self).config == old(self).config
                                                &&& resp.messages@.len() == 0
                        &&& attrs_view(resp.attributes@) == seq![
                            ("action"@, "create_playlist"@),
                            ("channel_id"@, channel_id@),
                            ("playlist_id"@, playlist_id@),
                        ]
                    }
                }
            }),
    {
        if paused {
            return Err(ContractError::Paused {});
        }
        match self.check_channel_owner(&channel_id, &sender, &channel_onft_owner) {
            Ok(()) => {},
            Err(e) => {
                return Err(e);
            },
        }
        match self.playlists.add_new_playlist(channel_id.clone(), playlist_id.clone()) {
            Ok(()) => {},
            Err(e) => {
                return Err(e);
            },
        }
        let mut attributes: Vec<(String, String)> = Vec::new();
        attributes.push(attr("action", "create_playlist"));
        attributes.push(("channel_id".to_owned(), channel_id));
        attributes.push(("playlist_id".to_owned(), playlist_id));
        assert(attrs_view(attributes@) =~= seq![
            ("action"@, "create_playlist"@),
            ("channel_id"@, channel_id@),
            ("playlist_id"@, playlist_id@),
        ]);
        Ok(Response { messages: Vec::new(), attributes })
    }

    /// Replaces the description of channel `channel_id`, which `sender` must own
    /// (as a query of the channel's ONFT reported); the details must still pass
    /// their length checks.
    pub fn set_channel_details(
        &mut self,
        paused: bool,
        sender: String,
        channel_id: String,
        description: String,
        channel_onft_owner: Option<String>,
    ) -> (r: Result<Response, ContractError>)
        requires
            old(self).wf(),
        ensures
            final(self).wf(),
            r is Err ==> *final(self) == *old(self),
            ({
                let k = key1(channel_id@);
                let d = old(self).channels.channel_details.view()[k];
                if paused {
                    r == Err::<Response, ContractError>(ContractError::Paused {})
                } else if !old(self).owner_checked(Ok(()), channel_id@, sender@, channel_onft_owner) {
                    old(self).owner_checked(outcome(r), channel_id@, sender@, channel_onft_owner)
                } else if name_problem(d.user_name@, description@) is Some {
                    r == Err::<Response, ContractError>(name_problem(d.user_name@, description@)->0)
                } else {
                    r matches Ok(resp) && {
                        &&& final(self).channels.channel_details.view() == old(
                            self,
                        ).channels.channel_details.view().insert(
                            k,
                            ChannelDetails {
                                channel_id: d.channel_id,
                                user_name: d.user_name,
                                onft_id: d.onft_id,
                                description,
                            },
                        )
                        &&& final(self).channels.username_to_channel_id == old(self).channels.username_to_channel_id
                        &&& final(self).channels.channel_id_to_username == old(self).channels.channel_id_to_username
                        &&& final(self).playlists == old(self).playlists
                        &&& final(self).config == old(self).config
                                                &&& resp.messages@.len() == 0
                        &&& attrs_view(resp.attributes@) == seq![
                            ("action"@, "set_channel_details"@),
                            ("channel_id"@, channel_id@),
                            ("description"@, description@),
                        ]
                    }
                }
            }),
    {
        if paused {
            return Err(ContractError::Paused {});
        }
        match self.check_channel_owner(&channel_id, &sender, &channel_onft_owner) {
            Ok(()) => {},
            Err(e) => {
                return Err(e);
            },
        }
        let mut details = match self.channels.get_channel_details(channel_id.clone()) {
            Ok(d) => d,
            Err(e) => {
                return Err(e);
            },
        };
        details.description = description.clone();
        match details.validate_channel_details() {
            Ok(()) => {},
            Err(e) => {
                return Err(e);
            },
        }
        match self.channels.set_channel_details(channel_id.clone(), details) {
            Ok(()) => {},
            Err(e) => {
                proof {
                    assert(false);
                }
                return Err(e);
            },
        }
        let mut attributes: Vec<(String, String)> = Vec::new();
        attributes.push(attr("action", "set_channel_details"));
        attributes.push(("channel_id".to_owned(), channel_id));
        attributes.push(("description".to_owned(), description));
        assert(attrs_view(attributes@) =~= seq![
            ("action"@, "set_channel_details"@),
            ("channel_id"@, channel_id@),
            ("description"@, description@),
        ]);
        Ok(Response { messages: Vec::new(), attributes })
    }

    /// The details of channel `channel_id`.
    pub fn query_channel_details(&self, channel_id: String) -> (r: Result<ChannelDetails, ContractError>)
        requires
            self.wf(),
        ensures
            r is Ok <==> self.channels.channel_details.view().contains_key(key1(channel_id@)),
            r is Err ==> r == Err::<ChannelDetails, ContractError>(ContractError::ChannelIdNotFound {}),
            r matches Ok(d) ==> d == self.channels.channel_details.view()[key1(channel_id@)],
    {
        self.channels.get_channel_details(channel_id)
    }
}

} // verus!
