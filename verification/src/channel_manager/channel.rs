use vstd::prelude::*;

use crate::channel_manager::error::ChannelError;
use crate::keys::{key1, key2, lemma_key1_injective, Key};
use crate::asset_manager::assets::lemma_selected_len;
use crate::asset_manager::playlists::{channel_filter, opt_view};
use crate::map::{
    filter_pred, first_n, in_channel_after, lemma_tally_bounds, lemma_tally_insert, lemma_tally_remove,
    member_weight, selected, tally, KeyFilter, OrderedMap,
};
use crate::text::chars_of;
use crate::types::channel::role_name;
use crate::types::msg::CollaboratorInfo;
use crate::order::key_lt;
use crate::types::channel::{copy_opt_string, ChannelCollaborator, ChannelDetails, ChannelMetadata};
use crate::types::coin::{Decimal, DECIMAL_FRACTIONAL};
use crate::types::msg::ReservedUsername;

verus! {

/// The most collaborators a channel can have.
pub const TOTAL_UNIQUE_COLLABORATOR_LIMIT: u32 = 10;

/// The number of entries a listing returns when it names no limit.
pub const DEFAULT_LIMIT: u32 = 25;

/// The most reserved usernames one listing returns.
pub const RESERVED_USERNAMES_LIMIT: u32 = 25;

/// A collaborator entry: the collaborator's address and its role and share.
pub type Collaborator = (String, ChannelCollaborator);

/// The share of tips that the collaborator entry `(k, v)` gives to channel `c`.
pub open spec fn share_weight(c: Seq<char>) -> spec_fn(Seq<Seq<char>>, Collaborator) -> int {
    |k: Seq<Seq<char>>, v: Collaborator| if k.len() > 1 && k[0] == c { v.1.share.atomics as int } else { 0int }
}

/// Keys after `start`, when given; every key otherwise.
pub open spec fn after_opt(start: Option<Seq<char>>) -> spec_fn(Seq<Seq<char>>) -> bool {
    |k: Seq<Seq<char>>| match start {
        Some(s) => key_lt(key1(s), k),
        None => true,
    }
}

/// The characters of an optional string.
pub open spec fn opt_chars(o: Option<String>) -> Option<Seq<char>> {
    match o {
        Some(s) => Some(s@),
        None => None,
    }
}

/// The filter for keys after `start_after`, when given.
pub fn after_filter(start_after: &Option<String>) -> (r: KeyFilter)
    ensures
        filter_pred(r) == after_opt(opt_chars(*start_after)),
{
    let r = match start_after {
        Some(s) => KeyFilter::After(Key::one(s.as_str())),
        None => KeyFilter::All,
    };
    assert(filter_pred(r) =~= after_opt(opt_chars(*start_after)));
    r
}

/// The reservations after recording each of `us` in turn.
pub open spec fn reserve_all(
    m: Map<Seq<Seq<char>>, ReservedUsername>,
    us: Seq<ReservedUsername>,
) -> Map<Seq<Seq<char>>, ReservedUsername>
    decreases us.len(),
{
    if us.len() == 0 {
        m
    } else {
        reserve_all(m, us.drop_last()).insert(key1(us.last().username@), us.last())
    }
}

/// Lifts the reservations of `names` in turn: the reservations after, and whether
/// every name was reserved when its turn came (the lifting stops at the first that
/// was not).
pub open spec fn unreserve_all(
    m: Map<Seq<Seq<char>>, ReservedUsername>,
    names: Seq<Seq<char>>,
) -> (Map<Seq<Seq<char>>, ReservedUsername>, bool)
    decreases names.len(),
{
    if names.len() == 0 {
        (m, true)
    } else if !m.contains_key(key1(names[0])) {
        (m, false)
    } else {
        unreserve_all(m.remove(key1(names[0])), names.drop_first())
    }
}

/// The characters of each of a list of strings.
pub open spec fn strings_view(v: Seq<String>) -> Seq<Seq<char>> {
    v.map_values(|s: String| s@)
}

/// Channels, their names, reservations of usernames, collaborators and
/// followers.
pub struct ChannelsManager {
    /// Channel identity, by channel id.
    pub channel_details: OrderedMap<ChannelDetails>,
    /// Channel presentation, by channel id.
    pub channel_metadata: OrderedMap<ChannelMetadata>,
    /// Channel id, by username.
    pub username_to_channel_id: OrderedMap<String>,
    /// Username, by channel id.
    pub channel_id_to_username: OrderedMap<String>,
    /// Reservations, by username.
    pub reserved_usernames: OrderedMap<ReservedUsername>,
    /// Collaborators, by channel id and address.
    pub channel_collaborators: OrderedMap<Collaborator>,
    /// The sum of the collaborators' shares, by channel id.
    pub total_collaborator_shares: OrderedMap<Decimal>,
    /// Followers' addresses, by channel id and address.
    pub followers: OrderedMap<String>,
}

impl ChannelsManager {
    /// Every map keeps its entries in key order.
    pub open spec fn maps_wf(&self) -> bool {
        &&& self.channel_details.wf()
        &&& self.channel_metadata.wf()
        &&& self.username_to_channel_id.wf()
        &&& self.channel_id_to_username.wf()
        &&& self.reserved_usernames.wf()
        &&& self.channel_collaborators.wf()
        &&& self.total_collaborator_shares.wf()
        &&& self.followers.wf()
    }

    /// The sum of the shares of the collaborators of channel `c`, in atomics.
    pub open spec fn share_sum(&self, c: Seq<char>) -> int {
        tally(self.channel_collaborators.key_seq(), self.channel_collaborators.val_seq(), share_weight(c))
    }

    /// The number of collaborators of channel `c`.
    pub open spec fn collaborator_count(&self, c: Seq<char>) -> int {
        tally(
            self.channel_collaborators.key_seq(),
            self.channel_collaborators.val_seq(),
            member_weight::<Collaborator>(c),
        )
    }

    /// The recorded total share of channel `c`, in atomics; zero when none is
    /// recorded.
    pub open spec fn total_of(&self, c: Seq<char>) -> int {
        if self.total_collaborator_shares.view().contains_key(key1(c)) {
            self.total_collaborator_shares.view()[key1(c)].atomics as int
        } else {
            0
        }
    }

    /// The number of followers of channel `c`.
    pub open spec fn follower_count(&self, c: Seq<char>) -> int {
        tally(self.followers.key_seq(), self.followers.val_seq(), member_weight::<String>(c))
    }

    /// For every channel, the recorded total share is the sum of its
    /// collaborators' shares and at most one, and it has at most ten
    /// collaborators.
    pub open spec fn shares_ok(&self) -> bool {
        forall|c: Seq<char>|
            #![trigger self.share_sum(c)]
            #![trigger self.total_of(c)]
            #![trigger self.collaborator_count(c)]
            self.total_of(c) == self.share_sum(c) && self.share_sum(c) <= DECIMAL_FRACTIONAL
                && self.collaborator_count(c) <= TOTAL_UNIQUE_COLLABORATOR_LIMIT
    }

    /// Collaborator and follower entries carry the address of their key, and
    /// reservations the username of theirs.
    pub open spec fn entries_named(&self) -> bool {
        &&& forall|k: Seq<Seq<char>>|
            #[trigger] self.channel_collaborators.view().contains_key(k) ==> k.len() == 2
                && self.channel_collaborators.view()[k].0@ == k[1]
        &&& forall|k: Seq<Seq<char>>|
            #[trigger] self.followers.view().contains_key(k) ==> k.len() == 2 && self.followers.view()[k]@ == k[1]
        &&& forall|k: Seq<Seq<char>>|
            #[trigger] self.reserved_usernames.view().contains_key(k) ==> k.len() == 1
                && self.reserved_usernames.view()[k].username@ == k[0]
    }

    /// Every registered channel has exactly one username and every username
    /// belongs to exactly one registered channel: the two name maps are inverse
    /// to each other over the registered channels.
    pub open spec fn names_consistent(&self) -> bool {
        let ids = self.channel_id_to_username.view();
        let names = self.username_to_channel_id.view();
        &&& forall|c: Seq<char>|
            #[trigger] self.channel_details.view().contains_key(key1(c)) <==> ids.contains_key(key1(c))
        &&& forall|c: Seq<char>|
            #[trigger] ids.contains_key(key1(c)) ==> names.contains_key(key1(ids[key1(c)]@)) && names[key1(
                ids[key1(c)]@,
            )]@ == c
        &&& forall|u: Seq<char>|
            #[trigger] names.contains_key(key1(u)) ==> ids.contains_key(key1(names[key1(u)]@)) && ids[key1(
                names[key1(u)]@,
            )]@ == u
        &&& forall|k: Seq<Seq<char>>| #[trigger] ids.contains_key(k) ==> k.len() == 1
        &&& forall|k: Seq<Seq<char>>| #[trigger] names.contains_key(k) ==> k.len() == 1
        &&& forall|k: Seq<Seq<char>>| #[trigger] self.channel_details.view().contains_key(k) ==> k.len() == 1
    }

    pub open spec fn wf(&self) -> bool {
        &&& self.maps_wf()
        &&& self.shares_ok()
        &&& self.entries_named()
        &&& self.names_consistent()
    }

    /// The channel maps of `self` and `o` agree.
    pub open spec fn same_channels(&self, o: &Self) -> bool {
        &&& self.channel_details == o.channel_details
        &&& self.channel_metadata == o.channel_metadata
        &&& self.username_to_channel_id == o.username_to_channel_id
        &&& self.channel_id_to_username == o.channel_id_to_username
    }

    /// The collaborators, shares and followers of `self` and `o` agree.
    pub open spec fn same_people(&self, o: &Self) -> bool {
        &&& self.channel_collaborators == o.channel_collaborators
        &&& self.total_collaborator_shares == o.total_collaborator_shares
        &&& self.followers == o.followers
    }

    /// Shares and collaborators stay consistent while the collaborators, shares and
    /// followers stay as they were.
    proof fn lemma_people_frame(a: &Self, b: &Self)
        requires
            a.shares_ok(),
            a.entries_named(),
            b.same_people(a),
        ensures
            b.shares_ok(),
            forall|k: Seq<Seq<char>>|
                #[trigger] b.channel_collaborators.view().contains_key(k) ==> k.len() == 2
                    && b.channel_collaborators.view()[k].0@ == k[1],
            forall|k: Seq<Seq<char>>|
                #[trigger] b.followers.view().contains_key(k) ==> k.len() == 2 && b.followers.view()[k]@ == k[1],
    {
        assert forall|c: Seq<char>|
            #![trigger b.share_sum(c)]
            #![trigger b.total_of(c)]
            #![trigger b.collaborator_count(c)]
            b.total_of(c) == b.share_sum(c) && b.share_sum(c) <= DECIMAL_FRACTIONAL
                && b.collaborator_count(c) <= TOTAL_UNIQUE_COLLABORATOR_LIMIT by {
            assert(a.share_sum(c) == b.share_sum(c));
            assert(a.total_of(c) == b.total_of(c));
            assert(a.collaborator_count(c) == b.collaborator_count(c));
        }
    }

    /// No channels, reservations, collaborators or followers.
    pub fn new() -> (r: Self)
        ensures
            r.wf(),
            r.channel_details.view() == Map::<Seq<Seq<char>>, ChannelDetails>::empty(),
            r.reserved_usernames.view() == Map::<Seq<Seq<char>>, ReservedUsername>::empty(),
            r.channel_collaborators.view() == Map::<Seq<Seq<char>>, Collaborator>::empty(),
            r.followers.view() == Map::<Seq<Seq<char>>, String>::empty(),
            r.channel_metadata.view() == Map::<Seq<Seq<char>>, ChannelMetadata>::empty(),
            r.username_to_channel_id.view() == Map::<Seq<Seq<char>>, String>::empty(),
            r.channel_id_to_username.view() == Map::<Seq<Seq<char>>, String>::empty(),
            r.total_collaborator_shares.view() == Map::<Seq<Seq<char>>, Decimal>::empty(),
    {
        let r = ChannelsManager {
            channel_details: OrderedMap::new(),
            channel_metadata: OrderedMap::new(),
            username_to_channel_id: OrderedMap::new(),
            channel_id_to_username: OrderedMap::new(),
            reserved_usernames: OrderedMap::new(),
            channel_collaborators: OrderedMap::new(),
            total_collaborator_shares: OrderedMap::new(),
            followers: OrderedMap::new(),
        };
        assert forall|c: Seq<char>| #[trigger] r.share_sum(c) == 0 && r.collaborator_count(c) == 0 by {}
        r
    }

    /// Reserves each of `usernames` in turn; a later reservation of a name
    /// replaces an earlier one.
    pub fn add_reserved_usernames(&mut self, usernames: Vec<ReservedUsername>) -> (r: Result<(), ChannelError>)
        requires
            old(self).wf(),
        ensures
            final(self).wf(),
            r is Ok,
            final(self).reserved_usernames.view() == reserve_all(old(self).reserved_usernames.view(), usernames@),
            final(self).same_channels(old(self)),
            final(self).same_people(old(self)),
    {
        let ghost start = self.reserved_usernames.view();
        let mut i: usize = 0;
        assert(usernames@.take(0) =~= Seq::<ReservedUsername>::empty());
        while i < usernames.len()
            invariant
                self.wf(),
                i <= usernames@.len(),
                self.reserved_usernames.view() == reserve_all(start, usernames@.take(i as int)),
                self.same_channels(old(self)),
                self.same_people(old(self)),
                start == old(self).reserved_usernames.view(),
            decreases usernames@.len() - i,
        {
            let u = usernames[i].duplicate();
            let key = Key::one(u.username.as_str());
            let ghost before = self.reserved_usernames.view();
            let ghost prev = *self;
            self.reserved_usernames.insert(key, u);
            proof {
                Self::lemma_people_frame(&prev, self);
                assert(usernames@.take(i + 1).drop_last() =~= usernames@.take(i as int));
                assert(usernames@.take(i + 1).last() == usernames@[i as int]);
                assert forall|k: Seq<Seq<char>>| #[trigger] self.reserved_usernames.view().contains_key(k) implies k.len()
                    == 1 && self.reserved_usernames.view()[k].username@ == k[0] by {
                    if k != key1(usernames@[i as int].username@) {
                        assert(before.contains_key(k));
                    }
                }
            }
            i = i + 1;
        }
        assert(usernames@.take(i as int) =~= usernames@);
        Ok(())
    }

    /// Lifts the reservation of each of `usernames` in turn, stopping with an
    /// error at the first that is not reserved.
    pub fn remove_reserved_usernames(&mut self, usernames: Vec<String>) -> (r: Result<(), ChannelError>)
        requires
            old(self).wf(),
        ensures
            final(self).wf(),
            ({
                let outcome = unreserve_all(old(self).reserved_usernames.view(), strings_view(usernames@));
                &&& r is Ok <==> outcome.1
                &&& r matches Err(e) ==> e == (ChannelError::UsernameNotReserved {})
                &&& final(self).reserved_usernames.view() == outcome.0
            }),
            final(self).same_channels(old(self)),
            final(self).same_people(old(self)),
    {
        let ghost all = strings_view(usernames@);
        let mut i: usize = 0;
        assert(all.skip(0) =~= all);
        while i < usernames.len()
            invariant
                self.wf(),
                i <= usernames@.len(),
                all == strings_view(usernames@),
                unreserve_all(old(self).reserved_usernames.view(), all) == unreserve_all(
                    self.reserved_usernames.view(),
                    all.skip(i as int),
                ),
                self.same_channels(old(self)),
                self.same_people(old(self)),
            decreases usernames@.len() - i,
        {
            let key = Key::one(usernames[i].as_str());
            assert(all.skip(i as int)[0] == usernames@[i as int]@);
            assert(all.skip(i as int).drop_first() =~= all.skip(i + 1));
            if !self.reserved_usernames.contains(&key) {
                return Err(ChannelError::UsernameNotReserved {});
            }
            let ghost before = self.reserved_usernames.view();
            let ghost prev = *self;
            self.reserved_usernames.remove(&key);
            proof {
                Self::lemma_people_frame(&prev, self);
                assert forall|k: Seq<Seq<char>>| #[trigger] self.reserved_usernames.view().contains_key(k) implies k.len()
                    == 1 && self.reserved_usernames.view()[k].username@ == k[0] by {
                    assert(before.contains_key(k));
                }
            }
            i = i + 1;
        }
        assert(all.skip(i as int) =~= Seq::<Seq<char>>::empty());
        Ok(())
    }

    /// Up to `limit` (at most and by default 25) reservations, in username order,
    /// after `start_after` when given.
    pub fn get_reserved_usernames(&self, start_after: Option<String>, limit: Option<u32>) -> (r: Vec<ReservedUsername>)
        requires
            self.wf(),
        ensures
            ({
                let n = match limit {
                    Some(l) => if l < RESERVED_USERNAMES_LIMIT { l as int } else { RESERVED_USERNAMES_LIMIT as int },
                    None => RESERVED_USERNAMES_LIMIT as int,
                };
                let idx = first_n(
                    selected(
                        self.reserved_usernames.key_seq(),
                        after_opt(opt_chars(start_after)),
                        self.reserved_usernames.key_seq().len() as int,
                    ),
                    n,
                );
                &&& r@.len() == idx.len()
                &&& forall|j: int| 0 <= j < idx.len() ==> #[trigger] r@[j] == self.reserved_usernames.val_seq()[idx[j]]
            }),
    {
        let n: u32 = match limit {
            Some(l) => if l < RESERVED_USERNAMES_LIMIT { l } else { RESERVED_USERNAMES_LIMIT },
            None => RESERVED_USERNAMES_LIMIT,
        };
        let filter = after_filter(&start_after);
        let idx = self.reserved_usernames.select(&filter, n as usize);
        let ghost sel = idx@.map_values(|x: usize| x as int);
        let mut out: Vec<ReservedUsername> = Vec::new();
        let mut j: usize = 0;
        while j < idx.len()
            invariant
                self.wf(),
                j <= idx@.len(),
                out@.len() == j,
                sel == idx@.map_values(|x: usize| x as int),
                forall|t: int| 0 <= t < idx@.len() ==> #[trigger] idx@[t] < self.reserved_usernames.key_seq().len(),
                forall|t: int| 0 <= t < j ==> #[trigger] out@[t] == self.reserved_usernames.val_seq()[sel[t]],
            decreases idx@.len() - j,
        {
            out.push(self.reserved_usernames.value_at(idx[j]).duplicate());
            j = j + 1;
        }
        out
    }

    /// Whether `username` is reserved and, when it is, for which address, if any.
    pub fn get_reserved_status(&self, username: String) -> (r: Option<Option<String>>)
        requires
            self.wf(),
        ensures
            r is Some <==> self.reserved_usernames.view().contains_key(key1(username@)),
            r matches Some(a) ==> a == self.reserved_usernames.view()[key1(username@)].address,
    {
        let key = Key::one(username.as_str());
        match self.reserved_usernames.get(&key) {
            Some(u) => Some(copy_opt_string(&u.address)),
            None => None,
        }
    }

    /// Registers channel `channel_id` with its identity and presentation, unless
    /// the id is taken or its username is.
    pub fn add_channel(
        &mut self,
        channel_id: String,
        channel_details: ChannelDetails,
        channel_metadata: ChannelMetadata,
    ) -> (r: Result<(), ChannelError>)
        requires
            old(self).wf(),
        ensures
            final(self).wf(),
            ({
                let id = key1(channel_id@);
                let name = key1(channel_details.user_name@);
                &&& old(self).channel_details.view().contains_key(id) ==> r == Err::<(), ChannelError>(
                    ChannelError::ChannelIdAlreadyExists {},
                )
                &&& !old(self).channel_details.view().contains_key(id) && old(self).username_to_channel_id.view().contains_key(
                    name,
                ) ==> r == Err::<(), ChannelError>(ChannelError::UserNameAlreadyTaken {})
                &&& r is Ok <==> !old(self).channel_details.view().contains_key(id)
                    && !old(self).username_to_channel_id.view().contains_key(name)
                &&& r is Err ==> *final(self) == *old(self)
                &&& r is Ok ==> {
                    &&& final(self).channel_details.view() == old(self).channel_details.view().insert(id, channel_details)
                    &&& final(self).channel_metadata.view() == old(self).channel_metadata.view().insert(id, channel_metadata)
                    &&& final(self).username_to_channel_id.view() == old(self).username_to_channel_id.view().insert(
                        name,
                        channel_id,
                    )
                    &&& final(self).channel_id_to_username.view() == old(self).channel_id_to_username.view().insert(
                        id,
                        channel_details.user_name,
                    )
                    &&& final(self).reserved_usernames == old(self).reserved_usernames
                    &&& final(self).same_people(old(self))
                }
            }),
    {
        let id = Key::one(channel_id.as_str());
        if self.channel_details.contains(&id) {
            return Err(ChannelError::ChannelIdAlreadyExists {});
        }
        let name = Key::one(channel_details.user_name.as_str());
        if self.username_to_channel_id.contains(&name) {
            return Err(ChannelError::UserNameAlreadyTaken {});
        }
        let ghost prev = *self;
        let ghost user_name_v = channel_details.user_name@;
        let user_name = channel_details.user_name.clone();
        self.channel_details.insert(Key::one(channel_id.as_str()), channel_details);
        self.username_to_channel_id.insert(name, channel_id.clone());
        self.channel_id_to_username.insert(Key::one(channel_id.as_str()), user_name);
        self.channel_metadata.insert(id, channel_metadata);
        proof {
            Self::lemma_people_frame(&prev, self);
            let cid = channel_id@;
            let un = user_name_v;
            let ids0 = prev.channel_id_to_username.view();
            let names0 = prev.username_to_channel_id.view();
            let ids = self.channel_id_to_username.view();
            let names = self.username_to_channel_id.view();
            assert forall|c: Seq<char>|
                #[trigger] self.channel_details.view().contains_key(key1(c)) <==> ids.contains_key(key1(c)) by {
                lemma_key1_injective(c, cid);
                assert(prev.channel_details.view().contains_key(key1(c)) <==> ids0.contains_key(key1(c)));
            }
            assert forall|c: Seq<char>| #[trigger] ids.contains_key(key1(c)) implies names.contains_key(
                key1(ids[key1(c)]@),
            ) && names[key1(ids[key1(c)]@)]@ == c by {
                lemma_key1_injective(c, cid);
                if c != cid {
                    assert(ids0.contains_key(key1(c)));
                    let u0 = ids0[key1(c)]@;
                    assert(names0.contains_key(key1(u0)));
                    lemma_key1_injective(u0, un);
                }
            }
            assert forall|u: Seq<char>| #[trigger] names.contains_key(key1(u)) implies ids.contains_key(
                key1(names[key1(u)]@),
            ) && ids[key1(names[key1(u)]@)]@ == u by {
                lemma_key1_injective(u, un);
                if u != un {
                    assert(names0.contains_key(key1(u)));
                    let c0 = names0[key1(u)]@;
                    assert(ids0.contains_key(key1(c0)));
                    lemma_key1_injective(c0, cid);
                    assert(prev.channel_details.view().contains_key(key1(c0)));
                }
            }
            assert forall|k: Seq<Seq<char>>| #[trigger] ids.contains_key(k) implies k.len() == 1 by {
                if k != key1(cid) {
                    assert(ids0.contains_key(k));
                }
            }
            assert forall|k: Seq<Seq<char>>| #[trigger] names.contains_key(k) implies k.len() == 1 by {
                if k != key1(un) {
                    assert(names0.contains_key(k));
                }
            }
            assert forall|k: Seq<Seq<char>>| #[trigger] self.channel_details.view().contains_key(k) implies k.len()
                == 1 by {
                if k != key1(cid) {
                    assert(prev.channel_details.view().contains_key(k));
                }
            }
        }
        Ok(())
    }

    /// Removes channel `channel_id` and both directions of its username mapping.
    /// Its presentation, collaborators and followers stay.
    pub fn delete_channel(&mut self, channel_id: String) -> (r: Result<(), ChannelError>)
        requires
            old(self).wf(),
        ensures
            final(self).wf(),
            ({
                let id = key1(channel_id@);
                &&& !old(self).channel_details.view().contains_key(id) ==> r == Err::<(), ChannelError>(
                    ChannelError::ChannelIdNotFound {},
                )
                &&& old(self).channel_details.view().contains_key(id) && !old(self).channel_id_to_username.view().contains_key(
                    id,
                ) ==> r == Err::<(), ChannelError>(ChannelError::UserNameNotFound {})
                &&& r is Ok <==> old(self).channel_details.view().contains_key(id)
                    && old(self).channel_id_to_username.view().contains_key(id)
                &&& r is Err ==> *final(self) == *old(self)
                &&& r is Ok ==> {
                    let name = key1(old(self).channel_id_to_username.view()[id]@);
                    &&& final(self).channel_details.view() == old(self).channel_details.view().remove(id)
                    &&& final(self).username_to_channel_id.view() == old(self).username_to_channel_id.view().remove(name)
                    &&& final(self).channel_id_to_username.view() == old(self).channel_id_to_username.view().remove(id)
                    &&& final(self).channel_metadata == old(self).channel_metadata
                    &&& final(self).reserved_usernames == old(self).reserved_usernames
                    &&& final(self).same_people(old(self))
                }
            }),
    {
        let id = Key::one(channel_id.as_str());
        if !self.channel_details.contains(&id) {
            return Err(ChannelError::ChannelIdNotFound {});
        }
        let user_name = match self.channel_id_to_username.get(&id) {
            Some(u) => u.clone(),
            None => {
                return Err(ChannelError::UserNameNotFound {});
            },
        };
        let ghost prev = *self;
        self.channel_details.remove(&id);
        self.username_to_channel_id.remove(&Key::one(user_name.as_str()));
        self.channel_id_to_username.remove(&id);
        proof {
            Self::lemma_people_frame(&prev, self);
        }
        Ok(())
    }

    /// Up to `limit` (25 when not given) channels, in channel id order, after
    /// `start_after` when given.
    pub fn get_channels_list(&self, start_after: Option<String>, limit: Option<u32>) -> (r: Vec<ChannelDetails>)
        requires
            self.wf(),
        ensures
            ({
                let n = match limit {
                    Some(l) => l as int,
                    None => DEFAULT_LIMIT as int,
                };
                let idx = first_n(
                    selected(
                        self.channel_details.key_seq(),
                        after_opt(opt_chars(start_after)),
                        self.channel_details.key_seq().len() as int,
                    ),
                    n,
                );
                &&& r@.len() == idx.len()
                &&& forall|j: int| 0 <= j < idx.len() ==> #[trigger] r@[j] == self.channel_details.val_seq()[idx[j]]
            }),
    {
        let n: u32 = match limit {
            Some(l) => l,
            None => DEFAULT_LIMIT,
        };
        let filter = after_filter(&start_after);
        let idx = self.channel_details.select(&filter, n as usize);
        let ghost sel = idx@.map_values(|x: usize| x as int);
        let mut out: Vec<ChannelDetails> = Vec::new();
        let mut j: usize = 0;
        while j < idx.len()
            invariant
                self.wf(),
                j <= idx@.len(),
                out@.len() == j,
                sel == idx@.map_values(|x: usize| x as int),
                forall|t: int| 0 <= t < idx@.len() ==> #[trigger] idx@[t] < self.channel_details.key_seq().len(),
                forall|t: int| 0 <= t < j ==> #[trigger] out@[t] == self.channel_details.val_seq()[sel[t]],
            decreases idx@.len() - j,
        {
            out.push(self.channel_details.value_at(idx[j]).duplicate());
            j = j + 1;
        }
        out
    }

    /// The identity of channel `channel_id`.
    pub fn get_channel_details(&self, channel_id: String) -> (r: Result<ChannelDetails, ChannelError>)
        requires
            self.wf(),
        ensures
            r is Err <==> !self.channel_details.view().contains_key(key1(channel_id@)),
            r matches Err(e) ==> e == (ChannelError::ChannelIdNotFound {}),
            r matches Ok(d) ==> d == self.channel_details.view()[key1(channel_id@)],
    {
        match self.channel_details.get(&Key::one(channel_id.as_str())) {
            Some(d) => Ok(d.duplicate()),
            None => Err(ChannelError::ChannelIdNotFound {}),
        }
    }

    /// Sets where tips to channel `channel_id` go.
    pub fn update_payment_address(&mut self, channel_id: String, payment_address: String) -> (r: Result<(), ChannelError>)
        requires
            old(self).wf(),
        ensures
            final(self).wf(),
            ({
                let id = key1(channel_id@);
                let d = old(self).channel_details.view()[id];
                &&& r is Err <==> !old(self).channel_details.view().contains_key(id)
                &&& r matches Err(e) ==> e == (ChannelError::ChannelIdNotFound {}) && *final(self) == *old(self)
                &&& r is Ok ==> final(self).channel_details.view() == old(self).channel_details.view().insert(
                    id,
                    ChannelDetails { payment_address, ..d },
                )
            }),
            final(self).channel_metadata == old(self).channel_metadata,
            final(self).username_to_channel_id == old(self).username_to_channel_id,
            final(self).channel_id_to_username == old(self).channel_id_to_username,
            final(self).reserved_usernames == old(self).reserved_usernames,
            final(self).same_people(old(self)),
    {
        let mut details = self.get_channel_details(channel_id.clone())?;
        details.payment_address = payment_address;
        let ghost prev = *self;
        self.channel_details.insert(Key::one(channel_id.as_str()), details);
        proof {
            Self::lemma_people_frame(&prev, self);
        }
        Ok(())
    }

    /// The presentation of channel `channel_id`.
    pub fn get_channel_metadata(&self, channel_id: String) -> (r: Result<ChannelMetadata, ChannelError>)
        requires
            self.wf(),
        ensures
            r is Err <==> !self.channel_metadata.view().contains_key(key1(channel_id@)),
            r matches Err(e) ==> e == (ChannelError::ChannelIdNotFound {}),
            r matches Ok(m) ==> m == self.channel_metadata.view()[key1(channel_id@)],
    {
        match self.channel_metadata.get(&Key::one(channel_id.as_str())) {
            Some(m) => Ok(m.duplicate()),
            None => Err(ChannelError::ChannelIdNotFound {}),
        }
    }

    /// Replaces the presentation of channel `channel_id`, which must have one.
    pub fn update_channel_metadata(
        &mut self,
        channel_id: String,
        channel_metadata: ChannelMetadata,
    ) -> (r: Result<(), ChannelError>)
        requires
            old(self).wf(),
        ensures
            final(self).wf(),
            r is Err <==> !old(self).channel_metadata.view().contains_key(key1(channel_id@)),
            r matches Err(e) ==> e == (ChannelError::ChannelIdNotFound {}) && *final(self) == *old(self),
            r is Ok ==> final(self).channel_metadata.view() == old(self).channel_metadata.view().insert(
                key1(channel_id@),
                channel_metadata,
            ),
            final(self).channel_details == old(self).channel_details,
            final(self).username_to_channel_id == old(self).username_to_channel_id,
            final(self).channel_id_to_username == old(self).channel_id_to_username,
            final(self).reserved_usernames == old(self).reserved_usernames,
            final(self).same_people(old(self)),
    {
        let id = Key::one(channel_id.as_str());
        if !self.channel_metadata.contains(&id) {
            return Err(ChannelError::ChannelIdNotFound {});
        }
        let ghost prev = *self;
        self.channel_metadata.insert(id, channel_metadata);
        proof {
            Self::lemma_people_frame(&prev, self);
        }
        Ok(())
    }

    /// The id of the channel with username `user_name`.
    pub fn get_channel_id(&self, user_name: String) -> (r: Result<String, ChannelError>)
        requires
            self.wf(),
        ensures
            r is Err <==> !self.username_to_channel_id.view().contains_key(key1(user_name@)),
            r matches Err(e) ==> e == (ChannelError::UserNameNotFound {}),
            r matches Ok(id) ==> id == self.username_to_channel_id.view()[key1(user_name@)],
    {
        match self.username_to_channel_id.get(&Key::one(user_name.as_str())) {
            Some(id) => Ok(id.clone()),
            None => Err(ChannelError::UserNameNotFound {}),
        }
    }

    /// The id of the channel with username `user_name`.
    pub fn get_channel_id_from_username(&self, user_name: String) -> (r: Result<String, ChannelError>)
        requires
            self.wf(),
        ensures
            r is Err <==> !self.username_to_channel_id.view().contains_key(key1(user_name@)),
            r matches Err(e) ==> e == (ChannelError::UserNameNotFound {}),
            r matches Ok(id) ==> id == self.username_to_channel_id.view()[key1(user_name@)],
    {
        self.get_channel_id(user_name)
    }

    /// The username of channel `channel_id`.
    pub fn get_username_from_channel_id(&self, channel_id: String) -> (r: Result<String, ChannelError>)
        requires
            self.wf(),
        ensures
            r is Err <==> !self.channel_id_to_username.view().contains_key(key1(channel_id@)),
            r matches Err(e) ==> e == (ChannelError::ChannelIdNotFound {}),
            r matches Ok(u) ==> u == self.channel_id_to_username.view()[key1(channel_id@)],
    {
        match self.channel_id_to_username.get(&Key::one(channel_id.as_str())) {
            Some(u) => Ok(u.clone()),
            None => Err(ChannelError::ChannelIdNotFound {}),
        }
    }

    /// The recorded total share of channel `channel_id`, in atomics.
    fn total_share(&self, channel_id: &String) -> (r: u128)
        requires
            self.wf(),
        ensures
            r == self.total_of(channel_id@),
    {
        match self.total_collaborator_shares.get(&Key::one(channel_id.as_str())) {
            Some(d) => d.atomics,
            None => 0,
        }
    }

    /// Makes `address` a collaborator of channel `channel_id`, unless it is one
    /// already, the channel has ten collaborators, or the shares would add up to
    /// more than one.
    pub fn add_collaborator(
        &mut self,
        channel_id: String,
        address: String,
        collaborator: ChannelCollaborator,
    ) -> (r: Result<(), ChannelError>)
        requires
            old(self).wf(),
            !old(self).channel_collaborators.view().contains_key(key2(channel_id@, address@)) ==> old(
                self,
            ).total_of(channel_id@) + collaborator.share.atomics <= u128::MAX,
        ensures
            final(self).wf(),
            ({
                let c = channel_id@;
                let k = key2(c, address@);
                let present = old(self).channel_collaborators.view().contains_key(k);
                let count = old(self).collaborator_count(c);
                let total = old(self).total_of(c) + collaborator.share.atomics;
                &&& present ==> r == Err::<(), ChannelError>(ChannelError::CollaboratorExists {})
                &&& !present && count >= TOTAL_UNIQUE_COLLABORATOR_LIMIT ==> r == Err::<(), ChannelError>(
                    ChannelError::TotalUniqueCollaboratorsLimitExceeded {},
                )
                &&& !present && count < TOTAL_UNIQUE_COLLABORATOR_LIMIT && total > DECIMAL_FRACTIONAL ==> r == Err::<
                    (),
                    ChannelError,
                >(ChannelError::InvalidSharePercentage {})
                &&& r is Ok <==> !present && count < TOTAL_UNIQUE_COLLABORATOR_LIMIT && total <= DECIMAL_FRACTIONAL
                &&& r is Err ==> *final(self) == *old(self)
                &&& r is Ok ==> {
                    &&& final(self).channel_collaborators.view() == old(self).channel_collaborators.view().insert(
                        k,
                        (address, collaborator),
                    )
                    &&& final(self).total_collaborator_shares.view() == old(
                        self,
                    ).total_collaborator_shares.view().insert(key1(c), Decimal { atomics: total as u128 })
                    &&& final(self).followers == old(self).followers
                    &&& final(self).reserved_usernames == old(self).reserved_usernames
                    &&& final(self).same_channels(old(self))
                }
            }),
    {
        let ghost c = channel_id@;
        let ghost kk = key2(channel_id@, address@);
        let key = Key::two(channel_id.as_str(), address.as_str());
        if self.channel_collaborators.contains(&key) {
            return Err(ChannelError::CollaboratorExists {});
        }
        let current = self.total_share(&channel_id);
        let new_total = current + collaborator.share.atomics;
        let count = self.channel_collaborators.count_prefix(&chars_of(channel_id.as_str()));
        if count >= TOTAL_UNIQUE_COLLABORATOR_LIMIT as usize {
            return Err(ChannelError::TotalUniqueCollaboratorsLimitExceeded {});
        }
        if new_total > DECIMAL_FRACTIONAL {
            return Err(ChannelError::InvalidSharePercentage {});
        }
        let ghost prev = *self;
        let ghost vv: Collaborator = (address, collaborator);
        proof {
            prev.channel_collaborators.lemma_lens();
        }
        self.channel_collaborators.insert(key, (address, collaborator));
        self.total_collaborator_shares.insert(Key::one(channel_id.as_str()), Decimal { atomics: new_total });
        proof {
            let ks = prev.channel_collaborators.key_seq();
            let vs = prev.channel_collaborators.val_seq();
            let i = choose|i: int|
                0 <= i <= ks.len() && self.channel_collaborators.key_seq() == ks.insert(i, kk)
                    && self.channel_collaborators.val_seq() == vs.insert(i, vv);
            assert forall|c2: Seq<char>|
                #![trigger self.share_sum(c2)]
                #![trigger self.total_of(c2)]
                #![trigger self.collaborator_count(c2)]
                self.total_of(c2) == self.share_sum(c2) && self.share_sum(c2) <= DECIMAL_FRACTIONAL
                    && self.collaborator_count(c2) <= TOTAL_UNIQUE_COLLABORATOR_LIMIT by {
                lemma_tally_insert(ks, vs, share_weight(c2), i, kk, vv);
                lemma_tally_insert(ks, vs, member_weight::<Collaborator>(c2), i, kk, vv);
                assert(prev.share_sum(c2) == prev.total_of(c2));
                if c2 != c {
                    assert(key1(c2)[0] == c2);
                    assert(key1(c2) != key1(c));
                }
            }
            assert forall|k: Seq<Seq<char>>| #[trigger] self.channel_collaborators.view().contains_key(k) implies k.len()
                == 2 && self.channel_collaborators.view()[k].0@ == k[1] by {
                if k != kk {
                    assert(prev.channel_collaborators.view().contains_key(k));
                }
            }
        }
        Ok(())
    }

    /// Removes collaborator `address` from channel `channel_id` and takes its share
    /// off the channel's total.
    pub fn remove_collaborator(&mut self, channel_id: String, address: String) -> (r: Result<(), ChannelError>)
        requires
            old(self).wf(),
        ensures
            final(self).wf(),
            ({
                let c = channel_id@;
                let k = key2(c, address@);
                &&& r is Err <==> !old(self).channel_collaborators.view().contains_key(k)
                &&& r matches Err(e) ==> e == (ChannelError::CollaboratorNotFound {}) && *final(self) == *old(self)
                &&& r is Ok ==> {
                    let share = old(self).channel_collaborators.view()[k].1.share.atomics;
                    &&& final(self).channel_collaborators.view() == old(self).channel_collaborators.view().remove(k)
                    &&& old(self).total_of(c) >= share
                    &&& final(self).total_collaborator_shares.view() == old(
                        self,
                    ).total_collaborator_shares.view().insert(key1(c), Decimal { atomics: (old(self).total_of(c) - share) as u128 })
                    &&& final(self).followers == old(self).followers
                    &&& final(self).reserved_usernames == old(self).reserved_usernames
                    &&& final(self).same_channels(old(self))
                }
            }),
    {
        let ghost c = channel_id@;
        let ghost kk = key2(channel_id@, address@);
        let key = Key::two(channel_id.as_str(), address.as_str());
        let share = match self.channel_collaborators.get(&key) {
            Some(v) => v.1.share.atomics,
            None => {
                return Err(ChannelError::CollaboratorNotFound {});
            },
        };
        let ghost prev = *self;
        let ghost ks = prev.channel_collaborators.key_seq();
        let ghost vs = prev.channel_collaborators.val_seq();
        proof {
            prev.channel_collaborators.lemma_lens();
            let j = prev.channel_collaborators.lemma_key_index(kk);
            assert forall|a: Seq<Seq<char>>, b: Collaborator| #[trigger] share_weight(c)(a, b) >= 0 by {}
            lemma_tally_bounds(ks, vs, share_weight(c), j);
            assert(prev.share_sum(c) == prev.total_of(c));
        }
        let current = self.total_share(&channel_id);
        let new_total = current - share;
        self.channel_collaborators.remove(&key);
        self.total_collaborator_shares.insert(Key::one(channel_id.as_str()), Decimal { atomics: new_total });
        proof {
            let i = choose|i: int|
                0 <= i < ks.len() && ks[i] == kk && self.channel_collaborators.key_seq() == ks.remove(i)
                    && self.channel_collaborators.val_seq() == vs.remove(i);
            prev.channel_collaborators.lemma_entry(i);
            assert forall|c2: Seq<char>|
                #![trigger self.share_sum(c2)]
                #![trigger self.total_of(c2)]
                #![trigger self.collaborator_count(c2)]
                self.total_of(c2) == self.share_sum(c2) && self.share_sum(c2) <= DECIMAL_FRACTIONAL
                    && self.collaborator_count(c2) <= TOTAL_UNIQUE_COLLABORATOR_LIMIT by {
                lemma_tally_remove(ks, vs, share_weight(c2), i);
                lemma_tally_remove(ks, vs, member_weight::<Collaborator>(c2), i);
                assert(prev.share_sum(c2) == prev.total_of(c2));
                assert(prev.collaborator_count(c2) <= TOTAL_UNIQUE_COLLABORATOR_LIMIT);
                if c2 != c {
                    assert(key1(c2)[0] == c2);
                    assert(key1(c2) != key1(c));
                }
            }
            assert forall|k: Seq<Seq<char>>| #[trigger] self.channel_collaborators.view().contains_key(k) implies k.len()
                == 2 && self.channel_collaborators.view()[k].0@ == k[1] by {
                assert(prev.channel_collaborators.view().contains_key(k));
            }
        }
        Ok(())
    }

    /// Every collaborator of channel `channel_id` with its share, in address
    /// order.
    pub fn get_collaborator_shares(&self, channel_id: String) -> (r: Result<Vec<(String, Decimal)>, ChannelError>)
        requires
            self.wf(),
        ensures
            ({
                let idx = selected(
                    self.channel_collaborators.key_seq(),
                    |k: Seq<Seq<char>>| in_channel_after(k, channel_id@, None),
                    self.channel_collaborators.key_seq().len() as int,
                );
                r matches Ok(v) && {
                    &&& v@.len() == idx.len()
                    &&& forall|j: int|
                        0 <= j < idx.len() ==> (#[trigger] v@[j]).0 == self.channel_collaborators.val_seq()[idx[j]].0
                            && v@[j].1 == self.channel_collaborators.val_seq()[idx[j]].1.share
                }
            }),
    {
        let filter = channel_filter(channel_id.as_str(), &None);
        let n = self.channel_collaborators.len();
        let idx = self.channel_collaborators.select(&filter, n);
        let ghost sel = idx@.map_values(|x: usize| x as int);
        proof {
            lemma_selected_len(
                self.channel_collaborators.key_seq(),
                |k: Seq<Seq<char>>| in_channel_after(k, channel_id@, None),
                n as int,
            );
            assert(opt_view(None) == None::<Seq<char>>);
        }
        let mut out: Vec<(String, Decimal)> = Vec::new();
        let mut j: usize = 0;
        while j < idx.len()
            invariant
                self.wf(),
                j <= idx@.len(),
                out@.len() == j,
                sel == idx@.map_values(|x: usize| x as int),
                forall|t: int| 0 <= t < idx@.len() ==> #[trigger] idx@[t] < self.channel_collaborators.key_seq().len(),
                forall|t: int|
                    0 <= t < j ==> (#[trigger] out@[t]).0 == self.channel_collaborators.val_seq()[sel[t]].0
                        && out@[t].1 == self.channel_collaborators.val_seq()[sel[t]].1.share,
            decreases idx@.len() - j,
        {
            let v = self.channel_collaborators.value_at(idx[j]);
            out.push((v.0.clone(), v.1.share));
            j = j + 1;
        }
        Ok(out)
    }

    /// Whether `sender` collaborates on channel `channel_id`.
    pub fn is_collaborator(&self, channel_id: String, sender: String) -> (r: Result<bool, ChannelError>)
        requires
            self.wf(),
        ensures
            r == Ok::<bool, ChannelError>(self.channel_collaborators.view().contains_key(key2(channel_id@, sender@))),
    {
        Ok(self.channel_collaborators.contains(&Key::two(channel_id.as_str(), sender.as_str())))
    }

    /// The role and share of collaborator `sender` of channel `channel_id`.
    pub fn get_collaborator(&self, channel_id: String, sender: String) -> (r: Result<ChannelCollaborator, ChannelError>)
        requires
            self.wf(),
        ensures
            r is Err <==> !self.channel_collaborators.view().contains_key(key2(channel_id@, sender@)),
            r matches Err(e) ==> e == (ChannelError::CollaboratorNotFound {}),
            r matches Ok(c) ==> c == self.channel_collaborators.view()[key2(channel_id@, sender@)].1,
    {
        match self.channel_collaborators.get(&Key::two(channel_id.as_str(), sender.as_str())) {
            Some(v) => Ok(v.1),
            None => Err(ChannelError::CollaboratorNotFound {}),
        }
    }

    /// `v` lists up to `limit` (25 when not given) collaborators of channel `c`, in
    /// address order, after `start_after` when given.
    pub open spec fn lists_collaborators(
        &self,
        c: Seq<char>,
        start_after: Option<String>,
        limit: Option<u32>,
        v: Seq<CollaboratorInfo>,
    ) -> bool {
        let n = match limit {
            Some(l) => l as int,
            None => DEFAULT_LIMIT as int,
        };
        let idx = first_n(
            selected(
                self.channel_collaborators.key_seq(),
                |k: Seq<Seq<char>>| in_channel_after(k, c, opt_view(start_after)),
                self.channel_collaborators.key_seq().len() as int,
            ),
            n,
        );
        &&& v.len() == idx.len()
        &&& forall|j: int| 0 <= j < idx.len() ==> {
            let e = self.channel_collaborators.val_seq()[idx[j]];
            &&& (#[trigger] v[j]).address == e.0
            &&& v[j].role@ == role_name(e.1.role)
            &&& v[j].share == e.1.share
        }
    }

    /// Up to `limit` (25 when not given) collaborators of channel `channel_id`, in
    /// address order, after `start_after` when given.
    pub fn get_channel_collaborators(
        &self,
        channel_id: String,
        start_after: Option<String>,
        limit: Option<u32>,
    ) -> (r: Result<Vec<CollaboratorInfo>, ChannelError>)
        requires
            self.wf(),
        ensures
            r matches Ok(v) && self.lists_collaborators(channel_id@, start_after, limit, v@),
    {
        let n: u32 = match limit {
            Some(l) => l,
            None => DEFAULT_LIMIT,
        };
        let filter = channel_filter(channel_id.as_str(), &start_after);
        let idx = self.channel_collaborators.select(&filter, n as usize);
        let ghost sel = idx@.map_values(|x: usize| x as int);
        let mut out: Vec<CollaboratorInfo> = Vec::new();
        let mut j: usize = 0;
        while j < idx.len()
            invariant
                self.wf(),
                j <= idx@.len(),
                out@.len() == j,
                sel == idx@.map_values(|x: usize| x as int),
                forall|t: int| 0 <= t < idx@.len() ==> #[trigger] idx@[t] < self.channel_collaborators.key_seq().len(),
                forall|t: int| 0 <= t < j ==> {
                    let e = self.channel_collaborators.val_seq()[sel[t]];
                    &&& (#[trigger] out@[t]).address == e.0
                    &&& out@[t].role@ == role_name(e.1.role)
                    &&& out@[t].share == e.1.share
                },
            decreases idx@.len() - j,
        {
            let v = self.channel_collaborators.value_at(idx[j]);
            out.push(CollaboratorInfo { address: v.0.clone(), role: v.1.role.name(), share: v.1.share });
            j = j + 1;
        }
        Ok(out)
    }

    /// Makes `follower` a follower of channel `channel_id`, which must exist.
    pub fn add_follower(&mut self, channel_id: String, follower: String) -> (r: Result<(), ChannelError>)
        requires
            old(self).wf(),
        ensures
            final(self).wf(),
            ({
                let k = key2(channel_id@, follower@);
                &&& !old(self).channel_details.view().contains_key(key1(channel_id@)) ==> r == Err::<(), ChannelError>(
                    ChannelError::ChannelIdNotFound {},
                )
                &&& old(self).channel_details.view().contains_key(key1(channel_id@)) && old(self).followers.view().contains_key(
                    k,
                ) ==> r == Err::<(), ChannelError>(ChannelError::AlreadyFollowing {})
                &&& r is Ok <==> old(self).channel_details.view().contains_key(key1(channel_id@))
                    && !old(self).followers.view().contains_key(k)
                &&& r is Err ==> *final(self) == *old(self)
                &&& r is Ok ==> final(self).followers.view() == old(self).followers.view().insert(k, follower)
                &&& r is Ok ==> final(self).follower_count(channel_id@) == old(self).follower_count(channel_id@) + 1
            }),
            final(self).channel_collaborators == old(self).channel_collaborators,
            final(self).total_collaborator_shares == old(self).total_collaborator_shares,
            final(self).reserved_usernames == old(self).reserved_usernames,
            final(self).same_channels(old(self)),
    {
        if !self.channel_details.contains(&Key::one(channel_id.as_str())) {
            return Err(ChannelError::ChannelIdNotFound {});
        }
        let key = Key::two(channel_id.as_str(), follower.as_str());
        if self.followers.contains(&key) {
            return Err(ChannelError::AlreadyFollowing {});
        }
        let ghost prev = *self;
        let ghost kk = key2(channel_id@, follower@);
        let ghost fv = follower;
        proof {
            prev.followers.lemma_lens();
        }
        self.followers.insert(key, follower);
        proof {
            let i = choose|i: int|
                0 <= i <= prev.followers.key_seq().len() && self.followers.key_seq() == prev.followers.key_seq().insert(i, kk)
                    && self.followers.val_seq() == prev.followers.val_seq().insert(i, fv);
            crate::map::lemma_tally_insert(
                prev.followers.key_seq(),
                prev.followers.val_seq(),
                member_weight::<String>(channel_id@),
                i,
                kk,
                fv,
            );
            assert forall|c2: Seq<char>|
                #![trigger self.share_sum(c2)]
                #![trigger self.total_of(c2)]
                #![trigger self.collaborator_count(c2)]
                self.total_of(c2) == self.share_sum(c2) && self.share_sum(c2) <= DECIMAL_FRACTIONAL
                    && self.collaborator_count(c2) <= TOTAL_UNIQUE_COLLABORATOR_LIMIT by {
                assert(prev.share_sum(c2) == prev.total_of(c2));
                assert(prev.collaborator_count(c2) <= TOTAL_UNIQUE_COLLABORATOR_LIMIT);
            }
            assert forall|k: Seq<Seq<char>>| #[trigger] self.followers.view().contains_key(k) implies k.len() == 2
                && self.followers.view()[k]@ == k[1] by {
                if k != kk {
                    assert(prev.followers.view().contains_key(k));
                }
            }
        }
        Ok(())
    }

    /// Stops `follower` following channel `channel_id`.
    pub fn remove_follower(&mut self, channel_id: String, follower: String) -> (r: Result<(), ChannelError>)
        requires
            old(self).wf(),
        ensures
            final(self).wf(),
            r is Err <==> !old(self).followers.view().contains_key(key2(channel_id@, follower@)),
            r matches Err(e) ==> e == (ChannelError::FollowerNotFound {}) && *final(self) == *old(self),
            final(self).followers.view() == old(self).followers.view().remove(key2(channel_id@, follower@)),
            r is Ok ==> final(self).follower_count(channel_id@) == old(self).follower_count(channel_id@) - 1,
            final(self).channel_collaborators == old(self).channel_collaborators,
            final(self).total_collaborator_shares == old(self).total_collaborator_shares,
            final(self).reserved_usernames == old(self).reserved_usernames,
            final(self).same_channels(old(self)),
    {
        let key = Key::two(channel_id.as_str(), follower.as_str());
        if !self.followers.contains(&key) {
            proof {
                assert(self.followers.view().remove(key2(channel_id@, follower@)) =~= self.followers.view());
            }
            return Err(ChannelError::FollowerNotFound {});
        }
        let ghost prev = *self;
        proof {
            prev.followers.lemma_lens();
        }
        self.followers.remove(&key);
        proof {
            let kk = key2(channel_id@, follower@);
            let i = choose|i: int|
                0 <= i < prev.followers.key_seq().len() && prev.followers.key_seq()[i] == kk
                    && self.followers.key_seq() == prev.followers.key_seq().remove(i) && self.followers.val_seq()
                    == prev.followers.val_seq().remove(i);
            lemma_tally_remove(prev.followers.key_seq(), prev.followers.val_seq(), member_weight::<String>(channel_id@), i);
            assert forall|c2: Seq<char>|
                #![trigger self.share_sum(c2)]
                #![trigger self.total_of(c2)]
                #![trigger self.collaborator_count(c2)]
                self.total_of(c2) == self.share_sum(c2) && self.share_sum(c2) <= DECIMAL_FRACTIONAL
                    && self.collaborator_count(c2) <= TOTAL_UNIQUE_COLLABORATOR_LIMIT by {
                assert(prev.share_sum(c2) == prev.total_of(c2));
                assert(prev.collaborator_count(c2) <= TOTAL_UNIQUE_COLLABORATOR_LIMIT);
            }
            assert forall|k: Seq<Seq<char>>| #[trigger] self.followers.view().contains_key(k) implies k.len() == 2
                && self.followers.view()[k]@ == k[1] by {
                assert(prev.followers.view().contains_key(k));
            }
        }
        Ok(())
    }

    /// The number of followers of channel `channel_id`.
    pub fn get_followers_count(&self, channel_id: String) -> (r: Result<u64, ChannelError>)
        requires
            self.wf(),
        ensures
            r matches Ok(n) && n == self.follower_count(channel_id@),
    {
        let n = self.followers.count_prefix(&chars_of(channel_id.as_str()));
        Ok(n as u64)
    }

    /// Up to `limit` (25 when not given) followers of channel `channel_id`, in
    /// address order, after `start_after` when given.
    pub fn get_followers(
        &self,
        channel_id: String,
        start_after: Option<String>,
        limit: Option<u32>,
    ) -> (r: Result<Vec<String>, ChannelError>)
        requires
            self.wf(),
        ensures
            ({
                let n = match limit {
                    Some(l) => l as int,
                    None => DEFAULT_LIMIT as int,
                };
                let idx = first_n(
                    selected(
                        self.followers.key_seq(),
                        |k: Seq<Seq<char>>| in_channel_after(k, channel_id@, opt_view(start_after)),
                        self.followers.key_seq().len() as int,
                    ),
                    n,
                );
                r matches Ok(v) && {
                    &&& v@.len() == idx.len()
                    &&& forall|j: int| 0 <= j < idx.len() ==> #[trigger] v@[j] == self.followers.val_seq()[idx[j]]
                }
            }),
    {
        let n: u32 = match limit {
            Some(l) => l,
            None => DEFAULT_LIMIT,
        };
        let filter = channel_filter(channel_id.as_str(), &start_after);
        let idx = self.followers.select(&filter, n as usize);
        let ghost sel = idx@.map_values(|x: usize| x as int);
        let mut out: Vec<String> = Vec::new();
        let mut j: usize = 0;
        while j < idx.len()
            invariant
                self.wf(),
                j <= idx@.len(),
                out@.len() == j,
                sel == idx@.map_values(|x: usize| x as int),
                forall|t: int| 0 <= t < idx@.len() ==> #[trigger] idx@[t] < self.followers.key_seq().len(),
                forall|t: int| 0 <= t < j ==> #[trigger] out@[t] == self.followers.val_seq()[sel[t]],
            decreases idx@.len() - j,
        {
            out.push(self.followers.value_at(idx[j]).clone());
            j = j + 1;
        }
        Ok(out)
    }
}

/// The tip shares of a channel's collaborators add up to the total recorded for
/// it, which is never more than one, and a channel has at most ten
/// collaborators, whatever operations led to the state.
pub proof fn law_collaborator_shares(m: &ChannelsManager, c: Seq<char>)
    requires
        m.wf(),
    ensures
        m.total_of(c) == m.share_sum(c),
        m.share_sum(c) <= DECIMAL_FRACTIONAL,
        m.collaborator_count(c) <= TOTAL_UNIQUE_COLLABORATOR_LIMIT,
{
    assert(m.share_sum(c) == m.total_of(c));
}

/// A registered channel's username leads back to the channel, and a taken
/// username leads to a registered channel whose username it is.
pub proof fn law_unique_names(m: &ChannelsManager, c: Seq<char>, u: Seq<char>)
    requires
        m.wf(),
    ensures
        m.channel_details.view().contains_key(key1(c)) ==> {
            &&& m.channel_id_to_username.view().contains_key(key1(c))
            &&& m.username_to_channel_id.view()[key1(m.channel_id_to_username.view()[key1(c)]@)]@ == c
        },
        m.username_to_channel_id.view().contains_key(key1(u)) ==> {
            let id = m.username_to_channel_id.view()[key1(u)]@;
            &&& m.channel_details.view().contains_key(key1(id))
            &&& m.channel_id_to_username.view()[key1(id)]@ == u
        },
{
    if m.channel_details.view().contains_key(key1(c)) {
        assert(m.channel_id_to_username.view().contains_key(key1(c)));
    }
    if m.username_to_channel_id.view().contains_key(key1(u)) {
        let id = m.username_to_channel_id.view()[key1(u)]@;
        assert(m.channel_id_to_username.view().contains_key(key1(id)));
        assert(m.channel_details.view().contains_key(key1(id)) <==> m.channel_id_to_username.view().contains_key(key1(id)));
    }
}

/// Following a channel and then unfollowing it leaves its followers, and their
/// number, as they were: `mid` is what a successful `add_follower` of `f` to
/// channel `c` made of `before`, `after` what `remove_follower` then made.
pub proof fn law_follow_then_unfollow(
    before: &ChannelsManager,
    mid: &ChannelsManager,
    after: &ChannelsManager,
    c: Seq<char>,
    f: String,
)
    requires
        before.wf(),
        !before.followers.view().contains_key(key2(c, f@)),
        mid.followers.view() == before.followers.view().insert(key2(c, f@), f),
        mid.follower_count(c) == before.follower_count(c) + 1,
        after.followers.view() == mid.followers.view().remove(key2(c, f@)),
        after.follower_count(c) == mid.follower_count(c) - 1,
    ensures
        after.followers.view() == before.followers.view(),
        after.follower_count(c) == before.follower_count(c),
{
    assert(after.followers.view() =~= before.followers.view());
}

/// Adding a collaborator to a channel and then removing it leaves the channel's
/// collaborators and recorded total share as they were: `mid` is what a
/// successful `add_collaborator` of `address` to channel `c` made of `before`,
/// `after` what `remove_collaborator` then made.
pub proof fn law_add_then_remove_collaborator(
    before: &ChannelsManager,
    mid: &ChannelsManager,
    after: &ChannelsManager,
    c: Seq<char>,
    address: String,
    collaborator: ChannelCollaborator,
)
    requires
        before.wf(),
        !before.channel_collaborators.view().contains_key(key2(c, address@)),
        before.total_of(c) + collaborator.share.atomics <= DECIMAL_FRACTIONAL,
        mid.channel_collaborators.view() == before.channel_collaborators.view().insert(
            key2(c, address@),
            (address, collaborator),
        ),
        mid.total_collaborator_shares.view() == before.total_collaborator_shares.view().insert(
            key1(c),
            Decimal { atomics: (before.total_of(c) + collaborator.share.atomics) as u128 },
        ),
        after.channel_collaborators.view() == mid.channel_collaborators.view().remove(key2(c, address@)),
        after.total_collaborator_shares.view() == mid.total_collaborator_shares.view().insert(
            key1(c),
            Decimal {
                atomics: (mid.total_of(c) - mid.channel_collaborators.view()[key2(c, address@)].1.share.atomics) as u128,
            },
        ),
    ensures
        after.channel_collaborators.view() == before.channel_collaborators.view(),
        after.total_of(c) == before.total_of(c),
{
    assert(after.channel_collaborators.view() =~= before.channel_collaborators.view());
}

/// The usernames of a list of reservations.
pub open spec fn reserved_names(us: Seq<ReservedUsername>) -> Seq<Seq<char>> {
    us.map_values(|u: ReservedUsername| u.username@)
}

/// Reserving `u` and then the rest is reserving the rest after `u`.
proof fn lemma_reserve_first(m: Map<Seq<Seq<char>>, ReservedUsername>, u: ReservedUsername, rest: Seq<ReservedUsername>)
    ensures
        reserve_all(m, seq![u] + rest) == reserve_all(m.insert(key1(u.username@), u), rest),
    decreases rest.len(),
{
    if rest.len() > 0 {
        lemma_reserve_first(m, u, rest.drop_last());
        let all = seq![u] + rest;
        assert(all.drop_last() =~= seq![u] + rest.drop_last());
        assert(all.last() == rest.last());
        assert(reserve_all(m, all) == reserve_all(m, all.drop_last()).insert(key1(all.last().username@), all.last()));
    } else {
        let all = seq![u] + rest;
        assert(all =~= seq![u]);
        assert(all.drop_last() =~= Seq::<ReservedUsername>::empty());
        assert(reserve_all(m, all) == reserve_all(m, all.drop_last()).insert(key1(all.last().username@), all.last()));
        assert(reserve_all(m, all.drop_last()) == m);
    }
}

/// Reserving names other than `k` neither adds nor drops `k`, and commutes with
/// lifting `k`.
proof fn lemma_reserve_other(m: Map<Seq<Seq<char>>, ReservedUsername>, rest: Seq<ReservedUsername>, k: Seq<Seq<char>>)
    requires
        forall|j: int| 0 <= j < rest.len() ==> key1(#[trigger] rest[j].username@) != k,
    ensures
        reserve_all(m, rest).contains_key(k) == m.contains_key(k),
        reserve_all(m, rest).remove(k) == reserve_all(m.remove(k), rest),
    decreases rest.len(),
{
    if rest.len() > 0 {
        assert forall|j: int| 0 <= j < rest.drop_last().len() implies key1(
            #[trigger] rest.drop_last()[j].username@,
        ) != k by {
            assert(rest.drop_last()[j] == rest[j]);
        }
        lemma_reserve_other(m, rest.drop_last(), k);
        assert(key1(rest[rest.len() - 1].username@) != k);
        assert(reserve_all(m, rest).remove(k) =~= reserve_all(m.remove(k), rest));
    }
}

/// Reserving usernames that are distinct and not reserved yet, and then lifting
/// those reservations in the same order, succeeds and leaves the reservations
/// as they were.
pub proof fn law_reserve_then_release(m: Map<Seq<Seq<char>>, ReservedUsername>, us: Seq<ReservedUsername>)
    requires
        forall|i: int, j: int| 0 <= i < j < us.len() ==> (#[trigger] us[i]).username@ != (#[trigger] us[j]).username@,
        forall|i: int| 0 <= i < us.len() ==> !m.contains_key(key1(#[trigger] us[i].username@)),
    ensures
        unreserve_all(reserve_all(m, us), reserved_names(us)) == (m, true),
    decreases us.len(),
{
    if us.len() == 0 {
        assert(reserved_names(us) =~= Seq::<Seq<char>>::empty());
    } else {
        let u = us[0];
        let k = key1(u.username@);
        let rest = us.drop_first();
        assert(us =~= seq![u] + rest);
        lemma_reserve_first(m, u, rest);
        let m1 = m.insert(k, u);
        assert forall|j: int| 0 <= j < rest.len() implies key1(#[trigger] rest[j].username@) != k by {
            assert(rest[j] == us[j + 1]);
            assert(us[0].username@ != us[j + 1].username@);
            lemma_key1_injective(rest[j].username@, u.username@);
        }
        lemma_reserve_other(m1, rest, k);
        assert(m1.remove(k) =~= m);
        assert(reserved_names(us)[0] == u.username@);
        assert(reserved_names(us).drop_first() =~= reserved_names(rest));
        assert forall|i: int, j: int| 0 <= i < j < rest.len() implies (#[trigger] rest[i]).username@ != (
        #[trigger] rest[j]).username@ by {
            assert(rest[i] == us[i + 1] && rest[j] == us[j + 1]);
        }
        assert forall|i: int| 0 <= i < rest.len() implies !m.contains_key(key1(#[trigger] rest[i].username@)) by {
            assert(rest[i] == us[i + 1]);
        }
        law_reserve_then_release(m, rest);
    }
}

/// A channel that `add_channel` registered reads back with the details and
/// presentation it was given, and its username leads to it: `after` is what a
/// successful `add_channel` of `channel_id` made of `before`.
pub proof fn law_added_channel_reads_back(
    before: &ChannelsManager,
    after: &ChannelsManager,
    channel_id: String,
    details: ChannelDetails,
    metadata: ChannelMetadata,
)
    requires
        before.wf(),
        after.channel_details.view() == before.channel_details.view().insert(key1(channel_id@), details),
        after.channel_metadata.view() == before.channel_metadata.view().insert(key1(channel_id@), metadata),
        after.username_to_channel_id.view() == before.username_to_channel_id.view().insert(
            key1(details.user_name@),
            channel_id,
        ),
        after.channel_id_to_username.view() == before.channel_id_to_username.view().insert(
            key1(channel_id@),
            details.user_name,
        ),
    ensures
        after.channel_details.view()[key1(channel_id@)] == details,
        after.channel_metadata.view()[key1(channel_id@)] == metadata,
        after.username_to_channel_id.view()[key1(details.user_name@)] == channel_id,
        after.channel_id_to_username.view()[key1(channel_id@)] == details.user_name,
{
}

} // verus!
