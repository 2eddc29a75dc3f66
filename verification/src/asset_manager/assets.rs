use vstd::prelude::*;

use crate::asset_manager::error::AssetError;
use crate::asset_manager::playlists::{channel_filter, opt_view};
use crate::keys::{key2, key3, Key};
use crate::map::{filter_pred, first_n, in_channel_after, selected, KeyFilter, OrderedMap};
use crate::text::chars_of;
use crate::types::asset::{flag_key, Asset, AssetKey, AssetMetadata, Flag};
use crate::types::msg::FlagInfo;

verus! {

/// The most assets one listing returns.
pub const PAGINATION_LIMIT: u32 = 50;

/// The storage key of an asset key.
pub open spec fn asset_storage_key(k: AssetKey) -> Seq<Seq<char>> {
    key2(k.0@, k.1@)
}

/// Published assets, their details and the flags raised against them.
pub struct AssetsManager {
    pub assets: OrderedMap<Asset>,
    pub metadata: OrderedMap<AssetMetadata>,
    pub flags: OrderedMap<FlagInfo>,
}

/// The name under which the asset store is also known.
pub type Assets = AssetsManager;

/// `k` is not in `keys` before index `i`.
pub open spec fn fresh_before(keys: Seq<AssetKey>, i: int) -> bool {
    forall|j: int| 0 <= j < i ==> asset_storage_key(#[trigger] keys[j]) != asset_storage_key(keys[i])
}

/// Every key of `keys` names a stored asset, and none is named twice.
pub open spec fn deletable(m: Map<Seq<Seq<char>>, Asset>, keys: Seq<AssetKey>) -> bool {
    forall|i: int| 0 <= i < keys.len() ==> m.contains_key(asset_storage_key(#[trigger] keys[i])) && fresh_before(keys, i)
}

/// Whether an asset is stored under `k` and is visible.
pub open spec fn shown(m: Map<Seq<Seq<char>>, Asset>, k: AssetKey) -> bool {
    m.contains_key(asset_storage_key(k)) && m[asset_storage_key(k)].is_visible
}

/// The keys of `s`, in order, whose asset is shown (when `keep`) or is not (when
/// not `keep`).
pub open spec fn sift(m: Map<Seq<Seq<char>>, Asset>, s: Seq<AssetKey>, keep: bool) -> Seq<AssetKey>
    decreases s.len(),
{
    if s.len() == 0 {
        Seq::empty()
    } else if shown(m, s.last()) == keep {
        sift(m, s.drop_last(), keep).push(s.last())
    } else {
        sift(m, s.drop_last(), keep)
    }
}

/// Refreshing splits a list of asset keys in two: the kept keys are exactly the
/// shown ones and the dropped keys exactly the others, each part in list order,
/// and together they are as many as the list.
pub proof fn lemma_sift_partition(m: Map<Seq<Seq<char>>, Asset>, s: Seq<AssetKey>)
    ensures
        forall|j: int| 0 <= j < sift(m, s, true).len() ==> shown(m, #[trigger] sift(m, s, true)[j]),
        forall|j: int| 0 <= j < sift(m, s, false).len() ==> !shown(m, #[trigger] sift(m, s, false)[j]),
        sift(m, s, true).len() + sift(m, s, false).len() == s.len(),
    decreases s.len(),
{
    if s.len() > 0 {
        lemma_sift_partition(m, s.drop_last());
        let kept = sift(m, s.drop_last(), true);
        let dropped = sift(m, s.drop_last(), false);
        if shown(m, s.last()) {
            assert forall|j: int| 0 <= j < kept.push(s.last()).len() implies shown(m, #[trigger] kept.push(s.last())[j]) by {
                if j < kept.len() {
                    assert(kept.push(s.last())[j] == kept[j]);
                }
            }
        } else {
            assert forall|j: int| 0 <= j < dropped.push(s.last()).len() implies !shown(m, #[trigger] dropped.push(s.last())[j]) by {
                if j < dropped.len() {
                    assert(dropped.push(s.last())[j] == dropped[j]);
                }
            }
        }
    }
}

impl AssetsManager {
    pub open spec fn wf(&self) -> bool {
        &&& self.assets.wf()
        &&& self.metadata.wf()
        &&& self.flags.wf()
    }

    /// The published assets, by channel and publish id.
    pub open spec fn view(&self) -> Map<Seq<Seq<char>>, Asset> {
        self.assets.view()
    }

    /// No assets.
    pub fn new() -> (r: Self)
        ensures
            r.wf(),
            r.view() == Map::<Seq<Seq<char>>, Asset>::empty(),
            r.metadata.view() == Map::<Seq<Seq<char>>, AssetMetadata>::empty(),
            r.flags.view() == Map::<Seq<Seq<char>>, FlagInfo>::empty(),
    {
        AssetsManager { assets: OrderedMap::new(), metadata: OrderedMap::new(), flags: OrderedMap::new() }
    }

    /// Stores `asset` under `key`, unless an asset is already there.
    pub fn add_asset(&mut self, key: AssetKey, asset: Asset) -> (r: Result<(), AssetError>)
        requires
            old(self).wf(),
        ensures
            final(self).wf(),
            r is Err <==> old(self).view().contains_key(asset_storage_key(key)),
            r matches Err(e) ==> e == (AssetError::AssetAlreadyExists {}) && *final(self) == *old(self),
            r is Ok ==> final(self).view() == old(self).view().insert(asset_storage_key(key), asset),
            final(self).metadata == old(self).metadata,
            final(self).flags == old(self).flags,
    {
        let k = Key::two(key.0.as_str(), key.1.as_str());
        if self.assets.contains(&k) {
            return Err(AssetError::AssetAlreadyExists {});
        }
        self.assets.insert(k, asset);
        Ok(())
    }

    /// The asset under `key`.
    pub fn get_asset(&self, key: AssetKey) -> (r: Result<Asset, AssetError>)
        requires
            self.wf(),
        ensures
            r is Err <==> !self.view().contains_key(asset_storage_key(key)),
            r matches Err(e) ==> e == (AssetError::AssetNotFound {}),
            r matches Ok(a) ==> a == self.view()[asset_storage_key(key)],
    {
        let k = Key::two(key.0.as_str(), key.1.as_str());
        match self.assets.get(&k) {
            Some(a) => Ok(a.duplicate()),
            None => Err(AssetError::AssetNotFound {}),
        }
    }

    /// Whether an asset is stored under `key`.
    pub fn asset_exists(&self, key: AssetKey) -> (r: bool)
        requires
            self.wf(),
        ensures
            r == self.view().contains_key(asset_storage_key(key)),
    {
        let k = Key::two(key.0.as_str(), key.1.as_str());
        self.assets.contains(&k)
    }

    /// Whether an asset is stored under `key` and is visible.
    pub fn is_shown(&self, key: &AssetKey) -> (r: bool)
        requires
            self.wf(),
        ensures
            r == shown(self.view(), *key),
    {
        let k = Key::two(key.0.as_str(), key.1.as_str());
        match self.assets.get(&k) {
            Some(a) => a.is_visible,
            None => false,
        }
    }

    /// The keys of `keys`, in order, whose asset is shown (when `keep`) or is not.
    pub fn sift_keys(&self, keys: &Vec<AssetKey>, keep: bool) -> (r: Vec<AssetKey>)
        requires
            self.wf(),
        ensures
            r@ == sift(self.view(), keys@, keep),
    {
        let mut out: Vec<AssetKey> = Vec::new();
        let mut i: usize = 0;
        while i < keys.len()
            invariant
                self.wf(),
                i <= keys@.len(),
                out@ == sift(self.view(), keys@.take(i as int), keep),
            decreases keys@.len() - i,
        {
            let ghost before = keys@.take(i as int);
            assert(keys@.take(i + 1).drop_last() =~= before);
            assert(keys@.take(i + 1).last() == keys@[i as int]);
            if self.is_shown(&keys[i]) == keep {
                out.push(crate::types::asset::copy_asset_key(&keys[i]));
            }
            i = i + 1;
        }
        assert(keys@.take(keys@.len() as int) =~= keys@);
        out
    }

    /// Deletes the asset under `key` and its details.
    pub fn delete_asset(&mut self, key: AssetKey) -> (r: Result<(), AssetError>)
        requires
            old(self).wf(),
        ensures
            final(self).wf(),
            r is Err <==> !old(self).view().contains_key(asset_storage_key(key)),
            r matches Err(e) ==> e == (AssetError::AssetNotFound {}),
            final(self).view() == old(self).view().remove(asset_storage_key(key)),
            r is Ok ==> final(self).metadata.view() == old(self).metadata.view().remove(asset_storage_key(key)),
            r is Err ==> *final(self) == *old(self),
            final(self).flags == old(self).flags,
    {
        let k = Key::two(key.0.as_str(), key.1.as_str());
        if !self.assets.contains(&k) {
            proof {
                assert(self.view().remove(asset_storage_key(key)) =~= self.view());
            }
            return Err(AssetError::AssetNotFound {});
        }
        self.assets.remove(&k);
        self.metadata.remove(&k);
        Ok(())
    }

    /// Deletes the assets under `keys` and their details, or, when one of the keys
    /// names no asset or names one a second time, deletes nothing.
    pub fn delete_assets(&mut self, keys: Vec<AssetKey>) -> (r: Result<(), AssetError>)
        requires
            old(self).wf(),
        ensures
            final(self).wf(),
            r is Ok <==> deletable(old(self).view(), keys@),
            r matches Err(e) ==> e == (AssetError::AssetNotFound {}) && *final(self) == *old(self),
            r is Ok ==> forall|x: Seq<Seq<char>>|
                #![trigger final(self).view().contains_key(x)]
                #![trigger old(self).view().contains_key(x)]
                final(self).view().contains_key(x) <==> old(self).view().contains_key(x) && !(exists|i: int|
                    0 <= i < keys@.len() && asset_storage_key(#[trigger] keys@[i]) == x),
            r is Ok ==> forall|x: Seq<Seq<char>>|
                #[trigger] final(self).view().contains_key(x) ==> final(self).view()[x] == old(self).view()[x],
            r is Ok ==> forall|x: Seq<Seq<char>>|
                #![trigger final(self).metadata.view().contains_key(x)]
                #![trigger old(self).metadata.view().contains_key(x)]
                final(self).metadata.view().contains_key(x) <==> old(self).metadata.view().contains_key(x) && !(exists|i: int|
                    0 <= i < keys@.len() && asset_storage_key(#[trigger] keys@[i]) == x),
            r is Ok ==> forall|x: Seq<Seq<char>>|
                #[trigger] final(self).metadata.view().contains_key(x) ==> final(self).metadata.view()[x] == old(
                    self,
                ).metadata.view()[x],
            final(self).flags == old(self).flags,
    {
        let mut i: usize = 0;
        while i < keys.len()
            invariant
                i <= keys@.len(),
                self.wf(),
                *self == *old(self),
                forall|j: int| 0 <= j < i ==> self.view().contains_key(asset_storage_key(#[trigger] keys@[j]))
                    && fresh_before(keys@, j),
            decreases keys@.len() - i,
        {
            let k = Key::two(keys[i].0.as_str(), keys[i].1.as_str());
            if !self.assets.contains(&k) {
                return Err(AssetError::AssetNotFound {});
            }
            let mut j: usize = 0;
            while j < i
                invariant
                    j <= i,
                    i < keys@.len(),
                    self.wf(),
                    *self == *old(self),
                    forall|t: int| 0 <= t < j ==> asset_storage_key(#[trigger] keys@[t]) != asset_storage_key(keys@[i as int]),
                decreases i - j,
            {
                if keys[j].0 == keys[i].0 && keys[j].1 == keys[i].1 {
                    proof {
                        assert(!fresh_before(keys@, i as int));
                    }
                    return Err(AssetError::AssetNotFound {});
                }
                j = j + 1;
            }
            i = i + 1;
        }
        let ghost start = *self;
        let mut i: usize = 0;
        while i < keys.len()
            invariant
                i <= keys@.len(),
                self.wf(),
                deletable(start.view(), keys@),
                forall|x: Seq<Seq<char>>|
                    #![trigger self.view().contains_key(x)]
                    #![trigger start.view().contains_key(x)]
                    self.view().contains_key(x) <==> start.view().contains_key(x) && !(exists|t: int|
                        0 <= t < i && asset_storage_key(#[trigger] keys@[t]) == x),
                forall|x: Seq<Seq<char>>| #[trigger] self.view().contains_key(x) ==> self.view()[x] == start.view()[x],
                forall|x: Seq<Seq<char>>|
                    #![trigger self.metadata.view().contains_key(x)]
                    #![trigger start.metadata.view().contains_key(x)]
                    self.metadata.view().contains_key(x) <==> start.metadata.view().contains_key(x) && !(exists|t: int|
                        0 <= t < i && asset_storage_key(#[trigger] keys@[t]) == x),
                forall|x: Seq<Seq<char>>|
                    #[trigger] self.metadata.view().contains_key(x) ==> self.metadata.view()[x] == start.metadata.view()[x],
                self.flags == start.flags,
            decreases keys@.len() - i,
        {
            let k = Key::two(keys[i].0.as_str(), keys[i].1.as_str());
            self.assets.remove(&k);
            self.metadata.remove(&k);
            proof {
                assert forall|x: Seq<Seq<char>>|
                    #![trigger self.view().contains_key(x)]
                    #![trigger start.view().contains_key(x)]
                    self.view().contains_key(x) <==> start.view().contains_key(x) && !(exists|t: int|
                        0 <= t < i + 1 && asset_storage_key(#[trigger] keys@[t]) == x) by {
                    if x == asset_storage_key(keys@[i as int]) {
                        assert(asset_storage_key(keys@[i as int]) == x);
                    }
                }
                assert forall|x: Seq<Seq<char>>|
                    #![trigger self.metadata.view().contains_key(x)]
                    #![trigger start.metadata.view().contains_key(x)]
                    self.metadata.view().contains_key(x) <==> start.metadata.view().contains_key(x) && !(exists|t: int|
                        0 <= t < i + 1 && asset_storage_key(#[trigger] keys@[t]) == x) by {
                    if x == asset_storage_key(keys@[i as int]) {
                        assert(asset_storage_key(keys@[i as int]) == x);
                    }
                }
            }
            i = i + 1;
        }
        Ok(())
    }

    /// Up to `limit` (at most and by default 50) assets of channel `channel_id`, in
    /// publish id order, after `start_after` when given.
    pub fn get_all_assets(
        &self,
        channel_id: String,
        start_after: Option<String>,
        limit: Option<u32>,
    ) -> (r: Vec<Asset>)
        requires
            self.wf(),
        ensures
            ({
                let n = match limit {
                    Some(l) => if l < PAGINATION_LIMIT { l as int } else { PAGINATION_LIMIT as int },
                    None => PAGINATION_LIMIT as int,
                };
                let idx = first_n(
                    selected(
                        self.assets.key_seq(),
                        |k: Seq<Seq<char>>| in_channel_after(k, channel_id@, opt_view(start_after)),
                        self.assets.key_seq().len() as int,
                    ),
                    n,
                );
                &&& r@.len() == idx.len()
                &&& forall|j: int| 0 <= j < idx.len() ==> #[trigger] r@[j] == self.assets.val_seq()[idx[j]]
            }),
    {
        let n: u32 = match limit {
            Some(l) => if l < PAGINATION_LIMIT { l } else { PAGINATION_LIMIT },
            None => PAGINATION_LIMIT,
        };
        let filter = channel_filter(channel_id.as_str(), &start_after);
        let idx = self.assets.select(&filter, n as usize);
        let ghost sel = idx@.map_values(|x: usize| x as int);
        let mut out: Vec<Asset> = Vec::new();
        let mut j: usize = 0;
        while j < idx.len()
            invariant
                self.wf(),
                j <= idx@.len(),
                out@.len() == j,
                sel == idx@.map_values(|x: usize| x as int),
                forall|t: int| 0 <= t < idx@.len() ==> #[trigger] idx@[t] < self.assets.key_seq().len(),
                forall|t: int| 0 <= t < j ==> #[trigger] out@[t] == self.assets.val_seq()[sel[t]],
            decreases idx@.len() - j,
        {
            out.push(self.assets.value_at(idx[j]).duplicate());
            j = j + 1;
        }
        out
    }

    /// Replaces the asset under `key`, which must exist.
    pub fn update_asset(&mut self, key: AssetKey, updated_asset: Asset) -> (r: Result<(), AssetError>)
        requires
            old(self).wf(),
        ensures
            final(self).wf(),
            r is Err <==> !old(self).view().contains_key(asset_storage_key(key)),
            r matches Err(e) ==> e == (AssetError::AssetNotFound {}) && *final(self) == *old(self),
            r is Ok ==> final(self).view() == old(self).view().insert(asset_storage_key(key), updated_asset),
            final(self).metadata == old(self).metadata,
            final(self).flags == old(self).flags,
    {
        let k = Key::two(key.0.as_str(), key.1.as_str());
        if !self.assets.contains(&k) {
            return Err(AssetError::AssetNotFound {});
        }
        self.assets.insert(k, updated_asset);
        Ok(())
    }

    /// Deletes every asset of channel `channel_id`, with their details and flags.
    pub fn delete_assets_by_channel_id(&mut self, channel_id: String) -> (r: Result<(), AssetError>)
        requires
            old(self).wf(),
        ensures
            final(self).wf(),
            r is Ok,
            forall|x: Seq<Seq<char>>|
                #[trigger] final(self).view().contains_key(x) <==> old(self).view().contains_key(x) && !(x.len()
                    > 0 && x[0] == channel_id@),
            forall|x: Seq<Seq<char>>|
                #[trigger] final(self).view().contains_key(x) ==> final(self).view()[x] == old(self).view()[x],
    {
        let c = chars_of(channel_id.as_str());
        self.assets.remove_prefix(&c);
        self.metadata.remove_prefix(&c);
        self.flags.remove_prefix(&c);
        Ok(())
    }

    /// Records the details of the asset under `key`.
    pub fn set_metadata(&mut self, key: &AssetKey, metadata: AssetMetadata)
        requires
            old(self).wf(),
        ensures
            final(self).wf(),
            final(self).metadata.view() == old(self).metadata.view().insert(asset_storage_key(*key), metadata),
            final(self).assets == old(self).assets,
            final(self).flags == old(self).flags,
    {
        let k = Key::two(key.0.as_str(), key.1.as_str());
        self.metadata.insert(k, metadata);
    }

    /// The details of the asset under `key`; empty details when none were recorded.
    pub fn get_metadata(&self, key: &AssetKey) -> (r: AssetMetadata)
        requires
            self.wf(),
        ensures
            self.metadata.view().contains_key(asset_storage_key(*key)) ==> r == self.metadata.view()[asset_storage_key(*key)],
            !self.metadata.view().contains_key(asset_storage_key(*key)) ==> r.name@.len() == 0
                && r.description@.len() == 0 && r.media_uri@.len() == 0 && r.thumbnail_uri is None,
    {
        let k = Key::two(key.0.as_str(), key.1.as_str());
        match self.metadata.get(&k) {
            Some(m) => m.duplicate(),
            None => AssetMetadata {
                name: String::new(),
                description: String::new(),
                media_uri: String::new(),
                thumbnail_uri: None,
            },
        }
    }

    /// Counts one more flag of the kind of `flag` against the asset `publish_id`
    /// of channel `channel_id`, which must exist; the flag is kept as the latest
    /// of its kind.
    pub fn add_flag(&mut self, channel_id: String, publish_id: String, flag: Flag) -> (r: Result<(), AssetError>)
        requires
            old(self).wf(),
        ensures
            final(self).wf(),
            r is Err <==> !old(self).view().contains_key(key2(channel_id@, publish_id@)),
            r matches Err(e) ==> e == (AssetError::AssetNotFound {}) && *final(self) == *old(self),
            ({
                let fk = key3(channel_id@, publish_id@, flag_key(flag));
                let before = if old(self).flags.view().contains_key(fk) { old(self).flags.view()[fk].count as int } else { 0 };
                r is Ok ==> {
                    &&& final(self).flags.view().dom() == old(self).flags.view().dom().insert(fk)
                    &&& final(self).flags.view().remove(fk) == old(self).flags.view().remove(fk)
                    &&& final(self).flags.view()[fk].flag == flag
                    &&& final(self).flags.view()[fk].count == if before < u64::MAX { before + 1 } else { before }
                }
            }),
            final(self).assets == old(self).assets,
            final(self).metadata == old(self).metadata,
    {
        let ak = Key::two(channel_id.as_str(), publish_id.as_str());
        if !self.assets.contains(&ak) {
            return Err(AssetError::AssetNotFound {});
        }
        let kind = flag.to_key();
        let fk = Key::three(channel_id.as_str(), publish_id.as_str(), kind.as_str());
        let count: u64 = match self.flags.get(&fk) {
            Some(info) => info.count.saturating_add(1),
            None => 1,
        };
        self.flags.insert(fk, FlagInfo { flag, count });
        proof {
            let k = key3(channel_id@, publish_id@, flag_key(flag));
            assert(self.flags.view().dom() =~= old(self).flags.view().dom().insert(k));
            assert(self.flags.view().remove(k) =~= old(self).flags.view().remove(k));
        }
        Ok(())
    }

    /// The flags raised against asset `publish_id` of channel `channel_id`, one
    /// record per kind, in order of kind key.
    pub fn get_all_flags_for_asset(&self, channel_id: String, publish_id: String) -> (r: Vec<FlagInfo>)
        requires
            self.wf(),
        ensures
            ({
                let idx = selected(
                    self.flags.key_seq(),
                    |k: Seq<Seq<char>>| k.len() > 2 && k[0] == channel_id@ && k[1] == publish_id@,
                    self.flags.key_seq().len() as int,
                );
                &&& r@.len() == idx.len()
                &&& forall|j: int| 0 <= j < idx.len() ==> #[trigger] r@[j] == self.flags.val_seq()[idx[j]]
            }),
    {
        let filter = KeyFilter::Pair(chars_of(channel_id.as_str()), chars_of(publish_id.as_str()));
        let n = self.flags.len();
        let idx = self.flags.select(&filter, n);
        let ghost sel = idx@.map_values(|x: usize| x as int);
        proof {
            let p = |k: Seq<Seq<char>>| k.len() > 2 && k[0] == channel_id@ && k[1] == publish_id@;
            assert(filter_pred(filter) =~= p);
            lemma_selected_len(self.flags.key_seq(), p, n as int);
        }
        let mut out: Vec<FlagInfo> = Vec::new();
        let mut j: usize = 0;
        while j < idx.len()
            invariant
                self.wf(),
                j <= idx@.len(),
                out@.len() == j,
                sel == idx@.map_values(|x: usize| x as int),
                forall|t: int| 0 <= t < idx@.len() ==> #[trigger] idx@[t] < self.flags.key_seq().len(),
                forall|t: int| 0 <= t < j ==> #[trigger] out@[t] == self.flags.val_seq()[sel[t]],
            decreases idx@.len() - j,
        {
            out.push(self.flags.value_at(idx[j]).duplicate());
            j = j + 1;
        }
        out
    }

    /// Forgets every flag of every asset.
    pub fn remove_all_flags(&mut self) -> (r: Result<(), AssetError>)
        requires
            old(self).wf(),
        ensures
            final(self).wf(),
            r is Ok,
            final(self).flags.view() == Map::<Seq<Seq<char>>, FlagInfo>::empty(),
            final(self).assets == old(self).assets,
            final(self).metadata == old(self).metadata,
    {
        self.flags = OrderedMap::new();
        Ok(())
    }
}

/// No more indices are selected than there are keys.
pub proof fn lemma_selected_len(ks: Seq<Seq<Seq<char>>>, p: spec_fn(Seq<Seq<char>>) -> bool, n: int)
    requires
        0 <= n,
    ensures
        selected(ks, p, n).len() <= n,
    decreases n,
{
    if n > 0 {
        lemma_selected_len(ks, p, n - 1);
    }
}

/// An added asset reads back as it was added, and deleting it afterwards leaves
/// the assets as they were: adding refuses a key already in use, adding and
/// deleting insert and remove that key.
pub proof fn law_add_then_delete_asset(before: Map<Seq<Seq<char>>, Asset>, k: Seq<Seq<char>>, asset: Asset)
    requires
        !before.contains_key(k),
    ensures
        before.insert(k, asset).contains_key(k),
        before.insert(k, asset)[k] == asset,
        before.insert(k, asset).remove(k) == before,
{
    assert(before.insert(k, asset).remove(k) =~= before);
}

} // verus!
