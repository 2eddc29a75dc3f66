use vstd::prelude::*;

use crate::asset_manager::playlists::{channel_filter, opt_view};
use crate::keys::{chars_equal, key2, Key};
use crate::map::{first_n, in_channel_after, selected, OrderedMap};
use crate::registry::playlist::Asset;
use crate::text::chars_of;

verus! {

/// Why an operation on the published assets failed.
#[derive(Debug, PartialEq, Eq, Clone)]
pub enum AssetError {
    AssetNotFound {},
    AssetAlreadyExists {},
    SaveAssetError {},
}

/// How many assets a listing returns when no limit is given.
pub const DEFAULT_ASSET_LIMIT: u32 = 25;

/// The published assets, by channel id and publish id.
pub struct Assets {
    pub assets: OrderedMap<Asset>,
}

/// Whether a key names an asset published under `publish_id`, in any channel.
pub open spec fn published_as(k: Seq<Seq<char>>, publish_id: Seq<char>) -> bool {
    k.len() == 2 && k[1] == publish_id
}

impl Assets {
    pub open spec fn wf(&self) -> bool {
        self.assets.wf()
    }

    /// The assets, by the key made of channel id and publish id.
    pub open spec fn view(&self) -> Map<Seq<Seq<char>>, Asset> {
        self.assets.view()
    }

    /// No assets.
    pub fn new() -> (r: Self)
        ensures
            r.wf(),
            r.view() == Map::<Seq<Seq<char>>, Asset>::empty(),
    {
        Assets { assets: OrderedMap::new() }
    }

    /// Stores `asset` in channel `channel_id` under its publish id, unless an
    /// asset is already there.
    pub fn add_asset(&mut self, channel_id: String, asset: Asset) -> (r: Result<(), AssetError>)
        requires
            old(self).wf(),
        ensures
            final(self).wf(),
            ({
                let k = key2(channel_id@, asset.publish_id@);
                if old(self).view().contains_key(k) {
                    r == Err::<(), AssetError>(AssetError::AssetAlreadyExists {}) && final(self).view() == old(
                        self,
                    ).view()
                } else {
                    r is Ok && final(self).view() == old(self).view().insert(k, asset)
                }
            }),
    {
        let k = Key::two(channel_id.as_str(), asset.publish_id.as_str());
        if self.assets.contains(&k) {
            return Err(AssetError::AssetAlreadyExists {});
        }
        self.assets.insert(k, asset);
        Ok(())
    }

    /// The asset of channel `channel_id` published under `publish_id`.
    pub fn get_asset(&self, channel_id: String, publish_id: String) -> (r: Result<Asset, AssetError>)
        requires
            self.wf(),
        ensures
            ({
                let k = key2(channel_id@, publish_id@);
                if self.view().contains_key(k) {
                    r == Ok::<Asset, AssetError>(self.view()[k])
                } else {
                    r == Err::<Asset, AssetError>(AssetError::AssetNotFound {})
                }
            }),
    {
        let k = Key::two(channel_id.as_str(), publish_id.as_str());
        match self.assets.get(&k) {
            Some(a) => Ok(a.duplicate()),
            None => Err(AssetError::AssetNotFound {}),
        }
    }

    /// Removes the asset of channel `channel_id` published under `publish_id`,
    /// which must exist.
    pub fn remove_asset(&mut self, channel_id: String, publish_id: String) -> (r: Result<(), AssetError>)
        requires
            old(self).wf(),
        ensures
            final(self).wf(),
            ({
                let k = key2(channel_id@, publish_id@);
                if old(self).view().contains_key(k) {
                    r is Ok && final(self).view() == old(self).view().remove(k)
                } else {
                    r == Err::<(), AssetError>(AssetError::AssetNotFound {}) && final(self).view() == old(
                        self,
                    ).view()
                }
            }),
    {
        let k = Key::two(channel_id.as_str(), publish_id.as_str());
        if !self.assets.contains(&k) {
            return Err(AssetError::AssetNotFound {});
        }
        self.assets.remove(&k);
        Ok(())
    }

    /// Up to `limit` (by default 25) assets of channel `channel_id`, in publish
    /// id order, after `start_after` when given.
    pub fn get_all_assets(&self, channel_id: String, start_after: Option<String>, limit: Option<u32>) -> (r: Vec<
        Asset,
    >)
        requires
            self.wf(),
        ensures
            ({
                let n = match limit {
                    Some(l) => l as int,
                    None => DEFAULT_ASSET_LIMIT as int,
                };
                let idx = first_n(
                    selected(
                        self.assets.key_seq(),
                        |k: Seq<Seq<char>>| in_channel_after(k, channel_id@, opt_view(start_after)),
                        self.assets.key_seq().len() as int,
                    ),
                    n,
                );
                &&& r@.len() == idx.len()
                &&& forall|j: int| 0 <= j < idx.len() ==> #[trigger] r@[j] == self.assets.val_seq()[idx[j]]
            }),
    {
        let n: u32 = match limit {
            Some(l) => l,
            None => DEFAULT_ASSET_LIMIT,
        };
        let filter = channel_filter(channel_id.as_str(), &start_after);
        let idx = self.assets.select(&filter, n as usize);
        let ghost sel = idx@.map_values(|x: usize| x as int);
        let mut out: Vec<Asset> = Vec::new();
        let mut j: usize = 0;
        while j < idx.len()
            invariant
                self.wf(),
                j <= idx@.len(),
                out@.len() == j,
                sel == idx@.map_values(|x: usize| x as int),
                forall|t: int| 0 <= t < idx@.len() ==> #[trigger] idx@[t] < self.assets.key_seq().len(),
                forall|t: int| 0 <= t < j ==> #[trigger] out@[t] == self.assets.val_seq()[sel[t]],
            decreases idx@.len() - j,
        {
            out.push(self.assets.value_at(idx[j]).duplicate());
            j = j + 1;
        }
        out
    }

    /// Whether an asset is published under `publish_id` in any channel.
    pub fn asset_exists(&self, publish_id: String) -> (r: bool)
        requires
            self.wf(),
        ensures
            r == exists|k: Seq<Seq<char>>| #[trigger] self.view().contains_key(k) && published_as(k, publish_id@),
    {
        let target = chars_of(publish_id.as_str());
        let n = self.assets.len();
        let mut i: usize = 0;
        while i < n
            invariant
                self.wf(),
                n == self.assets.key_seq().len(),
                i <= n,
                target@ == publish_id@,
                forall|j: int| 0 <= j < i ==> !published_as(#[trigger] self.assets.key_seq()[j], publish_id@),
            decreases n - i,
        {
            let k = self.assets.key_at(i);
            if k.parts.len() == 2 && chars_equal(&k.parts[1], &target) {
                proof {
                    assert(k@[1] == k.parts@[1]@);
                    self.assets.lemma_entry(i as int);
                    assert(self.view().contains_key(self.assets.key_seq()[i as int]));
                }
                return true;
            }
            proof {
                if k.parts@.len() == 2 {
                    assert(k@[1] == k.parts@[1]@);
                }
            }
            i = i + 1;
        }
        proof {
            if exists|k: Seq<Seq<char>>| #[trigger] self.view().contains_key(k) && published_as(k, publish_id@) {
                let k = choose|k: Seq<Seq<char>>| #[trigger] self.view().contains_key(k) && published_as(k, publish_id@);
                let j = self.assets.lemma_key_index(k);
                assert(!published_as(self.assets.key_seq()[j], publish_id@));
            }
        }
        false
    }

    /// Replaces the asset of channel `channel_id` published under `publish_id`,
    /// which must exist.
    pub fn update_asset(&mut self, channel_id: String, publish_id: String, updated_asset: Asset) -> (r: Result<
        (),
        AssetError,
    >)
        requires
            old(self).wf(),
        ensures
            final(self).wf(),
            ({
                let k = key2(channel_id@, publish_id@);
                if old(self).view().contains_key(k) {
                    r is Ok && final(self).view() == old(self).view().insert(k, updated_asset)
                } else {
                    r == Err::<(), AssetError>(AssetError::AssetNotFound {}) && final(self).view() == old(
                        self,
                    ).view()
                }
            }),
    {
        let k = Key::two(channel_id.as_str(), publish_id.as_str());
        if !self.assets.contains(&k) {
            return Err(AssetError::AssetNotFound {});
        }
        self.assets.insert(k, updated_asset);
        Ok(())
    }
}

} // verus!
