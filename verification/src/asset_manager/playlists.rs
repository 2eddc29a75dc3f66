use vstd::prelude::*;

use crate::asset_manager::assets::{sift, AssetsManager};
use crate::asset_manager::error::PlaylistError;
use crate::keys::{key2, Key};
use crate::map::{filter_pred, first_n, in_channel_after, selected, KeyFilter, OrderedMap};
use crate::text::chars_of;
use crate::types::asset::{
    asset_key_view, asset_keys_view, copy_asset_keys, AssetKey, Playlist,
};

verus! {

/// The index of the first occurrence of `x` in `s`, if any.
pub open spec fn first_index<T>(s: Seq<T>, x: T) -> Option<int>
    decreases s.len(),
{
    if s.len() == 0 {
        None
    } else if s[0] == x {
        Some(0)
    } else {
        match first_index(s.drop_first(), x) {
            Some(i) => Some(i + 1),
            None => None,
        }
    }
}

proof fn lemma_first_index<T>(s: Seq<T>, x: T, i: int)
    requires
        0 <= i <= s.len(),
        forall|j: int| 0 <= j < i ==> s[j] != x,
    ensures
        i < s.len() && s[i] == x ==> first_index(s, x) == Some(i),
        i == s.len() ==> first_index(s, x) is None,
    decreases i,
{
    if i > 0 {
        assert forall|j: int| 0 <= j < i - 1 implies s.drop_first()[j] != x by {
            assert(s.drop_first()[j] == s[j + 1]);
        }
        lemma_first_index(s.drop_first(), x, i - 1);
        if i < s.len() {
            assert(s.drop_first()[i - 1] == s[i]);
        }
    } else if s.len() > 0 && s[0] != x {
    }
}

/// Removes, for each key of `keys` in turn, its first occurrence from `assets`;
/// `None` when some key is not there when its turn comes.
pub open spec fn remove_each<T>(assets: Seq<T>, keys: Seq<T>) -> Option<Seq<T>>
    decreases keys.len(),
{
    if keys.len() == 0 {
        Some(assets)
    } else {
        match first_index(assets, keys[0]) {
            Some(i) => remove_each(assets.remove(i), keys.drop_first()),
            None => None,
        }
    }
}

/// The characters of an optional string.
pub open spec fn opt_view(o: Option<String>) -> Option<Seq<char>> {
    match o {
        Some(s) => Some(s@),
        None => None,
    }
}

/// The filter for the entries of channel `channel_id` after `start_after`, if given.
pub fn channel_filter(channel_id: &str, start_after: &Option<String>) -> (r: KeyFilter)
    ensures
        filter_pred(r) == (|k: Seq<Seq<char>>| in_channel_after(k, channel_id@, opt_view(*start_after))),
{
    let r = match start_after {
        None => KeyFilter::Prefix(chars_of(channel_id)),
        Some(s) => KeyFilter::PrefixAfter(chars_of(channel_id), chars_of(s.as_str())),
    };
    proof {
        let p = |k: Seq<Seq<char>>| in_channel_after(k, channel_id@, opt_view(*start_after));
        match start_after {
            None => {
                assert forall|k: Seq<Seq<char>>| #[trigger] filter_pred(r)(k) == p(k) by {
                    // a prefix key of a channel listing has two components
                    if filter_pred(r)(k) != p(k) {
                        assert(k.len() > 0 && k[0] == channel_id@);
                    }
                }
            },
            Some(_) => {},
        }
        assert(filter_pred(r) =~= p);
    }
    r
}

/// The index of the first key of `v` equal to `k`, if any.
pub fn position_of(v: &Vec<AssetKey>, k: &AssetKey) -> (r: Option<usize>)
    ensures
        r matches Some(i) ==> i < v@.len() && first_index(asset_keys_view(v@), asset_key_view(*k)) == Some(i as int),
        r is None ==> first_index(asset_keys_view(v@), asset_key_view(*k)) is None,
{
    let ghost s = asset_keys_view(v@);
    let mut i: usize = 0;
    while i < v.len()
        invariant
            i <= v@.len(),
            s == asset_keys_view(v@),
            forall|j: int| 0 <= j < i ==> s[j] != asset_key_view(*k),
        decreases v@.len() - i,
    {
        if v[i].0 == k.0 && v[i].1 == k.1 {
            proof {
                lemma_first_index(s, asset_key_view(*k), i as int);
            }
            return Some(i);
        }
        i = i + 1;
    }
    proof {
        lemma_first_index(s, asset_key_view(*k), i as int);
    }
    None
}

/// The most assets a playlist holds.
pub const PLAYLIST_ASSET_LIMIT: usize = 100;

/// The playlists of all channels, by channel and playlist name.
pub struct PlaylistsManager {
    pub playlists: OrderedMap<Playlist>,
}

/// The number of playlists a listing returns when it names no limit.
pub const DEFAULT_PLAYLIST_PAGE: u32 = 25;

impl PlaylistsManager {
    pub open spec fn wf(&self) -> bool {
        self.playlists.wf()
    }

    /// The playlists, by channel and name.
    pub open spec fn view(&self) -> Map<Seq<Seq<char>>, Playlist> {
        self.playlists.view()
    }

    /// No playlists.
    pub fn new() -> (r: Self)
        ensures
            r.wf(),
            r.view() == Map::<Seq<Seq<char>>, Playlist>::empty(),
    {
        PlaylistsManager { playlists: OrderedMap::new() }
    }

    /// Creates an empty playlist named `playlist_name` in channel `channel_id`,
    /// unless the channel already has one of that name.
    pub fn add_new_playlist(&mut self, channel_id: String, playlist_name: String) -> (r: Result<(), PlaylistError>)
        requires
            old(self).wf(),
        ensures
            final(self).wf(),
            r is Err <==> old(self).view().contains_key(key2(channel_id@, playlist_name@)),
            r matches Err(e) ==> e == (PlaylistError::PlaylistAlreadyExists {}) && *final(self) == *old(self),
            (r is Ok ==> {
                let k = key2(channel_id@, playlist_name@);
                &&& final(self).view().dom() == old(self).view().dom().insert(k)
                &&& final(self).view().remove(k) == old(self).view().remove(k)
                &&& final(self).view()[k].playlist_name == playlist_name
                &&& final(self).view()[k].assets@.len() == 0
            }),
    {
        let key = Key::two(channel_id.as_str(), playlist_name.as_str());
        if self.playlists.contains(&key) {
            return Err(PlaylistError::PlaylistAlreadyExists {});
        }
        let playlist = Playlist { assets: Vec::new(), playlist_name };
        self.playlists.insert(key, playlist);
        proof {
            let k = key2(channel_id@, playlist_name@);
            assert(self.view().dom() =~= old(self).view().dom().insert(k));
            assert(self.view().remove(k) =~= old(self).view().remove(k));
        }
        Ok(())
    }

    /// Appends `asset_key` to playlist `playlist_name` of channel `channel_id`,
    /// which must exist, not hold it yet and hold fewer than 100 assets.
    pub fn add_asset_to_playlist(
        &mut self,
        channel_id: String,
        playlist_name: String,
        asset_key: AssetKey,
    ) -> (r: Result<(), PlaylistError>)
        requires
            old(self).wf(),
        ensures
            final(self).wf(),
            ({
                let k = key2(channel_id@, playlist_name@);
                &&& !old(self).view().contains_key(k) ==> r == Err::<(), PlaylistError>(PlaylistError::PlaylistNotFound {})
                &&& old(self).view().contains_key(k) && asset_keys_view(old(self).view()[k].assets@).contains(
                    asset_key_view(asset_key),
                ) ==> r == Err::<(), PlaylistError>(PlaylistError::AssetAlreadyExistsInPlaylist {})
                &&& old(self).view().contains_key(k) && !asset_keys_view(old(self).view()[k].assets@).contains(
                    asset_key_view(asset_key),
                ) && old(self).view()[k].assets@.len() >= PLAYLIST_ASSET_LIMIT ==> r == Err::<(), PlaylistError>(
                    PlaylistError::PlaylistAssetLimitReached {},
                )
                &&& r is Ok <==> old(self).view().contains_key(k) && !asset_keys_view(old(self).view()[k].assets@).contains(
                    asset_key_view(asset_key),
                ) && old(self).view()[k].assets@.len() < PLAYLIST_ASSET_LIMIT
                &&& r is Err ==> *final(self) == *old(self)
                &&& r is Ok ==> {
                    &&& final(self).view().dom() == old(self).view().dom()
                    &&& final(self).view().remove(k) == old(self).view().remove(k)
                    &&& final(self).view()[k].playlist_name == old(self).view()[k].playlist_name
                    &&& final(self).view()[k].assets@ == old(self).view()[k].assets@.push(asset_key)
                }
            }),
    {
        let ghost k = key2(channel_id@, playlist_name@);
        let key = Key::two(channel_id.as_str(), playlist_name.as_str());
        let mut playlist = match self.playlists.get(&key) {
            Some(p) => p.duplicate(),
            None => {
                return Err(PlaylistError::PlaylistNotFound {});
            },
        };
        match position_of(&playlist.assets, &asset_key) {
            Some(i) => {
                proof {
                    assert(asset_keys_view(playlist.assets@)[i as int] == asset_key_view(asset_key)) by {
                        lemma_first_index_found(asset_keys_view(playlist.assets@), asset_key_view(asset_key));
                    }
                }
                return Err(PlaylistError::AssetAlreadyExistsInPlaylist {});
            },
            None => {
                proof {
                    lemma_first_index_absent(asset_keys_view(playlist.assets@), asset_key_view(asset_key));
                }
            },
        }
        if playlist.assets.len() >= PLAYLIST_ASSET_LIMIT {
            return Err(PlaylistError::PlaylistAssetLimitReached {});
        }
        playlist.assets.push(asset_key);
        self.playlists.insert(key, playlist);
        proof {
            assert(self.view().dom() =~= old(self).view().dom());
            assert(self.view().remove(k) =~= old(self).view().remove(k));
        }
        Ok(())
    }

    /// Removes, for each of `asset_keys` in turn, its first occurrence from playlist
    /// `playlist_name` of channel `channel_id`. Nothing changes when one of them is
    /// missing.
    pub fn remove_assets_from_playlist(
        &mut self,
        channel_id: String,
        playlist_name: String,
        asset_keys: Vec<AssetKey>,
    ) -> (r: Result<(), PlaylistError>)
        requires
            old(self).wf(),
        ensures
            final(self).wf(),
            ({
                let k = key2(channel_id@, playlist_name@);
                let outcome = remove_each(
                    asset_keys_view(old(self).view()[k].assets@),
                    asset_keys_view(asset_keys@),
                );
                &&& !old(self).view().contains_key(k) ==> r == Err::<(), PlaylistError>(PlaylistError::PlaylistNotFound {})
                &&& old(self).view().contains_key(k) && outcome is None ==> r == Err::<(), PlaylistError>(
                    PlaylistError::AssetNotInPlaylist {},
                )
                &&& r is Ok <==> old(self).view().contains_key(k) && outcome is Some
                &&& r is Err ==> *final(self) == *old(self)
                &&& r is Ok ==> {
                    &&& final(self).view().dom() == old(self).view().dom()
                    &&& final(self).view().remove(k) == old(self).view().remove(k)
                    &&& final(self).view()[k].playlist_name == old(self).view()[k].playlist_name
                    &&& asset_keys_view(final(self).view()[k].assets@) == outcome->0
                }
            }),
    {
        let ghost k = key2(channel_id@, playlist_name@);
        let key = Key::two(channel_id.as_str(), playlist_name.as_str());
        let mut playlist = match self.playlists.get(&key) {
            Some(p) => p.duplicate(),
            None => {
                return Err(PlaylistError::PlaylistNotFound {});
            },
        };
        let ghost all = asset_keys_view(asset_keys@);
        let ghost start = asset_keys_view(playlist.assets@);
        let mut i: usize = 0;
        assert(all.skip(0) =~= all);
        while i < asset_keys.len()
            invariant
                i <= asset_keys@.len(),
                self.wf(),
                *self == *old(self),
                old(self).view().contains_key(k),
                k == key2(channel_id@, playlist_name@),
                playlist.playlist_name == old(self).view()[k].playlist_name,
                start == asset_keys_view(old(self).view()[k].assets@),
                all == asset_keys_view(asset_keys@),
                remove_each(start, all) == remove_each(asset_keys_view(playlist.assets@), all.skip(i as int)),
            decreases asset_keys@.len() - i,
        {
            let ghost cur = asset_keys_view(playlist.assets@);
            assert(all.skip(i as int).drop_first() =~= all.skip(i + 1));
            assert(all.skip(i as int)[0] == asset_key_view(asset_keys@[i as int]));
            match position_of(&playlist.assets, &asset_keys[i]) {
                Some(p) => {
                    playlist.assets.remove(p);
                    assert(asset_keys_view(playlist.assets@) =~= cur.remove(p as int));
                },
                None => {
                    return Err(PlaylistError::AssetNotInPlaylist {});
                },
            }
            i = i + 1;
        }
        assert(all.skip(i as int).len() == 0);
        self.playlists.insert(key, playlist);
        proof {
            assert(self.view().dom() =~= old(self).view().dom());
            assert(self.view().remove(k) =~= old(self).view().remove(k));
        }
        Ok(())
    }

    /// Playlist `playlist_name` of channel `channel_id`.
    pub fn get_playlist(&self, channel_id: String, playlist_name: String) -> (r: Result<Playlist, PlaylistError>)
        requires
            self.wf(),
        ensures
            r is Err <==> !self.view().contains_key(key2(channel_id@, playlist_name@)),
            r matches Err(e) ==> e == (PlaylistError::PlaylistNotFound {}),
            r matches Ok(p) ==> p.playlist_name == self.view()[key2(channel_id@, playlist_name@)].playlist_name
                && p.assets@ == self.view()[key2(channel_id@, playlist_name@)].assets@,
    {
        let key = Key::two(channel_id.as_str(), playlist_name.as_str());
        match self.playlists.get(&key) {
            Some(p) => Ok(p.duplicate()),
            None => Err(PlaylistError::PlaylistNotFound {}),
        }
    }

    /// Up to `limit` (25 when not given) playlists of channel `channel_id`, in name
    /// order, after `start_after` when given.
    pub fn get_all_playlists(
        &self,
        channel_id: String,
        start_after: Option<String>,
        limit: Option<u32>,
    ) -> (r: Vec<Playlist>)
        requires
            self.wf(),
        ensures
            ({
                let n = match limit { Some(l) => l as int, None => DEFAULT_PLAYLIST_PAGE as int };
                let idx = first_n(
                    selected(
                        self.playlists.key_seq(),
                        |k: Seq<Seq<char>>| in_channel_after(k, channel_id@, opt_view(start_after)),
                        self.playlists.key_seq().len() as int,
                    ),
                    n,
                );
                &&& r@.len() == idx.len()
                &&& forall|j: int| 0 <= j < idx.len() ==> {
                    &&& (#[trigger] r@[j]).playlist_name == self.playlists.val_seq()[idx[j]].playlist_name
                    &&& r@[j].assets@ == self.playlists.val_seq()[idx[j]].assets@
                }
            }),
    {
        let n: u32 = match limit {
            Some(l) => l,
            None => DEFAULT_PLAYLIST_PAGE,
        };
        let filter = channel_filter(channel_id.as_str(), &start_after);
        let idx = self.playlists.select(&filter, n as usize);
        let ghost sel = idx@.map_values(|x: usize| x as int);
        let mut out: Vec<Playlist> = Vec::new();
        let mut j: usize = 0;
        while j < idx.len()
            invariant
                self.wf(),
                j <= idx@.len(),
                out@.len() == j,
                sel == idx@.map_values(|x: usize| x as int),
                forall|t: int| 0 <= t < idx@.len() ==> #[trigger] idx@[t] < self.playlists.key_seq().len(),
                forall|t: int| 0 <= t < j ==> {
                    &&& (#[trigger] out@[t]).playlist_name == self.playlists.val_seq()[sel[t]].playlist_name
                    &&& out@[t].assets@ == self.playlists.val_seq()[sel[t]].assets@
                },
            decreases idx@.len() - j,
        {
            let p = self.playlists.value_at(idx[j]).duplicate();
            out.push(p);
            j = j + 1;
        }
        out
    }

    /// Deletes playlist `playlist_name` of channel `channel_id`.
    pub fn delete_playlist(&mut self, channel_id: String, playlist_name: String) -> (r: Result<(), PlaylistError>)
        requires
            old(self).wf(),
        ensures
            final(self).wf(),
            r is Err <==> !old(self).view().contains_key(key2(channel_id@, playlist_name@)),
            r matches Err(e) ==> e == (PlaylistError::PlaylistNotFound {}) && *final(self) == *old(self),
            final(self).view() == old(self).view().remove(key2(channel_id@, playlist_name@)),
    {
        let key = Key::two(channel_id.as_str(), playlist_name.as_str());
        match self.playlists.remove(&key) {
            Some(_) => Ok(()),
            None => Err(PlaylistError::PlaylistNotFound {}),
        }
    }

    /// Drops from playlist `playlist_name` of channel `channel_id` every asset that
    /// is no longer stored or no longer visible, and hands back the dropped keys in
    /// playlist order.
    pub fn refresh_playlist(
        &mut self,
        channel_id: String,
        playlist_name: String,
        assets: &AssetsManager,
    ) -> (r: Result<Vec<AssetKey>, PlaylistError>)
        requires
            old(self).wf(),
            assets.wf(),
        ensures
            final(self).wf(),
            ({
                let k = key2(channel_id@, playlist_name@);
                let before = old(self).view()[k].assets@;
                &&& r is Err <==> !old(self).view().contains_key(k)
                &&& r matches Err(e) ==> e == (PlaylistError::PlaylistNotFound {}) && *final(self) == *old(self)
                &&& r matches Ok(removed) ==> {
                    &&& removed@ == sift(assets.view(), before, false)
                    &&& final(self).view().dom() == old(self).view().dom()
                    &&& final(self).view().remove(k) == old(self).view().remove(k)
                    &&& final(self).view()[k].playlist_name == old(self).view()[k].playlist_name
                    &&& final(self).view()[k].assets@ == sift(assets.view(), before, true)
                }
            }),
    {
        let ghost k = key2(channel_id@, playlist_name@);
        let key = Key::two(channel_id.as_str(), playlist_name.as_str());
        let mut playlist = match self.playlists.get(&key) {
            Some(p) => p.duplicate(),
            None => {
                return Err(PlaylistError::PlaylistNotFound {});
            },
        };
        let removed = assets.sift_keys(&playlist.assets, false);
        playlist.assets = assets.sift_keys(&playlist.assets, true);
        self.playlists.insert(key, playlist);
        proof {
            assert(self.view().dom() =~= old(self).view().dom());
            assert(self.view().remove(k) =~= old(self).view().remove(k));
        }
        Ok(removed)
    }

    /// Deletes every playlist of channel `channel_id`.
    pub fn delete_playlists_by_channel_id(&mut self, channel_id: String)
        requires
            old(self).wf(),
        ensures
            final(self).wf(),
            forall|x: Seq<Seq<char>>|
                #[trigger] final(self).view().contains_key(x) <==> old(self).view().contains_key(x) && !(x.len()
                    > 0 && x[0] == channel_id@),
            forall|x: Seq<Seq<char>>|
                #[trigger] final(self).view().contains_key(x) ==> final(self).view()[x] == old(self).view()[x],
    {
        let c = chars_of(channel_id.as_str());
        self.playlists.remove_prefix(&c);
    }
}

pub proof fn lemma_first_index_found<T>(s: Seq<T>, x: T)
    requires
        first_index(s, x) is Some,
    ensures
        0 <= first_index(s, x)->0 < s.len(),
        s[first_index(s, x)->0] == x,
    decreases s.len(),
{
    if s.len() > 0 && s[0] != x {
        lemma_first_index_found(s.drop_first(), x);
    }
}

pub proof fn lemma_first_index_absent<T>(s: Seq<T>, x: T)
    requires
        first_index(s, x) is None,
    ensures
        !s.contains(x),
    decreases s.len(),
{
    if s.len() > 0 {
        lemma_first_index_absent(s.drop_first(), x);
        assert forall|i: int| 0 <= i < s.len() implies s[i] != x by {
            if i > 0 {
                assert(s[i] == s.drop_first()[i - 1]);
            }
        }
    }
}

/// Adding an asset to a playlist and then removing it leaves the playlist's
/// assets as they were: adding refuses an asset already listed and appends it,
/// removing takes out the first occurrence, which is then the appended one.
pub proof fn law_add_then_remove_asset<T>(assets: Seq<T>, key: T)
    requires
        !assets.contains(key),
    ensures
        remove_each(assets.push(key), seq![key]) == Some(assets),
{
    let s = assets.push(key);
    assert forall|j: int| 0 <= j < assets.len() implies s[j] != key by {
        assert(s[j] == assets[j]);
    }
    lemma_first_index(s, key, assets.len() as int);
    assert(seq![key][0] == key);
    assert(seq![key].drop_first() =~= Seq::<T>::empty());
    assert(s.remove(assets.len() as int) =~= assets);
    assert(remove_each(assets, Seq::<T>::empty()) == Some(assets));
    assert(remove_each(s, seq![key]) == remove_each(s.remove(assets.len() as int), seq![key].drop_first()));
}

} // verus!
