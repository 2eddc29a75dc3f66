use vstd::prelude::*;

use crate::asset_manager::playlists::{channel_filter, opt_view};
use crate::keys::{key2, Key};
use crate::map::{first_n, in_channel_after, selected, OrderedMap};
use crate::registry::error::ContractError;

verus! {

/// A published asset: the ONFT it shows and the id it was published under.
#[derive(Debug, PartialEq, Eq, Clone)]
pub struct Asset {
    pub publish_id: String,
    pub collection_id: String,
    pub onft_id: String,
}

/// The fields of an asset, as text.
pub type AssetView = (Seq<char>, Seq<char>, Seq<char>);

pub open spec fn asset_view(a: Asset) -> AssetView {
    (a.publish_id@, a.collection_id@, a.onft_id@)
}

pub open spec fn assets_view(s: Seq<Asset>) -> Seq<AssetView> {
    s.map_values(|a: Asset| asset_view(a))
}

/// `s` without the entries equal to `x`, in order.
pub open spec fn without(s: Seq<AssetView>, x: AssetView) -> Seq<AssetView>
    decreases s.len(),
{
    if s.len() == 0 {
        s
    } else if s.last() == x {
        without(s.drop_last(), x)
    } else {
        without(s.drop_last(), x).push(s.last())
    }
}

impl Asset {
    /// A copy of this asset.
    pub fn duplicate(&self) -> (r: Asset)
        ensures
            r == *self,
    {
        Asset {
            publish_id: self.publish_id.clone(),
            collection_id: self.collection_id.clone(),
            onft_id: self.onft_id.clone(),
        }
    }

    /// The fields of the two assets are equal.
    pub fn same(&self, other: &Asset) -> (r: bool)
        ensures
            r == (asset_view(*self) == asset_view(*other)),
    {
        self.publish_id == other.publish_id && self.collection_id == other.collection_id && self.onft_id
            == other.onft_id
    }
}

/// A named list of assets.
#[derive(Debug, PartialEq, Eq, Clone)]
pub struct Playlist {
    pub playlist_name: String,
    pub assets: Vec<Asset>,
}

impl Playlist {
    /// A copy of this playlist.
    pub fn duplicate(&self) -> (r: Playlist)
        ensures
            r.playlist_name == self.playlist_name,
            r.assets@ == self.assets@,
    {
        let mut assets: Vec<Asset> = Vec::new();
        let mut i: usize = 0;
        while i < self.assets.len()
            invariant
                i <= self.assets@.len(),
                assets@ == self.assets@.take(i as int),
            decreases self.assets@.len() - i,
        {
            assets.push(self.assets[i].duplicate());
            assert(assets@ =~= self.assets@.take(i + 1));
            i = i + 1;
        }
        assert(assets@ =~= self.assets@);
        Playlist { playlist_name: self.playlist_name.clone(), assets }
    }
}

/// Whether `v` holds an asset equal to `a`.
pub fn holds(v: &Vec<Asset>, a: &Asset) -> (r: bool)
    ensures
        r == assets_view(v@).contains(asset_view(*a)),
{
    let mut i: usize = 0;
    while i < v.len()
        invariant
            i <= v@.len(),
            forall|j: int| 0 <= j < i ==> asset_view(#[trigger] v@[j]) != asset_view(*a),
        decreases v@.len() - i,
    {
        if v[i].same(a) {
            assert(assets_view(v@)[i as int] == asset_view(*a));
            return true;
        }
        i = i + 1;
    }
    proof {
        if assets_view(v@).contains(asset_view(*a)) {
            let j = choose|j: int| 0 <= j < assets_view(v@).len() && assets_view(v@)[j] == asset_view(*a);
            assert(asset_view(v@[j]) == asset_view(*a));
        }
    }
    false
}

/// `v` without the assets equal to `a`, in order.
pub fn retain_others(v: &Vec<Asset>, a: &Asset) -> (r: Vec<Asset>)
    ensures
        assets_view(r@) == without(assets_view(v@), asset_view(*a)),
{
    let mut out: Vec<Asset> = Vec::new();
    let mut i: usize = 0;
    while i < v.len()
        invariant
            i <= v@.len(),
            assets_view(out@) == without(assets_view(v@.take(i as int)), asset_view(*a)),
        decreases v@.len() - i,
    {
        let ghost before = out@;
        assert(assets_view(v@.take(i + 1)).drop_last() =~= assets_view(v@.take(i as int)));
        assert(assets_view(v@.take(i + 1)).last() == asset_view(v@[i as int]));
        if !v[i].same(a) {
            out.push(v[i].duplicate());
            assert(assets_view(out@) =~= assets_view(before).push(asset_view(v@[i as int])));
        }
        i = i + 1;
    }
    assert(v@.take(v@.len() as int) =~= v@);
    out
}

/// The number of playlists a listing returns when it names no limit.
pub const DEFAULT_PLAYLIST_PAGE: u32 = 25;

/// The playlists of all channels, by channel and playlist name.
pub struct PlaylistsManager {
    pub playlists: OrderedMap<Playlist>,
}

/// The stored playlist `p` holds `name` and assets `assets`.
pub open spec fn holds_playlist(p: Playlist, name: Seq<char>, assets: Seq<AssetView>) -> bool {
    p.playlist_name@ == name && assets_view(p.assets@) == assets
}

impl PlaylistsManager {
    pub open spec fn wf(&self) -> bool {
        self.playlists.wf()
    }

    pub open spec fn view(&self) -> Map<Seq<Seq<char>>, Playlist> {
        self.playlists.view()
    }

    /// No playlists.
    pub fn new() -> (r: Self)
        ensures
            r.wf(),
            r.view() == Map::<Seq<Seq<char>>, Playlist>::empty(),
    {
        PlaylistsManager { playlists: OrderedMap::new() }
    }

    /// Gives channel `channel_id` the empty default playlist, replacing any
    /// playlist of that name.
    pub fn initialize_playlist_for_new_channel(&mut self, channel_id: String) -> (r: Result<(), ContractError>)
        requires
            old(self).wf(),
        ensures
            final(self).wf(),
            r is Ok,
            final(self).view().dom() == old(self).view().dom().insert(key2(channel_id@, "My Videos"@)),
            holds_playlist(final(self).view()[key2(channel_id@, "My Videos"@)], "My Videos"@, Seq::empty()),
            forall|k: Seq<Seq<char>>|
                k != key2(channel_id@, "My Videos"@) ==> #[trigger] final(self).view().get(k) == old(
                    self,
                ).view().get(k),
    {
        let playlist = Playlist { playlist_name: "My Videos".to_owned(), assets: Vec::new() };
        self.playlists.insert(Key::two(channel_id.as_str(), "My Videos"), playlist);
        assert(assets_view(Seq::<Asset>::empty()) =~= Seq::<AssetView>::empty());
        Ok(())
    }

    /// Adds the empty playlist `playlist_name` to channel `channel_id`, which
    /// must not have one of that name.
    pub fn add_new_playlist(&mut self, channel_id: String, playlist_name: String) -> (r: Result<(), ContractError>)
        requires
            old(self).wf(),
        ensures
            final(self).wf(),
            ({
                let k = key2(channel_id@, playlist_name@);
                if old(self).view().contains_key(k) {
                    r == Err::<(), ContractError>(ContractError::PlaylistAlreadyExists {}) && *final(self) == *old(
                        self,
                    )
                } else {
                    &&& r is Ok
                    &&& final(self).view().dom() == old(self).view().dom().insert(k)
                    &&& holds_playlist(final(self).view()[k], playlist_name@, Seq::empty())
                    &&& forall|k2: Seq<Seq<char>>| k2 != k ==> #[trigger] final(self).view().get(k2) == old(
                        self,
                    ).view().get(k2)
                }
            }),
    {
        let key = Key::two(channel_id.as_str(), playlist_name.as_str());
        if self.playlists.contains(&key) {
            return Err(ContractError::PlaylistAlreadyExists {});
        }
        self.playlists.insert(key, Playlist { playlist_name, assets: Vec::new() });
        assert(assets_view(Seq::<Asset>::empty()) =~= Seq::<AssetView>::empty());
        Ok(())
    }

    /// Appends `asset` to playlist `playlist_name` of channel `channel_id`, which
    /// must exist and not hold it yet.
    pub fn add_asset_to_playlist(
        &mut self,
        channel_id: String,
        playlist_name: String,
        asset: Asset,
    ) -> (r: Result<(), ContractError>)
        requires
            old(self).wf(),
        ensures
            final(self).wf(),
            ({
                let k = key2(channel_id@, playlist_name@);
                let p = old(self).view()[k];
                if !old(self).view().contains_key(k) {
                    r == Err::<(), ContractError>(ContractError::PlaylistNotFound {}) && *final(self) == *old(self)
                } else if assets_view(p.assets@).contains(asset_view(asset)) {
                    r == Err::<(), ContractError>(ContractError::AssetAlreadyExistsInPlaylist {}) && *final(self)
                        == *old(self)
                } else {
                    &&& r is Ok
                    &&& final(self).view().dom() == old(self).view().dom()
                    &&& holds_playlist(
                        final(self).view()[k],
                        p.playlist_name@,
                        assets_view(p.assets@).push(asset_view(asset)),
                    )
                    &&& forall|k2: Seq<Seq<char>>| k2 != k ==> #[trigger] final(self).view().get(k2) == old(
                        self,
                    ).view().get(k2)
                }
            }),
    {
        let key = Key::two(channel_id.as_str(), playlist_name.as_str());
        let mut playlist = match self.playlists.get(&key) {
            Some(p) => p.duplicate(),
            None => {
                return Err(ContractError::PlaylistNotFound {});
            },
        };
        if holds(&playlist.assets, &asset) {
            return Err(ContractError::AssetAlreadyExistsInPlaylist {});
        }
        let ghost before = playlist.assets@;
        playlist.assets.push(asset);
        assert(assets_view(playlist.assets@) =~= assets_view(before).push(asset_view(asset)));
        proof {
            self.playlists.lemma_lens();
        }
        self.playlists.insert(key, playlist);
        Ok(())
    }

    /// Removes every asset equal to `asset` from playlist `playlist_name` of
    /// channel `channel_id`, which must exist and hold it.
    pub fn remove_asset_from_playlist(
        &mut self,
        channel_id: String,
        playlist_name: String,
        asset: Asset,
    ) -> (r: Result<(), ContractError>)
        requires
            old(self).wf(),
        ensures
            final(self).wf(),
            ({
                let k = key2(channel_id@, playlist_name@);
                let p = old(self).view()[k];
                if !old(self).view().contains_key(k) {
                    r == Err::<(), ContractError>(ContractError::PlaylistNotFound {}) && *final(self) == *old(self)
                } else if !assets_view(p.assets@).contains(asset_view(asset)) {
                    r == Err::<(), ContractError>(ContractError::AssetNotInPlaylist {}) && *final(self) == *old(self)
                } else {
                    &&& r is Ok
                    &&& final(self).view().dom() == old(self).view().dom()
                    &&& holds_playlist(
                        final(self).view()[k],
                        p.playlist_name@,
                        without(assets_view(p.assets@), asset_view(asset)),
                    )
                    &&& forall|k2: Seq<Seq<char>>| k2 != k ==> #[trigger] final(self).view().get(k2) == old(
                        self,
                    ).view().get(k2)
                }
            }),
    {
        let key = Key::two(channel_id.as_str(), playlist_name.as_str());
        let playlist = match self.playlists.get(&key) {
            Some(p) => p.duplicate(),
            None => {
                return Err(ContractError::PlaylistNotFound {});
            },
        };
        if !holds(&playlist.assets, &asset) {
            return Err(ContractError::AssetNotInPlaylist {});
        }
        let assets = retain_others(&playlist.assets, &asset);
        self.playlists.insert(key, Playlist { playlist_name: playlist.playlist_name, assets });
        Ok(())
    }

    /// Playlist `playlist_name` of channel `channel_id`.
    pub fn get_playlist(&self, channel_id: String, playlist_name: String) -> (r: Result<Playlist, ContractError>)
        requires
            self.wf(),
        ensures
            r is Err <==> !self.view().contains_key(key2(channel_id@, playlist_name@)),
            r matches Err(e) ==> e == (ContractError::PlaylistNotFound {}),
            r matches Ok(p) ==> p.playlist_name == self.view()[key2(channel_id@, playlist_name@)].playlist_name
                && p.assets@ == self.view()[key2(channel_id@, playlist_name@)].assets@,
    {
        match self.playlists.get(&Key::two(channel_id.as_str(), playlist_name.as_str())) {
            Some(p) => Ok(p.duplicate()),
            None => Err(ContractError::PlaylistNotFound {}),
        }
    }

    /// Up to `limit` (25 when not given) playlists of channel `channel_id`, in name
    /// order, after `start_after` when given.
    pub fn get_all_playlists(&self, channel_id: String, start_after: Option<String>, limit: Option<u32>) -> (r:
        Result<Vec<Playlist>, ContractError>)
        requires
            self.wf(),
        ensures
            ({
                let n = match limit {
                    Some(l) => l as int,
                    None => DEFAULT_PLAYLIST_PAGE as int,
                };
                let idx = first_n(
                    selected(
                        self.playlists.key_seq(),
                        |k: Seq<Seq<char>>| in_channel_after(k, channel_id@, opt_view(start_after)),
                        self.playlists.key_seq().len() as int,
                    ),
                    n,
                );
                r matches Ok(v) && {
                    &&& v@.len() == idx.len()
                    &&& forall|j: int| 0 <= j < idx.len() ==> {
                        &&& (#[trigger] v@[j]).playlist_name == self.playlists.val_seq()[idx[j]].playlist_name
                        &&& v@[j].assets@ == self.playlists.val_seq()[idx[j]].assets@
                    }
                }
            }),
    {
        let n: u32 = match limit {
            Some(l) => l,
            None => DEFAULT_PLAYLIST_PAGE,
        };
        let filter = channel_filter(channel_id.as_str(), &start_after);
        let idx = self.playlists.select(&filter, n as usize);
        let ghost sel = idx@.map_values(|x: usize| x as int);
        let mut out: Vec<Playlist> = Vec::new();
        let mut j: usize = 0;
        while j < idx.len()
            invariant
                self.wf(),
                j <= idx@.len(),
                out@.len() == j,
                sel == idx@.map_values(|x: usize| x as int),
                forall|i: int| 0 <= i < idx@.len() ==> 0 <= #[trigger] idx@[i] < self.playlists.key_seq().len(),
                forall|i: int| 0 <= i < j ==> {
                    &&& (#[trigger] out@[i]).playlist_name == self.playlists.val_seq()[sel[i]].playlist_name
                    &&& out@[i].assets@ == self.playlists.val_seq()[sel[i]].assets@
                },
            decreases idx@.len() - j,
        {
            proof {
                self.playlists.lemma_lens();
            }
            let p = self.playlists.value_at(idx[j]);
            out.push(p.duplicate());
            j = j + 1;
        }
        Ok(out)
    }

    /// Removes playlist `playlist_name` of channel `channel_id`, if there is one;
    /// the default playlist cannot be removed.
    pub fn remove_playlist(&mut self, channel_id: String, playlist_name: String) -> (r: Result<(), ContractError>)
        requires
            old(self).wf(),
        ensures
            final(self).wf(),
            playlist_name@ == "My Videos"@ ==> r == Err::<(), ContractError>(
                ContractError::CannotDeleteDefaultPlaylist {},
            ) && *final(self) == *old(self),
            playlist_name@ != "My Videos"@ ==> r is Ok && final(self).view() == old(self).view().remove(
                key2(channel_id@, playlist_name@),
            ),
    {
        if playlist_name == "My Videos".to_owned() {
            return Err(ContractError::CannotDeleteDefaultPlaylist {});
        }
        self.playlists.remove(&Key::two(channel_id.as_str(), playlist_name.as_str()));
        Ok(())
    }
}

/// Taking out an asset that `s` does not hold leaves `s` as it is.
proof fn lemma_without_absent(s: Seq<AssetView>, x: AssetView)
    requires
        !s.contains(x),
    ensures
        without(s, x) == s,
    decreases s.len(),
{
    if s.len() > 0 {
        assert(s.last() == s[s.len() - 1]);
        assert forall|j: int| 0 <= j < s.drop_last().len() implies s.drop_last()[j] != x by {
            assert(s.drop_last()[j] == s[j]);
        }
        lemma_without_absent(s.drop_last(), x);
        assert(s.drop_last().push(s.last()) =~= s);
    }
}

/// Adding an asset to a playlist and then removing it leaves the playlist's
/// assets as they were: adding refuses an asset already listed and appends it,
/// removing takes out every asset equal to it.
pub proof fn law_add_then_remove_asset(assets: Seq<AssetView>, a: AssetView)
    requires
        !assets.contains(a),
    ensures
        without(assets.push(a), a) == assets,
{
    let s = assets.push(a);
    assert(s.drop_last() =~= assets);
    assert(s.last() == a);
    lemma_without_absent(assets, a);
}

} // verus!
