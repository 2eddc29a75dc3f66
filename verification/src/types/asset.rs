use vstd::prelude::*;

verus! {

/// Identifies a published asset: the channel it was published in and its
/// publish id.
pub type AssetKey = (String, String);

/// The characters of an asset key.
pub open spec fn asset_key_view(k: AssetKey) -> (Seq<char>, Seq<char>) {
    (k.0@, k.1@)
}

/// The characters of a list of asset keys.
pub open spec fn asset_keys_view(v: Seq<AssetKey>) -> Seq<(Seq<char>, Seq<char>)> {
    v.map_values(|k: AssetKey| asset_key_view(k))
}

/// A copy of an asset key.
pub fn copy_asset_key(k: &AssetKey) -> (r: AssetKey)
    ensures
        r == *k,
{
    (k.0.clone(), k.1.clone())
}

/// A copy of a list of asset keys.
pub fn copy_asset_keys(v: &Vec<AssetKey>) -> (r: Vec<AssetKey>)
    ensures
        r@ == v@,
{
    let mut out: Vec<AssetKey> = Vec::new();
    let mut i: usize = 0;
    while i < v.len()
        invariant
            i <= v@.len(),
            out@ == v@.take(i as int),
        decreases v@.len() - i,
    {
        out.push(copy_asset_key(&v[i]));
        assert(out@ =~= v@.take(i + 1));
        i = i + 1;
    }
    assert(out@ =~= v@);
    out
}

/// A named, ordered list of assets of any channel.
#[derive(Debug, PartialEq, Eq, Clone)]
pub struct Playlist {
    pub playlist_name: String,
    pub assets: Vec<AssetKey>,
}

impl Playlist {
    /// A copy of this playlist.
    pub fn duplicate(&self) -> (r: Playlist)
        ensures
            r.playlist_name == self.playlist_name,
            r.assets@ == self.assets@,
    {
        Playlist { playlist_name: self.playlist_name.clone(), assets: copy_asset_keys(&self.assets) }
    }
}

/// Where the media of an asset lives.
#[derive(Debug, PartialEq, Eq, Clone)]
pub enum AssetSource {
    Nft { collection_id: String, onft_id: String },
    OffChain { media_uri: String, name: String, description: String },
}

impl AssetSource {
    /// A copy of this source.
    pub fn duplicate(&self) -> (r: AssetSource)
        ensures
            r == *self,
    {
        match self {
            AssetSource::Nft { collection_id, onft_id } => AssetSource::Nft {
                collection_id: collection_id.clone(),
                onft_id: onft_id.clone(),
            },
            AssetSource::OffChain { media_uri, name, description } => AssetSource::OffChain {
                media_uri: media_uri.clone(),
                name: name.clone(),
                description: description.clone(),
            },
        }
    }
}

/// The text of an asset source.
pub open spec fn source_text(s: AssetSource) -> Seq<char> {
    match s {
        AssetSource::Nft { collection_id, onft_id } => "NFT: "@ + collection_id@ + " "@ + onft_id@,
        AssetSource::OffChain { media_uri, name, description } => "OffChain: "@ + media_uri@ + " "@ + name@ + " "@
            + description@,
    }
}

impl AssetSource {
    /// The text of this source.
    pub fn to_text(&self) -> (r: String)
        ensures
            r@ == source_text(*self),
    {
        let mut s = String::new();
        match self {
            AssetSource::Nft { collection_id, onft_id } => {
                s.append("NFT: ");
                s.append(collection_id.as_str());
                s.append(" ");
                s.append(onft_id.as_str());
            },
            AssetSource::OffChain { media_uri, name, description } => {
                s.append("OffChain: ");
                s.append(media_uri.as_str());
                s.append(" ");
                s.append(name.as_str());
                s.append(" ");
                s.append(description.as_str());
            },
        }
        assert(s@ =~= source_text(*self));
        s
    }
}

/// An asset published in a channel.
#[derive(Debug, PartialEq, Eq, Clone)]
pub struct Asset {
    pub channel_id: String,
    pub publish_id: String,
    pub asset_source: AssetSource,
    pub is_visible: bool,
}

impl Asset {
    /// A copy of this asset.
    pub fn duplicate(&self) -> (r: Asset)
        ensures
            r == *self,
    {
        Asset {
            channel_id: self.channel_id.clone(),
            publish_id: self.publish_id.clone(),
            asset_source: self.asset_source.duplicate(),
            is_visible: self.is_visible,
        }
    }
}

/// The descriptive details of a published asset.
#[derive(Debug, PartialEq, Eq, Clone)]
pub struct AssetMetadata {
    pub name: String,
    pub description: String,
    pub media_uri: String,
    pub thumbnail_uri: Option<String>,
}

impl AssetMetadata {
    /// A copy of these details.
    pub fn duplicate(&self) -> (r: AssetMetadata)
        ensures
            r == *self,
    {
        AssetMetadata {
            name: self.name.clone(),
            description: self.description.clone(),
            media_uri: self.media_uri.clone(),
            thumbnail_uri: match &self.thumbnail_uri {
                Some(t) => Some(t.clone()),
                None => None,
            },
        }
    }
}

/// A reason for which viewers flag an asset.
#[derive(Debug, PartialEq, Eq, Clone)]
pub enum Flag {
    NSFW,
    Explicit,
    Spam,
    Hateful,
    Other(String),
}

/// The one-letter storage key of each kind of flag.
pub open spec fn flag_key(f: Flag) -> Seq<char> {
    match f {
        Flag::NSFW => seq!['n'],
        Flag::Explicit => seq!['e'],
        Flag::Spam => seq!['s'],
        Flag::Hateful => seq!['h'],
        Flag::Other(_) => seq!['o'],
    }
}

/// The text of a flag.
pub open spec fn flag_text(f: Flag) -> Seq<char> {
    match f {
        Flag::NSFW => seq!['N', 'S', 'F', 'W'],
        Flag::Explicit => seq!['E', 'x', 'p', 'l', 'i', 'c', 'i', 't'],
        Flag::Spam => seq!['S', 'p', 'a', 'm'],
        Flag::Hateful => seq!['H', 'a', 't', 'e', 'f', 'u', 'l'],
        Flag::Other(s) => seq!['O', 't', 'h', 'e', 'r', ':', ' '] + s@,
    }
}

/// The storage keys of the kinds of flag, in declaration order.
pub open spec fn flag_kinds() -> Seq<Seq<char>> {
    seq![seq!['n'], seq!['e'], seq!['s'], seq!['h'], seq!['o']]
}

impl Flag {
    /// The one-letter storage key of this kind of flag.
    pub fn to_key(&self) -> (r: String)
        ensures
            r@ == flag_key(*self),
    {
        proof {
            reveal_strlit("n");
            reveal_strlit("e");
            reveal_strlit("s");
            reveal_strlit("h");
            reveal_strlit("o");
        }
        match self {
            Flag::NSFW => "n".to_owned(),
            Flag::Explicit => "e".to_owned(),
            Flag::Spam => "s".to_owned(),
            Flag::Hateful => "h".to_owned(),
            Flag::Other(_) => "o".to_owned(),
        }
    }

    /// One flag of each kind, in declaration order.
    pub fn values() -> (r: Vec<Flag>)
        ensures
            r@.len() == 5,
            r@[0] == Flag::NSFW,
            r@[1] == Flag::Explicit,
            r@[2] == Flag::Spam,
            r@[3] == Flag::Hateful,
            r@[4] matches Flag::Other(s) && s@.len() == 0,
            forall|i: int| 0 <= i < 5 ==> flag_key(#[trigger] r@[i]) == flag_kinds()[i],
    {
        let mut v: Vec<Flag> = Vec::new();
        v.push(Flag::NSFW);
        v.push(Flag::Explicit);
        v.push(Flag::Spam);
        v.push(Flag::Hateful);
        v.push(Flag::Other(String::new()));
        v
    }

    /// The text of this flag.
    pub fn to_text(&self) -> (r: String)
        ensures
            r@ == flag_text(*self),
    {
        proof {
            reveal_strlit("NSFW");
            reveal_strlit("Explicit");
            reveal_strlit("Spam");
            reveal_strlit("Hateful");
            reveal_strlit("Other: ");
        }
        match self {
            Flag::NSFW => "NSFW".to_owned(),
            Flag::Explicit => "Explicit".to_owned(),
            Flag::Spam => "Spam".to_owned(),
            Flag::Hateful => "Hateful".to_owned(),
            Flag::Other(s) => {
                let mut t = "Other: ".to_owned();
                t.append(s.as_str());
                t
            },
        }
    }

    /// A copy of this flag.
    pub fn duplicate(&self) -> (r: Flag)
        ensures
            r == *self,
    {
        match self {
            Flag::NSFW => Flag::NSFW,
            Flag::Explicit => Flag::Explicit,
            Flag::Spam => Flag::Spam,
            Flag::Hateful => Flag::Hateful,
            Flag::Other(s) => Flag::Other(s.clone()),
        }
    }
}

/// Different kinds of flag have different storage keys; flags of one kind share
/// theirs.
pub proof fn lemma_flag_keys_identify_kinds(a: Flag, b: Flag)
    ensures
        (flag_key(a) == flag_key(b)) <==> (a == b || (a is Other && b is Other)),
{
    match (a, b) {
        (Flag::NSFW, Flag::NSFW) | (Flag::Explicit, Flag::Explicit) | (Flag::Spam, Flag::Spam) | (
            Flag::Hateful,
            Flag::Hateful,
        ) | (Flag::Other(_), Flag::Other(_)) => {},
        _ => {
            assert(flag_key(a)[0] != flag_key(b)[0]);
        },
    }
}

/// Every flag is of one of the kinds that [`Flag::values`] lists.
pub proof fn lemma_values_cover_every_kind(f: Flag)
    ensures
        exists|i: int| 0 <= i < 5 && #[trigger] flag_kinds()[i] == flag_key(f),
{
    match f {
        Flag::NSFW => assert(flag_kinds()[0] == flag_key(f)),
        Flag::Explicit => assert(flag_kinds()[1] == flag_key(f)),
        Flag::Spam => assert(flag_kinds()[2] == flag_key(f)),
        Flag::Hateful => assert(flag_kinds()[3] == flag_key(f)),
        Flag::Other(_) => assert(flag_kinds()[4] == flag_key(f)),
    }
}

} // verus!
