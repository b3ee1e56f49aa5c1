//! The offline audio cache: where files go, and the index that maps a
//! YouTube id to the Opus file downloaded for it.

use vstd::prelude::*;
use crate::error::{Result, YtcliError};
use crate::paths::{join_path, path_join};
use crate::state::{AppState, Track, app_cache_dir, no_cache_dir_error, system_cache_dir};
use crate::text::concat2;

verus! {

/// Bit rate of the cached Opus files, in kbit/s.
pub const DEFAULT_BITRATE_KBPS: u32 = 160;

/// Codec of the cached files.
pub const DEFAULT_CODEC: &'static str = "opus";

/// One cached file, as the index records it.
#[derive(Debug, PartialEq, Eq)]
pub struct CacheEntry {
    pub path: String,
    pub title: String,
    pub uploader: String,
    pub bitrate_kbps: u32,
    pub codec: String,
    pub bytes: u64,
    pub downloaded_at: String,
}

impl Clone for CacheEntry {
    fn clone(&self) -> (r: Self)
        ensures
            r == *self,
    {
        CacheEntry {
            path: self.path.clone(),
            title: self.title.clone(),
            uploader: self.uploader.clone(),
            bitrate_kbps: self.bitrate_kbps,
            codec: self.codec.clone(),
            bytes: self.bytes,
            downloaded_at: self.downloaded_at.clone(),
        }
    }
}

/// The audio cache rooted at a directory.
pub struct AudioCache {
    root: String,
}

impl AudioCache {
    /// The directory of this cache.
    pub closed spec fn root_text(&self) -> Seq<char> {
        self.root@
    }

    /// A cache rooted at `root`.
    pub fn at(root: String) -> (c: Self)
        ensures
            c.root_text() == root@,
    {
        AudioCache { root }
    }

    /// The cache `<base>/ytcli/audio` for the base cache directory `base`,
    /// or an error when the platform has none.
    pub fn system_from(base: Option<String>) -> (r: Result<Self>)
        ensures
            base matches Some(b) ==> (r matches Ok(c) && c.root_text() == path_join(app_cache_dir(b@), "audio"@)),
            base is None ==> (r matches Err(e) && no_cache_dir_error(e)),
    {
        let dir = AppState::cache_dir_from(base)?;
        let root = join_path(dir.as_str(), "audio");
        proof {
            reveal_strlit("audio");
        }
        Ok(AudioCache { root })
    }

    /// The cache under the application's cache directory: `<cache>/ytcli/audio`
    /// (see [`AudioCache::system_from`]).
    pub fn system() -> (r: Result<Self>)
        ensures
            r matches Ok(c) ==> exists|base: Seq<char>|
                c.root_text() == path_join(#[trigger] app_cache_dir(base), "audio"@),
            r matches Err(e) ==> no_cache_dir_error(e),
    {
        Self::system_from(system_cache_dir())
    }

    /// The directory of this cache.
    pub fn root(&self) -> (r: &str)
        ensures
            r@ == self.root_text(),
    {
        self.root.as_str()
    }

    /// `<root>/index.json`.
    pub fn index_path(&self) -> (r: String)
        ensures
            r@ == path_join(self.root_text(), "index.json"@),
    {
        join_path(self.root.as_str(), "index.json")
    }

    /// `<root>/<id>.opus`, where the audio of `id` is kept.
    pub fn file_path_for_id(&self, id: &str) -> (r: String)
        ensures
            r@ == path_join(self.root_text(), id@ + ".opus"@),
    {
        let name = concat2(id, ".opus");
        join_path(self.root.as_str(), name.as_str())
    }

    /// The file of an index entry: its path below the root (or the path
    /// itself when it is absolute).
    pub fn absolute_path(&self, entry: &CacheEntry) -> (r: String)
        ensures
            r@ == path_join(self.root_text(), entry.path@),
    {
        join_path(self.root.as_str(), entry.path.as_str())
    }
}

/// The entry recorded for a track just cached: `<id>.opus`, its title and
/// uploader, Opus at 160 kbit/s, the file size and the time.
pub fn new_entry(track: &Track, file_bytes: u64, downloaded_at: String) -> (e: CacheEntry)
    ensures
        e.path@ == track.id@ + ".opus"@,
        e.title == track.title,
        e.uploader == track.uploader,
        e.bitrate_kbps == DEFAULT_BITRATE_KBPS,
        e.codec@ == "opus"@,
        e.bytes == file_bytes,
        e.downloaded_at == downloaded_at,
{
    CacheEntry {
        path: concat2(track.id.as_str(), ".opus"),
        title: track.title.clone(),
        uploader: track.uploader.clone(),
        bitrate_kbps: DEFAULT_BITRATE_KBPS,
        codec: DEFAULT_CODEC.to_owned(),
        bytes: file_bytes,
        downloaded_at,
    }
}

/// The map that a list of (id, entry) pairs describes; a later pair wins.
pub open spec fn map_of(s: Seq<(String, CacheEntry)>) -> Map<Seq<char>, CacheEntry>
    decreases s.len(),
{
    if s.len() == 0 {
        Map::empty()
    } else {
        map_of(s.drop_last()).insert(s.last().0@, s.last().1)
    }
}

/// No id occurs twice.
pub open spec fn keys_unique(s: Seq<(String, CacheEntry)>) -> bool {
    forall|i: int, j: int| 0 <= i < j < s.len() ==> (#[trigger] s[i]).0@ != (#[trigger] s[j]).0@
}

/// The ids of `map_of(s)` are those of the pairs.
proof fn lemma_map_of_dom(s: Seq<(String, CacheEntry)>, id: Seq<char>)
    ensures
        map_of(s).contains_key(id) <==> exists|k: int| 0 <= k < s.len() && (#[trigger] s[k]).0@ == id,
    decreases s.len(),
{
    if s.len() > 0 {
        lemma_map_of_dom(s.drop_last(), id);
        if map_of(s.drop_last()).contains_key(id) {
            let k = choose|k: int| 0 <= k < s.drop_last().len() && (#[trigger] s.drop_last()[k]).0@ == id;
            assert(s[k] == s.drop_last()[k]);
        }
        if exists|k: int| 0 <= k < s.len() && (#[trigger] s[k]).0@ == id {
            let k = choose|k: int| 0 <= k < s.len() && (#[trigger] s[k]).0@ == id;
            if k < s.len() - 1 {
                assert(s.drop_last()[k] == s[k]);
            }
        }
    }
}

/// With distinct ids, the map gives the entry of the pair with that id.
proof fn lemma_map_of_at(s: Seq<(String, CacheEntry)>, k: int)
    requires
        keys_unique(s),
        0 <= k < s.len(),
    ensures
        map_of(s).contains_key(s[k].0@),
        map_of(s)[s[k].0@] == s[k].1,
    decreases s.len(),
{
    if k < s.len() - 1 {
        let t = s.drop_last();
        assert(t[k] == s[k]);
        assert(keys_unique(t));
        lemma_map_of_at(t, k);
        assert(s.last().0@ != s[k].0@);
    }
}

/// Replacing the entry of a pair whose id is `id` is inserting into the map.
proof fn lemma_map_of_update(s: Seq<(String, CacheEntry)>, k: int, p: (String, CacheEntry))
    requires
        keys_unique(s),
        0 <= k < s.len(),
        p.0@ == s[k].0@,
    ensures
        map_of(s.update(k, p)) =~= map_of(s).insert(p.0@, p.1),
    decreases s.len(),
{
    let u = s.update(k, p);
    if k == s.len() - 1 {
        assert(u.drop_last() =~= s.drop_last());
    } else {
        let t = s.drop_last();
        assert(u.drop_last() =~= t.update(k, p));
        assert(keys_unique(t));
        lemma_map_of_update(t, k, p);
        assert(s.last().0@ != s[k].0@);
    }
}

/// `probe`, asked about a file at `path`, can answer `answer`.
pub open spec fn probe_says<P: Fn(&String) -> bool>(probe: P, path: Seq<char>, answer: bool) -> bool {
    exists|s: String| s@ == path && #[trigger] call_ensures(probe, (&s,), answer)
}

/// The index of the audio cache: for each YouTube id, its cached file.
pub struct CacheIndex {
    entries: Vec<(String, CacheEntry)>,
}

impl View for CacheIndex {
    type V = Map<Seq<char>, CacheEntry>;

    closed spec fn view(&self) -> Map<Seq<char>, CacheEntry> {
        map_of(self.entries@)
    }
}

impl CacheIndex {
    #[verifier::type_invariant]
    spec fn ids_distinct(&self) -> bool {
        keys_unique(self.entries@)
    }

    /// The pairs of this index, in the order in which ids were first added.
    pub closed spec fn pairs(&self) -> Seq<(String, CacheEntry)> {
        self.entries@
    }

    /// An empty index.
    pub fn new() -> (r: Self)
        ensures
            r@ == Map::<Seq<char>, CacheEntry>::empty(),
    {
        CacheIndex { entries: Vec::new() }
    }

    fn position(&self, id: &str) -> (r: Option<usize>)
        ensures
            match r {
                Some(k) => k < self.entries@.len() && self.entries@[k as int].0@ == id@,
                None => forall|k: int| 0 <= k < self.entries@.len() ==> (#[trigger] self.entries@[k]).0@ != id@,
            },
    {
        let key = id.to_owned();
        let mut k: usize = 0;
        while k < self.entries.len()
            invariant
                k <= self.entries@.len(),
                key@ == id@,
                forall|j: int| 0 <= j < k ==> (#[trigger] self.entries@[j]).0@ != id@,
            decreases self.entries@.len() - k,
        {
            if self.entries[k].0 == key {
                return Some(k);
            }
            k = k + 1;
        }
        None
    }

    /// The entry recorded for `id`, if any.
    pub fn get(&self, id: &str) -> (r: Option<&CacheEntry>)
        ensures
            self@.contains_key(id@) ==> r == Some(&self@[id@]),
            !self@.contains_key(id@) ==> r is None,
    {
        proof {
            use_type_invariant(self);
            lemma_map_of_dom(self.entries@, id@);
        }
        match self.position(id) {
            Some(k) => {
                proof {
                    lemma_map_of_at(self.entries@, k as int);
                }
                Some(&self.entries[k].1)
            },
            None => None,
        }
    }

    /// Records `entry` for `id`, replacing what was recorded for it.
    pub fn insert(&mut self, id: String, entry: CacheEntry)
        ensures
            final(self)@ == old(self)@.insert(id@, entry),
    {
        proof {
            use_type_invariant(&*self);
        }
        let pos = self.position(id.as_str());
        let ghost before = self.entries@;
        let mut es: Vec<(String, CacheEntry)> = Vec::new();
        std::mem::swap(&mut es, &mut self.entries);
        assert(es@ == before);
        match pos {
            Some(k) => {
                let p = (id, entry);
                proof {
                    lemma_map_of_update(before, k as int, p);
                }
                es.set(k, p);
                assert(es@ == before.update(k as int, p));
                assert(keys_unique(es@)) by {
                    assert forall|i: int, j: int| 0 <= i < j < es@.len() implies (
                    #[trigger] es@[i]).0@ != (#[trigger] es@[j]).0@ by {
                        if i != k && j != k {
                            assert(es@[i] == before[i] && es@[j] == before[j]);
                        } else if i == k {
                            assert(es@[j] == before[j]);
                        } else {
                            assert(es@[i] == before[i]);
                        }
                    }
                }
            },
            None => {
                es.push((id, entry));
                assert(es@.drop_last() =~= before);
                assert(keys_unique(es@)) by {
                    assert forall|i: int, j: int| 0 <= i < j < es@.len() implies (
                    #[trigger] es@[i]).0@ != (#[trigger] es@[j]).0@ by {
                        assert(es@[i] == before[i]);
                        if j < before.len() {
                            assert(es@[j] == before[j]);
                        }
                    }
                }
            },
        }
        self.entries = es;
    }

    /// Each id with its entry, in the order in which ids were first added.
    pub fn pairs_ref(&self) -> (r: &Vec<(String, CacheEntry)>)
        ensures
            r@ == self.pairs(),
            map_of(r@) == self@,
            keys_unique(r@),
    {
        proof {
            use_type_invariant(self);
        }
        &self.entries
    }
}

impl AudioCache {
    /// The entry recorded for `id` and the file it points at, if the index
    /// has one (whether the file is there is for the caller to check).
    pub fn lookup(&self, index: &CacheIndex, id: &str) -> (r: Option<(CacheEntry, String)>)
        ensures
            index@.contains_key(id@) ==> (r matches Some((e, p)) && e == index@[id@]
                && p@ == path_join(self.root_text(), index@[id@].path@)),
            !index@.contains_key(id@) ==> r is None,
    {
        match index.get(id) {
            Some(e) => Some((e.clone(), self.absolute_path(e))),
            None => None,
        }
    }

    /// The entry for `id` and its file, when the index has one and
    /// `file_present` says that the file is there (a regular, non-empty file).
    pub fn get<P>(&self, index: &CacheIndex, id: &str, file_present: P) -> (r: Option<(CacheEntry, String)>)
        where
            P: Fn(&String) -> bool,
        requires
            forall|p: &String| call_requires(file_present, (p,)),
        ensures
            r matches Some((e, p)) ==> {
                &&& index@.contains_key(id@)
                &&& e == index@[id@]
                &&& p@ == path_join(self.root_text(), index@[id@].path@)
                &&& call_ensures(file_present, (&p,), true)
            },
            r is None ==> (index@.contains_key(id@) ==> probe_says(
                file_present,
                path_join(self.root_text(), index@[id@].path@),
                false,
            )),
    {
        match self.lookup(index, id) {
            Some((e, p)) => {
                let present = file_present(&p);
                if present {
                    Some((e, p))
                } else {
                    assert(call_ensures(file_present, (&p,), false));
                    None
                }
            },
            None => None,
        }
    }

    /// Whether `id` is cached: the index has it and its file is there.
    pub fn has<P>(&self, index: &CacheIndex, id: &str, file_present: P) -> (r: bool)
        where
            P: Fn(&String) -> bool,
        requires
            forall|p: &String| call_requires(file_present, (p,)),
        ensures
            r ==> index@.contains_key(id@) && probe_says(
                file_present,
                path_join(self.root_text(), index@[id@].path@),
                true,
            ),
            !r ==> (index@.contains_key(id@) ==> probe_says(
                file_present,
                path_join(self.root_text(), index@[id@].path@),
                false,
            )),
    {
        match self.get(index, id, file_present) {
            Some((_e, p)) => {
                assert(probe_says(file_present, path_join(self.root_text(), index@[id@].path@), true)) by {
                    assert(p@ == path_join(self.root_text(), index@[id@].path@));
                }
                true
            },
            None => false,
        }
    }

    /// Records in `index` the file just cached for `track`, and returns the
    /// entry.
    pub fn record(&self, index: &mut CacheIndex, track: &Track, file_bytes: u64, downloaded_at: String) -> (e: CacheEntry)
        ensures
            final(index)@ == old(index)@.insert(track.id@, e),
            e.path@ == track.id@ + ".opus"@,
            e.title == track.title,
            e.uploader == track.uploader,
            e.bitrate_kbps == DEFAULT_BITRATE_KBPS,
            e.codec@ == "opus"@,
            e.bytes == file_bytes,
            e.downloaded_at == downloaded_at,
    {
        let entry = new_entry(track, file_bytes, downloaded_at);
        index.insert(track.id.clone(), entry.clone());
        entry
    }
}

/// A lookup right after recording a track finds the new entry, which
/// points at the file that downloads write (`<root>/<id>.opus`); the other
/// ids keep their entries.
pub proof fn law_record_then_lookup(
    root: Seq<char>,
    before: Map<Seq<char>, CacheEntry>,
    id: Seq<char>,
    e: CacheEntry,
    other: Seq<char>,
)
    requires
        e.path@ == id + ".opus"@,
        other != id,
    ensures
        before.insert(id, e).contains_key(id),
        before.insert(id, e)[id] == e,
        path_join(root, before.insert(id, e)[id].path@) == path_join(root, id + ".opus"@),
        before.insert(id, e).contains_key(other) == before.contains_key(other),
        before.contains_key(other) ==> before.insert(id, e)[other] == before[other],
{
}

} // verus!
