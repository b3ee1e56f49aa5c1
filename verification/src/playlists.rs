//! Local playlists: names and file names, and the rules for appending to or
//! replacing a playlist's tracks.

use vstd::prelude::*;
use crate::error::{Result, YtcliError};
use crate::paths::{join_path, path_join};
use crate::state::{Stored, Track};
use crate::queue::{lemma_swapped_multiset, swap_items};
use crate::text::{
    chars_of, concat2, is_whitespace, is_ws, lemma_text_le_total, lemma_trim_end_at, lemma_trim_start_at, lemma_text_le_trans, lemma_trimmed_idempotent,
    range_equals, string_of, text_le, text_le_exec, trim, trimmed,
};

verus! {

broadcast use vstd::function::group_function_axioms;

/// The playlist used when none is named.
pub const DEFAULT_NAME: &'static str = "liked";

/// A playlist saved on disk.
#[derive(Debug, PartialEq, Eq)]
pub struct LocalPlaylist {
    pub name: String,
    pub created_at: String,
    pub updated_at: String,
    pub source: Option<String>,
    pub tracks: Vec<Track>,
}

impl Clone for LocalPlaylist {
    fn clone(&self) -> (r: Self)
        ensures
            r.name == self.name,
            r.created_at == self.created_at,
            r.updated_at == self.updated_at,
            r.source == self.source,
            r.tracks@ == self.tracks@,
    {
        let tracks = self.tracks.clone();
        assert forall|i: int| 0 <= i < tracks@.len() implies tracks@[i] == self.tracks@[i] by {
            assert(vstd::pervasive::cloned(self.tracks@[i], tracks@[i]));
        }
        assert(tracks@ =~= self.tracks@);
        let source = match &self.source {
            Some(s) => Some(s.clone()),
            None => None,
        };
        LocalPlaylist {
            name: self.name.clone(),
            created_at: self.created_at.clone(),
            updated_at: self.updated_at.clone(),
            source,
            tracks,
        }
    }
}

/// The directory that holds the playlist files.
pub struct PlaylistStore {
    root: String,
}

/// The characters allowed in a playlist name.
pub open spec fn name_char_ok(c: char) -> bool {
    ||| ('a' <= c && c <= 'z')
    ||| ('A' <= c && c <= 'Z')
    ||| ('0' <= c && c <= '9')
    ||| c == '_'
    ||| c == '-'
    ||| is_ws(c)
}

/// A valid playlist name: once trimmed, not empty and made of allowed
/// characters only (which rules out `.`, `..` and path separators).
pub open spec fn valid_name(name: Seq<char>) -> bool {
    let t = trimmed(name);
    t.len() > 0 && forall|i: int| 0 <= i < t.len() ==> name_char_ok(#[trigger] t[i])
}

/// Checks a playlist name; the error carries the trimmed name.
pub fn validate_name(name: &str) -> (r: Result<()>)
    ensures
        valid_name(name@) ==> r is Ok,
        !valid_name(name@) ==> (r matches Err(e) && e matches YtcliError::InvalidPlaylistName(n)
            && n@ == trimmed(name@)),
{
    let t = trim(name);
    let v = chars_of(t.as_str());
    if v.len() == 0 {
        return Err(YtcliError::InvalidPlaylistName(String::new()));
    }
    let mut i: usize = 0;
    while i < v.len()
        invariant
            i <= v@.len(),
            v@ == trimmed(name@),
            t@ == trimmed(name@),
            forall|j: int| 0 <= j < i ==> name_char_ok(#[trigger] v@[j]),
        decreases v@.len() - i,
    {
        let c = v[i];
        let ok = ('a' <= c && c <= 'z') || ('A' <= c && c <= 'Z') || ('0' <= c && c <= '9')
            || c == '_' || c == '-' || is_whitespace(c);
        if !ok {
            assert(!name_char_ok(v@[i as int]));
            assert(!valid_name(name@));
            return Err(YtcliError::InvalidPlaylistName(t));
        }
        i = i + 1;
    }
    Ok(())
}

/// The file-name character for a character of a valid name: white space
/// becomes `-` and capitals become lower case.
pub open spec fn slug_char(c: char) -> char {
    if is_ws(c) {
        '-'
    } else if 'A' <= c && c <= 'Z' {
        ((c as u8) + 32) as char
    } else {
        c
    }
}

/// The slug of a valid name: its trimmed text, character by character.
pub open spec fn slug_of(name: Seq<char>) -> Seq<char> {
    trimmed(name).map_values(|c: char| slug_char(c))
}

/// The file-name form of a playlist name. On a valid name this is what
/// lower-casing, turning white space into `-` and keeping `[a-z0-9_-]` gives.
pub fn slugify(name: &str) -> (r: Result<String>)
    ensures
        valid_name(name@) ==> (r matches Ok(s) && s@ == slug_of(name@)),
        !valid_name(name@) ==> (r matches Err(e) && e matches YtcliError::InvalidPlaylistName(n)
            && n@ == trimmed(name@)),
{
    validate_name(name)?;
    let t = trim(name);
    let v = chars_of(t.as_str());
    let mut out: Vec<char> = Vec::new();
    let mut i: usize = 0;
    while i < v.len()
        invariant
            i <= v@.len(),
            v@ == trimmed(name@),
            t@ == trimmed(name@),
            valid_name(name@),
            out@ == v@.take(i as int).map_values(|c: char| slug_char(c)),
        decreases v@.len() - i,
    {
        let c = v[i];
        let s = if is_whitespace(c) {
            '-'
        } else if 'A' <= c && c <= 'Z' {
            ((c as u8) + 32) as char
        } else {
            c
        };
        out.push(s);
        assert(out@ =~= v@.take(i + 1).map_values(|c: char| slug_char(c)));
        i = i + 1;
    }
    assert(v@.take(v@.len() as int) =~= v@);
    if out.len() == 0 {
        return Err(YtcliError::InvalidPlaylistName(t));
    }
    Ok(string_of(out.as_slice()))
}

/// Where `dirs::data_dir` puts the user's data directory, as text.
///
/// Trusted: calls `dirs::data_dir`, whose answer depends on the environment
/// and the platform; nothing is claimed of it.
#[verifier::external_body]
fn system_data_dir() -> Option<String> {
    dirs::data_dir().map(|p| p.to_string_lossy().into_owned())
}

impl PlaylistStore {
    /// The directory of this store.
    pub closed spec fn root_text(&self) -> Seq<char> {
        self.root@
    }

    /// A store rooted at `root`.
    pub fn at(root: String) -> (s: Self)
        ensures
            s.root_text() == root@,
    {
        PlaylistStore { root }
    }

    /// The store `<base>/ytcli/playlists` for the user's base data
    /// directory `base`, or an error when the platform has none.
    pub fn system_from(base: Option<String>) -> (r: Result<Self>)
        ensures
            base matches Some(b) ==> (r matches Ok(s) && s.root_text() == path_join(
                path_join(b@, "ytcli"@),
                "playlists"@,
            )),
            base is None ==> (r matches Err(e) && e is StateIo && e->StateIo_path@ == "(data_dir)"@
                && e->StateIo_detail@ == "dirs::data_dir() devolvió None"@),
    {
        match base {
            Some(b) => {
                let a = join_path(b.as_str(), "ytcli");
                let root = join_path(a.as_str(), "playlists");
                proof {
                    reveal_strlit("ytcli");
                    reveal_strlit("playlists");
                }
                Ok(PlaylistStore { root })
            },
            None => Err(YtcliError::StateIo {
                path: "(data_dir)".to_owned(),
                detail: "dirs::data_dir() devolvió None".to_owned(),
            }),
        }
    }

    /// The store under the user's data directory: `<data>/ytcli/playlists`
    /// (see [`PlaylistStore::system_from`]).
    pub fn system() -> (r: Result<Self>)
        ensures
            r matches Ok(s) ==> exists|base: Seq<char>|
                s.root_text() == path_join(path_join(base, "ytcli"@), "playlists"@),
            r matches Err(e) ==> e is StateIo && e->StateIo_path@ == "(data_dir)"@
                && e->StateIo_detail@ == "dirs::data_dir() devolvió None"@,
    {
        Self::system_from(system_data_dir())
    }

    /// The directory of this store.
    pub fn root(&self) -> (r: &str)
        ensures
            r@ == self.root_text(),
    {
        self.root.as_str()
    }

    /// The file of the playlist `name`: `<root>/<slug>.json`.
    pub fn path_for(&self, name: &str) -> (r: Result<String>)
        ensures
            valid_name(name@) ==> (r matches Ok(p) && p@ == path_join(
                self.root_text(),
                slug_of(name@) + ".json"@,
            )),
            !valid_name(name@) ==> (r matches Err(e) && e matches YtcliError::InvalidPlaylistName(n)
                && n@ == trimmed(name@)),
    {
        let slug = slugify(name)?;
        let file = concat2(slug.as_str(), ".json");
        Ok(join_path(self.root.as_str(), file.as_str()))
    }
}

/// Whether some track of `ts` has the id `id`.
pub open spec fn has_id(ts: Seq<Track>, id: Seq<char>) -> bool {
    exists|j: int| 0 <= j < ts.len() && (#[trigger] ts[j]).id@ == id
}

/// No two tracks of `ts` share an id.
pub open spec fn ids_unique(ts: Seq<Track>) -> bool {
    forall|i: int, j: int| 0 <= i < j < ts.len() ==> (#[trigger] ts[i]).id@ != (#[trigger] ts[j]).id@
}

/// `acc` followed by the tracks of `new` whose id is not there yet, each
/// checked against what has been appended before it.
pub open spec fn merged(acc: Seq<Track>, new: Seq<Track>) -> Seq<Track>
    decreases new.len(),
{
    if new.len() == 0 {
        acc
    } else {
        let m = merged(acc, new.drop_last());
        if has_id(m, new.last().id@) { m } else { m.push(new.last()) }
    }
}

/// Appends each track of `new` whose id `tracks` does not hold yet.
pub fn append_unique(tracks: &mut Vec<Track>, new: Vec<Track>)
    ensures
        final(tracks)@ == merged(old(tracks)@, new@),
{
    let ghost acc0 = tracks@;
    let mut i: usize = 0;
    while i < new.len()
        invariant
            i <= new@.len(),
            tracks@ == merged(acc0, new@.take(i as int)),
        decreases new@.len() - i,
    {
        let t = &new[i];
        let mut found = false;
        let mut k: usize = 0;
        while k < tracks.len()
            invariant
                k <= tracks@.len(),
                found == exists|j: int| 0 <= j < k && (#[trigger] tracks@[j]).id@ == t.id@,
            decreases tracks@.len() - k,
        {
            if tracks[k].id == t.id {
                found = true;
            }
            k = k + 1;
        }
        proof {
            assert(new@.take(i + 1).drop_last() =~= new@.take(i as int));
            assert(new@.take(i + 1).last() == new@[i as int]);
        }
        if !found {
            tracks.push(t.clone());
        }
        i = i + 1;
    }
    assert(new@.take(new@.len() as int) =~= new@);
}

/// Merging keeps every track that was there, in place and unchanged.
pub proof fn lemma_merged_prefix(acc: Seq<Track>, new: Seq<Track>)
    ensures
        merged(acc, new).len() >= acc.len(),
        merged(acc, new).subrange(0, acc.len() as int) == acc,
    decreases new.len(),
{
    if new.len() == 0 {
        assert(acc.subrange(0, acc.len() as int) =~= acc);
    } else {
        lemma_merged_prefix(acc, new.drop_last());
        let m = merged(acc, new.drop_last());
        assert(m.push(new.last()).subrange(0, acc.len() as int) =~= m.subrange(0, acc.len() as int));
    }
}

/// After merging, every id of `acc` and of `new` is present.
pub proof fn lemma_merged_has_ids(acc: Seq<Track>, new: Seq<Track>)
    ensures
        forall|x: Seq<char>| has_id(acc, x) ==> has_id(merged(acc, new), x),
        forall|k: int| 0 <= k < new.len() ==> has_id(merged(acc, new), (#[trigger] new[k]).id@),
    decreases new.len(),
{
    if new.len() > 0 {
        let n0 = new.drop_last();
        lemma_merged_has_ids(acc, n0);
        let m = merged(acc, n0);
        assert forall|x: Seq<char>| has_id(m, x) implies has_id(merged(acc, new), x) by {
            let j = choose|j: int| 0 <= j < m.len() && (#[trigger] m[j]).id@ == x;
            if !has_id(m, new.last().id@) {
                assert(m.push(new.last())[j] == m[j]);
            }
        }
        assert forall|k: int| 0 <= k < new.len() implies has_id(merged(acc, new), (#[trigger] new[k]).id@) by {
            if k < n0.len() {
                assert(new[k] == n0[k]);
                assert(has_id(m, n0[k].id@));
            } else {
                if !has_id(m, new.last().id@) {
                    assert(m.push(new.last())[m.len() as int] == new.last());
                }
            }
        }
    }
}

/// Merging into tracks with distinct ids gives tracks with distinct ids.
pub proof fn lemma_merged_unique(acc: Seq<Track>, new: Seq<Track>)
    requires
        ids_unique(acc),
    ensures
        ids_unique(merged(acc, new)),
    decreases new.len(),
{
    if new.len() > 0 {
        lemma_merged_unique(acc, new.drop_last());
        let m = merged(acc, new.drop_last());
        if !has_id(m, new.last().id@) {
            let m2 = m.push(new.last());
            assert forall|i: int, j: int| 0 <= i < j < m2.len() implies (#[trigger] m2[i]).id@
                != (#[trigger] m2[j]).id@ by {
                if j == m.len() {
                    assert(m2[i] == m[i]);
                    if m[i].id@ == new.last().id@ {
                        assert(has_id(m, new.last().id@));
                    }
                } else {
                    assert(m2[i] == m[i] && m2[j] == m[j]);
                }
            }
        }
    }
}

/// Appending to a playlist (`save`, `playlist --save`) never drops, moves
/// or replaces a track that was there (a second track with a known id is
/// ignored, so the first title stays), saves every id it was given, and
/// keeps ids distinct when they were distinct.
pub proof fn law_append_dedups_by_id(existing: Seq<Track>, new: Seq<Track>)
    ensures
        merged(existing, new).subrange(0, existing.len() as int) == existing,
        forall|k: int| 0 <= k < new.len() ==> has_id(merged(existing, new), (#[trigger] new[k]).id@),
        ids_unique(existing) ==> ids_unique(merged(existing, new)),
{
    lemma_merged_prefix(existing, new);
    lemma_merged_has_ids(existing, new);
    if ids_unique(existing) {
        lemma_merged_unique(existing, new);
    }
}

/// The tracks of `new`, in order, whose id is neither in `acc` nor
/// carried by an earlier track of `new`.
pub open spec fn fresh_tracks(acc: Seq<Track>, new: Seq<Track>) -> Seq<Track>
    decreases new.len(),
{
    if new.len() == 0 {
        Seq::empty()
    } else {
        let n0 = new.drop_last();
        let rest = fresh_tracks(acc, n0);
        if has_id(acc, new.last().id@) || has_id(n0, new.last().id@) {
            rest
        } else {
            rest.push(new.last())
        }
    }
}

/// Every id after merging was in `acc` or in `new`.
pub proof fn lemma_merged_ids_come_from_inputs(acc: Seq<Track>, new: Seq<Track>, x: Seq<char>)
    ensures
        has_id(merged(acc, new), x) ==> has_id(acc, x) || has_id(new, x),
    decreases new.len(),
{
    if new.len() > 0 {
        let n0 = new.drop_last();
        lemma_merged_ids_come_from_inputs(acc, n0, x);
        let m = merged(acc, n0);
        if has_id(merged(acc, new), x) {
            let j = choose|j: int| 0 <= j < merged(acc, new).len() && (#[trigger] merged(acc, new)[j]).id@ == x;
            if has_id(m, new.last().id@) || j < m.len() {
                if !has_id(m, new.last().id@) {
                    assert(m.push(new.last())[j] == m[j]);
                }
                assert(has_id(m, x));
                if has_id(n0, x) {
                    let k = choose|k: int| 0 <= k < n0.len() && (#[trigger] n0[k]).id@ == x;
                    assert(new[k] == n0[k]);
                }
            } else {
                assert(new[new.len() - 1] == new.last());
            }
        }
    }
}

/// Appending, in the words of the playlist design: the tracks that were
/// there, followed by the given tracks whose id is neither among them nor
/// carried by an earlier given track, in the order given.
pub proof fn law_append_is_old_then_fresh(acc: Seq<Track>, new: Seq<Track>)
    ensures
        merged(acc, new) == acc + fresh_tracks(acc, new),
    decreases new.len(),
{
    if new.len() == 0 {
        assert(acc + Seq::<Track>::empty() =~= acc);
    } else {
        let n0 = new.drop_last();
        let t = new.last();
        law_append_is_old_then_fresh(acc, n0);
        let m = merged(acc, n0);
        lemma_merged_ids_come_from_inputs(acc, n0, t.id@);
        lemma_merged_has_ids(acc, n0);
        if has_id(acc, t.id@) {
            assert(has_id(m, t.id@));
        } else if has_id(n0, t.id@) {
            let k = choose|k: int| 0 <= k < n0.len() && (#[trigger] n0[k]).id@ == t.id@;
            assert(has_id(m, n0[k].id@));
        } else {
            assert(!has_id(m, t.id@));
            assert((acc + fresh_tracks(acc, n0)).push(t) =~= acc + fresh_tracks(acc, n0).push(t));
        }
    }
}

/// The current time as RFC 3339 text in UTC, to the second, with `Z`.
///
/// Trusted: converts `SystemTime::now()` with chrono's
/// `From<SystemTime> for DateTime<Utc>`, which also takes a clock set
/// before 1970, and writes it with `to_rfc3339_opts(SecondsFormat::Secs,
/// true)`. The conversion fails only for a time hundreds of thousands of
/// years away, which the system clock cannot hold. The text depends on the
/// clock and nothing is claimed of it.
#[verifier::external_body]
fn now_rfc3339() -> String {
    let now = chrono::DateTime::<chrono::Utc>::from(std::time::SystemTime::now());
    now.to_rfc3339_opts(chrono::SecondsFormat::Secs, true)
}

impl PlaylistStore {
    /// The playlist `name` after appending `tracks` to it, to be saved at
    /// [`PlaylistStore::path_for`], given what loading it gave (`loaded`): a
    /// loaded playlist grows (tracks already there by id are skipped), a
    /// missing one is created, and any other load error is passed on.
    pub fn append_tracks(&self, name: &str, tracks: Vec<Track>, loaded: Result<LocalPlaylist>) -> (r: Result<
        LocalPlaylist,
    >)
        ensures
            !valid_name(name@) ==> (r matches Err(e) && e matches YtcliError::InvalidPlaylistName(n)
                && n@ == trimmed(name@)),
            valid_name(name@) ==> match loaded {
                Ok(pl) => r matches Ok(p) && p.name == pl.name && p.created_at == pl.created_at
                    && p.source == pl.source && p.tracks@ == merged(pl.tracks@, tracks@),
                Err(YtcliError::PlaylistNotFound(_)) => r matches Ok(p) && p.name@ == trimmed(name@)
                    && p.source is None && p.tracks@ == merged(Seq::empty(), tracks@),
                Err(e) => r matches Err(e2) && e2 == e,
            },
    {
        let display_name = trim(name);
        proof {
            lemma_trimmed_idempotent(name@);
        }
        validate_name(display_name.as_str())?;
        let mut pl = match loaded {
            Ok(existing) => existing,
            Err(YtcliError::PlaylistNotFound(_)) => {
                let now = now_rfc3339();
                LocalPlaylist {
                    name: display_name,
                    created_at: now.clone(),
                    updated_at: now,
                    source: None,
                    tracks: Vec::new(),
                }
            },
            Err(e) => return Err(e),
        };
        append_unique(&mut pl.tracks, tracks);
        pl.updated_at = now_rfc3339();
        Ok(pl)
    }

    /// Loads the playlist `name` from its file (`read` looks at it): a
    /// missing file is `PlaylistNotFound`, an unreadable one `StateIo`, and
    /// one that does not parse `Json`.
    pub fn load<F>(&self, name: &str, read: F) -> (r: Result<LocalPlaylist>)
        where
            F: FnOnce(&String) -> Stored<LocalPlaylist>,
        requires
            forall|p: &String| call_requires(read, (p,)),
        ensures
            !valid_name(name@) ==> (r matches Err(e) && e matches YtcliError::InvalidPlaylistName(n)
                && n@ == trimmed(name@)),
            valid_name(name@) ==> exists|p: String| {
                &&& p@ == path_join(self.root_text(), slug_of(name@) + ".json"@)
                &&& #[trigger] call_requires(read, (&p,))
                &&& (r matches Ok(pl) ==> call_ensures(read, (&p,), Stored::Present(pl)))
                &&& (r matches Err(e) ==> match e {
                    YtcliError::PlaylistNotFound(n) => n@ == trimmed(name@) && call_ensures(
                        read,
                        (&p,),
                        Stored::<LocalPlaylist>::Missing,
                    ),
                    YtcliError::StateIo { path, detail } => path == p && call_ensures(
                        read,
                        (&p,),
                        Stored::<LocalPlaylist>::Failed(detail),
                    ),
                    YtcliError::Json(m) => call_ensures(read, (&p,), Stored::<LocalPlaylist>::Corrupt(m)),
                    _ => false,
                })
            },
    {
        let path = self.path_for(name)?;
        assert(call_requires(read, (&path,)));
        let found = read(&path);
        let ghost f = found;
        match found {
            Stored::Missing => Err(YtcliError::PlaylistNotFound(trim(name))),
            Stored::Failed(d) => Err(YtcliError::StateIo { path: path.clone(), detail: d }),
            Stored::Corrupt(m) => Err(YtcliError::Json(m)),
            Stored::Present(pl) => {
                assert(f == Stored::Present(pl));
                Ok(pl)
            },
        }
    }

    /// Deletes the playlist `name`; `remove` removes its file and tells
    /// whether there was one (`None` when not) and how the removal went. A
    /// missing file is `PlaylistNotFound`, a refusal `StateIo`.
    pub fn delete<F>(&self, name: &str, remove: F) -> (r: Result<()>)
        where
            F: FnOnce(&String) -> Option<std::result::Result<(), String>>,
        requires
            forall|p: &String| call_requires(remove, (p,)),
        ensures
            !valid_name(name@) ==> (r matches Err(e) && e matches YtcliError::InvalidPlaylistName(n)
                && n@ == trimmed(name@)),
            valid_name(name@) ==> exists|p: String| {
                &&& p@ == path_join(self.root_text(), slug_of(name@) + ".json"@)
                &&& #[trigger] call_requires(remove, (&p,))
                &&& (r is Ok ==> call_ensures(remove, (&p,), Some(Ok::<(), String>(()))))
                &&& (r matches Err(e) ==> match e {
                    YtcliError::PlaylistNotFound(n) => n@ == trimmed(name@) && call_ensures(
                        remove,
                        (&p,),
                        None::<std::result::Result<(), String>>,
                    ),
                    YtcliError::StateIo { path, detail } => path == p && call_ensures(
                        remove,
                        (&p,),
                        Some(Err::<(), String>(detail)),
                    ),
                    _ => false,
                })
            },
    {
        let path = self.path_for(name)?;
        assert(call_requires(remove, (&path,)));
        let done = remove(&path);
        match done {
            None => Err(YtcliError::PlaylistNotFound(trim(name))),
            Some(Err(d)) => Err(YtcliError::StateIo { path: path.clone(), detail: d }),
            Some(Ok(u)) => Ok(u),
        }
    }

    /// A new empty playlist `name`, given what loading it gave (`loaded`):
    /// it must not exist yet (`PlaylistExists`), and any other load error is
    /// passed on.
    pub fn create(&self, name: &str, loaded: Result<LocalPlaylist>) -> (r: Result<LocalPlaylist>)
        ensures
            !valid_name(name@) ==> (r matches Err(e) && e matches YtcliError::InvalidPlaylistName(n)
                && n@ == trimmed(name@)),
            valid_name(name@) ==> match loaded {
                Ok(_) => r matches Err(e) && e matches YtcliError::PlaylistExists(n) && n@ == trimmed(name@),
                Err(YtcliError::PlaylistNotFound(_)) => r matches Ok(p) && p.name@ == trimmed(name@)
                    && p.source is None && p.tracks@.len() == 0 && p.created_at == p.updated_at,
                Err(e) => r matches Err(e2) && e2 == e,
            },
    {
        let display_name = trim(name);
        proof {
            lemma_trimmed_idempotent(name@);
        }
        validate_name(display_name.as_str())?;
        match loaded {
            Ok(_) => Err(YtcliError::PlaylistExists(display_name)),
            Err(YtcliError::PlaylistNotFound(_)) => {
                let now = now_rfc3339();
                Ok(LocalPlaylist {
                    name: display_name,
                    created_at: now.clone(),
                    updated_at: now,
                    source: None,
                    tracks: Vec::new(),
                })
            },
            Err(e) => Err(e),
        }
    }

    /// The playlist `name` with `track` appended unless it is there already;
    /// see [`PlaylistStore::append_tracks`].
    pub fn append_track(&self, name: &str, track: Track, loaded: Result<LocalPlaylist>) -> (r: Result<LocalPlaylist>)
        ensures
            !valid_name(name@) ==> (r matches Err(e) && e matches YtcliError::InvalidPlaylistName(n)
                && n@ == trimmed(name@)),
            valid_name(name@) ==> match loaded {
                Ok(pl) => r matches Ok(p) && p.name == pl.name && p.created_at == pl.created_at
                    && p.source == pl.source && p.tracks@ == merged(pl.tracks@, seq![track]),
                Err(YtcliError::PlaylistNotFound(_)) => r matches Ok(p) && p.name@ == trimmed(name@)
                    && p.source is None && p.tracks@ == seq![track],
                Err(e) => r matches Err(e2) && e2 == e,
            },
    {
        let mut v: Vec<Track> = Vec::new();
        v.push(track);
        let r = self.append_tracks(name, v, loaded);
        proof {
            reveal_with_fuel(merged, 2);
            assert(v@ =~= seq![track]);
            assert(merged(Seq::<Track>::empty(), seq![track]) =~= seq![track]);
        }
        r
    }

    /// The playlist `name` with its tracks replaced by `tracks` and its source
    /// set, to be saved at [`PlaylistStore::path_for`], given what loading it
    /// gave (`loaded`): a loaded playlist keeps its creation time, a missing
    /// one is created, and any other load error is passed on.
    pub fn replace_tracks(
        &self,
        name: &str,
        tracks: Vec<Track>,
        source: Option<String>,
        loaded: Result<LocalPlaylist>,
    ) -> (r: Result<LocalPlaylist>)
        ensures
            !valid_name(name@) ==> (r matches Err(e) && e matches YtcliError::InvalidPlaylistName(n)
                && n@ == trimmed(name@)),
            valid_name(name@) ==> match loaded {
                Ok(pl) => r matches Ok(p) && p.name@ == trimmed(name@) && p.created_at == pl.created_at
                    && p.source == source && p.tracks == tracks,
                Err(YtcliError::PlaylistNotFound(_)) => r matches Ok(p) && p.name@ == trimmed(name@)
                    && p.source == source && p.tracks == tracks,
                Err(e) => r matches Err(e2) && e2 == e,
            },
    {
        let display_name = trim(name);
        proof {
            lemma_trimmed_idempotent(name@);
        }
        validate_name(display_name.as_str())?;
        let now = now_rfc3339();
        let created_at = match loaded {
            Ok(existing) => existing.created_at,
            Err(YtcliError::PlaylistNotFound(_)) => now.clone(),
            Err(e) => return Err(e),
        };
        Ok(LocalPlaylist { name: display_name, created_at, updated_at: now, source, tracks })
    }
}


/// Whether a file name has the extension `json` (as `Path::extension`
/// reads it: after the last dot, which must not start the name).
pub open spec fn has_json_extension(name: Seq<char>) -> bool {
    name.len() > 5 && name.skip(name.len() - 5) == ".json"@
}

/// Whether a file of the store's directory holds a playlist.
pub fn is_playlist_file(name: &str) -> (r: bool)
    ensures
        r == has_json_extension(name@),
{
    let v = chars_of(name);
    let ext = chars_of(".json");
    proof {
        reveal_strlit(".json");
    }
    if v.len() <= 5 {
        return false;
    }
    let r = range_equals(&v, v.len() - 5, v.len(), &ext);
    assert(v@.subrange(v@.len() - 5, v@.len() as int) =~= v@.skip(v@.len() - 5));
    r
}

/// Whether a listing is in the order of its names.
pub open spec fn listing_sorted(s: Seq<(String, usize)>) -> bool {
    forall|a: int, b: int| 0 <= a < b < s.len() ==> text_le(#[trigger] s[a].0@, #[trigger] s[b].0@)
}

/// The listing of the store, `(name, number of tracks)` per playlist,
/// put in the order of the names.
pub fn sort_listing(v: Vec<(String, usize)>) -> (r: Vec<(String, usize)>)
    ensures
        listing_sorted(r@),
        r@.to_multiset() == v@.to_multiset(),
{
    let mut v = v;
    let n = v.len();
    if n == 0 {
        return v;
    }
    let ghost orig = v@.to_multiset();
    let mut i: usize = 1;
    while i < n
        invariant
            n == v@.len(),
            1 <= i <= n,
            v@.to_multiset() == orig,
            forall|a: int, b: int| 0 <= a < b < i ==> text_le(#[trigger] v@[a].0@, #[trigger] v@[b].0@),
        decreases n - i,
    {
        let mut j: usize = i;
        while j > 0 && !text_le_exec(v[j - 1].0.as_str(), v[j].0.as_str())
            invariant
                n == v@.len(),
                1 <= i < n,
                j <= i,
                v@.to_multiset() == orig,
                forall|a: int, b: int| 0 <= a < b < j ==> text_le(#[trigger] v@[a].0@, #[trigger] v@[b].0@),
                forall|a: int, b: int| j <= a < b <= i ==> text_le(#[trigger] v@[a].0@, #[trigger] v@[b].0@),
                forall|a: int, b: int| 0 <= a < j && j < b <= i ==> text_le(#[trigger] v@[a].0@, #[trigger] v@[b].0@),
            decreases j,
        {
            let ghost before = v@;
            proof {
                lemma_text_le_total(before[j - 1].0@, before[j as int].0@);
            }
            swap_items(&mut v, j - 1, j);
            proof {
                lemma_swapped_multiset(before, j - 1, j as int);
                let x = before[j as int];
                let y = before[j - 1];
                assert(v@[j - 1] == x);
                assert(v@[j as int] == y);
                assert(text_le(x.0@, y.0@));
                assert forall|a: int, b: int| j - 1 <= a < b <= i implies text_le(#[trigger] v@[a].0@, #[trigger] v@[b].0@) by {
                    if a == j - 1 {
                        if b == j {
                        } else {
                            assert(v@[b] == before[b]);
                            assert(text_le(before[j as int].0@, before[b].0@));
                        }
                    } else {
                        assert(a >= j);
                        if a == j {
                            assert(v@[b] == before[b]);
                            assert(text_le(before[j - 1].0@, before[b].0@));
                        } else {
                            assert(v@[a] == before[a]);
                            assert(v@[b] == before[b]);
                        }
                    }
                }
                assert forall|a: int, b: int| 0 <= a < j - 1 && j - 1 < b <= i implies text_le(#[trigger] v@[a].0@, #[trigger] v@[b].0@) by {
                    assert(v@[a] == before[a]);
                    if b == j {
                        assert(text_le(before[a].0@, before[j - 1].0@));
                    } else {
                        assert(v@[b] == before[b]);
                    }
                }
                assert forall|a: int, b: int| 0 <= a < b < j - 1 implies text_le(#[trigger] v@[a].0@, #[trigger] v@[b].0@) by {
                    assert(v@[a] == before[a]);
                    assert(v@[b] == before[b]);
                }
            }
            j = j - 1;
        }
        proof {
            assert forall|a: int, b: int| 0 <= a < b < i + 1 implies text_le(#[trigger] v@[a].0@, #[trigger] v@[b].0@) by {
                if b < j {
                } else if a >= j {
                } else if b > j {
                } else {
                    assert(b == j && j > 0);
                    assert(text_le(v@[j - 1].0@, v@[j as int].0@));
                    if a < j - 1 {
                        assert(text_le(v@[a].0@, v@[j - 1].0@));
                        lemma_text_le_trans(v@[a].0@, v@[j - 1].0@, v@[j as int].0@);
                    }
                }
            }
        }
        i = i + 1;
    }
    v
}

/// The characters that a playlist file name is made of.
pub open spec fn slug_safe_char(c: char) -> bool {
    ||| ('a' <= c && c <= 'z')
    ||| ('0' <= c && c <= '9')
    ||| c == '_'
    ||| c == '-'
}

/// The file of a valid playlist name stays inside the store: its slug is
/// not empty and holds only `[a-z0-9_-]`, so no separator and no dot
/// (neither `.` nor `..`).
pub proof fn law_slug_stays_in_store(name: Seq<char>)
    requires
        valid_name(name),
    ensures
        slug_of(name).len() > 0,
        forall|i: int| 0 <= i < slug_of(name).len() ==> slug_safe_char(#[trigger] slug_of(name)[i]),
{
    let t = trimmed(name);
    assert forall|i: int| 0 <= i < slug_of(name).len() implies slug_safe_char(#[trigger] slug_of(name)[i]) by {
        let c = t[i];
        assert(name_char_ok(c));
        assert(slug_of(name)[i] == slug_char(c));
        if !is_ws(c) && 'A' <= c && c <= 'Z' {
            assert(65 <= (c as u8) <= 90);
        }
    }
}

/// A slug is already in file-name form: it is itself a valid name, and
/// turning it into a slug again gives it back unchanged.
pub proof fn law_slug_idempotent(name: Seq<char>)
    requires
        valid_name(name),
    ensures
        valid_name(slug_of(name)),
        slug_of(slug_of(name)) == slug_of(name),
{
    let s = slug_of(name);
    law_slug_stays_in_store(name);
    assert forall|j: int| 0 <= j < s.len() implies !is_ws(#[trigger] s[j]) by {
        assert(slug_safe_char(s[j]));
    }
    lemma_trim_start_at(s, 0);
    assert(s.subrange(0, s.len() as int) =~= s);
    lemma_trim_end_at(s, s.len() as int);
    assert(trimmed(s) == s);
    assert forall|i: int| 0 <= i < s.len() implies name_char_ok(#[trigger] trimmed(s)[i]) by {
        assert(slug_safe_char(s[i]));
    }
    assert forall|i: int| 0 <= i < s.len() implies #[trigger] slug_of(s)[i] == s[i] by {
        assert(slug_safe_char(s[i]));
        assert(slug_of(s)[i] == slug_char(trimmed(s)[i]));
    }
    assert(slug_of(s) =~= s);
}

/// `playlist-rm` deletes only when confirmed with `--yes`.
pub fn confirm_removal(name: &str, yes: bool) -> (r: Result<()>)
    ensures
        yes ==> r is Ok,
        !yes ==> (r matches Err(e) && e matches YtcliError::PlaylistRmNeedsYes(n) && n@ == name@),
{
    if yes {
        Ok(())
    } else {
        Err(YtcliError::PlaylistRmNeedsYes(name.to_owned()))
    }
}

/// How `playlist --save` stores the fetched tracks.
#[derive(Debug)]
pub enum SaveMode {
    /// Appended to this playlist (tracks already there are skipped).
    Append(String),
    /// In place of this playlist's tracks, with the link as its source.
    Replace(String),
}

/// `--save` alone appends to the default playlist; `--save NAME` replaces
/// the tracks of `NAME`.
pub fn save_mode(name: Option<String>) -> (m: SaveMode)
    ensures
        match name {
            None => m matches SaveMode::Append(n) && n@ == DEFAULT_NAME@,
            Some(x) => m matches SaveMode::Replace(n) && n == x,
        },
{
    match name {
        None => SaveMode::Append(DEFAULT_NAME.to_owned()),
        Some(x) => SaveMode::Replace(x),
    }
}

/// `p` is what `playlist --save` makes of the target playlist, as it was
/// loaded (`loaded`), with the fetched `tracks` of the link `url`: without
/// a name, the default playlist grows by the tracks it lacks (see
/// [`merged`]); with a name, that playlist holds exactly `tracks`, with the
/// link as its source.
pub open spec fn saved_fetched(
    target: Option<String>,
    tracks: Seq<Track>,
    url: Seq<char>,
    loaded: Result<LocalPlaylist>,
    p: LocalPlaylist,
) -> bool {
    match target {
        None => match loaded {
            Ok(pl) => p.name == pl.name && p.created_at == pl.created_at && p.source == pl.source
                && p.tracks@ == merged(pl.tracks@, tracks),
            Err(_) => p.name@ == trimmed(DEFAULT_NAME@) && p.source is None && p.tracks@ == merged(
                Seq::empty(),
                tracks,
            ),
        },
        Some(n) => p.name@ == trimmed(n@) && (p.source matches Some(s) && s@ == url) && p.tracks@ == tracks
            && (loaded matches Ok(pl) ==> p.created_at == pl.created_at),
    }
}

impl PlaylistStore {
    /// `playlist --save`: the fetched `tracks` of `url` go to the playlist
    /// that `target` names (see [`save_mode`]). `load` reads it under its
    /// trimmed name, and `write` saves what [`PlaylistStore::append_tracks`]
    /// or [`PlaylistStore::replace_tracks`] made of it.
    pub fn save_fetched<L, W>(
        &self,
        target: Option<String>,
        tracks: Vec<Track>,
        url: &str,
        load: L,
        write: W,
    ) -> (r: Result<LocalPlaylist>)
        where
            L: FnOnce(&String) -> Result<LocalPlaylist>,
            W: FnOnce(&LocalPlaylist) -> Result<()>,
        requires
            forall|n: &String| call_requires(load, (n,)),
            forall|p: &LocalPlaylist| call_requires(write, (p,)),
        ensures
            r matches Ok(p) ==> call_ensures(write, (&p,), Ok::<(), YtcliError>(())) && exists|
                q: String,
                loaded: Result<LocalPlaylist>,
            |
                q@ == trimmed(
                    match target {
                        Some(n) => n@,
                        None => DEFAULT_NAME@,
                    },
                ) && #[trigger] call_ensures(load, (&q,), loaded) && saved_fetched(target, tracks@, url@, loaded, p),
            r matches Err(e) ==> {
                ||| e is InvalidPlaylistName
                ||| exists|q: String| #[trigger] call_ensures(load, (&q,), Err::<LocalPlaylist, YtcliError>(e))
                ||| exists|p: LocalPlaylist| #[trigger] call_ensures(write, (&p,), Err::<(), YtcliError>(e))
            },
    {
        let ghost t = target;
        let mode = save_mode(target);
        let saved = match mode {
            SaveMode::Append(name) => {
                let key = trim(name.as_str());
                let loaded = load(&key);
                let ghost lg = loaded;
                let r = self.append_tracks(name.as_str(), tracks, loaded);
                proof {
                    assert(call_ensures(load, (&key,), lg));
                    if let Err(e) = lg {
                        if r is Err && !(r->Err_0 is InvalidPlaylistName) {
                            assert(call_ensures(load, (&key,), Err::<LocalPlaylist, YtcliError>(e)));
                        }
                    }
                }
                match r {
                    Ok(p) => {
                        assert(saved_fetched(t, tracks@, url@, lg, p));
                        p
                    },
                    Err(e) => return Err(e),
                }
            },
            SaveMode::Replace(name) => {
                let key = trim(name.as_str());
                let loaded = load(&key);
                let ghost lg = loaded;
                let r = self.replace_tracks(name.as_str(), tracks, Some(url.to_owned()), loaded);
                proof {
                    assert(call_ensures(load, (&key,), lg));
                    if let Err(e) = lg {
                        if r is Err && !(r->Err_0 is InvalidPlaylistName) {
                            assert(call_ensures(load, (&key,), Err::<LocalPlaylist, YtcliError>(e)));
                        }
                    }
                }
                match r {
                    Ok(p) => {
                        assert(saved_fetched(t, tracks@, url@, lg, p));
                        p
                    },
                    Err(e) => return Err(e),
                }
            },
        };
        let res = write(&saved);
        match res {
            Ok(u) => {
                assert(res == Ok::<(), YtcliError>(u));
                Ok(saved)
            },
            Err(e) => Err(e),
        }
    }
}

} // verus!
