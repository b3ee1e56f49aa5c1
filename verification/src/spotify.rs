//! Spotify links: recognising playlist, album and track URLs or URIs, and
//! the YouTube query that mirrors a Spotify track.

use vstd::prelude::*;
use crate::error::{Result, YtcliError};
use crate::state::Track;
use crate::text::{
    chars_of, concat2, concat3, concat5, join_strings, join_with, texts, trim, find_char, find_char_in, range_equals, starts_with, starts_with_in,
    string_of_range, strip_all, strip_all_in, trim_bounds, trimmed, lemma_find_char_at, lemma_find_char_bounds,
};

verus! {

/// What a Spotify link points at.
#[derive(Debug, Clone, Copy, PartialEq, Eq, Structural)]
pub enum SpotifyKind {
    Playlist,
    Album,
    Track,
}

/// A Spotify resource: its kind and its id.
#[derive(Debug, PartialEq, Eq)]
pub struct SpotifyRef {
    pub kind: SpotifyKind,
    pub id: String,
}

impl Clone for SpotifyRef {
    fn clone(&self) -> (r: Self)
        ensures
            r == *self,
    {
        SpotifyRef { kind: self.kind, id: self.id.clone() }
    }
}

/// The kind named by a path or URI segment.
pub open spec fn kind_named(k: Seq<char>) -> Option<SpotifyKind> {
    if k == "playlist"@ {
        Some(SpotifyKind::Playlist)
    } else if k == "album"@ {
        Some(SpotifyKind::Album)
    } else if k == "track"@ {
        Some(SpotifyKind::Track)
    } else {
        None
    }
}

/// The part of a `spotify:` URI after the scheme: `kind:id`, exactly two
/// parts, with a non-empty id.
pub open spec fn parse_uri_rest(rest: Seq<char>) -> Option<(SpotifyKind, Seq<char>)> {
    let i = find_char(rest, ':');
    if i >= rest.len() {
        None
    } else {
        let tail = rest.subrange(i + 1, rest.len() as int);
        let j = find_char(tail, ':');
        let id = tail.subrange(0, j);
        if id.len() == 0 || j < tail.len() {
            None
        } else {
            match kind_named(rest.subrange(0, i)) {
                Some(k) => Some((k, id)),
                None => None,
            }
        }
    }
}

/// `rest` is `name`, one `:` and `id`, with no other `:` in it.
pub open spec fn split_at_colon(rest: Seq<char>, name: Seq<char>, id: Seq<char>) -> bool {
    &&& rest == name + seq![':'] + id
    &&& !name.contains(':')
    &&& !id.contains(':')
}

/// The `spotify:` URI rule read as a split at `:`: the part after the
/// scheme is accepted exactly when it splits into two pieces, a known kind
/// and a non-empty id; so `track:abc:extra`, `track:` and `artist:x` are
/// refused.
pub proof fn law_uri_rest_splits_in_two(rest: Seq<char>, name: Seq<char>, id: Seq<char>)
    ensures
        split_at_colon(rest, name, id) ==> parse_uri_rest(rest) == (if id.len() > 0 && kind_named(name) is Some {
            Some((kind_named(name)->0, id))
        } else {
            None
        }),
        parse_uri_rest(rest) matches Some((k, x)) ==> exists|n: Seq<char>|
            #[trigger] split_at_colon(rest, n, x) && kind_named(n) == Some(k) && x.len() > 0,
{
    if split_at_colon(rest, name, id) {
        let i = name.len() as int;
        assert forall|j: int| 0 <= j < i implies #[trigger] rest[j] != ':' by {
            assert(rest[j] == name[j]);
            if name[j] == ':' {
                assert(name.contains(':'));
            }
        }
        assert(rest[i] == ':');
        lemma_find_char_at(rest, ':', i);
        let tail = rest.subrange(i + 1, rest.len() as int);
        assert(tail =~= id);
        assert forall|j: int| 0 <= j < id.len() implies #[trigger] id[j] != ':' by {
            if id[j] == ':' {
                assert(id.contains(':'));
            }
        }
        lemma_find_char_at(id, ':', id.len() as int);
        assert(id.subrange(0, id.len() as int) =~= id);
        assert(rest.subrange(0, i) =~= name);
    }
    if parse_uri_rest(rest) is Some {
        let i = find_char(rest, ':');
        lemma_find_char_bounds(rest, ':');
        let n = rest.subrange(0, i);
        let tail = rest.subrange(i + 1, rest.len() as int);
        lemma_find_char_bounds(tail, ':');
        let j = find_char(tail, ':');
        assert(j == tail.len());
        let x = tail.subrange(0, j);
        assert(x =~= tail);
        assert(rest =~= n + seq![':'] + x);
        assert(!n.contains(':')) by {
            if n.contains(':') {
                let q = choose|q: int| 0 <= q < n.len() && n[q] == ':';
                assert(rest[q] == ':');
            }
        }
        assert(!x.contains(':')) by {
            if x.contains(':') {
                let q = choose|q: int| 0 <= q < x.len() && x[q] == ':';
                assert(tail[q] == ':');
            }
        }
        assert(split_at_colon(rest, n, x));
        assert(i < rest.len());
        assert(kind_named(n) is Some);
        assert(parse_uri_rest(rest) == Some((kind_named(n)->0, x)));
        assert(x.len() > 0);
        let r = parse_uri_rest(rest)->0;
        assert(r.1 == x && r.0 == kind_named(n)->0);
        assert(split_at_colon(rest, n, r.1) && kind_named(n) == Some(r.0) && r.1.len() > 0);
    }
}

/// An `open.spotify.com/<kind>/<id>` link, after any repeated `https://`
/// and then `http://` prefixes; the query string is ignored.
pub open spec fn parse_url_text(t: Seq<char>) -> Option<(SpotifyKind, Seq<char>)> {
    let u = strip_all(strip_all(t, "https://"@), "http://"@);
    let host = "open.spotify.com/"@;
    if !starts_with(u, host) {
        None
    } else {
        let rest = u.subrange(host.len() as int, u.len() as int);
        let path = rest.subrange(0, find_char(rest, '?'));
        let i = find_char(path, '/');
        if i >= path.len() {
            None
        } else {
            let tail = path.subrange(i + 1, path.len() as int);
            let id = tail.subrange(0, find_char(tail, '/'));
            if id.len() == 0 {
                None
            } else {
                match kind_named(path.subrange(0, i)) {
                    Some(k) => Some((k, id)),
                    None => None,
                }
            }
        }
    }
}

/// The resource that a Spotify URL or URI names, if it names one.
pub open spec fn spotify_ref_of(input: Seq<char>) -> Option<(SpotifyKind, Seq<char>)> {
    let t = trimmed(input);
    if starts_with(t, "spotify:"@) {
        parse_uri_rest(t.subrange(8, t.len() as int))
    } else {
        parse_url_text(t)
    }
}

/// The message for an input that is not a Spotify link.
pub open spec fn invalid_spotify_text(input: Seq<char>) -> Seq<char> {
    "URL o URI de Spotify no válida: "@ + input
}

/// The error for an input that is not a Spotify link.
pub fn invalid_spotify_url(input: &str) -> (e: YtcliError)
    ensures
        e matches YtcliError::Spotify(m) && m@ == invalid_spotify_text(input@),
{
    YtcliError::Spotify(concat2("URL o URI de Spotify no válida: ", input))
}

fn kind_in(v: &Vec<char>, lo: usize, hi: usize) -> (r: Option<SpotifyKind>)
    requires
        lo <= hi <= v@.len(),
    ensures
        r == kind_named(v@.subrange(lo as int, hi as int)),
{
    let playlist = chars_of("playlist");
    let album = chars_of("album");
    let track = chars_of("track");
    if range_equals(v, lo, hi, &playlist) {
        Some(SpotifyKind::Playlist)
    } else if range_equals(v, lo, hi, &album) {
        Some(SpotifyKind::Album)
    } else if range_equals(v, lo, hi, &track) {
        Some(SpotifyKind::Track)
    } else {
        None
    }
}

/// `parse_uri_rest` on `v[lo..hi]`, giving the id as a range of `v`.
fn parse_uri_in(v: &Vec<char>, lo: usize, hi: usize) -> (r: Option<(SpotifyKind, usize, usize)>)
    requires
        lo <= hi <= v@.len(),
    ensures
        match parse_uri_rest(v@.subrange(lo as int, hi as int)) {
            Some((k, id)) => r matches Some((k2, a, b)) && k2 == k && a <= b <= v@.len()
                && v@.subrange(a as int, b as int) == id,
            None => r is None,
        },
{
    let ghost rest = v@.subrange(lo as int, hi as int);
    let i = find_char_in(v, lo, hi, ':');
    if i >= hi {
        return None;
    }
    let j = find_char_in(v, i + 1, hi, ':');
    proof {
        let tail = rest.subrange(i - lo + 1, rest.len() as int);
        assert(tail =~= v@.subrange(i + 1, hi as int));
        assert(tail.subrange(0, j - i - 1) =~= v@.subrange(i + 1, j as int));
        assert(rest.subrange(0, i - lo) =~= v@.subrange(lo as int, i as int));
    }
    if j == i + 1 || j < hi {
        return None;
    }
    match kind_in(v, lo, i) {
        Some(k) => Some((k, i + 1, j)),
        None => None,
    }
}

/// `parse_url_text` on `v[lo..hi]`, giving the id as a range of `v`.
fn parse_url_in(v: &Vec<char>, lo: usize, hi: usize) -> (r: Option<(SpotifyKind, usize, usize)>)
    requires
        lo <= hi <= v@.len(),
    ensures
        match parse_url_text(v@.subrange(lo as int, hi as int)) {
            Some((k, id)) => r matches Some((k2, a, b)) && k2 == k && a <= b <= v@.len()
                && v@.subrange(a as int, b as int) == id,
            None => r is None,
        },
{
    let https = chars_of("https://");
    let http = chars_of("http://");
    let host = chars_of("open.spotify.com/");
    let u0 = strip_all_in(v, lo, hi, &https);
    let u1 = strip_all_in(v, u0, hi, &http);
    if !starts_with_in(v, u1, hi, &host) {
        return None;
    }
    let r0 = u1 + host.len();
    let q = find_char_in(v, r0, hi, '?');
    let i = find_char_in(v, r0, q, '/');
    proof {
        let u = v@.subrange(u1 as int, hi as int);
        let rest = u.subrange(host@.len() as int, u.len() as int);
        assert(rest =~= v@.subrange(r0 as int, hi as int));
        assert(rest.subrange(0, q - r0) =~= v@.subrange(r0 as int, q as int));
    }
    if i >= q {
        return None;
    }
    let e = find_char_in(v, i + 1, q, '/');
    proof {
        let path = v@.subrange(r0 as int, q as int);
        let tail = path.subrange(i - r0 + 1, path.len() as int);
        assert(tail =~= v@.subrange(i + 1, q as int));
        assert(tail.subrange(0, e - i - 1) =~= v@.subrange(i + 1, e as int));
        assert(path.subrange(0, i - r0) =~= v@.subrange(r0 as int, i as int));
    }
    if e == i + 1 {
        return None;
    }
    match kind_in(v, r0, i) {
        Some(k) => Some((k, i + 1, e)),
        None => None,
    }
}

/// Reads a Spotify playlist, album or track link, either
/// `https://open.spotify.com/<kind>/<id>[?...]` or `spotify:<kind>:<id>`.
pub fn parse_spotify_ref(input: &str) -> (r: Result<SpotifyRef>)
    ensures
        match spotify_ref_of(input@) {
            Some((k, id)) => r matches Ok(sr) && sr.kind == k && sr.id@ == id,
            None => r matches Err(e) && e matches YtcliError::Spotify(m)
                && m@ == invalid_spotify_text(input@),
        },
{
    let v = chars_of(input);
    let (a, b) = trim_bounds(&v, 0, v.len());
    let scheme = chars_of("spotify:");
    proof {
        reveal_strlit("spotify:");
        assert(v@.subrange(0, v@.len() as int) =~= v@);
    }
    let found = if starts_with_in(&v, a, b, &scheme) {
        proof {
            let t = v@.subrange(a as int, b as int);
            assert(t.subrange(8, t.len() as int) =~= v@.subrange(a + 8, b as int));
        }
        parse_uri_in(&v, a + scheme.len(), b)
    } else {
        parse_url_in(&v, a, b)
    };
    match found {
        Some((kind, x, y)) => Ok(SpotifyRef { kind, id: string_of_range(&v, x, y) }),
        None => Err(invalid_spotify_url(input)),
    }
}

/// Whether `input` is a Spotify link that [`parse_spotify_ref`] accepts.
pub fn is_spotify_url(input: &str) -> (r: bool)
    ensures
        r == spotify_ref_of(input@) is Some,
{
    parse_spotify_ref(input).is_ok()
}

/// The trimmed texts of `a` that are not empty, in order.
pub open spec fn trimmed_words(a: Seq<String>) -> Seq<Seq<char>>
    decreases a.len(),
{
    if a.len() == 0 {
        seq![]
    } else {
        let rest = trimmed_words(a.drop_last());
        let t = trimmed(a.last()@);
        if t.len() == 0 { rest } else { rest.push(t) }
    }
}

/// The YouTube query for a Spotify track: its artists (trimmed, empty ones
/// left out, joined by spaces), a space, and its trimmed title; either part
/// alone when the other is empty.
pub open spec fn mirror_query(title: Seq<char>, artists: Seq<String>) -> Seq<char> {
    let artist = join_with(trimmed_words(artists), seq![' ']);
    let t = trimmed(title);
    if artist.len() == 0 {
        t
    } else if t.len() == 0 {
        artist
    } else {
        artist + seq![' '] + t
    }
}

/// Joining non-empty words gives an empty text only when there are none.
proof fn lemma_join_nonempty(ws: Seq<Seq<char>>, sep: Seq<char>)
    requires
        forall|i: int| 0 <= i < ws.len() ==> (#[trigger] ws[i]).len() > 0,
    ensures
        (join_with(ws, sep).len() == 0) == (ws.len() == 0),
    decreases ws.len(),
{
    if ws.len() > 1 {
        assert(ws.last() == ws[ws.len() - 1]);
    } else if ws.len() == 1 {
        assert(ws[0].len() > 0);
    }
}

/// Every word of `trimmed_words` is non-empty.
proof fn lemma_trimmed_words_nonempty(a: Seq<String>)
    ensures
        forall|i: int| 0 <= i < trimmed_words(a).len() ==> (#[trigger] trimmed_words(a)[i]).len() > 0,
    decreases a.len(),
{
    if a.len() > 0 {
        lemma_trimmed_words_nonempty(a.drop_last());
        let rest = trimmed_words(a.drop_last());
        assert forall|i: int| 0 <= i < trimmed_words(a).len() implies (#[trigger] trimmed_words(
            a,
        )[i]).len() > 0 by {
            if i < rest.len() {
                assert(trimmed_words(a)[i] == rest[i]);
            }
        }
    }
}

/// The query used to find a Spotify track on YouTube.
pub fn mirror_search_query(title: &str, artists: &[String]) -> (r: String)
    ensures
        r@ == mirror_query(title@, artists@),
{
    let mut words: Vec<String> = Vec::new();
    let mut i: usize = 0;
    while i < artists.len()
        invariant
            i <= artists@.len(),
            texts(words@) == trimmed_words(artists@.take(i as int)),
        decreases artists@.len() - i,
    {
        let t = trim(artists[i].as_str());
        proof {
            assert(artists@.take(i + 1).drop_last() =~= artists@.take(i as int));
            assert(artists@.take(i + 1).last() == artists@[i as int]);
        }
        if !t.as_str().is_empty() {
            words.push(t);
            assert(texts(words@) =~= trimmed_words(artists@.take(i + 1)));
        }
        i = i + 1;
    }
    assert(artists@.take(artists@.len() as int) =~= artists@);
    let artist = join_strings(&words, " ");
    let t = trim(title);
    proof {
        reveal_strlit(" ");
        assert(" "@ =~= seq![' ']);
        lemma_trimmed_words_nonempty(artists@);
        lemma_join_nonempty(trimmed_words(artists@), seq![' ']);
    }
    if artist.as_str().is_empty() {
        t
    } else if t.as_str().is_empty() {
        artist
    } else {
        let r = concat3(artist.as_str(), " ", t.as_str());
        r
    }
}

/// An artist as the Spotify Web API lists it.
pub struct ApiArtist {
    pub name: String,
}

/// A track as the Spotify Web API returns it; both fields may be missing.
pub struct ApiTrack {
    pub name: Option<String>,
    pub artists: Option<Vec<ApiArtist>>,
}

/// The metadata kept of a Spotify track: its title and artist names.
pub struct MetaTrack {
    pub title: String,
    pub artists: Vec<String>,
}

/// The artist names whose trimmed text is not empty, untrimmed, in order.
pub open spec fn kept_artists(a: Seq<ApiArtist>) -> Seq<Seq<char>>
    decreases a.len(),
{
    if a.len() == 0 {
        seq![]
    } else {
        let rest = kept_artists(a.drop_last());
        if trimmed(a.last().name@).len() == 0 { rest } else { rest.push(a.last().name@) }
    }
}

/// The artists of an API track, none when the field is missing.
pub open spec fn api_artists(t: ApiTrack) -> Seq<ApiArtist> {
    match t.artists {
        Some(v) => v@,
        None => seq![],
    }
}

/// The metadata of an API track: its trimmed title and kept artists; none
/// without a title or with a blank one.
pub open spec fn meta_of(t: ApiTrack) -> Option<(Seq<char>, Seq<Seq<char>>)> {
    match t.name {
        None => None,
        Some(n) => if trimmed(n@).len() == 0 {
            None
        } else {
            Some((trimmed(n@), kept_artists(api_artists(t))))
        },
    }
}

/// The texts of a metadata record.
pub open spec fn meta_view(m: MetaTrack) -> (Seq<char>, Seq<Seq<char>>) {
    (m.title@, texts(m.artists@))
}

impl ApiTrack {
    /// The metadata of this track, when it has a non-blank title.
    pub fn into_meta(self) -> (r: Option<MetaTrack>)
        ensures
            match meta_of(self) {
                Some(m) => r matches Some(mt) && meta_view(mt) == m,
                None => r is None,
            },
    {
        let ghost t0 = self;
        let title = match &self.name {
            Some(n) => trim(n.as_str()),
            None => return None,
        };
        if title.as_str().is_empty() {
            return None;
        }
        let api = match self.artists {
            Some(v) => v,
            None => Vec::new(),
        };
        let mut artists: Vec<String> = Vec::new();
        let mut i: usize = 0;
        while i < api.len()
            invariant
                i <= api@.len(),
                texts(artists@) == kept_artists(api@.take(i as int)),
            decreases api@.len() - i,
        {
            let n = &api[i].name;
            let t = trim(n.as_str());
            proof {
                assert(api@.take(i + 1).drop_last() =~= api@.take(i as int));
                assert(api@.take(i + 1).last() == api@[i as int]);
            }
            if !t.as_str().is_empty() {
                artists.push(n.clone());
                assert(texts(artists@) =~= kept_artists(api@.take(i + 1)));
            }
            i = i + 1;
        }
        assert(api@.take(api@.len() as int) =~= api@);
        assert(api@ == api_artists(t0));
        Some(MetaTrack { title, artists })
    }
}

/// The metadata of each item that has some, in order; `None` items (a
/// playlist entry without a track) are skipped.
pub open spec fn metas_of(items: Seq<Option<ApiTrack>>) -> Seq<(Seq<char>, Seq<Seq<char>>)>
    decreases items.len(),
{
    if items.len() == 0 {
        seq![]
    } else {
        let rest = metas_of(items.drop_last());
        match items.last() {
            Some(t) => match meta_of(t) {
                Some(m) => rest.push(m),
                None => rest,
            },
            None => rest,
        }
    }
}

/// Appends the metadata of one page of API items to `metas`.
pub fn append_metas(metas: &mut Vec<MetaTrack>, items: Vec<Option<ApiTrack>>)
    ensures
        final(metas)@.map_values(|m: MetaTrack| meta_view(m)) == old(metas)@.map_values(
            |m: MetaTrack| meta_view(m),
        ) + metas_of(items@),
{
    let ghost start = metas@.map_values(|m: MetaTrack| meta_view(m));
    let ghost all = items@;
    let mut items = items;
    let mut i: usize = 0;
    while i < items.len()
        invariant
            i <= items@.len(),
            items@.len() == all.len(),
            forall|j: int| i <= j < all.len() ==> #[trigger] items@[j] == all[j],
            metas@.map_values(|m: MetaTrack| meta_view(m)) == start + metas_of(all.take(i as int)),
        decreases items@.len() - i,
    {
        let ghost before = items@;
        let mut slot: Option<ApiTrack> = None;
        items.set_and_swap(i, &mut slot);
        proof {
            assert(all.take(i + 1).drop_last() =~= all.take(i as int));
            assert(all.take(i + 1).last() == all[i as int]);
            assert forall|j: int| i + 1 <= j < all.len() implies #[trigger] items@[j] == all[j] by {
                assert(items@[j] == before[j]);
            }
        }
        let ghost mv0 = metas@.map_values(|m: MetaTrack| meta_view(m));
        assert(slot == all[i as int]);
        if let Some(t) = slot {
            if let Some(m) = t.into_meta() {
                metas.push(m);
                assert(metas@.map_values(|m: MetaTrack| meta_view(m)) =~= mv0.push(meta_view(m)));
            }
        }
        assert(metas@.map_values(|m: MetaTrack| meta_view(m)) =~= start + metas_of(
            all.take(i + 1),
        ));
        i = i + 1;
    }
    assert(all.take(all.len() as int) =~= all);
}

/// `r` is `track` shown under the Spotify naming of `meta`: its title,
/// and its artists joined by `", "` when there are any.
pub open spec fn renamed(r: Track, track: Track, meta: MetaTrack) -> bool {
    &&& r.title@ == meta.title@
    &&& r.uploader@ == (if meta.artists@.len() == 0 {
        track.uploader@
    } else {
        join_with(texts(meta.artists@), ", "@)
    })
    &&& r.id == track.id
    &&& r.webpage_url == track.webpage_url
    &&& r.duration_secs == track.duration_secs
}

/// A YouTube track found for a Spotify track, shown under the Spotify
/// title and, when there are any, the Spotify artists joined by `", "`.
pub fn with_spotify_naming(track: Track, meta: &MetaTrack) -> (r: Track)
    ensures
        renamed(r, track, *meta),
{
    let mut t = track;
    t.title = meta.title.clone();
    if meta.artists.len() > 0 {
        t.uploader = join_strings(&meta.artists, ", ");
    }
    t
}

/// The Web API address of the resource itself (its name, or the track).
pub open spec fn resource_url_text(r: SpotifyRef) -> Seq<char> {
    match r.kind {
        SpotifyKind::Track => "https://api.spotify.com/v1/tracks/"@ + r.id@,
        SpotifyKind::Album => "https://api.spotify.com/v1/albums/"@ + r.id@,
        SpotifyKind::Playlist => "https://api.spotify.com/v1/playlists/"@ + r.id@ + "?fields=name"@,
    }
}

/// The first page of an album's or a playlist's tracks (50 per page).
pub open spec fn first_page_url_text(r: SpotifyRef) -> Option<Seq<char>> {
    match r.kind {
        SpotifyKind::Track => None,
        SpotifyKind::Album => Some(
            "https://api.spotify.com/v1/albums/"@ + r.id@ + "/tracks?limit=50"@,
        ),
        SpotifyKind::Playlist => Some(
            "https://api.spotify.com/v1/playlists/"@ + r.id@ + "/tracks?limit=50"@,
        ),
    }
}

impl SpotifyRef {
    /// The Web API address of this resource.
    pub fn resource_url(&self) -> (u: String)
        ensures
            u@ == resource_url_text(*self),
    {
        match self.kind {
            SpotifyKind::Track => concat2("https://api.spotify.com/v1/tracks/", self.id.as_str()),
            SpotifyKind::Album => concat2("https://api.spotify.com/v1/albums/", self.id.as_str()),
            SpotifyKind::Playlist => concat3(
                "https://api.spotify.com/v1/playlists/",
                self.id.as_str(),
                "?fields=name",
            ),
        }
    }

    /// The first page of tracks to fetch; none for a single track.
    pub fn first_page_url(&self) -> (u: Option<String>)
        ensures
            match first_page_url_text(*self) {
                Some(t) => u matches Some(s) && s@ == t,
                None => u is None,
            },
    {
        match self.kind {
            SpotifyKind::Track => None,
            SpotifyKind::Album => Some(
                concat3("https://api.spotify.com/v1/albums/", self.id.as_str(), "/tracks?limit=50"),
            ),
            SpotifyKind::Playlist => Some(
                concat3(
                    "https://api.spotify.com/v1/playlists/",
                    self.id.as_str(),
                    "/tracks?limit=50",
                ),
            ),
        }
    }
}

/// The first `limit` tracks of a Spotify resource; `NoSearchResults` when
/// none is left.
pub fn limit_metas(metas: Vec<MetaTrack>, limit: usize) -> (r: Result<Vec<MetaTrack>>)
    ensures
        metas@.len() == 0 || limit == 0 ==> (r matches Err(e) && e is NoSearchResults),
        metas@.len() > 0 && limit > 0 ==> (r matches Ok(v) && v@ == metas@.take(
            if limit < metas@.len() { limit as int } else { metas@.len() as int },
        )),
{
    let mut metas = metas;
    metas.truncate(limit);
    if metas.len() == 0 {
        return Err(YtcliError::NoSearchResults);
    }
    Ok(metas)
}

/// The mirrored tracks, or an error when not one could be found.
pub fn mirrored_tracks(tracks: Vec<Track>) -> (r: Result<Vec<Track>>)
    ensures
        tracks@.len() == 0 ==> (r matches Err(e) && e matches YtcliError::Spotify(m)
            && m@ == "no se pudo resolver ninguna pista a YouTube"@),
        tracks@.len() > 0 ==> (r matches Ok(v) && v == tracks),
{
    if tracks.len() == 0 {
        return Err(YtcliError::Spotify("no se pudo resolver ninguna pista a YouTube".to_owned()));
    }
    Ok(tracks)
}

/// The app credentials, as read from `SPOTIFY_CLIENT_ID` and
/// `SPOTIFY_CLIENT_SECRET` (none when a variable is unset or not Unicode):
/// both must be there and not blank.
pub fn check_credentials(client_id: Option<String>, client_secret: Option<String>) -> (r: Result<
    (String, String),
>)
    ensures
        match (client_id, client_secret) {
            (Some(i), Some(k)) => if trimmed(i@).len() == 0 || trimmed(k@).len() == 0 {
                r matches Err(e) && e is MissingSpotifyCredentials
            } else {
                r == Ok::<(String, String), YtcliError>((i, k))
            },
            _ => r matches Err(e) && e is MissingSpotifyCredentials,
        },
{
    let id = match client_id {
        Some(i) => i,
        None => return Err(YtcliError::MissingSpotifyCredentials),
    };
    let secret = match client_secret {
        Some(k) => k,
        None => return Err(YtcliError::MissingSpotifyCredentials),
    };
    if trim(id.as_str()).as_str().is_empty() || trim(secret.as_str()).as_str().is_empty() {
        return Err(YtcliError::MissingSpotifyCredentials);
    }
    Ok((id, secret))
}

/// At most the first 200 characters of a response body.
pub open spec fn body_excerpt(body: Seq<char>) -> Seq<char> {
    if body.len() <= 200 { body } else { body.take(200) }
}

/// The text of a failed request: `HTTP <status>: <body excerpt>`, with
/// `auth ` in front for the token request.
pub open spec fn http_failure_text(auth: bool, status: Seq<char>, body: Seq<char>) -> Seq<char> {
    (if auth { "auth "@ } else { ""@ }) + "HTTP "@ + status + ": "@ + body_excerpt(body)
}

/// The error of a request answered with a failure status (`status` as the
/// HTTP library shows it).
pub fn http_failure(auth: bool, status: &str, body: &str) -> (e: YtcliError)
    ensures
        e matches YtcliError::Spotify(m) && m@ == http_failure_text(auth, status@, body@),
{
    let v = chars_of(body);
    let n: usize = if v.len() <= 200 { v.len() } else { 200 };
    let excerpt = string_of_range(&v, 0, n);
    proof {
        reveal_strlit("");
        reveal_strlit("auth ");
        if v@.len() <= 200 {
            assert(v@.subrange(0, n as int) =~= v@);
        }
    }
    let head = if auth { "auth " } else { "" };
    let m = concat5(head, "HTTP ", status, ": ", excerpt.as_str());
    YtcliError::Spotify(m)
}

/// The texts of collected metadata.
pub open spec fn metas_view(v: Seq<MetaTrack>) -> Seq<(Seq<char>, Seq<Seq<char>>)> {
    v.map_values(|m: MetaTrack| meta_view(m))
}

/// The metadata of a single Spotify track, titled after it; a track
/// without a title is an error.
pub fn single_track(track: ApiTrack) -> (r: Result<(Option<String>, Vec<MetaTrack>)>)
    ensures
        match meta_of(track) {
            Some(m) => r matches Ok((title, v)) && title matches Some(t) && t@ == m.0 && metas_view(v@)
                == seq![m],
            None => r matches Err(e) && e matches YtcliError::Spotify(d) && d@ == "track sin metadatos"@,
        },
{
    match track.into_meta() {
        Some(meta) => {
            let title = meta.title.clone();
            let mut v: Vec<MetaTrack> = Vec::new();
            v.push(meta);
            assert(metas_view(v@) =~= seq![meta_view(v@[0])]);
            Ok((Some(title), v))
        },
        None => Err(YtcliError::Spotify("track sin metadatos".to_owned())),
    }
}

/// Paging through the tracks of an album or a playlist: the metadata
/// collected so far and the page still to fetch.
pub struct MetaPager {
    metas: Vec<MetaTrack>,
    next: Option<String>,
}

impl MetaPager {
    /// The metadata collected so far.
    pub closed spec fn collected(&self) -> Seq<(Seq<char>, Seq<Seq<char>>)> {
        metas_view(self.metas@)
    }

    /// The address of the page still to fetch.
    pub closed spec fn pending(&self) -> Option<Seq<char>> {
        match self.next {
            Some(u) => Some(u@),
            None => None,
        }
    }

    /// Starts at the first page of `r`'s tracks (none for a single track).
    pub fn start(r: &SpotifyRef) -> (p: Self)
        ensures
            p.collected() == Seq::<(Seq<char>, Seq<Seq<char>>)>::empty(),
            p.pending() == first_page_url_text(*r),
    {
        let next = r.first_page_url();
        let p = MetaPager { metas: Vec::new(), next };
        assert(metas_view(p.metas@) =~= Seq::<(Seq<char>, Seq<Seq<char>>)>::empty());
        p
    }

    /// The page to fetch next, if any.
    pub fn next_url(&self) -> (u: Option<String>)
        ensures
            match self.pending() {
                Some(t) => u matches Some(s) && s@ == t,
                None => u is None,
            },
    {
        match &self.next {
            Some(s) => Some(s.clone()),
            None => None,
        }
    }

    /// Takes in a fetched page: the metadata of its items, and the address
    /// of the following page.
    pub fn take_page(&mut self, items: Vec<Option<ApiTrack>>, next: Option<String>)
        ensures
            final(self).collected() == old(self).collected() + metas_of(items@),
            final(self).pending() == match next {
                Some(u) => Some(u@),
                None => None::<Seq<char>>,
            },
    {
        append_metas(&mut self.metas, items);
        self.next = next;
    }

    /// The metadata collected, in order.
    pub fn finish(self) -> (v: Vec<MetaTrack>)
        ensures
            metas_view(v@) == self.collected(),
    {
        self.metas
    }
}

/// Mirroring Spotify tracks on YouTube: the tracks to mirror, how many
/// have been tried, what was found, and how many were skipped.
pub struct Mirror {
    metas: Vec<MetaTrack>,
    done: usize,
    tracks: Vec<Track>,
    skipped: usize,
}

impl Mirror {
    /// The tracks to mirror.
    pub closed spec fn wanted(&self) -> Seq<MetaTrack> {
        self.metas@
    }

    /// How many of them have been tried.
    pub closed spec fn tried(&self) -> nat {
        self.done as nat
    }

    /// The YouTube tracks found so far.
    pub closed spec fn found(&self) -> Seq<Track> {
        self.tracks@
    }

    /// How many tracks found nothing.
    pub closed spec fn skips(&self) -> nat {
        self.skipped as nat
    }

    #[verifier::type_invariant]
    spec fn counts_fit(&self) -> bool {
        &&& self.done <= self.metas@.len()
        &&& self.skipped <= self.done
    }

    /// Nothing tried yet.
    pub fn new(metas: Vec<MetaTrack>) -> (m: Self)
        ensures
            m.wanted() == metas@,
            m.tried() == 0,
            m.found().len() == 0,
            m.skips() == 0,
    {
        Mirror { metas, done: 0, tracks: Vec::new(), skipped: 0 }
    }

    /// The YouTube query for the next track to try, if any is left.
    pub fn next_query(&self) -> (q: Option<String>)
        ensures
            self.tried() < self.wanted().len() ==> (q matches Some(s) && s@ == mirror_query(
                self.wanted()[self.tried() as int].title@,
                self.wanted()[self.tried() as int].artists@,
            )),
            self.tried() >= self.wanted().len() ==> q is None,
    {
        proof {
            use_type_invariant(self);
        }
        if self.done < self.metas.len() {
            let m = &self.metas[self.done];
            Some(mirror_search_query(m.title.as_str(), m.artists.as_slice()))
        } else {
            None
        }
    }

    /// Takes in what the search for the next track gave: its last result,
    /// under the Spotify naming, is kept; an error or no result skips the
    /// track.
    pub fn record(&mut self, results: Result<Vec<Track>>)
        requires
            old(self).tried() < old(self).wanted().len(),
        ensures
            final(self).wanted() == old(self).wanted(),
            final(self).tried() == old(self).tried() + 1,
            match results {
                Ok(v) => if v@.len() > 0 {
                    &&& final(self).found().len() == old(self).found().len() + 1
                    &&& final(self).found().drop_last() == old(self).found()
                    &&& renamed(
                        final(self).found().last(),
                        v@.last(),
                        old(self).wanted()[old(self).tried() as int],
                    )
                    &&& final(self).skips() == old(self).skips()
                } else {
                    final(self).found() == old(self).found() && final(self).skips() == old(self).skips() + 1
                },
                Err(_) => final(self).found() == old(self).found() && final(self).skips() == old(self).skips()
                    + 1,
            },
    {
        proof {
            use_type_invariant(&*self);
        }
        let ghost before = self.tracks@;
        let i = self.done;
        let n = self.metas.len();
        assert(i < n);
        let found = match results {
            Ok(mut v) => v.pop(),
            Err(_) => None,
        };
        self.done = i + 1;
        match found {
            Some(t) => {
                let named = with_spotify_naming(t, &self.metas[i]);
                let mut tracks: Vec<Track> = Vec::new();
                std::mem::swap(&mut tracks, &mut self.tracks);
                tracks.push(named);
                assert(tracks@.drop_last() =~= before);
                self.tracks = tracks;
            },
            None => {
                self.skipped = self.skipped + 1;
            },
        }
    }

    /// How many tracks found nothing.
    pub fn skipped_count(&self) -> (n: usize)
        ensures
            n == self.skips(),
    {
        self.skipped
    }

    /// The tracks found, or an error when not one was.
    pub fn finish(self) -> (r: Result<Vec<Track>>)
        ensures
            self.found().len() == 0 ==> (r matches Err(e) && e matches YtcliError::Spotify(m)
                && m@ == "no se pudo resolver ninguna pista a YouTube"@),
            self.found().len() > 0 ==> (r matches Ok(v) && v@ == self.found()),
    {
        mirrored_tracks(self.tracks)
    }
}

/// `search`, asked the mirror query of `meta`, may answer with tracks
/// whose last one, under the Spotify naming of `meta`, is `t`.
pub open spec fn mirror_hit<S: Fn(&String) -> Result<Vec<Track>>>(search: S, meta: MetaTrack, t: Track) -> bool {
    exists|q: String, v: Vec<Track>|
        q@ == mirror_query(meta.title@, meta.artists@) && #[trigger] call_ensures(
            search,
            (&q,),
            Ok::<Vec<Track>, YtcliError>(v),
        ) && v@.len() > 0 && renamed(t, v@.last(), meta)
}

/// `search`, asked the mirror query of `meta`, may fail or find nothing.
pub open spec fn mirror_miss<S: Fn(&String) -> Result<Vec<Track>>>(search: S, meta: MetaTrack) -> bool {
    exists|q: String, r: Result<Vec<Track>>|
        q@ == mirror_query(meta.title@, meta.artists@) && #[trigger] call_ensures(search, (&q,), r) && (r matches Ok(
            v,
        ) ==> v@.len() == 0)
}

/// `found` mirrors `metas` through `search` at the positions `at`: one
/// track per position, in the order of `metas`, each a hit of its Spotify
/// track; every other Spotify track is a miss.
pub open spec fn mirrored_at<S: Fn(&String) -> Result<Vec<Track>>>(
    found: Seq<Track>,
    metas: Seq<MetaTrack>,
    search: S,
    at: Seq<int>,
) -> bool {
    &&& at.len() == found.len()
    &&& forall|j: int, k: int| 0 <= j < k < at.len() ==> #[trigger] at[j] < #[trigger] at[k]
    &&& forall|j: int| 0 <= j < at.len() ==> 0 <= #[trigger] at[j] < metas.len()
    &&& forall|j: int| 0 <= j < at.len() ==> mirror_hit(search, metas[#[trigger] at[j]], found[j])
    &&& forall|k: int| 0 <= k < metas.len() ==> #[trigger] at.contains(k) || mirror_miss(search, metas[k])
}

/// `found` mirrors `metas` through `search` (see [`mirrored_at`]).
pub open spec fn mirrored<S: Fn(&String) -> Result<Vec<Track>>>(
    found: Seq<Track>,
    metas: Seq<MetaTrack>,
    search: S,
) -> bool {
    exists|at: Seq<int>| #[trigger] mirrored_at(found, metas, search, at)
}

/// Mirrors each Spotify track on YouTube, in order: `search` is asked the
/// query of each one, and its last result, under the Spotify naming, is
/// kept; a track whose search fails or finds nothing is skipped. Gives
/// the tracks found (an error when not one was) and how many were skipped.
pub fn mirror_all<S>(metas: Vec<MetaTrack>, search: S) -> (r: (Result<Vec<Track>>, usize))
    where
        S: Fn(&String) -> Result<Vec<Track>>,
    requires
        forall|q: &String| call_requires(search, (q,)),
    ensures
        r.0 matches Ok(v) ==> {
            &&& v@.len() > 0
            &&& v@.len() + r.1 == metas@.len()
            &&& mirrored(v@, metas@, search)
        },
        r.0 matches Err(e) ==> {
            &&& e matches YtcliError::Spotify(m) && m@ == "no se pudo resolver ninguna pista a YouTube"@
            &&& r.1 == metas@.len()
            &&& forall|k: int| 0 <= k < metas@.len() ==> mirror_miss(search, #[trigger] metas@[k])
        },
{
    let ghost ms = metas@;
    let mut mirror = Mirror::new(metas);
    let ghost mut at: Seq<int> = Seq::empty();
    loop
        invariant
            forall|q: &String| call_requires(search, (q,)),
            mirror.wanted() == ms,
            mirror.tried() <= ms.len(),
            mirror.found().len() + mirror.skips() == mirror.tried(),
            mirrored_at(mirror.found(), ms.take(mirror.tried() as int), search, at),
        ensures
            mirror.tried() == ms.len(),
        decreases ms.len() - mirror.tried(),
    {
        let q = mirror.next_query();
        let query = match q {
            Some(query) => query,
            None => break,
        };
        let res = search(&query);
        let ghost t = mirror.tried() as int;
        let ghost before = mirror.found();
        let ghost at0 = at;
        let ghost rg = res;
        mirror.record(res);
        proof {
            let old_metas = ms.take(t);
            let new_metas = ms.take(t + 1);
            assert(forall|k: int| 0 <= k < t ==> new_metas[k] == old_metas[k]);
            if mirror.found().len() == before.len() + 1 {
                at = at0.push(t);
                let v = rg->Ok_0;
                assert(call_ensures(search, (&query,), Ok::<Vec<Track>, YtcliError>(v)));
                assert(mirror_hit(search, ms[t], mirror.found()[before.len() as int]));
                assert forall|j: int| 0 <= j < at.len() implies mirror_hit(
                    search,
                    new_metas[#[trigger] at[j]],
                    mirror.found()[j],
                ) by {
                    if j < at0.len() {
                        assert(mirror.found()[j] == before[j]);
                        assert(at[j] == at0[j]);
                    }
                }
                assert forall|k: int| 0 <= k < new_metas.len() implies #[trigger] at.contains(k)
                    || mirror_miss(search, new_metas[k]) by {
                    if k < t {
                        if at0.contains(k) {
                            let j = choose|j: int| 0 <= j < at0.len() && at0[j] == k;
                            assert(at[j] == k);
                        }
                    } else {
                        assert(at[at.len() - 1] == k);
                    }
                }
            } else {
                assert(call_ensures(search, (&query,), rg));
                assert(mirror_miss(search, ms[t]));
                assert forall|k: int| 0 <= k < new_metas.len() implies #[trigger] at.contains(k)
                    || mirror_miss(search, new_metas[k]) by {
                    if k < t {
                    } else {
                        assert(new_metas[k] == ms[t]);
                    }
                }
            }
        }
    }
    assert(ms.take(ms.len() as int) =~= ms);
    let skipped = mirror.skipped_count();
    let ghost found = mirror.found();
    let tracks = mirror.finish();
    proof {
        if found.len() == 0 {
            assert forall|k: int| 0 <= k < ms.len() implies mirror_miss(search, #[trigger] ms[k]) by {
                assert(!at.contains(k));
            }
        }
    }
    (tracks, skipped)
}

} // verus!
