//! yt-dlp: the arguments it is run with, and what is made of its output.

use vstd::prelude::*;
use crate::error::{Result, YtcliError};
use crate::player::require_binary;
use crate::state::Track;
use crate::text::{
    chars_of, concat2, concat5, decimal, lemma_find_char_bounds, decimal_string, find_char, find_char_in, starts_with,
    string_of_range, trim_bounds, trimmed,
};

verus! {

/// How yt-dlp is invoked.
#[derive(Debug)]
pub struct YtDlp {
    pub bin: String,
}

impl Clone for YtDlp {
    fn clone(&self) -> (r: Self)
        ensures
            r == *self,
    {
        YtDlp { bin: self.bin.clone() }
    }
}

impl Default for YtDlp {
    fn default() -> (r: Self)
        ensures
            r.bin@ == "yt-dlp"@,
    {
        YtDlp { bin: "yt-dlp".to_owned() }
    }
}

impl YtDlp {
    /// `Ok` when this yt-dlp is on `PATH`, else `MissingBinary`.
    pub fn ensure_bin<F>(&self, on_path: F) -> (r: Result<()>)
        where
            F: FnOnce(&String) -> bool,
        requires
            call_requires(on_path, (&self.bin,)),
        ensures
            r is Ok ==> call_ensures(on_path, (&self.bin,), true),
            r is Err ==> call_ensures(on_path, (&self.bin,), false) && (r matches Err(e) && e
                == YtcliError::MissingBinary(self.bin)),
    {
        require_binary(&self.bin, on_path)
    }
}

/// The outcome of a finished yt-dlp run: a failed run is a `YtDlp` error
/// carrying what it wrote to stderr.
pub fn check_exit(success: bool, stderr: String) -> (r: Result<()>)
    ensures
        success ==> r is Ok,
        !success ==> r == Err::<(), YtcliError>(YtcliError::YtDlp(stderr)),
{
    if success {
        Ok(())
    } else {
        Err(YtcliError::YtDlp(stderr))
    }
}

/// The texts of an argument list.
pub open spec fn arg_texts(v: Seq<String>) -> Seq<Seq<char>> {
    v.map_values(|s: String| s@)
}

/// Arguments of a flat search for `limit` results of `query`.
pub fn search_args(query: &str, limit: usize) -> (r: Vec<String>)
    ensures
        arg_texts(r@) == seq![
            "--flat-playlist"@,
            "--dump-json"@,
            "--no-download"@,
            "ytsearch"@ + decimal(limit as nat) + ":"@ + query@,
        ],
{
    let n = decimal_string(limit as u64);
    let mut r: Vec<String> = Vec::new();
    r.push("--flat-playlist".to_owned());
    r.push("--dump-json".to_owned());
    r.push("--no-download".to_owned());
    r.push(concat5("ytsearch", n.as_str(), ":", query, ""));
    proof {
        reveal_strlit("");
    }
    assert(arg_texts(r@) =~= seq![
        "--flat-playlist"@,
        "--dump-json"@,
        "--no-download"@,
        "ytsearch"@ + decimal(limit as nat) + ":"@ + query@,
    ]);
    r
}

/// Arguments of a flat listing of at most `limit` entries of a playlist.
pub fn playlist_args(playlist_url: &str, limit: usize) -> (r: Vec<String>)
    ensures
        arg_texts(r@) == seq![
            "--flat-playlist"@,
            "--dump-json"@,
            "--no-download"@,
            "--playlist-end"@,
            decimal(limit as nat),
            playlist_url@,
        ],
{
    let mut r: Vec<String> = Vec::new();
    r.push("--flat-playlist".to_owned());
    r.push("--dump-json".to_owned());
    r.push("--no-download".to_owned());
    r.push("--playlist-end".to_owned());
    r.push(decimal_string(limit as u64));
    r.push(playlist_url.to_owned());
    assert(arg_texts(r@) =~= seq![
        "--flat-playlist"@,
        "--dump-json"@,
        "--no-download"@,
        "--playlist-end"@,
        decimal(limit as nat),
        playlist_url@,
    ]);
    r
}

/// Arguments that make yt-dlp print the best audio stream's address.
pub fn audio_url_args(webpage_url: &str) -> (r: Vec<String>)
    ensures
        arg_texts(r@) == seq![
            "-f"@,
            "bestaudio/bestaudio*"@,
            "-g"@,
            "--no-playlist"@,
            webpage_url@,
        ],
{
    let mut r: Vec<String> = Vec::new();
    r.push("-f".to_owned());
    r.push("bestaudio/bestaudio*".to_owned());
    r.push("-g".to_owned());
    r.push("--no-playlist".to_owned());
    r.push(webpage_url.to_owned());
    assert(arg_texts(r@) =~= seq![
        "-f"@,
        "bestaudio/bestaudio*"@,
        "-g"@,
        "--no-playlist"@,
        webpage_url@,
    ]);
    r
}

/// The first line of `s`, trimmed.
pub open spec fn first_line_trimmed(s: Seq<char>) -> Seq<char> {
    trimmed(s.subrange(0, find_char(s, '\n')))
}

/// The audio address that yt-dlp printed: its first line, trimmed; an
/// error when that is empty.
pub fn audio_url_from_output(stdout: &str) -> (r: Result<String>)
    ensures
        first_line_trimmed(stdout@).len() > 0 ==> (r matches Ok(u) && u@ == first_line_trimmed(
            stdout@,
        )),
        first_line_trimmed(stdout@).len() == 0 ==> (r matches Err(e) && e matches YtcliError::YtDlp(m)
            && m@ == "URL de audio vacía"@),
{
    let v = chars_of(stdout);
    let e = find_char_in(&v, 0, v.len(), '\n');
    assert(v@.subrange(0, v@.len() as int) =~= v@);
    let (a, b) = trim_bounds(&v, 0, e);
    if a == b {
        return Err(YtcliError::YtDlp("URL de audio vacía".to_owned()));
    }
    Ok(string_of_range(&v, a, b))
}

/// The non-blank lines of `s`, each trimmed (line ends are `\n`; a `\r`
/// before it is trimmed away as white space).
pub open spec fn nonblank_lines(s: Seq<char>) -> Seq<Seq<char>>
    decreases s.len(),
{
    if s.len() == 0 {
        seq![]
    } else {
        let i = find_char(s, '\n');
        proof {
            lemma_find_char_bounds(s, '\n');
        }
        let line = trimmed(s.subrange(0, i));
        let rest = if i < s.len() {
            nonblank_lines(s.subrange(i + 1, s.len() as int))
        } else {
            seq![]
        };
        if line.len() == 0 { rest } else { seq![line] + rest }
    }
}

/// The non-blank lines of yt-dlp's JSON-lines output, trimmed; each is one
/// JSON object to parse.
pub fn jsonl_lines(stdout: &str) -> (r: Vec<String>)
    ensures
        arg_texts(r@) == nonblank_lines(stdout@),
{
    let v = chars_of(stdout);
    let len = v.len();
    let mut out: Vec<String> = Vec::new();
    let mut p: usize = 0;
    assert(v@.subrange(0, len as int) =~= v@);
    while p < len
        invariant
            p <= len == v@.len(),
            v@ == stdout@,
            nonblank_lines(v@) == arg_texts(out@) + nonblank_lines(
                v@.subrange(p as int, len as int),
            ),
        decreases len - p,
    {
        let i = find_char_in(&v, p, len, '\n');
        let (a, b) = trim_bounds(&v, p, i);
        let ghost tail = v@.subrange(p as int, len as int);
        let ghost before = arg_texts(out@);
        proof {
            assert(tail.subrange(0, i - p) =~= v@.subrange(p as int, i as int));
            if i < len {
                assert(tail.subrange(i - p + 1, tail.len() as int) =~= v@.subrange(
                    i + 1,
                    len as int,
                ));
            }
        }
        if a < b {
            out.push(string_of_range(&v, a, b));
            assert(arg_texts(out@) =~= before.push(v@.subrange(a as int, b as int)));
        }
        if i < len {
            p = i + 1;
        } else {
            p = len;
        }
        proof {
            assert(v@.subrange(len as int, len as int) =~= Seq::<char>::empty());
            if a < b {
                assert(before.push(v@.subrange(a as int, b as int)) + nonblank_lines(
                    v@.subrange(p as int, len as int),
                ) =~= before + (seq![v@.subrange(a as int, b as int)] + nonblank_lines(
                    v@.subrange(p as int, len as int),
                )));
            }
        }
    }
    assert(nonblank_lines(v@.subrange(len as int, len as int)) =~= Seq::<Seq<char>>::empty()) by {
        assert(v@.subrange(len as int, len as int).len() == 0);
    }
    assert(arg_texts(out@) + Seq::<Seq<char>>::empty() =~= arg_texts(out@));
    out
}

/// One JSON row of yt-dlp's flat output, with the fields that are read.
/// `duration` is in whole seconds (yt-dlp's float, cut as `as u64` cuts it).
pub struct YtRow {
    pub id: Option<String>,
    pub title: Option<String>,
    pub uploader: Option<String>,
    pub channel: Option<String>,
    pub webpage_url: Option<String>,
    pub url: Option<String>,
    pub duration: Option<u64>,
    pub playlist: Option<String>,
    pub playlist_title: Option<String>,
}

/// The text of an optional string, or `d` when it is missing.
pub open spec fn text_or(o: Option<String>, d: Seq<char>) -> Seq<char> {
    match o {
        Some(s) => s@,
        None => d,
    }
}

/// The page of a row: its `webpage_url`, or else its `url`, when that
/// starts with `http`; otherwise the watch page of its id, when it has one.
pub open spec fn row_page(r: YtRow) -> Option<Seq<char>> {
    let cand = match r.webpage_url {
        Some(w) => Some(w@),
        None => match r.url {
            Some(u) => Some(u@),
            None => None,
        },
    };
    let id = text_or(r.id, Seq::empty());
    match cand {
        Some(c) if starts_with(c, "http"@) => Some(c),
        _ => if id.len() == 0 {
            None
        } else {
            Some("https://www.youtube.com/watch?v="@ + id)
        },
    }
}

/// The fields of a track as texts.
pub open spec fn track_view(t: Track) -> (Seq<char>, Seq<char>, Seq<char>, Seq<char>, Option<u64>) {
    (t.id@, t.title@, t.uploader@, t.webpage_url@, t.duration_secs)
}

/// The track a row describes, when it has a page.
pub open spec fn row_track(r: YtRow) -> Option<(Seq<char>, Seq<char>, Seq<char>, Seq<char>, Option<u64>)> {
    match row_page(r) {
        None => None,
        Some(page) => Some(
            (
                text_or(r.id, Seq::empty()),
                text_or(r.title, "(sin título)"@),
                match r.uploader {
                    Some(u) => u@,
                    None => text_or(r.channel, "(desconocido)"@),
                },
                page,
                r.duration,
            ),
        ),
    }
}

/// Who a row's track is by: its uploader; a row without one falls back
/// to its channel, and only a row with neither is `(desconocido)`.
pub proof fn law_uploader_falls_back_to_channel(r: YtRow)
    requires
        row_page(r) is Some,
    ensures
        row_track(r) is Some,
        r.uploader matches Some(u) ==> (row_track(r) matches Some(t) && t.2 == u@),
        r.uploader is None ==> (r.channel matches Some(c) ==> (row_track(r) matches Some(t) && t.2 == c@)),
        r.uploader is None && r.channel is None ==> (row_track(r) matches Some(t) && t.2 == "(desconocido)"@),
{
}

/// The other fields of a row's track: its id (empty when missing), its
/// title (`(sin título)` when missing), its duration, and its page: the
/// `webpage_url`, else the `url`, when it is a web address, else the watch
/// page of its id; a row with none of these has no track.
pub proof fn law_row_track_fields(r: YtRow)
    ensures
        row_track(r) is Some <==> row_page(r) is Some,
        row_track(r) matches Some(t) ==> {
            &&& t.0 == text_or(r.id, Seq::empty())
            &&& (r.title matches Some(x) ==> t.1 == x@)
            &&& (r.title is None ==> t.1 == "(sin título)"@)
            &&& t.4 == r.duration
        },
        r.webpage_url matches Some(w) ==> (starts_with(w@, "http"@) ==> row_page(r) == Some(w@)),
        r.webpage_url is None ==> (r.url matches Some(u) ==> (starts_with(u@, "http"@) ==> row_page(r) == Some(u@))),
        r.webpage_url is None && r.url is None ==> (r.id matches Some(i) ==> (i@.len() > 0 ==> row_page(r) == Some(
            "https://www.youtube.com/watch?v="@ + i@,
        ))),
        (r.webpage_url is None && r.url is None && text_or(r.id, Seq::empty()).len() == 0) ==> row_track(r) is None,
        row_track(r) matches Some(t) ==> row_page(r) == Some(t.3),
{
}

fn starts_with_http(s: &str) -> (r: bool)
    ensures
        r == starts_with(s@, "http"@),
{
    let v = chars_of(s);
    let p = chars_of("http");
    assert(v@.subrange(0, v@.len() as int) =~= v@);
    crate::text::starts_with_in(&v, 0, v.len(), &p)
}

impl YtRow {
    /// The track of this row; an error when no page can be found for it.
    pub fn into_track(self) -> (r: Result<Track>)
        ensures
            match row_track(self) {
                Some(t) => r matches Ok(tr) && track_view(tr) == t,
                None => r matches Err(e) && e matches YtcliError::Json(m)
                    && m@ == "entrada sin webpage_url"@,
            },
    {
        let ghost row = self;
        let id = match self.id {
            Some(i) => i,
            None => String::new(),
        };
        let title = match self.title {
            Some(t) => t,
            None => "(sin título)".to_owned(),
        };
        let uploader = match self.uploader {
            Some(u) => u,
            None => match self.channel {
                Some(c) => c,
                None => "(desconocido)".to_owned(),
            },
        };
        let cand = match self.webpage_url {
            Some(w) => Some(w),
            None => self.url,
        };
        let page = match cand {
            Some(c) => {
                if starts_with_http(c.as_str()) {
                    Some(c)
                } else {
                    None
                }
            },
            None => None,
        };
        let page = match page {
            Some(p) => p,
            None => {
                if id.as_str().is_empty() {
                    return Err(YtcliError::Json("entrada sin webpage_url".to_owned()));
                }
                concat2("https://www.youtube.com/watch?v=", id.as_str())
            },
        };
        assert(row_page(row) == Some(page@));
        Ok(Track { id, title, uploader, webpage_url: page, duration_secs: self.duration })
    }
}

/// A track in text form.
pub type TrackText = (Seq<char>, Seq<char>, Seq<char>, Seq<char>, Option<u64>);

/// The tracks of search rows in order, or the message of the first row that
/// could not be read (a JSON error) or has no page.
pub open spec fn search_rows_spec(rows: Seq<std::result::Result<YtRow, String>>) -> std::result::Result<
    Seq<TrackText>,
    Seq<char>,
>
    decreases rows.len(),
{
    if rows.len() == 0 {
        Ok(seq![])
    } else {
        match search_rows_spec(rows.drop_last()) {
            Err(m) => Err(m),
            Ok(ts) => match rows.last() {
                Err(m) => Err(m@),
                Ok(row) => match row_track(row) {
                    Some(t) => Ok(ts.push(t)),
                    None => Err("entrada sin webpage_url"@),
                },
            },
        }
    }
}

/// Once a prefix of the rows fails, the whole list fails the same way.
proof fn lemma_search_err_sticks(rows: Seq<std::result::Result<YtRow, String>>, k: int)
    requires
        0 <= k <= rows.len(),
        search_rows_spec(rows.take(k)) is Err,
    ensures
        search_rows_spec(rows) == search_rows_spec(rows.take(k)),
    decreases rows.len() - k,
{
    if k == rows.len() {
        assert(rows.take(k) =~= rows);
    } else {
        let r2 = rows.take(k + 1);
        assert(r2.drop_last() =~= rows.take(k));
        lemma_search_err_sticks(rows, k + 1);
    }
}

/// A search lists its results in yt-dlp's output order: when every row
/// reads and has a page, the k-th result is the track of the k-th row, so
/// `play 1` is the top hit.
pub proof fn law_search_keeps_output_order(rows: Seq<std::result::Result<YtRow, String>>)
    requires
        forall|k: int| 0 <= k < rows.len() ==> (#[trigger] rows[k] matches Ok(row) && row_track(row) is Some),
    ensures
        search_rows_spec(rows) is Ok,
        search_rows_spec(rows)->Ok_0.len() == rows.len(),
        forall|k: int| 0 <= k < rows.len() ==> search_rows_spec(rows)->Ok_0[k] == row_track(
            #[trigger] rows[k]->Ok_0,
        )->0,
    decreases rows.len(),
{
    if rows.len() > 0 {
        let r0 = rows.drop_last();
        assert forall|k: int| 0 <= k < r0.len() implies (#[trigger] r0[k] matches Ok(row) && row_track(row) is Some) by {
            assert(r0[k] == rows[k]);
        }
        law_search_keeps_output_order(r0);
        let last = rows[rows.len() - 1];
        assert(rows.last() == last);
        let ts = search_rows_spec(r0)->Ok_0;
        assert forall|k: int| 0 <= k < rows.len() implies search_rows_spec(rows)->Ok_0[k] == row_track(
            #[trigger] rows[k]->Ok_0,
        )->0 by {
            if k < r0.len() {
                assert(r0[k] == rows[k]);
            }
        }
    }
}

/// A playlist lists its tracks in yt-dlp's output order: when every row
/// reads and has a page, the k-th track is the track of the k-th row and
/// nothing is skipped.
pub proof fn law_playlist_keeps_output_order(rows: Seq<Option<YtRow>>)
    requires
        forall|k: int| 0 <= k < rows.len() ==> (#[trigger] rows[k] matches Some(row) && row_track(row) is Some),
    ensures
        playlist_tracks_spec(rows).len() == rows.len(),
        playlist_skipped_spec(rows) == 0,
        forall|k: int| 0 <= k < rows.len() ==> playlist_tracks_spec(rows)[k] == row_track(
            (#[trigger] rows[k])->Some_0,
        )->0,
    decreases rows.len(),
{
    if rows.len() > 0 {
        let r0 = rows.drop_last();
        assert forall|k: int| 0 <= k < r0.len() implies (#[trigger] r0[k] matches Some(row) && row_track(row) is Some) by {
            assert(r0[k] == rows[k]);
        }
        law_playlist_keeps_output_order(r0);
        let last = rows[rows.len() - 1];
        assert(rows.last() == last);
        assert forall|k: int| 0 <= k < rows.len() implies playlist_tracks_spec(rows)[k] == row_track(
            (#[trigger] rows[k])->Some_0,
        )->0 by {
            if k < r0.len() {
                assert(r0[k] == rows[k]);
            }
        }
    }
}

/// The tracks of a list, in text form.
pub open spec fn track_texts(v: Seq<Track>) -> Seq<TrackText> {
    v.map_values(|t: Track| track_view(t))
}

/// The tracks that a search returned. `rows` holds, for each non-blank
/// output line, the parsed row or the JSON parser's message. The first bad
/// row fails the search with a JSON error; no tracks at all is
/// `NoSearchResults`.
pub fn search_results(rows: Vec<std::result::Result<YtRow, String>>) -> (r: Result<Vec<Track>>)
    ensures
        match search_rows_spec(rows@) {
            Err(m) => r matches Err(e) && e matches YtcliError::Json(x) && x@ == m,
            Ok(ts) => if ts.len() == 0 {
                r matches Err(e) && e is NoSearchResults
            } else {
                r matches Ok(v) && track_texts(v@) == ts
            },
        },
{
    let ghost all = rows@;
    let mut pending = rows;
    let mut tracks: Vec<Track> = Vec::new();
    let mut i: usize = 0;
    assert(track_texts(tracks@) =~= Seq::<TrackText>::empty());
    assert(all.take(0) =~= Seq::<std::result::Result<YtRow, String>>::empty());
    while i < pending.len()
        invariant
            i <= pending@.len(),
            pending@.len() == all.len(),
            all == rows@,
            forall|j: int| i <= j < all.len() ==> #[trigger] pending@[j] == all[j],
            search_rows_spec(all.take(i as int)) == Ok::<Seq<TrackText>, Seq<char>>(
                track_texts(tracks@),
            ),
        decreases pending@.len() - i,
    {
        let ghost before = pending@;
        let mut slot: std::result::Result<YtRow, String> = Err(String::new());
        pending.set_and_swap(i, &mut slot);
        proof {
            assert(all.take(i + 1).drop_last() =~= all.take(i as int));
            assert(all.take(i + 1).last() == all[i as int]);
            assert forall|j: int| i + 1 <= j < all.len() implies #[trigger] pending@[j] == all[j] by {
                assert(pending@[j] == before[j]);
            }
        }
        assert(slot == all[i as int]);
        let row = match slot {
            Err(m) => {
                proof {
                    assert(search_rows_spec(all.take(i + 1)) == Err::<Seq<TrackText>, Seq<char>>(
                        m@,
                    ));
                    lemma_search_err_sticks(all, i + 1);
                }
                return Err(YtcliError::Json(m));
            },
            Ok(row) => row,
        };
        let t = match row.into_track() {
            Ok(t) => t,
            Err(e) => {
                proof {
                    assert(search_rows_spec(all.take(i + 1)) == Err::<Seq<TrackText>, Seq<char>>(
                        "entrada sin webpage_url"@,
                    ));
                    lemma_search_err_sticks(all, i + 1);
                }
                return Err(e);
            },
        };
        let ghost tt = track_texts(tracks@);
        tracks.push(t);
        assert(track_texts(tracks@) =~= tt.push(track_view(t)));
        i = i + 1;
    }
    assert(all.take(all.len() as int) =~= all);
    if tracks.len() == 0 {
        return Err(YtcliError::NoSearchResults);
    }
    Ok(tracks)
}

/// The playlist title of a row: `playlist_title`, else `playlist`.
pub open spec fn row_title(r: YtRow) -> Option<Seq<char>> {
    match r.playlist_title {
        Some(t) => Some(t@),
        None => match r.playlist {
            Some(p) => Some(p@),
            None => None,
        },
    }
}

/// The first title that a parsed row gives.
pub open spec fn playlist_title_spec(rows: Seq<Option<YtRow>>) -> Option<Seq<char>>
    decreases rows.len(),
{
    if rows.len() == 0 {
        None
    } else {
        match playlist_title_spec(rows.drop_last()) {
            Some(t) => Some(t),
            None => match rows.last() {
                Some(row) => row_title(row),
                None => None,
            },
        }
    }
}

/// The tracks of the rows that parsed and have a page, in order.
pub open spec fn playlist_tracks_spec(rows: Seq<Option<YtRow>>) -> Seq<TrackText>
    decreases rows.len(),
{
    if rows.len() == 0 {
        seq![]
    } else {
        let rest = playlist_tracks_spec(rows.drop_last());
        match rows.last() {
            Some(row) => match row_track(row) {
                Some(t) => rest.push(t),
                None => rest,
            },
            None => rest,
        }
    }
}

/// How many rows did not parse or have no page.
pub open spec fn playlist_skipped_spec(rows: Seq<Option<YtRow>>) -> nat
    decreases rows.len(),
{
    if rows.len() == 0 {
        0
    } else {
        let rest = playlist_skipped_spec(rows.drop_last());
        match rows.last() {
            Some(row) => match row_track(row) {
                Some(_) => rest,
                None => rest + 1,
            },
            None => rest + 1,
        }
    }
}

/// Skipped rows and tracks together are all the rows.
proof fn lemma_playlist_counts(rows: Seq<Option<YtRow>>)
    ensures
        playlist_skipped_spec(rows) + playlist_tracks_spec(rows).len() == rows.len(),
    decreases rows.len(),
{
    if rows.len() > 0 {
        lemma_playlist_counts(rows.drop_last());
    }
}

/// What a playlist listing gives: its title (from the first parsed row that
/// names it), its tracks, and how many rows were skipped. `rows` holds, per
/// non-blank output line, the parsed row or `None`. No track at all is
/// `NoSearchResults`.
pub fn playlist_results(rows: Vec<Option<YtRow>>) -> (r: Result<(Option<String>, Vec<Track>, usize)>)
    ensures
        playlist_tracks_spec(rows@).len() == 0 ==> (r matches Err(e) && e is NoSearchResults),
        playlist_tracks_spec(rows@).len() > 0 ==> (r matches Ok((title, tracks, skipped)) && {
            &&& track_texts(tracks@) == playlist_tracks_spec(rows@)
            &&& skipped == playlist_skipped_spec(rows@)
            &&& match playlist_title_spec(rows@) {
                Some(t) => title matches Some(x) && x@ == t,
                None => title is None,
            }
        }),
{
    let ghost all = rows@;
    let mut pending = rows;
    let mut tracks: Vec<Track> = Vec::new();
    let mut title: Option<String> = None;
    let mut skipped: usize = 0;
    let mut i: usize = 0;
    assert(track_texts(tracks@) =~= Seq::<TrackText>::empty());
    assert(all.take(0) =~= Seq::<Option<YtRow>>::empty());
    while i < pending.len()
        invariant
            i <= pending@.len(),
            pending@.len() == all.len(),
            all == rows@,
            forall|j: int| i <= j < all.len() ==> #[trigger] pending@[j] == all[j],
            track_texts(tracks@) == playlist_tracks_spec(all.take(i as int)),
            skipped == playlist_skipped_spec(all.take(i as int)),
            match playlist_title_spec(all.take(i as int)) {
                Some(t) => title matches Some(x) && x@ == t,
                None => title is None,
            },
        decreases pending@.len() - i,
    {
        let ghost before = pending@;
        let mut slot: Option<YtRow> = None;
        pending.set_and_swap(i, &mut slot);
        proof {
            assert(all.take(i + 1).drop_last() =~= all.take(i as int));
            assert(all.take(i + 1).last() == all[i as int]);
            assert forall|j: int| i + 1 <= j < all.len() implies #[trigger] pending@[j] == all[j] by {
                assert(pending@[j] == before[j]);
            }
            lemma_playlist_counts(all.take(i as int));
        }
        assert(slot == all[i as int]);
        match slot {
            None => {
                skipped = skipped + 1;
            },
            Some(row) => {
                if title.is_none() {
                    title = match &row.playlist_title {
                        Some(t) => Some(t.clone()),
                        None => match &row.playlist {
                            Some(p) => Some(p.clone()),
                            None => None,
                        },
                    };
                }
                let ghost tt = track_texts(tracks@);
                match row.into_track() {
                    Ok(t) => {
                        tracks.push(t);
                        assert(track_texts(tracks@) =~= tt.push(track_view(t)));
                    },
                    Err(_) => {
                        skipped = skipped + 1;
                    },
                }
            },
        }
        i = i + 1;
    }
    assert(all.take(all.len() as int) =~= all);
    if tracks.len() == 0 {
        return Err(YtcliError::NoSearchResults);
    }
    Ok((title, tracks, skipped))
}

} // verus!
