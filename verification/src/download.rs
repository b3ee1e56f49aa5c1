//! Downloading a track into the audio cache: yt-dlp fetches the best
//! audio, ffmpeg encodes it to Opus, and the file takes its place in the
//! cache. The programs run outside; this module decides each step from the
//! outcome of the one before.

use vstd::prelude::*;
use crate::cache::{AudioCache, DEFAULT_BITRATE_KBPS};
use crate::error::{Result, YtcliError};
use crate::paths::{join_path, path_join};
use crate::state::Track;
use crate::text::{chars_of, concat2, contains_in, contains_text, decimal, decimal_string, starts_with, starts_with_in};
use crate::youtube::arg_texts;

verus! {

/// The prefix of the files that yt-dlp writes for `id`.
pub open spec fn fetch_prefix(id: Seq<char>) -> Seq<char> {
    id + ".ytdlp."@
}

/// The name of the Opus file that ffmpeg writes before it is moved into place.
pub open spec fn encode_name(id: Seq<char>) -> Seq<char> {
    id + ".tmp.opus"@
}

/// Whether `name` is the file that yt-dlp downloaded for `id`.
pub open spec fn is_fetched_name(name: Seq<char>, id: Seq<char>) -> bool {
    starts_with(name, fetch_prefix(id)) && !contains_text(name, ".tmp."@)
}

/// Whether `name` is left over from an unfinished download of `id`.
pub open spec fn is_leftover_name(name: Seq<char>, id: Seq<char>) -> bool {
    starts_with(name, fetch_prefix(id)) || name == encode_name(id)
}

/// Whether `name` is the file that yt-dlp downloaded for `id`: it starts
/// with `<id>.ytdlp.` and holds no `.tmp.`.
pub fn is_fetched_file(name: &str, id: &str) -> (r: bool)
    ensures
        r == is_fetched_name(name@, id@),
{
    let v = chars_of(name);
    let p = chars_of(concat2(id, ".ytdlp.").as_str());
    let t = chars_of(".tmp.");
    assert(v@.subrange(0, v@.len() as int) =~= v@);
    starts_with_in(&v, 0, v.len(), &p) && !contains_in(&v, &t)
}

/// Whether `name` is left over from an unfinished download of `id`: the
/// files of yt-dlp and the Opus file not yet moved into place.
pub fn is_leftover_file(name: &str, id: &str) -> (r: bool)
    ensures
        r == is_leftover_name(name@, id@),
{
    let v = chars_of(name);
    let p = chars_of(concat2(id, ".ytdlp.").as_str());
    assert(v@.subrange(0, v@.len() as int) =~= v@);
    if starts_with_in(&v, 0, v.len(), &p) {
        return true;
    }
    let tmp = concat2(id, ".tmp.opus");
    let n = name.to_owned();
    n == tmp
}

/// The first of `names` that yt-dlp downloaded for `id`, in the order given.
pub open spec fn first_fetched(names: Seq<String>, id: Seq<char>) -> Option<int> {
    if exists|i: int| 0 <= i < names.len() && is_fetched_name(#[trigger] names[i]@, id) {
        Some(choose|i: int| 0 <= i < names.len() && is_fetched_name(#[trigger] names[i]@, id)
            && forall|j: int| 0 <= j < i ==> !is_fetched_name(#[trigger] names[j]@, id))
    } else {
        None
    }
}

/// The position of the first of `names` that yt-dlp downloaded for `id`.
pub fn find_fetched(names: &[String], id: &str) -> (r: Option<usize>)
    ensures
        match r {
            Some(i) => i < names@.len() && is_fetched_name(names@[i as int]@, id@)
                && forall|j: int| 0 <= j < i ==> !is_fetched_name(#[trigger] names@[j]@, id@),
            None => forall|j: int| 0 <= j < names@.len() ==> !is_fetched_name(#[trigger] names@[j]@, id@),
        },
{
    let mut i: usize = 0;
    while i < names.len()
        invariant
            i <= names@.len(),
            forall|j: int| 0 <= j < i ==> !is_fetched_name(#[trigger] names@[j]@, id@),
        decreases names@.len() - i,
    {
        if is_fetched_file(names[i].as_str(), id) {
            return Some(i);
        }
        i = i + 1;
    }
    None
}

/// The arguments of yt-dlp: the best audio of `page`, written to `output`.
pub open spec fn fetch_args_text(output: Seq<char>, page: Seq<char>) -> Seq<Seq<char>> {
    seq!["-f"@, "bestaudio/bestaudio*"@, "--no-playlist"@, "-o"@, output, "--"@, page]
}

/// The bit rate argument of ffmpeg.
pub open spec fn bitrate_text() -> Seq<char> {
    decimal(DEFAULT_BITRATE_KBPS as nat) + "k"@
}

/// The arguments of ffmpeg: `input` encoded to Opus at the cache's bit
/// rate, written to `output`.
pub open spec fn encode_args_text(input: Seq<char>, output: Seq<char>) -> Seq<Seq<char>> {
    seq![
        "-y"@,
        "-i"@,
        input,
        "-vn"@,
        "-c:a"@,
        "libopus"@,
        "-b:a"@,
        bitrate_text(),
        "-f"@,
        "opus"@,
        "-v"@,
        "error"@,
        output,
    ]
}

/// Arguments of yt-dlp for fetching `page` to the template `output`.
pub fn fetch_args(output: &str, page: &str) -> (r: Vec<String>)
    ensures
        arg_texts(r@) == fetch_args_text(output@, page@),
{
    let mut r: Vec<String> = Vec::new();
    r.push("-f".to_owned());
    r.push("bestaudio/bestaudio*".to_owned());
    r.push("--no-playlist".to_owned());
    r.push("-o".to_owned());
    r.push(output.to_owned());
    r.push("--".to_owned());
    r.push(page.to_owned());
    assert(arg_texts(r@) =~= fetch_args_text(output@, page@));
    r
}

/// Arguments of ffmpeg for encoding `input` to the Opus file `output`.
pub fn encode_args(input: &str, output: &str) -> (r: Vec<String>)
    ensures
        arg_texts(r@) == encode_args_text(input@, output@),
{
    let rate = concat2(decimal_string(DEFAULT_BITRATE_KBPS as u64).as_str(), "k");
    let mut r: Vec<String> = Vec::new();
    r.push("-y".to_owned());
    r.push("-i".to_owned());
    r.push(input.to_owned());
    r.push("-vn".to_owned());
    r.push("-c:a".to_owned());
    r.push("libopus".to_owned());
    r.push("-b:a".to_owned());
    r.push(rate);
    r.push("-f".to_owned());
    r.push("opus".to_owned());
    r.push("-v".to_owned());
    r.push("error".to_owned());
    r.push(output.to_owned());
    assert(arg_texts(r@) =~= encode_args_text(input@, output@));
    r
}

/// What to do next in a download.
#[derive(Debug)]
pub enum DownloadStep {
    /// The track is cached already: nothing is downloaded (`Ok(false)`).
    AlreadyCached,
    /// Check that yt-dlp and ffmpeg are there, create the cache directory,
    /// and run yt-dlp with `args`.
    Fetch { args: Vec<String> },
    /// List the cache directory, to find what yt-dlp wrote.
    Locate,
    /// Run ffmpeg with `args`, then remove `input`.
    Encode { input: String, args: Vec<String> },
    /// Move `from` to `to`, and record `to` in the index with its size
    /// (`Ok(true)`).
    Store { from: String, to: String },
    /// Remove `remove` if given and the leftovers of the download, and fail
    /// with `error`.
    Fail { error: YtcliError, remove: Option<String> },
}

/// The download of one track into one cache.
pub struct Download {
    id: String,
    page: String,
    root: String,
}

/// `YtDlp` error with the given text.
pub open spec fn yt_dlp_error(e: YtcliError, text: Seq<char>) -> bool {
    e matches YtcliError::YtDlp(m) && m@ == text
}

/// `StateIo` error about `path` with the given detail.
pub open spec fn is_store_error(e: YtcliError, path: Seq<char>, detail: Seq<char>) -> bool {
    e matches YtcliError::StateIo { path: p, detail: d } && p@ == path && d@ == detail
}

impl Download {
    /// The YouTube id of the track.
    pub closed spec fn id_text(&self) -> Seq<char> {
        self.id@
    }

    /// The page the track is fetched from.
    pub closed spec fn page_text(&self) -> Seq<char> {
        self.page@
    }

    /// The cache directory.
    pub closed spec fn root_text(&self) -> Seq<char> {
        self.root@
    }

    /// A download of `track` into `cache`.
    pub fn new(track: &Track, cache: &AudioCache) -> (d: Self)
        ensures
            d.id_text() == track.id@,
            d.page_text() == track.webpage_url@,
            d.root_text() == cache.root_text(),
    {
        Download { id: track.id.clone(), page: track.webpage_url.clone(), root: cache.root().to_owned() }
    }

    /// The name of the file that the download leaves in the cache.
    pub closed spec fn final_text(&self) -> Seq<char> {
        path_join(self.root@, self.id@ + ".opus"@)
    }

    /// The first step: none when the track is cached (`cached`), else
    /// fetching with yt-dlp into `<root>/<id>.ytdlp.%(ext)s`.
    pub fn start(&self, cached: bool) -> (s: DownloadStep)
        ensures
            cached ==> s is AlreadyCached,
            !cached ==> (s matches DownloadStep::Fetch { args } && arg_texts(args@) == fetch_args_text(
                path_join(self.root_text(), fetch_prefix(self.id_text()) + "%(ext)s"@),
                self.page_text(),
            )),
    {
        if cached {
            return DownloadStep::AlreadyCached;
        }
        let output = join_path(self.root.as_str(), concat2(self.id.as_str(), ".ytdlp.%(ext)s").as_str());
        proof {
            assert(self.id@ + ".ytdlp.%(ext)s"@ =~= fetch_prefix(self.id@) + "%(ext)s"@) by {
                reveal_strlit(".ytdlp.%(ext)s");
                reveal_strlit(".ytdlp.");
                reveal_strlit("%(ext)s");
            }
        }
        DownloadStep::Fetch { args: fetch_args(output.as_str(), self.page.as_str()) }
    }

    /// After yt-dlp ran: on success, look for its file; on failure, fail.
    pub fn fetched(&self, success: bool) -> (s: DownloadStep)
        ensures
            success ==> s is Locate,
            !success ==> (s matches DownloadStep::Fail { error, remove } && remove is None
                && yt_dlp_error(error, "yt-dlp no pudo descargar el audio"@)),
    {
        if success {
            DownloadStep::Locate
        } else {
            DownloadStep::Fail {
                error: YtcliError::YtDlp("yt-dlp no pudo descargar el audio".to_owned()),
                remove: None,
            }
        }
    }

    /// Given the names in the cache directory: encode the first file that
    /// yt-dlp wrote into `<root>/<id>.tmp.opus`, or fail when there is none.
    pub fn located(&self, names: &[String]) -> (s: DownloadStep)
        ensures
            match first_fetched(names@, self.id_text()) {
                Some(i) => s matches DownloadStep::Encode { input, args } && input@ == path_join(
                    self.root_text(),
                    names@[i]@,
                ) && arg_texts(args@) == encode_args_text(
                    input@,
                    path_join(self.root_text(), encode_name(self.id_text())),
                ),
                None => s matches DownloadStep::Fail { error, remove } && remove is None
                    && yt_dlp_error(error, "no se encontró el archivo descargado por yt-dlp"@),
            },
    {
        match find_fetched(names, self.id.as_str()) {
            Some(i) => {
                proof {
                    let f = first_fetched(names@, self.id@);
                    assert(is_fetched_name(names@[i as int]@, self.id@));
                    assert(f is Some);
                    let k = f->0;
                    assert(0 <= k < names@.len() && is_fetched_name(names@[k]@, self.id@));
                    if k < i {
                    } else if i < k {
                    }
                    assert(k == i);
                }
                let input = join_path(self.root.as_str(), names[i].as_str());
                let output = join_path(self.root.as_str(), concat2(self.id.as_str(), ".tmp.opus").as_str());
                let args = encode_args(input.as_str(), output.as_str());
                DownloadStep::Encode { input, args }
            },
            None => DownloadStep::Fail {
                error: YtcliError::YtDlp("no se encontró el archivo descargado por yt-dlp".to_owned()),
                remove: None,
            },
        }
    }

    /// After ffmpeg ran: on success, move its file into place as
    /// `<root>/<id>.opus`; on failure, remove it and fail.
    pub fn encoded(&self, success: bool) -> (s: DownloadStep)
        ensures
            success ==> (s matches DownloadStep::Store { from, to } && from@ == path_join(
                self.root_text(),
                encode_name(self.id_text()),
            ) && to@ == self.final_text()),
            !success ==> (s matches DownloadStep::Fail { error, remove } && remove matches Some(p)
                && p@ == path_join(self.root_text(), encode_name(self.id_text())) && yt_dlp_error(
                error,
                "ffmpeg no pudo convertir a Opus"@,
            )),
    {
        let tmp = join_path(self.root.as_str(), concat2(self.id.as_str(), ".tmp.opus").as_str());
        if success {
            let to = join_path(self.root.as_str(), concat2(self.id.as_str(), ".opus").as_str());
            DownloadStep::Store { from: tmp, to }
        } else {
            DownloadStep::Fail {
                error: YtcliError::YtDlp("ffmpeg no pudo convertir a Opus".to_owned()),
                remove: Some(tmp),
            }
        }
    }

    /// yt-dlp could not be started (`detail` says why): fail, clearing
    /// whatever the download left.
    pub fn fetch_not_started(&self, detail: &str) -> (s: DownloadStep)
        ensures
            s matches DownloadStep::Fail { error, remove } && remove is None && yt_dlp_error(error, detail@),
    {
        DownloadStep::Fail { error: YtcliError::YtDlp(detail.to_owned()), remove: None }
    }

    /// ffmpeg could not be started (`detail` says why): fail, clearing
    /// yt-dlp's file and whatever else the download left.
    pub fn encode_not_started(&self, detail: &str) -> (s: DownloadStep)
        ensures
            s matches DownloadStep::Fail { error, remove } && remove is None && yt_dlp_error(
                error,
                "ffmpeg: "@ + detail@,
            ),
    {
        DownloadStep::Fail { error: ffmpeg_start_error(detail), remove: None }
    }

    /// The encoded file could not be moved into place (`detail` says why):
    /// fail about the final path, clearing the encoded file and whatever
    /// else the download left; the index is not touched.
    pub fn store_failed(&self, detail: &str) -> (s: DownloadStep)
        ensures
            s matches DownloadStep::Fail { error, remove } && remove is None && is_store_error(
                error,
                self.final_text(),
                detail@,
            ),
    {
        let to = join_path(self.root.as_str(), concat2(self.id.as_str(), ".opus").as_str());
        DownloadStep::Fail { error: YtcliError::StateIo { path: to, detail: detail.to_owned() }, remove: None }
    }

    /// Runs the whole download, one step after the other, with the outside
    /// work done by the closures:
    /// - `prepare` checks the programs and creates the cache directory;
    /// - `fetch` runs yt-dlp with the given arguments: whether it succeeded,
    ///   or why it could not be started;
    /// - `list` gives the names in the cache directory;
    /// - `encode` runs ffmpeg with the given arguments and then removes its
    ///   input: whether it succeeded, or why it could not be started;
    /// - `store` moves the encoded file into place (why not, when the move
    ///   fails) and then records it in the index, with the outcome of
    ///   writing the index;
    /// - `cleanup` removes the given file, if any, and the leftovers.
    ///
    /// A cached track is not downloaded (`Ok(false)`). Every failure after
    /// `prepare` goes through `cleanup`, except a failed write of the index
    /// once the file is in place.
    pub fn run<P, F, L, E, S, C>(
        &self,
        cached: bool,
        prepare: P,
        fetch: F,
        list: L,
        encode: E,
        store: S,
        cleanup: C,
    ) -> (r: Result<bool>)
        where
            P: FnOnce() -> Result<()>,
            F: FnOnce(&Vec<String>) -> std::result::Result<bool, String>,
            L: FnOnce() -> Vec<String>,
            E: FnOnce(&String, &Vec<String>) -> std::result::Result<bool, String>,
            S: FnOnce(&String, &String) -> std::result::Result<Result<()>, String>,
            C: FnOnce(Option<String>),
        requires
            call_requires(prepare, ()),
            forall|a: &Vec<String>| call_requires(fetch, (a,)),
            call_requires(list, ()),
            forall|i: &String, a: &Vec<String>| call_requires(encode, (i, a)),
            forall|f: &String, t: &String| call_requires(store, (f, t)),
            forall|x: Option<String>| call_requires(cleanup, (x,)),
        ensures
            cached ==> r == Ok::<bool, YtcliError>(false),
            !cached ==> (r matches Ok(b) ==> b && exists|f: String, t: String|
                f@ == path_join(self.root_text(), encode_name(self.id_text())) && t@ == self.final_text()
                && #[trigger] call_ensures(store, (&f, &t), Ok::<Result<()>, String>(Ok::<(), YtcliError>(())))),
            !cached ==> (r matches Err(e) ==> {
                ||| call_ensures(prepare, (), Err::<(), YtcliError>(e))
                ||| (exists|f: String, t: String|
                    f@ == path_join(self.root_text(), encode_name(self.id_text())) && t@ == self.final_text()
                    && #[trigger] call_ensures(store, (&f, &t), Ok::<Result<()>, String>(Err::<(), YtcliError>(e))))
                ||| ((e is YtDlp || (e matches YtcliError::StateIo { path, .. } && path@ == self.final_text()))
                    && exists|x: Option<String>| #[trigger] call_ensures(cleanup, (x,), ()))
            }),
    {
        let args = match self.start(cached) {
            DownloadStep::Fetch { args } => args,
            _ => return Ok(false),
        };
        let ready = prepare();
        match ready {
            Ok(u) => {
                assert(ready == Ok::<(), YtcliError>(u));
            },
            Err(e) => return Err(e),
        }
        let ran = fetch(&args);
        let step = match ran {
            Ok(success) => self.fetched(success),
            Err(d) => self.fetch_not_started(d.as_str()),
        };
        let step = match step {
            DownloadStep::Locate => {
                let names = list();
                self.located(names.as_slice())
            },
            other => other,
        };
        let step = match step {
            DownloadStep::Encode { input, args } => {
                let ran = encode(&input, &args);
                match ran {
                    Ok(success) => self.encoded(success),
                    Err(d) => self.encode_not_started(d.as_str()),
                }
            },
            other => other,
        };
        let step = match step {
            DownloadStep::Store { from, to } => {
                let moved = store(&from, &to);
                match moved {
                    Ok(recorded) => {
                        assert(call_ensures(store, (&from, &to), Ok::<Result<()>, String>(recorded)));
                        return match recorded {
                            Ok(u) => {
                                assert(recorded == Ok::<(), YtcliError>(u));
                                Ok(true)
                            },
                            Err(e) => Err(e),
                        };
                    },
                    Err(d) => self.store_failed(d.as_str()),
                }
            },
            other => other,
        };
        match step {
            DownloadStep::Fail { error, remove } => {
                let ghost x = remove;
                cleanup(remove);
                assert(call_ensures(cleanup, (x,), ()));
                Err(error)
            },
            _ => Ok(false),
        }
    }

    /// Whether a file of the cache directory is left over from this
    /// download, and goes when it fails.
    pub fn is_leftover(&self, name: &str) -> (r: bool)
        ensures
            r == is_leftover_name(name@, self.id_text()),
    {
        is_leftover_file(name, self.id.as_str())
    }
}

/// The error of an ffmpeg that could not be started.
pub fn ffmpeg_start_error(detail: &str) -> (e: YtcliError)
    ensures
        yt_dlp_error(e, "ffmpeg: "@ + detail@),
{
    YtcliError::YtDlp(concat2("ffmpeg: ", detail))
}

/// Every file that a download writes before it is done goes when it
/// fails: yt-dlp's file and ffmpeg's Opus file are both leftovers.
pub proof fn law_download_files_are_leftovers(name: Seq<char>, id: Seq<char>)
    ensures
        is_fetched_name(name, id) ==> is_leftover_name(name, id),
        is_leftover_name(encode_name(id), id),
{
}

/// A finished download never leaves its own file behind as a leftover:
/// the cached `<id>.opus` is neither yt-dlp's file nor ffmpeg's.
pub proof fn law_cached_file_is_not_leftover(id: Seq<char>)
    ensures
        !is_leftover_name(id + ".opus"@, id),
{
    reveal_strlit(".opus");
    reveal_strlit(".ytdlp.");
    reveal_strlit(".tmp.opus");
    let n = id + ".opus"@;
    assert(n.len() < fetch_prefix(id).len());
    assert(n.len() != encode_name(id).len());
}

} // verus!
