//! Where a track plays from: its cached file when there is one, else the
//! stream URL that yt-dlp resolves.

use vstd::prelude::*;
use crate::cache::{AudioCache, CacheIndex, probe_says};
use crate::error::{Result, YtcliError};
use crate::paths::path_join;
use crate::state::Track;

verus! {

broadcast use vstd::function::group_function_axioms;

/// What mpv is given to play.
#[derive(Debug, PartialEq, Eq)]
pub enum PlaybackSource {
    /// A file of the audio cache.
    Local(String),
    /// A stream URL.
    Stream(String),
}

impl Clone for PlaybackSource {
    fn clone(&self) -> (r: Self)
        ensures
            r == *self,
    {
        match self {
            PlaybackSource::Local(p) => PlaybackSource::Local(p.clone()),
            PlaybackSource::Stream(u) => PlaybackSource::Stream(u.clone()),
        }
    }
}

/// The path or URL that a source stands for.
pub open spec fn source_text(s: PlaybackSource) -> Seq<char> {
    match s {
        PlaybackSource::Local(p) => p@,
        PlaybackSource::Stream(u) => u@,
    }
}

/// The path or URL handed to mpv.
pub fn source_path_or_url(source: &PlaybackSource) -> (r: String)
    ensures
        r@ == source_text(*source),
{
    match source {
        PlaybackSource::Local(path) => path.clone(),
        PlaybackSource::Stream(url) => url.clone(),
    }
}

/// Whether the source is a cached file.
pub fn is_local(source: &PlaybackSource) -> (r: bool)
    ensures
        r == (*source is Local),
{
    match source {
        PlaybackSource::Local(_) => true,
        PlaybackSource::Stream(_) => false,
    }
}

/// Picks the source of `track`: its cached file when `index` has one and
/// `file_present` finds it; otherwise the URL that `stream_url` resolves
/// from the track's page, which is asked only then.
pub fn resolve<P, F>(
    track: &Track,
    cache: &AudioCache,
    index: &CacheIndex,
    file_present: P,
    stream_url: F,
) -> (r: Result<PlaybackSource>)
    where
        P: Fn(&String) -> bool,
        F: FnOnce(&String) -> Result<String>,
    requires
        forall|p: &String| call_requires(file_present, (p,)),
        forall|u: &String| call_requires(stream_url, (u,)),
    ensures
        r matches Ok(PlaybackSource::Local(p)) ==> {
            &&& index@.contains_key(track.id@)
            &&& p@ == path_join(cache.root_text(), index@[track.id@].path@)
            &&& call_ensures(file_present, (&p,), true)
        },
        r matches Ok(PlaybackSource::Stream(u)) ==> {
            &&& call_ensures(stream_url, (&track.webpage_url,), Ok::<String, YtcliError>(u))
            &&& index@.contains_key(track.id@) ==> probe_says(
                file_present,
                path_join(cache.root_text(), index@[track.id@].path@),
                false,
            )
        },
        r matches Err(e) ==> {
            &&& call_ensures(stream_url, (&track.webpage_url,), Err::<String, YtcliError>(e))
            &&& index@.contains_key(track.id@) ==> probe_says(
                file_present,
                path_join(cache.root_text(), index@[track.id@].path@),
                false,
            )
        },
{
    if let Some((_entry, path)) = cache.get(index, track.id.as_str(), file_present) {
        return Ok(PlaybackSource::Local(path));
    }
    let res = stream_url(&track.webpage_url);
    match res {
        Ok(url) => Ok(PlaybackSource::Stream(url)),
        Err(e) => Err(e),
    }
}

} // verus!
