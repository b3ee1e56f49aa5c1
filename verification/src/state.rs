//! Tracks and the persistent application state (`state.json`).

use vstd::prelude::*;
use crate::error::{Result, YtcliError};
use crate::paths::{join_path, path_join};
use crate::text::{concat2, concat4};

verus! {

/// One playable item: a YouTube video with its metadata.
#[derive(Debug, PartialEq, Eq)]
pub struct Track {
    pub id: String,
    pub title: String,
    pub uploader: String,
    pub webpage_url: String,
    pub duration_secs: Option<u64>,
}

impl Clone for Track {
    fn clone(&self) -> (r: Self)
        ensures
            r == *self,
    {
        Track {
            id: self.id.clone(),
            title: self.title.clone(),
            uploader: self.uploader.clone(),
            webpage_url: self.webpage_url.clone(),
            duration_secs: self.duration_secs,
        }
    }
}

/// The state kept between invocations: the session queue, the last search,
/// and what is playing.
#[derive(Debug)]
pub struct AppState {
    pub mpv_pid: Option<u32>,
    pub ipc_socket: Option<String>,
    pub watch_pid: Option<u32>,
    pub now_playing: Option<Track>,
    pub last_search: Vec<Track>,
    pub queue: Vec<Track>,
    pub current_index: Option<usize>,
    pub loop_current: bool,
}

impl Default for AppState {
    fn default() -> (r: Self)
        ensures
            r.mpv_pid is None,
            r.ipc_socket is None,
            r.watch_pid is None,
            r.now_playing is None,
            r.last_search@.len() == 0,
            r.queue@.len() == 0,
            r.current_index is None,
            !r.loop_current,
    {
        AppState {
            mpv_pid: None,
            ipc_socket: None,
            watch_pid: None,
            now_playing: None,
            last_search: Vec::new(),
            queue: Vec::new(),
            current_index: None,
            loop_current: false,
        }
    }
}

/// Where `dirs::cache_dir` puts the user's cache directory, as text.
///
/// Trusted: calls `dirs::cache_dir`, whose answer depends on the environment
/// and the platform; nothing is claimed of it.
#[verifier::external_body]
pub(crate) fn system_cache_dir() -> Option<String> {
    dirs::cache_dir().map(|p| p.to_string_lossy().into_owned())
}

/// The cache directory of the application below a base cache directory.
pub open spec fn app_cache_dir(base: Seq<char>) -> Seq<char> {
    path_join(base, "ytcli"@)
}

impl AppState {
    /// `<base>/ytcli` for the platform's base cache directory `base`, or an
    /// error when the platform has none.
    pub fn cache_dir_from(base: Option<String>) -> (r: Result<String>)
        ensures
            base matches Some(b) ==> (r matches Ok(d) && d@ == app_cache_dir(b@)),
            base is None ==> (r matches Err(e) && no_cache_dir_error(e)),
    {
        match base {
            Some(b) => {
                let dir = join_path(b.as_str(), "ytcli");
                proof {
                    reveal_strlit("ytcli");
                }
                Ok(dir)
            },
            None => Err(YtcliError::StateIo {
                path: "(cache_dir)".to_owned(),
                detail: "dirs::cache_dir() devolvió None".to_owned(),
            }),
        }
    }

    /// `<cache>/ytcli` below the user's cache directory, or an error when
    /// the platform has none (see [`AppState::cache_dir_from`]).
    pub fn cache_dir() -> (r: Result<String>)
        ensures
            r matches Ok(dir) ==> exists|base: Seq<char>| dir@ == app_cache_dir(base),
            r matches Err(e) ==> no_cache_dir_error(e),
    {
        Self::cache_dir_from(system_cache_dir())
    }

    /// `<base>/ytcli/state.json` for the base cache directory `base`.
    pub fn state_path_from(base: Option<String>) -> (r: Result<String>)
        ensures
            base matches Some(b) ==> (r matches Ok(p) && p@ == path_join(app_cache_dir(b@), "state.json"@)),
            base is None ==> (r matches Err(e) && no_cache_dir_error(e)),
    {
        let dir = Self::cache_dir_from(base)?;
        let p = join_path(dir.as_str(), "state.json");
        proof {
            reveal_strlit("state.json");
        }
        Ok(p)
    }

    /// `<base>/ytcli/mpv.sock`, the IPC socket of mpv, for the base cache
    /// directory `base`.
    pub fn socket_path_from(base: Option<String>) -> (r: Result<String>)
        ensures
            base matches Some(b) ==> (r matches Ok(p) && p@ == path_join(app_cache_dir(b@), "mpv.sock"@)),
            base is None ==> (r matches Err(e) && no_cache_dir_error(e)),
    {
        let dir = Self::cache_dir_from(base)?;
        let p = join_path(dir.as_str(), "mpv.sock");
        proof {
            reveal_strlit("mpv.sock");
        }
        Ok(p)
    }
}

/// The error reported when the platform has no cache directory.
pub open spec fn no_cache_dir_error(e: YtcliError) -> bool {
    &&& e is StateIo
    &&& e->StateIo_path@ == "(cache_dir)"@
    &&& e->StateIo_detail@ == "dirs::cache_dir() devolvió None"@
}

impl AppState {
    /// `<cache>/ytcli/state.json` below the user's cache directory (see
    /// [`AppState::state_path_from`]).
    pub fn state_path() -> (r: Result<String>)
        ensures
            r matches Ok(p) ==> exists|base: Seq<char>|
                p@ == path_join(#[trigger] app_cache_dir(base), "state.json"@),
            r matches Err(e) ==> no_cache_dir_error(e),
    {
        Self::state_path_from(system_cache_dir())
    }

    /// `<cache>/ytcli/mpv.sock` below the user's cache directory (see
    /// [`AppState::socket_path_from`]).
    pub fn socket_path() -> (r: Result<String>)
        ensures
            r matches Ok(p) ==> exists|base: Seq<char>|
                p@ == path_join(#[trigger] app_cache_dir(base), "mpv.sock"@),
            r matches Err(e) ==> no_cache_dir_error(e),
    {
        Self::socket_path_from(system_cache_dir())
    }

    /// Forgets the running player: its pid, socket, the auto-advance
    /// process and the track shown as playing. The queue and the last
    /// search stay.
    pub fn clear_playback(&mut self)
        ensures
            final(self).mpv_pid is None,
            final(self).ipc_socket is None,
            final(self).watch_pid is None,
            final(self).now_playing is None,
            final(self).last_search == old(self).last_search,
            final(self).queue == old(self).queue,
            final(self).current_index == old(self).current_index,
            final(self).loop_current == old(self).loop_current,
    {
        self.mpv_pid = None;
        self.ipc_socket = None;
        self.watch_pid = None;
        self.now_playing = None;
    }

    /// Empties the session queue, drops the current position and the loop.
    pub fn clear_queue(&mut self)
        ensures
            final(self).queue@.len() == 0,
            final(self).current_index is None,
            !final(self).loop_current,
            final(self).mpv_pid == old(self).mpv_pid,
            final(self).ipc_socket == old(self).ipc_socket,
            final(self).watch_pid == old(self).watch_pid,
            final(self).now_playing == old(self).now_playing,
            final(self).last_search == old(self).last_search,
    {
        self.queue = Vec::new();
        self.current_index = None;
        self.loop_current = false;
    }
}

/// Where the state is kept: `state.json` in the application's cache
/// directory, below some base directory of the platform.
pub open spec fn is_state_path(p: Seq<char>) -> bool {
    exists|base: Seq<char>| p == path_join(#[trigger] app_cache_dir(base), "state.json"@)
}

/// A state with nothing in it, as `AppState::default` makes it.
pub open spec fn is_empty_state(s: AppState) -> bool {
    &&& s.mpv_pid is None
    &&& s.ipc_socket is None
    &&& s.watch_pid is None
    &&& s.now_playing is None
    &&& s.last_search@.len() == 0
    &&& s.queue@.len() == 0
    &&& s.current_index is None
    &&& !s.loop_current
}

/// What became of an operation on a stored file.
#[derive(Debug)]
pub enum Stored<T> {
    /// There is no such file.
    Missing,
    /// The file system refused, with the reason.
    Failed(String),
    /// The file's contents could not be parsed, with the parser's message.
    Corrupt(String),
    /// Done, with what was read.
    Present(T),
}

/// The warning shown when the state file cannot be parsed.
pub open spec fn corrupt_warning_text(path: Seq<char>, message: Seq<char>) -> Seq<char> {
    "Advertencia: no se pudo leer el estado en "@ + path + ": "@ + message
        + ". Se usará un estado vacío."@
}

/// The warning shown when the state file at `path` cannot be parsed.
pub fn corrupt_warning(path: &str, message: &str) -> (r: String)
    ensures
        r@ == corrupt_warning_text(path@, message@),
{
    let head = concat4("Advertencia: no se pudo leer el estado en ", path, ": ", message);
    concat2(head.as_str(), ". Se usará un estado vacío.")
}

impl AppState {
    /// The state given what is at its file `path`: a missing file or one
    /// that is not a state gives an empty state (the latter with a
    /// warning); a file that cannot be read is a `StateIo` error.
    pub fn from_file(path: &str, file: Stored<AppState>) -> (r: Result<AppState>)
        ensures
            match file {
                Stored::Missing => r matches Ok(s) && is_empty_state(s),
                Stored::Failed(d) => r matches Err(e) && e matches YtcliError::StateIo { path: p, detail }
                    && p@ == path@ && detail == d,
                Stored::Corrupt(_) => r matches Ok(s) && is_empty_state(s),
                Stored::Present(st) => r == Ok::<AppState, YtcliError>(st),
            },
    {
        match file {
            Stored::Missing => Ok(AppState::default()),
            Stored::Failed(d) => Err(YtcliError::StateIo { path: path.to_owned(), detail: d }),
            Stored::Corrupt(_) => Ok(AppState::default()),
            Stored::Present(st) => Ok(st),
        }
    }

    /// Loads the state from its file `path`; `read` looks at the file (see
    /// [`AppState::from_file`]).
    pub fn load_at<F>(path: &String, read: F) -> (r: Result<AppState>)
        where
            F: FnOnce(&String) -> Stored<AppState>,
        requires
            call_requires(read, (path,)),
        ensures
            exists|f: Stored<AppState>| #[trigger] call_ensures(read, (path,), f) && match f {
                Stored::Missing => r matches Ok(s) && is_empty_state(s),
                Stored::Failed(d) => r matches Err(e) && e matches YtcliError::StateIo { path: p, detail }
                    && p@ == path@ && detail == d,
                Stored::Corrupt(_) => r matches Ok(s) && is_empty_state(s),
                Stored::Present(st) => r == Ok::<AppState, YtcliError>(st),
            },
    {
        let file = read(path);
        let ghost f = file;
        let r = Self::from_file(path.as_str(), file);
        assert(call_ensures(read, (path,), f));
        r
    }

    /// Loads the state from `<cache>/ytcli/state.json` (see
    /// [`AppState::state_path`] and [`AppState::load_at`]).
    pub fn load<F>(read: F) -> (r: Result<AppState>)
        where
            F: FnOnce(&String) -> Stored<AppState>,
        requires
            forall|p: &String| call_requires(read, (p,)),
        ensures
            r matches Err(e) ==> no_cache_dir_error(e) || (e matches YtcliError::StateIo { path, detail }
                && is_state_path(path@) && exists|q: String| q@ == path@ && #[trigger] call_ensures(
                read,
                (&q,),
                Stored::<AppState>::Failed(detail),
            )),
            r matches Ok(s) ==> exists|p: String| #[trigger] is_state_path(p@) && {
                ||| call_ensures(read, (&p,), Stored::Present(s))
                ||| (is_empty_state(s) && call_ensures(read, (&p,), Stored::<AppState>::Missing))
                ||| (is_empty_state(s) && exists|m: String| #[trigger] call_ensures(
                    read,
                    (&p,),
                    Stored::<AppState>::Corrupt(m),
                ))
            },
    {
        let path = Self::state_path()?;
        proof {
            assert(is_state_path(path@));
        }
        let r = Self::load_at(&path, read);
        proof {
            let f = choose|f: Stored<AppState>| #[trigger] call_ensures(read, (&path,), f) && match f {
                Stored::Missing => r matches Ok(s) && is_empty_state(s),
                Stored::Failed(d) => r matches Err(e) && e matches YtcliError::StateIo { path: p, detail }
                    && p@ == path@ && detail == d,
                Stored::Corrupt(_) => r matches Ok(s) && is_empty_state(s),
                Stored::Present(st) => r == Ok::<AppState, YtcliError>(st),
            };
            if let Stored::Corrupt(m) = f {
                assert(call_ensures(read, (&path,), Stored::<AppState>::Corrupt(m)));
            }
            if let Stored::Failed(d) = f {
                assert(call_ensures(read, (&path,), Stored::<AppState>::Failed(d)));
            }
        }
        r
    }

    /// Saves the state to its file `path` with `write`, which creates the
    /// directory and writes the file.
    pub fn save_at<W>(&self, path: &String, write: W) -> (r: Result<()>)
        where
            W: FnOnce(&String, &AppState) -> Result<()>,
        requires
            call_requires(write, (path, self)),
        ensures
            call_ensures(write, (path, self), r),
    {
        write(path, self)
    }

    /// Saves the state to `<cache>/ytcli/state.json` (see
    /// [`AppState::state_path`] and [`AppState::save_at`]).
    pub fn save<W>(&self, write: W) -> (r: Result<()>)
        where
            W: FnOnce(&String, &AppState) -> Result<()>,
        requires
            forall|p: &String, s: &AppState| call_requires(write, (p, s)),
        ensures
            r matches Err(e) ==> no_cache_dir_error(e) || exists|p: String| #[trigger] is_state_path(p@)
                && call_ensures(write, (&p, self), Err::<(), YtcliError>(e)),
            r is Ok ==> exists|p: String| #[trigger] is_state_path(p@) && call_ensures(
                write,
                (&p, self),
                Ok::<(), YtcliError>(()),
            ),
    {
        let path = Self::state_path()?;
        proof {
            assert(is_state_path(path@));
        }
        let res = self.save_at(&path, write);
        match res {
            Ok(u) => {
                assert(res == Ok::<(), YtcliError>(u));
                Ok(u)
            },
            Err(e) => Err(e),
        }
    }
}

} // verus!
