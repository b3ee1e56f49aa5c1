//! The auto-advance process: when to advance, and what advancing does.

use vstd::prelude::*;
use crate::error::{Result, YtcliError};
use crate::queue::{apply_index, next_index, playback_consistent, try_next_index};
use crate::paths::{file_name, file_name_of, path_components, same_path};
use crate::state::{AppState, Track};
use vstd::utf8::{decode_utf8, valid_utf8};

verus! {

broadcast use vstd::function::group_function_axioms;

/// What happened when a track ended.
#[derive(Debug, Clone, Copy, PartialEq, Eq, Structural)]
pub enum AdvanceOutcome {
    /// The next track of the queue plays.
    Advanced,
    /// The end of the queue was reached; the player stopped.
    Finished,
    /// The current track repeats (the loop is on).
    Repeated,
}

/// The track that repeats when the current one ends: the current one,
/// when the loop is on and it is in the queue.
pub open spec fn repeat_index(s: AppState) -> Option<usize> {
    match s.current_index {
        Some(i) => if s.loop_current && i < s.queue@.len() { Some(i) } else { None },
        None => None,
    }
}

/// With the loop on, the end of the current track repeats it, whichever
/// track of the queue it is (the last one too): the selection is the track
/// to repeat. With the loop off nothing repeats, and only an invalid
/// selection keeps a loop from repeating.
pub proof fn law_loop_repeats_the_current_track(s: AppState)
    ensures
        s.loop_current ==> (s.current_index matches Some(i) ==> (i < s.queue@.len() ==> repeat_index(s) == Some(i))),
        !s.loop_current ==> repeat_index(s) is None,
        repeat_index(s) matches Some(i) ==> s.current_index == Some(i) && i < s.queue@.len(),
{
}

/// Advancing happens once the current track has played and mpv is idle.
pub fn should_trigger_advance(had_playback: bool, idle_or_eof: bool) -> (r: bool)
    ensures
        r == (had_playback && idle_or_eof),
{
    had_playback && idle_or_eof
}

/// Called when the current track ended. With the loop on, `load` plays the
/// current track again and nothing else changes. Otherwise `load` plays the
/// next track, which becomes the current one; at the end of the queue
/// `quit` stops the player and playback and the queue are cleared (there is
/// no wrap-around).
pub fn advance_after_eof_with<L, Q>(state: &mut AppState, load: L, quit: Q) -> (r: Result<AdvanceOutcome>)
    where
        L: FnMut(&Track) -> Result<()>,
        Q: FnMut() -> Result<()>,
    requires
        forall|t: &Track| call_requires(load, (t,)),
        call_requires(quit, ()),
    ensures
        r is Err ==> *final(state) == *old(state),
        r matches Err(e) ==> match repeat_index(*old(state)) {
            Some(i) => call_ensures(load, (&old(state).queue@[i as int],), Err::<(), YtcliError>(e)),
            None => match next_index(*old(state)) {
                Some(n) => call_ensures(load, (&old(state).queue@[n as int],), Err::<(), YtcliError>(e)),
                None => call_ensures(quit, (), Err::<(), YtcliError>(e)),
            },
        },
        repeat_index(*old(state)) matches Some(i) ==> {
            &&& r is Ok ==> r == Ok::<AdvanceOutcome, YtcliError>(AdvanceOutcome::Repeated)
            &&& r is Ok ==> call_ensures(load, (&old(state).queue@[i as int],), Ok::<(), YtcliError>(()))
            &&& *final(state) == *old(state)
        },
        repeat_index(*old(state)) is None ==> (next_index(*old(state)) matches Some(n) ==> {
            &&& r is Ok ==> r == Ok::<AdvanceOutcome, YtcliError>(AdvanceOutcome::Advanced)
            &&& r is Ok ==> call_ensures(load, (&old(state).queue@[n as int],), Ok::<(), YtcliError>(()))
            &&& r is Ok ==> final(state).current_index == Some(n)
            &&& r is Ok ==> final(state).now_playing == Some(old(state).queue@[n as int])
            &&& r is Ok ==> final(state).queue == old(state).queue
            &&& r is Ok ==> final(state).loop_current == old(state).loop_current
            &&& r is Ok ==> final(state).mpv_pid == old(state).mpv_pid
            &&& r is Ok ==> final(state).watch_pid == old(state).watch_pid
        }),
        repeat_index(*old(state)) is None && next_index(*old(state)) is None ==> {
            &&& r is Ok ==> r == Ok::<AdvanceOutcome, YtcliError>(AdvanceOutcome::Finished)
            &&& r is Ok ==> call_ensures(quit, (), Ok::<(), YtcliError>(()))
            &&& r is Ok ==> final(state).queue@.len() == 0
            &&& r is Ok ==> final(state).current_index is None
            &&& r is Ok ==> final(state).now_playing is None
            &&& r is Ok ==> final(state).mpv_pid is None
            &&& r is Ok ==> final(state).ipc_socket is None
            &&& r is Ok ==> final(state).watch_pid is None
            &&& r is Ok ==> !final(state).loop_current
            &&& r is Ok ==> final(state).last_search == old(state).last_search
        },
{
    let mut load = load;
    let mut quit = quit;
    if state.loop_current {
        if let Some(i) = state.current_index {
            if i < state.queue.len() {
                let track = state.queue[i].clone();
                let ghost load0 = load;
                let res = load(&track);
                assert(call_ensures(load0, (&track,), res));
                match res {
                    Ok(u) => {
                        assert(res == Ok::<(), YtcliError>(u));
                    },
                    Err(e) => return Err(e),
                }
                return Ok(AdvanceOutcome::Repeated);
            }
        }
    }
    match try_next_index(state) {
        Ok(index) => {
            let track = state.queue[index].clone();
            let ghost load0 = load;
            let res = load(&track);
            assert(call_ensures(load0, (&track,), res));
            match res {
                Ok(u) => {
                    assert(res == Ok::<(), YtcliError>(u));
                },
                Err(e) => return Err(e),
            }
            apply_index(state, index);
            Ok(AdvanceOutcome::Advanced)
        },
        Err(YtcliError::NoNext) => {
            let ghost quit0 = quit;
            let res = quit();
            assert(call_ensures(quit0, (), res));
            match res {
                Ok(u) => {
                    assert(res == Ok::<(), YtcliError>(u));
                },
                Err(e) => return Err(e),
            }
            state.clear_playback();
            state.clear_queue();
            Ok(AdvanceOutcome::Finished)
        },
        Err(error) => Err(error),
    }
}

/// `load` or `quit`, talking to the mpv at `socket`, failed with `e` on the
/// step that the end of the current track calls for in `st`.
pub open spec fn eof_failure<L: Fn(&String, &Track) -> Result<()>, Q: Fn(&String) -> Result<()>>(
    load: L,
    quit: Q,
    st: AppState,
    socket: String,
    e: YtcliError,
) -> bool {
    match repeat_index(st) {
        Some(i) => call_ensures(load, (&socket, &st.queue@[i as int]), Err::<(), YtcliError>(e)),
        None => match next_index(st) {
            Some(n) => call_ensures(load, (&socket, &st.queue@[n as int]), Err::<(), YtcliError>(e)),
            None => call_ensures(quit, (&socket,), Err::<(), YtcliError>(e)),
        },
    }
}

/// The socket that the end of a track is handled on: the saved one, else
/// the default `fallback`.
pub open spec fn eof_socket(st: AppState, fallback: String) -> String {
    match st.ipc_socket {
        Some(s) => s,
        None => fallback,
    }
}

/// Called when the current track ended, talking to the mpv on the saved
/// socket, else on the default `fallback`: `load` resolves and plays the
/// next track there, `quit` stops the player at the end of the queue. See
/// [`advance_after_eof_with`].
pub fn advance_after_eof<L, Q>(state: &mut AppState, fallback: &String, load: L, quit: Q) -> (r: Result<
    AdvanceOutcome,
>)
    where
        L: Fn(&String, &Track) -> Result<()>,
        Q: Fn(&String) -> Result<()>,
    requires
        forall|s: &String, t: &Track| call_requires(load, (s, t)),
        forall|s: &String| call_requires(quit, (s,)),
    ensures
        r matches Err(e) ==> *final(state) == *old(state),
        r matches Err(e) ==> eof_failure(load, quit, *old(state), eof_socket(*old(state), *fallback), e),
        r matches Ok(AdvanceOutcome::Repeated) ==> (repeat_index(*old(state)) matches Some(i) && {
            &&& *final(state) == *old(state)
            &&& call_ensures(
                load,
                (&eof_socket(*old(state), *fallback), &old(state).queue@[i as int]),
                Ok::<(), YtcliError>(()),
            )
        }),
        r matches Ok(AdvanceOutcome::Advanced) ==> repeat_index(*old(state)) is None,
        r matches Ok(AdvanceOutcome::Advanced) ==> (next_index(*old(state)) matches Some(n) && {
            &&& final(state).current_index == Some(n)
            &&& final(state).now_playing == Some(old(state).queue@[n as int])
            &&& final(state).queue == old(state).queue
            &&& final(state).loop_current == old(state).loop_current
            &&& final(state).mpv_pid == old(state).mpv_pid
            &&& final(state).watch_pid == old(state).watch_pid
            &&& call_ensures(
                load,
                (&eof_socket(*old(state), *fallback), &old(state).queue@[n as int]),
                Ok::<(), YtcliError>(()),
            )
        }),
        r matches Ok(AdvanceOutcome::Finished) ==> repeat_index(*old(state)) is None,
        r matches Ok(AdvanceOutcome::Finished) ==> (next_index(*old(state)) is None && {
            &&& final(state).queue@.len() == 0
            &&& final(state).current_index is None
            &&& final(state).now_playing is None
            &&& final(state).ipc_socket is None
            &&& final(state).mpv_pid is None
            &&& final(state).watch_pid is None
            &&& !final(state).loop_current
            &&& final(state).last_search == old(state).last_search
            &&& call_ensures(quit, (&eof_socket(*old(state), *fallback),), Ok::<(), YtcliError>(()))
        }),
{
    let socket = match &state.ipc_socket {
        Some(s) => s.clone(),
        None => fallback.clone(),
    };
    let lg: Ghost<L> = Ghost(load);
    let qg: Ghost<Q> = Ghost(quit);
    let lr = &load;
    let qr = &quit;
    let sr = &socket;
    let load_here = |t: &Track| -> (res: Result<()>)
        requires
            call_requires(lg@, (sr, t)),
            lr == &lg@,
        ensures
            call_ensures(lg@, (sr, t), res),
        { lr(sr, t) };
    let quit_here = || -> (res: Result<()>)
        requires
            call_requires(qg@, (sr,)),
            qr == &qg@,
        ensures
            call_ensures(qg@, (sr,), res),
        { qr(sr) };
    let r = advance_after_eof_with(state, load_here, quit_here);
    proof {
        if r is Err {
            let e = r->Err_0;
            assert(eof_failure(load, quit, *old(state), socket, e));
        }
        if r matches Ok(AdvanceOutcome::Repeated) {
            let i = repeat_index(*old(state))->0;
            assert(call_ensures(load, (&socket, &old(state).queue@[i as int]), Ok::<(), YtcliError>(())));
        }
        if r matches Ok(AdvanceOutcome::Advanced) {
            let n = next_index(*old(state))->0;
            assert(call_ensures(load, (&socket, &old(state).queue@[n as int]), Ok::<(), YtcliError>(())));
        }
        if r matches Ok(AdvanceOutcome::Finished) {
            assert(call_ensures(quit, (&socket,), Ok::<(), YtcliError>(())));
        }
    }
    r
}

/// The pieces of `b` between NUL bytes, empty ones included.
pub open spec fn nul_pieces(b: Seq<u8>) -> Seq<Seq<u8>>
    decreases b.len(),
{
    if b.len() == 0 {
        seq![seq![]]
    } else {
        let p = nul_pieces(b.drop_last());
        if b.last() == 0 {
            p.push(seq![])
        } else {
            p.update(p.len() - 1, p.last().push(b.last()))
        }
    }
}

/// The non-empty pieces, in order.
pub open spec fn nonempty_pieces(ps: Seq<Seq<u8>>) -> Seq<Seq<u8>>
    decreases ps.len(),
{
    if ps.len() == 0 {
        seq![]
    } else {
        let rest = nonempty_pieces(ps.drop_last());
        if ps.last().len() == 0 { rest } else { rest.push(ps.last()) }
    }
}

/// The arguments of a `/proc/<pid>/cmdline`: the non-empty NUL-separated pieces.
pub open spec fn cmdline_args(b: Seq<u8>) -> Seq<Seq<u8>> {
    nonempty_pieces(nul_pieces(b))
}

proof fn lemma_nul_pieces_nonempty(b: Seq<u8>)
    ensures
        nul_pieces(b).len() > 0,
    decreases b.len(),
{
    if b.len() > 0 {
        lemma_nul_pieces_nonempty(b.drop_last());
    }
}

/// Splits a command line at its NUL bytes, dropping empty pieces.
pub fn cmdline_arguments(cmdline: &[u8]) -> (r: Vec<Vec<u8>>)
    ensures
        r@.map_values(|a: Vec<u8>| a@) == cmdline_args(cmdline@),
{
    let mut done: Vec<Vec<u8>> = Vec::new();
    let mut cur: Vec<u8> = Vec::new();
    let mut i: usize = 0;
    proof {
        assert(cmdline@.take(0) =~= Seq::<u8>::empty());
        assert(nul_pieces(Seq::<u8>::empty()).drop_last() =~= Seq::<Seq<u8>>::empty());
    }
    while i < cmdline.len()
        invariant
            i <= cmdline@.len(),
            nul_pieces(cmdline@.take(i as int)).len() > 0,
            nonempty_pieces(nul_pieces(cmdline@.take(i as int)).drop_last()) == done@.map_values(
                |a: Vec<u8>| a@,
            ),
            nul_pieces(cmdline@.take(i as int)).last() == cur@,
        decreases cmdline@.len() - i,
    {
        let x = cmdline[i];
        let ghost p = nul_pieces(cmdline@.take(i as int));
        let ghost before = done@.map_values(|a: Vec<u8>| a@);
        proof {
            assert(cmdline@.take(i + 1).drop_last() =~= cmdline@.take(i as int));
            assert(cmdline@.take(i + 1).last() == x);
        }
        if x == 0 {
            proof {
                assert(p.push(seq![]).drop_last() =~= p);
                assert(p =~= p.drop_last().push(p.last()));
            }
            if cur.len() > 0 {
                let piece = cur;
                done.push(piece);
                assert(done@.map_values(|a: Vec<u8>| a@) =~= before.push(p.last()));
            }
            cur = Vec::new();
            assert(cur@ =~= Seq::<u8>::empty());
        } else {
            cur.push(x);
            proof {
                let q = p.update(p.len() - 1, p.last().push(x));
                assert(q.drop_last() =~= p.drop_last());
            }
        }
        i = i + 1;
    }
    proof {
        let p = nul_pieces(cmdline@.take(i as int));
        assert(cmdline@.take(i as int) =~= cmdline@);
        assert(p =~= p.drop_last().push(p.last()));
    }
    if cur.len() > 0 {
        let ghost before = done@.map_values(|a: Vec<u8>| a@);
        done.push(cur);
        assert(done@.map_values(|a: Vec<u8>| a@) =~= before.push(
            nul_pieces(cmdline@).last(),
        ));
    }
    done
}

/// Text decoded from UTF-8 bytes, through `std::str::from_utf8`.
///
/// Trusted: `from_utf8` accepts exactly the valid UTF-8 byte strings and
/// decodes them, as its documentation states.
#[verifier::external_body]
fn utf8_text(bytes: &[u8]) -> (r: Option<String>)
    ensures
        r is Some <==> valid_utf8(bytes@),
        r matches Some(t) ==> t@ == decode_utf8(bytes@),
{
    std::str::from_utf8(bytes).ok().map(|t| t.to_owned())
}

/// The canonical form of a path, through `Path::canonicalize`.
///
/// Trusted: the answer depends on the file system (links, existence);
/// nothing is claimed of it.
#[verifier::external_body]
fn canonical_path(p: &str) -> Option<String> {
    std::path::Path::new(p).canonicalize().ok().map(|c| c.to_string_lossy().into_owned())
}

/// What decides whether `argv0` names the running binary without looking
/// at the disk: it must be UTF-8, and then the same path as `current_exe`
/// or the same file name is enough.
pub open spec fn argv0_plainly_matches(argv0: Seq<u8>, current_exe: Seq<char>) -> bool {
    valid_utf8(argv0) && {
        let a = decode_utf8(argv0);
        ||| path_components(a) == path_components(current_exe)
        ||| (file_name_of(a) is Some && file_name_of(a) == file_name_of(current_exe))
    }
}

/// Whether the first argument of a process names this binary: the same
/// path, the same file name, or (looked up on disk) the same canonical path.
pub fn argv0_looks_like_binary(argv0: &[u8], current_exe: &str) -> (r: bool)
    ensures
        !valid_utf8(argv0@) ==> !r,
        argv0_plainly_matches(argv0@, current_exe@) ==> r,
{
    let text = match utf8_text(argv0) {
        Some(t) => t,
        None => return false,
    };
    if same_path(text.as_str(), current_exe) {
        return true;
    }
    match (file_name(text.as_str()), file_name(current_exe)) {
        (Some(a), Some(b)) => {
            if a == b {
                return true;
            }
        },
        _ => {},
    }
    match (canonical_path(text.as_str()), canonical_path(current_exe)) {
        (Some(a), Some(b)) => a == b,
        _ => false,
    }
}

/// The bytes of `watch`.
pub open spec fn watch_word() -> Seq<u8> {
    seq![119u8, 97u8, 116u8, 99u8, 104u8]
}

/// Whether a process is this binary running `watch`: the same executable,
/// `watch` as its second argument, and a first argument that names this
/// binary (which may take a look at the disk).
pub fn matches_watch_process(current_exe: &str, process_exe: &str, cmdline: &[u8]) -> (r: bool)
    ensures
        path_components(current_exe@) != path_components(process_exe@) ==> !r,
        (cmdline_args(cmdline@).len() < 2 || cmdline_args(cmdline@)[1] != watch_word()) ==> !r,
        (path_components(current_exe@) == path_components(process_exe@)
            && cmdline_args(cmdline@).len() >= 2 && cmdline_args(cmdline@)[1] == watch_word())
            ==> {
            &&& !valid_utf8(cmdline_args(cmdline@)[0]) ==> !r
            &&& argv0_plainly_matches(cmdline_args(cmdline@)[0], current_exe@) ==> r
        },
{
    if !same_path(current_exe, process_exe) {
        return false;
    }
    let args = cmdline_arguments(cmdline);
    let ghost av = args@.map_values(|a: Vec<u8>| a@);
    if args.len() < 2 {
        return false;
    }
    let mut word: Vec<u8> = Vec::new();
    word.push(119u8);
    word.push(97u8);
    word.push(116u8);
    word.push(99u8);
    word.push(104u8);
    assert(word@ =~= watch_word());
    let second = &args[1];
    if second.len() != word.len() {
        assert(av[1].len() != watch_word().len());
        return false;
    }
    let mut k: usize = 0;
    while k < word.len()
        invariant
            k <= word@.len() == second@.len(),
            word@ == watch_word(),
            av == cmdline_args(cmdline@),
            av.len() >= 2,
            av[1] == second@,
            forall|j: int| 0 <= j < k ==> second@[j] == word@[j],
        decreases word@.len() - k,
    {
        if second[k] != word[k] {
            assert(second@ != watch_word());
            return false;
        }
        k = k + 1;
    }
    assert(second@ =~= watch_word());
    argv0_looks_like_binary(args[0].as_slice(), current_exe)
}

/// Which track is current: its index and, when the index is in the
/// queue, its id.
pub open spec fn identity_of(s: AppState) -> (Option<usize>, Option<Seq<char>>) {
    (
        s.current_index,
        match s.current_index {
            Some(i) if i < s.queue@.len() => Some(s.queue@[i as int].id@),
            _ => None,
        },
    )
}

/// What the auto-advance loop remembers between polls: whether the
/// current track has been heard playing, and which track that was.
pub struct WatchMonitor {
    had_playback: bool,
    observed: Option<(Option<usize>, Option<String>)>,
}

/// The texts of an identity.
pub open spec fn identity_view(x: (Option<usize>, Option<String>)) -> (Option<usize>, Option<Seq<char>>) {
    (x.0, match x.1 {
        Some(s) => Some(s@),
        None => None,
    })
}

impl WatchMonitor {
    /// Whether the current track has been heard playing.
    pub closed spec fn heard(&self) -> bool {
        self.had_playback
    }

    /// The track last observed as current.
    pub closed spec fn watched(&self) -> Option<(Option<usize>, Option<Seq<char>>)> {
        match self.observed {
            Some(x) => Some(identity_view(x)),
            None => None,
        }
    }

    /// A monitor that has seen nothing yet.
    pub fn new() -> (m: Self)
        ensures
            !m.heard(),
            m.watched() is None,
    {
        WatchMonitor { had_playback: false, observed: None }
    }

    /// Notes the track that is current now; a different track than before
    /// has not been heard yet.
    pub fn observe_track(&mut self, state: &AppState)
        ensures
            final(self).watched() == Some(identity_of(*state)),
            old(self).watched() == Some(identity_of(*state)) ==> final(self).heard() == old(self).heard(),
            old(self).watched() != Some(identity_of(*state)) ==> !final(self).heard(),
    {
        let id = match state.current_index {
            Some(i) if i < state.queue.len() => Some(state.queue[i].id.clone()),
            _ => None,
        };
        let identity = (state.current_index, id);
        let same = match &self.observed {
            Some((idx, oid)) => *idx == identity.0 && match (oid, &identity.1) {
                (Some(a), Some(b)) => *a == *b,
                (None, None) => true,
                _ => false,
            },
            None => false,
        };
        if !same {
            self.had_playback = false;
        }
        self.observed = Some(identity);
    }

    /// Notes the playback position: a position past the start means the
    /// track has been heard.
    pub fn observe_position(&mut self, past_start: bool)
        ensures
            final(self).heard() == (old(self).heard() || past_start),
            final(self).watched() == old(self).watched(),
    {
        if past_start {
            self.had_playback = true;
        }
    }

    /// Whether to advance now that mpv reports `idle_or_eof`.
    pub fn advance_due(&self, idle_or_eof: bool) -> (r: bool)
        ensures
            r == (self.heard() && idle_or_eof),
    {
        should_trigger_advance(self.had_playback, idle_or_eof)
    }

    /// After advancing, the next track has to be observed and heard anew.
    pub fn advanced(&mut self)
        ensures
            !final(self).heard(),
            final(self).watched() is None,
    {
        self.had_playback = false;
        self.observed = None;
    }
}

/// What one poll makes of the monitor `a`: the track `id` is observed
/// (see [`WatchMonitor::observe_track`]) and then the position, `past`
/// telling whether playback was past the start (see
/// [`WatchMonitor::observe_position`]); `b` is the monitor afterwards.
pub open spec fn polled(
    a: WatchMonitor,
    b: WatchMonitor,
    id: (Option<usize>, Option<Seq<char>>),
    past: bool,
) -> bool {
    &&& b.watched() == Some(id)
    &&& b.heard() == ((a.watched() == Some(id) && a.heard()) || past)
}

/// Observing a track and then a position is one poll.
pub proof fn lemma_observations_are_a_poll(
    a: WatchMonitor,
    m: WatchMonitor,
    b: WatchMonitor,
    id: (Option<usize>, Option<Seq<char>>),
    past: bool,
)
    requires
        m.watched() == Some(id),
        a.watched() == Some(id) ==> m.heard() == a.heard(),
        a.watched() != Some(id) ==> !m.heard(),
        b.heard() == (m.heard() || past),
        b.watched() == m.watched(),
    ensures
        polled(a, b, id, past),
{
}

/// In the polls `ids`/`pasts`, some poll saw playback past the start, and
/// every poll since then observed the same track.
pub open spec fn heard_in_run(ids: Seq<(Option<usize>, Option<Seq<char>>)>, pasts: Seq<bool>) -> bool {
    exists|j: int|
        0 <= j < ids.len() && #[trigger] pasts[j] && forall|l: int| j <= l < ids.len() ==> ids[l] == ids[j]
}

/// The auto-advance law: from a fresh monitor (as [`WatchMonitor::new`] and
/// [`WatchMonitor::advanced`] leave it), after a run of polls the current
/// track counts as heard exactly when some poll saw it past its start and
/// it stayed the current track in every poll since. Since
/// [`WatchMonitor::advance_due`] and [`poll_once`] call for advancing only
/// on a heard track once mpv is idle, a track that changed, or was never
/// heard playing, is never advanced past.
pub proof fn law_heard_only_after_playback_of_same_track(
    ms: Seq<WatchMonitor>,
    ids: Seq<(Option<usize>, Option<Seq<char>>)>,
    pasts: Seq<bool>,
)
    requires
        ms.len() == ids.len() + 1,
        pasts.len() == ids.len(),
        ms[0].watched() is None,
        !ms[0].heard(),
        forall|k: int| 0 <= k < ids.len() ==> #[trigger] polled(ms[k], ms[k + 1], ids[k], pasts[k]),
    ensures
        ms.last().heard() <==> heard_in_run(ids, pasts),
    decreases ids.len(),
{
    let n = ids.len() as int;
    if n == 0 {
        return;
    }
    let ms1 = ms.drop_last();
    let ids1 = ids.drop_last();
    let pasts1 = pasts.drop_last();
    assert forall|k: int| 0 <= k < ids1.len() implies #[trigger] polled(ms1[k], ms1[k + 1], ids1[k], pasts1[k]) by {
        assert(polled(ms[k], ms[k + 1], ids[k], pasts[k]));
    }
    law_heard_only_after_playback_of_same_track(ms1, ids1, pasts1);
    let a = ms[n - 1];
    let b = ms[n];
    let id = ids[n - 1];
    assert(polled(a, b, id, pasts[n - 1]));
    assert(ms1.last() == a);
    if n > 1 {
        let k = n - 2;
        assert(polled(ms[k], ms[k + 1], ids[k], pasts[k]));
        assert(k + 1 == n - 1);
        assert(a.watched() == Some(ids[n - 2]));
    }
    if b.heard() {
        if pasts[n - 1] {
            assert(forall|l: int| n - 1 <= l < n ==> #[trigger] ids[l] == ids[n - 1]);
            assert(heard_in_run(ids, pasts));
        } else {
            assert(n > 1);
            assert(heard_in_run(ids1, pasts1));
            let j = choose|j: int|
                0 <= j < ids1.len() && #[trigger] pasts1[j] && forall|l: int| j <= l < ids1.len() ==> ids1[l] == ids1[j];
            assert(ids1[n - 2] == ids1[j]);
            assert forall|l: int| j <= l < n implies ids[l] == ids[j] by {
                if l < n - 1 {
                    assert(ids1[l] == ids1[j]);
                }
            }
            assert(pasts[j]);
            assert(heard_in_run(ids, pasts));
        }
    } else {
        if heard_in_run(ids, pasts) {
            let j = choose|j: int|
                0 <= j < ids.len() && #[trigger] pasts[j] && forall|l: int| j <= l < ids.len() ==> ids[l] == ids[j];
            assert(j != n - 1);
            assert(pasts1[j]);
            assert forall|l: int| j <= l < ids1.len() implies ids1[l] == ids1[j] by {
                assert(ids[l] == ids[j]);
            }
            assert(heard_in_run(ids1, pasts1));
            assert(a.heard());
            assert(n > 1);
            assert(ids[n - 2] == ids[j]);
            assert(ids[n - 1] == ids[j]);
        }
    }
}

/// What one poll of the auto-advance loop calls for.
#[derive(Debug, Clone, Copy, PartialEq, Eq, Structural)]
pub enum PollAction {
    /// mpv is gone: the loop ends.
    Stop,
    /// The current track ended after being heard: advance the queue.
    Advance,
    /// Nothing to do until the next poll.
    Wait,
}

/// One poll of mpv: `past_start` reads whether playback is past the start
/// (a failed read stops the loop when `alive` finds mpv gone, and is
/// otherwise ignored); then `idle` reads whether mpv is idle, which calls
/// for advancing once the track was heard (a failed read is judged as the
/// first one).
pub fn poll_once<P, I, A>(monitor: &mut WatchMonitor, past_start: P, idle: I, alive: A) -> (r: PollAction)
    where
        P: FnOnce() -> Result<bool>,
        I: FnOnce() -> Result<bool>,
        A: Fn() -> bool,
    requires
        call_requires(past_start, ()),
        call_requires(idle, ()),
        call_requires(alive, ()),
    ensures
        final(monitor).watched() == old(monitor).watched(),
        final(monitor).heard() ==> old(monitor).heard() || call_ensures(past_start, (), Ok::<bool, YtcliError>(true)),
        old(monitor).heard() ==> final(monitor).heard(),
        (forall|x: Result<bool>| call_ensures(past_start, (), x) ==> x == Ok::<bool, YtcliError>(true))
            ==> final(monitor).heard(),
        r == PollAction::Advance ==> final(monitor).heard() && call_ensures(idle, (), Ok::<bool, YtcliError>(true)),
        r == PollAction::Stop ==> call_ensures(alive, (), false) && ((exists|e: YtcliError| call_ensures(
            past_start,
            (),
            Err::<bool, YtcliError>(e),
        )) || (exists|e: YtcliError| call_ensures(idle, (), Err::<bool, YtcliError>(e)))),
        (forall|b: bool| call_ensures(alive, (), b) ==> b) ==> r != PollAction::Stop,
        (forall|x: Result<bool>| call_ensures(idle, (), x) ==> x == Ok::<bool, YtcliError>(true)) && (forall|b: bool|
            call_ensures(alive, (), b) ==> b) && final(monitor).heard() ==> r == PollAction::Advance,
        (forall|x: Result<bool>| call_ensures(idle, (), x) ==> x == Ok::<bool, YtcliError>(false))
            ==> r != PollAction::Advance,
{
    let pos = past_start();
    match pos {
        Ok(b) => {
            assert(call_ensures(past_start, (), Ok::<bool, YtcliError>(b)));
            monitor.observe_position(b);
        },
        Err(e) => {
            assert(call_ensures(past_start, (), Err::<bool, YtcliError>(e)));
            let up = alive();
            if !up {
                return PollAction::Stop;
            }
        },
    }
    let now_idle = idle();
    match now_idle {
        Ok(x) => {
            assert(call_ensures(idle, (), Ok::<bool, YtcliError>(x)));
            if monitor.advance_due(x) {
                PollAction::Advance
            } else {
                PollAction::Wait
            }
        },
        Err(e) => {
            assert(call_ensures(idle, (), Err::<bool, YtcliError>(e)));
            let up = alive();
            if !up {
                PollAction::Stop
            } else {
                PollAction::Wait
            }
        },
    }
}

/// The state with the auto-advance pid set to `pid`, all else kept.
pub open spec fn with_watch(st: AppState, pid: Option<u32>) -> AppState {
    AppState { watch_pid: pid, ..st }
}

/// Makes sure an auto-advance process runs. A recorded pid that `is_watch`
/// confirms is kept; a stale one is forgotten, and `spawn` starts a new
/// process whose pid is recorded (when it cannot, a warning is all, and no
/// pid is recorded). Returns whether the state changed and is to be saved.
pub fn ensure_running<W, S>(state: &mut AppState, is_watch: W, spawn: S) -> (changed: bool)
    where
        W: Fn(u32) -> bool,
        S: FnOnce() -> Option<u32>,
    requires
        forall|p: u32| call_requires(is_watch, (p,)),
        call_requires(spawn, ()),
    ensures
        changed <==> *final(state) != *old(state),
        *final(state) == with_watch(*old(state), final(state).watch_pid),
        final(state).watch_pid matches Some(p) ==> (old(state).watch_pid == Some(p) && call_ensures(
            is_watch,
            (p,),
            true,
        )) || call_ensures(spawn, (), Some(p)),
        final(state).watch_pid is None ==> call_ensures(spawn, (), None::<u32>),
        old(state).watch_pid matches Some(p) ==> ((forall|b: bool| #[trigger] call_ensures(is_watch, (p,), b) ==> b)
            ==> !changed && *final(state) == *old(state)),
{
    let before = state.watch_pid;
    if let Some(pid) = state.watch_pid {
        if is_watch(pid) {
            return false;
        }
        state.watch_pid = None;
    }
    match spawn() {
        Some(child) => {
            state.watch_pid = Some(child);
        },
        None => {},
    }
    let changed = match (before, state.watch_pid) {
        (Some(a), Some(b)) => a != b,
        (None, None) => false,
        _ => true,
    };
    proof {
        if !changed {
            assert(*state == *old(state));
        } else {
            assert(state.watch_pid != old(state).watch_pid);
        }
    }
    changed
}

/// Forgets the recorded auto-advance process; returns its pid when
/// `is_watch` confirms that it is still ours, for the caller to stop it.
pub fn kill_watch<W>(state: &mut AppState, is_watch: W) -> (r: Option<u32>)
    where
        W: Fn(u32) -> bool,
    requires
        forall|p: u32| call_requires(is_watch, (p,)),
    ensures
        *final(state) == with_watch(*old(state), None),
        r matches Some(p) ==> old(state).watch_pid == Some(p) && call_ensures(is_watch, (p,), true),
        r is None ==> (old(state).watch_pid matches Some(p) ==> call_ensures(is_watch, (p,), false)),
{
    match state.watch_pid.take() {
        Some(pid) => if is_watch(pid) {
            Some(pid)
        } else {
            None
        },
        None => None,
    }
}

/// At the start of the auto-advance loop: when another process
/// (`is_watch` confirms it) is recorded, this one is not needed (`false`);
/// otherwise this process, `own_pid`, is recorded (`true`, to be saved).
pub fn claim_watch<W>(state: &mut AppState, own_pid: u32, is_watch: W) -> (r: bool)
    where
        W: Fn(u32) -> bool,
    requires
        forall|p: u32| call_requires(is_watch, (p,)),
    ensures
        !r ==> *final(state) == *old(state) && (old(state).watch_pid matches Some(p) && p != own_pid
            && call_ensures(is_watch, (p,), true)),
        r ==> *final(state) == with_watch(*old(state), Some(own_pid)),
        r ==> (old(state).watch_pid matches Some(p) ==> (p != own_pid ==> call_ensures(is_watch, (p,), false))),
{
    if let Some(pid) = state.watch_pid {
        if pid != own_pid && is_watch(pid) {
            return false;
        }
    }
    state.watch_pid = Some(own_pid);
    true
}

/// When the auto-advance loop ends: forgets its own pid if it is the one
/// recorded. Returns whether the state changed and is to be saved.
pub fn clear_own_pid(state: &mut AppState, own_pid: u32) -> (changed: bool)
    ensures
        changed == (old(state).watch_pid == Some(own_pid)),
        changed ==> *final(state) == with_watch(*old(state), None),
        !changed ==> *final(state) == *old(state),
{
    if state.watch_pid == Some(own_pid) {
        state.watch_pid = None;
        true
    } else {
        false
    }
}

} // verus!
