//! What the commands show and decide, apart from talking to mpv and yt-dlp.

use vstd::prelude::*;
use crate::error::{Result, YtcliError};
use crate::paths::{path_components, path_join, same_path};
use crate::queue::{
    apply_index, clear_loop, decide_prev, enqueue, next_index, playback_consistent, prev_decision, replace_queue,
    same_session_data, try_next_index, PrevAction,
};
use crate::state::{AppState, Track};
use crate::text::{
    all_digits, concat2, concat3, concat4, concat5, decimal, decimal_string, digits_part, digits_value,
    lemma_decimal_spells, parse_usize, unsigned_value,
};

verus! {

broadcast use vstd::function::group_function_axioms;

/// `n` on at least two digits, as `{:02}` writes it.
pub open spec fn two_digits(n: nat) -> Seq<char> {
    if n < 10 { seq!['0'] + decimal(n) } else { decimal(n) }
}

/// The seconds and minutes fields of a clock are always exactly two
/// digits that spell the number: `5` is written `05`, `10` is `10`.
pub proof fn law_two_digits_spell_the_number(n: nat)
    requires
        n < 100,
    ensures
        two_digits(n).len() == 2,
        all_digits(two_digits(n)),
        digits_value(two_digits(n)) == n,
{
    lemma_decimal_spells(n);
    let t = two_digits(n);
    if n < 10 {
        let d = decimal(n);
        assert(t =~= seq!['0', d[0]]);
        assert(t.drop_last() =~= seq!['0']);
        assert(seq!['0'].drop_last() =~= Seq::<char>::empty());
        assert(digits_value(Seq::<char>::empty()) == 0);
        assert(seq!['0'].last() == '0');
        assert(digits_value(seq!['0']) == digits_value(seq!['0'].drop_last()) * 10 + (('0' as u32) - ('0' as u32)) as nat);
        assert(digits_value(seq!['0']) == 0);
        assert(d.drop_last() =~= Seq::<char>::empty());
        assert(digits_value(d) == ((d.last() as u32) - ('0' as u32)) as nat);
        assert(t.last() == d.last());
        assert forall|i: int| 0 <= i < t.len() implies crate::text::is_digit(#[trigger] t[i]) by {
            if i == 1 {
                assert(t[1] == d[0]);
            }
        }
    }
}

/// A time as `m:ss`, or `h:mm:ss` from one hour on.
pub open spec fn clock_text(s: nat) -> Seq<char> {
    let h = s / 3600;
    let m = (s % 3600) / 60;
    let sec = s % 60;
    if h > 0 {
        decimal(h) + ":"@ + two_digits(m) + ":"@ + two_digits(sec)
    } else {
        decimal(m) + ":"@ + two_digits(sec)
    }
}

fn two_digit_string(n: u64) -> (r: String)
    ensures
        r@ == two_digits(n as nat),
{
    let d = decimal_string(n);
    if n < 10 {
        proof {
            reveal_strlit("0");
        }
        let r = concat2("0", d.as_str());
        assert(r@ =~= seq!['0'] + decimal(n as nat));
        r
    } else {
        d
    }
}

/// A clock reads back as the time it shows: its last field is the seconds
/// on two digits after a `:`; below an hour, what comes before is the
/// minutes; from an hour on, the minutes on two digits and the hours come
/// before, each after its own `:`.
pub proof fn law_clock_reads_back(s: nat)
    ensures
        clock_text(s).len() >= 4,
        clock_text(s)[clock_text(s).len() - 3] == ':',
        digits_value(clock_text(s).subrange(clock_text(s).len() - 2, clock_text(s).len() as int)) == s % 60,
        all_digits(clock_text(s).subrange(clock_text(s).len() - 2, clock_text(s).len() as int)),
        s < 3600 ==> digits_value(clock_text(s).subrange(0, clock_text(s).len() - 3)) == s / 60,
        s >= 3600 ==> {
            &&& clock_text(s).len() >= 7
            &&& clock_text(s)[clock_text(s).len() - 6] == ':'
            &&& digits_value(clock_text(s).subrange(clock_text(s).len() - 5, clock_text(s).len() - 3)) == (s % 3600)
                / 60
            &&& digits_value(clock_text(s).subrange(0, clock_text(s).len() - 6)) == s / 3600
        },
{
    let c = clock_text(s);
    let h = s / 3600;
    let m = (s % 3600) / 60;
    let sec = s % 60;
    law_two_digits_spell_the_number(sec);
    let ss = two_digits(sec);
    reveal_strlit(":");
    if h > 0 {
        law_two_digits_spell_the_number(m);
        lemma_decimal_spells(h);
        let hd = decimal(h);
        let mm = two_digits(m);
        assert(c == hd + ":"@ + mm + ":"@ + ss);
        let n = c.len() as int;
        assert(n == hd.len() + 6);
        assert(c.subrange(n - 2, n) =~= ss);
        assert(c.subrange(n - 5, n - 3) =~= mm);
        assert(c.subrange(0, n - 6) =~= hd);
        assert(c[n - 3] == ':');
        assert(c[n - 6] == ':');
        assert(s >= 3600);
    } else {
        lemma_decimal_spells(m);
        let md = decimal(m);
        assert(c == md + ":"@ + ss);
        let n = c.len() as int;
        assert(c.subrange(n - 2, n) =~= ss);
        assert(c.subrange(0, n - 3) =~= md);
        assert(c[n - 3] == ':');
        assert(s < 3600);
        assert(m == s / 60);
    }
}

/// A number of seconds as a clock: `m:ss`, or `h:mm:ss` from one hour on.
pub fn format_clock(secs: u64) -> (r: String)
    ensures
        r@ == clock_text(secs as nat),
{
    let hours = secs / 3600;
    let minutes = (secs % 3600) / 60;
    let seconds = secs % 60;
    let s = two_digit_string(seconds);
    if hours > 0 {
        let h = decimal_string(hours);
        let m = two_digit_string(minutes);
        let head = concat3(h.as_str(), ":", m.as_str());
        concat3(head.as_str(), ":", s.as_str())
    } else {
        let m = decimal_string(minutes);
        concat3(m.as_str(), ":", s.as_str())
    }
}

/// A track length for listings: its clock, or `--:--` when unknown.
pub open spec fn duration_text(d: Option<u64>) -> Seq<char> {
    match d {
        Some(s) => clock_text(s as nat),
        None => "--:--"@,
    }
}

/// A track length for listings.
pub fn format_duration(duration_secs: Option<u64>) -> (r: String)
    ensures
        r@ == duration_text(duration_secs),
{
    match duration_secs {
        Some(seconds) => format_clock(seconds),
        None => "--:--".to_owned(),
    }
}

/// One line of `queue`: `>` on the current track, the 1-based position,
/// title and uploader, and `🔁` on the current track when it repeats.
pub open spec fn queue_line_text(index_1based: usize, t: Track, is_current: bool, loop_on: bool) -> Seq<char> {
    (if is_current { ">"@ } else { " "@ }) + " "@ + decimal(index_1based as nat) + ". "@ + t.title@
        + " — "@ + t.uploader@ + (if is_current && loop_on { " 🔁"@ } else { ""@ })
}

/// One line of the `queue` listing.
pub fn format_queue_line(index_1based: usize, track: &Track, is_current: bool, loop_on: bool) -> (r: String)
    ensures
        r@ == queue_line_text(index_1based, *track, is_current, loop_on),
{
    let marker = if is_current { ">" } else { " " };
    let loop_mark = if is_current && loop_on { " 🔁" } else { "" };
    let n = decimal_string(index_1based as u64);
    let head = concat5(marker, " ", n.as_str(), ". ", track.title.as_str());
    concat4(head.as_str(), " — ", track.uploader.as_str(), loop_mark)
}

/// One line of the `search` listing: `n. title — uploader [length]`.
pub open spec fn search_line_text(index_1based: usize, t: Track) -> Seq<char> {
    decimal(index_1based as nat) + ". "@ + t.title@ + " — "@ + t.uploader@ + " ["@
        + duration_text(t.duration_secs) + "]"@
}

/// One line of the `search` listing.
pub fn format_search_line(index_1based: usize, track: &Track) -> (r: String)
    ensures
        r@ == search_line_text(index_1based, *track),
{
    let n = decimal_string(index_1based as u64);
    let d = format_duration(track.duration_secs);
    let head = concat5(n.as_str(), ". ", track.title.as_str(), " — ", track.uploader.as_str());
    concat4(head.as_str(), " [", d.as_str(), "]")
}

/// The track that `play N` or `add N` names: the N-th result of the last
/// search, counted from 1.
pub open spec fn play_target_index(target: Seq<char>) -> Option<nat> {
    match unsigned_value(target) {
        Some(n) if 1 <= n <= usize::MAX => Some(n),
        _ => None,
    }
}

/// Every position of the last search can be named: the decimal number
/// `n` (from 1 on, as far as `usize` reaches) is the target of the n-th
/// result, so `play 10` after a search of ten results plays the tenth.
pub proof fn law_every_position_is_a_target(n: nat)
    requires
        1 <= n <= usize::MAX,
    ensures
        play_target_index(decimal(n)) == Some(n),
{
    lemma_decimal_spells(n);
    let d = decimal(n);
    assert(crate::text::is_digit(d[0]));
    assert(digits_part(d) == d);
    assert(unsigned_value(d) == Some(n));
}

/// Only a number of at least 1 names a position: a target that `parse`
/// does not read as an unsigned number, and `0`, name none (and so are
/// searched for as text); a target that names a position names the number
/// it spells.
pub proof fn law_targets_are_positive_numbers(target: Seq<char>)
    ensures
        unsigned_value(target) is None ==> play_target_index(target) is None,
        unsigned_value(target) == Some(0nat) ==> play_target_index(target) is None,
        play_target_index(target) matches Some(n) ==> unsigned_value(target) == Some(n) && n >= 1,
{
}

/// Resolves a numeric target against the last search. A target that is
/// not a number of at least 1 is `NoSearchResults`; without a last search
/// it is `NoLastSearch`; past its end, `IndexOutOfRange`.
pub fn resolve_play_target(state: &AppState, target: &str) -> (r: Result<Track>)
    ensures
        match play_target_index(target@) {
            None => r matches Err(e) && e is NoSearchResults,
            Some(n) => if state.last_search@.len() == 0 {
                r matches Err(e) && e is NoLastSearch
            } else if n <= state.last_search@.len() {
                r matches Ok(t) && t == state.last_search@[n - 1]
            } else {
                r matches Err(e) && e == (YtcliError::IndexOutOfRange {
                    index: n as usize,
                    len: state.last_search@.len() as usize,
                })
            },
        },
{
    let index = match parse_usize(target) {
        Some(index) if index >= 1 => index,
        _ => return Err(YtcliError::NoSearchResults),
    };
    if state.last_search.len() == 0 {
        return Err(YtcliError::NoLastSearch);
    }
    if index - 1 < state.last_search.len() {
        Ok(state.last_search[index - 1].clone())
    } else {
        Err(YtcliError::IndexOutOfRange { index, len: state.last_search.len() })
    }
}

/// The track that `status` and `now` describe: the selected one, else the
/// one recorded as playing.
pub open spec fn status_track(s: AppState) -> Option<Track> {
    match s.current_index {
        Some(i) if i < s.queue@.len() => Some(s.queue@[i as int]),
        _ => s.now_playing,
    }
}

/// The line of `status` and `now`: `▶` (or `🔁` when looping), `[i/n]`,
/// title, uploader, and position / duration as given.
pub open spec fn status_text(s: AppState, position: Seq<char>, duration: Seq<char>) -> Seq<char> {
    match status_track(s) {
        None => "mpv está activo, pero no hay información de la pista."@,
        Some(t) => {
            let current: nat = match s.current_index {
                Some(i) => (i + 1) as nat,
                None => 1,
            };
            let total: nat = if s.queue@.len() > 1 { s.queue@.len() } else { 1 };
            (if s.loop_current { "🔁"@ } else { "▶"@ }) + " ["@ + decimal(current) + "/"@
                + decimal(total) + "] "@ + t.title@ + " — "@ + t.uploader@ + "  "@ + position
                + " / "@ + duration
        },
    }
}

/// The line that `status` and `now` print.
pub fn status_line(state: &AppState, position: &str, duration: &str) -> (r: String)
    requires
        state.current_index matches Some(i) ==> i < usize::MAX,
    ensures
        r@ == status_text(*state, position@, duration@),
{
    let track = match state.current_index {
        Some(i) if i < state.queue.len() => Some(&state.queue[i]),
        _ => match &state.now_playing {
            Some(t) => Some(t),
            None => None,
        },
    };
    let track = match track {
        Some(t) => t,
        None => return "mpv está activo, pero no hay información de la pista.".to_owned(),
    };
    let current: u64 = match state.current_index {
        Some(i) => (i + 1) as u64,
        None => 1,
    };
    let total: u64 = if state.queue.len() > 1 { state.queue.len() as u64 } else { 1 };
    let icon = if state.loop_current { "🔁" } else { "▶" };
    let c = decimal_string(current);
    let n = decimal_string(total);
    let a = concat5(icon, " [", c.as_str(), "/", n.as_str());
    let b = concat5(a.as_str(), "] ", track.title.as_str(), " — ", track.uploader.as_str());
    concat5(b.as_str(), "  ", position, " / ", duration)
}

/// `volume` accepts 0 to 100.
pub fn check_volume(level: u8) -> (r: Result<()>)
    ensures
        level <= 100 ==> r is Ok,
        level > 100 ==> (r matches Err(e) && e == YtcliError::InvalidVolume(level)),
{
    if level > 100 {
        return Err(YtcliError::InvalidVolume(level));
    }
    Ok(())
}

/// `loop` turns repetition on; there must be something playing or selected.
pub fn enable_loop(state: &mut AppState) -> (r: Result<()>)
    ensures
        old(state).now_playing is None && old(state).current_index is None ==> (r matches Err(e)
            && e is NotPlaying && *final(state) == *old(state)),
        !(old(state).now_playing is None && old(state).current_index is None) ==> (r is Ok
            && final(state).loop_current && final(state).queue == old(state).queue
            && final(state).current_index == old(state).current_index
            && final(state).now_playing == old(state).now_playing),
{
    if state.now_playing.is_none() && state.current_index.is_none() {
        return Err(YtcliError::NotPlaying);
    }
    state.loop_current = true;
    Ok(())
}

/// The socket of an mpv that answers: the saved one when `alive` finds it
/// answering, else the default `fallback` (not asked twice when it is the
/// saved one) when it answers, else none.
pub fn live_socket<A>(saved: Option<&String>, fallback: &String, alive: A) -> (r: Option<String>)
    where
        A: Fn(&String) -> bool,
    requires
        forall|s: &String| call_requires(alive, (s,)),
    ensures
        r matches Some(s) ==> (saved matches Some(p) && s == *p && call_ensures(alive, (p,), true)) || (
        s == *fallback && call_ensures(alive, (fallback,), true)),
        r matches Some(s) ==> (s == *fallback && !(saved matches Some(p) && s == *p)) ==> !(saved matches Some(p)
            && path_components(p@) == path_components(fallback@)),
        r is None ==> (saved matches Some(p) ==> call_ensures(alive, (p,), false)),
        r is None ==> !(saved matches Some(p) && path_components(p@) == path_components(fallback@))
            ==> call_ensures(alive, (fallback,), false),
        saved matches Some(p) ==> ((forall|b: bool| call_ensures(alive, (p,), b) ==> b) ==> r == Some(*p)),
        (saved matches Some(p) ==> (forall|b: bool| call_ensures(alive, (p,), b) ==> !b) && path_components(p@)
            != path_components(fallback@)) && (forall|b: bool| call_ensures(alive, (fallback,), b) ==> b)
            ==> r == Some(*fallback),
{
    if let Some(socket) = saved {
        if alive(socket) {
            return Some(socket.clone());
        }
    }
    let same = match saved {
        Some(socket) => same_path(socket.as_str(), fallback.as_str()),
        None => false,
    };
    if !same && alive(fallback) {
        return Some(fallback.clone());
    }
    None
}

/// The state with its socket set to `s`, all else kept.
pub open spec fn with_socket(st: AppState, s: String) -> AppState {
    AppState { ipc_socket: Some(s), ..st }
}

/// The state with the running player forgotten (see `clear_playback`).
pub open spec fn playback_cleared(st: AppState) -> AppState {
    AppState { mpv_pid: None, ipc_socket: None, watch_pid: None, now_playing: None, ..st }
}

/// How looking for the running mpv failed, from `before` to `after`: the
/// saved socket does not answer `alive`, nor does the default `fallback`
/// (not asked when it is the saved socket's path), and playback is
/// forgotten.
pub open spec fn socket_failure<A: Fn(&String) -> bool>(
    before: AppState,
    after: AppState,
    fallback: String,
    alive: A,
    e: YtcliError,
) -> bool {
    &&& e is NotPlaying
    &&& after == playback_cleared(before)
    &&& no_live_socket(before.ipc_socket, fallback, alive)
}

/// Neither the `saved` socket nor the default `fallback` (not asked when it
/// is the saved socket's path) answers `alive`.
pub open spec fn no_live_socket<A: Fn(&String) -> bool>(saved: Option<String>, fallback: String, alive: A) -> bool {
    &&& saved matches Some(p) ==> call_ensures(alive, (&p,), false)
    &&& !(saved matches Some(p) && path_components(p@) == path_components(fallback@)) ==> call_ensures(
        alive,
        (&fallback,),
        false,
    )
}

/// The state with the loop turned off, all else kept.
pub open spec fn loop_cleared(st: AppState) -> AppState {
    AppState { loop_current: false, ..st }
}

/// The socket of the running mpv, for commands that need one: the saved
/// socket or the default `fallback`, whichever answers (see
/// [`live_socket`]); it becomes the saved socket. When none answers,
/// playback is forgotten and the command fails with `NotPlaying`. The
/// caller saves the state.
pub fn require_socket<A>(state: &mut AppState, fallback: &String, alive: A) -> (r: Result<String>)
    where
        A: Fn(&String) -> bool,
    requires
        forall|s: &String| call_requires(alive, (s,)),
    ensures
        r matches Ok(s) ==> *final(state) == with_socket(*old(state), s) && call_ensures(alive, (&s,), true)
            && (old(state).ipc_socket == Some(s) || s == *fallback),
        r matches Err(e) ==> socket_failure(*old(state), *final(state), *fallback, alive, e),
        old(state).ipc_socket matches Some(p) ==> ((forall|b: bool| call_ensures(alive, (&p,), b) ==> b)
            ==> r == Ok::<String, YtcliError>(p)),
{
    let live = live_socket(state.ipc_socket.as_ref(), fallback, alive);
    match live {
        Some(socket) => {
            state.ipc_socket = Some(socket.clone());
            Ok(socket)
        },
        None => {
            state.clear_playback();
            Err(YtcliError::NotPlaying)
        },
    }
}

/// The name under which a fetched playlist is announced.
pub fn playlist_label(title: Option<String>) -> (r: String)
    ensures
        match title {
            Some(t) => r == t,
            None => r@ == "playlist"@,
        },
{
    match title {
        Some(t) => t,
        None => "playlist".to_owned(),
    }
}

/// `playlist --play`: the fetched tracks become the queue and the first
/// one is selected, with the loop off. There must be at least one track.
pub fn start_playlist(state: &mut AppState, tracks: Vec<Track>)
    requires
        tracks@.len() > 0,
    ensures
        final(state).queue == tracks,
        final(state).current_index == Some(0usize),
        final(state).now_playing == Some(tracks@[0]),
        !final(state).loop_current,
        final(state).mpv_pid == old(state).mpv_pid,
        final(state).ipc_socket == old(state).ipc_socket,
        final(state).watch_pid == old(state).watch_pid,
        final(state).last_search == old(state).last_search,
        playback_consistent(*final(state)),
{
    clear_loop(state);
    state.queue = tracks;
    apply_index(state, 0);
}

/// `playlist` without `--play`: the fetched tracks go to the end of the
/// queue, in order; the selection does not move.
pub fn enqueue_all(state: &mut AppState, tracks: Vec<Track>)
    ensures
        final(state).queue@ == old(state).queue@ + tracks@,
        final(state).current_index == old(state).current_index,
        final(state).now_playing == old(state).now_playing,
        final(state).loop_current == old(state).loop_current,
        final(state).mpv_pid == old(state).mpv_pid,
        final(state).ipc_socket == old(state).ipc_socket,
        final(state).watch_pid == old(state).watch_pid,
        final(state).last_search == old(state).last_search,
        playback_consistent(*old(state)) ==> playback_consistent(*final(state)),
{
    let ghost start = *state;
    let mut i: usize = 0;
    while i < tracks.len()
        invariant
            i <= tracks@.len(),
            state.queue@ == start.queue@ + tracks@.take(i as int),
            state.current_index == start.current_index,
            state.now_playing == start.now_playing,
            state.loop_current == start.loop_current,
            state.mpv_pid == start.mpv_pid,
            state.ipc_socket == start.ipc_socket,
            state.watch_pid == start.watch_pid,
            state.last_search == start.last_search,
            playback_consistent(start) ==> playback_consistent(*state),
        decreases tracks@.len() - i,
    {
        enqueue(state, tracks[i].clone());
        i = i + 1;
        assert(state.queue@ =~= start.queue@ + tracks@.take(i as int));
    }
    assert(tracks@.take(i as int) =~= tracks@);
}

/// The track of the queue at `index`, which `next` and `prev` load;
/// `NoNext` when there is none.
pub fn queue_track(state: &AppState, index: usize) -> (r: Result<Track>)
    ensures
        index < state.queue@.len() ==> r == Ok::<Track, YtcliError>(state.queue@[index as int]),
        index >= state.queue@.len() ==> (r matches Err(e) && e is NoNext),
{
    if index < state.queue.len() {
        Ok(state.queue[index].clone())
    } else {
        Err(YtcliError::NoNext)
    }
}

/// The track that `play` or `add` names: a number of at least 1 is a
/// result of the last search (see [`resolve_play_target`]); anything else
/// is a query, and its first search result (`search` runs it) is taken.
pub fn resolve_target<S>(state: &AppState, target: &String, search: S) -> (r: Result<Track>)
    where
        S: FnOnce(&String) -> Result<Vec<Track>>,
    requires
        call_requires(search, (target,)),
    ensures
        play_target_index(target@) matches Some(n) ==> if state.last_search@.len() == 0 {
            r matches Err(e) && e is NoLastSearch
        } else if n <= state.last_search@.len() {
            r matches Ok(t) && t == state.last_search@[n - 1]
        } else {
            r matches Err(e) && e == (YtcliError::IndexOutOfRange {
                index: n as usize,
                len: state.last_search@.len() as usize,
            })
        },
        play_target_index(target@) is None ==> {
            &&& r matches Ok(t) ==> exists|v: Vec<Track>| #[trigger] call_ensures(search, (target,), Ok::<Vec<Track>, YtcliError>(v))
                && v@.len() > 0 && t == v@[0]
            &&& r matches Err(e) ==> (exists|v: Vec<Track>| #[trigger] call_ensures(search, (target,), Ok::<Vec<Track>, YtcliError>(v)) && v@.len() == 0 && e is NoSearchResults)
                || call_ensures(search, (target,), Err::<Vec<Track>, YtcliError>(e))
        },
{
    match parse_usize(target.as_str()) {
        Some(index) if index >= 1 => {
            return resolve_play_target(state, target.as_str());
        },
        _ => {},
    }
    let found = search(target);
    match found {
        Ok(v) => {
            assert(call_ensures(search, (target,), Ok::<Vec<Track>, YtcliError>(v)));
            if v.len() > 0 {
                Ok(v[0].clone())
            } else {
                Err(YtcliError::NoSearchResults)
            }
        },
        Err(e) => Err(e),
    }
}

/// Loads the queue's track at `index` into the running mpv and selects it:
/// the socket comes from [`require_socket`] (with `fallback` and `alive`),
/// and `load`
/// resolves the track and hands it to mpv there.
pub fn load_queue_index<A, L>(
    state: &mut AppState,
    index: usize,
    fallback: &String,
    alive: A,
    load: L,
) -> (r: Result<()>)
    where
        A: Fn(&String) -> bool,
        L: FnOnce(&String, &Track) -> Result<()>,
    requires
        forall|s: &String| call_requires(alive, (s,)),
        forall|s: &String, t: &Track| call_requires(load, (s, t)),
    ensures
        r is Ok ==> {
            &&& index < old(state).queue@.len()
            &&& final(state).current_index == Some(index)
            &&& final(state).now_playing == Some(old(state).queue@[index as int])
            &&& final(state).queue == old(state).queue
            &&& final(state).loop_current == old(state).loop_current
            &&& final(state).ipc_socket matches Some(s) && call_ensures(alive, (&s,), true) && call_ensures(
                load,
                (&s, &old(state).queue@[index as int]),
                Ok::<(), YtcliError>(()),
            )
        },
        r matches Err(e) ==> {
            ||| socket_failure(*old(state), *final(state), *fallback, alive, e)
            ||| (e is NoNext && index >= old(state).queue@.len())
            ||| (index < old(state).queue@.len() && exists|s: String| call_ensures(alive, (&s,), true)
                && #[trigger] call_ensures(load, (&s, &old(state).queue@[index as int]), Err::<(), YtcliError>(e)))
        },
{
    let socket = require_socket(state, fallback, alive)?;
    load_queue_index_at_socket(state, index, &socket, load)
}

/// Loads the queue's track at `index` into the mpv at `socket` with `load`
/// and selects it; `NoNext` when there is no such track.
pub fn load_queue_index_at_socket<L>(state: &mut AppState, index: usize, socket: &String, load: L) -> (r: Result<()>)
    where
        L: FnOnce(&String, &Track) -> Result<()>,
    requires
        forall|s: &String, t: &Track| call_requires(load, (s, t)),
    ensures
        index >= old(state).queue@.len() ==> (r matches Err(e) && e is NoNext),
        r is Err ==> *final(state) == *old(state),
        r matches Err(e) ==> (e is NoNext && index >= old(state).queue@.len()) || (index < old(state).queue@.len()
            && call_ensures(load, (socket, &old(state).queue@[index as int]), Err::<(), YtcliError>(e))),
        r is Ok ==> {
            &&& index < old(state).queue@.len()
            &&& call_ensures(load, (socket, &old(state).queue@[index as int]), Ok::<(), YtcliError>(()))
            &&& final(state).current_index == Some(index)
            &&& final(state).now_playing == Some(old(state).queue@[index as int])
            &&& final(state).queue == old(state).queue
            &&& same_session_data(*final(state), *old(state))
        },
{
    let track = queue_track(state, index)?;
    let res = load(socket, &track);
    match res {
        Ok(u) => {
            assert(res == Ok::<(), YtcliError>(u));
        },
        Err(e) => return Err(e),
    }
    apply_index(state, index);
    Ok(())
}

/// `next`: selects and loads the track after the current one, with the
/// loop off; `NoNext` at the end of the queue. The running mpv is found as
/// [`require_socket`] finds it. The caller saves the state.
pub fn cmd_next<A, L>(state: &mut AppState, fallback: &String, alive: A, load: L) -> (r: Result<()>)
    where
        A: Fn(&String) -> bool,
        L: FnOnce(&String, &Track) -> Result<()>,
    requires
        forall|s: &String| call_requires(alive, (s,)),
        forall|s: &String, t: &Track| call_requires(load, (s, t)),
    ensures
        next_index(*old(state)) is None ==> (r matches Err(e) && e is NoNext && *final(state) == *old(state)),
        next_index(*old(state)) matches Some(n) ==> (r matches Err(e) ==> {
            ||| socket_failure(loop_cleared(*old(state)), *final(state), *fallback, alive, e)
            ||| exists|s: String| call_ensures(alive, (&s,), true) && #[trigger] call_ensures(
                load,
                (&s, &old(state).queue@[n as int]),
                Err::<(), YtcliError>(e),
            )
        }),
        r is Ok ==> (next_index(*old(state)) matches Some(n) && {
            &&& final(state).current_index == Some(n)
            &&& final(state).now_playing == Some(old(state).queue@[n as int])
            &&& final(state).queue == old(state).queue
            &&& !final(state).loop_current
            &&& final(state).ipc_socket matches Some(s) && call_ensures(alive, (&s,), true) && call_ensures(
                load,
                (&s, &old(state).queue@[n as int]),
                Ok::<(), YtcliError>(()),
            )
        }),
{
    let next = try_next_index(state)?;
    clear_loop(state);
    load_queue_index(state, next, fallback, alive, load)
}

/// `play`: the track becomes the whole queue and is selected, with the
/// loop off.
pub fn play_track(state: &mut AppState, track: Track)
    ensures
        final(state).queue@ == seq![track],
        final(state).current_index == Some(0usize),
        final(state).now_playing == Some(track),
        !final(state).loop_current,
        final(state).mpv_pid == old(state).mpv_pid,
        final(state).ipc_socket == old(state).ipc_socket,
        final(state).watch_pid == old(state).watch_pid,
        final(state).last_search == old(state).last_search,
{
    clear_loop(state);
    replace_queue(state, track);
}

/// `prev`: without a current track it fails with `NoPrevious`. Otherwise,
/// on the running mpv (see [`require_socket`]), it restarts the track
/// (`seek_start`, keeping the loop) unless `force` is given or
/// `near_start` finds playback within the first seconds; then it loads
/// the previous track (`load`), turning the loop off, or fails with
/// `NoPrevious` on the first track. The caller saves the state.
pub fn cmd_prev<A, P, S, L>(
    state: &mut AppState,
    force: bool,
    fallback: &String,
    alive: A,
    near_start: P,
    seek_start: S,
    load: L,
) -> (r: Result<PrevAction>)
    where
        A: Fn(&String) -> bool,
        P: FnOnce(&String) -> bool,
        S: FnOnce(&String) -> Result<()>,
        L: FnOnce(&String, &Track) -> Result<()>,
    requires
        forall|s: &String| call_requires(alive, (s,)),
        forall|s: &String| call_requires(near_start, (s,)),
        forall|s: &String| call_requires(seek_start, (s,)),
        forall|s: &String, t: &Track| call_requires(load, (s, t)),
    ensures
        old(state).current_index is None ==> (r matches Err(e) && e is NoPrevious
            && *final(state) == *old(state)),
        old(state).current_index matches Some(c) ==> (r matches Err(e) ==> {
            ||| socket_failure(*old(state), *final(state), *fallback, alive, e)
            ||| (e is NoPrevious && c == 0 && (force || exists|s: String| #[trigger] call_ensures(
                near_start,
                (&s,),
                true,
            )))
            ||| (!force && exists|s: String| call_ensures(near_start, (&s,), false) && #[trigger] call_ensures(
                seek_start,
                (&s,),
                Err::<(), YtcliError>(e),
            ))
            ||| (c > 0 && e is NoNext && c - 1 >= old(state).queue@.len() && (force || exists|s: String|
                #[trigger] call_ensures(near_start, (&s,), true)))
            ||| (c > 0 && c - 1 < old(state).queue@.len() && exists|s: String| (force || call_ensures(
                near_start,
                (&s,),
                true,
            )) && #[trigger] call_ensures(load, (&s, &old(state).queue@[c - 1]), Err::<(), YtcliError>(e)))
        }),
        r matches Ok(PrevAction::SeekZero) ==> {
            &&& !force
            &&& (final(state).ipc_socket matches Some(s) && *final(state) == with_socket(*old(state), s)
                && call_ensures(alive, (&s,), true) && call_ensures(seek_start, (&s,), Ok::<(), YtcliError>(()))
                && call_ensures(near_start, (&s,), false))
        },
        r matches Ok(PrevAction::GoTo(i)) ==> (old(state).current_index matches Some(c) && {
            &&& c > 0 && i == c - 1
            &&& force || (final(state).ipc_socket matches Some(s) && call_ensures(near_start, (&s,), true))
            &&& final(state).current_index == Some(i)
            &&& final(state).now_playing == Some(old(state).queue@[i as int])
            &&& final(state).queue == old(state).queue
            &&& !final(state).loop_current
            &&& final(state).ipc_socket matches Some(s) && call_ensures(alive, (&s,), true) && call_ensures(
                load,
                (&s, &old(state).queue@[i as int]),
                Ok::<(), YtcliError>(()),
            )
        }),
{
    let current = match state.current_index {
        Some(c) => c,
        None => return Err(YtcliError::NoPrevious),
    };
    let socket = require_socket(state, fallback, alive)?;
    let near = near_start(&socket);
    let action = decide_prev(force, near, current)?;
    match action {
        PrevAction::SeekZero => {
            let res = seek_start(&socket);
            match res {
                Ok(u) => {
                    assert(res == Ok::<(), YtcliError>(u));
                },
                Err(e) => return Err(e),
            }
        },
        PrevAction::GoTo(i) => {
            clear_loop(state);
            load_queue_index_at_socket(state, i, &socket, load)?;
        },
    }
    Ok(action)
}

/// The track that `save` stores and `status` describes: the selected one,
/// else the one recorded as playing.
pub fn current_track(state: &AppState) -> (r: Option<Track>)
    ensures
        r == status_track(*state),
{
    match state.current_index {
        Some(i) if i < state.queue.len() => Some(state.queue[i].clone()),
        _ => match &state.now_playing {
            Some(t) => Some(t.clone()),
            None => None,
        },
    }
}

/// `stop`: the mpv that answers (see [`live_socket`]) is told to `quit`,
/// then playback and the queue are forgotten; the last search stays. When
/// no mpv answers there is nothing to quit. The caller saves the state.
pub fn stop_session<A, Q>(state: &mut AppState, fallback: &String, alive: A, quit: Q) -> (r: Result<()>)
    where
        A: Fn(&String) -> bool,
        Q: FnOnce(&String) -> Result<()>,
    requires
        forall|s: &String| call_requires(alive, (s,)),
        forall|s: &String| call_requires(quit, (s,)),
    ensures
        r is Ok ==> {
            &&& final(state).queue@.len() == 0
            &&& final(state).current_index is None
            &&& !final(state).loop_current
            &&& final(state).now_playing is None
            &&& final(state).mpv_pid is None
            &&& final(state).ipc_socket is None
            &&& final(state).watch_pid is None
            &&& final(state).last_search == old(state).last_search
        },
        r matches Err(e) ==> *final(state) == *old(state) && exists|s: String| call_ensures(alive, (&s,), true)
            && #[trigger] call_ensures(quit, (&s,), Err::<(), YtcliError>(e)),
        r is Ok ==> (no_live_socket(old(state).ipc_socket, *fallback, alive) || exists|s: String|
            call_ensures(alive, (&s,), true) && #[trigger] call_ensures(quit, (&s,), Ok::<(), YtcliError>(()))),
{
    let live = live_socket(state.ipc_socket.as_ref(), fallback, alive);
    if let Some(socket) = live {
        let res = quit(&socket);
        match res {
            Ok(u) => {
                assert(res == Ok::<(), YtcliError>(u));
            },
            Err(e) => return Err(e),
        }
    }
    state.clear_playback();
    state.clear_queue();
    Ok(())
}

} // verus!
