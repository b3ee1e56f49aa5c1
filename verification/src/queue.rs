//! The session queue: replacing, appending, clearing, moving between tracks
//! and shuffling what is still pending.

use vstd::prelude::*;
use crate::error::{Result, YtcliError};
use crate::state::{AppState, Track};

verus! {

broadcast use vstd::seq_lib::group_to_multiset_ensures;

/// What `prev` does: restart the current track, or go to the given index.
#[derive(Debug, Clone, Copy, PartialEq, Eq, Structural)]
pub enum PrevAction {
    SeekZero,
    GoTo(usize),
}

/// While something is selected, the selection is a position of the queue
/// and `now_playing` is the track there.
pub open spec fn playback_consistent(s: AppState) -> bool {
    s.current_index matches Some(i) ==> {
        &&& i < s.queue@.len()
        &&& s.now_playing == Some(s.queue@[i as int])
    }
}

/// The fields that the queue operations leave alone.
pub open spec fn same_session_data(a: AppState, b: AppState) -> bool {
    &&& a.mpv_pid == b.mpv_pid
    &&& a.ipc_socket == b.ipc_socket
    &&& a.watch_pid == b.watch_pid
    &&& a.last_search == b.last_search
    &&& a.loop_current == b.loop_current
}

/// Makes `track` the whole queue and selects it.
pub fn replace_queue(state: &mut AppState, track: Track)
    ensures
        final(state).queue@ == seq![track],
        final(state).current_index == Some(0usize),
        final(state).now_playing == Some(track),
        same_session_data(*final(state), *old(state)),
        playback_consistent(*final(state)),
{
    let mut q: Vec<Track> = Vec::new();
    q.push(track.clone());
    state.queue = q;
    state.current_index = Some(0);
    state.now_playing = Some(track);
    assert(state.queue@ =~= seq![track]);
}

/// Appends `track` at the end of the queue; the selection does not move.
pub fn enqueue(state: &mut AppState, track: Track)
    ensures
        final(state).queue@ == old(state).queue@.push(track),
        final(state).current_index == old(state).current_index,
        final(state).now_playing == old(state).now_playing,
        same_session_data(*final(state), *old(state)),
        playback_consistent(*old(state)) ==> playback_consistent(*final(state)),
{
    state.queue.push(track);
}

/// Drops every track but the current one. Without a valid selection the
/// queue is emptied.
pub fn clear_pending(state: &mut AppState)
    ensures
        match old(state).current_index {
            None => {
                &&& final(state).queue@.len() == 0
                &&& final(state).current_index is None
                &&& final(state).now_playing == old(state).now_playing
            },
            Some(i) => if i < old(state).queue@.len() {
                &&& final(state).queue@ == seq![old(state).queue@[i as int]]
                &&& final(state).current_index == Some(0usize)
                &&& final(state).now_playing == Some(old(state).queue@[i as int])
            } else {
                &&& final(state).queue@.len() == 0
                &&& final(state).current_index is None
                &&& final(state).now_playing == old(state).now_playing
            },
        },
        same_session_data(*final(state), *old(state)),
        playback_consistent(*final(state)),
{
    let index = match state.current_index {
        Some(index) => index,
        None => {
            state.queue = Vec::new();
            return;
        },
    };
    if index >= state.queue.len() {
        state.queue = Vec::new();
        state.current_index = None;
        return;
    }
    let current = state.queue[index].clone();
    let mut q: Vec<Track> = Vec::new();
    q.push(current.clone());
    state.queue = q;
    state.current_index = Some(0);
    state.now_playing = Some(current);
    assert(state.queue@ =~= seq![old(state).queue@[index as int]]);
}

/// The index after the current one, when the queue has one.
pub open spec fn next_index(s: AppState) -> Option<usize> {
    match s.current_index {
        Some(i) => if i + 1 < s.queue@.len() && i < usize::MAX { Some((i + 1) as usize) } else { None },
        None => None,
    }
}

/// The index after the current one; `NoNext` at the end of the queue or
/// without a selection (there is no wrap-around).
pub fn try_next_index(state: &AppState) -> (r: Result<usize>)
    ensures
        match next_index(*state) {
            Some(n) => r matches Ok(m) && m == n,
            None => r matches Err(e) && e is NoNext,
        },
{
    let index = match state.current_index {
        Some(index) => index,
        None => return Err(YtcliError::NoNext),
    };
    if index >= state.queue.len() || index + 1 >= state.queue.len() {
        return Err(YtcliError::NoNext);
    }
    Ok(index + 1)
}

/// What `prev` does at `current_index`: `None` when it must fail because
/// there is no previous track.
pub open spec fn prev_decision(force: bool, near_start: bool, current_index: usize) -> Option<PrevAction> {
    if force || near_start {
        if current_index == 0 { None } else { Some(PrevAction::GoTo((current_index - 1) as usize)) }
    } else {
        Some(PrevAction::SeekZero)
    }
}

/// What `prev` does at `current_index`. `near_start` says whether playback
/// is at most [`PREV_RESTART_SECS`] seconds into the track; `force` always
/// goes back.
pub fn decide_prev(force: bool, near_start: bool, current_index: usize) -> (r: Result<PrevAction>)
    ensures
        match prev_decision(force, near_start, current_index) {
            Some(a) => r matches Ok(b) && b == a,
            None => r matches Err(e) && e is NoPrevious,
        },
{
    if force || near_start {
        if current_index == 0 {
            return Err(YtcliError::NoPrevious);
        }
        return Ok(PrevAction::GoTo(current_index - 1));
    }
    Ok(PrevAction::SeekZero)
}

/// Seconds into a track up to which `prev` goes to the previous track
/// rather than restarting the current one.
pub const PREV_RESTART_SECS: u64 = 3;

/// Selects `index`; `now_playing` becomes the track there, if any.
pub fn apply_index(state: &mut AppState, index: usize)
    ensures
        final(state).current_index == Some(index),
        final(state).now_playing == (if index < old(state).queue@.len() {
            Some(old(state).queue@[index as int])
        } else {
            None::<Track>
        }),
        final(state).queue == old(state).queue,
        same_session_data(*final(state), *old(state)),
        index < old(state).queue@.len() ==> playback_consistent(*final(state)),
{
    state.current_index = Some(index);
    state.now_playing = if index < state.queue.len() {
        Some(state.queue[index].clone())
    } else {
        None
    };
}

/// Turns off the repetition of the current track.
pub fn clear_loop(state: &mut AppState)
    ensures
        !final(state).loop_current,
        final(state).queue == old(state).queue,
        final(state).current_index == old(state).current_index,
        final(state).now_playing == old(state).now_playing,
        final(state).mpv_pid == old(state).mpv_pid,
        final(state).ipc_socket == old(state).ipc_socket,
        final(state).watch_pid == old(state).watch_pid,
        final(state).last_search == old(state).last_search,
{
    state.loop_current = false;
}

/// A small linear congruential generator, enough to shuffle a queue.
pub struct SimpleRng(u64);

/// One step of the generator (the multiplier of Numerical Recipes' LCG).
pub open spec fn lcg_next(x: u64) -> u64 {
    vstd::wrapping::u64_specs::wrapping_add(
        vstd::wrapping::u64_specs::wrapping_mul(x, 6364136223846793005u64),
        1u64,
    )
}

/// The index in `0..len` drawn from the generator state `x`.
pub open spec fn draw(x: u64, len: usize) -> usize {
    ((x as usize) as int % (len as int)) as usize
}

/// The time elapsed since the Unix epoch, in nanoseconds cut to 64 bits.
///
/// Trusted: calls `SystemTime::now` and `duration_since(UNIX_EPOCH)`; the
/// answer depends on the clock and nothing is claimed of it.
#[verifier::external_body]
fn clock_nanos() -> Option<u64> {
    std::time::SystemTime::now()
        .duration_since(std::time::UNIX_EPOCH)
        .ok()
        .map(|d| d.as_nanos() as u64)
}

impl SimpleRng {
    /// The generator's state.
    pub closed spec fn state(&self) -> u64 {
        self.0
    }

    /// A generator seeded from the clock mixed with the process id `pid`
    /// (two processes started in the same instant get different seeds);
    /// the state is always odd.
    pub fn from_entropy(pid: u32) -> (r: Self)
        ensures
            r.state() % 2 == 1,
    {
        let nanos = match clock_nanos() {
            Some(n) => n,
            None => 0x5A17u64,
        };
        Self::from_seed(nanos ^ (pid as u64))
    }

    /// A generator whose state is `seed` with its lowest bit set.
    pub fn from_seed(seed: u64) -> (r: Self)
        ensures
            r.state() == seed | 1,
            r.state() % 2 == 1,
    {
        assert((seed | 1u64) % 2 == 1) by (bit_vector);
        Self(seed | 1)
    }

    /// Advances the generator and returns its new state.
    pub fn next_u64(&mut self) -> (r: u64)
        ensures
            r == lcg_next(old(self).state()),
            final(self).state() == r,
    {
        self.0 = self.0.wrapping_mul(6364136223846793005).wrapping_add(1);
        self.0
    }

    /// An index below `len` drawn from the next state of the generator.
    pub fn gen_range(&mut self, len: usize) -> (r: usize)
        requires
            len > 0,
        ensures
            final(self).state() == lcg_next(old(self).state()),
            r == draw(final(self).state(), len),
            r < len,
    {
        let x = self.next_u64();
        (x as usize) % len
    }
}

/// `s` with the items at `i` and `j` exchanged.
pub open spec fn swapped<T>(s: Seq<T>, i: int, j: int) -> Seq<T> {
    s.update(i, s[j]).update(j, s[i])
}

/// The Fisher-Yates passes over positions `start+1..=i` of `s`, from `i`
/// down, with the generator in state `x`: the order that the shuffle gives.
pub open spec fn fisher_yates_spec<T>(s: Seq<T>, start: int, i: int, x: u64) -> Seq<T>
    decreases i - start,
{
    if i <= start {
        s
    } else {
        let x2 = lcg_next(x);
        let j = start + draw(x2, (i - start + 1) as usize);
        fisher_yates_spec(swapped(s, i, j), start, i - 1, x2)
    }
}

/// The generator state after the passes of [`fisher_yates_spec`].
pub open spec fn fisher_yates_state(start: int, i: int, x: u64) -> u64
    decreases i - start,
{
    if i <= start {
        x
    } else {
        fisher_yates_state(start, i - 1, lcg_next(x))
    }
}

/// Exchanges the items at `i` and `j`.
pub(crate) fn swap_items<T>(items: &mut Vec<T>, i: usize, j: usize)
    requires
        i < old(items)@.len(),
        j < old(items)@.len(),
    ensures
        final(items)@ == swapped(old(items)@, i as int, j as int),
{
    let ghost s = items@;
    if i == j {
        assert(swapped(s, i as int, j as int) =~= s);
        return;
    }
    let (a, b) = if i < j {
        (i, j)
    } else {
        (j, i)
    };
    let mut x = items.remove(b);
    items.set_and_swap(a, &mut x);
    items.insert(b, x);
    assert(items@ =~= swapped(s, i as int, j as int));
}

/// Exchanging two items keeps the multiset of items.
pub proof fn lemma_swapped_multiset<T>(s: Seq<T>, i: int, j: int)
    requires
        0 <= i < s.len(),
        0 <= j < s.len(),
    ensures
        swapped(s, i, j).to_multiset() =~= s.to_multiset(),
{
    broadcast use vstd::seq_lib::to_multiset_update;
    broadcast use vstd::multiset::group_multiset_axioms;
    let s1 = s.update(i, s[j]);
    assert(s1.to_multiset() == s.to_multiset().insert(s[j]).remove(s[i]));
    assert(swapped(s, i, j).to_multiset() == s1.to_multiset().insert(s[i]).remove(s1[j]));
}

/// Shuffles the items from `start` on in place, leaving those before it.
pub fn fisher_yates_from<T>(items: &mut Vec<T>, start: usize, rng: &mut SimpleRng)
    requires
        start <= old(items)@.len(),
    ensures
        final(items)@ == fisher_yates_spec(
            old(items)@,
            start as int,
            old(items)@.len() - 1,
            old(rng).state(),
        ),
        final(rng).state() == fisher_yates_state(
            start as int,
            old(items)@.len() - 1,
            old(rng).state(),
        ),
        final(items)@.len() == old(items)@.len(),
        final(items)@.subrange(0, start as int) == old(items)@.subrange(0, start as int),
        final(items)@.subrange(start as int, old(items)@.len() as int).to_multiset()
            == old(items)@.subrange(start as int, old(items)@.len() as int).to_multiset(),
{
    let len = items.len();
    if len == 0 || start >= len {
        return;
    }
    let ghost s0 = items@;
    let ghost x0 = rng.state();
    let mut i: usize = len - 1;
    while i > start
        invariant
            start <= i < len,
            len == s0.len(),
            items@.len() == len,
            fisher_yates_spec(s0, start as int, len - 1, x0) == fisher_yates_spec(
                items@,
                start as int,
                i as int,
                rng.state(),
            ),
            fisher_yates_state(start as int, len - 1, x0) == fisher_yates_state(
                start as int,
                i as int,
                rng.state(),
            ),
            items@.subrange(0, start as int) == s0.subrange(0, start as int),
            items@.subrange(start as int, len as int).to_multiset()
                == s0.subrange(start as int, len as int).to_multiset(),
        decreases i,
    {
        let ghost before = items@;
        let span = i - start + 1;
        let j = start + rng.gen_range(span);
        swap_items(items, i, j);
        proof {
            let a = before.subrange(start as int, len as int);
            let b = items@.subrange(start as int, len as int);
            assert(b =~= swapped(a, i - start, j - start));
            lemma_swapped_multiset(a, i - start, j - start);
            assert(items@.subrange(0, start as int) =~= before.subrange(0, start as int));
        }
        i = i - 1;
    }
}

/// Shuffles a whole vector in place.
pub fn fisher_yates<T>(items: &mut Vec<T>, rng: &mut SimpleRng)
    ensures
        final(items)@ == fisher_yates_spec(old(items)@, 0, old(items)@.len() - 1, old(rng).state()),
        final(items)@.to_multiset() == old(items)@.to_multiset(),
{
    fisher_yates_from(items, 0, rng);
    assert(items@.subrange(0, items@.len() as int) =~= items@);
    assert(old(items)@.subrange(0, old(items)@.len() as int) =~= old(items)@);
}

/// Where the pending part of the queue starts, when there is something to
/// shuffle: after the current track, or the whole queue (of two or more
/// tracks) when nothing is selected.
pub open spec fn pending_start(s: AppState) -> Option<int> {
    match s.current_index {
        None => if s.queue@.len() < 2 { None } else { Some(0int) },
        Some(i) => if i + 1 >= s.queue@.len() { None } else { Some(i + 1) },
    }
}

/// What every shuffle of the pending tracks guarantees: the tracks before
/// the pending part stay where they are, the pending part keeps its tracks,
/// and the count of shuffled tracks is returned.
pub open spec fn shuffled_pending(old_s: AppState, new_s: AppState, r: usize) -> bool {
    &&& new_s.current_index == old_s.current_index
    &&& new_s.now_playing == old_s.now_playing
    &&& same_session_data(new_s, old_s)
    &&& new_s.queue@.len() == old_s.queue@.len()
    &&& match pending_start(old_s) {
        None => r == 0 && new_s.queue@ == old_s.queue@,
        Some(k) => {
            &&& r == old_s.queue@.len() - k
            &&& new_s.queue@.subrange(0, k) == old_s.queue@.subrange(0, k)
            &&& new_s.queue@.subrange(k, new_s.queue@.len() as int).to_multiset()
                == old_s.queue@.subrange(k, old_s.queue@.len() as int).to_multiset()
        },
    }
}

fn shuffle_pending_with(state: &mut AppState, rng: &mut SimpleRng) -> (r: usize)
    ensures
        shuffled_pending(*old(state), *final(state), r),
        pending_start(*old(state)) matches Some(k) ==> final(state).queue@ == fisher_yates_spec(
            old(state).queue@,
            k,
            old(state).queue@.len() - 1,
            old(rng).state(),
        ),
        playback_consistent(*old(state)) ==> playback_consistent(*final(state)),
{
    let len = state.queue.len();
    let start = match state.current_index {
        None => {
            if len < 2 {
                return 0;
            }
            0
        },
        Some(index) => {
            if index >= len || index + 1 >= len {
                return 0;
            }
            index + 1
        },
    };
    fisher_yates_from(&mut state.queue, start, rng);
    proof {
        if let Some(i) = old(state).current_index {
            assert(state.queue@[i as int] == state.queue@.subrange(0, start as int)[i as int]);
        }
    }
    len - start
}

/// Shuffles the tracks after the current one (the whole queue when nothing
/// is selected) and returns how many were shuffled. The order comes from a
/// generator seeded by the clock and the id `pid` of this process.
pub fn shuffle_pending(state: &mut AppState, pid: u32) -> (r: usize)
    ensures
        shuffled_pending(*old(state), *final(state), r),
        playback_consistent(*old(state)) ==> playback_consistent(*final(state)),
{
    let mut rng = SimpleRng::from_entropy(pid);
    shuffle_pending_with(state, &mut rng)
}

/// As [`shuffle_pending`], with the generator seeded by `seed`: the order is
/// then fixed by the seed.
pub fn shuffle_pending_with_seed(state: &mut AppState, seed: u64) -> (r: usize)
    ensures
        shuffled_pending(*old(state), *final(state), r),
        pending_start(*old(state)) matches Some(k) ==> final(state).queue@ == fisher_yates_spec(
            old(state).queue@,
            k,
            old(state).queue@.len() - 1,
            seed | 1,
        ),
        playback_consistent(*old(state)) ==> playback_consistent(*final(state)),
{
    let mut rng = SimpleRng::from_seed(seed);
    shuffle_pending_with(state, &mut rng)
}

/// Going to the next track and then forcing `prev` comes back to the track
/// that was selected before.
pub proof fn law_next_then_forced_prev_returns(s: AppState, near_start: bool)
    requires
        next_index(s) is Some,
    ensures
        s.current_index is Some,
        prev_decision(true, near_start, next_index(s)->0)
            == Some(PrevAction::GoTo(s.current_index->0)),
{
    let i = s.current_index->0;
    assert(next_index(s)->0 == i + 1);
}

/// Without `force`, `prev` past the restart window restarts the track
/// whatever the position in the queue, so it never fails.
pub proof fn law_prev_after_window_restarts(current_index: usize)
    ensures
        prev_decision(false, false, current_index) == Some(PrevAction::SeekZero),
{
}

/// At the last track `next` has nowhere to go; once a track has been
/// appended (as [`enqueue`] does), `next` reaches exactly that track.
pub proof fn law_next_reaches_added_track(before: AppState, after: AppState, t: Track, i: usize)
    requires
        before.current_index == Some(i),
        i + 1 == before.queue@.len(),
        after.queue@ == before.queue@.push(t),
        after.current_index == before.current_index,
    ensures
        next_index(before) is None,
        next_index(after) == Some((i + 1) as usize),
        after.queue@[i + 1] == t,
{
    assert(after.queue.len() == after.queue@.len());
}

} // verus!
