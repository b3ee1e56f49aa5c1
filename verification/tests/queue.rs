use ytcli::queue::{
    apply_index, clear_loop, clear_pending, decide_prev, enqueue, fisher_yates, replace_queue,
    shuffle_pending, shuffle_pending_with_seed, try_next_index, PrevAction, SimpleRng,
    PREV_RESTART_SECS,
};
use ytcli::state::{AppState, Track};
use ytcli::YtcliError;

fn track(id: &str, title: &str) -> Track {
    Track {
        id: id.into(),
        title: title.into(),
        uploader: "u".into(),
        webpage_url: format!("http://{id}"),
        duration_secs: None,
    }
}

/// Whether a playback position (in seconds) is still within the window in
/// which `prev` goes back rather than restarting.
fn near_start(time_pos: f64) -> bool {
    time_pos <= PREV_RESTART_SECS as f64
}

#[test]
fn replace_queue_sets_single_track_and_index() {
    let mut state = AppState {
        queue: vec![track("old", "Old")],
        current_index: Some(0),
        ..Default::default()
    };

    let t = track("new", "New");
    replace_queue(&mut state, t.clone());

    assert_eq!(state.queue, vec![t.clone()]);
    assert_eq!(state.current_index, Some(0));
    assert_eq!(state.now_playing, Some(t));
}

#[test]
fn enqueue_appends_without_changing_index_or_now_playing() {
    let playing = track("a", "A");
    let mut state = AppState {
        queue: vec![playing.clone()],
        current_index: Some(0),
        now_playing: Some(playing),
        ..Default::default()
    };

    let added = track("b", "B");
    enqueue(&mut state, added.clone());

    assert_eq!(state.queue.len(), 2);
    assert_eq!(state.queue[1], added);
    assert_eq!(state.current_index, Some(0));
    assert_eq!(state.now_playing.as_ref().unwrap().id, "a");
}

#[test]
fn clear_pending_keeps_only_current_track() {
    let mut state = AppState {
        queue: vec![track("a", "A"), track("b", "B"), track("c", "C")],
        current_index: Some(1),
        now_playing: Some(track("b", "B")),
        ..Default::default()
    };

    clear_pending(&mut state);

    assert_eq!(state.queue.len(), 1);
    assert_eq!(state.queue[0].id, "b");
    assert_eq!(state.current_index, Some(0));
    assert_eq!(state.now_playing.as_ref().unwrap().id, "b");
}

#[test]
fn clear_pending_without_current_empties_queue() {
    let mut state = AppState {
        queue: vec![track("a", "A"), track("b", "B")],
        current_index: None,
        ..Default::default()
    };

    clear_pending(&mut state);

    assert!(state.queue.is_empty());
    assert!(state.current_index.is_none());
}

#[test]
fn try_next_index_returns_next_when_available() {
    let mut state = AppState {
        queue: vec![track("a", "A"), track("b", "B"), track("c", "C")],
        current_index: Some(0),
        ..Default::default()
    };

    assert_eq!(try_next_index(&state).unwrap(), 1);

    state.current_index = Some(1);
    assert_eq!(try_next_index(&state).unwrap(), 2);
}

#[test]
fn try_next_index_errors_at_end_or_without_index() {
    let mut state = AppState {
        queue: vec![track("a", "A"), track("b", "B")],
        current_index: Some(1),
        ..Default::default()
    };

    assert!(matches!(try_next_index(&state), Err(YtcliError::NoNext)));

    state.current_index = None;
    assert!(matches!(try_next_index(&state), Err(YtcliError::NoNext)));
}

#[test]
fn decide_prev_at_start_of_track_goes_to_previous() {
    assert_eq!(decide_prev(false, near_start(0.0), 1).unwrap(), PrevAction::GoTo(0));
    assert_eq!(decide_prev(false, near_start(2.9), 1).unwrap(), PrevAction::GoTo(0));
}

#[test]
fn decide_prev_after_threshold_seeks_zero() {
    assert_eq!(decide_prev(false, near_start(3.1), 1).unwrap(), PrevAction::SeekZero);
}

#[test]
fn decide_prev_force_always_goes_to_previous() {
    assert_eq!(decide_prev(true, near_start(3.1), 1).unwrap(), PrevAction::GoTo(0));
    assert_eq!(decide_prev(true, near_start(0.0), 2).unwrap(), PrevAction::GoTo(1));
}

#[test]
fn decide_prev_errors_when_no_previous() {
    assert!(matches!(
        decide_prev(false, near_start(0.0), 0),
        Err(YtcliError::NoPrevious)
    ));
    assert!(matches!(
        decide_prev(true, near_start(3.1), 0),
        Err(YtcliError::NoPrevious)
    ));
}

#[test]
fn apply_index_sets_current_and_now_playing() {
    let mut state = AppState {
        queue: vec![track("a", "A"), track("b", "B")],
        ..Default::default()
    };

    apply_index(&mut state, 1);

    assert_eq!(state.current_index, Some(1));
    assert_eq!(state.now_playing.as_ref().unwrap().id, "b");
}

#[test]
fn shuffle_pending_keeps_current_and_preserves_pending_set() {
    let mut state = AppState {
        queue: vec![
            track("a", "A"),
            track("b", "B"),
            track("c", "C"),
            track("d", "D"),
        ],
        current_index: Some(0),
        now_playing: Some(track("a", "A")),
        ..Default::default()
    };

    let count = shuffle_pending_with_seed(&mut state, 42);
    assert_eq!(count, 3);
    assert_eq!(state.queue[0].id, "a");
    assert_eq!(state.current_index, Some(0));
    let mut pending: Vec<_> = state.queue[1..].iter().map(|t| t.id.as_str()).collect();
    pending.sort();
    assert_eq!(pending, vec!["b", "c", "d"]);
}

#[test]
fn fisher_yates_with_seed_can_reorder() {
    let mut items = vec!["b", "c", "d", "e", "f"];
    let original = items.clone();
    let mut rng = SimpleRng::from_seed(7);
    fisher_yates(&mut items, &mut rng);
    assert_ne!(items, original);
    items.sort();
    let mut expected = original;
    expected.sort();
    assert_eq!(items, expected);
}

#[test]
fn shuffle_pending_noop_without_pending() {
    let mut state = AppState {
        queue: vec![track("a", "A")],
        current_index: Some(0),
        ..Default::default()
    };
    assert_eq!(shuffle_pending(&mut state, 1), 0);
    assert_eq!(state.queue[0].id, "a");
}

#[test]
fn clear_loop_sets_flag_false() {
    let mut state = AppState {
        loop_current: true,
        ..Default::default()
    };
    clear_loop(&mut state);
    assert!(!state.loop_current);
}

#[test]
fn next_then_forced_prev_comes_back() {
    let mut state = AppState {
        queue: vec![track("a", "A"), track("b", "B"), track("c", "C")],
        current_index: Some(0),
        now_playing: Some(track("a", "A")),
        ..Default::default()
    };
    let next = try_next_index(&state).unwrap();
    apply_index(&mut state, next);
    assert_eq!(state.now_playing.as_ref().unwrap().id, "b");
    let back = decide_prev(true, false, next).unwrap();
    assert_eq!(back, PrevAction::GoTo(0));
}

#[test]
fn prev_after_restart_window_restarts_any_track() {
    for index in [0usize, 1, 7] {
        assert_eq!(decide_prev(false, false, index).unwrap(), PrevAction::SeekZero);
    }
}

#[test]
fn enqueued_track_is_reached_by_next() {
    let mut state = AppState {
        queue: vec![track("a", "A")],
        current_index: Some(0),
        now_playing: Some(track("a", "A")),
        ..Default::default()
    };
    assert!(matches!(try_next_index(&state), Err(YtcliError::NoNext)));
    enqueue(&mut state, track("z", "Z"));
    let next = try_next_index(&state).unwrap();
    assert_eq!(state.queue[next].id, "z");
}

#[test]
fn shuffle_without_current_mixes_the_whole_queue() {
    let mut state = AppState {
        queue: vec![track("a", "A"), track("b", "B"), track("c", "C")],
        ..Default::default()
    };
    let count = shuffle_pending_with_seed(&mut state, 3);
    assert_eq!(count, 3);
    let mut ids: Vec<_> = state.queue.iter().map(|t| t.id.as_str()).collect();
    ids.sort();
    assert_eq!(ids, vec!["a", "b", "c"]);
}

#[test]
fn same_seed_gives_same_order() {
    let make = || AppState {
        queue: vec![track("a", "A"), track("b", "B"), track("c", "C"), track("d", "D"), track("e", "E")],
        current_index: Some(0),
        ..Default::default()
    };
    let mut first = make();
    let mut second = make();
    shuffle_pending_with_seed(&mut first, 99);
    shuffle_pending_with_seed(&mut second, 99);
    assert_eq!(first.queue, second.queue);
}

#[test]
fn generator_draws_stay_in_range() {
    let mut rng = SimpleRng::from_seed(5);
    for len in 1..50usize {
        assert!(rng.gen_range(len) < len);
    }
    let a = SimpleRng::from_seed(8).next_u64();
    let b = SimpleRng::from_seed(8).next_u64();
    assert_eq!(a, b);
}
