use ytcli::commands::{
    check_volume, cmd_next, cmd_prev, enable_loop, enqueue_all, format_clock, format_duration, format_queue_line,
    format_search_line, live_socket, load_queue_index_at_socket, play_track, playlist_label, queue_track,
    require_socket, resolve_play_target, resolve_target, start_playlist, status_line, stop_session,
};
use ytcli::queue::PrevAction;
use ytcli::state::{AppState, Track};
use ytcli::YtcliError;

fn track(id: &str, title: &str) -> Track {
    Track {
        id: id.into(),
        title: title.into(),
        uploader: "u".into(),
        webpage_url: format!("http://{id}"),
        duration_secs: None,
    }
}

/// A clock for a playback position given in seconds, as mpv reports it.
fn clock(secs: f64) -> String {
    format_clock(secs.max(0.0) as u64)
}

#[test]
fn format_clock_formats_minutes_and_seconds() {
    assert_eq!(clock(65.0), "1:05");
}

#[test]
fn format_clock_includes_hours_when_needed() {
    assert_eq!(clock(3661.0), "1:01:01");
}

#[test]
fn play_target_index() {
    let mut state = AppState::default();
    state.last_search.push(track("a", "A"));
    state.last_search.push(track("b", "B"));

    let resolved = resolve_play_target(&state, "2").unwrap();

    assert_eq!(resolved.id, "b");
}

#[test]
fn play_target_bad_index_without_previous_search() {
    let state = AppState::default();

    assert!(matches!(resolve_play_target(&state, "1"), Err(YtcliError::NoLastSearch)));
}

#[test]
fn play_target_index_out_of_range() {
    let mut state = AppState::default();
    state.last_search.push(track("a", "A"));

    assert!(matches!(
        resolve_play_target(&state, "2"),
        Err(YtcliError::IndexOutOfRange { index: 2, len: 1 })
    ));
}

#[test]
fn volume_above_one_hundred_is_rejected_before_loading_state() {
    assert!(matches!(check_volume(101), Err(YtcliError::InvalidVolume(101))));
}

#[test]
fn format_queue_line_marks_loop_on_current() {
    let track = Track {
        id: "a".into(),
        title: "T".into(),
        uploader: "U".into(),
        webpage_url: "https://y".into(),
        duration_secs: None,
    };
    let line = format_queue_line(1, &track, true, true);
    assert!(line.contains('>'));
    assert!(line.contains('🔁'));
    assert!(line.contains("T — U"));

    let line2 = format_queue_line(2, &track, false, true);
    assert!(line2.starts_with(' ') || line2.starts_with("  "));
    assert!(!line2.contains('🔁'));
}

#[test]
fn live_socket_falls_back_when_saved_socket_is_dead() {
    let dead = String::from("/tmp/ytcli-test/dead.sock");
    let fallback = String::from("/tmp/ytcli-test/mpv.sock");
    let selected = live_socket(Some(&dead), &fallback, |s: &String| s.ends_with("mpv.sock"));
    assert_eq!(selected.as_deref(), Some(fallback.as_str()));
}

#[test]
fn live_socket_prefers_the_saved_socket() {
    let saved = String::from("/tmp/a.sock");
    let fallback = String::from("/tmp/b.sock");
    assert_eq!(live_socket(Some(&saved), &fallback, |_: &String| true), Some(saved.clone()));
    assert_eq!(live_socket(Some(&saved), &fallback, |_: &String| false), None);
    assert_eq!(live_socket(None, &fallback, |_: &String| true), Some(fallback.clone()));
}

#[test]
fn live_socket_does_not_ask_the_same_path_twice() {
    let saved = String::from("/tmp//x.sock");
    let fallback = String::from("/tmp/x.sock");
    let asked = std::cell::Cell::new(0);
    let r = live_socket(Some(&saved), &fallback, |_: &String| {
        asked.set(asked.get() + 1);
        false
    });
    assert_eq!(r, None);
    assert_eq!(asked.get(), 1);
}

#[test]
fn require_socket_forgets_playback_when_nothing_answers() {
    let mut state = AppState {
        mpv_pid: Some(3),
        ipc_socket: Some("/tmp/old.sock".into()),
        now_playing: Some(track("a", "A")),
        queue: vec![track("a", "A")],
        current_index: Some(0),
        ..Default::default()
    };
    let fallback = String::from("/tmp/default-mpv.sock");
    match require_socket(&mut state, &fallback, |_: &String| false) {
        Err(YtcliError::NotPlaying) => {
            assert!(state.mpv_pid.is_none());
            assert!(state.ipc_socket.is_none());
            assert!(state.now_playing.is_none());
            assert_eq!(state.queue.len(), 1);
        }
        other => panic!("unexpected: {other:?}"),
    }
}

#[test]
fn require_socket_keeps_a_live_saved_socket() {
    let mut state = AppState { ipc_socket: Some("/tmp/live.sock".into()), ..Default::default() };
    let fallback = String::from("/tmp/default-mpv.sock");
    match require_socket(&mut state, &fallback, |_: &String| true) {
        Ok(s) => {
            assert_eq!(s, "/tmp/live.sock");
            assert_eq!(state.ipc_socket.as_deref(), Some("/tmp/live.sock"));
        }
        other => panic!("unexpected: {other:?}"),
    }
}

#[test]
fn require_socket_takes_the_default_socket_when_the_saved_one_is_dead() {
    let mut state = AppState { ipc_socket: Some("/tmp/dead.sock".into()), ..Default::default() };
    let fallback = String::from("/tmp/default-mpv.sock");
    let r = require_socket(&mut state, &fallback, |s: &String| s == "/tmp/default-mpv.sock");
    assert_eq!(r.unwrap(), "/tmp/default-mpv.sock");
    assert_eq!(state.ipc_socket.as_deref(), Some("/tmp/default-mpv.sock"));
    let mut fresh = AppState::default();
    assert!(matches!(require_socket(&mut fresh, &fallback, |_: &String| false), Err(YtcliError::NotPlaying)));
}

#[test]
fn durations_and_search_lines() {
    assert_eq!(format_duration(None), "--:--");
    assert_eq!(format_duration(Some(59)), "0:59");
    assert_eq!(format_duration(Some(7200)), "2:00:00");
    let mut t = track("a", "Title");
    t.uploader = "Up".into();
    t.duration_secs = Some(90);
    assert_eq!(format_search_line(3, &t), "3. Title — Up [1:30]");
}

#[test]
fn queue_line_exact_text() {
    let mut t = track("a", "T");
    t.uploader = "U".into();
    assert_eq!(format_queue_line(1, &t, true, true), "> 1. T — U 🔁");
    assert_eq!(format_queue_line(2, &t, false, false), "  2. T — U");
}

#[test]
fn status_line_shows_position_in_queue() {
    let mut a = track("a", "Título");
    a.uploader = "Artista".into();
    let state = AppState {
        queue: vec![track("x", "X"), a.clone(), track("y", "Y"), track("z", "Z"), track("w", "W")],
        current_index: Some(1),
        now_playing: Some(a.clone()),
        ..Default::default()
    };
    assert_eq!(status_line(&state, "1:23", "3:45"), "▶ [2/5] Título — Artista  1:23 / 3:45");
    let looping = AppState { loop_current: true, ..state };
    assert_eq!(status_line(&looping, "1:23", "3:45"), "🔁 [2/5] Título — Artista  1:23 / 3:45");
    assert_eq!(
        status_line(&AppState::default(), "?:??", "?:??"),
        "mpv está activo, pero no hay información de la pista."
    );
}

#[test]
fn loop_needs_something_playing() {
    let mut idle = AppState::default();
    assert!(matches!(enable_loop(&mut idle), Err(YtcliError::NotPlaying)));
    assert!(!idle.loop_current);
    let mut playing = AppState { current_index: Some(0), queue: vec![track("a", "A")], ..Default::default() };
    enable_loop(&mut playing).unwrap();
    assert!(playing.loop_current);
    assert!(check_volume(100).is_ok());
}

#[test]
fn playlist_sessions() {
    assert_eq!(playlist_label(None), "playlist");
    assert_eq!(playlist_label(Some("Mix".into())), "Mix");

    let mut state = AppState { loop_current: true, queue: vec![track("o", "O")], ..Default::default() };
    start_playlist(&mut state, vec![track("a", "A"), track("b", "B")]);
    assert_eq!(state.queue.len(), 2);
    assert_eq!(state.current_index, Some(0));
    assert_eq!(state.now_playing.as_ref().unwrap().id, "a");
    assert!(!state.loop_current);

    enqueue_all(&mut state, vec![track("c", "C"), track("d", "D")]);
    let ids: Vec<_> = state.queue.iter().map(|t| t.id.as_str()).collect();
    assert_eq!(ids, vec!["a", "b", "c", "d"]);
    assert_eq!(state.current_index, Some(0));
}

#[test]
fn play_track_replaces_queue_and_clears_loop() {
    let mut state = AppState { loop_current: true, queue: vec![track("o", "O")], ..Default::default() };
    play_track(&mut state, track("n", "N"));
    assert_eq!(state.queue, vec![track("n", "N")]);
    assert_eq!(state.current_index, Some(0));
    assert!(!state.loop_current);
}

#[test]
fn target_is_index_or_query() {
    let mut state = AppState::default();
    state.last_search.push(track("a", "A"));
    let by_index = resolve_target(&state, &"1".to_string(), |_: &String| panic!("no search for an index"));
    assert_eq!(by_index.unwrap().id, "a");
    let by_query = resolve_target(&state, &"lofi".to_string(), |q: &String| {
        assert_eq!(q, "lofi");
        Ok(vec![track("q1", "Q1"), track("q2", "Q2")])
    });
    assert_eq!(by_query.unwrap().id, "q1");
    let none = resolve_target(&state, &"0".to_string(), |_: &String| Ok(Vec::new()));
    assert!(matches!(none, Err(YtcliError::NoSearchResults)));
}

#[test]
fn loading_a_queue_index() {
    let mut state = AppState { queue: vec![track("a", "A"), track("b", "B")], ..Default::default() };
    let socket = String::from("/tmp/s.sock");
    load_queue_index_at_socket(&mut state, 1, &socket, |s: &String, t: &Track| {
        assert_eq!(s, "/tmp/s.sock");
        assert_eq!(t.id, "b");
        Ok(())
    })
    .unwrap();
    assert_eq!(state.current_index, Some(1));
    assert_eq!(state.now_playing.as_ref().unwrap().id, "b");
    let missing = load_queue_index_at_socket(&mut state, 5, &socket, |_: &String, _: &Track| Ok(()));
    assert!(matches!(missing, Err(YtcliError::NoNext)));
    assert!(matches!(queue_track(&state, 2), Err(YtcliError::NoNext)));
    assert_eq!(queue_track(&state, 0).unwrap().id, "a");
}

#[test]
fn next_and_prev_move_through_the_queue() {
    let mut state = AppState {
        queue: vec![track("a", "A"), track("b", "B")],
        current_index: Some(0),
        now_playing: Some(track("a", "A")),
        ipc_socket: Some("/tmp/live.sock".into()),
        loop_current: true,
        ..Default::default()
    };
    let alive = |s: &String| s == "/tmp/live.sock";
    let fallback = String::from("/tmp/default-mpv.sock");
    match cmd_next(&mut state, &fallback, alive, |_: &String, _: &Track| Ok(())) {
        Ok(()) => {
            assert_eq!(state.current_index, Some(1));
            assert!(!state.loop_current);
            assert!(matches!(
                cmd_next(&mut state, &fallback, alive, |_: &String, _: &Track| Ok(())),
                Err(YtcliError::NoNext)
            ));
            state.loop_current = true;
            let restart = cmd_prev(&mut state, false, &fallback, alive, |_: &String| false, |_: &String| Ok(()), |_: &String, _: &Track| Ok(()));
            assert_eq!(restart.unwrap(), PrevAction::SeekZero);
            assert!(state.loop_current);
            let back = cmd_prev(&mut state, true, &fallback, alive, |_: &String| false, |_: &String| Ok(()), |_: &String, _: &Track| Ok(()));
            assert_eq!(back.unwrap(), PrevAction::GoTo(0));
            assert_eq!(state.current_index, Some(0));
            assert!(!state.loop_current);
        }
        Err(other) => panic!("unexpected: {other:?}"),
    }
    let mut none = AppState::default();
    assert!(matches!(
        cmd_prev(&mut none, true, &fallback, alive, |_: &String| true, |_: &String| Ok(()), |_: &String, _: &Track| Ok(())),
        Err(YtcliError::NoPrevious)
    ));
}

#[test]
fn stop_quits_the_live_player_and_forgets_the_queue() {
    let mut state = AppState {
        queue: vec![track("a", "A")],
        current_index: Some(0),
        now_playing: Some(track("a", "A")),
        ipc_socket: Some("/tmp/live.sock".into()),
        mpv_pid: Some(9),
        loop_current: true,
        last_search: vec![track("s", "S")],
        ..Default::default()
    };
    let fallback = String::from("/tmp/default-mpv.sock");
    let quitted = std::cell::RefCell::new(Vec::<String>::new());
    let r = stop_session(&mut state, &fallback, |s: &String| s == "/tmp/live.sock", |s: &String| {
        quitted.borrow_mut().push(s.clone());
        Ok(())
    });
    assert!(r.is_ok());
    assert_eq!(quitted.borrow().as_slice(), ["/tmp/live.sock".to_string()]);
    assert!(state.queue.is_empty());
    assert!(state.current_index.is_none() && state.now_playing.is_none() && state.ipc_socket.is_none());
    assert!(state.mpv_pid.is_none() && !state.loop_current);
    assert_eq!(state.last_search.len(), 1);

    let mut failing = AppState { ipc_socket: Some("/tmp/live.sock".into()), queue: vec![track("a", "A")], ..Default::default() };
    let e = stop_session(&mut failing, &fallback, |_: &String| true, |_: &String| Err(YtcliError::NotPlaying));
    assert!(matches!(e, Err(YtcliError::NotPlaying)));
    assert_eq!(failing.queue.len(), 1);

    let mut idle = AppState { queue: vec![track("a", "A")], ..Default::default() };
    let r = stop_session(&mut idle, &fallback, |_: &String| false, |_: &String| panic!("nothing to quit"));
    assert!(r.is_ok());
    assert!(idle.queue.is_empty());
}
