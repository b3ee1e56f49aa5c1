use std::cell::{Cell, RefCell};
use ytcli::state::{AppState, Track};
use ytcli::watch::{
    advance_after_eof, advance_after_eof_with, argv0_looks_like_binary, claim_watch, clear_own_pid,
    cmdline_arguments, ensure_running, kill_watch, matches_watch_process, should_trigger_advance, AdvanceOutcome,
    poll_once, PollAction, WatchMonitor,
};
use ytcli::YtcliError;

fn track(id: &str) -> Track {
    Track {
        id: id.into(),
        title: id.into(),
        uploader: "u".into(),
        webpage_url: format!("https://example.com/{id}"),
        duration_secs: None,
    }
}

#[test]
fn advance_after_eof_loads_and_selects_next_track() {
    let mut state = AppState {
        queue: vec![track("a"), track("b")],
        current_index: Some(0),
        now_playing: Some(track("a")),
        ..Default::default()
    };
    let mut loaded = None;

    let outcome = advance_after_eof_with(
        &mut state,
        |next: &Track| {
            loaded = Some(next.id.clone());
            Ok(())
        },
        || Ok(()),
    )
    .unwrap();

    assert_eq!(outcome, AdvanceOutcome::Advanced);
    assert_eq!(loaded.as_deref(), Some("b"));
    assert_eq!(state.current_index, Some(1));
    assert_eq!(state.now_playing.as_ref().map(|track| track.id.as_str()), Some("b"));
}

#[test]
fn advance_after_eof_stops_and_clears_state_at_end_of_queue() {
    let mut state = AppState {
        mpv_pid: Some(10),
        ipc_socket: Some("/tmp/mpv.sock".into()),
        watch_pid: Some(11),
        queue: vec![track("a")],
        current_index: Some(0),
        now_playing: Some(track("a")),
        ..Default::default()
    };
    let mut quit_called = false;

    let outcome = advance_after_eof_with(
        &mut state,
        |_: &Track| panic!("no debe cargar otra pista"),
        || {
            quit_called = true;
            Ok(())
        },
    )
    .unwrap();

    assert_eq!(outcome, AdvanceOutcome::Finished);
    assert!(quit_called);
    assert!(state.queue.is_empty());
    assert!(state.current_index.is_none());
    assert!(state.now_playing.is_none());
    assert!(state.mpv_pid.is_none());
    assert!(state.ipc_socket.is_none());
    assert!(state.watch_pid.is_none());
}

#[test]
fn watch_process_identity_requires_matching_executable_and_watch_argument() {
    let executable = "/usr/bin/ytcli";

    assert!(matches_watch_process(executable, executable, b"/usr/bin/ytcli\0watch\0"));
    assert!(!matches_watch_process(executable, "/usr/bin/other", b"/usr/bin/ytcli\0watch\0"));
    assert!(!matches_watch_process(executable, executable, b"/usr/bin/ytcli\0status\0"));
    assert!(!matches_watch_process(executable, executable, b"/usr/bin/ytcli\0play\0watch\0"));
    assert!(!matches_watch_process(executable, executable, b"/usr/bin/other\0watch\0"));
}

#[test]
fn trigger_advance_requires_prior_playback_and_idle_or_eof() {
    assert!(should_trigger_advance(true, true));
    assert!(!should_trigger_advance(false, true));
    assert!(!should_trigger_advance(true, false));
    assert!(!should_trigger_advance(false, false));
}

#[test]
fn loop_repeats_the_current_track() {
    let mut state = AppState {
        queue: vec![track("a"), track("b")],
        current_index: Some(0),
        now_playing: Some(track("a")),
        loop_current: true,
        ..Default::default()
    };
    let mut loaded = Vec::new();
    let outcome = advance_after_eof_with(
        &mut state,
        |t: &Track| {
            loaded.push(t.id.clone());
            Ok(())
        },
        || panic!("no debe parar"),
    )
    .unwrap();
    assert_eq!(outcome, AdvanceOutcome::Repeated);
    assert_eq!(loaded, vec!["a".to_string()]);
    assert_eq!(state.current_index, Some(0));
    assert!(state.loop_current);
}

#[test]
fn failed_load_leaves_state_alone() {
    let mut state = AppState {
        queue: vec![track("a"), track("b")],
        current_index: Some(0),
        now_playing: Some(track("a")),
        ..Default::default()
    };
    let r = advance_after_eof_with(&mut state, |_: &Track| Err(YtcliError::YtDlp("x".into())), || Ok(()));
    assert!(matches!(r, Err(YtcliError::YtDlp(_))));
    assert_eq!(state.current_index, Some(0));
}

#[test]
fn advance_uses_the_saved_socket() {
    let mut state = AppState {
        queue: vec![track("a"), track("b")],
        current_index: Some(0),
        ipc_socket: Some("/tmp/saved.sock".into()),
        ..Default::default()
    };
    let seen = RefCell::new(String::new());
    let fallback = String::from("/tmp/default-mpv.sock");
    let r = advance_after_eof(
        &mut state,
        &fallback,
        |s: &String, t: &Track| {
            *seen.borrow_mut() = format!("{s} {}", t.id);
            Ok(())
        },
        |_: &String| Ok(()),
    );
    match r {
        Ok(outcome) => {
            assert_eq!(outcome, AdvanceOutcome::Advanced);
            assert_eq!(seen.borrow().as_str(), "/tmp/saved.sock b");
        }
        Err(e) => panic!("unexpected: {e:?}"),
    }
}

#[test]
fn command_line_pieces() {
    let args = cmdline_arguments(b"/usr/bin/ytcli\0\0watch\0");
    assert_eq!(args, vec![b"/usr/bin/ytcli".to_vec(), b"watch".to_vec()]);
    assert!(cmdline_arguments(b"").is_empty());
}

#[test]
fn argv0_forms() {
    assert!(argv0_looks_like_binary(b"/usr/bin/ytcli", "/usr/bin/ytcli"));
    assert!(argv0_looks_like_binary(b"ytcli", "/usr/bin/ytcli"));
    assert!(!argv0_looks_like_binary(&[0xff, 0xfe], "/usr/bin/ytcli"));
    assert!(matches_watch_process("/usr/bin/ytcli", "/usr/bin//ytcli", b"ytcli\0watch"));
}

#[test]
fn watch_monitor_tracks_playback_of_the_current_track() {
    let mut state = AppState { queue: vec![track("a"), track("b")], current_index: Some(0), ..Default::default() };
    let mut m = WatchMonitor::new();
    m.observe_track(&state);
    assert!(!m.advance_due(true));
    m.observe_position(true);
    assert!(m.advance_due(true));
    assert!(!m.advance_due(false));
    m.observe_track(&state);
    assert!(m.advance_due(true));
    state.current_index = Some(1);
    m.observe_track(&state);
    assert!(!m.advance_due(true));
    m.observe_position(true);
    m.advanced();
    assert!(!m.advance_due(true));
}

#[test]
fn watch_process_bookkeeping() {
    let mut state = AppState { watch_pid: Some(5), ..Default::default() };
    assert!(!ensure_running(&mut state, |_: u32| true, || panic!("no debe lanzar otro")));
    assert_eq!(state.watch_pid, Some(5));
    let spawned = Cell::new(false);
    assert!(ensure_running(&mut state, |_: u32| false, || {
        spawned.set(true);
        Some(9)
    }));
    assert!(spawned.get());
    assert_eq!(state.watch_pid, Some(9));
    assert!(ensure_running(&mut state, |_: u32| false, || None));
    assert_eq!(state.watch_pid, None);

    let mut s = AppState { watch_pid: Some(7), ..Default::default() };
    assert_eq!(kill_watch(&mut s, |_: u32| true), Some(7));
    assert!(s.watch_pid.is_none());
    let mut s = AppState { watch_pid: Some(7), ..Default::default() };
    assert_eq!(kill_watch(&mut s, |_: u32| false), None);
    assert!(s.watch_pid.is_none());
}

#[test]
fn kill_watch_clears_mismatched_pid_without_killing_process() {
    let mut state = AppState { watch_pid: Some(4242), ..Default::default() };
    let to_stop = kill_watch(&mut state, |_: u32| false);
    assert!(to_stop.is_none());
    assert!(state.watch_pid.is_none());
}

#[test]
fn one_watch_at_a_time() {
    let mut state = AppState { watch_pid: Some(3), ..Default::default() };
    assert!(!claim_watch(&mut state, 8, |_: u32| true));
    assert_eq!(state.watch_pid, Some(3));
    assert!(claim_watch(&mut state, 8, |_: u32| false));
    assert_eq!(state.watch_pid, Some(8));
    assert!(clear_own_pid(&mut state, 8));
    assert!(state.watch_pid.is_none());
    assert!(!clear_own_pid(&mut state, 8));
}

#[test]
fn one_poll_of_mpv() {
    let mut m = WatchMonitor::new();
    assert_eq!(poll_once(&mut m, || Ok(false), || Ok(true), || true), PollAction::Wait);
    assert_eq!(poll_once(&mut m, || Ok(true), || Ok(false), || true), PollAction::Wait);
    assert_eq!(poll_once(&mut m, || Ok(true), || Ok(true), || true), PollAction::Advance);
    let gone = || Err(YtcliError::NotPlaying);
    assert_eq!(poll_once(&mut m, gone, || panic!("not asked"), || false), PollAction::Stop);
    assert_eq!(poll_once(&mut m, gone, || Ok(true), || true), PollAction::Advance);
    assert_eq!(poll_once(&mut m, || Ok(true), gone, || false), PollAction::Stop);
    assert_eq!(poll_once(&mut m, || Ok(true), gone, || true), PollAction::Wait);
}

#[test]
fn advance_after_eof_uses_the_default_socket_when_none_is_saved() {
    let mut state = AppState {
        queue: vec![track("a")],
        current_index: Some(0),
        ..Default::default()
    };
    let fallback = String::from("/tmp/default-mpv.sock");
    let quit_on = RefCell::new(String::new());
    let r = advance_after_eof(
        &mut state,
        &fallback,
        |_: &String, _: &Track| Ok(()),
        |s: &String| {
            *quit_on.borrow_mut() = s.clone();
            Ok(())
        },
    );
    assert_eq!(r.unwrap(), AdvanceOutcome::Finished);
    assert_eq!(quit_on.borrow().as_str(), "/tmp/default-mpv.sock");
    assert!(state.queue.is_empty());
}

#[test]
fn a_track_heard_then_replaced_is_not_advanced_past() {
    let mut state = AppState { queue: vec![track("a"), track("b")], current_index: Some(0), ..Default::default() };
    let mut m = WatchMonitor::new();
    m.observe_track(&state);
    assert_eq!(poll_once(&mut m, || Ok(true), || Ok(false), || true), PollAction::Wait);
    state.current_index = Some(1);
    m.observe_track(&state);
    assert_eq!(poll_once(&mut m, || Ok(false), || Ok(true), || true), PollAction::Wait);
    m.observe_track(&state);
    assert_eq!(poll_once(&mut m, || Ok(true), || Ok(true), || true), PollAction::Advance);
}
