use ytcli::state::{corrupt_warning, AppState, Stored, Track};
use ytcli::YtcliError;

fn x_track() -> Track {
    Track {
        id: "x".into(),
        title: "t".into(),
        uploader: "u".into(),
        webpage_url: "http://x".into(),
        duration_secs: None,
    }
}

#[test]
fn clear_playback_keeps_search() {
    let mut s = AppState {
        mpv_pid: Some(1),
        ipc_socket: Some(String::from("/tmp/x.sock")),
        now_playing: Some(x_track()),
        last_search: vec![x_track()],
        ..Default::default()
    };
    s.clear_playback();
    assert!(s.mpv_pid.is_none());
    assert!(s.now_playing.is_none());
    assert_eq!(s.last_search.len(), 1);
}

#[test]
fn load_missing_file_returns_default() {
    let s = AppState::from_file("/tmp/missing.json", Stored::Missing).unwrap();
    assert!(s.last_search.is_empty());
}

#[test]
fn load_corrupt_json_returns_default() {
    let state = AppState::from_file("/tmp/state.json", Stored::Corrupt("key must be a string".into())).unwrap();
    assert!(state.queue.is_empty());
    assert!(state.current_index.is_none());
    assert!(state.ipc_socket.is_none());
    assert!(!state.loop_current);
}

#[test]
fn unreadable_state_is_an_io_error() {
    let r = AppState::from_file("/tmp/state.json", Stored::Failed("permission denied".into()));
    assert!(matches!(r, Err(YtcliError::StateIo { path, detail }) if path == "/tmp/state.json" && detail == "permission denied"));
    let parsed = AppState { last_search: vec![x_track()], ..Default::default() };
    let r = AppState::from_file("/tmp/state.json", Stored::Present(parsed)).unwrap();
    assert_eq!(r.last_search, vec![x_track()]);
}

#[test]
fn corrupt_state_warning_text() {
    assert_eq!(
        corrupt_warning("/tmp/state.json", "EOF"),
        "Advertencia: no se pudo leer el estado en /tmp/state.json: EOF. Se usará un estado vacío."
    );
}

#[test]
fn clear_queue_drops_position_and_loop() {
    let mut s = AppState {
        queue: vec![x_track()],
        current_index: Some(0),
        loop_current: true,
        mpv_pid: Some(4),
        ..Default::default()
    };
    s.clear_queue();
    assert!(s.queue.is_empty());
    assert!(s.current_index.is_none());
    assert!(!s.loop_current);
    assert_eq!(s.mpv_pid, Some(4));
}

#[test]
fn default_state_is_empty() {
    let s = AppState::default();
    assert!(s.mpv_pid.is_none() && s.watch_pid.is_none() && s.ipc_socket.is_none());
    assert!(s.queue.is_empty() && s.last_search.is_empty());
}

#[test]
fn state_paths_live_in_the_cache_dir() {
    if let (Ok(state), Ok(socket), Ok(dir)) = (AppState::state_path(), AppState::socket_path(), AppState::cache_dir()) {
        assert!(dir.ends_with("/ytcli") || dir == "ytcli");
        assert_eq!(state, format!("{dir}/state.json"));
        assert_eq!(socket, format!("{dir}/mpv.sock"));
    }
}

#[test]
fn load_and_save_go_through_the_state_path() {
    let loaded = AppState::load(|p: &String| {
        assert!(p.ends_with("state.json"));
        Stored::Present(AppState { loop_current: true, ..Default::default() })
    });
    if let Ok(s) = loaded {
        assert!(s.loop_current);
    }
    let s = AppState::default();
    let saved = s.save(|p: &String, _: &AppState| {
        assert!(p.ends_with("state.json"));
        Err(YtcliError::Json("no".into()))
    });
    assert!(matches!(saved, Err(YtcliError::Json(_)) | Err(YtcliError::StateIo { .. })));
}

#[test]
fn paths_below_a_given_cache_base() {
    let base = Some("/home/u/.cache".to_string());
    assert_eq!(AppState::cache_dir_from(base.clone()).unwrap(), "/home/u/.cache/ytcli");
    assert_eq!(AppState::state_path_from(base.clone()).unwrap(), "/home/u/.cache/ytcli/state.json");
    assert_eq!(AppState::socket_path_from(base).unwrap(), "/home/u/.cache/ytcli/mpv.sock");
    for r in [AppState::cache_dir_from(None), AppState::state_path_from(None), AppState::socket_path_from(None)] {
        assert!(matches!(r, Err(YtcliError::StateIo { path, detail })
            if path == "(cache_dir)" && detail == "dirs::cache_dir() devolvió None"));
    }
}

#[test]
fn load_and_save_at_a_given_path() {
    let path = "/tmp/s/state.json".to_string();
    let loaded = AppState::load_at(&path, |p: &String| {
        assert_eq!(p, "/tmp/s/state.json");
        Stored::Failed("denied".into())
    });
    assert!(matches!(loaded, Err(YtcliError::StateIo { path, detail }) if path == "/tmp/s/state.json" && detail == "denied"));
    let s = AppState { loop_current: true, ..Default::default() };
    let saved = s.save_at(&path, |p: &String, st: &AppState| {
        assert_eq!(p, "/tmp/s/state.json");
        assert!(st.loop_current);
        Err(YtcliError::NotPlaying)
    });
    assert!(matches!(saved, Err(YtcliError::NotPlaying)));
}
