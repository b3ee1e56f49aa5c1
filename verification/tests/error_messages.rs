use std::io;
use ytcli::YtcliError;

#[test]
fn missing_binary_display() {
    let err = YtcliError::MissingBinary("yt-dlp".into());
    assert_eq!(
        err.message(),
        "no se encontró `yt-dlp` en PATH; instálalo e inténtalo de nuevo"
    );
}

#[test]
fn no_search_results_display() {
    let err = YtcliError::NoSearchResults;
    assert_eq!(err.message(), "sin resultados para la búsqueda");
}

#[test]
fn no_last_search_display() {
    let err = YtcliError::NoLastSearch;
    assert_eq!(
        err.message(),
        "no hay resultados de search previos; ejecuta `ytcli search` primero"
    );
}

#[test]
fn index_out_of_range_display() {
    let err = YtcliError::IndexOutOfRange { index: 5, len: 3 };
    assert_eq!(err.message(), "índice 5 fuera de rango (1..3)");
}

#[test]
fn not_playing_display() {
    let err = YtcliError::NotPlaying;
    assert_eq!(err.message(), "no hay reproducción activa");
}

#[test]
fn no_next_display() {
    let err = YtcliError::NoNext;
    assert_eq!(err.message(), "no hay siguiente pista en la cola");
}

#[test]
fn no_previous_display() {
    let err = YtcliError::NoPrevious;
    assert_eq!(err.message(), "no hay pista anterior en la cola");
}

#[test]
fn invalid_volume_display() {
    let err = YtcliError::InvalidVolume(101);
    assert_eq!(
        err.message(),
        "volumen inválido: 101 (debe estar entre 0 y 100)"
    );
}

#[test]
fn yt_dlp_display() {
    let err = YtcliError::YtDlp("exit 1".into());
    assert_eq!(err.message(), "falló yt-dlp: exit 1");
}

#[test]
fn mpv_ipc_display() {
    let err = YtcliError::MpvIpc {
        path: String::from("/tmp/mpv.sock"),
        detail: "connection refused".into(),
    };
    assert_eq!(
        err.message(),
        "falló mpv/IPC (/tmp/mpv.sock): connection refused"
    );
}

#[test]
fn state_io_display() {
    let err = YtcliError::StateIo {
        path: String::from("/tmp/state.json"),
        detail: "permission denied".into(),
    };
    assert_eq!(
        err.message(),
        "no se pudo escribir el estado en /tmp/state.json: permission denied"
    );
}

#[test]
fn json_display() {
    let err = YtcliError::Json("unexpected EOF".into());
    assert_eq!(err.message(), "JSON inválido: unexpected EOF");
}

#[test]
fn spotify_display() {
    let err = YtcliError::Spotify("boom".into());
    assert_eq!(err.message(), "falló Spotify: boom");
}

#[test]
fn missing_spotify_credentials_display() {
    let err = YtcliError::MissingSpotifyCredentials;
    assert!(err.message().contains("SPOTIFY_CLIENT_ID"));
}

#[test]
fn io_display() {
    let err = YtcliError::Io(io::Error::new(io::ErrorKind::NotFound, "file missing"));
    assert!(err.message().contains("file missing"));
}

#[test]
fn playlist_errors_display() {
    assert_eq!(
        YtcliError::InvalidPlaylistName("a/b".into()).message(),
        "nombre de playlist inválido: a/b"
    );
    assert_eq!(
        YtcliError::PlaylistNotFound("rock".into()).message(),
        "no existe la playlist `rock`; prueba `ytcli playlists`"
    );
    assert_eq!(
        YtcliError::PlaylistExists("rock".into()).message(),
        "ya existe la playlist `rock`"
    );
    assert_eq!(
        YtcliError::PlaylistRmNeedsYes("rock".into()).message(),
        "confirma el borrado con `ytcli playlist-rm rock --yes`"
    );
}
