//! The error type of the crate and the message that each error shows.

use vstd::prelude::*;
use crate::text::{concat2, concat3, concat5, decimal, decimal_string};

verus! {

#[verifier::external_type_specification]
#[verifier::external_body]
pub struct ExIoError(std::io::Error);

/// Everything that can go wrong in `ytcli`.
#[derive(Debug)]
pub enum YtcliError {
    MissingBinary(String),
    NoSearchResults,
    NoLastSearch,
    IndexOutOfRange { index: usize, len: usize },
    NotPlaying,
    NoNext,
    NoPrevious,
    InvalidVolume(u8),
    YtDlp(String),
    MpvIpc { path: String, detail: String },
    StateIo { path: String, detail: String },
    Spotify(String),
    MissingSpotifyCredentials,
    Json(String),
    InvalidPlaylistName(String),
    PlaylistNotFound(String),
    PlaylistExists(String),
    PlaylistRmNeedsYes(String),
    Io(std::io::Error),
}

/// Results whose error is a [`YtcliError`].
pub type Result<T> = std::result::Result<T, YtcliError>;

/// The text shown for an error; the `Io` variant shows the text of the
/// wrapped I/O error, which is not modelled here.
pub open spec fn error_text(e: YtcliError) -> Seq<char> {
    match e {
        YtcliError::MissingBinary(name) =>
            "no se encontró `"@ + name@ + "` en PATH; instálalo e inténtalo de nuevo"@,
        YtcliError::NoSearchResults => "sin resultados para la búsqueda"@,
        YtcliError::NoLastSearch =>
            "no hay resultados de search previos; ejecuta `ytcli search` primero"@,
        YtcliError::IndexOutOfRange { index, len } =>
            "índice "@ + decimal(index as nat) + " fuera de rango (1.."@ + decimal(len as nat) + ")"@,
        YtcliError::NotPlaying => "no hay reproducción activa"@,
        YtcliError::NoNext => "no hay siguiente pista en la cola"@,
        YtcliError::NoPrevious => "no hay pista anterior en la cola"@,
        YtcliError::InvalidVolume(v) =>
            "volumen inválido: "@ + decimal(v as nat) + " (debe estar entre 0 y 100)"@,
        YtcliError::YtDlp(d) => "falló yt-dlp: "@ + d@,
        YtcliError::MpvIpc { path, detail } => "falló mpv/IPC ("@ + path@ + "): "@ + detail@,
        YtcliError::StateIo { path, detail } =>
            "no se pudo escribir el estado en "@ + path@ + ": "@ + detail@,
        YtcliError::Spotify(d) => "falló Spotify: "@ + d@,
        YtcliError::MissingSpotifyCredentials =>
            "faltan credenciales de Spotify; exporta SPOTIFY_CLIENT_ID y SPOTIFY_CLIENT_SECRET (app en https://developer.spotify.com/dashboard)"@,
        YtcliError::Json(d) => "JSON inválido: "@ + d@,
        YtcliError::InvalidPlaylistName(n) => "nombre de playlist inválido: "@ + n@,
        YtcliError::PlaylistNotFound(n) =>
            "no existe la playlist `"@ + n@ + "`; prueba `ytcli playlists`"@,
        YtcliError::PlaylistExists(n) => "ya existe la playlist `"@ + n@ + "`"@,
        YtcliError::PlaylistRmNeedsYes(n) =>
            "confirma el borrado con `ytcli playlist-rm "@ + n@ + " --yes`"@,
        YtcliError::Io(_) => Seq::empty(),
    }
}

/// The text of an I/O error, through its `Display` impl.
///
/// Trusted: calls `ToString::to_string` on `std::io::Error`; nothing is
/// claimed of the text.
#[verifier::external_body]
fn io_error_text(e: &std::io::Error) -> String {
    e.to_string()
}

impl YtcliError {
    /// The message shown to the user for this error.
    pub fn message(&self) -> (r: String)
        ensures
            !(*self is Io) ==> r@ == error_text(*self),
    {
        match self {
            YtcliError::MissingBinary(name) => concat3(
                "no se encontró `",
                name.as_str(),
                "` en PATH; instálalo e inténtalo de nuevo",
            ),
            YtcliError::NoSearchResults => "sin resultados para la búsqueda".to_owned(),
            YtcliError::NoLastSearch =>
                "no hay resultados de search previos; ejecuta `ytcli search` primero".to_owned(),
            YtcliError::IndexOutOfRange { index, len } => {
                let i = decimal_string(*index as u64);
                let l = decimal_string(*len as u64);
                concat5("índice ", i.as_str(), " fuera de rango (1..", l.as_str(), ")")
            },
            YtcliError::NotPlaying => "no hay reproducción activa".to_owned(),
            YtcliError::NoNext => "no hay siguiente pista en la cola".to_owned(),
            YtcliError::NoPrevious => "no hay pista anterior en la cola".to_owned(),
            YtcliError::InvalidVolume(v) => {
                let s = decimal_string(*v as u64);
                concat3("volumen inválido: ", s.as_str(), " (debe estar entre 0 y 100)")
            },
            YtcliError::YtDlp(d) => concat2("falló yt-dlp: ", d.as_str()),
            YtcliError::MpvIpc { path, detail } => {
                let head = concat3("falló mpv/IPC (", path.as_str(), "): ");
                concat2(head.as_str(), detail.as_str())
            },
            YtcliError::StateIo { path, detail } => {
                let head = concat3("no se pudo escribir el estado en ", path.as_str(), ": ");
                concat2(head.as_str(), detail.as_str())
            },
            YtcliError::Spotify(d) => concat2("falló Spotify: ", d.as_str()),
            YtcliError::MissingSpotifyCredentials =>
                "faltan credenciales de Spotify; exporta SPOTIFY_CLIENT_ID y SPOTIFY_CLIENT_SECRET (app en https://developer.spotify.com/dashboard)".to_owned(),
            YtcliError::Json(d) => concat2("JSON inválido: ", d.as_str()),
            YtcliError::InvalidPlaylistName(n) => concat2("nombre de playlist inválido: ", n.as_str()),
            YtcliError::PlaylistNotFound(n) =>
                concat3("no existe la playlist `", n.as_str(), "`; prueba `ytcli playlists`"),
            YtcliError::PlaylistExists(n) => concat3("ya existe la playlist `", n.as_str(), "`"),
            YtcliError::PlaylistRmNeedsYes(n) =>
                concat3("confirma el borrado con `ytcli playlist-rm ", n.as_str(), " --yes`"),
            YtcliError::Io(e) => io_error_text(e),
        }
    }
}

} // verus!
