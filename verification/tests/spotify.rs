use ytcli::spotify::{
    check_credentials, http_failure, is_spotify_url, limit_metas, mirror_search_query, mirrored_tracks,
    parse_spotify_ref, single_track, with_spotify_naming, ApiArtist, ApiTrack, MetaPager, MetaTrack, Mirror, mirror_all,
    SpotifyKind, SpotifyRef,
};
use ytcli::state::Track;
use ytcli::YtcliError;

fn api(name: Option<&str>, artists: &[&str]) -> ApiTrack {
    ApiTrack {
        name: name.map(|n| n.to_string()),
        artists: Some(artists.iter().map(|a| ApiArtist { name: a.to_string() }).collect()),
    }
}

fn yt(id: &str) -> Track {
    Track {
        id: id.into(),
        title: format!("yt {id}"),
        uploader: "channel".into(),
        webpage_url: format!("https://www.youtube.com/watch?v={id}"),
        duration_secs: Some(60),
    }
}

#[test]
fn parse_https_playlist() {
    let r = parse_spotify_ref("https://open.spotify.com/playlist/37i9dQZF1DXcBWIGoYBM5M?si=abc").unwrap();
    assert_eq!(r.kind, SpotifyKind::Playlist);
    assert_eq!(r.id, "37i9dQZF1DXcBWIGoYBM5M");
}

#[test]
fn parse_album_and_track_and_uri() {
    let album = parse_spotify_ref("https://open.spotify.com/album/5abc").unwrap();
    assert_eq!(album.kind, SpotifyKind::Album);
    assert_eq!(album.id, "5abc");

    let track = parse_spotify_ref("https://open.spotify.com/track/4uLU6hMCjMI75M1A2tKUQC").unwrap();
    assert_eq!(track.kind, SpotifyKind::Track);

    let uri = parse_spotify_ref("spotify:playlist:37i9dQZF1DX0XUsuxWHRQd").unwrap();
    assert_eq!(uri.kind, SpotifyKind::Playlist);
    assert_eq!(uri.id, "37i9dQZF1DX0XUsuxWHRQd");
}

#[test]
fn reject_youtube_as_spotify() {
    assert!(parse_spotify_ref("https://www.youtube.com/playlist?list=PLx").is_err());
    assert!(!is_spotify_url("https://www.youtube.com/watch?v=abc"));
}

#[test]
fn mirror_query_joins_artists_and_title() {
    assert_eq!(mirror_search_query("Song", &["A".into(), "B".into()]), "A B Song");
    assert_eq!(mirror_search_query("Solo", &[]), "Solo");
}

#[test]
fn invalid_spotify_link_names_the_input() {
    match parse_spotify_ref("spotify:show:123") {
        Err(YtcliError::Spotify(m)) => assert_eq!(m, "URL o URI de Spotify no válida: spotify:show:123"),
        _ => panic!("expected a Spotify error"),
    }
    assert!(parse_spotify_ref("spotify:track:").is_err());
    assert!(parse_spotify_ref("spotify:track:a:b").is_err());
    assert!(parse_spotify_ref("https://open.spotify.com/track/").is_err());
}

#[test]
fn parse_accepts_http_and_surrounding_space() {
    let r = parse_spotify_ref("  http://open.spotify.com/track/xyz?si=1  ").unwrap();
    assert_eq!(r.kind, SpotifyKind::Track);
    assert_eq!(r.id, "xyz");
    assert!(is_spotify_url("open.spotify.com/album/q"));
}

#[test]
fn mirror_query_trims_and_skips_blank_artists() {
    assert_eq!(mirror_search_query("  Song ", &[" A ".into(), "  ".into()]), "A Song");
    assert_eq!(mirror_search_query("   ", &["Only".into()]), "Only");
}

#[test]
fn api_urls_of_each_kind() {
    let t = SpotifyRef { kind: SpotifyKind::Track, id: "t1".into() };
    assert_eq!(t.resource_url(), "https://api.spotify.com/v1/tracks/t1");
    assert!(t.first_page_url().is_none());
    let a = SpotifyRef { kind: SpotifyKind::Album, id: "a1".into() };
    assert_eq!(a.resource_url(), "https://api.spotify.com/v1/albums/a1");
    assert_eq!(a.first_page_url().unwrap(), "https://api.spotify.com/v1/albums/a1/tracks?limit=50");
    let p = SpotifyRef { kind: SpotifyKind::Playlist, id: "p1".into() };
    assert_eq!(p.resource_url(), "https://api.spotify.com/v1/playlists/p1?fields=name");
    assert_eq!(p.first_page_url().unwrap(), "https://api.spotify.com/v1/playlists/p1/tracks?limit=50");
}

#[test]
fn into_meta_trims_title_and_drops_blank_artists() {
    let m = api(Some("  Title "), &["X", " ", "Y"]).into_meta().unwrap();
    assert_eq!(m.title, "Title");
    assert_eq!(m.artists, vec!["X".to_string(), "Y".to_string()]);
    assert!(api(Some("   "), &["X"]).into_meta().is_none());
    assert!(api(None, &["X"]).into_meta().is_none());
    let bare = ApiTrack { name: Some("N".into()), artists: None }.into_meta().unwrap();
    assert!(bare.artists.is_empty());
}

#[test]
fn single_track_is_titled_after_itself() {
    let (title, metas) = single_track(api(Some("Song"), &["A"])).unwrap();
    assert_eq!(title.as_deref(), Some("Song"));
    assert_eq!(metas.len(), 1);
    match single_track(api(None, &[])) {
        Err(YtcliError::Spotify(m)) => assert_eq!(m, "track sin metadatos"),
        _ => panic!("expected a Spotify error"),
    }
}

#[test]
fn pager_follows_pages_and_skips_empty_items() {
    let r = SpotifyRef { kind: SpotifyKind::Playlist, id: "p".into() };
    let mut pager = MetaPager::start(&r);
    assert_eq!(pager.next_url().unwrap(), "https://api.spotify.com/v1/playlists/p/tracks?limit=50");
    pager.take_page(vec![Some(api(Some("one"), &[])), None, Some(api(None, &[]))], Some("page2".into()));
    assert_eq!(pager.next_url().unwrap(), "page2");
    pager.take_page(vec![Some(api(Some("two"), &["B"]))], None);
    assert!(pager.next_url().is_none());
    let metas = pager.finish();
    let titles: Vec<_> = metas.iter().map(|m| m.title.as_str()).collect();
    assert_eq!(titles, vec!["one", "two"]);
}

#[test]
fn limit_keeps_the_first_tracks_and_refuses_none() {
    let metas = vec![
        MetaTrack { title: "1".into(), artists: vec![] },
        MetaTrack { title: "2".into(), artists: vec![] },
        MetaTrack { title: "3".into(), artists: vec![] },
    ];
    let kept = limit_metas(metas, 2).unwrap();
    assert_eq!(kept.len(), 2);
    assert_eq!(kept[1].title, "2");
    assert!(matches!(limit_metas(Vec::new(), 5), Err(YtcliError::NoSearchResults)));
}

#[test]
fn mirror_keeps_found_tracks_under_spotify_naming() {
    let metas = vec![
        MetaTrack { title: "Song".into(), artists: vec!["A".into(), "B".into()] },
        MetaTrack { title: "Gone".into(), artists: vec![] },
        MetaTrack { title: "Solo".into(), artists: vec![] },
    ];
    let mut mirror = Mirror::new(metas);
    assert_eq!(mirror.next_query().unwrap(), "A B Song");
    mirror.record(Ok(vec![yt("v1")]));
    assert_eq!(mirror.next_query().unwrap(), "Gone");
    mirror.record(Err(YtcliError::NoSearchResults));
    assert_eq!(mirror.next_query().unwrap(), "Solo");
    mirror.record(Ok(vec![yt("v3")]));
    assert!(mirror.next_query().is_none());
    assert_eq!(mirror.skipped_count(), 1);
    let tracks = mirror.finish().unwrap();
    assert_eq!(tracks.len(), 2);
    assert_eq!(tracks[0].title, "Song");
    assert_eq!(tracks[0].uploader, "A, B");
    assert_eq!(tracks[0].id, "v1");
    assert_eq!(tracks[1].uploader, "channel");
}

#[test]
fn mirror_with_nothing_found_fails() {
    let mut mirror = Mirror::new(vec![MetaTrack { title: "X".into(), artists: vec![] }]);
    mirror.record(Ok(Vec::new()));
    match mirror.finish() {
        Err(YtcliError::Spotify(m)) => assert_eq!(m, "no se pudo resolver ninguna pista a YouTube"),
        _ => panic!("expected a Spotify error"),
    }
    assert!(mirrored_tracks(vec![yt("a")]).is_ok());
}

#[test]
fn naming_replaces_title_and_joins_artists() {
    let meta = MetaTrack { title: "T".into(), artists: vec!["X".into(), "Y".into()] };
    let t = with_spotify_naming(yt("id"), &meta);
    assert_eq!(t.title, "T");
    assert_eq!(t.uploader, "X, Y");
    assert_eq!(t.webpage_url, "https://www.youtube.com/watch?v=id");
}

#[test]
fn credentials_must_be_present_and_not_blank() {
    assert_eq!(
        check_credentials(Some("id".into()), Some("secret".into())).unwrap(),
        ("id".to_string(), "secret".to_string())
    );
    assert!(matches!(check_credentials(None, Some("s".into())), Err(YtcliError::MissingSpotifyCredentials)));
    assert!(matches!(check_credentials(Some("i".into()), None), Err(YtcliError::MissingSpotifyCredentials)));
    assert!(matches!(
        check_credentials(Some("  ".into()), Some("s".into())),
        Err(YtcliError::MissingSpotifyCredentials)
    ));
}

#[test]
fn http_failures_show_status_and_a_bounded_body() {
    match http_failure(false, "404 Not Found", "nope") {
        YtcliError::Spotify(m) => assert_eq!(m, "HTTP 404 Not Found: nope"),
        _ => panic!("expected a Spotify error"),
    }
    let long = "x".repeat(300);
    match http_failure(true, "400 Bad Request", &long) {
        YtcliError::Spotify(m) => {
            assert!(m.starts_with("auth HTTP 400 Bad Request: "));
            assert_eq!(m.chars().count(), "auth HTTP 400 Bad Request: ".chars().count() + 200);
        }
        _ => panic!("expected a Spotify error"),
    }
}

#[test]
fn mirror_all_searches_each_track_in_order() {
    let metas = vec![
        MetaTrack { title: "Song".into(), artists: vec!["A".into(), "B".into()] },
        MetaTrack { title: "Gone".into(), artists: vec![] },
        MetaTrack { title: "Solo".into(), artists: vec![] },
    ];
    let asked = std::cell::RefCell::new(Vec::<String>::new());
    let (tracks, skipped) = mirror_all(metas, |q: &String| {
        asked.borrow_mut().push(q.clone());
        if q == "Gone" { Ok(Vec::new()) } else { Ok(vec![yt("first"), yt(&format!("last-{q}"))]) }
    });
    let tracks = tracks.unwrap();
    assert_eq!(asked.borrow().as_slice(), ["A B Song".to_string(), "Gone".to_string(), "Solo".to_string()]);
    assert_eq!(skipped, 1);
    assert_eq!(tracks.len(), 2);
    assert_eq!((tracks[0].title.as_str(), tracks[0].uploader.as_str(), tracks[0].id.as_str()), ("Song", "A, B", "last-A B Song"));
    assert_eq!((tracks[1].title.as_str(), tracks[1].id.as_str()), ("Solo", "last-Solo"));

    let (none, skipped) = mirror_all(vec![MetaTrack { title: "X".into(), artists: vec![] }], |_: &String| Err(YtcliError::NoSearchResults));
    assert_eq!(skipped, 1);
    assert!(matches!(none, Err(YtcliError::Spotify(m)) if m == "no se pudo resolver ninguna pista a YouTube"));
}

#[test]
fn uri_must_split_into_kind_and_id() {
    assert!(matches!(parse_spotify_ref("spotify:track:abc:extra"), Err(YtcliError::Spotify(_))));
    assert!(matches!(parse_spotify_ref("spotify:track:"), Err(YtcliError::Spotify(_))));
    assert!(matches!(parse_spotify_ref("spotify:artist:x"), Err(YtcliError::Spotify(_))));
    assert!(matches!(parse_spotify_ref("spotify:trackabc"), Err(YtcliError::Spotify(_))));
    let r = parse_spotify_ref(" spotify:album:xyz ").unwrap();
    assert_eq!(r.kind, SpotifyKind::Album);
    assert_eq!(r.id, "xyz");
}
