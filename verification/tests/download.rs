use ytcli::cache::AudioCache;
use ytcli::download::{
    encode_args, fetch_args, ffmpeg_start_error, find_fetched, is_fetched_file, is_leftover_file, Download,
    DownloadStep,
};
use ytcli::state::Track;
use ytcli::YtcliError;

fn track(id: &str) -> Track {
    Track {
        id: id.into(),
        title: "T".into(),
        uploader: "U".into(),
        webpage_url: "https://y".into(),
        duration_secs: None,
    }
}

#[test]
fn skip_when_already_cached() {
    let cache = AudioCache::at("/cache/audio".into());
    let job = Download::new(&track("cached1"), &cache);
    assert!(matches!(job.start(true), DownloadStep::AlreadyCached));
}

#[test]
fn a_download_runs_fetch_locate_encode_store() {
    let cache = AudioCache::at("/cache/audio".into());
    let job = Download::new(&track("vid1"), &cache);
    match job.start(false) {
        DownloadStep::Fetch { args } => assert_eq!(
            args,
            vec!["-f", "bestaudio/bestaudio*", "--no-playlist", "-o", "/cache/audio/vid1.ytdlp.%(ext)s", "--", "https://y"]
        ),
        other => panic!("unexpected {other:?}"),
    }
    assert!(matches!(job.fetched(true), DownloadStep::Locate));
    let names = vec!["index.json".to_string(), "vid1.ytdlp.tmp.webm".to_string(), "vid1.ytdlp.webm".to_string()];
    match job.located(&names) {
        DownloadStep::Encode { input, args } => {
            assert_eq!(input, "/cache/audio/vid1.ytdlp.webm");
            assert_eq!(
                args,
                vec![
                    "-y", "-i", "/cache/audio/vid1.ytdlp.webm", "-vn", "-c:a", "libopus", "-b:a", "160k", "-f", "opus",
                    "-v", "error", "/cache/audio/vid1.tmp.opus"
                ]
            );
        }
        other => panic!("unexpected {other:?}"),
    }
    match job.encoded(true) {
        DownloadStep::Store { from, to } => {
            assert_eq!(from, "/cache/audio/vid1.tmp.opus");
            assert_eq!(to, "/cache/audio/vid1.opus");
        }
        other => panic!("unexpected {other:?}"),
    }
}

#[test]
fn download_failures() {
    let cache = AudioCache::at("/c".into());
    let job = Download::new(&track("v"), &cache);
    assert!(matches!(job.fetched(false),
        DownloadStep::Fail { error: YtcliError::YtDlp(m), remove: None } if m == "yt-dlp no pudo descargar el audio"));
    assert!(matches!(job.located(&["other.ytdlp.webm".to_string()]),
        DownloadStep::Fail { error: YtcliError::YtDlp(m), remove: None } if m == "no se encontró el archivo descargado por yt-dlp"));
    assert!(matches!(job.encoded(false),
        DownloadStep::Fail { error: YtcliError::YtDlp(m), remove: Some(p) } if m == "ffmpeg no pudo convertir a Opus" && p == "/c/v.tmp.opus"));
    assert!(matches!(ffmpeg_start_error("not found"), YtcliError::YtDlp(m) if m == "ffmpeg: not found"));
}

#[test]
fn download_file_names() {
    assert!(is_fetched_file("a.ytdlp.webm", "a"));
    assert!(!is_fetched_file("a.ytdlp.tmp.webm", "a"));
    assert!(!is_fetched_file("ab.ytdlp.webm", "a"));
    assert!(is_leftover_file("a.ytdlp.part", "a"));
    assert!(is_leftover_file("a.tmp.opus", "a"));
    assert!(!is_leftover_file("a.opus", "a"));
    assert_eq!(find_fetched(&["x".to_string(), "a.ytdlp.m4a".to_string(), "a.ytdlp.webm".to_string()], "a"), Some(1));
    assert_eq!(find_fetched(&[], "a"), None);
    let cache = AudioCache::at("/c".into());
    assert!(Download::new(&track("a"), &cache).is_leftover("a.ytdlp.webm"));
    assert_eq!(fetch_args("o", "p").len(), 7);
    assert_eq!(encode_args("i", "o")[7], "160k");
}

#[test]
fn failures_to_start_or_store_clean_up() {
    let cache = AudioCache::at("/tmp/ytcli-cache".to_string());
    let job = Download::new(&track("vid9"), &cache);
    match job.fetch_not_started("No such file or directory") {
        DownloadStep::Fail { error: YtcliError::YtDlp(m), remove: None } => assert_eq!(m, "No such file or directory"),
        other => panic!("unexpected: {other:?}"),
    }
    match job.encode_not_started("not found") {
        DownloadStep::Fail { error: YtcliError::YtDlp(m), remove: None } => assert_eq!(m, "ffmpeg: not found"),
        other => panic!("unexpected: {other:?}"),
    }
    match job.store_failed("denied") {
        DownloadStep::Fail { error: YtcliError::StateIo { path, detail }, remove: None } => {
            assert_eq!(path, "/tmp/ytcli-cache/vid9.opus");
            assert_eq!(detail, "denied");
        }
        other => panic!("unexpected: {other:?}"),
    }
    assert!(job.is_leftover("vid9.tmp.opus"));
    assert!(job.is_leftover("vid9.ytdlp.webm"));
    assert!(!job.is_leftover("vid9.opus"));
}

#[test]
fn a_whole_download_runs_its_steps_in_order() {
    let cache = AudioCache::at("/c".to_string());
    let job = Download::new(&track("v1"), &cache);
    let log = std::cell::RefCell::new(Vec::<String>::new());
    let done = job.run(
        false,
        || Ok(()),
        |args: &Vec<String>| {
            log.borrow_mut().push(format!("fetch {}", args[4]));
            Ok(true)
        },
        || vec!["other.txt".to_string(), "v1.ytdlp.webm".to_string()],
        |input: &String, args: &Vec<String>| {
            log.borrow_mut().push(format!("encode {input} -> {}", args[args.len() - 1]));
            Ok(true)
        },
        |from: &String, to: &String| {
            log.borrow_mut().push(format!("store {from} -> {to}"));
            Ok(Ok(()))
        },
        |_: Option<String>| panic!("nothing to clean"),
    );
    assert_eq!(done.unwrap(), true);
    assert_eq!(
        *log.borrow(),
        vec![
            "fetch /c/v1.ytdlp.%(ext)s".to_string(),
            "encode /c/v1.ytdlp.webm -> /c/v1.tmp.opus".to_string(),
            "store /c/v1.tmp.opus -> /c/v1.opus".to_string(),
        ]
    );

    let cached = job.run(true, || panic!("no"), |_: &Vec<String>| panic!("no"), || panic!("no"),
        |_: &String, _: &Vec<String>| panic!("no"), |_: &String, _: &String| panic!("no"), |_: Option<String>| panic!("no"));
    assert_eq!(cached.unwrap(), false);
}

#[test]
fn every_failed_download_step_cleans_up() {
    let cache = AudioCache::at("/c".to_string());
    let job = Download::new(&track("v1"), &cache);
    let cleaned = std::cell::RefCell::new(Vec::<Option<String>>::new());
    let clean = |x: Option<String>| cleaned.borrow_mut().push(x);

    let r = job.run(false, || Ok(()), |_: &Vec<String>| Err("no yt-dlp".to_string()), || Vec::new(),
        |_: &String, _: &Vec<String>| Ok(true), |_: &String, _: &String| Ok(Ok(())), clean);
    assert!(matches!(r, Err(YtcliError::YtDlp(m)) if m == "no yt-dlp"));

    let r = job.run(false, || Ok(()), |_: &Vec<String>| Ok(true), || vec!["v1.ytdlp.m4a".to_string()],
        |_: &String, _: &Vec<String>| Ok(false), |_: &String, _: &String| Ok(Ok(())), clean);
    assert!(matches!(r, Err(YtcliError::YtDlp(m)) if m == "ffmpeg no pudo convertir a Opus"));

    let r = job.run(false, || Ok(()), |_: &Vec<String>| Ok(true), || vec!["v1.ytdlp.m4a".to_string()],
        |_: &String, _: &Vec<String>| Ok(true), |_: &String, _: &String| Err("read-only".to_string()), clean);
    assert!(matches!(r, Err(YtcliError::StateIo { path, detail }) if path == "/c/v1.opus" && detail == "read-only"));

    assert_eq!(*cleaned.borrow(), vec![None, Some("/c/v1.tmp.opus".to_string()), None]);

    let r = job.run(false, || Err(YtcliError::MissingBinary("ffmpeg".into())), |_: &Vec<String>| panic!("no"),
        || panic!("no"), |_: &String, _: &Vec<String>| panic!("no"), |_: &String, _: &String| panic!("no"), clean);
    assert!(matches!(r, Err(YtcliError::MissingBinary(_))));
    assert_eq!(cleaned.borrow().len(), 3);
}
