use ytcli::cache::{AudioCache, CacheIndex};
use ytcli::playback::{is_local, resolve, source_path_or_url, PlaybackSource};
use ytcli::state::Track;
use ytcli::YtcliError;

fn vid1() -> Track {
    Track {
        id: "vid1".into(),
        title: "T".into(),
        uploader: "U".into(),
        webpage_url: "https://www.youtube.com/watch?v=vid1".into(),
        duration_secs: None,
    }
}

#[test]
fn resolve_prefers_local_file() {
    let cache = AudioCache::at("/cache/audio".into());
    let track = vid1();
    let mut index = CacheIndex::new();
    cache.record(&mut index, &track, 4, "2026-01-01T00:00:00Z".into());
    let opus = cache.file_path_for_id("vid1");

    let source = resolve(&track, &cache, &index, |p: &String| p == &opus, |_: &String| {
        panic!("yt-dlp should not run")
    })
    .unwrap();
    assert_eq!(source, PlaybackSource::Local(opus));
}

#[test]
fn resolve_streams_when_not_cached() {
    let cache = AudioCache::at("/cache/audio".into());
    let index = CacheIndex::new();
    let source = resolve(&vid1(), &cache, &index, |_: &String| true, |page: &String| {
        assert_eq!(page, "https://www.youtube.com/watch?v=vid1");
        Ok("https://stream/1".to_string())
    })
    .unwrap();
    assert_eq!(source, PlaybackSource::Stream("https://stream/1".into()));
    assert!(!is_local(&source));
    assert_eq!(source_path_or_url(&source), "https://stream/1");
    let failed = resolve(&vid1(), &cache, &index, |_: &String| true, |_: &String| Err(YtcliError::YtDlp("x".into())));
    assert!(matches!(failed, Err(YtcliError::YtDlp(_))));
}

#[test]
fn cached_entry_without_file_streams() {
    let cache = AudioCache::at("/c".into());
    let mut index = CacheIndex::new();
    cache.record(&mut index, &vid1(), 4, "t".into());
    let source = resolve(&vid1(), &cache, &index, |_: &String| false, |_: &String| Ok("u".to_string())).unwrap();
    assert_eq!(source, PlaybackSource::Stream("u".into()));
    let local = PlaybackSource::Local("/c/vid1.opus".into());
    assert!(is_local(&local));
    assert_eq!(source_path_or_url(&local), "/c/vid1.opus");
}
