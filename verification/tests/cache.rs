use ytcli::cache::{AudioCache, CacheIndex, DEFAULT_BITRATE_KBPS, DEFAULT_CODEC};
use ytcli::state::Track;

fn sample_track(id: &str) -> Track {
    Track {
        id: id.into(),
        title: "T".into(),
        uploader: "U".into(),
        webpage_url: "https://y".into(),
        duration_secs: None,
    }
}

#[test]
fn put_get_has_roundtrip() {
    let cache = AudioCache::at("/cache/audio".into());
    let mut index = CacheIndex::new();
    let track = sample_track("abc123");
    let entry = cache.record(&mut index, &track, 15, "2026-01-01T00:00:00Z".into());
    assert_eq!(entry.bitrate_kbps, 160);
    assert!(cache.has(&index, "abc123", |p: &String| p == "/cache/audio/abc123.opus"));
    let (got, path) = cache.get(&index, "abc123", |_: &String| true).unwrap();
    assert_eq!(got.bytes, 15);
    assert_eq!(path, "/cache/audio/abc123.opus");
}

#[test]
fn has_false_when_file_missing_despite_index() {
    let cache = AudioCache::at("/cache/audio".into());
    let mut index = CacheIndex::new();
    cache.record(&mut index, &sample_track("gone"), 160, "t".into());
    assert!(!cache.has(&index, "gone", |_: &String| false));
    assert!(!cache.has(&index, "never", |_: &String| true));
}

#[test]
fn cache_paths_and_entries() {
    let cache = AudioCache::at("/cache/audio".into());
    assert_eq!(cache.root(), "/cache/audio");
    assert_eq!(cache.index_path(), "/cache/audio/index.json");
    assert_eq!(cache.file_path_for_id("x"), "/cache/audio/x.opus");
    let mut index = CacheIndex::new();
    let e = cache.record(&mut index, &sample_track("x"), 9, "now".into());
    assert_eq!(e.path, "x.opus");
    assert_eq!(e.codec, DEFAULT_CODEC);
    assert_eq!(e.bitrate_kbps, DEFAULT_BITRATE_KBPS);
    assert_eq!(cache.absolute_path(&e), "/cache/audio/x.opus");
    let (found, p) = cache.lookup(&index, "x").unwrap();
    assert_eq!(found, e);
    assert_eq!(p, "/cache/audio/x.opus");
}

#[test]
fn recording_again_replaces_the_entry() {
    let cache = AudioCache::at("/c".into());
    let mut index = CacheIndex::new();
    cache.record(&mut index, &sample_track("a"), 1, "t1".into());
    cache.record(&mut index, &sample_track("b"), 2, "t2".into());
    cache.record(&mut index, &sample_track("a"), 3, "t3".into());
    assert_eq!(index.pairs_ref().len(), 2);
    assert_eq!(index.get("a").unwrap().bytes, 3);
    assert_eq!(index.get("b").unwrap().bytes, 2);
    assert!(index.get("c").is_none());
}

#[test]
fn cache_below_a_given_base() {
    let cache = AudioCache::system_from(Some("/home/u/.cache".to_string())).unwrap();
    assert_eq!(cache.root(), "/home/u/.cache/ytcli/audio");
    assert!(AudioCache::system_from(None).is_err());
}
