use mpris_popup::art::{
    file_url_splits_char, path_from_file_url, thumbnail_url_for_video_id, youtube_thumbnail_url,
    ArtCache, ArtRequest,
};

#[test]
fn youtube_thumbnails() {
    assert_eq!(
        youtube_thumbnail_url("https://www.youtube.com/watch?v=dQw4w9WgXcQ&t=1"),
        "https://i.ytimg.com/vi/dQw4w9WgXcQ/hqdefault.jpg"
    );
    assert_eq!(
        youtube_thumbnail_url("https://youtu.be/abc_DEF-123"),
        "https://i.ytimg.com/vi/abc_DEF-123/hqdefault.jpg"
    );
    assert_eq!(
        youtube_thumbnail_url("https://www.youtube.com/shorts/AAAAAAAAAAA"),
        "https://i.ytimg.com/vi/AAAAAAAAAAA/hqdefault.jpg"
    );
    assert_eq!(
        youtube_thumbnail_url("https://www.youtube.com/embed/BBBBBBBBBBB?v=CCCCCCCCCCC"),
        "https://i.ytimg.com/vi/BBBBBBBBBBB/hqdefault.jpg"
    );
    assert_eq!(youtube_thumbnail_url(""), "");
    assert_eq!(youtube_thumbnail_url("https://example.com/page"), "");
    assert_eq!(youtube_thumbnail_url("https://www.youtube.com/watch?v=short"), "");
}

#[test]
fn thumbnail_for_video_id() {
    assert_eq!(thumbnail_url_for_video_id(None), "");
    assert_eq!(
        thumbnail_url_for_video_id(Some("x".to_string())),
        "https://i.ytimg.com/vi/x/hqdefault.jpg"
    );
}

#[test]
fn file_url_paths() {
    assert_eq!(path_from_file_url("file:///home/u/My%20Music/cover.jpg"), "/home/u/My Music/cover.jpg");
    assert_eq!(path_from_file_url("/plain/path.png"), "/plain/path.png");
    assert_eq!(path_from_file_url("file:///caf%C3%A9.png"), "/café.png");
    assert_eq!(path_from_file_url("file:///a%zzb"), "/a%zzb");
    assert_eq!(path_from_file_url("file:///a%2"), "/a%2");
    assert_eq!(path_from_file_url("file:///a%41"), "/aA");
    assert_eq!(path_from_file_url("file:///%+f"), "/\u{f}");
    assert_eq!(path_from_file_url("file:///a%+5b"), "/a\u{5}b");
    assert_eq!(path_from_file_url("file:///a%-5b"), "/a%-5b");
    assert_eq!(path_from_file_url("file:///a%++b"), "/a%++b");
    assert_eq!(path_from_file_url("file:///%ff"), "/\u{fffd}");
    assert_eq!(path_from_file_url("file://"), "");
    assert_eq!(path_from_file_url("FILE:///x"), "FILE:///x");
}

#[test]
fn plain_file_url_law_on_values() {
    for rest in ["/music/a b/cover.jpg", "/ünïcode/☃.png", ""] {
        assert_eq!(path_from_file_url(&format!("file://{}", rest)), rest);
    }
}

#[test]
fn splitting_a_character_is_detected() {
    assert!(file_url_splits_char("file:///%aé"));
    assert!(!file_url_splits_char("file:///%é"));
    assert!(!file_url_splits_char("file:///%41é"));
    assert!(!file_url_splits_char("file:///plain"));
}

#[test]
fn cache_keeps_same_cover_and_retries_failures() {
    let mut cache = ArtCache::new();
    assert!(cache.can_request("https://img/a.jpg"));
    assert!(matches!(cache.request("https://img/a.jpg"), ArtRequest::Fetch));
    assert!(matches!(cache.request("https://img/a.jpg"), ArtRequest::Keep));
    assert!(cache.wants("https://img/a.jpg"));
    cache.painted("https://img/a.jpg", false);
    assert!(!cache.wants("https://img/a.jpg"));
    assert!(matches!(cache.request("https://img/a.jpg"), ArtRequest::Fetch));
    cache.painted("https://img/a.jpg", true);
    assert!(matches!(cache.request("https://img/a.jpg"), ArtRequest::Keep));
}

#[test]
fn cache_empty_url_placeholder_is_cached() {
    let mut cache = ArtCache::new();
    assert!(matches!(cache.request(""), ArtRequest::Placeholder));
    cache.painted("", false);
    assert!(matches!(cache.request(""), ArtRequest::Keep));
}

#[test]
fn cache_local_and_unknown_urls() {
    let mut cache = ArtCache::new();
    match cache.request("file:///a%20b.png") {
        ArtRequest::LoadFile(p) => assert_eq!(p, "/a b.png"),
        _ => panic!("expected a local load"),
    }
    assert!(matches!(cache.request("mystery"), ArtRequest::Placeholder));
    cache.painted("mystery", false);
    assert!(matches!(cache.request("mystery"), ArtRequest::Placeholder));
    assert!(matches!(cache.request("http://x"), ArtRequest::Fetch));
}

#[test]
fn only_latest_download_is_wanted() {
    let mut cache = ArtCache::new();
    cache.request("https://one");
    cache.request("https://two");
    assert!(!cache.wants("https://one"));
    assert!(cache.wants("https://two"));
}

#[test]
fn cache_refuses_undecodable_file_url() {
    let cache = ArtCache::new();
    assert!(!cache.can_request("file:///%aé"));
    assert!(cache.can_request("https:///%aé"));
}

#[test]
fn fresh_cache_matches_no_url() {
    let cache = ArtCache::new();
    assert!(!cache.wants(""));
    assert!(cache.wants("\u{0}"));
}
