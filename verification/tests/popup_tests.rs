use mpris_popup::popup::{
    format_clock, plan_refresh, playpause_icon_name, player_label_text, player_line_markup,
    short_name, title_line_markup, RefreshQueue, NO_MEDIA_TITLE, ZERO_CLOCK,
};

#[test]
fn clock_texts() {
    assert_eq!(format_clock(0), "0:00");
    assert_eq!(format_clock(5), "0:05");
    assert_eq!(format_clock(65), "1:05");
    assert_eq!(format_clock(600), "10:00");
    assert_eq!(format_clock(3599), "59:59");
    assert_eq!(format_clock(3600), "60:00");
    assert_eq!(format_clock(u64::MAX), format!("{}:{:02}", u64::MAX / 60, u64::MAX % 60));
    assert_eq!(ZERO_CLOCK, format_clock(0));
}

#[test]
fn clock_seconds_always_two_digits() {
    for s in 0..200u64 {
        let t = format_clock(s);
        let secs = t.split(':').nth(1).unwrap();
        assert_eq!(secs.len(), 2);
    }
}

#[test]
fn player_labels() {
    assert_eq!(short_name("firefox.instance_1_88"), "firefox");
    assert_eq!(short_name("spotify"), "spotify");
    assert_eq!(player_label_text("firefox.instance_1_88"), "FIREFOX");
    assert_eq!(player_label_text("firefox"), "FIREFOX");
    assert_eq!(player_label_text(""), "NO PLAYER");
    assert_eq!(player_label_text(".hidden"), "NO PLAYER");
    assert_eq!(player_label_text("straße"), "STRASSE");
}

#[test]
fn player_line() {
    assert_eq!(
        player_line_markup("spotify", "SPOTIFY"),
        "\u{f1bc}  <span letter_spacing=\"900\">SPOTIFY</span>"
    );
    assert_eq!(
        player_line_markup("", "NO PLAYER"),
        "\u{f144}  <span letter_spacing=\"900\">NO PLAYER</span>"
    );
    assert_eq!(title_line_markup("A &amp; B"), "<b>A &amp; B</b>");
}

#[test]
fn playpause_icons() {
    assert_eq!(playpause_icon_name(true), "media-playback-pause-symbolic");
    assert_eq!(playpause_icon_name(false), "media-playback-start-symbolic");
}

#[test]
fn refresh_plan_for_playing_track() {
    let line = "spotify\u{1f}Song\u{1f}Band\u{1f}https://img/x.jpg\u{1f}180000000\u{1f}5000000\u{1f}";
    let p = plan_refresh("Playing", line);
    assert_eq!(p.player_name, "spotify");
    assert_eq!(p.title, "Song");
    assert_eq!(p.artist, "Band");
    assert!(p.is_playing);
    assert_eq!(p.art_url, "https://img/x.jpg");
    assert_eq!(p.length, "180000000");
    assert_eq!(p.position, "5000000");
}

#[test]
fn refresh_plan_falls_back() {
    let line = "firefox.instance_1\u{1f}\u{1f}\u{1f}\u{1f}\u{1f}\u{1f}https://www.youtube.com/watch?v=dQw4w9WgXcQ";
    let p = plan_refresh("Paused", line);
    assert_eq!(p.title, "Unknown title");
    assert!(!p.is_playing);
    assert_eq!(p.art_url, "https://i.ytimg.com/vi/dQw4w9WgXcQ/hqdefault.jpg");
    assert_eq!(p.length, "");
    let q = plan_refresh("Stopped", "");
    assert!(!q.is_playing);
    assert_eq!(q.art_url, "");
    assert_eq!(NO_MEDIA_TITLE, "No media player");
}

#[test]
fn burst_of_signals_costs_one_refresh() {
    let mut q = RefreshQueue::new();
    assert!(q.request());
    assert!(!q.request());
    assert!(!q.request());
    q.start();
    assert!(q.request());
}

#[test]
fn every_signal_is_followed_by_a_refresh() {
    // Signals arrive, the refresh starts, more signals arrive: each burst
    // schedules exactly one refresh, and a signal after a start schedules anew.
    let mut q = RefreshQueue::new();
    let mut scheduled = 0;
    let mut started = 0;
    for burst in [3, 1, 5] {
        for _ in 0..burst {
            if q.request() {
                scheduled += 1;
            }
        }
        assert_eq!(scheduled, started + 1);
        q.start();
        started += 1;
    }
    assert_eq!(scheduled, 3);
    assert!(q.request());
}
