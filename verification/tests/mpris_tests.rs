use mpris_popup::mpris::{
    find_player_bus_name, focus_window_expression, parse_metadata, player_icon, playerctl_text,
    split_chars, METADATA_FORMAT, METADATA_SEP,
};

#[test]
fn playerctl_text_trims_successful_output() {
    assert_eq!(playerctl_text(true, b"  Playing\n"), "Playing");
    assert_eq!(playerctl_text(false, b"Playing\n"), "");
    assert_eq!(playerctl_text(true, b""), "");
    assert_eq!(playerctl_text(true, b"caf\xc3\xa9\n"), "café");
    assert_eq!(playerctl_text(true, b"a\xffb"), "a\u{fffd}b");
}

#[test]
fn player_icons() {
    assert_eq!(player_icon("spotify"), "\u{f1bc}");
    assert_eq!(player_icon("Spotify"), "\u{f1bc}");
    assert_eq!(player_icon("firefox.instance_1_96"), "\u{e745}");
    assert_eq!(player_icon("FIREFOX"), "\u{e745}");
    assert_eq!(player_icon("vlc"), "\u{f144}");
    assert_eq!(player_icon(""), "\u{f144}");
    assert_eq!(player_icon("spotif"), "\u{f144}");
}

#[test]
fn metadata_format_asks_for_seven_fields() {
    assert_eq!(METADATA_FORMAT.split(METADATA_SEP).count(), 7);
    assert!(METADATA_FORMAT.starts_with("{{playerName}}"));
    assert!(METADATA_FORMAT.ends_with("{{xesam:url}}"));
}

#[test]
fn split_matches_str_split() {
    for s in ["", "a", "a\u{1f}b", "\u{1f}", "a\u{1f}\u{1f}b\u{1f}"] {
        let got: Vec<String> =
            split_chars(s, '\u{1f}').into_iter().map(|v| v.into_iter().collect()).collect();
        let want: Vec<String> = s.split('\u{1f}').map(|p| p.to_string()).collect();
        assert_eq!(got, want);
    }
}

#[test]
fn parse_full_metadata_line() {
    let line = "spotify\u{1f}Song\u{1f}Band\u{1f}https://img/x.jpg\u{1f}180000000\u{1f}5000000\u{1f}https://open.spotify.com/track/1";
    let m = parse_metadata(line);
    assert_eq!(m.player_name, "spotify");
    assert_eq!(m.title, "Song");
    assert_eq!(m.artist, "Band");
    assert_eq!(m.art_url, "https://img/x.jpg");
    assert_eq!(m.length, "180000000");
    assert_eq!(m.position, "5000000");
    assert_eq!(m.page_url, "https://open.spotify.com/track/1");
}

#[test]
fn parse_short_metadata_line() {
    let m = parse_metadata("vlc\u{1f}Only title");
    assert_eq!(m.player_name, "vlc");
    assert_eq!(m.title, "Only title");
    assert_eq!(m.artist, "");
    assert_eq!(m.page_url, "");
    let empty = parse_metadata("");
    assert_eq!(empty.player_name, "");
    assert_eq!(empty.title, "");
}

#[test]
fn metadata_round_trip_law_on_values() {
    let fields = ["mpv", "T", "", "file:///c.png", "1", "0", "https://p"];
    let line = fields.join("\u{1f}");
    let m = parse_metadata(&line);
    let got = [
        m.player_name, m.title, m.artist, m.art_url, m.length, m.position, m.page_url,
    ];
    for (g, w) in got.iter().zip(fields.iter()) {
        assert_eq!(g, w);
    }
}

#[test]
fn bus_name_base_and_instance_forms() {
    let names: Vec<String> = vec![
        "org.freedesktop.DBus".to_string(),
        "org.mpris.MediaPlayer2.firefoxy".to_string(),
        "org.mpris.MediaPlayer2.firefox.instance_1_96".to_string(),
        "org.mpris.MediaPlayer2.firefox".to_string(),
        "org.mpris.MediaPlayer2.spotify".to_string(),
    ];
    assert_eq!(
        find_player_bus_name(&names, "firefox"),
        Some("org.mpris.MediaPlayer2.firefox.instance_1_96".to_string())
    );
    assert_eq!(
        find_player_bus_name(&names, "spotify"),
        Some("org.mpris.MediaPlayer2.spotify".to_string())
    );
    assert_eq!(find_player_bus_name(&names, "vlc"), None);
    assert_eq!(find_player_bus_name(&Vec::new(), "vlc"), None);
}

#[test]
fn focus_expression() {
    assert_eq!(
        focus_window_expression(4242),
        "hl.dispatch(hl.dsp.focus({ window = \"pid:4242\" }))"
    );
    assert_eq!(
        focus_window_expression(0),
        "hl.dispatch(hl.dsp.focus({ window = \"pid:0\" }))"
    );
}

#[test]
fn player_icon_is_reexported() {
    assert_eq!(mpris_popup::player_icon("spotify"), "\u{f1bc}");
}
