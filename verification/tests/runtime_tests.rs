use mpris_popup::runtime::{
    expand_home_with, parse_left_margin, parse_pid, pidfile_content, pidfile_path_for,
    POPUP_LEFT_MARGIN_DEFAULT,
};

#[test]
fn home_expansion() {
    assert_eq!(expand_home_with("~/.config/x.css", Some("/home/u")), "/home/u/.config/x.css");
    assert_eq!(expand_home_with("~/", Some("/home/u")), "/home/u/");
    assert_eq!(expand_home_with("~/.config/x.css", None), "~/.config/x.css");
    assert_eq!(expand_home_with("/etc/x", Some("/home/u")), "/etc/x");
    assert_eq!(expand_home_with("~user/x", Some("/home/u")), "~user/x");
    assert_eq!(expand_home_with("~", Some("/home/u")), "~");
}

#[test]
fn pidfile_paths() {
    assert_eq!(
        pidfile_path_for(Some("/run/user/1000")),
        "/run/user/1000/waybar-mpris-popup.pid"
    );
    assert_eq!(pidfile_path_for(None), "/tmp/waybar-mpris-popup.pid");
}

#[test]
fn pidfile_round_trip() {
    for pid in [0u32, 1, 4242, 2147483647] {
        assert_eq!(parse_pid(&pidfile_content(pid)), Some(pid as i32));
    }
    assert_eq!(parse_pid(&pidfile_content(2147483648)), None);
    assert_eq!(parse_pid(" 77\n"), Some(77));
    assert_eq!(parse_pid("abc"), None);
    assert_eq!(parse_pid(""), None);
}

#[test]
fn left_margin() {
    assert_eq!(parse_left_margin(None), POPUP_LEFT_MARGIN_DEFAULT);
    assert_eq!(parse_left_margin(Some("300\n")), 300);
    assert_eq!(parse_left_margin(Some("-20")), -20);
    assert_eq!(parse_left_margin(Some("wide")), 275);
    assert_eq!(parse_left_margin(Some("")), 275);
}
