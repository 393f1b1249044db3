//! Where the popup keeps its files and how it reads them back: `~`
//! expansion, the pid file that lets a second launch close the first, and
//! the per-host left margin.

use vstd::prelude::*;

use crate::text::{
    chars_of, decimal, decimal_string, digit_char, digit_value, digits_value, has_prefix,
    is_digit, is_white_space, owned, parse_i32, parse_trimmed_i32, push_chars, push_str_chars,
    starts_with_chars, trim, trim_end, trim_start, unsigned_part, all_digits, has_sign,
};

verus! {

/// The left margin used when the per-host margin file is missing or holds
/// no number.
pub const POPUP_LEFT_MARGIN_DEFAULT: i32 = 275;

/// The per-host file that holds the popup's left margin.
pub const POPUP_LEFT_MARGIN_PATH: &'static str = "~/.config/waybar/mpris-popup-margin";

/// The popup's stylesheet.
pub const CSS_PATH: &'static str = "~/.config/waybar/mpris-popup.css";

// ---------------------------------------------------------------------------
// Home directory
// ---------------------------------------------------------------------------

/// `path` with a leading `~/` replaced by the home directory and a `/`, when
/// there is one; any other path, or a `~/` path without a home directory,
/// as it is.
pub open spec fn expand_home(path: Seq<char>, home: Option<Seq<char>>) -> Seq<char> {
    if has_prefix(path, "~/"@) {
        match home {
            Some(h) => h + "/"@ + path.skip(2),
            None => path,
        }
    } else {
        path
    }
}

/// Expands a leading `~/` with the value of `HOME` (`None` when it is unset
/// or not Unicode).
pub fn expand_home_with(path: &str, home: Option<&str>) -> (r: String)
    ensures
        r@ == expand_home(path@, home.deep_view()),
{
    let p = chars_of(path);
    let tilde = chars_of("~/");
    proof {
        reveal_strlit("~/");
    }
    if starts_with_chars(p.as_slice(), tilde.as_slice()) {
        match home {
            Some(h) => {
                let mut r = owned(h);
                push_str_chars(&mut r, "/");
                let n = p.len();
                let mut rest: Vec<char> = Vec::new();
                for i in 2..n
                    invariant
                        n == p@.len(),
                        2 <= n,
                        rest@ == p@.subrange(2, i as int),
                {
                    rest.push(p[i]);
                    assert(p@.subrange(2, i + 1) =~= p@.subrange(2, i as int).push(p@[i as int]));
                }
                assert(p@.subrange(2, n as int) =~= path@.skip(2));
                push_chars(&mut r, rest.as_slice());
                r
            },
            None => owned(path),
        }
    } else {
        owned(path)
    }
}

// ---------------------------------------------------------------------------
// The pid file
// ---------------------------------------------------------------------------

/// Where the pid of the running popup is kept: in the per-user runtime
/// directory when there is one, rather than the shared `/tmp`, so that
/// another local user cannot plant a symlink at a predictable path.
pub open spec fn pidfile_path(runtime_dir: Option<Seq<char>>) -> Seq<char> {
    match runtime_dir {
        Some(dir) => dir + "/waybar-mpris-popup.pid"@,
        None => "/tmp/waybar-mpris-popup.pid"@,
    }
}

/// The pid file's path, from the value of `XDG_RUNTIME_DIR` (`None` when it
/// is unset or not Unicode).
pub fn pidfile_path_for(runtime_dir: Option<&str>) -> (r: String)
    ensures
        r@ == pidfile_path(runtime_dir.deep_view()),
{
    match runtime_dir {
        Some(dir) => {
            let mut r = owned(dir);
            push_str_chars(&mut r, "/waybar-mpris-popup.pid");
            r
        },
        None => owned("/tmp/waybar-mpris-popup.pid"),
    }
}

/// What the popup writes into its pid file: its process id in decimal.
pub fn pidfile_content(pid: u32) -> (r: String)
    ensures
        r@ == decimal(pid as nat),
{
    decimal_string(pid as u64)
}

/// The pid that a pid file names: its trimmed text read as an `i32`.
pub fn parse_pid(content: &str) -> (r: Option<i32>)
    ensures
        r == parse_i32(trim(content@)),
{
    parse_trimmed_i32(content)
}

// ---------------------------------------------------------------------------
// The left margin
// ---------------------------------------------------------------------------

/// The left margin from the margin file's text (`None` when the file could
/// not be read), or [`POPUP_LEFT_MARGIN_DEFAULT`] when there is no number.
pub open spec fn left_margin(content: Option<Seq<char>>) -> i32 {
    match content {
        Some(c) => match parse_i32(trim(c)) {
            Some(v) => v,
            None => POPUP_LEFT_MARGIN_DEFAULT,
        },
        None => POPUP_LEFT_MARGIN_DEFAULT,
    }
}

/// Reads the per-host left margin from the text of its file, falling back
/// to the default if the file is missing or unparseable.
pub fn parse_left_margin(content: Option<&str>) -> (m: i32)
    ensures
        m == left_margin(content.deep_view()),
{
    match content {
        Some(c) => match parse_trimmed_i32(c) {
            Some(v) => v,
            None => POPUP_LEFT_MARGIN_DEFAULT,
        },
        None => POPUP_LEFT_MARGIN_DEFAULT,
    }
}

// ---------------------------------------------------------------------------
// Laws
// ---------------------------------------------------------------------------

pub(crate) proof fn lemma_digit_char(d: int)
    requires
        0 <= d < 10,
    ensures
        is_digit(digit_char(d)),
        digit_value(digit_char(d)) == d,
        !is_white_space(digit_char(d)),
        digit_char(d) != '-',
        digit_char(d) != '+',
{
    let u: u32 = (d + 48) as u32;
    assert(u == d + 48);
    let c: char = u as char;
    assert((c as u32) == u);
}

pub(crate) proof fn lemma_decimal_digits(n: nat)
    ensures
        decimal(n).len() > 0,
        all_digits(decimal(n)),
        digits_value(decimal(n)) == n,
    decreases n,
{
    if n < 10 {
        lemma_digit_char(n as int);
        assert(decimal(n).drop_last() =~= Seq::<char>::empty());
        assert(digits_value(Seq::<char>::empty()) == 0);
        assert(digits_value(decimal(n)) == digits_value(decimal(n).drop_last()) * 10
            + digit_value(decimal(n).last()));
    } else {
        lemma_decimal_digits(n / 10);
        lemma_digit_char((n % 10) as int);
        let d = decimal(n);
        assert(d.drop_last() =~= decimal(n / 10));
        assert(d.last() == digit_char((n % 10) as int));
        assert(digits_value(d) == digits_value(decimal(n / 10)) * 10 + (n % 10));
        assert forall|i: int| 0 <= i < d.len() implies is_digit(#[trigger] d[i]) by {
            if i < d.len() - 1 {
                assert(d[i] == decimal(n / 10)[i]);
            }
        }
    }
}

/// A pid file written by a popup reads back as that popup's pid, for every
/// pid within the range of `i32`.
pub proof fn law_pidfile_round_trip(pid: u32)
    requires
        pid <= i32::MAX,
    ensures
        parse_i32(trim(decimal(pid as nat))) == Some(pid as i32),
{
    let d = decimal(pid as nat);
    lemma_decimal_digits(pid as nat);
    lemma_digit_char(digit_value(d[0]));
    assert(d[0] == digit_char(digit_value(d[0]))) by {
        assert(is_digit(d[0]));
        let c = d[0];
        let u: u32 = c as u32;
        vstd::utf8::char_u32_cast(c, u);
    }
    assert(trim_start(d) == d);
    assert(is_digit(d.last()));
    assert(d.last() == digit_char(digit_value(d.last()))) by {
        let c = d.last();
        let u: u32 = c as u32;
        vstd::utf8::char_u32_cast(c, u);
    }
    lemma_digit_char(digit_value(d.last()));
    assert(trim_end(d) == d);
    assert(!has_sign(d));
    assert(unsigned_part(d) == d);
}

} // verus!
