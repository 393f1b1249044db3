//! Cover art: where a cover comes from, the local path behind a `file://`
//! URL, the YouTube thumbnail used when a player gives no cover, and the
//! cache that decides when a cover is (re)loaded and which download is
//! still wanted.

use vstd::prelude::*;
use vstd::string::StringSliceAdditionalSpecFns;

use crate::text::{
    from_utf8_lossy, has_prefix, owned, push_char, push_str_chars, str_eq,
    str_starts_with, utf8_lossy,
};

verus! {

/// Width and height, in pixels, of the square the cover art fills.
pub const ART_SIZE: i32 = 84;

// ---------------------------------------------------------------------------
// YouTube thumbnails
// ---------------------------------------------------------------------------

/// The pattern that finds a YouTube video id in a page URL; the id is its
/// first capture group.
pub const YOUTUBE_ID_PATTERN: &'static str = "(?:v=|youtu\\.be/|embed/|shorts/)([A-Za-z0-9_-]{11})";

/// What the `regex` crate finds for `pattern` in `haystack`: the text of
/// capture group 1 of the first (leftmost-first) match, or `None` when the
/// pattern does not compile, nothing matches or the group took no part.
pub uninterp spec fn regex_first_capture(pattern: Seq<char>, haystack: Seq<char>) -> Option<
    Seq<char>,
>;

/// The text of the first capture group of the first match of `pattern`.
///
/// Trusted: calls `regex::Regex::new` and then `Regex::captures`, taking group
/// 1 of the result. The result is named by [`regex_first_capture`]; how the
/// regex engine matches is not stated.
#[verifier::external_body]
fn first_capture(pattern: &str, haystack: &str) -> (r: Option<String>)
    ensures
        r.deep_view() == regex_first_capture(pattern@, haystack@),
{
    let re = regex::Regex::new(pattern).ok()?;
    let caps = re.captures(haystack)?;
    caps.get(1).map(|m| m.as_str().to_string())
}

/// The thumbnail URL of a video id, and the empty text without one.
pub open spec fn thumbnail_url_for(video_id: Option<Seq<char>>) -> Seq<char> {
    match video_id {
        Some(id) => "https://i.ytimg.com/vi/"@ + id + "/hqdefault.jpg"@,
        None => Seq::empty(),
    }
}

/// The thumbnail URL derived from a page URL: empty for an empty page URL,
/// otherwise that of the id which [`YOUTUBE_ID_PATTERN`] finds in it.
pub open spec fn youtube_thumbnail(page_url: Seq<char>) -> Seq<char> {
    if page_url.len() == 0 {
        Seq::empty()
    } else {
        thumbnail_url_for(regex_first_capture(YOUTUBE_ID_PATTERN@, page_url))
    }
}

/// The high-quality thumbnail URL of a YouTube video id, or the empty text
/// when there is no id.
pub fn thumbnail_url_for_video_id(video_id: Option<String>) -> (url: String)
    ensures
        url@ == thumbnail_url_for(video_id.deep_view()),
{
    match video_id {
        Some(id) => {
            let mut url = owned("https://i.ytimg.com/vi/");
            push_str_chars(&mut url, id.as_str());
            push_str_chars(&mut url, "/hqdefault.jpg");
            url
        },
        None => String::new(),
    }
}

/// A cover for players that expose none (Firefox does not for YouTube): the
/// video's thumbnail, derived from the page URL.
pub fn youtube_thumbnail_url(page_url: &str) -> (url: String)
    ensures
        url@ == youtube_thumbnail(page_url@),
{
    if page_url.is_empty() {
        return String::new();
    }
    let id = first_capture(YOUTUBE_ID_PATTERN, page_url);
    thumbnail_url_for_video_id(id)
}

// ---------------------------------------------------------------------------
// Local file URLs
// ---------------------------------------------------------------------------

/// The bytes of `file://`.
pub open spec fn file_scheme_bytes() -> Seq<u8> {
    seq![102u8, 105u8, 108u8, 101u8, 58u8, 47u8, 47u8]
}

/// The bytes of a URL with a leading `file://` removed.
pub open spec fn file_url_raw(b: Seq<u8>) -> Seq<u8> {
    if b.len() >= 7 && b.take(7) == file_scheme_bytes() {
        b.skip(7)
    } else {
        b
    }
}

/// The value of an ASCII hexadecimal digit.
pub open spec fn hex_value(b: u8) -> Option<u8> {
    if 48 <= b && b <= 57 {
        Some((b - 48) as u8)
    } else if 97 <= b && b <= 102 {
        Some((b - 87) as u8)
    } else if 65 <= b && b <= 70 {
        Some((b - 55) as u8)
    } else {
        None
    }
}

/// The byte that the two bytes after a `%` denote when read with
/// `u8::from_str_radix(.., 16)`, as the decoder does: two hexadecimal digits,
/// or a `+` sign followed by one digit (that function accepts a leading `+`).
pub open spec fn hex_pair(b1: u8, b2: u8) -> Option<u8> {
    if b1 == 43 {
        hex_value(b2)
    } else {
        match (hex_value(b1), hex_value(b2)) {
            (Some(h), Some(l)) => Some((h * 16 + l) as u8),
            _ => None,
        }
    }
}

/// `b` with every `%` that starts three bytes whose last two form a
/// [`hex_pair`] replaced by the byte they denote. A `%` without such a pair,
/// or with fewer than two bytes after it, stays as it is.
pub open spec fn percent_decode(b: Seq<u8>) -> Seq<u8>
    decreases b.len(),
{
    if b.len() == 0 {
        Seq::empty()
    } else if b[0] == 37 && b.len() > 2 && hex_pair(b[1], b[2]) is Some {
        seq![hex_pair(b[1], b[2])->0] + percent_decode(b.skip(3))
    } else {
        seq![b[0]] + percent_decode(b.skip(1))
    }
}

/// Decoding `b` reads two bytes after a `%` that end inside a character: the
/// text of those two bytes cannot be sliced out of the string.
pub open spec fn percent_decode_splits_char(b: Seq<u8>) -> bool
    decreases b.len(),
{
    if b.len() == 0 {
        false
    } else if b[0] == 37 && b.len() > 3 && vstd::utf8::is_continuation_byte(b[3]) {
        true
    } else if b[0] == 37 && b.len() > 2 && hex_pair(b[1], b[2]) is Some {
        percent_decode_splits_char(b.skip(3))
    } else {
        percent_decode_splits_char(b.skip(1))
    }
}

/// The local path that a cover URL names: the URL without `file://`, with
/// percent escapes decoded and the bytes read back as UTF-8.
pub open spec fn file_url_path(url: Seq<u8>) -> Seq<char> {
    utf8_lossy(percent_decode(file_url_raw(url)))
}

fn hex_digit(b: u8) -> (r: Option<u8>)
    ensures
        r == hex_value(b),
{
    if 48 <= b && b <= 57 {
        Some(b - 48)
    } else if 97 <= b && b <= 102 {
        Some(b - 87)
    } else if 65 <= b && b <= 70 {
        Some(b - 55)
    } else {
        None
    }
}

fn hex_byte(b1: u8, b2: u8) -> (r: Option<u8>)
    ensures
        r == hex_pair(b1, b2),
{
    if b1 == 43 {
        hex_digit(b2)
    } else {
        match (hex_digit(b1), hex_digit(b2)) {
            (Some(h), Some(l)) => Some(h * 16 + l),
            _ => None,
        }
    }
}

/// Where the text after a leading `file://` begins: 7 with that prefix, 0
/// without.
fn raw_start(bytes: &[u8]) -> (start: usize)
    ensures
        start <= bytes@.len(),
        file_url_raw(bytes@) == bytes@.skip(start as int),
{
    let n = bytes.len();
    let scheme = n >= 7 && bytes[0] == 102 && bytes[1] == 105 && bytes[2] == 108 && bytes[3]
        == 101 && bytes[4] == 58 && bytes[5] == 47 && bytes[6] == 47;
    proof {
        if n >= 7 {
            if scheme {
                assert(bytes@.take(7) =~= file_scheme_bytes());
            } else {
                assert(bytes@.take(7) != file_scheme_bytes()) by {
                    if bytes@.take(7) == file_scheme_bytes() {
                        assert(bytes@.take(7)[0] == bytes@[0]);
                        assert(bytes@.take(7)[1] == bytes@[1]);
                        assert(bytes@.take(7)[2] == bytes@[2]);
                        assert(bytes@.take(7)[3] == bytes@[3]);
                        assert(bytes@.take(7)[4] == bytes@[4]);
                        assert(bytes@.take(7)[5] == bytes@[5]);
                        assert(bytes@.take(7)[6] == bytes@[6]);
                    }
                }
            }
        }
        assert(bytes@.skip(0) =~= bytes@);
    }
    if scheme {
        7
    } else {
        0
    }
}

/// Whether decoding the path of a cover URL would read two bytes after a
/// `%` that end inside a character (see [`percent_decode_splits_char`]).
pub fn file_url_splits_char(url: &str) -> (r: bool)
    ensures
        r == percent_decode_splits_char(file_url_raw(url.spec_bytes())),
{
    let bytes = url.as_bytes();
    let n = bytes.len();
    let start = raw_start(bytes);
    let mut i: usize = start;
    while i < n
        invariant
            start <= i <= n,
            n == bytes@.len(),
            bytes@ == url.spec_bytes(),
            percent_decode_splits_char(file_url_raw(bytes@)) == percent_decode_splits_char(
                bytes@.skip(i as int),
            ),
        decreases n - i,
    {
        let ghost rest = bytes@.skip(i as int);
        assert(rest[0] == bytes@[i as int]);
        if bytes[i] == 37 && n - i > 3 && 0x80 <= bytes[i + 3] && bytes[i + 3] <= 0xbf {
            assert(rest[3] == bytes@[i + 3]);
            return true;
        }
        if bytes[i] == 37 && n - i > 2 {
            assert(rest[1] == bytes@[i + 1]);
            assert(rest[2] == bytes@[i + 2]);
            if n - i > 3 {
                assert(rest[3] == bytes@[i + 3]);
            }
            if hex_byte(bytes[i + 1], bytes[i + 2]).is_some() {
                assert(rest.skip(3) =~= bytes@.skip(i + 3));
                i = i + 3;
                continue ;
            }
        }
        if n - i > 3 {
            assert(rest[3] == bytes@[i + 3]);
        }
        assert(rest.skip(1) =~= bytes@.skip(i + 1));
        i = i + 1;
    }
    assert(bytes@.skip(n as int) =~= Seq::<u8>::empty());
    false
}

/// The local path behind a `file://` cover URL, with minimal percent
/// decoding (local art paths rarely need more).
pub fn path_from_file_url(url: &str) -> (path: String)
    requires
        !percent_decode_splits_char(file_url_raw(url.spec_bytes())),
    ensures
        path@ == file_url_path(url.spec_bytes()),
        vstd::utf8::valid_utf8(percent_decode(file_url_raw(url.spec_bytes()))) ==> path@
            == vstd::utf8::decode_utf8(percent_decode(file_url_raw(url.spec_bytes()))),
{
    let bytes = url.as_bytes();
    let n = bytes.len();
    let start = raw_start(bytes);
    let ghost raw = file_url_raw(bytes@);
    assert(raw == bytes@.skip(start as int));
    let mut out: Vec<u8> = Vec::new();
    let mut i: usize = start;
    while i < n
        invariant
            start <= i <= n,
            n == bytes@.len(),
            percent_decode(raw) == out@ + percent_decode(bytes@.skip(i as int)),
            !percent_decode_splits_char(bytes@.skip(i as int)),
        decreases n - i,
    {
        let ghost rest = bytes@.skip(i as int);
        assert(rest[0] == bytes@[i as int]);
        if bytes[i] == 37 && n - i > 2 {
            assert(rest[1] == bytes@[i + 1]);
            assert(rest[2] == bytes@[i + 2]);
            if let Some(b) = hex_byte(bytes[i + 1], bytes[i + 2]) {
                assert(rest.skip(3) =~= bytes@.skip(i + 3));
                out.push(b);
                i = i + 3;
                assert(out@ + percent_decode(bytes@.skip(i as int)) =~= out@.drop_last() + (
                seq![b] + percent_decode(rest.skip(3))));
                continue ;
            }
        }
        assert(rest.skip(1) =~= bytes@.skip(i + 1));
        out.push(bytes[i]);
        i = i + 1;
        assert(out@ + percent_decode(bytes@.skip(i as int)) =~= out@.drop_last() + (seq![
            rest[0],
        ] + percent_decode(rest.skip(1))));
    }
    assert(bytes@.skip(n as int) =~= Seq::<u8>::empty());
    assert(out@ + Seq::<u8>::empty() == out@);
    from_utf8_lossy(out.as_slice())
}

// ---------------------------------------------------------------------------
// The art cache
// ---------------------------------------------------------------------------

/// The cached URL meaning "no cover on screen". It is never equal to a real
/// art URL, the empty one included, so the next refresh always tries again.
pub open spec fn no_art() -> Seq<char> {
    seq!['\u{0}']
}

/// What a refresh must do about the cover for a given URL.
pub enum ArtStep {
    /// The cover for this URL is already shown or on its way: nothing.
    Keep,
    /// Download the URL off the main thread; the old cover stays meanwhile.
    Fetch,
    /// Load the local file behind a `file://` URL.
    LoadFile,
    /// There is nothing that could be loaded: show the placeholder.
    Placeholder,
}

/// The URL names a remote cover.
pub open spec fn is_remote_url(url: Seq<char>) -> bool {
    has_prefix(url, "http://"@) || has_prefix(url, "https://"@)
}

/// The URL names a local file.
pub open spec fn is_file_url(url: Seq<char>) -> bool {
    has_prefix(url, "file://"@)
}

/// What to do for `url` when the cache holds `shown`.
pub open spec fn art_step(shown: Seq<char>, url: Seq<char>) -> ArtStep {
    if shown == url {
        ArtStep::Keep
    } else if is_remote_url(url) {
        ArtStep::Fetch
    } else if is_file_url(url) {
        ArtStep::LoadFile
    } else {
        ArtStep::Placeholder
    }
}

/// What the cache holds once `url` has been requested: `url` itself.
pub open spec fn art_after_request(shown: Seq<char>, url: Seq<char>) -> Seq<char> {
    url
}

/// What the cache holds once a cover for `url` has been painted (`painted`)
/// or has failed to appear: a miss is remembered as [`no_art`] only when
/// there was something to load, so a failed download is retried on the next
/// refresh while an empty URL is not reloaded again and again.
pub open spec fn art_after_paint(shown: Seq<char>, url: Seq<char>, painted: bool) -> Seq<char> {
    if !painted && url.len() > 0 {
        no_art()
    } else {
        shown
    }
}

/// What a refresh must do about the cover, with what it needs to do it.
pub enum ArtRequest {
    Keep,
    Fetch,
    LoadFile(String),
    Placeholder,
}

impl ArtRequest {
    /// The kind of step this request asks for.
    pub open spec fn step(&self) -> ArtStep {
        match self {
            ArtRequest::Keep => ArtStep::Keep,
            ArtRequest::Fetch => ArtStep::Fetch,
            ArtRequest::LoadFile(_) => ArtStep::LoadFile,
            ArtRequest::Placeholder => ArtStep::Placeholder,
        }
    }
}

/// The art URL the popup is showing or fetching, so that a refresh does not
/// fetch the same cover again and a late download can tell if it is still
/// wanted.
pub struct ArtCache {
    shown: String,
}

impl View for ArtCache {
    type V = Seq<char>;

    closed spec fn view(&self) -> Seq<char> {
        self.shown@
    }
}

impl ArtCache {
    /// A cache that shows no cover.
    pub fn new() -> (c: ArtCache)
        ensures
            c@ == no_art(),
    {
        let mut shown = String::new();
        push_char(&mut shown, '\u{0}');
        ArtCache { shown }
    }

    /// Decides what to do for the cover at `url` and remembers `url` as the
    /// one being shown.
    pub fn request(&mut self, url: &str) -> (r: ArtRequest)
        requires
            art_step(old(self)@, url@) is LoadFile ==> !percent_decode_splits_char(
                file_url_raw(url.spec_bytes()),
            ),
        ensures
            r.step() == art_step(old(self)@, url@),
            final(self)@ == art_after_request(old(self)@, url@),
            r matches ArtRequest::LoadFile(path) ==> path@ == file_url_path(url.spec_bytes()),
    {
        if str_eq(self.shown.as_str(), url) {
            return ArtRequest::Keep;
        }
        self.shown = owned(url);
        if str_starts_with(url, "http://") || str_starts_with(url, "https://") {
            ArtRequest::Fetch
        } else if str_starts_with(url, "file://") {
            ArtRequest::LoadFile(path_from_file_url(url))
        } else {
            ArtRequest::Placeholder
        }
    }

    /// Whether [`ArtCache::request`] accepts `url`: it does unless the URL
    /// would be loaded as a local file whose path cannot be decoded.
    pub fn can_request(&self, url: &str) -> (b: bool)
        ensures
            b == !(art_step(self@, url@) is LoadFile && percent_decode_splits_char(
                file_url_raw(url.spec_bytes()),
            )),
    {
        if str_eq(self.shown.as_str(), url) || str_starts_with(url, "http://") || str_starts_with(
            url,
            "https://",
        ) || !str_starts_with(url, "file://") {
            true
        } else {
            !file_url_splits_char(url)
        }
    }

    /// Records that the cover for `url` was painted, or that the placeholder
    /// went up instead.
    pub fn painted(&mut self, url: &str, painted: bool)
        ensures
            final(self)@ == art_after_paint(old(self)@, url@, painted),
    {
        if !painted && !url.is_empty() {
            let mut shown = String::new();
            push_char(&mut shown, '\u{0}');
            self.shown = shown;
        }
    }

    /// Whether a download of `url` that has just finished is still the cover
    /// wanted; several downloads can be in flight.
    pub fn wants(&self, url: &str) -> (b: bool)
        ensures
            b == (self@ == url@),
    {
        str_eq(self.shown.as_str(), url)
    }
}

// ---------------------------------------------------------------------------
// Laws
// ---------------------------------------------------------------------------

/// Text without a `%` byte decodes to itself.
pub proof fn law_percent_decode_without_escapes(b: Seq<u8>)
    requires
        !b.contains(37u8),
    ensures
        percent_decode(b) == b,
    decreases b.len(),
{
    if b.len() > 0 {
        assert(b[0] != 37u8) by {
            assert(b.contains(b[0]));
        }
        assert(!b.skip(1).contains(37u8)) by {
            if b.skip(1).contains(37u8) {
                let k = choose|k: int| 0 <= k < b.skip(1).len() && b.skip(1)[k] == 37u8;
                assert(b[k + 1] == 37u8);
            }
        }
        law_percent_decode_without_escapes(b.skip(1));
        assert(b =~= seq![b[0]] + b.skip(1));
    }
}

/// A refresh does not fetch the cover that is already shown or on its way:
/// once a URL has been requested, requesting it again keeps the cover.
pub proof fn law_same_cover_kept(url: Seq<char>)
    ensures
        art_step(url, url) is Keep,
{
}

/// The "no cover" mark is never equal to a cover URL, the empty one
/// included, so a refresh after a miss always tries again.
pub proof fn law_no_art_never_a_url(url: Seq<char>)
    requires
        url != no_art(),
    ensures
        !(art_step(no_art(), url) is Keep),
        no_art() != Seq::<char>::empty(),
{
    assert(no_art().len() == 1);
}

/// A cover that failed to load is tried again on the next refresh.
pub proof fn law_failed_cover_retried(url: Seq<char>)
    requires
        url.len() > 0,
        url != no_art(),
    ensures
        !(art_step(art_after_paint(url, url, false), url) is Keep),
{
}

/// When there was no cover URL at all, the placeholder is not re-applied on
/// every refresh: the empty URL stays cached.
pub proof fn law_empty_cover_not_retried()
    ensures
        art_after_paint(Seq::<char>::empty(), Seq::<char>::empty(), false) == Seq::<char>::empty(),
        art_step(Seq::<char>::empty(), Seq::<char>::empty()) is Keep,
{
}

/// A cover that was painted stays cached, so the next refresh for the same
/// URL keeps it.
pub proof fn law_painted_cover_kept(url: Seq<char>)
    ensures
        art_after_paint(url, url, true) == url,
        art_step(art_after_paint(url, url, true), url) is Keep,
{
}

/// Of several downloads in flight, only the one for the URL requested last
/// is still wanted.
pub proof fn law_only_latest_download_wanted(shown: Seq<char>, first: Seq<char>, latest: Seq<char>)
    requires
        first != latest,
    ensures
        art_after_request(art_after_request(shown, first), latest) != first,
        art_after_request(art_after_request(shown, first), latest) == latest,
{
}

proof fn lemma_encode_utf8_concat(a: Seq<char>, b: Seq<char>)
    ensures
        vstd::utf8::encode_utf8(a + b) == vstd::utf8::encode_utf8(a) + vstd::utf8::encode_utf8(b),
    decreases a.len(),
{
    if a.len() == 0 {
        assert(a + b =~= b);
    } else {
        lemma_encode_utf8_concat(a.drop_first(), b);
        assert((a + b).drop_first() =~= a.drop_first() + b);
        assert((a + b)[0] == a[0]);
    }
}

proof fn lemma_encode_ascii(s: Seq<char>)
    requires
        forall|i: int| 0 <= i < s.len() ==> (#[trigger] s[i] as u32) <= 0x7F,
    ensures
        vstd::utf8::encode_utf8(s) =~= s.map_values(|c: char| (c as u32) as u8),
    decreases s.len(),
{
    if s.len() > 0 {
        let v = s[0] as u32;
        assert(v <= 0x7F);
        assert((v & 0x7F) as u8 == v as u8) by (bit_vector)
            requires
                v <= 0x7F,
        ;
        lemma_encode_ascii(s.drop_first());
        assert(s.drop_first().map_values(|c: char| (c as u32) as u8) =~= s.map_values(
            |c: char| (c as u32) as u8,
        ).drop_first());
    }
}

proof fn lemma_high_bit(t: u8)
    ensures
        (0x80u8 | t) >= 0x80u8,
        (0xC0u8 | t) >= 0x80u8,
        (0xE0u8 | t) >= 0x80u8,
        (0xF0u8 | t) >= 0x80u8,
{
    assert((0x80u8 | t) >= 0x80u8) by (bit_vector);
    assert((0xC0u8 | t) >= 0x80u8) by (bit_vector);
    assert((0xE0u8 | t) >= 0x80u8) by (bit_vector);
    assert((0xF0u8 | t) >= 0x80u8) by (bit_vector);
}

proof fn lemma_encode_scalar_without_percent(c: char)
    requires
        c != '%',
    ensures
        !vstd::utf8::encode_scalar(c as u32).contains(37u8),
{
    let v = c as u32;
    let e = vstd::utf8::encode_scalar(v);
    if vstd::utf8::has_width_1_encoding(v) {
        assert((v & 0x7F) as u8 == v as u8) by (bit_vector)
            requires
                v <= 0x7F,
        ;
        assert(v != 37) by {
            vstd::utf8::char_u32_cast(c, v);
        }
        assert(e =~= seq![v as u8]);
    } else {
        lemma_high_bit(((v >> 6) & 0x1F) as u8);
        lemma_high_bit(((v >> 12) & 0x0F) as u8);
        lemma_high_bit(((v >> 18) & 0x7) as u8);
        lemma_high_bit((v & 0x3F) as u8);
        lemma_high_bit(((v >> 6) & 0x3F) as u8);
        lemma_high_bit(((v >> 12) & 0x3F) as u8);
        assert forall|k: int| 0 <= k < e.len() implies e[k] >= 0x80u8 by {}
    }
}

proof fn lemma_encode_without_percent(s: Seq<char>)
    requires
        !s.contains('%'),
    ensures
        !vstd::utf8::encode_utf8(s).contains(37u8),
    decreases s.len(),
{
    if s.len() > 0 {
        assert(s[0] != '%') by {
            assert(s.contains(s[0]));
        }
        assert(!s.drop_first().contains('%')) by {
            if s.drop_first().contains('%') {
                let k = choose|k: int| 0 <= k < s.drop_first().len() && s.drop_first()[k] == '%';
                assert(s[k + 1] == '%');
            }
        }
        lemma_encode_scalar_without_percent(s[0]);
        lemma_encode_without_percent(s.drop_first());
        let a = vstd::utf8::encode_scalar(s[0] as u32);
        let b = vstd::utf8::encode_utf8(s.drop_first());
        assert(vstd::utf8::encode_utf8(s) == a + b);
        if (a + b).contains(37u8) {
            let k = choose|k: int| 0 <= k < (a + b).len() && (a + b)[k] == 37u8;
            if k < a.len() {
                assert(a[k] == 37u8);
            } else {
                assert(b[k - a.len()] == 37u8);
            }
        }
    }
}

/// A `file://` URL whose path holds no `%` names that path unchanged: the
/// decoded bytes are the path's own UTF-8 bytes, so
/// [`path_from_file_url`] reads back exactly the path.
pub proof fn law_plain_file_url_path(rest: Seq<char>)
    requires
        !rest.contains('%'),
    ensures
        percent_decode(file_url_raw(vstd::utf8::encode_utf8("file://"@ + rest)))
            == vstd::utf8::encode_utf8(rest),
        vstd::utf8::valid_utf8(vstd::utf8::encode_utf8(rest)),
        vstd::utf8::decode_utf8(vstd::utf8::encode_utf8(rest)) == rest,
{
    lemma_encode_without_percent(rest);
    reveal_strlit("file://");
    let scheme = "file://"@;
    assert(scheme =~= seq!['f', 'i', 'l', 'e', ':', '/', '/']);
    lemma_encode_ascii(scheme);
    assert(vstd::utf8::encode_utf8(scheme) =~= file_scheme_bytes());
    lemma_encode_utf8_concat(scheme, rest);
    let b = vstd::utf8::encode_utf8(scheme + rest);
    let tail = vstd::utf8::encode_utf8(rest);
    assert(b.take(7) =~= file_scheme_bytes());
    assert(b.skip(7) =~= tail);
    law_percent_decode_without_escapes(tail);
    vstd::utf8::encode_utf8_valid_utf8(rest);
    vstd::utf8::encode_utf8_decode_utf8(rest);
}

/// A URL that differs from the cached one is never kept: remote URLs are
/// fetched, `file://` URLs loaded, and anything else (the empty URL of "no
/// player" included) replaces the old cover with the placeholder. The step
/// is decided by the URL's scheme alone.
pub proof fn law_changed_url_decided_by_scheme(shown: Seq<char>, url: Seq<char>)
    requires
        shown != url,
    ensures
        !(art_step(shown, url) is Keep),
        has_prefix(url, "http://"@) || has_prefix(url, "https://"@) ==> art_step(shown, url) is Fetch,
        !has_prefix(url, "http://"@) && !has_prefix(url, "https://"@) && has_prefix(url, "file://"@)
            ==> art_step(shown, url) is LoadFile,
        !has_prefix(url, "http://"@) && !has_prefix(url, "https://"@) && !has_prefix(url, "file://"@)
            ==> art_step(shown, url) is Placeholder,
{
}

/// When the player goes away the cover gives way to the placeholder: the
/// empty URL shows the placeholder unless the empty URL is already cached.
pub proof fn law_empty_url_shows_placeholder(shown: Seq<char>)
    requires
        shown != Seq::<char>::empty(),
    ensures
        art_step(shown, Seq::<char>::empty()) is Placeholder,
{
    reveal_strlit("http://");
    reveal_strlit("https://");
    reveal_strlit("file://");
    assert("http://"@.len() == 7);
    assert("https://"@.len() == 8);
    assert("file://"@.len() == 7);
}

/// The thumbnail depends only on the id the pattern captures, not on the
/// page's host: any non-empty page URL from which an id is captured gives
/// that id's thumbnail, and one from which none is captured gives none.
pub proof fn law_thumbnail_from_captured_id(page_url: Seq<char>, other_page: Seq<char>)
    requires
        page_url.len() > 0,
    ensures
        regex_first_capture(YOUTUBE_ID_PATTERN@, page_url) matches Some(id) ==> youtube_thumbnail(
            page_url,
        ) == "https://i.ytimg.com/vi/"@ + id + "/hqdefault.jpg"@,
        regex_first_capture(YOUTUBE_ID_PATTERN@, page_url) is None ==> youtube_thumbnail(page_url)
            == Seq::<char>::empty(),
        other_page.len() > 0 && regex_first_capture(YOUTUBE_ID_PATTERN@, other_page)
            == regex_first_capture(YOUTUBE_ID_PATTERN@, page_url) ==> youtube_thumbnail(other_page)
            == youtube_thumbnail(page_url),
{
}

} // verus!
