//! Character-level building blocks shared by the rest of the library:
//! moving between `str`, `String` and `Vec<char>`, prefixes, ASCII case,
//! whitespace trimming, signed decimal parsing and decimal printing.

use vstd::prelude::*;

verus! {

// ---------------------------------------------------------------------------
// Conversions between strings and character vectors
// ---------------------------------------------------------------------------

/// Appends one character to a string.
///
/// Trusted: calls `String::push`, which std documents as appending the given
/// `char` to the end of the string.
#[verifier::external_body]
pub(crate) fn push_char(s: &mut String, c: char)
    ensures
        final(s)@ == old(s)@.push(c),
{
    s.push(c);
}

/// The characters of a string slice, in order.
pub fn chars_of(s: &str) -> (v: Vec<char>)
    ensures
        v@ == s@,
{
    let mut v: Vec<char> = Vec::new();
    for c in it: s.chars()
        invariant
            v@ == it.seq().take(it.index() as int),
            it.seq() == s@,
    {
        v.push(c);
    }
    v
}

/// Appends every character of `v` to `s`.
pub fn push_chars(s: &mut String, v: &[char])
    ensures
        final(s)@ == old(s)@ + v@,
{
    let n = v.len();
    let ghost start = s@;
    for i in 0..n
        invariant
            n == v@.len(),
            s@ == start + v@.take(i as int),
    {
        push_char(s, v[i]);
        assert(v@.take(i + 1) == v@.take(i as int).push(v@[i as int]));
    }
    assert(v@.take(n as int) == v@);
}

/// Appends every character of a string slice to `s`.
pub fn push_str_chars(s: &mut String, t: &str)
    ensures
        final(s)@ == old(s)@ + t@,
{
    let v = chars_of(t);
    push_chars(s, v.as_slice());
}

/// A string made of the given characters.
pub fn string_of(v: &[char]) -> (s: String)
    ensures
        s@ == v@,
{
    let mut s = String::new();
    push_chars(&mut s, v);
    assert(Seq::<char>::empty() + v@ == v@);
    s
}

/// A copy of a string slice as an owned string.
pub fn owned(t: &str) -> (s: String)
    ensures
        s@ == t@,
{
    let mut s = String::new();
    push_str_chars(&mut s, t);
    assert(Seq::<char>::empty() + t@ == t@);
    s
}

// ---------------------------------------------------------------------------
// Prefixes
// ---------------------------------------------------------------------------

/// `p` is a prefix of `s`.
pub open spec fn has_prefix(s: Seq<char>, p: Seq<char>) -> bool {
    p.len() <= s.len() && s.subrange(0, p.len() as int) == p
}

/// Whether `p` is a prefix of `s`.
pub fn starts_with_chars(s: &[char], p: &[char]) -> (b: bool)
    ensures
        b == has_prefix(s@, p@),
{
    if p.len() > s.len() {
        return false;
    }
    let n = p.len();
    for i in 0..n
        invariant
            n == p@.len(),
            n <= s@.len(),
            forall|j: int| 0 <= j < i ==> s@[j] == p@[j],
    {
        if s[i] != p[i] {
            assert(s@.subrange(0, n as int)[i as int] != p@[i as int]);
            return false;
        }
    }
    assert(s@.subrange(0, n as int) =~= p@);
    true
}

/// Whether the string slice `s` starts with the string slice `p`.
pub fn str_starts_with(s: &str, p: &str) -> (b: bool)
    ensures
        b == has_prefix(s@, p@),
{
    let sv = chars_of(s);
    let pv = chars_of(p);
    starts_with_chars(sv.as_slice(), pv.as_slice())
}

/// Whether two string slices hold the same characters.
pub fn str_eq(a: &str, b: &str) -> (r: bool)
    ensures
        r == (a@ == b@),
{
    let av = chars_of(a);
    let bv = chars_of(b);
    if av.len() != bv.len() {
        return false;
    }
    let r = starts_with_chars(av.as_slice(), bv.as_slice());
    proof {
        assert(a@.subrange(0, b@.len() as int) =~= a@);
    }
    r
}

// ---------------------------------------------------------------------------
// ASCII case
// ---------------------------------------------------------------------------

/// `c` with ASCII `A`..`Z` mapped to `a`..`z` and every other character kept,
/// as `char::to_ascii_lowercase` does.
pub open spec fn ascii_lower(c: char) -> char {
    if 'A' <= c && c <= 'Z' {
        ((c as u32) + 32) as char
    } else {
        c
    }
}

/// Every character of `s` passed through [`ascii_lower`], as
/// `str::to_ascii_lowercase` does.
pub open spec fn ascii_lower_seq(s: Seq<char>) -> Seq<char> {
    s.map_values(|c: char| ascii_lower(c))
}

/// The ASCII lowercase form of one character.
pub fn to_ascii_lower(c: char) -> (r: char)
    ensures
        r == ascii_lower(c),
{
    if 'A' <= c && c <= 'Z' {
        let u: u32 = (c as u32) + 32;
        proof {
            vstd::utf8::char_u32_cast(c, c as u32);
        }
        let b: u8 = u as u8;
        b as char
    } else {
        c
    }
}

/// The ASCII lowercase form of a string slice, as characters.
pub fn ascii_lowercase_chars(s: &str) -> (v: Vec<char>)
    ensures
        v@ == ascii_lower_seq(s@),
{
    let src = chars_of(s);
    let n = src.len();
    let mut v: Vec<char> = Vec::new();
    for i in 0..n
        invariant
            n == src@.len(),
            src@ == s@,
            v@ == ascii_lower_seq(s@.take(i as int)),
    {
        let c = to_ascii_lower(src[i]);
        v.push(c);
        assert(ascii_lower_seq(s@.take(i + 1)) =~= ascii_lower_seq(s@.take(i as int)).push(c));
    }
    assert(s@.take(n as int) == s@);
    v
}

// ---------------------------------------------------------------------------
// Whitespace
// ---------------------------------------------------------------------------

/// The characters with the Unicode `White_Space` property, which is what
/// `char::is_whitespace` and `str::trim` go by.
pub open spec fn is_white_space(c: char) -> bool {
    ||| ('\u{9}' <= c && c <= '\u{d}')
    ||| c == ' '
    ||| c == '\u{85}'
    ||| c == '\u{a0}'
    ||| c == '\u{1680}'
    ||| ('\u{2000}' <= c && c <= '\u{200a}')
    ||| c == '\u{2028}'
    ||| c == '\u{2029}'
    ||| c == '\u{202f}'
    ||| c == '\u{205f}'
    ||| c == '\u{3000}'
}

/// Whether a character is Unicode white space.
pub fn is_white_space_char(c: char) -> (b: bool)
    ensures
        b == is_white_space(c),
{
    ('\u{9}' <= c && c <= '\u{d}') || c == ' ' || c == '\u{85}' || c == '\u{a0}' || c
        == '\u{1680}' || ('\u{2000}' <= c && c <= '\u{200a}') || c == '\u{2028}' || c
        == '\u{2029}' || c == '\u{202f}' || c == '\u{205f}' || c == '\u{3000}'
}

/// `s` without its leading white space.
pub open spec fn trim_start(s: Seq<char>) -> Seq<char>
    decreases s.len(),
{
    if s.len() > 0 && is_white_space(s[0]) {
        trim_start(s.drop_first())
    } else {
        s
    }
}

/// `s` without its trailing white space.
pub open spec fn trim_end(s: Seq<char>) -> Seq<char>
    decreases s.len(),
{
    if s.len() > 0 && is_white_space(s.last()) {
        trim_end(s.drop_last())
    } else {
        s
    }
}

/// `s` without leading and trailing white space, as `str::trim` gives it.
pub open spec fn trim(s: Seq<char>) -> Seq<char> {
    trim_end(trim_start(s))
}

proof fn lemma_trim_start_skip(s: Seq<char>, i: int)
    requires
        0 <= i <= s.len(),
        forall|j: int| 0 <= j < i ==> is_white_space(#[trigger] s[j]),
    ensures
        trim_start(s) == trim_start(s.skip(i)),
    decreases i,
{
    if i > 0 {
        lemma_trim_start_skip(s, i - 1);
        assert(s.skip(i - 1).drop_first() =~= s.skip(i));
        assert(s.skip(i - 1)[0] == s[i - 1]);
    } else {
        assert(s.skip(0) =~= s);
    }
}

proof fn lemma_trim_end_take(s: Seq<char>, i: int)
    requires
        0 <= i <= s.len(),
        forall|j: int| i <= j < s.len() ==> is_white_space(#[trigger] s[j]),
    ensures
        trim_end(s) == trim_end(s.take(i)),
    decreases s.len() - i,
{
    if i < s.len() {
        lemma_trim_end_take(s, i + 1);
        assert(s.take(i + 1).drop_last() =~= s.take(i));
        assert(s.take(i + 1).last() == s[i]);
    } else {
        assert(s.take(i) =~= s);
    }
}

/// The characters of `s` with leading and trailing white space removed.
pub fn trim_chars(s: &str) -> (v: Vec<char>)
    ensures
        v@ == trim(s@),
{
    let src = chars_of(s);
    let n = src.len();
    let mut start: usize = 0;
    while start < n && is_white_space_char(src[start])
        invariant
            n == src@.len(),
            src@ == s@,
            start <= n,
            forall|j: int| 0 <= j < start ==> is_white_space(#[trigger] s@[j]),
        decreases n - start,
    {
        start = start + 1;
    }
    proof {
        lemma_trim_start_skip(s@, start as int);
    }
    let ghost rest = s@.skip(start as int);
    let mut end: usize = n;
    while end > start && is_white_space_char(src[end - 1])
        invariant
            n == src@.len(),
            src@ == s@,
            start <= end <= n,
            rest == s@.skip(start as int),
            forall|j: int| end - start <= j < rest.len() ==> is_white_space(#[trigger] rest[j]),
        decreases end,
    {
        end = end - 1;
        assert(rest[end - start] == s@[end as int]);
    }
    proof {
        if start < n && end == start {
            assert(!is_white_space(s@[start as int]));
        }
        if start == n {
            assert(rest.len() == 0);
            assert(trim_start(s@) =~= Seq::<char>::empty());
        } else {
            assert(!is_white_space(rest[0]));
            assert(trim_start(s@) == rest);
        }
        lemma_trim_end_take(rest, end - start);
        if end > start {
            assert(rest.take(end - start).last() == s@[end - 1]);
        }
    }
    let mut v: Vec<char> = Vec::new();
    for i in start..end
        invariant
            n == src@.len(),
            src@ == s@,
            start <= end <= n,
            v@ == s@.subrange(start as int, i as int),
    {
        v.push(src[i]);
        assert(s@.subrange(start as int, i + 1) =~= s@.subrange(start as int, i as int).push(
            s@[i as int],
        ));
    }
    assert(rest.take(end - start) =~= s@.subrange(start as int, end as int));
    v
}

// ---------------------------------------------------------------------------
// Decimal numbers
// ---------------------------------------------------------------------------

/// `c` is one of the ASCII digits `0`..`9`.
pub open spec fn is_digit(c: char) -> bool {
    '0' <= c && c <= '9'
}

/// The value of an ASCII digit.
pub open spec fn digit_value(c: char) -> int {
    (c as u32) - ('0' as u32)
}

/// The value of a run of ASCII digits read as a decimal number.
pub open spec fn digits_value(ds: Seq<char>) -> int
    decreases ds.len(),
{
    if ds.len() == 0 {
        0
    } else {
        digits_value(ds.drop_last()) * 10 + digit_value(ds.last())
    }
}

/// `s` starts with a `+` or `-` sign.
pub open spec fn has_sign(s: Seq<char>) -> bool {
    s.len() > 0 && (s[0] == '-' || s[0] == '+')
}

/// `s` without its sign, if it has one.
pub open spec fn unsigned_part(s: Seq<char>) -> Seq<char> {
    if has_sign(s) {
        s.drop_first()
    } else {
        s
    }
}

/// Every character of `ds` is an ASCII digit.
pub open spec fn all_digits(ds: Seq<char>) -> bool {
    forall|i: int| 0 <= i < ds.len() ==> is_digit(#[trigger] ds[i])
}

/// The value of a sign followed by digits.
pub open spec fn signed_value(s: Seq<char>) -> int {
    if s.len() > 0 && s[0] == '-' {
        -digits_value(unsigned_part(s))
    } else {
        digits_value(unsigned_part(s))
    }
}

/// The number a decimal string denotes, as `str::parse::<i32>` reads it: an
/// optional `+` or `-` sign followed by one or more ASCII digits and nothing
/// else, whose value lies within the range of `i32`. Anything else is `None`.
pub open spec fn parse_i32(s: Seq<char>) -> Option<i32> {
    if unsigned_part(s).len() == 0 || !all_digits(unsigned_part(s)) {
        None
    } else if i32::MIN <= signed_value(s) && signed_value(s) <= i32::MAX {
        Some(signed_value(s) as i32)
    } else {
        None
    }
}

proof fn lemma_digits_value_nonneg(ds: Seq<char>)
    requires
        all_digits(ds),
    ensures
        digits_value(ds) >= 0,
    decreases ds.len(),
{
    if ds.len() > 0 {
        lemma_digits_value_nonneg(ds.drop_last());
        assert(is_digit(ds[ds.len() - 1]));
    }
}

proof fn lemma_digits_value_monotone(ds: Seq<char>, k: int)
    requires
        0 <= k <= ds.len(),
        all_digits(ds),
    ensures
        digits_value(ds.take(k)) <= digits_value(ds),
    decreases ds.len() - k,
{
    if k < ds.len() {
        let t = ds.take(k + 1);
        lemma_digits_value_monotone(ds, k + 1);
        assert(t.drop_last() =~= ds.take(k));
        lemma_digits_value_nonneg(ds.take(k));
        assert(is_digit(t.last()));
    } else {
        assert(ds.take(k) =~= ds);
    }
}

/// The value of the digits of `s` from index `first` on, when they are all
/// digits and the value is at most 2^31; `None` otherwise.
fn digits_magnitude(s: &[char], first: usize) -> (r: Option<u64>)
    requires
        first <= s@.len(),
    ensures
        r matches Some(v) ==> all_digits(s@.skip(first as int)) && v == digits_value(
            s@.skip(first as int),
        ) && v <= 2147483648,
        r is None ==> !all_digits(s@.skip(first as int)) || digits_value(s@.skip(first as int))
            > 2147483648,
{
    let n = s.len();
    let ghost ds = s@.skip(first as int);
    let mut acc: u64 = 0;
    let mut i: usize = first;
    while i < n
        invariant
            first <= i <= n,
            n == s@.len(),
            ds == s@.skip(first as int),
            acc == digits_value(ds.take(i - first)),
            acc <= 2147483648,
            forall|j: int| 0 <= j < i - first ==> is_digit(#[trigger] ds[j]),
        decreases n - i,
    {
        let c = s[i];
        if !('0' <= c && c <= '9') {
            assert(!is_digit(ds[i - first]));
            return None;
        }
        let d: u64 = ((c as u32) - ('0' as u32)) as u64;
        let next: u64 = acc * 10 + d;
        assert(ds.take(i + 1 - first).drop_last() =~= ds.take(i - first));
        assert(ds.take(i + 1 - first).last() == c);
        if next > 2147483648 {
            proof {
                if all_digits(ds) {
                    lemma_digits_value_monotone(ds, i + 1 - first);
                }
            }
            return None;
        }
        acc = next;
        i = i + 1;
    }
    assert(ds.take(n - first) =~= ds);
    Some(acc)
}

/// Parses characters the way `str::parse::<i32>` does (see [`parse_i32`]).
pub fn parse_i32_chars(s: &[char]) -> (r: Option<i32>)
    ensures
        r == parse_i32(s@),
{
    let n = s.len();
    let negative = n > 0 && s[0] == '-';
    let signed = n > 0 && (s[0] == '-' || s[0] == '+');
    let first: usize = if signed {
        1
    } else {
        0
    };
    assert(unsigned_part(s@) =~= s@.skip(first as int));
    if first == n {
        return None;
    }
    match digits_magnitude(s, first) {
        None => None,
        Some(m) => {
            if negative {
                let v: i64 = -(m as i64);
                Some(v as i32)
            } else if m <= 2147483647 {
                Some(m as i32)
            } else {
                None
            }
        },
    }
}

/// Parses the trimmed text of a string slice as an `i32`, as
/// `s.trim().parse::<i32>()` does.
pub fn parse_trimmed_i32(s: &str) -> (r: Option<i32>)
    ensures
        r == parse_i32(trim(s@)),
{
    let t = trim_chars(s);
    parse_i32_chars(t.as_slice())
}

/// The ASCII digit for a value below ten.
pub open spec fn digit_char(d: int) -> char {
    ((d + 48) as u32) as char
}

/// The decimal digits of `n`, most significant first, without leading
/// zeros (zero itself is `"0"`), as `u64::to_string` prints it.
pub open spec fn decimal(n: nat) -> Seq<char>
    decreases n,
{
    if n < 10 {
        seq![digit_char(n as int)]
    } else {
        decimal(n / 10).push(digit_char((n % 10) as int))
    }
}

/// The decimal digits of `n`, padded on the left with zeros to at least two
/// characters, as `format!("{:02}", n)` prints it.
pub open spec fn decimal_2(n: nat) -> Seq<char> {
    if n < 10 {
        seq!['0'] + decimal(n)
    } else {
        decimal(n)
    }
}

/// Appends the decimal digits of `n` to `s`.
pub fn push_decimal(s: &mut String, n: u64)
    ensures
        final(s)@ == old(s)@ + decimal(n as nat),
    decreases n,
{
    if n >= 10 {
        push_decimal(s, n / 10);
    }
    let d: u8 = (n % 10) as u8;
    let c: char = (48u8 + d) as char;
    assert(c == digit_char((n % 10) as int));
    push_char(s, c);
}

/// The decimal digits of `n`.
pub fn decimal_string(n: u64) -> (s: String)
    ensures
        s@ == decimal(n as nat),
{
    let mut s = String::new();
    push_decimal(&mut s, n);
    assert(Seq::<char>::empty() + decimal(n as nat) == decimal(n as nat));
    s
}

} // verus!

verus! {

// ---------------------------------------------------------------------------
// Unicode conversions that std performs
// ---------------------------------------------------------------------------

/// What `str::to_uppercase` returns for the characters `s`: the Unicode
/// uppercase mapping of each character, which may change the length.
pub uninterp spec fn unicode_uppercase(s: Seq<char>) -> Seq<char>;

/// The uppercase form of a string slice.
///
/// Trusted: calls `str::to_uppercase`; its result is named by
/// [`unicode_uppercase`] of the argument's characters and nothing more is said.
#[verifier::external_body]
pub(crate) fn to_uppercase(s: &str) -> (r: String)
    ensures
        r@ == unicode_uppercase(s@),
{
    s.to_uppercase()
}

/// What `String::from_utf8_lossy` returns for the bytes `b`: their UTF-8
/// decoding, with each invalid sequence replaced by U+FFFD.
pub uninterp spec fn utf8_lossy(b: Seq<u8>) -> Seq<char>;

/// Decodes bytes as UTF-8, replacing invalid sequences.
///
/// Trusted: calls `String::from_utf8_lossy`. Its result is named by
/// [`utf8_lossy`]; for bytes that are valid UTF-8 the documentation says the
/// text is returned unchanged, which is stated with vstd's `decode_utf8`.
/// How invalid sequences are replaced is not stated.
#[verifier::external_body]
pub(crate) fn from_utf8_lossy(b: &[u8]) -> (r: String)
    ensures
        r@ == utf8_lossy(b@),
        vstd::utf8::valid_utf8(b@) ==> r@ == vstd::utf8::decode_utf8(b@),
{
    String::from_utf8_lossy(b).into_owned()
}

} // verus!
