//! What the popup asks of and reads back from playerctl and the session bus:
//! the metadata line, the player's icon, the bus name behind a player and
//! the compositor command that focuses its window.

use vstd::prelude::*;

use crate::runtime::lemma_decimal_digits;
use crate::text::{
    all_digits, ascii_lower, ascii_lower_seq, ascii_lowercase_chars, chars_of, decimal,
    digits_value, from_utf8_lossy, has_prefix, owned, push_decimal, push_str_chars,
    starts_with_chars, string_of, trim, trim_chars, utf8_lossy,
};

verus! {

/// The bus name under which playerctld proxies the active player.
pub const MPRIS_BUS_NAME: &'static str = "org.mpris.MediaPlayer2.playerctld";

/// The object path of every MPRIS player.
pub const MPRIS_OBJECT_PATH: &'static str = "/org/mpris/MediaPlayer2";

/// The D-Bus properties interface.
pub const DBUS_PROPERTIES_IFACE: &'static str = "org.freedesktop.DBus.Properties";

/// The MPRIS player interface.
pub const MPRIS_PLAYER_IFACE: &'static str = "org.mpris.MediaPlayer2.Player";

/// The prefix shared by the bus names of all MPRIS players.
pub const MPRIS_BUS_PREFIX: &'static str = "org.mpris.MediaPlayer2.";

/// The playerctl `--format` template that asks for every field a refresh
/// needs in one call, separated by [`METADATA_SEP`].
pub const METADATA_FORMAT: &'static str = "{{playerName}}\u{1f}{{title}}\u{1f}{{artist}}\u{1f}{{mpris:artUrl}}\u{1f}{{mpris:length}}\u{1f}{{position}}\u{1f}{{xesam:url}}";

/// The ASCII unit separator between metadata fields; playerctl passes it
/// through and metadata never contains it.
pub const METADATA_SEP: char = '\u{1f}';

/// How many fields [`METADATA_FORMAT`] asks for.
pub const METADATA_FIELD_COUNT: usize = 7;

// ---------------------------------------------------------------------------
// Command output
// ---------------------------------------------------------------------------

/// The text that a playerctl call yields: its standard output decoded and
/// trimmed when it exited successfully, and the empty text otherwise.
pub open spec fn command_text(exit_ok: bool, stdout: Seq<u8>) -> Seq<char> {
    if exit_ok {
        trim(utf8_lossy(stdout))
    } else {
        Seq::empty()
    }
}

/// The text of a finished playerctl call, from whether it succeeded and what
/// it wrote to standard output. A call that could not be started counts as
/// failed.
pub fn playerctl_text(exit_ok: bool, stdout: &[u8]) -> (r: String)
    ensures
        r@ == command_text(exit_ok, stdout@),
{
    if exit_ok {
        let decoded = from_utf8_lossy(stdout);
        let t = trim_chars(decoded.as_str());
        string_of(t.as_slice())
    } else {
        String::new()
    }
}

// ---------------------------------------------------------------------------
// Player icon
// ---------------------------------------------------------------------------

/// The Nerd Font glyph for a player: Spotify's and Firefox's own glyphs when
/// the name starts with theirs, ignoring ASCII case, and a play glyph for any
/// other player.
pub open spec fn player_icon_of(player_name: Seq<char>) -> Seq<char> {
    let lower = ascii_lower_seq(player_name);
    if has_prefix(lower, "spotify"@) {
        "\u{f1bc}"@
    } else if has_prefix(lower, "firefox"@) {
        "\u{e745}"@
    } else {
        "\u{f144}"@
    }
}

/// Nerd Font glyph for a player, kept in sync with `mpris.player-icons` in
/// the bar's configuration.
pub fn player_icon(player_name: &str) -> (icon: &'static str)
    ensures
        icon@ == player_icon_of(player_name@),
{
    let lower = ascii_lowercase_chars(player_name);
    let spotify = chars_of("spotify");
    let firefox = chars_of("firefox");
    if starts_with_chars(lower.as_slice(), spotify.as_slice()) {
        "\u{f1bc}"
    } else if starts_with_chars(lower.as_slice(), firefox.as_slice()) {
        "\u{e745}"
    } else {
        "\u{f144}"
    }
}

// ---------------------------------------------------------------------------
// Metadata fields
// ---------------------------------------------------------------------------

/// The pieces of `s` between occurrences of `sep`, as `str::split` yields
/// them: one more piece than there are separators, empty pieces included.
pub open spec fn split_on(s: Seq<char>, sep: char) -> Seq<Seq<char>>
    decreases s.len(),
{
    if s.len() == 0 {
        seq![Seq::<char>::empty()]
    } else {
        let prev = split_on(s.drop_last(), sep);
        if s.last() == sep {
            prev.push(Seq::<char>::empty())
        } else {
            prev.update(prev.len() - 1, prev.last().push(s.last()))
        }
    }
}

/// The pieces joined back together with `sep` between them.
pub open spec fn join_with(pieces: Seq<Seq<char>>, sep: char) -> Seq<char>
    decreases pieces.len(),
{
    if pieces.len() <= 1 {
        if pieces.len() == 0 {
            Seq::empty()
        } else {
            pieces[0]
        }
    } else {
        join_with(pieces.drop_last(), sep).push(sep) + pieces.last()
    }
}

/// Field `k` of a metadata line: the `k`-th piece between separators, or the
/// empty text when the line has fewer pieces.
pub open spec fn metadata_field(line: Seq<char>, k: int) -> Seq<char> {
    let pieces = split_on(line, METADATA_SEP);
    if 0 <= k < pieces.len() {
        pieces[k]
    } else {
        Seq::empty()
    }
}

proof fn lemma_split_on_nonempty(s: Seq<char>, sep: char)
    ensures
        split_on(s, sep).len() >= 1,
    decreases s.len(),
{
    if s.len() > 0 {
        lemma_split_on_nonempty(s.drop_last(), sep);
    }
}

/// The characters held by each of a sequence of character vectors.
pub open spec fn pieces_view(p: Seq<Vec<char>>) -> Seq<Seq<char>> {
    p.map_values(|v: Vec<char>| v@)
}

/// The pieces of `s` split at `sep`.
pub fn split_chars(s: &str, sep: char) -> (pieces: Vec<Vec<char>>)
    ensures
        pieces_view(pieces@) == split_on(s@, sep),
{
    let src = chars_of(s);
    let n = src.len();
    let mut pieces: Vec<Vec<char>> = Vec::new();
    let mut cur: Vec<char> = Vec::new();
    for i in 0..n
        invariant
            n == src@.len(),
            src@ == s@,
            split_on(s@.take(i as int), sep) == pieces_view(pieces@).push(cur@),
    {
        let c = src[i];
        let ghost before = pieces_view(pieces@).push(cur@);
        assert(s@.take(i + 1).drop_last() =~= s@.take(i as int));
        assert(s@.take(i + 1).last() == c);
        if c == sep {
            let done = cur;
            pieces.push(done);
            cur = Vec::new();
            assert(pieces_view(pieces@) =~= before);
            assert(pieces_view(pieces@).push(cur@) =~= before.push(Seq::<char>::empty()));
        } else {
            cur.push(c);
            assert(pieces_view(pieces@).push(cur@) =~= before.update(
                before.len() - 1,
                before.last().push(c),
            ));
        }
    }
    let ghost before = pieces_view(pieces@).push(cur@);
    pieces.push(cur);
    assert(pieces_view(pieces@) =~= before);
    assert(s@.take(n as int) =~= s@);
    pieces
}

/// The seven fields of one metadata line, in the order of
/// [`METADATA_FORMAT`]. Missing fields are empty.
pub struct TrackMetadata {
    pub player_name: String,
    pub title: String,
    pub artist: String,
    pub art_url: String,
    pub length: String,
    pub position: String,
    pub page_url: String,
}

impl TrackMetadata {
    /// This metadata holds exactly the fields of `line`.
    pub open spec fn fields_of(&self, line: Seq<char>) -> bool {
        &&& self.player_name@ == metadata_field(line, 0)
        &&& self.title@ == metadata_field(line, 1)
        &&& self.artist@ == metadata_field(line, 2)
        &&& self.art_url@ == metadata_field(line, 3)
        &&& self.length@ == metadata_field(line, 4)
        &&& self.position@ == metadata_field(line, 5)
        &&& self.page_url@ == metadata_field(line, 6)
    }
}

fn piece_at(pieces: &Vec<Vec<char>>, k: usize) -> (r: String)
    ensures
        r@ == (if k < pieces@.len() {
            pieces_view(pieces@)[k as int]
        } else {
            Seq::<char>::empty()
        }),
{
    if k < pieces.len() {
        string_of(pieces[k].as_slice())
    } else {
        String::new()
    }
}

/// Splits a metadata line printed with [`METADATA_FORMAT`] into its fields.
pub fn parse_metadata(line: &str) -> (m: TrackMetadata)
    ensures
        m.fields_of(line@),
{
    let pieces = split_chars(line, METADATA_SEP);
    TrackMetadata {
        player_name: piece_at(&pieces, 0),
        title: piece_at(&pieces, 1),
        artist: piece_at(&pieces, 2),
        art_url: piece_at(&pieces, 3),
        length: piece_at(&pieces, 4),
        position: piece_at(&pieces, 5),
        page_url: piece_at(&pieces, 6),
    }
}

// ---------------------------------------------------------------------------
// Bus names
// ---------------------------------------------------------------------------

/// The bus name a player has when it runs a single instance.
pub open spec fn player_bus_name(player_name: Seq<char>) -> Seq<char> {
    MPRIS_BUS_PREFIX@ + player_name
}

/// `name` is the bus name of the player: its base form, or an instance form
/// that adds a `.` and a suffix (playerctl reports `firefox` while the bus
/// carries `...firefox.instance_1_96`).
pub open spec fn is_player_bus_name(name: Seq<char>, player_name: Seq<char>) -> bool {
    name == player_bus_name(player_name) || has_prefix(
        name,
        player_bus_name(player_name).push('.'),
    )
}

/// The first of `names` that is a bus name of the player.
pub open spec fn first_player_bus_name(names: Seq<Seq<char>>, player_name: Seq<char>) -> Option<
    Seq<char>,
>
    decreases names.len(),
{
    if names.len() == 0 {
        None
    } else if is_player_bus_name(names[0], player_name) {
        Some(names[0])
    } else {
        first_player_bus_name(names.drop_first(), player_name)
    }
}

proof fn lemma_first_player_bus_name_skip(names: Seq<Seq<char>>, player_name: Seq<char>, i: int)
    requires
        0 <= i <= names.len(),
        forall|j: int| 0 <= j < i ==> !is_player_bus_name(#[trigger] names[j], player_name),
    ensures
        first_player_bus_name(names, player_name) == first_player_bus_name(
            names.skip(i),
            player_name,
        ),
    decreases i,
{
    if i > 0 {
        lemma_first_player_bus_name_skip(names, player_name, i - 1);
        assert(names.skip(i - 1).drop_first() =~= names.skip(i));
        assert(names.skip(i - 1)[0] == names[i - 1]);
    } else {
        assert(names.skip(0) =~= names);
    }
}

/// Of the names on the bus, the first that belongs to the player, if any.
pub fn find_player_bus_name(names: &Vec<String>, player_name: &str) -> (r: Option<String>)
    ensures
        r.deep_view() == first_player_bus_name(names.deep_view(), player_name@),
{
    let mut wanted = owned(MPRIS_BUS_PREFIX);
    push_str_chars(&mut wanted, player_name);
    let wanted_chars = chars_of(wanted.as_str());
    let mut instance_prefix = wanted_chars.clone();
    instance_prefix.push('.');
    let ghost view = names.deep_view();
    let n = names.len();
    for i in 0..n
        invariant
            n == view.len(),
            view == names.deep_view(),
            wanted_chars@ == player_bus_name(player_name@),
            instance_prefix@ == player_bus_name(player_name@).push('.'),
            forall|j: int| 0 <= j < i ==> !is_player_bus_name(#[trigger] view[j], player_name@),
    {
        let name = chars_of(names[i].as_str());
        assert(view[i as int] == name@);
        let exact = name.len() == wanted_chars.len() && starts_with_chars(
            name.as_slice(),
            wanted_chars.as_slice(),
        );
        let instance = starts_with_chars(name.as_slice(), instance_prefix.as_slice());
        proof {
            assert(name@.subrange(0, name@.len() as int) =~= name@);
        }
        if exact || instance {
            proof {
                lemma_first_player_bus_name_skip(view, player_name@, i as int);
                assert(view.skip(i as int)[0] == view[i as int]);
            }
            return Some(owned(names[i].as_str()));
        }
    }
    proof {
        lemma_first_player_bus_name_skip(view, player_name@, n as int);
    }
    None
}

// ---------------------------------------------------------------------------
// Focusing the player's window
// ---------------------------------------------------------------------------

/// The Hyprland expression that focuses the window of process `pid`.
pub open spec fn focus_expression(pid: nat) -> Seq<char> {
    "hl.dispatch(hl.dsp.focus({ window = \"pid:"@ + decimal(pid) + "\" }))"@
}

/// The `hyprctl eval` argument that focuses the window owned by `pid`.
pub fn focus_window_expression(pid: u32) -> (e: String)
    ensures
        e@ == focus_expression(pid as nat),
{
    let mut e = owned("hl.dispatch(hl.dsp.focus({ window = \"pid:");
    push_decimal(&mut e, pid as u64);
    push_str_chars(&mut e, "\" }))");
    e
}

// ---------------------------------------------------------------------------
// Laws
// ---------------------------------------------------------------------------

proof fn lemma_split_on_append_plain(x: Seq<char>, b: Seq<char>, sep: char)
    requires
        !b.contains(sep),
    ensures
        split_on(x + b, sep) == split_on(x, sep).update(
            split_on(x, sep).len() - 1,
            split_on(x, sep).last() + b,
        ),
        split_on(x + b, sep).len() == split_on(x, sep).len(),
    decreases b.len(),
{
    lemma_split_on_nonempty(x, sep);
    let px = split_on(x, sep);
    if b.len() == 0 {
        assert(x + b =~= x);
        assert(px.last() + b =~= px.last());
        assert(px.update(px.len() - 1, px.last()) =~= px);
    } else {
        let b0 = b.drop_last();
        assert(!b0.contains(sep)) by {
            if b0.contains(sep) {
                let k = choose|k: int| 0 <= k < b0.len() && b0[k] == sep;
                assert(b[k] == sep);
            }
        }
        assert(b.last() != sep) by {
            assert(b[b.len() - 1] == b.last());
        }
        lemma_split_on_append_plain(x, b0, sep);
        assert((x + b).drop_last() =~= x + b0);
        assert((x + b).last() == b.last());
        let prev = split_on(x + b0, sep);
        assert(prev.last() == px.last() + b0);
        assert(prev.last().push(b.last()) =~= px.last() + b);
        assert(prev.update(prev.len() - 1, prev.last().push(b.last())) =~= px.update(
            px.len() - 1,
            px.last() + b,
        ));
    }
}

/// Splitting fields joined with a separator that none of them contains gives
/// the fields back.
pub proof fn law_split_join(fields: Seq<Seq<char>>, sep: char)
    requires
        fields.len() >= 1,
        forall|i: int| 0 <= i < fields.len() ==> !(#[trigger] fields[i]).contains(sep),
    ensures
        split_on(join_with(fields, sep), sep) == fields,
    decreases fields.len(),
{
    if fields.len() == 1 {
        let e = Seq::<char>::empty();
        lemma_split_on_append_plain(e, fields[0], sep);
        assert(e + fields[0] =~= fields[0]);
        assert(split_on(e, sep) =~= seq![e]);
        assert(e + fields[0] =~= fields[0]);
        assert(seq![e].update(0, e + fields[0]) =~= fields);
    } else {
        let init = fields.drop_last();
        assert forall|i: int| 0 <= i < init.len() implies !(#[trigger] init[i]).contains(sep) by {
            assert(init[i] == fields[i]);
        }
        law_split_join(init, sep);
        let j = join_with(init, sep).push(sep);
        assert(!fields.last().contains(sep)) by {
            assert(fields[fields.len() - 1] == fields.last());
        }
        lemma_split_on_append_plain(j, fields.last(), sep);
        assert(j.drop_last() =~= join_with(init, sep));
        assert(split_on(j, sep) == init.push(Seq::<char>::empty()));
        assert(Seq::<char>::empty() + fields.last() =~= fields.last());
        assert(init.push(Seq::<char>::empty()).update(init.len() as int, fields.last()) =~= fields);
    }
}

/// Metadata fields that do not contain the separator come back from a line
/// printed with [`METADATA_FORMAT`] exactly as the player reported them.
pub proof fn law_metadata_round_trip(fields: Seq<Seq<char>>)
    requires
        fields.len() == METADATA_FIELD_COUNT,
        forall|i: int| 0 <= i < fields.len() ==> !(#[trigger] fields[i]).contains(METADATA_SEP),
    ensures
        forall|k: int|
            0 <= k < METADATA_FIELD_COUNT ==> #[trigger] metadata_field(
                join_with(fields, METADATA_SEP),
                k,
            ) == fields[k],
{
    law_split_join(fields, METADATA_SEP);
}

/// The player's icon does not depend on the ASCII case of its name.
pub proof fn law_player_icon_ignores_case(a: Seq<char>, b: Seq<char>)
    requires
        ascii_lower_seq(a) == ascii_lower_seq(b),
    ensures
        player_icon_of(a) == player_icon_of(b),
{
}

proof fn lemma_ascii_lower_of_lowercase_prefix(p: Seq<char>, s: Seq<char>)
    requires
        forall|i: int| 0 <= i < p.len() ==> 'a' <= #[trigger] p[i] && p[i] <= 'z',
    ensures
        has_prefix(ascii_lower_seq(p + s), p),
{
    let l = ascii_lower_seq(p + s);
    assert forall|i: int| 0 <= i < p.len() implies #[trigger] l.subrange(0, p.len() as int)[i]
        == p[i] by {
        assert((p + s)[i] == p[i]);
        assert(l[i] == ascii_lower((p + s)[i]));
    }
    assert(l.subrange(0, p.len() as int) =~= p);
}

/// Every player whose name starts with `spotify` gets Spotify's glyph, and
/// every player whose name starts with `firefox` gets Firefox's, whatever
/// follows (`spotifyd`, `firefox.instance_1_96`, ...).
pub proof fn law_player_icon_by_name_prefix(suffix: Seq<char>)
    ensures
        player_icon_of("spotify"@ + suffix) == "\u{f1bc}"@,
        player_icon_of("firefox"@ + suffix) == "\u{e745}"@,
{
    reveal_strlit("spotify");
    reveal_strlit("firefox");
    let sp = "spotify"@;
    let ff = "firefox"@;
    assert(sp =~= seq!['s', 'p', 'o', 't', 'i', 'f', 'y']);
    assert(ff =~= seq!['f', 'i', 'r', 'e', 'f', 'o', 'x']);
    lemma_ascii_lower_of_lowercase_prefix(sp, suffix);
    lemma_ascii_lower_of_lowercase_prefix(ff, suffix);
    let lf = ascii_lower_seq(ff + suffix);
    assert(!has_prefix(lf, sp)) by {
        assert(lf.subrange(0, 7)[0] == 'f');
        assert(sp[0] == 's');
    }
}

/// The digits of a focus expression: what stands between `pid:` and the
/// closing quote.
pub open spec fn focus_expression_digits(e: Seq<char>) -> Seq<char> {
    e.subrange(
        "hl.dispatch(hl.dsp.focus({ window = \"pid:"@.len() as int,
        e.len() - "\" }))"@.len(),
    )
}

/// The focus expression names the whole pid: it is the fixed text, then
/// decimal digits, then the fixed closing text, and those digits read back
/// as exactly `pid`. So distinct pids never focus the same window.
pub proof fn law_focus_expression_names_whole_pid(pid: nat, other: nat)
    ensures
        has_prefix(focus_expression(pid), "hl.dispatch(hl.dsp.focus({ window = \"pid:"@),
        focus_expression(pid).len() > "hl.dispatch(hl.dsp.focus({ window = \"pid:"@.len()
            + "\" }))"@.len(),
        focus_expression(pid).skip(focus_expression(pid).len() - "\" }))"@.len())
            == "\" }))"@,
        all_digits(focus_expression_digits(focus_expression(pid))),
        digits_value(focus_expression_digits(focus_expression(pid))) == pid,
        pid != other ==> focus_expression(pid) != focus_expression(other),
{
    let p = "hl.dispatch(hl.dsp.focus({ window = \"pid:"@;
    let q = "\" }))"@;
    lemma_decimal_digits(pid);
    lemma_decimal_digits(other);
    let e = focus_expression(pid);
    let d = decimal(pid);
    assert(e == p + d + q);
    assert(e.subrange(0, p.len() as int) =~= p);
    assert(e.skip(e.len() - q.len()) =~= q);
    assert(focus_expression_digits(e) =~= d);
    let e2 = focus_expression(other);
    assert(focus_expression_digits(e2) =~= decimal(other));
}

} // verus!
