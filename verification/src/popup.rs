//! What the popup window shows: the clock texts under the seek bar, the
//! player label, the play/pause icon, the plan of one refresh, and the
//! queue that folds a burst of bus signals into a single refresh.

use vstd::prelude::*;

use crate::art::{youtube_thumbnail, youtube_thumbnail_url};
use crate::mpris::{metadata_field, parse_metadata, player_icon, player_icon_of};
use crate::text::{
    chars_of, decimal, decimal_2, owned, push_char, push_decimal, push_str_chars, str_eq,
    string_of, to_uppercase, unicode_uppercase,
};

verus! {

/// What the title line reads when no player is running.
pub const NO_MEDIA_TITLE: &'static str = "No media player";

/// What the clock labels read before anything is known.
pub const ZERO_CLOCK: &'static str = "0:00";

// ---------------------------------------------------------------------------
// Clock texts
// ---------------------------------------------------------------------------

/// A whole number of seconds as minutes, a colon and two-digit seconds.
pub open spec fn clock_text(seconds: nat) -> Seq<char> {
    decimal(seconds / 60) + ":"@ + decimal_2(seconds % 60)
}

/// Formats a whole, non-negative number of seconds as `m:ss`.
pub fn format_clock(seconds: u64) -> (t: String)
    ensures
        t@ == clock_text(seconds as nat),
{
    let mut t = String::new();
    push_decimal(&mut t, seconds / 60);
    push_str_chars(&mut t, ":");
    let s = seconds % 60;
    if s < 10 {
        push_char(&mut t, '0');
    }
    push_decimal(&mut t, s);
    proof {
        reveal_strlit(":");
        if s < 10 {
            assert(t@ =~= Seq::<char>::empty() + decimal(seconds as nat / 60) + ":"@ + (seq!['0']
                + decimal(s as nat)));
        } else {
            assert(t@ =~= Seq::<char>::empty() + decimal(seconds as nat / 60) + ":"@ + decimal(
                s as nat,
            ));
        }
    }
    t
}

// ---------------------------------------------------------------------------
// The player label
// ---------------------------------------------------------------------------

/// The player name without its instance suffix: the text before the first
/// `.` (`firefox.instance_1_88` becomes `firefox`).
pub open spec fn short_player_name(name: Seq<char>) -> Seq<char>
    decreases name.len(),
{
    if name.len() == 0 || name[0] == '.' {
        Seq::empty()
    } else {
        seq![name[0]] + short_player_name(name.drop_first())
    }
}

/// The label text for a player: its short name in upper case, or
/// `NO PLAYER` when that is empty.
pub open spec fn player_label(name: Seq<char>) -> Seq<char> {
    if short_player_name(name).len() == 0 {
        "NO PLAYER"@
    } else {
        unicode_uppercase(short_player_name(name))
    }
}

/// The markup of the player line, mirroring how the bar module labels
/// itself: the player's icon, two spaces and the label (already escaped
/// for Pango markup) in wide letter spacing.
pub open spec fn player_markup(name: Seq<char>, escaped_label: Seq<char>) -> Seq<char> {
    player_icon_of(name) + "  <span letter_spacing=\"900\">"@ + escaped_label + "</span>"@
}

proof fn lemma_short_player_name_prefix(name: Seq<char>, i: int)
    requires
        0 <= i <= name.len(),
        forall|j: int| 0 <= j < i ==> #[trigger] name[j] != '.',
    ensures
        short_player_name(name) == name.take(i) + short_player_name(name.skip(i)),
    decreases i,
{
    if i > 0 {
        lemma_short_player_name_prefix(name, i - 1);
        let rest = name.skip(i - 1);
        assert(rest[0] == name[i - 1]);
        assert(rest.drop_first() =~= name.skip(i));
        assert(name.take(i) =~= name.take(i - 1).push(name[i - 1]));
        assert(short_player_name(rest) == seq![name[i - 1]] + short_player_name(name.skip(i)));
    } else {
        assert(name.skip(0) =~= name);
    }
}

/// The short form of a player name.
pub fn short_name(name: &str) -> (r: String)
    ensures
        r@ == short_player_name(name@),
{
    let v = chars_of(name);
    let n = v.len();
    let mut i: usize = 0;
    while i < n && v[i] != '.'
        invariant
            n == v@.len(),
            v@ == name@,
            i <= n,
            forall|j: int| 0 <= j < i ==> #[trigger] name@[j] != '.',
        decreases n - i,
    {
        i = i + 1;
    }
    proof {
        lemma_short_player_name_prefix(name@, i as int);
        assert(short_player_name(name@.skip(i as int)) =~= Seq::<char>::empty());
    }
    let mut out: Vec<char> = Vec::new();
    for k in 0..i
        invariant
            i <= n,
            n == v@.len(),
            v@ == name@,
            out@ == name@.take(k as int),
    {
        out.push(v[k]);
        assert(name@.take(k + 1) =~= name@.take(k as int).push(name@[k as int]));
    }
    string_of(out.as_slice())
}

/// The label text of the player line, before markup escaping.
pub fn player_label_text(player_name: &str) -> (r: String)
    ensures
        r@ == player_label(player_name@),
{
    let short = short_name(player_name);
    if short.as_str().is_empty() {
        owned("NO PLAYER")
    } else {
        to_uppercase(short.as_str())
    }
}

/// The markup of the player line, from the player's name and the label
/// after markup escaping.
pub fn player_line_markup(player_name: &str, escaped_label: &str) -> (r: String)
    ensures
        r@ == player_markup(player_name@, escaped_label@),
{
    let mut r = owned(player_icon(player_name));
    push_str_chars(&mut r, "  <span letter_spacing=\"900\">");
    push_str_chars(&mut r, escaped_label);
    push_str_chars(&mut r, "</span>");
    r
}

/// The title shown for a track: `Unknown title` when it has none.
pub open spec fn display_title(title: Seq<char>) -> Seq<char> {
    if title.len() == 0 {
        "Unknown title"@
    } else {
        title
    }
}

/// The markup of the title line: the title (already escaped) in bold.
pub open spec fn title_markup(escaped_title: Seq<char>) -> Seq<char> {
    "<b>"@ + escaped_title + "</b>"@
}

/// Wraps an escaped title in bold markup.
pub fn title_line_markup(escaped_title: &str) -> (r: String)
    ensures
        r@ == title_markup(escaped_title@),
{
    let mut r = owned("<b>");
    push_str_chars(&mut r, escaped_title);
    push_str_chars(&mut r, "</b>");
    r
}

// ---------------------------------------------------------------------------
// Play/pause
// ---------------------------------------------------------------------------

/// The icon of the play/pause button: pause while playing, play otherwise.
pub open spec fn playpause_icon(is_playing: bool) -> Seq<char> {
    if is_playing {
        "media-playback-pause-symbolic"@
    } else {
        "media-playback-start-symbolic"@
    }
}

/// Name of the play/pause icon for the current playback state.
pub fn playpause_icon_name(is_playing: bool) -> (name: &'static str)
    ensures
        name@ == playpause_icon(is_playing),
{
    if is_playing {
        "media-playback-pause-symbolic"
    } else {
        "media-playback-start-symbolic"
    }
}

// ---------------------------------------------------------------------------
// One refresh
// ---------------------------------------------------------------------------

/// The cover URL for a track: its own art URL, or the YouTube thumbnail
/// derived from its page URL when it has none.
pub open spec fn cover_url(art_url: Seq<char>, page_url: Seq<char>) -> Seq<char> {
    if art_url.len() == 0 {
        youtube_thumbnail(page_url)
    } else {
        art_url
    }
}

/// What one refresh puts on screen while a player is running. The length and
/// position stay as playerctl printed them, in microseconds.
pub struct RefreshPlan {
    pub player_name: String,
    pub title: String,
    pub artist: String,
    pub is_playing: bool,
    pub art_url: String,
    pub length: String,
    pub position: String,
}

impl RefreshPlan {
    /// This plan is the one for the given playerctl status and metadata line.
    pub open spec fn plans(&self, status: Seq<char>, line: Seq<char>) -> bool {
        &&& self.player_name@ == metadata_field(line, 0)
        &&& self.title@ == display_title(metadata_field(line, 1))
        &&& self.artist@ == metadata_field(line, 2)
        &&& self.is_playing == (status == "Playing"@)
        &&& self.art_url@ == cover_url(metadata_field(line, 3), metadata_field(line, 6))
        &&& self.length@ == metadata_field(line, 4)
        &&& self.position@ == metadata_field(line, 5)
    }
}

/// Plans a refresh from the player's status and its metadata line.
pub fn plan_refresh(status: &str, metadata: &str) -> (p: RefreshPlan)
    ensures
        p.plans(status@, metadata@),
{
    let m = parse_metadata(metadata);
    let title = if m.title.as_str().is_empty() {
        owned("Unknown title")
    } else {
        m.title
    };
    let is_playing = str_eq(status, "Playing");
    let art_url = if m.art_url.as_str().is_empty() {
        youtube_thumbnail_url(m.page_url.as_str())
    } else {
        m.art_url
    };
    RefreshPlan {
        player_name: m.player_name,
        title,
        artist: m.artist,
        is_playing,
        art_url,
        length: m.length,
        position: m.position,
    }
}

// ---------------------------------------------------------------------------
// Coalescing refreshes
// ---------------------------------------------------------------------------

/// What the refresh queue sees: a bus signal asking for a refresh, or the
/// scheduled refresh starting when its timer fires.
pub enum QueueEvent {
    Signal,
    RefreshStarts,
}

/// Whether a refresh is scheduled after `event`, when `queued` said so
/// before it.
pub open spec fn queue_after(queued: bool, event: QueueEvent) -> bool {
    match event {
        QueueEvent::Signal => true,
        QueueEvent::RefreshStarts => false,
    }
}

/// Whether `event` schedules a new refresh: a signal does when none is
/// scheduled.
pub open spec fn schedules_refresh(queued: bool, event: QueueEvent) -> bool {
    event is Signal && !queued
}

/// Whether a refresh is scheduled after all of `events`.
pub open spec fn queue_after_all(queued: bool, events: Seq<QueueEvent>) -> bool
    decreases events.len(),
{
    if events.len() == 0 {
        queued
    } else {
        queue_after_all(queue_after(queued, events[0]), events.drop_first())
    }
}

/// How many refreshes `events` schedule.
pub open spec fn refreshes_scheduled(queued: bool, events: Seq<QueueEvent>) -> nat
    decreases events.len(),
{
    if events.len() == 0 {
        0
    } else {
        (if schedules_refresh(queued, events[0]) {
            1nat
        } else {
            0nat
        }) + refreshes_scheduled(queue_after(queued, events[0]), events.drop_first())
    }
}

/// How many refreshes start during `events`.
pub open spec fn refreshes_started(events: Seq<QueueEvent>) -> nat
    decreases events.len(),
{
    if events.len() == 0 {
        0
    } else {
        (if events[0] is RefreshStarts {
            1nat
        } else {
            0nat
        }) + refreshes_started(events.drop_first())
    }
}

/// A refresh starts only when one was scheduled, as a timer that was set
/// by a scheduling signal does.
pub open spec fn starts_only_when_scheduled(queued: bool, events: Seq<QueueEvent>) -> bool
    decreases events.len(),
{
    if events.len() == 0 {
        true
    } else {
        (events[0] is RefreshStarts ==> queued) && starts_only_when_scheduled(
            queue_after(queued, events[0]),
            events.drop_first(),
        )
    }
}

/// Whether a refresh is scheduled, so that a burst of signals costs one
/// refresh (a track change fires several within milliseconds).
pub struct RefreshQueue {
    queued: bool,
}

impl View for RefreshQueue {
    type V = bool;

    closed spec fn view(&self) -> bool {
        self.queued
    }
}

impl RefreshQueue {
    /// No refresh is scheduled.
    pub fn new() -> (q: RefreshQueue)
        ensures
            !q@,
    {
        RefreshQueue { queued: false }
    }

    /// A signal arrived: returns whether a refresh must be scheduled, which
    /// is so only when none is already.
    pub fn request(&mut self) -> (schedule: bool)
        ensures
            schedule == schedules_refresh(old(self)@, QueueEvent::Signal),
            final(self)@ == queue_after(old(self)@, QueueEvent::Signal),
    {
        let schedule = !self.queued;
        self.queued = true;
        schedule
    }

    /// The scheduled refresh is running: later signals schedule a new one.
    pub fn start(&mut self)
        ensures
            final(self)@ == queue_after(old(self)@, QueueEvent::RefreshStarts),
    {
        self.queued = false;
    }
}

// ---------------------------------------------------------------------------
// Laws
// ---------------------------------------------------------------------------

/// A burst of signals, with no refresh starting in between, costs at most
/// one refresh: exactly one when none was scheduled before it, none when one
/// already was.
pub proof fn law_burst_costs_one_refresh(queued: bool, events: Seq<QueueEvent>)
    requires
        forall|i: int| 0 <= i < events.len() ==> #[trigger] events[i] is Signal,
    ensures
        refreshes_scheduled(queued, events) == (if events.len() > 0 && !queued {
            1nat
        } else {
            0nat
        }),
    decreases events.len(),
{
    if events.len() > 0 {
        let rest = events.drop_first();
        assert forall|i: int| 0 <= i < rest.len() implies #[trigger] rest[i] is Signal by {
            assert(rest[i] == events[i + 1]);
        }
        assert(events[0] is Signal);
        law_burst_costs_one_refresh(true, rest);
    }
}

/// Every scheduled refresh either has started or is still scheduled, and at
/// most one is ever outstanding.
pub proof fn law_scheduled_refreshes_run(queued: bool, events: Seq<QueueEvent>)
    requires
        starts_only_when_scheduled(queued, events),
    ensures
        refreshes_scheduled(queued, events) + (if queued {
            1nat
        } else {
            0nat
        }) == refreshes_started(events) + (if queue_after_all(queued, events) {
            1nat
        } else {
            0nat
        }),
    decreases events.len(),
{
    if events.len() > 0 {
        law_scheduled_refreshes_run(queue_after(queued, events[0]), events.drop_first());
    }
}

proof fn lemma_scheduled_until_start(queued: bool, events: Seq<QueueEvent>)
    requires
        queued,
        forall|j: int| 0 <= j < events.len() ==> !(#[trigger] events[j] is RefreshStarts),
    ensures
        queue_after_all(queued, events),
    decreases events.len(),
{
    if events.len() > 0 {
        let rest = events.drop_first();
        assert forall|j: int| 0 <= j < rest.len() implies !(#[trigger] rest[j] is RefreshStarts) by {
            assert(rest[j] == events[j + 1]);
        }
        assert(!(events[0] is RefreshStarts));
        lemma_scheduled_until_start(true, rest);
    }
}

/// Every signal is followed by a refresh that starts after it: either one
/// starts later on, or one is still scheduled at the end.
pub proof fn law_every_signal_gets_a_refresh(queued: bool, events: Seq<QueueEvent>, i: int)
    requires
        0 <= i < events.len(),
        events[i] is Signal,
    ensures
        (exists|j: int| i < j < events.len() && #[trigger] events[j] is RefreshStarts)
            || queue_after_all(queued, events),
    decreases events.len(),
{
    let rest = events.drop_first();
    if i == 0 {
        if !(exists|j: int| 0 < j < events.len() && #[trigger] events[j] is RefreshStarts) {
            assert forall|j: int| 0 <= j < rest.len() implies !(
            #[trigger] rest[j] is RefreshStarts) by {
                assert(rest[j] == events[j + 1]);
            }
            lemma_scheduled_until_start(true, rest);
        }
    } else {
        assert(rest[i - 1] == events[i]);
        law_every_signal_gets_a_refresh(queue_after(queued, events[0]), rest, i - 1);
        if exists|j: int| i - 1 < j < rest.len() && #[trigger] rest[j] is RefreshStarts {
            let j = choose|j: int| i - 1 < j < rest.len() && #[trigger] rest[j] is RefreshStarts;
            assert(events[j + 1] == rest[j]);
        }
    }
}

/// The label drops a player's instance suffix: `firefox.instance_1_88` and
/// `firefox` get the same label.
pub proof fn law_instance_suffix_dropped(name: Seq<char>, suffix: Seq<char>)
    requires
        !name.contains('.'),
    ensures
        short_player_name(name + seq!['.'] + suffix) == name,
        short_player_name(name) == name,
        player_label(name + seq!['.'] + suffix) == player_label(name),
{
    let full = name + seq!['.'] + suffix;
    assert forall|j: int| 0 <= j < name.len() implies #[trigger] full[j] != '.' by {
        assert(full[j] == name[j]);
        assert(name.contains(name[j]));
    }
    lemma_short_player_name_prefix(full, name.len() as int);
    assert(full.take(name.len() as int) =~= name);
    assert(full.skip(name.len() as int)[0] == '.');
    assert forall|j: int| 0 <= j < name.len() implies #[trigger] name[j] != '.' by {
        assert(name.contains(name[j]));
    }
    lemma_short_player_name_prefix(name, name.len() as int);
    assert(name.take(name.len() as int) =~= name);
    assert(name.skip(name.len() as int) =~= Seq::<char>::empty());
    assert(full.take(name.len() as int) + Seq::<char>::empty() =~= name);
    assert(name + Seq::<char>::empty() =~= name);
}

/// The seconds of a clock text always take two digits.
pub proof fn law_clock_seconds_two_digits(seconds: nat)
    ensures
        decimal_2(seconds % 60).len() == 2,
{
    let s = seconds % 60;
    if s < 10 {
        assert(decimal(s).len() == 1);
    } else {
        assert(decimal(s / 10).len() == 1);
        assert(decimal(s).len() == 2);
    }
}

/// The player's own cover is always preferred: whenever the art URL is
/// non-empty it is the cover, whatever the page URL; only an empty art URL
/// falls back to the thumbnail derived from the page.
pub proof fn law_player_art_preferred(art_url: Seq<char>, page_url: Seq<char>)
    ensures
        art_url.len() > 0 ==> cover_url(art_url, page_url) == art_url,
        art_url.len() == 0 ==> cover_url(art_url, page_url) == youtube_thumbnail(page_url),
{
}

/// A refresh shows the cover URL the player reported whenever it reported
/// one.
pub proof fn law_refresh_keeps_player_art(p: RefreshPlan, status: Seq<char>, line: Seq<char>)
    requires
        p.plans(status, line),
        metadata_field(line, 3).len() > 0,
    ensures
        p.art_url@ == metadata_field(line, 3),
{
}

} // verus!
