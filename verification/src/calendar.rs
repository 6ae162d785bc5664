//! The team calendar: what the annotation reads of each component, and the
//! annotation itself, which prefixes the summary of every game with a note for
//! each show at the venue that clashes with it.

use vstd::prelude::*;
use chrono::{Datelike, Timelike};
use icalendar::{Calendar, CalendarComponent, CalendarDateTime, Component, DatePerhapsTime};
use crate::instant::{in_chrono_range, is_valid_date, midnight_timestamp, midnight_utc_timestamp, pacific_label, pacific_time_label};
use crate::venue::{
    clashes, distinct_listed_starts, infos_of, lemma_venue_events_order_independent, overlaps, sort_by_start, timed,
    VenueEvent, VenueEventInfo,
};

verus! {

#[verifier::external_type_specification]
#[verifier::external_body]
pub struct ExCalendar(icalendar::Calendar);

#[verifier::external_type_specification]
#[verifier::external_body]
pub struct ExCalendarComponent(icalendar::CalendarComponent);

/// The start (`DTSTART`) of a calendar event. `Floating` and `Zoned` hold the
/// wall-clock time counted in seconds as if it were UTC; `nanos` is the
/// fraction of the second, a second or more during a leap second (chrono's
/// `timestamp_subsec_nanos`). A floating start keeps whole seconds only.
pub enum EventStart {
    Date { year: i32, month: u32, day: u32 },
    Floating { local: i64 },
    Utc { timestamp: i64, nanos: u32 },
    Zoned { local: i64, nanos: u32, tzid: String },
}

/// The value of an [`EventStart`], with the time zone's name as characters.
pub enum StartView {
    Date { year: i32, month: u32, day: u32 },
    Floating { local: i64 },
    Utc { timestamp: i64, nanos: u32 },
    Zoned { local: i64, nanos: u32, tzid: Seq<char> },
}

impl View for EventStart {
    type V = StartView;

    open spec fn view(&self) -> StartView {
        match self {
            EventStart::Date { year, month, day } => StartView::Date { year: *year, month: *month, day: *day },
            EventStart::Floating { local } => StartView::Floating { local: *local },
            EventStart::Utc { timestamp, nanos } => StartView::Utc { timestamp: *timestamp, nanos: *nanos },
            EventStart::Zoned { local, nanos, tzid } => StartView::Zoned { local: *local, nanos: *nanos, tzid: tzid@ },
        }
    }
}

/// What the annotation reads of one component of a calendar: whether it is an
/// event, and, for an event, its start and its summary as `get_start` and
/// `get_summary` give them.
pub struct ComponentModel {
    pub is_event: bool,
    pub start: Option<StartView>,
    pub summary: Option<Seq<char>>,
}

/// The components of a calendar, in order.
pub uninterp spec fn calendar_components(calendar: Calendar) -> Seq<ComponentModel>;

/// The calendar that icalendar parses from `text`, as its components and its
/// content besides the events' summaries, or `None` where it refuses the text.
pub uninterp spec fn parsed_calendar(text: Seq<char>) -> Option<(Seq<ComponentModel>, Seq<Seq<char>>)>;

/// Everything a calendar holds besides the `SUMMARY` of its events: the
/// calendar's own properties and, for each component in order, its kind, its
/// properties (for an event, all but the `SUMMARY` entry of its property map),
/// its multi-properties and its nested components. Two calendars that differ
/// only in the `SUMMARY` of events have the same value.
pub uninterp spec fn content_besides_summaries(calendar: Calendar) -> Seq<Seq<char>>;

/// Whether the calendar is free of what icalendar does not write back
/// faithfully: no property value anywhere in it holds a carriage return, no
/// property value that icalendar writes without escaping holds a line feed,
/// and no parameter value holds a double quote, a carriage return that is
/// not directly followed by a line feed, or a line feed directly followed by
/// a space or a tab. (Parameter values are written as they are held and read
/// up to the next `;` or `:`, across line breaks; a line break followed by a
/// space or a tab is a fold, which the parser removes.)
pub uninterp spec fn text_safe(calendar: Calendar) -> bool;

/// Whether every component of the calendar, at any depth, holds a `DTSTAMP`
/// and a `UID` property (icalendar writes the current time and a random `UID`
/// into components without them).
pub uninterp spec fn stamped(calendar: Calendar) -> bool;

/// Whether icalendar's `Display` of the calendar returns. Its line folding
/// (`fold_line`) tests for whitespace at a character index but steps by byte
/// index; on some content lines that hold characters of several bytes it
/// steps back past the start of the segment and panics.
pub uninterp spec fn renders(calendar: Calendar) -> bool;

/// The UTC instant (second, and nanoseconds after it) of the wall-clock time
/// `local` plus `nanos` nanoseconds in the IANA time zone `tzid`, or `None`
/// where the zone is unknown or the time does not occur there exactly once.
pub uninterp spec fn zoned_to_utc(local: i64, nanos: u32, tzid: Seq<char>) -> Option<(i64, u32)>;

/// A fraction of a second that chrono can hold: under a second, or under two
/// seconds in the last second of a minute (a leap second).
pub open spec fn valid_nanos(secs: int, nanos: int) -> bool {
    nanos < 1_000_000_000 || (secs % 60 == 59 && nanos < 2_000_000_000)
}

/// The values of a start are ones that chrono can represent.
pub open spec fn start_in_range(s: StartView) -> bool {
    match s {
        StartView::Date { year, month, day } => is_valid_date(year as int, month as int, day as int),
        StartView::Floating { local } => in_chrono_range(local as int),
        StartView::Utc { timestamp, nanos } => in_chrono_range(timestamp as int) && valid_nanos(
            timestamp as int,
            nanos as int,
        ),
        StartView::Zoned { local, nanos, tzid } => in_chrono_range(local as int) && valid_nanos(
            local as int,
            nanos as int,
        ),
    }
}

/// `s` holds no carriage return.
pub open spec fn no_cr(s: Seq<char>) -> bool {
    forall|i: int| 0 <= i < s.len() ==> s[i] != '\r'
}

/// Every line break of `text` is the same: it holds no carriage return, or
/// every carriage return is followed by a line feed and every line feed
/// follows a carriage return.
pub open spec fn uniform_line_breaks(text: Seq<char>) -> bool {
    no_cr(text) || (forall|i: int|
        0 <= i < text.len() ==> (#[trigger] text[i] == '\r' ==> i + 1 < text.len() && text[i + 1] == '\n') && (text[i]
            == '\n' ==> i > 0 && text[i - 1] == '\r'))
}

/// Every character of the text is ASCII.
pub open spec fn all_ascii(text: Seq<char>) -> bool {
    forall|i: int| 0 <= i < text.len() ==> (#[trigger] text[i] as int) < 128
}

/// No line of the text is empty: no line feed is directly followed by a line
/// break. (Where one is, unfolding can leave a fold behind.)
pub open spec fn no_blank_line(text: Seq<char>) -> bool {
    forall|i: int| 0 <= i < text.len() - 1 ==> #[trigger] text[i] == '\n' ==> text[i + 1] != '\n' && text[i + 1] != '\r'
}

/// The text holds no double quote and no escaped line break (a backslash
/// followed by `n` or `N`).
pub open spec fn no_quote_or_escape(text: Seq<char>) -> bool {
    forall|i: int|
        0 <= i < text.len() ==> #[trigger] text[i] != '"' && (text[i] == '\\' && i + 1 < text.len() ==> text[i
            + 1] != 'n' && text[i + 1] != 'N')
}

pub open spec fn start_view(start: Option<EventStart>) -> Option<StartView> {
    match start {
        Some(s) => Some(s@),
        None => None,
    }
}

pub open spec fn summary_view(summary: Option<String>) -> Option<Seq<char>> {
    match summary {
        Some(s) => Some(s@),
        None => None,
    }
}

/// Calls `str::parse::<icalendar::Calendar>`. Claimed: it succeeds exactly
/// where `parsed_calendar` has a value, and the calendar then has those
/// components and that content. A text with uniform line breaks, without
/// empty lines, without double quotes and without escaped line breaks gives a
/// `text_safe` calendar: property values are read up to the end of their
/// line, only an escaped line break is unescaped into a line feed, and
/// unfolding leaves no fold behind. An ASCII text gives a
/// calendar that renders, since every line it writes is then ASCII. The text
/// of the error is not stated.
#[verifier::external_body]
fn parse_ics(text: &str) -> (res: Result<Calendar, String>)
    ensures
        match parsed_calendar(text@) {
            Some(v) => res is Ok && calendar_components(res->Ok_0) == v.0 && content_besides_summaries(res->Ok_0)
                == v.1,
            None => res is Err,
        },
        res is Ok && uniform_line_breaks(text@) && no_blank_line(text@) && no_quote_or_escape(text@) ==> text_safe(
            res->Ok_0,
        ),
        res is Ok && all_ascii(text@) ==> renders(res->Ok_0),
{
    text.parse::<Calendar>()
}

/// Reads `calendar.components.len()`. Claimed: the number of components.
#[verifier::external_body]
fn component_count(calendar: &Calendar) -> (n: usize)
    ensures
        n == calendar_components(*calendar).len(),
{
    calendar.components.len()
}

/// Tells whether component `i` is `CalendarComponent::Event`.
#[verifier::external_body]
fn component_is_event(calendar: &Calendar, i: usize) -> (b: bool)
    requires
        i < calendar_components(*calendar).len(),
    ensures
        b == calendar_components(*calendar)[i as int].is_event,
{
    calendar.components[i].as_event().is_some()
}

/// Calls `Component::get_start` on event `i` and converts the chrono values it
/// holds to whole seconds (`NaiveDateTime::and_utc().timestamp()`,
/// `DateTime::<Utc>::timestamp()`). Claimed: the result is the modelled start,
/// and its values are ones that chrono can hold.
#[verifier::external_body]
fn event_start(calendar: &Calendar, i: usize) -> (start: Option<EventStart>)
    requires
        i < calendar_components(*calendar).len(),
        calendar_components(*calendar)[i as int].is_event,
    ensures
        start_view(start) == calendar_components(*calendar)[i as int].start,
        start matches Some(s) ==> start_in_range(s@),
{
    match calendar.components[i].as_event()?.get_start()? {
        DatePerhapsTime::Date(d) => Some(EventStart::Date { year: d.year(), month: d.month(), day: d.day() }),
        DatePerhapsTime::DateTime(CalendarDateTime::Floating(t)) => Some(EventStart::Floating { local: t.and_utc().timestamp() }),
        DatePerhapsTime::DateTime(CalendarDateTime::Utc(t)) =>
            Some(EventStart::Utc { timestamp: t.timestamp(), nanos: t.timestamp_subsec_nanos() }),
        DatePerhapsTime::DateTime(CalendarDateTime::WithTimezone { date_time: t, tzid }) =>
            Some(EventStart::Zoned { local: t.and_utc().timestamp(), nanos: t.nanosecond(), tzid }),
    }
}

/// Calls `Component::get_summary` on event `i`. Claimed: the modelled summary,
/// which holds no carriage return in a `text_safe` calendar.
#[verifier::external_body]
fn event_summary(calendar: &Calendar, i: usize) -> (summary: Option<String>)
    requires
        i < calendar_components(*calendar).len(),
        calendar_components(*calendar)[i as int].is_event,
    ensures
        summary_view(summary) == calendar_components(*calendar)[i as int].summary,
        text_safe(*calendar) ==> (summary matches Some(t) ==> no_cr(t@)),
{
    calendar.components[i].as_event()?.get_summary().map(String::from)
}

/// Calls `Component::summary` on event `i`, which puts a `SUMMARY` property
/// without parameters, of value `text`, in the event's property map in place
/// of the one there. Claimed: only the summary of that component changes, to
/// `text`; everything else the calendar holds stays; the calendar stays
/// `text_safe` when `text` holds no carriage return (a summary is written
/// escaped, so a line feed in it is harmless), and still renders when `text`
/// is ASCII (line folding goes wrong only on characters of several bytes, and
/// each property is folded on its own).
#[verifier::external_body]
fn set_event_summary(calendar: &mut Calendar, i: usize, text: &str)
    requires
        i < calendar_components(*old(calendar)).len(),
        calendar_components(*old(calendar))[i as int].is_event,
    ensures
        calendar_components(*final(calendar)) == calendar_components(*old(calendar)).update(
            i as int,
            ComponentModel { summary: Some(text@), ..calendar_components(*old(calendar))[i as int] },
        ),
        content_besides_summaries(*final(calendar)) == content_besides_summaries(*old(calendar)),
        text_safe(*old(calendar)) && no_cr(text@) ==> text_safe(*final(calendar)),
        stamped(*final(calendar)) == stamped(*old(calendar)),
        renders(*old(calendar)) && all_ascii(text@) ==> renders(*final(calendar)),
{
    if let CalendarComponent::Event(event) = &mut calendar.components[i] {
        event.summary(text);
    }
}

/// Calls `CalendarDateTime::try_into_utc` on `WithTimezone { date_time, tzid }`,
/// the wall-clock time rebuilt with `DateTime::from_timestamp(local, nanos)`.
/// Claimed: the result is `zoned_to_utc` of the arguments, an instant chrono
/// can hold, with under two seconds of nanoseconds (a leap second's fraction
/// is kept through an offset that is not a whole number of minutes).
#[verifier::external_body]
fn zoned_utc_timestamp(local: i64, nanos: u32, tzid: &str) -> (utc: Option<(i64, u32)>)
    requires
        in_chrono_range(local as int),
        valid_nanos(local as int, nanos as int),
    ensures
        utc == zoned_to_utc(local, nanos, tzid@),
        utc matches Some(t) ==> in_chrono_range(t.0 as int) && t.1 < 2_000_000_000,
{
    let date_time = chrono::DateTime::from_timestamp(local, nanos).unwrap().naive_utc();
    match (CalendarDateTime::WithTimezone { date_time, tzid: tzid.to_string() }).try_into_utc() {
        Some(t) => Some((t.timestamp(), t.timestamp_subsec_nanos())),
        None => None,
    }
}

/// Calls `Calendar`'s `Display`, on calendars for which it returns. Claimed:
/// the text of a `text_safe` calendar parses back to the same components, and,
/// when every component holds a `DTSTAMP` and a `UID`, to the same content
/// (text values are written escaped and read unescaped, parameter values are
/// quoted where they need it, long lines are folded at a character boundary
/// and unfolded by the parser). The text itself is not named: icalendar
/// writes the current time as `DTSTAMP` and a random `UID` into components
/// that have none.
#[verifier::external_body]
fn render_ics(calendar: &Calendar) -> (text: String)
    requires
        renders(*calendar),
    ensures
        text_safe(*calendar) ==> parsed_calendar(text@) is Some && (parsed_calendar(text@)->0).0
            == calendar_components(*calendar),
        text_safe(*calendar) && stamped(*calendar) ==> (parsed_calendar(text@)->0).1 == content_besides_summaries(
            *calendar,
        ),
{
    calendar.to_string()
}

/// The instant at which a game starts, taken from its `DTSTART`:
/// a date counts from its midnight in UTC, a UTC date-time as it is, a
/// date-time in a named zone as that zone places it; a floating date-time and
/// a missing start have none.
pub open spec fn game_start_of(start: Option<StartView>) -> Option<(i64, u32)> {
    match start {
        Some(StartView::Date { year, month, day }) => Some(
            (midnight_timestamp(year as int, month as int, day as int) as i64, 0u32),
        ),
        Some(StartView::Utc { timestamp, nanos }) => Some((timestamp, nanos)),
        Some(StartView::Zoned { local, nanos, tzid }) => zoned_to_utc(local, nanos, tzid),
        _ => None,
    }
}

/// The note put in front of a game's summary for a clashing show.
pub open spec fn leave_early_prefix(label: Seq<char>, artist: Seq<char>) -> Seq<char> {
    "[Leave Early - Fox show at "@ + label + " ("@ + artist + ")] "@
}

/// The summary of a game that starts at `game_start` once the first `n` shows
/// have been looked at: each clashing show puts its note in front of the
/// summary so far, so the note of the last clashing show comes first.
pub open spec fn summary_after(
    summary: Seq<char>,
    game_start: (i64, u32),
    infos: Seq<VenueEventInfo>,
    labels: Seq<Seq<char>>,
    n: nat,
) -> Seq<char>
    decreases n,
{
    if n == 0 {
        summary
    } else {
        let prev = summary_after(summary, game_start, infos, labels, (n - 1) as nat);
        if overlaps(game_start, infos[n - 1]) {
            leave_early_prefix(labels[n - 1], infos[n - 1].artist_name@) + prev
        } else {
            prev
        }
    }
}

/// Whether a game that starts at `game_start` clashes with any of the shows.
pub open spec fn clashes_with_any(game_start: (i64, u32), infos: Seq<VenueEventInfo>) -> bool {
    exists|k: int| 0 <= k < infos.len() && overlaps(game_start, #[trigger] infos[k])
}

/// A component after annotation, `labels[k]` being the start time of show `k` as text.
pub open spec fn annotate_component(
    c: ComponentModel,
    infos: Seq<VenueEventInfo>,
    labels: Seq<Seq<char>>,
) -> ComponentModel {
    if c.is_event && game_start_of(c.start) is Some && c.summary is Some {
        ComponentModel {
            summary: Some(summary_after(c.summary->0, game_start_of(c.start)->0, infos, labels, infos.len())),
            ..c
        }
    } else {
        c
    }
}

/// All components after annotation.
pub open spec fn annotate_components(
    cs: Seq<ComponentModel>,
    infos: Seq<VenueEventInfo>,
    labels: Seq<Seq<char>>,
) -> Seq<ComponentModel> {
    cs.map_values(|c: ComponentModel| annotate_component(c, infos, labels))
}

/// Whether an event can be annotated: its start can be placed in UTC, and, if
/// it has no summary, it clashes with no show (there is no summary to put a
/// note in front of).
pub open spec fn component_annotatable(c: ComponentModel, infos: Seq<VenueEventInfo>) -> bool {
    c.is_event ==> match game_start_of(c.start) {
        Some(g) => c.summary is None ==> !clashes_with_any(g, infos),
        None => false,
    }
}

pub open spec fn calendar_annotatable(cs: Seq<ComponentModel>, infos: Seq<VenueEventInfo>) -> bool {
    forall|k: int| 0 <= k < cs.len() ==> component_annotatable(#[trigger] cs[k], infos)
}

/// Every show starts at an instant chrono can hold.
pub open spec fn starts_in_range(infos: Seq<VenueEventInfo>) -> bool {
    forall|k: int| 0 <= k < infos.len() ==> in_chrono_range(#[trigger] infos[k].actual_start as int)
}

pub open spec fn label_views(labels: Seq<String>) -> Seq<Seq<char>> {
    labels.map_values(|s: String| s@)
}

/// No text of `texts` holds a carriage return.
pub open spec fn all_no_cr(texts: Seq<Seq<char>>) -> bool {
    forall|k: int| 0 <= k < texts.len() ==> no_cr(#[trigger] texts[k])
}

/// No act's name holds a carriage return.
pub open spec fn artists_no_cr(infos: Seq<VenueEventInfo>) -> bool {
    forall|k: int| 0 <= k < infos.len() ==> no_cr(#[trigger] infos[k].artist_name@)
}

/// Every text of `texts` is ASCII.
pub open spec fn all_ascii_texts(texts: Seq<Seq<char>>) -> bool {
    forall|k: int| 0 <= k < texts.len() ==> all_ascii(#[trigger] texts[k])
}

/// Every act's name is ASCII.
pub open spec fn artists_ascii(infos: Seq<VenueEventInfo>) -> bool {
    forall|k: int| 0 <= k < infos.len() ==> all_ascii(#[trigger] infos[k].artist_name@)
}

/// Every summary of the components is ASCII.
pub open spec fn summaries_ascii(cs: Seq<ComponentModel>) -> bool {
    forall|k: int| 0 <= k < cs.len() ==> ((#[trigger] cs[k]).summary matches Some(t) ==> all_ascii(t))
}

proof fn lemma_ascii_concat(a: Seq<char>, b: Seq<char>)
    requires
        all_ascii(a),
        all_ascii(b),
    ensures
        all_ascii(a + b),
{
    assert forall|i: int| 0 <= i < (a + b).len() implies ((#[trigger] (a + b)[i]) as int) < 128 by {
        if i < a.len() {
            assert((a + b)[i] == a[i]);
        } else {
            assert((a + b)[i] == b[i - a.len()]);
        }
    }
}

proof fn lemma_no_cr_concat(a: Seq<char>, b: Seq<char>)
    requires
        no_cr(a),
        no_cr(b),
    ensures
        no_cr(a + b),
{
    assert forall|i: int| 0 <= i < (a + b).len() implies (a + b)[i] != '\r' by {
        if i < a.len() {
            assert((a + b)[i] == a[i]);
        } else {
            assert((a + b)[i] == b[i - a.len()]);
        }
    }
}

/// Parses the text of a calendar in iCalendar format.
pub fn parse_calendar(text: &str) -> (res: Result<Calendar, String>)
    ensures
        res is Ok <==> parsed_calendar(text@) is Some,
        res is Ok ==> calendar_components(res->Ok_0) == (parsed_calendar(text@)->0).0,
        res is Ok ==> content_besides_summaries(res->Ok_0) == (parsed_calendar(text@)->0).1,
        res is Ok && uniform_line_breaks(text@) && no_blank_line(text@) && no_quote_or_escape(text@) ==> text_safe(
            res->Ok_0,
        ),
        res is Ok && all_ascii(text@) ==> renders(res->Ok_0),
{
    parse_ics(text)
}

/// The instant at which a game starts (see [`game_start_of`]).
pub fn game_start(start: &Option<EventStart>) -> (game: Option<(i64, u32)>)
    requires
        start matches Some(s) ==> start_in_range(s@),
    ensures
        game == game_start_of(start_view(*start)),
{
    match start {
        Some(EventStart::Date { year, month, day }) => Some((midnight_utc_timestamp(*year, *month, *day), 0)),
        Some(EventStart::Utc { timestamp, nanos }) => Some((*timestamp, *nanos)),
        Some(EventStart::Zoned { local, nanos, tzid }) => zoned_utc_timestamp(*local, *nanos, tzid.as_str()),
        _ => None,
    }
}

/// Puts the note for a show (its start time and its act) in front of a summary.
pub fn leave_early_summary(label: &str, artist: &str, summary: &str) -> (text: String)
    ensures
        text@ == leave_early_prefix(label@, artist@) + summary@,
        no_cr(label@) && no_cr(artist@) && no_cr(summary@) ==> no_cr(text@),
        all_ascii(label@) && all_ascii(artist@) && all_ascii(summary@) ==> all_ascii(text@),
{
    proof {
        reveal_strlit("[Leave Early - Fox show at ");
        reveal_strlit(" (");
        reveal_strlit(")] ");
        if no_cr(label@) && no_cr(artist@) && no_cr(summary@) {
            assert(no_cr("[Leave Early - Fox show at "@));
            assert(no_cr(" ("@));
            assert(no_cr(")] "@));
            lemma_no_cr_concat("[Leave Early - Fox show at "@, label@);
            lemma_no_cr_concat("[Leave Early - Fox show at "@ + label@, " ("@);
            lemma_no_cr_concat("[Leave Early - Fox show at "@ + label@ + " ("@, artist@);
            lemma_no_cr_concat("[Leave Early - Fox show at "@ + label@ + " ("@ + artist@, ")] "@);
            lemma_no_cr_concat(leave_early_prefix(label@, artist@), summary@);
        }
        if all_ascii(label@) && all_ascii(artist@) && all_ascii(summary@) {
            assert(all_ascii("[Leave Early - Fox show at "@));
            assert(all_ascii(" ("@));
            assert(all_ascii(")] "@));
            lemma_ascii_concat("[Leave Early - Fox show at "@, label@);
            lemma_ascii_concat("[Leave Early - Fox show at "@ + label@, " ("@);
            lemma_ascii_concat("[Leave Early - Fox show at "@ + label@ + " ("@, artist@);
            lemma_ascii_concat("[Leave Early - Fox show at "@ + label@ + " ("@ + artist@, ")] "@);
            lemma_ascii_concat(leave_early_prefix(label@, artist@), summary@);
        }
    }
    let mut text = String::from_str("[Leave Early - Fox show at ");
    text.append(label);
    text.append(" (");
    text.append(artist);
    text.append(")] ");
    text.append(summary);
    text
}

/// The start time of each show in Pacific time.
pub open spec fn pacific_labels(infos: Seq<VenueEventInfo>) -> Seq<Seq<char>> {
    infos.map_values(|i: VenueEventInfo| pacific_label(i.actual_start))
}

/// The start time of each show as text, in Pacific time.
pub fn pacific_time_labels(infos: &Vec<VenueEventInfo>) -> (labels: Vec<String>)
    requires
        starts_in_range(infos@),
    ensures
        label_views(labels@) == pacific_labels(infos@),
        labels.len() == infos.len(),
        forall|k: int| 0 <= k < infos.len() ==> (#[trigger] labels@[k])@ == pacific_label(infos@[k].actual_start),
        all_no_cr(label_views(labels@)),
        all_ascii_texts(label_views(labels@)),
{
    let mut labels: Vec<String> = Vec::new();
    for k in 0..infos.len()
        invariant
            labels.len() == k,
            label_views(labels@) == pacific_labels(infos@).take(k as int),
            all_no_cr(label_views(labels@)),
            all_ascii_texts(label_views(labels@)),
            starts_in_range(infos@),
    {
        let label = pacific_time_label(infos[k].actual_start);
        let ghost before = labels@;
        labels.push(label);
        assert(labels@[k as int]@ == pacific_labels(infos@)[k as int]);
        assert(all_no_cr(label_views(labels@)) && all_ascii_texts(label_views(labels@))) by {
            assert forall|j: int| 0 <= j < labels@.len() implies no_cr(#[trigger] label_views(labels@)[j]) && all_ascii(
                label_views(labels@)[j],
            ) by {
                if j < k {
                    assert(labels@[j] == before[j]);
                    assert(label_views(before)[j] == before[j]@);
                } else {
                    assert(labels@[j] == label);
                }
            }
        }
        assert(label_views(labels@) =~= pacific_labels(infos@).take(k + 1));
    }
    assert(pacific_labels(infos@).take(infos.len() as int) =~= pacific_labels(infos@));
    assert forall|k: int| 0 <= k < infos.len() implies (#[trigger] labels@[k])@ == pacific_label(
        infos@[k].actual_start,
    ) by {
        assert(label_views(labels@)[k] == labels@[k]@);
    }
    labels
}

/// Event `i` part-way through annotation: its summary after the first `n` shows.
spec fn partly_annotated(
    c: ComponentModel,
    game: (i64, u32),
    infos: Seq<VenueEventInfo>,
    labels: Seq<Seq<char>>,
    n: nat,
) -> ComponentModel {
    if c.summary is Some {
        ComponentModel { summary: Some(summary_after(c.summary->0, game, infos, labels, n)), ..c }
    } else {
        c
    }
}

fn annotate_event(calendar: &mut Calendar, i: usize, infos: &Vec<VenueEventInfo>, labels: &Vec<String>)
    requires
        i < calendar_components(*old(calendar)).len(),
        calendar_components(*old(calendar))[i as int].is_event,
        component_annotatable(calendar_components(*old(calendar))[i as int], infos@),
        labels.len() == infos.len(),
    ensures
        calendar_components(*final(calendar)) == calendar_components(*old(calendar)).update(
            i as int,
            annotate_component(calendar_components(*old(calendar))[i as int], infos@, label_views(labels@)),
        ),
        content_besides_summaries(*final(calendar)) == content_besides_summaries(*old(calendar)),
        text_safe(*old(calendar)) && all_no_cr(label_views(labels@)) && artists_no_cr(infos@) ==> text_safe(*final(calendar)),
        stamped(*final(calendar)) == stamped(*old(calendar)),
        renders(*old(calendar)) && all_ascii_texts(label_views(labels@)) && artists_ascii(infos@) && (
        calendar_components(*old(calendar))[i as int].summary matches Some(t) ==> all_ascii(t)) ==> renders(*final(calendar)),
{
    let ghost cal0 = *calendar;
    let ghost safe = text_safe(cal0) && all_no_cr(label_views(labels@)) && artists_no_cr(infos@);
    let ghost orig = calendar_components(*calendar);
    let ghost c = orig[i as int];
    let ghost plain = renders(cal0) && all_ascii_texts(label_views(labels@)) && artists_ascii(infos@) && (
    c.summary matches Some(t) ==> all_ascii(t));
    let ghost lv = label_views(labels@);
    let start = event_start(calendar, i);
    let game = match game_start(&start) {
        Some(g) => g,
        None => {
            return;
        },
    };
    assert(orig.update(i as int, partly_annotated(c, game, infos@, lv, 0)) == orig);
    let n = infos.len();
    for k in 0..n
        invariant
            n == infos.len(),
            labels.len() == n,
            lv == label_views(labels@),
            i < orig.len(),
            c == orig[i as int],
            c.is_event,
            game_start_of(c.start) == Some(game),
            component_annotatable(c, infos@),
            calendar_components(*calendar) == orig.update(i as int, partly_annotated(c, game, infos@, lv, k as nat)),
            content_besides_summaries(*calendar) == content_besides_summaries(cal0),
            safe == (text_safe(cal0) && all_no_cr(lv) && artists_no_cr(infos@)),
            safe ==> text_safe(*calendar),
            stamped(*calendar) == stamped(cal0),
            plain == (renders(cal0) && all_ascii_texts(lv) && artists_ascii(infos@) && (c.summary matches Some(t)
                ==> all_ascii(t))),
            plain ==> renders(*calendar) && (c.summary matches Some(t) ==> all_ascii(
                summary_after(t, game, infos@, lv, k as nat),
            )),
    {
        if clashes(game, &infos[k]) {
            assert(overlaps(game, infos@[k as int]));
            assert(c.summary is Some);
            let current = event_summary(calendar, i);
            if let Some(text) = current {
                proof {
                    if safe {
                        assert(no_cr(lv[k as int]));
                        assert(no_cr(infos@[k as int].artist_name@));
                    }
                    if plain {
                        assert(all_ascii(lv[k as int]));
                        assert(all_ascii(infos@[k as int].artist_name@));
                    }
                }
                let next = leave_early_summary(labels[k].as_str(), infos[k].artist_name.as_str(), text.as_str());
                set_event_summary(calendar, i, next.as_str());
            }
        }
        assert(calendar_components(*calendar) == orig.update(i as int, partly_annotated(c, game, infos@, lv, (k + 1) as nat)));
    }
}

fn annotate_all(calendar: &mut Calendar, infos: &Vec<VenueEventInfo>, labels: &Vec<String>)
    requires
        calendar_annotatable(calendar_components(*old(calendar)), infos@),
        labels.len() == infos.len(),
    ensures
        calendar_components(*final(calendar))
            == annotate_components(calendar_components(*old(calendar)), infos@, label_views(labels@)),
        content_besides_summaries(*final(calendar)) == content_besides_summaries(*old(calendar)),
        text_safe(*old(calendar)) && all_no_cr(label_views(labels@)) && artists_no_cr(infos@) ==> text_safe(*final(calendar)),
        stamped(*final(calendar)) == stamped(*old(calendar)),
        renders(*old(calendar)) && all_ascii_texts(label_views(labels@)) && artists_ascii(infos@) && summaries_ascii(
            calendar_components(*old(calendar)),
        ) ==> renders(*final(calendar)),
{
    let ghost cal0 = *calendar;
    let ghost safe = text_safe(cal0) && all_no_cr(label_views(labels@)) && artists_no_cr(infos@);
    let ghost orig = calendar_components(*calendar);
    let ghost lv = label_views(labels@);
    let ghost plain = renders(cal0) && all_ascii_texts(lv) && artists_ascii(infos@) && summaries_ascii(orig);
    let n = component_count(calendar);
    for i in 0..n
        invariant
            n == orig.len(),
            labels.len() == infos.len(),
            lv == label_views(labels@),
            calendar_annotatable(orig, infos@),
            calendar_components(*calendar).len() == n,
            forall|k: int| 0 <= k < i ==> calendar_components(*calendar)[k] == annotate_component(#[trigger] orig[k], infos@, lv),
            forall|k: int| i <= k < n ==> calendar_components(*calendar)[k] == #[trigger] orig[k],
            content_besides_summaries(*calendar) == content_besides_summaries(cal0),
            safe == (text_safe(cal0) && all_no_cr(lv) && artists_no_cr(infos@)),
            safe ==> text_safe(*calendar),
            stamped(*calendar) == stamped(cal0),
            plain == (renders(cal0) && all_ascii_texts(lv) && artists_ascii(infos@) && summaries_ascii(orig)),
            plain ==> renders(*calendar),
    {
        assert(component_annotatable(orig[i as int], infos@));
        assert(plain ==> (orig[i as int].summary matches Some(t) ==> all_ascii(t)));
        if component_is_event(calendar, i) {
            annotate_event(calendar, i, infos, labels);
        }
    }
    assert(calendar_components(*calendar) =~= annotate_components(orig, infos@, lv));
}

/// Whether a calendar can be annotated with the shows without the failures
/// that [`component_annotatable`] describes.
pub fn is_annotatable(calendar: &Calendar, infos: &Vec<VenueEventInfo>) -> (ok: bool)
    ensures
        ok == calendar_annotatable(calendar_components(*calendar), infos@),
{
    let ghost cs = calendar_components(*calendar);
    let n = component_count(calendar);
    for i in 0..n
        invariant
            n == cs.len(),
            cs == calendar_components(*calendar),
            forall|k: int| 0 <= k < i ==> component_annotatable(#[trigger] cs[k], infos@),
    {
        if component_is_event(calendar, i) {
            let start = event_start(calendar, i);
            match game_start(&start) {
                None => {
                    assert(!component_annotatable(cs[i as int], infos@));
                    return false;
                },
                Some(game) => {
                    if event_summary(calendar, i).is_none() {
                        for j in 0..infos.len()
                            invariant
                                i < n,
                                n == cs.len(),
                                cs == calendar_components(*calendar),
                                cs[i as int].is_event,
                                cs[i as int].summary is None,
                                game_start_of(cs[i as int].start) == Some(game),
                                forall|k: int| 0 <= k < j ==> !overlaps(game, #[trigger] infos@[k]),
                        {
                            if clashes(game, &infos[j]) {
                                assert(overlaps(game, infos@[j as int]));
                                assert(!component_annotatable(cs[i as int], infos@));
                                return false;
                            }
                        }
                    }
                },
            }
        }
    }
    true
}

/// Whether every show starts at an instant chrono can hold.
pub fn starts_representable(infos: &Vec<VenueEventInfo>) -> (ok: bool)
    ensures
        ok == starts_in_range(infos@),
{
    for k in 0..infos.len()
        invariant
            forall|j: int| 0 <= j < k ==> in_chrono_range(#[trigger] infos@[j].actual_start as int),
    {
        let t = infos[k].actual_start;
        if t < crate::instant::MIN_TIMESTAMP || t > crate::instant::MAX_TIMESTAMP {
            return false;
        }
    }
    true
}

/// A team calendar whose games carry a note for every clashing show.
pub struct AnnotatedCalendar {
    calendar: Calendar,
}

impl View for AnnotatedCalendar {
    type V = Seq<ComponentModel>;

    closed spec fn view(&self) -> Seq<ComponentModel> {
        calendar_components(self.calendar)
    }
}

impl AnnotatedCalendar {
    /// Everything the calendar holds besides the `SUMMARY` of its events.
    pub closed spec fn content(&self) -> Seq<Seq<char>> {
        content_besides_summaries(self.calendar)
    }

    /// Whether the calendar is free of what icalendar does not write back faithfully.
    pub closed spec fn is_text_safe(&self) -> bool {
        text_safe(self.calendar)
    }

    /// Whether every component holds a `DTSTAMP` and a `UID`.
    pub closed spec fn is_stamped(&self) -> bool {
        stamped(self.calendar)
    }

    /// Whether icalendar can write the calendar as text.
    pub closed spec fn renders(&self) -> bool {
        renders(self.calendar)
    }

    /// The annotated calendar itself.
    pub fn calendar(&self) -> (calendar: &Calendar)
        ensures
            calendar_components(*calendar) == self@,
            content_besides_summaries(*calendar) == self.content(),
            text_safe(*calendar) == self.is_text_safe(),
            stamped(*calendar) == self.is_stamped(),
            renders(*calendar) == self.renders(),
    {
        &self.calendar
    }
}

/// The parts of the HTTP response that serves an annotated calendar.
pub struct IcalResponse {
    pub content_type: String,
    pub content_disposition: String,
    pub body: String,
}

impl AnnotatedCalendar {
    /// Annotates every game of `calendar` with the shows it clashes with,
    /// `labels[k]` being the local start time of show `k` as text.
    pub fn annotate_with_labels(
        calendar: Calendar,
        tm_venue_events: &Vec<VenueEventInfo>,
        labels: &Vec<String>,
    ) -> (annotated: AnnotatedCalendar)
        requires
            calendar_annotatable(calendar_components(calendar), tm_venue_events@),
            labels.len() == tm_venue_events.len(),
        ensures
            annotated@ == annotate_components(calendar_components(calendar), tm_venue_events@, label_views(labels@)),
            annotated.content() == content_besides_summaries(calendar),
            text_safe(calendar) && all_no_cr(label_views(labels@)) && artists_no_cr(tm_venue_events@)
                ==> annotated.is_text_safe(),
            annotated.is_stamped() == stamped(calendar),
            renders(calendar) && all_ascii_texts(label_views(labels@)) && artists_ascii(tm_venue_events@)
                && summaries_ascii(calendar_components(calendar)) ==> annotated.renders(),
    {
        let mut calendar = calendar;
        annotate_all(&mut calendar, tm_venue_events, labels);
        AnnotatedCalendar { calendar }
    }

    /// Annotates every game of `oic_calendar` with the shows it clashes with,
    /// each note naming the show's start in Pacific time.
    pub fn get_annotated(oic_calendar: Calendar, tm_venue_events: Vec<VenueEventInfo>) -> (annotated: AnnotatedCalendar)
        requires
            calendar_annotatable(calendar_components(oic_calendar), tm_venue_events@),
            starts_in_range(tm_venue_events@),
        ensures
            annotated@ == annotate_components(
                calendar_components(oic_calendar),
                tm_venue_events@,
                pacific_labels(tm_venue_events@),
            ),
            annotated.content() == content_besides_summaries(oic_calendar),
            text_safe(oic_calendar) && artists_no_cr(tm_venue_events@) ==> annotated.is_text_safe(),
            annotated.is_stamped() == stamped(oic_calendar),
            renders(oic_calendar) && artists_ascii(tm_venue_events@) && summaries_ascii(
                calendar_components(oic_calendar),
            ) ==> annotated.renders(),
    {
        let labels = pacific_time_labels(&tm_venue_events);
        assert(label_views(labels@).len() == labels.len());
        Self::annotate_with_labels(oic_calendar, &tm_venue_events, &labels)
    }

    /// [`AnnotatedCalendar::get_annotated`] where the calendar and the shows
    /// allow it, and `None` where they do not (see [`component_annotatable`]
    /// and [`starts_in_range`]).
    pub fn try_get_annotated(oic_calendar: Calendar, tm_venue_events: Vec<VenueEventInfo>) -> (annotated: Option<AnnotatedCalendar>)
        ensures
            annotated is Some <==> (calendar_annotatable(calendar_components(oic_calendar), tm_venue_events@)
                && starts_in_range(tm_venue_events@)),
            annotated matches Some(a) ==> a@ == annotate_components(
                calendar_components(oic_calendar),
                tm_venue_events@,
                pacific_labels(tm_venue_events@),
            ),
            annotated matches Some(a) ==> a.content() == content_besides_summaries(oic_calendar),
            annotated matches Some(a) ==> (text_safe(oic_calendar) && artists_no_cr(tm_venue_events@) ==> a.is_text_safe()),
            annotated matches Some(a) ==> a.is_stamped() == stamped(oic_calendar),
            annotated matches Some(a) ==> (renders(oic_calendar) && artists_ascii(tm_venue_events@) && summaries_ascii(
                calendar_components(oic_calendar),
            ) ==> a.renders()),
    {
        if starts_representable(&tm_venue_events) && is_annotatable(&oic_calendar, &tm_venue_events) {
            Some(Self::get_annotated(oic_calendar, tm_venue_events))
        } else {
            None
        }
    }

    /// The response that serves the calendar: its iCalendar text with the
    /// content type and disposition of an inline `cal.ics` file. The text reads
    /// back to the calendar's components, and, when every component holds a
    /// `DTSTAMP` and a `UID`, to the rest of its content.
    pub fn as_ical_response(self) -> (response: IcalResponse)
        requires
            self.renders(),
        ensures
            response.content_type@ == "text/Calendar; charset=utf-8"@,
            response.content_disposition@ == "inline; filename=cal.ics"@,
            self.is_text_safe() ==> parsed_calendar(response.body@) is Some && (parsed_calendar(response.body@)->0).0
                == self@,
            self.is_text_safe() && self.is_stamped() ==> (parsed_calendar(response.body@)->0).1 == self.content(),
    {
        IcalResponse {
            content_type: String::from_str("text/Calendar; charset=utf-8"),
            content_disposition: String::from_str("inline; filename=cal.ics"),
            body: render_ics(&self.calendar),
        }
    }
}

/// A game that clashes with none of the first `n` shows keeps its summary.
pub proof fn lemma_summary_without_clash(
    summary: Seq<char>,
    game_start: (i64, u32),
    infos: Seq<VenueEventInfo>,
    labels: Seq<Seq<char>>,
    n: nat,
)
    requires
        n <= infos.len(),
        forall|k: int| 0 <= k < n ==> !overlaps(game_start, #[trigger] infos[k]),
    ensures
        summary_after(summary, game_start, infos, labels, n) == summary,
    decreases n,
{
    if n > 0 {
        lemma_summary_without_clash(summary, game_start, infos, labels, (n - 1) as nat);
    }
}

/// Annotation only puts notes in front of a summary: the summary a game had
/// stays at the end of its new summary.
pub proof fn lemma_summary_keeps_previous(
    summary: Seq<char>,
    game_start: (i64, u32),
    infos: Seq<VenueEventInfo>,
    labels: Seq<Seq<char>>,
    n: nat,
)
    ensures
        summary_after(summary, game_start, infos, labels, n).len() >= summary.len(),
        summary_after(summary, game_start, infos, labels, n).skip(
            summary_after(summary, game_start, infos, labels, n).len() - summary.len(),
        ) == summary,
    decreases n,
{
    if n > 0 {
        let prev = summary_after(summary, game_start, infos, labels, (n - 1) as nat);
        lemma_summary_keeps_previous(summary, game_start, infos, labels, (n - 1) as nat);
        if overlaps(game_start, infos[n - 1]) {
            let p = leave_early_prefix(labels[n - 1], infos[n - 1].artist_name@);
            assert((p + prev).skip((p + prev).len() - summary.len()) =~= prev.skip(prev.len() - summary.len()));
        }
    }
}

/// Annotation keeps every component, in order, as event or not, with its
/// start; components that are not events do not change at all.
pub proof fn lemma_annotation_keeps_components(
    cs: Seq<ComponentModel>,
    infos: Seq<VenueEventInfo>,
    labels: Seq<Seq<char>>,
)
    ensures
        annotate_components(cs, infos, labels).len() == cs.len(),
        forall|k: int| 0 <= k < cs.len() ==> {
            &&& (#[trigger] annotate_components(cs, infos, labels)[k]).is_event == cs[k].is_event
            &&& annotate_components(cs, infos, labels)[k].start == cs[k].start
            &&& !cs[k].is_event ==> annotate_components(cs, infos, labels)[k] == cs[k]
        },
{
}

/// A game that clashes with no show is left as it was.
pub proof fn lemma_unclashed_game_unchanged(
    cs: Seq<ComponentModel>,
    infos: Seq<VenueEventInfo>,
    labels: Seq<Seq<char>>,
    k: int,
)
    requires
        0 <= k < cs.len(),
        game_start_of(cs[k].start) is Some,
        !clashes_with_any(game_start_of(cs[k].start)->0, infos),
    ensures
        annotate_components(cs, infos, labels)[k] == cs[k],
{
    if cs[k].is_event && cs[k].summary is Some {
        lemma_summary_without_clash(cs[k].summary->0, game_start_of(cs[k].start)->0, infos, labels, infos.len());
    }
}

/// Without shows, annotation changes nothing.
pub proof fn lemma_no_shows_no_change(cs: Seq<ComponentModel>, labels: Seq<Seq<char>>)
    ensures
        annotate_components(cs, Seq::<VenueEventInfo>::empty(), labels) == cs,
{
    assert(annotate_components(cs, Seq::<VenueEventInfo>::empty(), labels) =~= cs);
}

proof fn lemma_no_clash_between(
    summary: Seq<char>,
    game_start: (i64, u32),
    infos: Seq<VenueEventInfo>,
    labels: Seq<Seq<char>>,
    lo: nat,
    hi: nat,
)
    requires
        lo <= hi <= infos.len(),
        forall|j: int| lo <= j < hi ==> !overlaps(game_start, #[trigger] infos[j]),
    ensures
        summary_after(summary, game_start, infos, labels, hi) == summary_after(summary, game_start, infos, labels, lo),
    decreases hi - lo,
{
    if lo < hi {
        lemma_no_clash_between(summary, game_start, infos, labels, lo, (hi - 1) as nat);
    }
}

/// The note of the latest show (in the order of the shows) that clashes with
/// a game comes first in its summary.
pub proof fn lemma_latest_clash_note_first(
    summary: Seq<char>,
    game_start: (i64, u32),
    infos: Seq<VenueEventInfo>,
    labels: Seq<Seq<char>>,
    k: int,
)
    requires
        0 <= k < infos.len(),
        overlaps(game_start, infos[k]),
        forall|j: int| k < j < infos.len() ==> !overlaps(game_start, #[trigger] infos[j]),
    ensures
        summary_after(summary, game_start, infos, labels, infos.len()) == leave_early_prefix(
            labels[k],
            infos[k].artist_name@,
        ) + summary_after(summary, game_start, infos, labels, k as nat),
{
    lemma_no_clash_between(summary, game_start, infos, labels, (k + 1) as nat, infos.len());
}

/// Listing the same shows in another order, no two of them starting at the
/// same instant, gives the same annotated calendar: the windows that
/// [`crate::venue::get_venue_events`] builds of either listing annotate every
/// component alike.
pub proof fn lemma_annotation_order_independent(cs: Seq<ComponentModel>, e1: Seq<VenueEvent>, e2: Seq<VenueEvent>)
    requires
        e1.to_multiset() == e2.to_multiset(),
        distinct_listed_starts(e1),
    ensures
        annotate_components(cs, sort_by_start(infos_of(timed(e1))), pacific_labels(sort_by_start(infos_of(timed(e1)))))
            == annotate_components(
            cs,
            sort_by_start(infos_of(timed(e2))),
            pacific_labels(sort_by_start(infos_of(timed(e2)))),
        ),
{
    lemma_venue_events_order_independent(e1, e2);
}

/// The note of every show that clashes with a game stays in its summary: the
/// summary after the first `n` shows ends with that show's note followed by
/// the summary as it was before the show was looked at.
pub proof fn lemma_clashing_note_kept(
    summary: Seq<char>,
    game_start: (i64, u32),
    infos: Seq<VenueEventInfo>,
    labels: Seq<Seq<char>>,
    k: int,
    n: nat,
)
    requires
        0 <= k < n <= infos.len(),
        overlaps(game_start, infos[k]),
    ensures
        ({
            let tail = leave_early_prefix(labels[k], infos[k].artist_name@) + summary_after(
                summary,
                game_start,
                infos,
                labels,
                k as nat,
            );
            let full = summary_after(summary, game_start, infos, labels, n);
            full.len() >= tail.len() && full.skip(full.len() - tail.len()) == tail
        }),
    decreases n,
{
    let tail = leave_early_prefix(labels[k], infos[k].artist_name@) + summary_after(
        summary,
        game_start,
        infos,
        labels,
        k as nat,
    );
    let full = summary_after(summary, game_start, infos, labels, n);
    if n == k + 1 {
        assert(full == tail);
        assert(full.skip(0) =~= full);
    } else {
        lemma_clashing_note_kept(summary, game_start, infos, labels, k, (n - 1) as nat);
        let prev = summary_after(summary, game_start, infos, labels, (n - 1) as nat);
        if overlaps(game_start, infos[n - 1]) {
            let p = leave_early_prefix(labels[n - 1], infos[n - 1].artist_name@);
            assert((p + prev).skip((p + prev).len() - tail.len()) =~= prev.skip(prev.len() - tail.len()));
        }
    }
}

/// Every note is non-empty.
proof fn lemma_note_not_empty(label: Seq<char>, artist: Seq<char>)
    ensures
        leave_early_prefix(label, artist).len() > 0,
{
    reveal_strlit("[Leave Early - Fox show at ");
}

/// An annotated event that has a start placeable in UTC and a summary gets as
/// its summary the notes of all the shows whose window holds its start, in
/// front of its summary; it changes exactly when some show clashes with it.
pub proof fn lemma_annotated_event(
    cs: Seq<ComponentModel>,
    infos: Seq<VenueEventInfo>,
    labels: Seq<Seq<char>>,
    k: int,
)
    requires
        0 <= k < cs.len(),
        cs[k].is_event,
        game_start_of(cs[k].start) is Some,
        cs[k].summary is Some,
    ensures
        annotate_components(cs, infos, labels)[k].summary == Some(
            summary_after(cs[k].summary->0, game_start_of(cs[k].start)->0, infos, labels, infos.len()),
        ),
        annotate_components(cs, infos, labels)[k].start == cs[k].start,
        annotate_components(cs, infos, labels)[k] == cs[k] <==> !clashes_with_any(
            game_start_of(cs[k].start)->0,
            infos,
        ),
{
    let g = game_start_of(cs[k].start)->0;
    let s = cs[k].summary->0;
    if clashes_with_any(g, infos) {
        let j = choose|j: int| 0 <= j < infos.len() && overlaps(g, #[trigger] infos[j]);
        lemma_clashing_note_kept(s, g, infos, labels, j, infos.len());
        lemma_summary_keeps_previous(s, g, infos, labels, j as nat);
        lemma_note_not_empty(labels[j], infos[j].artist_name@);
        assert(summary_after(s, g, infos, labels, infos.len()).len() > s.len());
    } else {
        lemma_summary_without_clash(s, g, infos, labels, infos.len());
    }
}

/// A component that is not an event never stands in the way of annotation;
/// an event does exactly when its start cannot be placed in UTC, or it has no
/// summary and some show clashes with it.
pub proof fn lemma_annotatable_component(c: ComponentModel, infos: Seq<VenueEventInfo>)
    ensures
        !c.is_event ==> component_annotatable(c, infos),
        c.is_event ==> (component_annotatable(c, infos) <==> (game_start_of(c.start) is Some && (c.summary is None
            ==> forall|k: int| 0 <= k < infos.len() ==> !overlaps(game_start_of(c.start)->0, #[trigger] infos[k])))),
{
}

/// Shows whose starts chrono can hold can always be annotated with, in any
/// order and however many start together.
pub proof fn lemma_starts_in_range_iff(infos: Seq<VenueEventInfo>)
    ensures
        starts_in_range(infos) <==> forall|k: int| 0 <= k < infos.len() ==> in_chrono_range(
            #[trigger] infos[k].actual_start as int,
        ),
{
}

/// A calendar can be annotated with shows whose starts chrono can hold when
/// every event has a start placeable in UTC and every event without a summary
/// clashes with no show; other components do not matter. Then
/// [`AnnotatedCalendar::try_get_annotated`] gives `Some`.
pub proof fn lemma_annotation_possible(cs: Seq<ComponentModel>, infos: Seq<VenueEventInfo>)
    requires
        forall|k: int| 0 <= k < infos.len() ==> in_chrono_range(#[trigger] infos[k].actual_start as int),
        forall|i: int|
            0 <= i < cs.len() && (#[trigger] cs[i]).is_event ==> game_start_of(cs[i].start) is Some && (cs[i].summary
                is None ==> forall|k: int|
                0 <= k < infos.len() ==> !overlaps(game_start_of(cs[i].start)->0, #[trigger] infos[k])),
    ensures
        calendar_annotatable(cs, infos),
        starts_in_range(infos),
{
    assert forall|i: int| 0 <= i < cs.len() implies component_annotatable(#[trigger] cs[i], infos) by {
        lemma_annotatable_component(cs[i], infos);
    }
}

/// Each show's note names that show's own start, in Pacific time.
pub proof fn lemma_pacific_labels(infos: Seq<VenueEventInfo>)
    ensures
        pacific_labels(infos).len() == infos.len(),
        forall|k: int| 0 <= k < infos.len() ==> #[trigger] pacific_labels(infos)[k] == pacific_label(
            infos[k].actual_start,
        ),
{
}

} // verus!
