//! Shows at the venue: the window around each show in which a game is
//! considered to clash with it, and the ordering of shows by start.

use vstd::prelude::*;
use crate::instant::{in_chrono_range, MAX_TIMESTAMP, MIN_TIMESTAMP};

verus! {

/// How far before and after the start of a show a game clashes with it: three hours.
pub const OVERLAP_WINDOW_SECONDS: i64 = 10800;

/// A show as the ticketing API lists it: the name of the act and when it
/// starts, where the listing gives a time (some shows only have a date).
pub struct VenueEvent {
    pub name: String,
    pub start: Option<i64>,
}

/// A show with the window around its start in which games clash with it.
pub struct VenueEventInfo {
    pub lower_bound: i64,
    pub upper_bound: i64,
    pub actual_start: i64,
    pub artist_name: String,
}

/// Whether chrono can represent the whole window around a show that starts at `start`.
pub open spec fn window_in_range(start: int) -> bool {
    MIN_TIMESTAMP + OVERLAP_WINDOW_SECONDS <= start <= MAX_TIMESTAMP - OVERLAP_WINDOW_SECONDS
}

/// The window of a show of act `name` that starts at `start`.
pub open spec fn window_of(name: String, start: i64) -> VenueEventInfo {
    VenueEventInfo {
        lower_bound: (start - OVERLAP_WINDOW_SECONDS) as i64,
        upper_bound: (start + OVERLAP_WINDOW_SECONDS) as i64,
        actual_start: start,
        artist_name: name,
    }
}

/// The window of a listed show that has a start time.
pub open spec fn info_of(event: VenueEvent) -> VenueEventInfo {
    window_of(event.name, event.start->0)
}

/// The listed shows that have a start time, in their order.
pub open spec fn timed(events: Seq<VenueEvent>) -> Seq<VenueEvent> {
    events.filter(|e: VenueEvent| e.start is Some)
}

/// Every listed start time leaves room for the whole window.
pub open spec fn starts_leave_room(events: Seq<VenueEvent>) -> bool {
    forall|i: int| 0 <= i < events.len() ==> (#[trigger] events[i].start matches Some(s) ==> window_in_range(s as int))
}

/// A game that starts `game_start.1` nanoseconds after the second
/// `game_start.0` (a second or more during a leap second) clashes with the
/// show when it starts within the window, both ends included.
pub open spec fn overlaps(game_start: (i64, u32), info: VenueEventInfo) -> bool {
    &&& info.lower_bound <= game_start.0
    &&& (game_start.0 < info.upper_bound || (game_start.0 == info.upper_bound && game_start.1 == 0))
}

/// Whether a game that starts at `game_start` clashes with the show.
pub fn clashes(game_start: (i64, u32), info: &VenueEventInfo) -> (b: bool)
    ensures
        b == overlaps(game_start, *info),
{
    info.lower_bound <= game_start.0 && (game_start.0 < info.upper_bound || (game_start.0 == info.upper_bound
        && game_start.1 == 0))
}

/// Builds the window of one show.
pub fn venue_event_info(name: String, start: i64) -> (info: VenueEventInfo)
    requires
        window_in_range(start as int),
    ensures
        info == window_of(name, start),
        info.lower_bound == start - OVERLAP_WINDOW_SECONDS,
        info.upper_bound == start + OVERLAP_WINDOW_SECONDS,
{
    VenueEventInfo {
        lower_bound: start - OVERLAP_WINDOW_SECONDS,
        upper_bound: start + OVERLAP_WINDOW_SECONDS,
        actual_start: start,
        artist_name: name,
    }
}

/// Where a show starting at `key` goes in `s`: after the last element that
/// starts no later than it, counting from the back.
pub open spec fn insert_pos(s: Seq<VenueEventInfo>, key: i64) -> int
    decreases s.len(),
{
    if s.len() == 0 {
        0
    } else if s.last().actual_start <= key {
        s.len() as int
    } else {
        insert_pos(s.drop_last(), key)
    }
}

/// `s` with `x` put in after every element that starts no later than `x`.
pub open spec fn insert_by_start(s: Seq<VenueEventInfo>, x: VenueEventInfo) -> Seq<VenueEventInfo> {
    s.insert(insert_pos(s, x.actual_start), x)
}

/// `s` ordered by start, shows that start together kept in their order in `s`.
pub open spec fn sort_by_start(s: Seq<VenueEventInfo>) -> Seq<VenueEventInfo>
    decreases s.len(),
{
    if s.len() == 0 {
        s
    } else {
        insert_by_start(sort_by_start(s.drop_last()), s.last())
    }
}

/// The windows of all shows, in the order of the shows.
pub open spec fn infos_of(events: Seq<VenueEvent>) -> Seq<VenueEventInfo> {
    Seq::new(events.len(), |i: int| info_of(events[i]))
}

/// Whether `s` is ordered by start.
pub open spec fn is_sorted_by_start(s: Seq<VenueEventInfo>) -> bool {
    forall|i: int, j: int| 0 <= i < j < s.len() ==> s[i].actual_start <= s[j].actual_start
}

proof fn lemma_insert_pos_bounds(s: Seq<VenueEventInfo>, key: i64)
    ensures
        0 <= insert_pos(s, key) <= s.len(),
        forall|k: int| insert_pos(s, key) <= k < s.len() ==> s[k].actual_start > key,
    decreases s.len(),
{
    if s.len() > 0 && s.last().actual_start > key {
        lemma_insert_pos_bounds(s.drop_last(), key);
        assert forall|k: int| insert_pos(s, key) <= k < s.len() implies s[k].actual_start > key by {
            if k < s.len() - 1 {
                assert(s[k] == s.drop_last()[k]);
            }
        }
    }
}

proof fn lemma_insert_pos_sorted(s: Seq<VenueEventInfo>, key: i64)
    requires
        is_sorted_by_start(s),
    ensures
        forall|k: int| 0 <= k < insert_pos(s, key) ==> s[k].actual_start <= key,
    decreases s.len(),
{
    lemma_insert_pos_bounds(s, key);
    if s.len() > 0 {
        if s.last().actual_start > key {
            lemma_insert_pos_sorted(s.drop_last(), key);
            lemma_insert_pos_bounds(s.drop_last(), key);
            assert forall|k: int| 0 <= k < insert_pos(s, key) implies s[k].actual_start <= key by {
                assert(s[k] == s.drop_last()[k]);
            }
        } else {
            assert forall|k: int| 0 <= k < insert_pos(s, key) implies s[k].actual_start <= key by {
                if k < s.len() - 1 {
                    assert(s[k].actual_start <= s[s.len() - 1].actual_start);
                }
            }
        }
    }
}

/// Ordering by start yields a sequence ordered by start.
pub proof fn lemma_sort_by_start_sorted(s: Seq<VenueEventInfo>)
    ensures
        is_sorted_by_start(sort_by_start(s)),
        sort_by_start(s).len() == s.len(),
    decreases s.len(),
{
    if s.len() > 0 {
        let r = sort_by_start(s.drop_last());
        let x = s.last();
        lemma_sort_by_start_sorted(s.drop_last());
        lemma_insert_pos_bounds(r, x.actual_start);
        lemma_insert_pos_sorted(r, x.actual_start);
        let p = insert_pos(r, x.actual_start);
        let out = r.insert(p, x);
        assert forall|i: int, j: int| 0 <= i < j < out.len() implies out[i].actual_start <= out[j].actual_start by {
            if i < p && j < p {
            } else if i < p && j == p {
            } else if i < p && j > p {
                assert(out[j] == r[j - 1]);
            } else if i == p {
                assert(out[j] == r[j - 1]);
            } else {
                assert(out[i] == r[i - 1]);
                assert(out[j] == r[j - 1]);
            }
        }
    }
}

/// Ordering by start keeps every show exactly as often as it occurs.
pub proof fn lemma_sort_by_start_permutation(s: Seq<VenueEventInfo>)
    ensures
        sort_by_start(s).to_multiset() == s.to_multiset(),
    decreases s.len(),
{
    broadcast use vstd::seq_lib::to_multiset_insert, vstd::seq_lib::to_multiset_build;
    if s.len() > 0 {
        let r = sort_by_start(s.drop_last());
        lemma_sort_by_start_permutation(s.drop_last());
        lemma_insert_pos_bounds(r, s.last().actual_start);
        assert(s.drop_last().push(s.last()) == s);
    }
}

/// Shows that start at the same instant keep the order they had.
pub proof fn lemma_sort_by_start_stable(s: Seq<VenueEventInfo>, start: i64)
    ensures
        sort_by_start(s).filter(|e: VenueEventInfo| e.actual_start == start)
            == s.filter(|e: VenueEventInfo| e.actual_start == start),
    decreases s.len(),
{
    let pred = |e: VenueEventInfo| e.actual_start == start;
    if s.len() == 0 {
    } else {
        let r = sort_by_start(s.drop_last());
        let x = s.last();
        lemma_sort_by_start_stable(s.drop_last(), start);
        lemma_sort_by_start_sorted(s.drop_last());
        lemma_insert_pos_bounds(r, x.actual_start);
        let p = insert_pos(r, x.actual_start);
        let front = r.subrange(0, p);
        let back = r.subrange(p, r.len() as int);
        assert(r == front + back);
        assert(r.insert(p, x) == front.push(x) + back);
        Seq::filter_distributes_over_add(front, back, pred);
        Seq::filter_distributes_over_add(front.push(x), back, pred);
        front.lemma_filter_push(x, pred);
        s.drop_last().lemma_filter_push(x, pred);
        assert(s.drop_last().push(x) == s);
        if pred(x) {
            back.lemma_all_neg_filter_empty(pred);
            assert(back.filter(pred) =~= Seq::<VenueEventInfo>::empty());
        }
    }
}

/// Orders shows by start; shows that start together keep their order.
pub fn sort_by_actual_start(infos: Vec<VenueEventInfo>) -> (sorted: Vec<VenueEventInfo>)
    ensures
        sorted@ == sort_by_start(infos@),
{
    let ghost orig = infos@;
    let n = infos.len();
    let mut rest = infos;
    let mut out: Vec<VenueEventInfo> = Vec::new();
    let mut i: usize = 0;
    while i < n
        invariant
            i <= n,
            n == orig.len(),
            rest@ == orig.skip(i as int),
            out@ == sort_by_start(orig.take(i as int)),
        decreases n - i,
    {
        assert(rest@[0] == orig[i as int]);
        let x = rest.remove(0);
        assert(rest@ == orig.skip(i + 1));
        let key = x.actual_start;
        let mut j = out.len();
        assert(out@.take(j as int) == out@);
        while j > 0 && out[j - 1].actual_start > key
            invariant
                j <= out.len(),
                insert_pos(out@, key) == insert_pos(out@.take(j as int), key),
            decreases j,
        {
            assert(out@.take(j as int).drop_last() == out@.take(j - 1));
            j -= 1;
        }
        assert(insert_pos(out@, key) == j);
        out.insert(j, x);
        assert(orig.take(i + 1).drop_last() == orig.take(i as int));
        i += 1;
    }
    assert(orig.take(n as int) == orig);
    out
}

/// Builds the windows of the listed shows that have a start time and orders
/// them by start; shows that start together keep the order in which the API
/// listed them. Shows without a start time are left out.
pub fn get_venue_events(events: Vec<VenueEvent>) -> (infos: Vec<VenueEventInfo>)
    requires
        starts_leave_room(events@),
    ensures
        infos@ == sort_by_start(infos_of(timed(events@))),
{
    let ghost orig = events@;
    let ghost pred = |e: VenueEvent| e.start is Some;
    let n = events.len();
    let mut rest = events;
    let mut windows: Vec<VenueEventInfo> = Vec::new();
    let mut i: usize = 0;
    assert(orig.take(0).filter(pred) =~= Seq::<VenueEvent>::empty()) by {
        reveal(Seq::filter);
    }
    while i < n
        invariant
            i <= n,
            n == orig.len(),
            pred == (|e: VenueEvent| e.start is Some),
            rest@ == orig.skip(i as int),
            windows@ == infos_of(orig.take(i as int).filter(pred)),
            starts_leave_room(orig),
        decreases n - i,
    {
        assert(rest@[0] == orig[i as int]);
        let event = rest.remove(0);
        assert(rest@ == orig.skip(i + 1));
        assert(orig.take(i + 1) == orig.take(i as int).push(event));
        proof {
            orig.take(i as int).lemma_filter_push(event, pred);
        }
        let ghost before = orig.take(i as int).filter(pred);
        match event.start {
            Some(start) => {
                assert(orig[i as int].start matches Some(s) ==> window_in_range(s as int));
                let info = venue_event_info(event.name, start);
                windows.push(info);
                assert(infos_of(before.push(event)) =~= infos_of(before).push(info));
            },
            None => {},
        }
        i += 1;
    }
    assert(orig.take(n as int) == orig);
    sort_by_actual_start(windows)
}

/// A game clashes with a show exactly when it starts at most three hours
/// before or after the show.
pub proof fn lemma_overlap_within_window(name: String, start: i64, game_start: (i64, u32))
    requires
        window_in_range(start as int),
    ensures
        overlaps(game_start, window_of(name, start)) <==> (start - OVERLAP_WINDOW_SECONDS <= game_start.0 && (
        game_start.0 < start + OVERLAP_WINDOW_SECONDS || (game_start.0 == start + OVERLAP_WINDOW_SECONDS
            && game_start.1 == 0))),
        game_start.1 == 0 ==> (overlaps(game_start, window_of(name, start)) <==> start - OVERLAP_WINDOW_SECONDS
            <= game_start.0 <= start + OVERLAP_WINDOW_SECONDS),
{
}

/// Every window that [`get_venue_events`] returns is the window of one of the
/// listed shows that has a start time.
pub proof fn lemma_venue_events_are_windows(events: Seq<VenueEvent>, k: int)
    requires
        0 <= k < sort_by_start(infos_of(timed(events))).len(),
    ensures
        exists|j: int|
            0 <= j < events.len() && (#[trigger] events[j]).start is Some && sort_by_start(infos_of(timed(events)))[k]
                == info_of(events[j]),
{
    broadcast use vstd::seq_lib::to_multiset_contains;
    let pred = |e: VenueEvent| e.start is Some;
    let t = timed(events);
    let r = sort_by_start(infos_of(t));
    lemma_sort_by_start_permutation(infos_of(t));
    assert(r.contains(r[k]));
    assert(r.to_multiset().count(r[k]) > 0);
    assert(infos_of(t).to_multiset().count(r[k]) > 0);
    assert(infos_of(t).contains(r[k]));
    let j = choose|j: int| 0 <= j < infos_of(t).len() && infos_of(t)[j] == r[k];
    assert(r[k] == info_of(t[j]));
    events.lemma_filter_pred(pred, j);
    assert(t.contains(t[j]));
    events.lemma_filter_contains_rev(pred, t[j]);
    let m = choose|m: int| 0 <= m < events.len() && events[m] == t[j];
    assert(events[m].start is Some && r[k] == info_of(events[m]));
}

/// No two shows start at the same instant.
pub open spec fn distinct_starts(s: Seq<VenueEventInfo>) -> bool {
    forall|i: int, j: int| 0 <= i < s.len() && 0 <= j < s.len() && i != j ==> s[i].actual_start != s[j].actual_start
}

proof fn lemma_distinct_starts_permutation(s: Seq<VenueEventInfo>, r: Seq<VenueEventInfo>)
    requires
        distinct_starts(s),
        r.to_multiset() == s.to_multiset(),
    ensures
        distinct_starts(r),
{
    broadcast use vstd::seq_lib::to_multiset_contains;
    assert(s.no_duplicates());
    s.lemma_multiset_has_no_duplicates();
    r.lemma_multiset_has_no_duplicates_conv();
    assert forall|i: int, j: int| 0 <= i < r.len() && 0 <= j < r.len() && i != j implies r[i].actual_start
        != r[j].actual_start by {
        assert(r[i] != r[j]);
        assert(r.contains(r[i]));
        assert(r.contains(r[j]));
        assert(r.to_multiset().count(r[i]) > 0);
        assert(r.to_multiset().count(r[j]) > 0);
        assert(s.contains(r[i]));
        assert(s.contains(r[j]));
        let p = choose|p: int| 0 <= p < s.len() && s[p] == r[i];
        let q = choose|q: int| 0 <= q < s.len() && s[q] == r[j];
        assert(p != q);
    }
}

proof fn lemma_sorted_distinct_unique(x: Seq<VenueEventInfo>, y: Seq<VenueEventInfo>)
    requires
        is_sorted_by_start(x),
        is_sorted_by_start(y),
        distinct_starts(x),
        x.to_multiset() == y.to_multiset(),
    ensures
        x == y,
    decreases x.len(),
{
    broadcast use vstd::seq_lib::to_multiset_contains, vstd::seq_lib::to_multiset_remove;
    vstd::seq_lib::to_multiset_len(x);
    vstd::seq_lib::to_multiset_len(y);
    if x.len() == 0 {
        assert(y.len() == 0);
        assert(x =~= y);
    } else {
        assert(y.len() == x.len());
        assert(x.contains(x[0]));
        assert(x.to_multiset().count(x[0]) > 0);
        assert(y.contains(x[0]));
        assert(y.contains(y[0]));
        assert(y.to_multiset().count(y[0]) > 0);
        assert(x.contains(y[0]));
        let i = choose|i: int| 0 <= i < x.len() && x[i] == y[0];
        let j = choose|j: int| 0 <= j < y.len() && y[j] == x[0];
        assert(x[0].actual_start <= x[i].actual_start);
        assert(y[0].actual_start <= y[j].actual_start);
        assert(i == 0);
        assert(x.remove(0) == x.drop_first());
        assert(y.remove(0) == y.drop_first());
        assert(x.drop_first().to_multiset() == y.drop_first().to_multiset());
        lemma_sorted_distinct_unique(x.drop_first(), y.drop_first());
        assert forall|k: int| 0 <= k < x.len() implies x[k] == y[k] by {
            if k > 0 {
                assert(x[k] == x.drop_first()[k - 1]);
                assert(y[k] == y.drop_first()[k - 1]);
            }
        }
        assert(x =~= y);
    }
}

/// Listing shows that start at distinct instants in another order does not
/// change how they come out ordered.
pub proof fn lemma_sort_by_start_order_independent(s1: Seq<VenueEventInfo>, s2: Seq<VenueEventInfo>)
    requires
        distinct_starts(s1),
        s1.to_multiset() == s2.to_multiset(),
    ensures
        sort_by_start(s1) == sort_by_start(s2),
{
    lemma_sort_by_start_sorted(s1);
    lemma_sort_by_start_sorted(s2);
    lemma_sort_by_start_permutation(s1);
    lemma_sort_by_start_permutation(s2);
    lemma_distinct_starts_permutation(s1, sort_by_start(s1));
    lemma_sorted_distinct_unique(sort_by_start(s1), sort_by_start(s2));
}

/// No two listed shows that have a start time start at the same instant.
pub open spec fn distinct_listed_starts(events: Seq<VenueEvent>) -> bool {
    forall|i: int, j: int|
        0 <= i < events.len() && 0 <= j < events.len() && i != j && (#[trigger] events[i]).start is Some
            ==> events[i].start != (#[trigger] events[j]).start
}

proof fn lemma_infos_of_add(a: Seq<VenueEvent>, b: Seq<VenueEvent>)
    ensures
        infos_of(a + b) == infos_of(a) + infos_of(b),
{
    assert(infos_of(a + b) =~= infos_of(a) + infos_of(b));
}

/// The windows of the timed shows of `s`, counted with multiplicity, are those
/// of `s` without show `j` together with the window of show `j` if it is timed.
proof fn lemma_timed_windows_remove(s: Seq<VenueEvent>, j: int)
    requires
        0 <= j < s.len(),
    ensures
        infos_of(timed(s)).to_multiset() == infos_of(timed(s.remove(j))).to_multiset().add(
            infos_of(timed(seq![s[j]])).to_multiset(),
        ),
{
    broadcast use vstd::multiset::group_multiset_axioms;
    let pred = |e: VenueEvent| e.start is Some;
    let a = s.subrange(0, j);
    let y = seq![s[j]];
    let b = s.subrange(j + 1, s.len() as int);
    assert(s == a + y + b);
    assert(s.remove(j) == a + b);
    Seq::filter_distributes_over_add(a + y, b, pred);
    Seq::filter_distributes_over_add(a, y, pred);
    Seq::filter_distributes_over_add(a, b, pred);
    lemma_infos_of_add(a.filter(pred) + y.filter(pred), b.filter(pred));
    lemma_infos_of_add(a.filter(pred), y.filter(pred));
    lemma_infos_of_add(a.filter(pred), b.filter(pred));
    let fa = infos_of(a.filter(pred));
    let fy = infos_of(y.filter(pred));
    let fb = infos_of(b.filter(pred));
    vstd::seq_lib::lemma_multiset_commutative(fa + fy, fb);
    vstd::seq_lib::lemma_multiset_commutative(fa, fy);
    vstd::seq_lib::lemma_multiset_commutative(fa, fb);
    assert(infos_of(timed(s)).to_multiset() =~= infos_of(timed(s.remove(j))).to_multiset().add(fy.to_multiset()));
}

/// Listing the same shows in another order gives the same windows, counted
/// with multiplicity.
proof fn lemma_timed_windows_permutation(e1: Seq<VenueEvent>, e2: Seq<VenueEvent>)
    requires
        e1.to_multiset() == e2.to_multiset(),
    ensures
        infos_of(timed(e1)).to_multiset() == infos_of(timed(e2)).to_multiset(),
    decreases e1.len(),
{
    broadcast use vstd::seq_lib::to_multiset_contains, vstd::seq_lib::to_multiset_remove,
        vstd::seq_lib::to_multiset_len;
    assert(e1.to_multiset().len() == e1.len());
    assert(e2.to_multiset().len() == e2.len());
    if e1.len() == 0 {
        assert(e2.len() == 0);
        assert(e1 =~= e2);
    } else {
        let last = e1.len() - 1;
        let x = e1[last];
        assert(e1.contains(x));
        assert(e1.to_multiset().count(x) > 0);
        assert(e2.contains(x));
        let j = choose|j: int| 0 <= j < e2.len() && e2[j] == x;
        assert(e1.remove(last).to_multiset() == e2.remove(j).to_multiset());
        lemma_timed_windows_permutation(e1.remove(last), e2.remove(j));
        lemma_timed_windows_remove(e1, last);
        lemma_timed_windows_remove(e2, j);
    }
}

/// The timed shows of a listing without shared start times have windows
/// without shared starts.
proof fn lemma_timed_distinct_starts(events: Seq<VenueEvent>)
    requires
        distinct_listed_starts(events),
    ensures
        distinct_starts(infos_of(timed(events))),
    decreases events.len(),
{
    let pred = |e: VenueEvent| e.start is Some;
    if events.len() > 0 {
        let rest = events.drop_last();
        let x = events.last();
        assert forall|i: int, j: int|
            0 <= i < rest.len() && 0 <= j < rest.len() && i != j && (#[trigger] rest[i]).start is Some implies rest[i].start
            != (#[trigger] rest[j]).start by {
            assert(rest[i] == events[i] && rest[j] == events[j]);
        }
        lemma_timed_distinct_starts(rest);
        assert(rest.push(x) == events);
        rest.lemma_filter_push(x, pred);
        if pred(x) {
            let t = rest.filter(pred);
            let w = infos_of(t.push(x));
            assert(infos_of(t.push(x)) =~= infos_of(t).push(info_of(x)));
            assert forall|i: int| 0 <= i < t.len() implies (#[trigger] t[i]).start is Some && t[i].start != x.start by {
                rest.lemma_filter_pred(pred, i);
                assert(t.contains(t[i]));
                rest.lemma_filter_contains_rev(pred, t[i]);
                let m = choose|m: int| 0 <= m < rest.len() && rest[m] == t[i];
                assert(events[m] == t[i]);
                assert(events[events.len() - 1] == x);
            }
            assert forall|i: int, j: int| 0 <= i < w.len() && 0 <= j < w.len() && i != j implies w[i].actual_start
                != w[j].actual_start by {
                if i < t.len() && j < t.len() {
                    assert(w[i] == infos_of(t)[i] && w[j] == infos_of(t)[j]);
                } else if i < t.len() {
                    assert(t[i].start != x.start);
                } else if j < t.len() {
                    assert(t[j].start != x.start);
                }
            }
        }
    }
}

/// Listing the same shows in another order gives the same windows in the same
/// order from [`get_venue_events`], when no two listed shows that have a start
/// time start at the same instant.
pub proof fn lemma_venue_events_order_independent(e1: Seq<VenueEvent>, e2: Seq<VenueEvent>)
    requires
        e1.to_multiset() == e2.to_multiset(),
        distinct_listed_starts(e1),
    ensures
        sort_by_start(infos_of(timed(e1))) == sort_by_start(infos_of(timed(e2))),
{
    lemma_timed_windows_permutation(e1, e2);
    lemma_timed_distinct_starts(e1);
    lemma_sort_by_start_order_independent(infos_of(timed(e1)), infos_of(timed(e2)));
}

/// How many listed shows have a start time.
pub open spec fn count_with_start(events: Seq<VenueEvent>) -> nat
    decreases events.len(),
{
    if events.len() == 0 {
        0
    } else {
        count_with_start(events.drop_last()) + if events.last().start is Some {
            1nat
        } else {
            0nat
        }
    }
}

/// Every listed show that has a start time has its window among those that
/// [`get_venue_events`] returns: three hours either side of its start, under
/// its act's name.
pub proof fn lemma_venue_events_complete(events: Seq<VenueEvent>, j: int)
    requires
        0 <= j < events.len(),
        events[j].start is Some,
    ensures
        sort_by_start(infos_of(timed(events))).contains(window_of(events[j].name, events[j].start->0)),
{
    broadcast use vstd::seq_lib::to_multiset_contains;
    let pred = |e: VenueEvent| e.start is Some;
    let t = timed(events);
    events.lemma_filter_contains(pred, j);
    let m = choose|m: int| 0 <= m < t.len() && t[m] == events[j];
    let w = window_of(events[j].name, events[j].start->0);
    assert(infos_of(t)[m] == w);
    assert(infos_of(t).contains(w));
    assert(infos_of(t).to_multiset().count(w) > 0);
    lemma_sort_by_start_permutation(infos_of(t));
    assert(sort_by_start(infos_of(t)).to_multiset().count(w) > 0);
}

/// [`get_venue_events`] returns one window for each listed show that has a
/// start time, and none for the others.
pub proof fn lemma_venue_events_count(events: Seq<VenueEvent>)
    ensures
        sort_by_start(infos_of(timed(events))).len() == count_with_start(events),
    decreases events.len(),
{
    let pred = |e: VenueEvent| e.start is Some;
    lemma_sort_by_start_sorted(infos_of(timed(events)));
    if events.len() > 0 {
        lemma_venue_events_count(events.drop_last());
        lemma_sort_by_start_sorted(infos_of(timed(events.drop_last())));
        assert(events.drop_last().push(events.last()) == events);
        events.drop_last().lemma_filter_len_push(pred, events.last());
    } else {
        assert(timed(events).len() == 0) by {
            events.lemma_filter_len(pred);
        }
    }
}

} // verus!
