//! The Stream Metrics Accounting Manager: per-stream event and byte-volume
//! accounting across three tiers (lifetime, current, deleted), plus a
//! cardinality-bounded date-partitioned view for retention reporting.
//!
//! The manager owns 12 counter-series families in an explicitly constructed,
//! dependency-injected registry instance and coordinates their update and
//! teardown. Cross-series atomicity is deliberately absent: each series
//! moves on its own, and a reader may observe one counter updated before
//! another. A stream's counter set is created lazily on its first observed
//! event and destroyed explicitly by [`StreamMetrics::delete_stats`].

use vstd::prelude::*;
use crate::labels::event_labels;
use crate::labels::event_labels_date;
use crate::labels::spec_event_date_key;
use crate::labels::spec_event_key;
use crate::labels::spec_storage_date_key;
use crate::labels::spec_storage_key;
use crate::labels::storage_size_labels;
use crate::labels::storage_size_labels_date;
use crate::labels::joined;
use crate::labels::spec_valid_date;
use crate::labels::spec_valid_format;
use crate::labels::views_of;
use crate::otel::str_eq;
use crate::registry::entry_or_zero;
use crate::registry::spec_descriptor_ok;
use crate::registry::spec_label_name_ok;
use crate::registry::spec_metric_name_ok;
use crate::registry::series_arity;
use crate::registry::series_entries;
use crate::registry::CounterSeries;

verus! {

/// A point-in-time read of the three related counters of one tier.
#[derive(Clone, Copy, Debug, Default, PartialEq, Eq, Structural)]
pub struct Stats {
    /// Number of events counted in this tier.
    pub events: u64,
    /// Ingested byte volume counted in this tier.
    pub ingestion: u64,
    /// Stored byte volume counted in this tier.
    pub storage: u64,
}

/// The complete accounting view of one stream: lifetime, current, deleted.
#[derive(Clone, Copy, Debug, Default, PartialEq, Eq, Structural)]
pub struct FullStats {
    pub lifetime_stats: Stats,
    pub current_stats: Stats,
    pub deleted_stats: Stats,
}

/// One of the 12 counter-series families the manager owns.
#[derive(Clone, Copy, Debug, PartialEq, Eq, Structural)]
pub enum SeriesFamily {
    EventsIngested,
    EventsIngestedSize,
    StorageSize,
    EventsDeleted,
    EventsDeletedSize,
    DeletedEventsStorageSize,
    LifetimeEventsIngested,
    LifetimeEventsIngestedSize,
    LifetimeEventsStorageSize,
    EventsIngestedDate,
    EventsIngestedSizeDate,
    EventsStorageSizeDate,
}

/// One series that survived a stream teardown: its family, and the date
/// partition where the family is date-partitioned.
#[derive(Debug)]
pub struct SurvivingSeries {
    pub family: SeriesFamily,
    pub date: Option<String>,
}

/// One or more series failed to remove during a stream teardown. The
/// logical stream removal still counts as done; the caller retries the
/// listed stragglers.
#[derive(Debug)]
pub struct PartialTeardownError {
    pub surviving: Vec<SurvivingSeries>,
}

/// Decrement underflow observed by the deletion accounting: it asked to
/// remove more than the current tier held, and the counter was clamped at
/// zero instead of wrapping. Non-fatal.
#[derive(Clone, Copy, Debug, PartialEq, Eq, Structural)]
pub struct AccountingDrift {
    /// The current event count would have gone negative.
    pub events_clamped: bool,
    /// The current storage volume would have gone negative.
    pub storage_clamped: bool,
}

/// Whether a teardown's surviving list names one non-date-partitioned
/// family.
pub open spec fn lists_family(l: Seq<SurvivingSeries>, family: SeriesFamily) -> bool {
    exists|i: int| 0 <= i < l.len() && (#[trigger] l[i]).family == family && l[i].date is None
}

/// Whether a teardown's surviving list names one date partition of a
/// date-partitioned family.
pub open spec fn lists_date(l: Seq<SurvivingSeries>, family: SeriesFamily, date: Seq<char>) -> bool {
    exists|i: int|
        0 <= i < l.len() && (#[trigger] l[i]).family == family && (l[i].date matches Some(d) && d@
            == date)
}

/// Appending an entry to a surviving list keeps every name it already
/// holds and adds the appended one.
proof fn lemma_lists_push_preserves(l: Seq<SurvivingSeries>, x: SurvivingSeries)
    ensures
        forall|f: SeriesFamily| lists_family(l, f) ==> #[trigger] lists_family(l.push(x), f),
        forall|f: SeriesFamily, d: Seq<char>|
            lists_date(l, f, d) ==> #[trigger] lists_date(l.push(x), f, d),
        x.date is None ==> lists_family(l.push(x), x.family),
        x.date matches Some(dd) ==> lists_date(l.push(x), x.family, dd@),
{
    assert forall|f: SeriesFamily| lists_family(l, f) implies #[trigger] lists_family(
        l.push(x),
        f,
    ) by {
        let i = choose|i: int|
            0 <= i < l.len() && (#[trigger] l[i]).family == f && l[i].date is None;
        assert(l.push(x)[i].family == f && l.push(x)[i].date is None);
    }
    assert forall|f: SeriesFamily, d: Seq<char>| lists_date(l, f, d) implies #[trigger] lists_date(
        l.push(x),
        f,
        d,
    ) by {
        let i = choose|i: int|
            0 <= i < l.len() && (#[trigger] l[i]).family == f && (l[i].date matches Some(dd) && dd@
                == d);
        assert(l.push(x)[i].family == f && (l.push(x)[i].date matches Some(dd) && dd@ == d));
    }
    assert(l.push(x)[l.len() as int] == x);
}

/// A live stream identity: the counter set of this `(stream, format)` pair
/// exists in the registry.
struct StreamKey {
    stream: String,
    format: String,
}

/// A date partition observed for a stream: its date-partitioned series have
/// been touched.
struct DateKey {
    stream: String,
    format: String,
    date: String,
}

/// 64-bit saturating increment of a counter value.
pub open spec fn sat_add(v: int, delta: int) -> int {
    if v + delta > i64::MAX {
        i64::MAX as int
    } else {
        v + delta
    }
}

/// Clamped-at-zero decrement of a counter value.
pub open spec fn clamp_sub(v: int, delta: int) -> int {
    if delta <= v {
        v - delta
    } else {
        0
    }
}

/// The sum of a sequence of byte sizes.
pub open spec fn seq_sum(sizes: Seq<int>) -> int
    decreases sizes.len(),
{
    if sizes.len() == 0 {
        0
    } else {
        seq_sum(sizes.drop_last()) + sizes.last()
    }
}

/// The lifetime event counter after a run of `n` further ingests, by the
/// saturating per-ingest update of `record_ingest`.
pub open spec fn lifetime_events_after(start: int, n: nat) -> int
    decreases n,
{
    if n == 0 {
        start
    } else {
        sat_add(lifetime_events_after(start, (n - 1) as nat), 1)
    }
}

/// The lifetime ingestion-byte counter after a run of ingests of the given
/// sizes, by the saturating per-ingest update of `record_ingest`.
pub open spec fn lifetime_bytes_after(start: int, sizes: Seq<int>) -> int
    decreases sizes.len(),
{
    if sizes.len() == 0 {
        start
    } else {
        sat_add(lifetime_bytes_after(start, sizes.drop_last()), sizes.last())
    }
}

/// After `N` ingests with byte sizes `b_1 .. b_N` into a fresh stream, the
/// lifetime tier shows exactly `N` events and `b_1 + .. + b_N` ingested
/// bytes: the saturating per-ingest updates never engage below the 64-bit
/// counter ceiling.
pub proof fn lemma_lifetime_totals(sizes: Seq<int>)
    requires
        forall|i: int| 0 <= i < sizes.len() ==> 0 <= #[trigger] sizes[i],
        sizes.len() <= i64::MAX,
        seq_sum(sizes) <= i64::MAX,
    ensures
        lifetime_events_after(0, sizes.len() as nat) == sizes.len(),
        lifetime_bytes_after(0, sizes) == seq_sum(sizes),
    decreases sizes.len(),
{
    if sizes.len() > 0 {
        assert(forall|i: int|
            0 <= i < sizes.drop_last().len() ==> 0 <= #[trigger] sizes.drop_last()[i]);
        assert(sizes.last() >= 0);
        lemma_lifetime_totals(sizes.drop_last());
    }
}

/// Deletion accounting clamps at zero: the clamped decrement never drives a
/// counter below zero and never wraps around, and the clamp engages exactly
/// when more is removed than the counter holds.
pub proof fn lemma_deletion_clamps(v: int, delta: int)
    requires
        0 <= v,
        0 <= delta,
    ensures
        0 <= clamp_sub(v, delta),
        clamp_sub(v, delta) <= v,
        delta <= v ==> clamp_sub(v, delta) == v - delta,
        delta > v ==> clamp_sub(v, delta) == 0,
{
}

/// Every existing series of the family holds a non-negative value within
/// the 64-bit registry range.
pub open spec fn counters_bounded(m: Map<Seq<char>, int>) -> bool {
    forall|k: Seq<char>| m.contains_key(k) ==> 0 <= #[trigger] m[k] <= i64::MAX
}

/// Whether the live index holds a `(stream, format)` pair.
spec fn seq_has_key(s: Seq<StreamKey>, stream: Seq<char>, format: Seq<char>) -> bool {
    exists|i: int|
        0 <= i < s.len() && (#[trigger] s[i]).stream@ == stream && s[i].format@ == format
}

/// Whether the date index holds a `(stream, format, date)` triple.
spec fn seq_has_date(
    s: Seq<DateKey>,
    stream: Seq<char>,
    format: Seq<char>,
    date: Seq<char>,
) -> bool {
    exists|i: int|
        0 <= i < s.len() && (#[trigger] s[i]).stream@ == stream && s[i].format@ == format
            && s[i].date@ == date
}

/// Saturating increment of one series: a verified read-modify-write against
/// the registry, never overflowing the 64-bit counter.
fn series_bump(v: &mut CounterSeries, labels: &[&str], delta: u64)
    requires
        labels@.len() == series_arity(*old(v)),
        delta <= i64::MAX,
        counters_bounded(series_entries(*old(v))),
    ensures
        series_arity(*final(v)) == series_arity(*old(v)),
        series_entries(*final(v)) == series_entries(*old(v)).insert(
            joined(views_of(labels@)),
            sat_add(entry_or_zero(series_entries(*old(v)), joined(views_of(labels@))), delta as int),
        ),
        counters_bounded(series_entries(*final(v))),
{
    let cur: i64 = v.read(labels);
    let room: i64 = i64::MAX - cur;
    let next: i64 = if (delta as i64) <= room {
        cur + (delta as i64)
    } else {
        i64::MAX
    };
    v.write(labels, next);
    proof {
        let m0 = series_entries(*old(v));
        let k = joined(views_of(labels@));
        assert(series_entries(*v) =~= m0.insert(k, sat_add(entry_or_zero(m0, k), delta as int)));
        assert forall|k2: Seq<char>| series_entries(*v).contains_key(k2)
            implies 0 <= #[trigger] series_entries(*v)[k2] <= i64::MAX by {
            if k2 != k {
                assert(m0.contains_key(k2));
            }
        }
    }
}

/// Makes one series of a counter set exist (at its current or zero value)
/// without changing any counter.
fn series_touch(v: &mut CounterSeries, labels: &[&str])
    requires
        labels@.len() == series_arity(*old(v)),
        counters_bounded(series_entries(*old(v))),
    ensures
        series_arity(*final(v)) == series_arity(*old(v)),
        series_entries(*final(v)) == series_entries(*old(v)).insert(
            joined(views_of(labels@)),
            entry_or_zero(series_entries(*old(v)), joined(views_of(labels@))),
        ),
        counters_bounded(series_entries(*final(v))),
{
    let cur: i64 = v.read(labels);
    proof {
        let m0 = series_entries(*old(v));
        let k = joined(views_of(labels@));
        assert forall|k2: Seq<char>| series_entries(*v).contains_key(k2)
            implies 0 <= #[trigger] series_entries(*v)[k2] <= i64::MAX by {
            if k2 != k {
                assert(m0.contains_key(k2));
            }
        }
    }
}

/// Clamped decrement of one series: a verified read-modify-write that stops
/// at zero and reports whether clamping happened.
fn series_clamp_sub(v: &mut CounterSeries, labels: &[&str], delta: u64) -> (clamped: bool)
    requires
        labels@.len() == series_arity(*old(v)),
        delta <= i64::MAX,
        counters_bounded(series_entries(*old(v))),
    ensures
        series_arity(*final(v)) == series_arity(*old(v)),
        series_entries(*final(v)) == series_entries(*old(v)).insert(
            joined(views_of(labels@)),
            clamp_sub(entry_or_zero(series_entries(*old(v)), joined(views_of(labels@))), delta as int),
        ),
        clamped == (delta as int > entry_or_zero(
            series_entries(*old(v)),
            joined(views_of(labels@)),
        )),
        counters_bounded(series_entries(*final(v))),
{
    let cur: i64 = v.read(labels);
    let clamped: bool = if (delta as i64) <= cur {
        v.write(labels, cur - (delta as i64));
        false
    } else {
        v.write(labels, 0);
        true
    };
    proof {
        let m0 = series_entries(*old(v));
        let k = joined(views_of(labels@));
        assert forall|k2: Seq<char>| series_entries(*v).contains_key(k2)
            implies 0 <= #[trigger] series_entries(*v)[k2] <= i64::MAX by {
            if k2 != k {
                assert(m0.contains_key(k2));
            }
        }
    }
    clamped
}

/// Reads one series without changing any counter (the read itself vivifies
/// an absent series at zero, which leaves every value as it was).
fn series_peek(v: &mut CounterSeries, labels: &[&str]) -> (r: i64)
    requires
        labels@.len() == series_arity(*old(v)),
        counters_bounded(series_entries(*old(v))),
    ensures
        series_arity(*final(v)) == series_arity(*old(v)),
        series_entries(*final(v)) == series_entries(*old(v)).insert(
            joined(views_of(labels@)),
            entry_or_zero(series_entries(*old(v)), joined(views_of(labels@))),
        ),
        r as int == entry_or_zero(series_entries(*old(v)), joined(views_of(labels@))),
        0 <= r,
        counters_bounded(series_entries(*final(v))),
        series_entries(*old(v)).contains_key(joined(views_of(labels@))) ==> *final(v) == *old(v),
{
    let r: i64 = v.read(labels);
    proof {
        let m0 = series_entries(*old(v));
        let k = joined(views_of(labels@));
        assert forall|k2: Seq<char>| series_entries(*v).contains_key(k2)
            implies 0 <= #[trigger] series_entries(*v)[k2] <= i64::MAX by {
            if k2 != k {
                assert(m0.contains_key(k2));
            }
        }
    }
    r
}

/// Removes one series and reports whether it existed, keeping the bounds on
/// the remaining counters.
fn series_drop(v: &mut CounterSeries, labels: &[&str]) -> (removed: bool)
    requires
        labels@.len() == series_arity(*old(v)),
        counters_bounded(series_entries(*old(v))),
    ensures
        series_arity(*final(v)) == series_arity(*old(v)),
        series_entries(*final(v)) == series_entries(*old(v)).remove(
            joined(views_of(labels@)),
        ),
        removed == series_entries(*old(v)).contains_key(joined(views_of(labels@))),
        counters_bounded(series_entries(*final(v))),
{
    let removed: bool = v.remove(labels);
    proof {
        let m0 = series_entries(*old(v));
        assert forall|k2: Seq<char>| series_entries(*v).contains_key(k2)
            implies 0 <= #[trigger] series_entries(*v)[k2] <= i64::MAX by {
            assert(m0.contains_key(k2));
        }
    }
    removed
}

/// Whether one of the first `upto` entries of the live index is this pair.
spec fn matched_key_in(s: Seq<StreamKey>, upto: int, stream: Seq<char>, format: Seq<char>) -> bool {
    exists|j: int|
        0 <= j < upto && (#[trigger] s[j]).stream@ == stream && s[j].format@ == format
}

/// Whether one of the first `upto` entries of the date index is this
/// triple.
spec fn matched_date_in(
    s: Seq<DateKey>,
    upto: int,
    stream: Seq<char>,
    format: Seq<char>,
    date: Seq<char>,
) -> bool {
    exists|j: int|
        0 <= j < upto && (#[trigger] s[j]).stream@ == stream && s[j].format@ == format
            && s[j].date@ == date
}

/// Scanning the whole live index is the membership test.
proof fn lemma_matched_key_full(s: Seq<StreamKey>, stream: Seq<char>, format: Seq<char>)
    ensures
        matched_key_in(s, s.len() as int, stream, format) == seq_has_key(s, stream, format),
{
    if matched_key_in(s, s.len() as int, stream, format) {
        let j = choose|j: int|
            0 <= j < s.len() && (#[trigger] s[j]).stream@ == stream && s[j].format@ == format;
        assert(seq_has_key(s, stream, format));
    }
    if seq_has_key(s, stream, format) {
        let j = choose|j: int|
            0 <= j < s.len() && (#[trigger] s[j]).stream@ == stream && s[j].format@ == format;
        assert(matched_key_in(s, s.len() as int, stream, format));
    }
}

/// Scanning the whole date index is the membership test.
proof fn lemma_matched_date_full(
    s: Seq<DateKey>,
    stream: Seq<char>,
    format: Seq<char>,
    date: Seq<char>,
)
    ensures
        matched_date_in(s, s.len() as int, stream, format, date) == seq_has_date(
            s,
            stream,
            format,
            date,
        ),
{
    if matched_date_in(s, s.len() as int, stream, format, date) {
        let j = choose|j: int|
            0 <= j < s.len() && (#[trigger] s[j]).stream@ == stream && s[j].format@ == format
                && s[j].date@ == date;
        assert(seq_has_date(s, stream, format, date));
    }
    if seq_has_date(s, stream, format, date) {
        let j = choose|j: int|
            0 <= j < s.len() && (#[trigger] s[j]).stream@ == stream && s[j].format@ == format
                && s[j].date@ == date;
        assert(matched_date_in(s, s.len() as int, stream, format, date));
    }
}

/// Whether one of the first `upto` collected date strings is this date.
spec fn date_in(ds: Seq<String>, upto: int, d: Seq<char>) -> bool {
    exists|m: int| 0 <= m < upto && (#[trigger] ds[m])@ == d
}

/// Scanning one more entry of the live index extends the membership test by
/// exactly that entry.
proof fn lemma_matched_key_step(s: Seq<StreamKey>, i: int, stream: Seq<char>, format: Seq<char>)
    requires
        0 <= i < s.len(),
    ensures
        matched_key_in(s, i + 1, stream, format) == (matched_key_in(s, i, stream, format) || (
        s[i].stream@ == stream && s[i].format@ == format)),
{
    if matched_key_in(s, i + 1, stream, format) {
        let j = choose|j: int|
            0 <= j < i + 1 && (#[trigger] s[j]).stream@ == stream && s[j].format@ == format;
        if j < i {
            assert(matched_key_in(s, i, stream, format));
        }
    }
    if matched_key_in(s, i, stream, format) {
        let j = choose|j: int|
            0 <= j < i && (#[trigger] s[j]).stream@ == stream && s[j].format@ == format;
        assert(matched_key_in(s, i + 1, stream, format));
    }
    if s[i].stream@ == stream && s[i].format@ == format {
        assert(matched_key_in(s, i + 1, stream, format));
    }
}

/// Scanning one more entry of the date index extends the membership test by
/// exactly that entry.
proof fn lemma_matched_date_step(
    s: Seq<DateKey>,
    i: int,
    stream: Seq<char>,
    format: Seq<char>,
    date: Seq<char>,
)
    requires
        0 <= i < s.len(),
    ensures
        matched_date_in(s, i + 1, stream, format, date) == (matched_date_in(
            s,
            i,
            stream,
            format,
            date,
        ) || (s[i].stream@ == stream && s[i].format@ == format && s[i].date@ == date)),
{
    if matched_date_in(s, i + 1, stream, format, date) {
        let j = choose|j: int|
            0 <= j < i + 1 && (#[trigger] s[j]).stream@ == stream && s[j].format@ == format
                && s[j].date@ == date;
        if j < i {
            assert(matched_date_in(s, i, stream, format, date));
        }
    }
    if matched_date_in(s, i, stream, format, date) {
        let j = choose|j: int|
            0 <= j < i && (#[trigger] s[j]).stream@ == stream && s[j].format@ == format
                && s[j].date@ == date;
        assert(matched_date_in(s, i + 1, stream, format, date));
    }
    if s[i].stream@ == stream && s[i].format@ == format && s[i].date@ == date {
        assert(matched_date_in(s, i + 1, stream, format, date));
    }
}

/// Collecting one more date string extends the membership test by exactly
/// that date.
proof fn lemma_date_in_step(ds: Seq<String>, i: int, d: Seq<char>)
    requires
        0 <= i < ds.len(),
    ensures
        date_in(ds, i + 1, d) == (date_in(ds, i, d) || ds[i]@ == d),
{
    if date_in(ds, i + 1, d) {
        let m = choose|m: int| 0 <= m < i + 1 && (#[trigger] ds[m])@ == d;
        if m < i {
            assert(date_in(ds, i, d));
        }
    }
    if date_in(ds, i, d) {
        let m = choose|m: int| 0 <= m < i && (#[trigger] ds[m])@ == d;
        assert(date_in(ds, i + 1, d));
    }
    if ds[i]@ == d {
        assert(date_in(ds, i + 1, d));
    }
}

/// Appending a key to the live index adds exactly that pair.
proof fn lemma_has_key_push(s: Seq<StreamKey>, x: StreamKey, st: Seq<char>, f: Seq<char>)
    ensures
        seq_has_key(s.push(x), st, f) <==> (seq_has_key(s, st, f) || (x.stream@ == st
            && x.format@ == f)),
{
    if seq_has_key(s, st, f) {
        let i = choose|i: int| 0 <= i < s.len() && s[i].stream@ == st && s[i].format@ == f;
        assert(s.push(x)[i].stream@ == st && s.push(x)[i].format@ == f);
    }
    if x.stream@ == st && x.format@ == f {
        assert(s.push(x)[s.len() as int].stream@ == st && s.push(x)[s.len() as int].format@ == f);
    }
    if seq_has_key(s.push(x), st, f) {
        let i = choose|i: int|
            0 <= i < s.push(x).len() && s.push(x)[i].stream@ == st && s.push(x)[i].format@ == f;
        if i < s.len() {
            assert(s[i].stream@ == st && s[i].format@ == f);
        }
    }
}

/// Appending a triple to the date index adds exactly that triple.
proof fn lemma_has_date_push(s: Seq<DateKey>, x: DateKey, st: Seq<char>, f: Seq<char>, d: Seq<char>)
    ensures
        seq_has_date(s.push(x), st, f, d) <==> (seq_has_date(s, st, f, d) || (x.stream@ == st
            && x.format@ == f && x.date@ == d)),
{
    if seq_has_date(s, st, f, d) {
        let i = choose|i: int|
            0 <= i < s.len() && s[i].stream@ == st && s[i].format@ == f && s[i].date@ == d;
        assert(s.push(x)[i].stream@ == st && s.push(x)[i].format@ == f && s.push(x)[i].date@ == d);
    }
    if x.stream@ == st && x.format@ == f && x.date@ == d {
        assert(s.push(x)[s.len() as int].stream@ == st && s.push(x)[s.len() as int].format@ == f
            && s.push(x)[s.len() as int].date@ == d);
    }
    if seq_has_date(s.push(x), st, f, d) {
        let i = choose|i: int|
            0 <= i < s.push(x).len() && s.push(x)[i].stream@ == st && s.push(x)[i].format@ == f
                && s.push(x)[i].date@ == d;
        if i < s.len() {
            assert(s[i].stream@ == st && s[i].format@ == f && s[i].date@ == d);
        }
    }
}

/// Equal concatenations with equal-length second parts have equal parts.
proof fn lemma_concat_cancel(a: Seq<char>, b: Seq<char>, c: Seq<char>, d: Seq<char>)
    requires
        a + b == c + d,
        b.len() == d.len(),
    ensures
        a == c,
        b == d,
{
    assert((a + b).len() == a.len() + b.len());
    assert((c + d).len() == c.len() + d.len());
    assert(a.len() == c.len());
    assert forall|i: int| 0 <= i < a.len() implies a[i] == c[i] by {
        assert((a + b)[i] == a[i]);
        assert((c + d)[i] == c[i]);
    }
    assert(a =~= c);
    assert forall|i: int| 0 <= i < b.len() implies b[i] == d[i] by {
        assert((a + b)[a.len() + i] == b[i]);
        assert((c + d)[c.len() + i] == d[i]);
    }
    assert(b =~= d);
}

/// Two event keys coincide only for the same stream and format: with the
/// format drawn from the static enumeration, the concatenation is
/// injective (the two tokens end in different characters).
proof fn lemma_event_key_inj(s1: Seq<char>, f1: Seq<char>, s2: Seq<char>, f2: Seq<char>)
    requires
        spec_valid_format(f1),
        spec_valid_format(f2),
    ensures
        (spec_event_key(s1, f1) == spec_event_key(s2, f2)) <==> (s1 == s2 && f1 == f2),
{
    reveal_strlit("json");
    reveal_strlit("parquet");
    if spec_event_key(s1, f1) == spec_event_key(s2, f2) {
        if f1 == f2 {
            lemma_concat_cancel(s1, f1, s2, f2);
        } else {
            let k = s1 + f1;
            assert(k[k.len() - 1] == f1[f1.len() - 1]);
            assert((s2 + f2)[k.len() - 1] == f2[f2.len() - 1]);
            assert("json"@[3] == 'n');
            assert("parquet"@[6] == 't');
            assert(false);
        }
    }
}

/// Two date-partitioned event keys coincide only for the same stream,
/// format and date: dates have the fixed calendar-day length.
proof fn lemma_event_date_key_inj(
    s1: Seq<char>,
    f1: Seq<char>,
    d1: Seq<char>,
    s2: Seq<char>,
    f2: Seq<char>,
    d2: Seq<char>,
)
    requires
        spec_valid_format(f1),
        spec_valid_format(f2),
        spec_valid_date(d1),
        spec_valid_date(d2),
    ensures
        (spec_event_date_key(s1, f1, d1) == spec_event_date_key(s2, f2, d2)) <==> (s1 == s2 && f1
            == f2 && d1 == d2),
{
    if spec_event_date_key(s1, f1, d1) == spec_event_date_key(s2, f2, d2) {
        lemma_concat_cancel(s1 + f1, d1, s2 + f2, d2);
        lemma_event_key_inj(s1, f1, s2, f2);
    }
}

/// Two storage keys coincide only for the same stream: the constant
/// discriminator and encoding tag cancel.
proof fn lemma_storage_key_inj(s1: Seq<char>, s2: Seq<char>)
    ensures
        (spec_storage_key(s1) == spec_storage_key(s2)) <==> (s1 == s2),
{
    if spec_storage_key(s1) == spec_storage_key(s2) {
        lemma_concat_cancel("data"@ + s1, "parquet"@, "data"@ + s2, "parquet"@);
        lemma_concat_cancel("data"@, s1, "data"@, s2);
    }
}

/// Two date-partitioned storage keys coincide only for the same stream and
/// date: dates have the fixed calendar-day length.
proof fn lemma_storage_date_key_inj(s1: Seq<char>, d1: Seq<char>, s2: Seq<char>, d2: Seq<char>)
    requires
        spec_valid_date(d1),
        spec_valid_date(d2),
    ensures
        (spec_storage_date_key(s1, d1) == spec_storage_date_key(s2, d2)) <==> (s1 == s2 && d1
            == d2),
{
    if spec_storage_date_key(s1, d1) == spec_storage_date_key(s2, d2) {
        lemma_concat_cancel("data"@ + s1 + "parquet"@, d1, "data"@ + s2 + "parquet"@, d2);
        lemma_storage_key_inj(s1, s2);
    }
}

/// Whether the live index holds a pair, decided by string comparison.
fn live_contains(v: &Vec<StreamKey>, stream: &str, format: &str) -> (r: bool)
    ensures
        r == seq_has_key(v@, stream@, format@),
{
    let mut i: usize = 0;
    while i < v.len()
        invariant
            0 <= i <= v@.len(),
            forall|j: int|
                0 <= j < i ==> !((#[trigger] v@[j]).stream@ == stream@ && v@[j].format@
                    == format@),
        decreases v@.len() - i,
    {
        if str_eq(v[i].stream.as_str(), stream) && str_eq(v[i].format.as_str(), format) {
            return true;
        }
        i = i + 1;
    }
    proof {
        if seq_has_key(v@, stream@, format@) {
            let j = choose|j: int|
                0 <= j < v@.len() && v@[j].stream@ == stream@ && v@[j].format@ == format@;
            assert(false);
        }
    }
    false
}

/// Whether the date index holds a triple, decided by string comparison.
fn date_contains(v: &Vec<DateKey>, stream: &str, format: &str, date: &str) -> (r: bool)
    ensures
        r == seq_has_date(v@, stream@, format@, date@),
{
    let mut i: usize = 0;
    while i < v.len()
        invariant
            0 <= i <= v@.len(),
            forall|j: int|
                0 <= j < i ==> !((#[trigger] v@[j]).stream@ == stream@ && v@[j].format@ == format@
                    && v@[j].date@ == date@),
        decreases v@.len() - i,
    {
        if str_eq(v[i].stream.as_str(), stream) && str_eq(v[i].format.as_str(), format) && str_eq(
            v[i].date.as_str(),
            date,
        ) {
            return true;
        }
        i = i + 1;
    }
    proof {
        if seq_has_date(v@, stream@, format@, date@) {
            let j = choose|j: int|
                0 <= j < v@.len() && v@[j].stream@ == stream@ && v@[j].format@ == format@
                    && v@[j].date@ == date@;
            assert(false);
        }
    }
    false
}

/// The live index without every entry of one stream, whatever its format:
/// the storage series of a stream are shared by all its formats, so a
/// teardown hides the whole stream from the snapshot reader.
fn filter_live(v: &Vec<StreamKey>, stream: &str) -> (kept: Vec<StreamKey>)
    ensures
        forall|s2: Seq<char>, f2: Seq<char>|
            #![trigger seq_has_key(kept@, s2, f2)]
            seq_has_key(kept@, s2, f2) <==> (seq_has_key(v@, s2, f2) && s2 != stream@),
        forall|m: int|
            0 <= m < kept@.len() ==> seq_has_key(
                v@,
                (#[trigger] kept@[m]).stream@,
                kept@[m].format@,
            ),
{
    let mut kept: Vec<StreamKey> = Vec::new();
    let mut i: usize = 0;
    while i < v.len()
        invariant
            0 <= i <= v@.len(),
            forall|s2: Seq<char>, f2: Seq<char>|
                #![trigger seq_has_key(kept@, s2, f2)]
                seq_has_key(kept@, s2, f2) <==> (matched_key_in(v@, i as int, s2, f2) && s2
                    != stream@),
            forall|m: int|
                0 <= m < kept@.len() ==> matched_key_in(
                    v@,
                    i as int,
                    (#[trigger] kept@[m]).stream@,
                    kept@[m].format@,
                ),
        decreases v@.len() - i,
    {
        let is_match = str_eq(v[i].stream.as_str(), stream);
        let ghost kept0 = kept@;
        if !is_match {
            let entry = StreamKey { stream: v[i].stream.clone(), format: v[i].format.clone() };
            let ghost ge = entry;
            kept.push(entry);
            proof {
                assert forall|s2: Seq<char>, f2: Seq<char>|
                    seq_has_key(kept@, s2, f2) <==> (matched_key_in(v@, i + 1, s2, f2) && s2
                        != stream@) by {
                    lemma_has_key_push(kept0, ge, s2, f2);
                    lemma_matched_key_step(v@, i as int, s2, f2);
                }
                assert forall|m: int| 0 <= m < kept@.len() implies matched_key_in(
                    v@,
                    i + 1,
                    (#[trigger] kept@[m]).stream@,
                    kept@[m].format@,
                ) by {
                    lemma_matched_key_step(v@, i as int, kept@[m].stream@, kept@[m].format@);
                    if m < kept0.len() {
                        assert(kept@[m] == kept0[m]);
                    } else {
                        assert(kept@[m] == ge);
                    }
                }
            }
        } else {
            proof {
                assert forall|s2: Seq<char>, f2: Seq<char>|
                    seq_has_key(kept@, s2, f2) <==> (matched_key_in(v@, i + 1, s2, f2) && s2
                        != stream@) by {
                    lemma_matched_key_step(v@, i as int, s2, f2);
                }
                assert forall|m: int| 0 <= m < kept@.len() implies matched_key_in(
                    v@,
                    i + 1,
                    (#[trigger] kept@[m]).stream@,
                    kept@[m].format@,
                ) by {
                    lemma_matched_key_step(v@, i as int, kept@[m].stream@, kept@[m].format@);
                }
            }
        }
        i = i + 1;
    }
    proof {
        assert forall|s2: Seq<char>, f2: Seq<char>|
            seq_has_key(kept@, s2, f2) <==> (seq_has_key(v@, s2, f2) && s2 != stream@) by {
            lemma_matched_key_full(v@, s2, f2);
        }
        assert forall|m: int| 0 <= m < kept@.len() implies seq_has_key(
            v@,
            (#[trigger] kept@[m]).stream@,
            kept@[m].format@,
        ) by {
            lemma_matched_key_full(v@, kept@[m].stream@, kept@[m].format@);
        }
    }
    kept
}

/// The date index without every partition of one `(stream, format)` pair,
/// together with the distinct dates of the removed partitions.
fn filter_dates(v: &Vec<DateKey>, stream: &str, format: &str) -> (r: (Vec<DateKey>, Vec<String>))
    requires
        forall|a: int, b: int|
            0 <= a < b < v@.len() ==> !((#[trigger] v@[a]).stream@ == (#[trigger] v@[b]).stream@
                && v@[a].format@ == v@[b].format@ && v@[a].date@ == v@[b].date@),
        forall|i: int|
            0 <= i < v@.len() ==> spec_valid_format((#[trigger] v@[i]).format@)
                && spec_valid_date(v@[i].date@),
    ensures
        forall|m: int| 0 <= m < r.1@.len() ==> spec_valid_date((#[trigger] r.1@[m])@),
        forall|m: int|
            0 <= m < r.0@.len() ==> spec_valid_format((#[trigger] r.0@[m]).format@)
                && spec_valid_date(r.0@[m].date@),
        forall|s2: Seq<char>, f2: Seq<char>, d2: Seq<char>|
            #![trigger seq_has_date(r.0@, s2, f2, d2)]
            seq_has_date(r.0@, s2, f2, d2) <==> (seq_has_date(v@, s2, f2, d2) && !(s2 == stream@
                && f2 == format@)),
        forall|a: int, b: int|
            0 <= a < b < r.0@.len() ==> !((#[trigger] r.0@[a]).stream@ == (#[trigger] r.0@[b]).stream@
                && r.0@[a].format@ == r.0@[b].format@ && r.0@[a].date@ == r.0@[b].date@),
        forall|d2: Seq<char>|
            #![trigger date_in(r.1@, r.1@.len() as int, d2)]
            date_in(r.1@, r.1@.len() as int, d2) <==> seq_has_date(v@, stream@, format@, d2),
        forall|a: int, b: int| 0 <= a < b < r.1@.len() ==> (#[trigger] r.1@[a])@ != (#[trigger] r.1@[b])@,
{
    let mut kept: Vec<DateKey> = Vec::new();
    let mut matched: Vec<String> = Vec::new();
    let mut i: usize = 0;
    while i < v.len()
        invariant
            0 <= i <= v@.len(),
            forall|a: int, b: int|
                0 <= a < b < v@.len() ==> !((#[trigger] v@[a]).stream@ == (
                #[trigger] v@[b]).stream@ && v@[a].format@ == v@[b].format@ && v@[a].date@
                    == v@[b].date@),
            forall|s2: Seq<char>, f2: Seq<char>, d2: Seq<char>|
                #![trigger seq_has_date(kept@, s2, f2, d2)]
                seq_has_date(kept@, s2, f2, d2) <==> (matched_date_in(v@, i as int, s2, f2, d2)
                    && !(s2 == stream@ && f2 == format@)),
            forall|m: int|
                0 <= m < kept@.len() ==> matched_date_in(
                    v@,
                    i as int,
                    (#[trigger] kept@[m]).stream@,
                    kept@[m].format@,
                    kept@[m].date@,
                ),
            forall|a: int, b: int|
                0 <= a < b < kept@.len() ==> !((#[trigger] kept@[a]).stream@ == (
                #[trigger] kept@[b]).stream@ && kept@[a].format@ == kept@[b].format@
                    && kept@[a].date@ == kept@[b].date@),
            forall|d2: Seq<char>|
                #![trigger date_in(matched@, matched@.len() as int, d2)]
                date_in(matched@, matched@.len() as int, d2) <==> matched_date_in(
                    v@,
                    i as int,
                    stream@,
                    format@,
                    d2,
                ),
            forall|a: int, b: int|
                0 <= a < b < matched@.len() ==> (#[trigger] matched@[a])@ != (
                #[trigger] matched@[b])@,
        decreases v@.len() - i,
    {
        let is_match = str_eq(v[i].stream.as_str(), stream) && str_eq(v[i].format.as_str(), format);
        if is_match {
            let ghost matched0 = matched@;
            let d = v[i].date.clone();
            let ghost gd = d;
            matched.push(d);
            proof {
                assert(matched@ == matched0.push(gd));
                assert forall|d2: Seq<char>|
                    date_in(matched@, matched@.len() as int, d2) <==> matched_date_in(
                        v@,
                        i + 1,
                        stream@,
                        format@,
                        d2,
                    ) by {
                    lemma_matched_date_step(v@, i as int, stream@, format@, d2);
                    if date_in(matched@, matched@.len() as int, d2) {
                        let m = choose|m: int|
                            0 <= m < matched@.len() && (#[trigger] matched@[m])@ == d2;
                        if m < matched0.len() {
                            assert(matched0[m]@ == d2);
                            assert(date_in(matched0, matched0.len() as int, d2));
                        } else {
                            assert(matched@[m] == gd);
                        }
                    }
                    if matched_date_in(v@, i as int, stream@, format@, d2) {
                        assert(date_in(matched0, matched0.len() as int, d2));
                        let m = choose|m: int|
                            0 <= m < matched0.len() && (#[trigger] matched0[m])@ == d2;
                        assert(matched@[m]@ == d2);
                        assert(date_in(matched@, matched@.len() as int, d2));
                    }
                    if gd@ == d2 {
                        assert(matched@[matched0.len() as int]@ == d2);
                        assert(date_in(matched@, matched@.len() as int, d2));
                    }
                }
                assert forall|a: int, b: int| 0 <= a < b < matched@.len() implies (
                #[trigger] matched@[a])@ != (#[trigger] matched@[b])@ by {
                    if b == matched@.len() - 1 {
                        assert(matched@[a] == matched0[a]);
                        assert(matched@[b] == gd);
                        if matched0[a]@ == gd@ {
                            assert(date_in(matched0, matched0.len() as int, gd@));
                            let j = choose|j: int|
                                0 <= j < i && (#[trigger] v@[j]).stream@ == stream@
                                    && v@[j].format@ == format@ && v@[j].date@ == gd@;
                            assert(false);
                        }
                    } else {
                        assert(matched@[a] == matched0[a]);
                        assert(matched@[b] == matched0[b]);
                    }
                }
                assert forall|s2: Seq<char>, f2: Seq<char>, d2: Seq<char>|
                    seq_has_date(kept@, s2, f2, d2) <==> (matched_date_in(v@, i + 1, s2, f2, d2)
                        && !(s2 == stream@ && f2 == format@)) by {
                    lemma_matched_date_step(v@, i as int, s2, f2, d2);
                }
            }
        } else {
            let ghost kept0 = kept@;
            let entry = DateKey {
                stream: v[i].stream.clone(),
                format: v[i].format.clone(),
                date: v[i].date.clone(),
            };
            let ghost ge = entry;
            kept.push(entry);
            proof {
                assert forall|s2: Seq<char>, f2: Seq<char>, d2: Seq<char>|
                    seq_has_date(kept@, s2, f2, d2) <==> (matched_date_in(v@, i + 1, s2, f2, d2)
                        && !(s2 == stream@ && f2 == format@)) by {
                    lemma_has_date_push(kept0, ge, s2, f2, d2);
                    lemma_matched_date_step(v@, i as int, s2, f2, d2);
                }
                assert forall|m: int| 0 <= m < kept@.len() implies matched_date_in(
                    v@,
                    i + 1,
                    (#[trigger] kept@[m]).stream@,
                    kept@[m].format@,
                    kept@[m].date@,
                ) by {
                    if m < kept0.len() {
                        assert(kept@[m] == kept0[m]);
                        let j = choose|j: int|
                            0 <= j < i && (#[trigger] v@[j]).stream@ == kept0[m].stream@
                                && v@[j].format@ == kept0[m].format@ && v@[j].date@
                                == kept0[m].date@;
                        assert(matched_date_in(v@, i + 1, kept@[m].stream@, kept@[m].format@, kept@[m].date@));
                    } else {
                        assert(kept@[m] == ge);
                        assert(v@[i as int].stream@ == ge.stream@ && v@[i as int].format@
                            == ge.format@ && v@[i as int].date@ == ge.date@);
                        assert(matched_date_in(v@, i + 1, ge.stream@, ge.format@, ge.date@));
                    }
                }
                assert forall|a: int, b: int| 0 <= a < b < kept@.len() implies !((
                #[trigger] kept@[a]).stream@ == (#[trigger] kept@[b]).stream@ && kept@[a].format@
                    == kept@[b].format@ && kept@[a].date@ == kept@[b].date@) by {
                    if b == kept@.len() - 1 {
                        assert(kept@[a] == kept0[a]);
                        assert(kept@[b] == ge);
                        if kept0[a].stream@ == ge.stream@ && kept0[a].format@ == ge.format@
                            && kept0[a].date@ == ge.date@ {
                            let j = choose|j: int|
                                0 <= j < i && (#[trigger] v@[j]).stream@ == kept0[a].stream@
                                    && v@[j].format@ == kept0[a].format@ && v@[j].date@
                                    == kept0[a].date@;
                            assert(false);
                        }
                    } else {
                        assert(kept@[a] == kept0[a]);
                        assert(kept@[b] == kept0[b]);
                    }
                }
                assert forall|d2: Seq<char>|
                    date_in(matched@, matched@.len() as int, d2) <==> matched_date_in(
                        v@,
                        i + 1,
                        stream@,
                        format@,
                        d2,
                    ) by {
                    lemma_matched_date_step(v@, i as int, stream@, format@, d2);
                }
            }
        }
        i = i + 1;
    }
    proof {
        assert forall|s2: Seq<char>, f2: Seq<char>, d2: Seq<char>|
            seq_has_date(kept@, s2, f2, d2) <==> (seq_has_date(v@, s2, f2, d2) && !(s2 == stream@
                && f2 == format@)) by {
            lemma_matched_date_full(v@, s2, f2, d2);
        }
        assert forall|d2: Seq<char>|
            date_in(matched@, matched@.len() as int, d2) <==> seq_has_date(
                v@,
                stream@,
                format@,
                d2,
            ) by {
            lemma_matched_date_full(v@, stream@, format@, d2);
        }
        assert forall|m: int| 0 <= m < matched@.len() implies spec_valid_date(
            (#[trigger] matched@[m])@,
        ) by {
            assert(date_in(matched@, matched@.len() as int, matched@[m]@));
            let j = choose|j: int|
                0 <= j < i && (#[trigger] v@[j]).stream@ == stream@ && v@[j].format@ == format@
                    && v@[j].date@ == matched@[m]@;
        }
        assert forall|m: int| 0 <= m < kept@.len() implies spec_valid_format(
            (#[trigger] kept@[m]).format@,
        ) && spec_valid_date(kept@[m].date@) by {
            let j = choose|j: int|
                0 <= j < i && (#[trigger] v@[j]).stream@ == kept@[m].stream@ && v@[j].format@
                    == kept@[m].format@ && v@[j].date@ == kept@[m].date@;
        }
    }
    (kept, matched)
}

/// Removes the three date-partitioned series of every collected date
/// partition of one stream. Each removal is independent and best-effort: a
/// failure is recorded on the surviving list and the teardown goes on.
fn drop_date_series(
    ed: &mut CounterSeries,
    eds: &mut CounterSeries,
    sd: &mut CounterSeries,
    surviving: &mut Vec<SurvivingSeries>,
    matched: &Vec<String>,
    stream: &str,
    format: &str,
)
    requires
        series_arity(*old(ed)) == 3,
        series_arity(*old(eds)) == 3,
        series_arity(*old(sd)) == 4,
        counters_bounded(series_entries(*old(ed))),
        counters_bounded(series_entries(*old(eds))),
        counters_bounded(series_entries(*old(sd))),
        spec_valid_format(format@),
        forall|m: int| 0 <= m < matched@.len() ==> spec_valid_date((#[trigger] matched@[m])@),
        forall|a: int, b: int|
            0 <= a < b < matched@.len() ==> (#[trigger] matched@[a])@ != (#[trigger] matched@[b])@,
    ensures
        series_arity(*final(ed)) == 3,
        series_arity(*final(eds)) == 3,
        series_arity(*final(sd)) == 4,
        counters_bounded(series_entries(*final(ed))),
        counters_bounded(series_entries(*final(eds))),
        counters_bounded(series_entries(*final(sd))),
        forall|s2: Seq<char>, f2: Seq<char>, d2: Seq<char>|
            #![trigger spec_event_date_key(s2, f2, d2)]
            spec_valid_format(f2) && spec_valid_date(d2) ==> (if s2 == stream@ && f2 == format@ && date_in(matched@, matched@.len() as int, d2) {
                !series_entries(*final(ed)).contains_key(spec_event_date_key(s2, f2, d2))
                    && !series_entries(*final(eds)).contains_key(spec_event_date_key(s2, f2, d2))
            } else {
                series_entries(*final(ed)).contains_key(spec_event_date_key(s2, f2, d2))
                    == series_entries(*old(ed)).contains_key(spec_event_date_key(s2, f2, d2))
                    && entry_or_zero(series_entries(*final(ed)), spec_event_date_key(s2, f2, d2))
                    == entry_or_zero(series_entries(*old(ed)), spec_event_date_key(s2, f2, d2))
                    && series_entries(*final(eds)).contains_key(spec_event_date_key(s2, f2, d2))
                    == series_entries(*old(eds)).contains_key(spec_event_date_key(s2, f2, d2))
                    && entry_or_zero(series_entries(*final(eds)), spec_event_date_key(s2, f2, d2))
                    == entry_or_zero(series_entries(*old(eds)), spec_event_date_key(s2, f2, d2))
            }),
        forall|s2: Seq<char>, d2: Seq<char>|
            #![trigger spec_storage_date_key(s2, d2)]
            spec_valid_date(d2) ==> (if s2 == stream@ && date_in(matched@, matched@.len() as int, d2) {
                !series_entries(*final(sd)).contains_key(spec_storage_date_key(s2, d2))
            } else {
                series_entries(*final(sd)).contains_key(spec_storage_date_key(s2, d2))
                    == series_entries(*old(sd)).contains_key(spec_storage_date_key(s2, d2))
                    && entry_or_zero(series_entries(*final(sd)), spec_storage_date_key(s2, d2))
                    == entry_or_zero(series_entries(*old(sd)), spec_storage_date_key(s2, d2))
            }),
        final(surviving)@.len() >= old(surviving)@.len(),
        forall|t: int|
            0 <= t < old(surviving)@.len() ==> #[trigger] final(surviving)@[t] == old(surviving)@[t],
        forall|t: int|
            old(surviving)@.len() <= t < final(surviving)@.len() ==> ((#[trigger] final(surviving)@[t]).date matches Some(d) && date_in(matched@, matched@.len() as int, d@) && ((final(surviving)@[t].family == SeriesFamily::EventsIngestedDate && !series_entries(
                *old(ed),
            ).contains_key(spec_event_date_key(stream@, format@, d@))) || (final(surviving)@[t].family == SeriesFamily::EventsIngestedSizeDate && !series_entries(
                *old(eds),
            ).contains_key(spec_event_date_key(stream@, format@, d@))) || (final(surviving)@[t].family == SeriesFamily::EventsStorageSizeDate && !series_entries(
                *old(sd),
            ).contains_key(spec_storage_date_key(stream@, d@))))),
        forall|d2: Seq<char>|
            #![trigger date_in(matched@, matched@.len() as int, d2)]
            date_in(matched@, matched@.len() as int, d2) && !series_entries(*old(ed)).contains_key(
                spec_event_date_key(stream@, format@, d2),
            ) ==> lists_date(final(surviving)@, SeriesFamily::EventsIngestedDate, d2),
        forall|d2: Seq<char>|
            #![trigger date_in(matched@, matched@.len() as int, d2)]
            date_in(matched@, matched@.len() as int, d2) && !series_entries(
                *old(eds),
            ).contains_key(spec_event_date_key(stream@, format@, d2)) ==> lists_date(
                final(surviving)@,
                SeriesFamily::EventsIngestedSizeDate,
                d2,
            ),
        forall|d2: Seq<char>|
            #![trigger date_in(matched@, matched@.len() as int, d2)]
            date_in(matched@, matched@.len() as int, d2) && !series_entries(*old(sd)).contains_key(
                spec_storage_date_key(stream@, d2),
            ) ==> lists_date(final(surviving)@, SeriesFamily::EventsStorageSizeDate, d2),
        (final(surviving)@.len() == old(surviving)@.len()) <==> (forall|m: int|
            0 <= m < matched@.len() ==> series_entries(*old(ed)).contains_key(
                spec_event_date_key(stream@, format@, (#[trigger] matched@[m])@),
            ) && series_entries(*old(eds)).contains_key(
                spec_event_date_key(stream@, format@, matched@[m]@),
            ) && series_entries(*old(sd)).contains_key(
                spec_storage_date_key(stream@, matched@[m]@),
            )),
{
    let ghost len0 = surviving@.len();
    let ghost sv0 = surviving@;
    let ghost ed0 = series_entries(*ed);
    let ghost eds0 = series_entries(*eds);
    let ghost sd0 = series_entries(*sd);
    let mut i: usize = 0;
    while i < matched.len()
        invariant
            0 <= i <= matched@.len(),
            series_arity(*ed) == 3,
            series_arity(*eds) == 3,
            series_arity(*sd) == 4,
            counters_bounded(series_entries(*ed)),
            counters_bounded(series_entries(*eds)),
            counters_bounded(series_entries(*sd)),
            spec_valid_format(format@),
            forall|m: int| 0 <= m < matched@.len() ==> spec_valid_date((#[trigger] matched@[m])@),
            forall|a: int, b: int|
                0 <= a < b < matched@.len() ==> (#[trigger] matched@[a])@ != (
                #[trigger] matched@[b])@,
            forall|s2: Seq<char>, f2: Seq<char>, d2: Seq<char>|
                #![trigger spec_event_date_key(s2, f2, d2)]
                spec_valid_format(f2) && spec_valid_date(d2) ==> (if s2 == stream@ && f2 == format@ && date_in(matched@, i as int, d2) {
                    !series_entries(*ed).contains_key(spec_event_date_key(s2, f2, d2))
                        && !series_entries(*eds).contains_key(spec_event_date_key(s2, f2, d2))
                } else {
                    series_entries(*ed).contains_key(spec_event_date_key(s2, f2, d2))
                        == ed0.contains_key(spec_event_date_key(s2, f2, d2)) && entry_or_zero(
                        series_entries(*ed),
                        spec_event_date_key(s2, f2, d2),
                    ) == entry_or_zero(ed0, spec_event_date_key(s2, f2, d2)) && series_entries(
                        *eds,
                    ).contains_key(spec_event_date_key(s2, f2, d2)) == eds0.contains_key(
                        spec_event_date_key(s2, f2, d2),
                    ) && entry_or_zero(series_entries(*eds), spec_event_date_key(s2, f2, d2))
                        == entry_or_zero(eds0, spec_event_date_key(s2, f2, d2))
                }),
            forall|s2: Seq<char>, d2: Seq<char>|
                #![trigger spec_storage_date_key(s2, d2)]
                spec_valid_date(d2) ==> (if s2 == stream@ && date_in(matched@, i as int, d2) {
                    !series_entries(*sd).contains_key(spec_storage_date_key(s2, d2))
                } else {
                    series_entries(*sd).contains_key(spec_storage_date_key(s2, d2))
                        == sd0.contains_key(spec_storage_date_key(s2, d2)) && entry_or_zero(
                        series_entries(*sd),
                        spec_storage_date_key(s2, d2),
                    ) == entry_or_zero(sd0, spec_storage_date_key(s2, d2))
                }),
            surviving@.len() >= len0,
            forall|d2: Seq<char>|
                #![trigger date_in(matched@, i as int, d2)]
                date_in(matched@, i as int, d2) && !ed0.contains_key(
                    spec_event_date_key(stream@, format@, d2),
                ) ==> lists_date(surviving@, SeriesFamily::EventsIngestedDate, d2),
            forall|d2: Seq<char>|
                #![trigger date_in(matched@, i as int, d2)]
                date_in(matched@, i as int, d2) && !eds0.contains_key(
                    spec_event_date_key(stream@, format@, d2),
                ) ==> lists_date(surviving@, SeriesFamily::EventsIngestedSizeDate, d2),
            forall|d2: Seq<char>|
                #![trigger date_in(matched@, i as int, d2)]
                date_in(matched@, i as int, d2) && !sd0.contains_key(
                    spec_storage_date_key(stream@, d2),
                ) ==> lists_date(surviving@, SeriesFamily::EventsStorageSizeDate, d2),
            forall|t: int| 0 <= t < len0 ==> #[trigger] surviving@[t] == sv0[t],
            forall|t: int|
                len0 <= t < surviving@.len() ==> ((#[trigger] surviving@[t]).date matches Some(d)
                    && date_in(matched@, i as int, d@) && ((surviving@[t].family
                    == SeriesFamily::EventsIngestedDate && !ed0.contains_key(
                    spec_event_date_key(stream@, format@, d@),
                )) || (surviving@[t].family == SeriesFamily::EventsIngestedSizeDate
                    && !eds0.contains_key(spec_event_date_key(stream@, format@, d@))) || (
                surviving@[t].family == SeriesFamily::EventsStorageSizeDate && !sd0.contains_key(
                    spec_storage_date_key(stream@, d@),
                )))),
            (surviving@.len() == len0) <==> (forall|m: int|
                0 <= m < i ==> ed0.contains_key(
                    spec_event_date_key(stream@, format@, (#[trigger] matched@[m])@),
                ) && eds0.contains_key(spec_event_date_key(stream@, format@, matched@[m]@))
                    && sd0.contains_key(spec_storage_date_key(stream@, matched@[m]@))),
        decreases matched@.len() - i,
    {
        let ghost d_now = matched@[i as int]@;
        let ghost slen = surviving@.len();
        proof {
            assert(spec_valid_date(d_now));
            if date_in(matched@, i as int, d_now) {
                let m = choose|m: int| 0 <= m < i && (#[trigger] matched@[m])@ == d_now;
                assert(false);
            }
            assert(series_entries(*ed).contains_key(spec_event_date_key(stream@, format@, d_now))
                == ed0.contains_key(spec_event_date_key(stream@, format@, d_now)));
            assert(series_entries(*eds).contains_key(spec_event_date_key(stream@, format@, d_now))
                == eds0.contains_key(spec_event_date_key(stream@, format@, d_now)));
            assert(series_entries(*sd).contains_key(spec_storage_date_key(stream@, d_now))
                == sd0.contains_key(spec_storage_date_key(stream@, d_now)));
        }
        let eld = event_labels_date(stream, format, matched[i].as_str());
        let sld = storage_size_labels_date(stream, matched[i].as_str());
        let ok_a = series_drop(ed, &eld);
        if !ok_a {
            let entry = SurvivingSeries {
                family: SeriesFamily::EventsIngestedDate,
                date: Some(matched[i].clone()),
            };
            let ghost ge = entry;
            let ghost pre = surviving@;
            surviving.push(entry);
            proof {
                lemma_lists_push_preserves(pre, ge);
            }
        }
        let ok_b = series_drop(eds, &eld);
        if !ok_b {
            let entry = SurvivingSeries {
                family: SeriesFamily::EventsIngestedSizeDate,
                date: Some(matched[i].clone()),
            };
            let ghost ge = entry;
            let ghost pre = surviving@;
            surviving.push(entry);
            proof {
                lemma_lists_push_preserves(pre, ge);
            }
        }
        let ok_c = series_drop(sd, &sld);
        if !ok_c {
            let entry = SurvivingSeries {
                family: SeriesFamily::EventsStorageSizeDate,
                date: Some(matched[i].clone()),
            };
            let ghost ge = entry;
            let ghost pre = surviving@;
            surviving.push(entry);
            proof {
                lemma_lists_push_preserves(pre, ge);
            }
        }
        proof {
            assert forall|s2: Seq<char>, f2: Seq<char>, d2: Seq<char>|
                spec_valid_format(f2) && spec_valid_date(d2) ==> (if s2 == stream@ && f2 == format@ && date_in(matched@, i + 1, d2) {
                    !series_entries(*ed).contains_key(spec_event_date_key(s2, f2, d2))
                        && !series_entries(*eds).contains_key(spec_event_date_key(s2, f2, d2))
                } else {
                    series_entries(*ed).contains_key(spec_event_date_key(s2, f2, d2))
                        == ed0.contains_key(spec_event_date_key(s2, f2, d2)) && entry_or_zero(
                        series_entries(*ed),
                        spec_event_date_key(s2, f2, d2),
                    ) == entry_or_zero(ed0, spec_event_date_key(s2, f2, d2)) && series_entries(
                        *eds,
                    ).contains_key(spec_event_date_key(s2, f2, d2)) == eds0.contains_key(
                        spec_event_date_key(s2, f2, d2),
                    ) && entry_or_zero(series_entries(*eds), spec_event_date_key(s2, f2, d2))
                        == entry_or_zero(eds0, spec_event_date_key(s2, f2, d2))
                }) by {
                if spec_valid_format(f2) && spec_valid_date(d2) {
                    lemma_date_in_step(matched@, i as int, d2);
                    lemma_event_date_key_inj(s2, f2, d2, stream@, format@, d_now);
                }
            }
            assert forall|s2: Seq<char>, d2: Seq<char>|
                spec_valid_date(d2) ==> (if s2 == stream@ && date_in(matched@, i + 1, d2) {
                    !series_entries(*sd).contains_key(spec_storage_date_key(s2, d2))
                } else {
                    series_entries(*sd).contains_key(spec_storage_date_key(s2, d2))
                        == sd0.contains_key(spec_storage_date_key(s2, d2)) && entry_or_zero(
                        series_entries(*sd),
                        spec_storage_date_key(s2, d2),
                    ) == entry_or_zero(sd0, spec_storage_date_key(s2, d2))
                }) by {
                if spec_valid_date(d2) {
                    lemma_date_in_step(matched@, i as int, d2);
                    lemma_storage_date_key_inj(s2, d2, stream@, d_now);
                }
            }
            assert forall|t: int|
                len0 <= t < surviving@.len() implies ((#[trigger] surviving@[t]).date matches Some(
                d,
            ) && date_in(matched@, i + 1, d@) && ((surviving@[t].family
                == SeriesFamily::EventsIngestedDate && !ed0.contains_key(
                spec_event_date_key(stream@, format@, d@),
            )) || (surviving@[t].family == SeriesFamily::EventsIngestedSizeDate
                && !eds0.contains_key(spec_event_date_key(stream@, format@, d@))) || (
            surviving@[t].family == SeriesFamily::EventsStorageSizeDate && !sd0.contains_key(
                spec_storage_date_key(stream@, d@),
            )))) by {
                lemma_date_in_step(matched@, i as int, surviving@[t].date->Some_0@);
            }
            assert forall|d2: Seq<char>|
                date_in(matched@, i + 1, d2) && !ed0.contains_key(
                    spec_event_date_key(stream@, format@, d2),
                ) implies lists_date(surviving@, SeriesFamily::EventsIngestedDate, d2) by {
                lemma_date_in_step(matched@, i as int, d2);
            }
            assert forall|d2: Seq<char>|
                date_in(matched@, i + 1, d2) && !eds0.contains_key(
                    spec_event_date_key(stream@, format@, d2),
                ) implies lists_date(surviving@, SeriesFamily::EventsIngestedSizeDate, d2) by {
                lemma_date_in_step(matched@, i as int, d2);
            }
            assert forall|d2: Seq<char>|
                date_in(matched@, i + 1, d2) && !sd0.contains_key(
                    spec_storage_date_key(stream@, d2),
                ) implies lists_date(surviving@, SeriesFamily::EventsStorageSizeDate, d2) by {
                lemma_date_in_step(matched@, i as int, d2);
            }
            assert((surviving@.len() == slen) <==> (ok_a && ok_b && ok_c));
            assert((surviving@.len() == len0) <==> (forall|m: int|
                0 <= m < i + 1 ==> ed0.contains_key(
                    spec_event_date_key(stream@, format@, (#[trigger] matched@[m])@),
                ) && eds0.contains_key(spec_event_date_key(stream@, format@, matched@[m]@))
                    && sd0.contains_key(spec_storage_date_key(stream@, matched@[m]@))));
        }
        i = i + 1;
    }
}

/// Removes the nine non-date-partitioned series of one stream's counter
/// set, each removal independent and best-effort, in the fixed order
/// (events, ingestion-size, storage-size per tier); reports per series
/// whether it existed.
fn drop_stream_series(
    ei: &mut CounterSeries,
    eis: &mut CounterSeries,
    ss: &mut CounterSeries,
    ed: &mut CounterSeries,
    eds: &mut CounterSeries,
    dss: &mut CounterSeries,
    lei: &mut CounterSeries,
    leis: &mut CounterSeries,
    less: &mut CounterSeries,
    stream: &str,
    format: &str,
) -> (r: (bool, bool, bool, bool, bool, bool, bool, bool, bool))
    requires
        series_arity(*old(ei)) == 2,
        series_arity(*old(eis)) == 2,
        series_arity(*old(ed)) == 2,
        series_arity(*old(eds)) == 2,
        series_arity(*old(lei)) == 2,
        series_arity(*old(leis)) == 2,
        series_arity(*old(ss)) == 3,
        series_arity(*old(dss)) == 3,
        series_arity(*old(less)) == 3,
        counters_bounded(series_entries(*old(ei))),
        counters_bounded(series_entries(*old(eis))),
        counters_bounded(series_entries(*old(ss))),
        counters_bounded(series_entries(*old(ed))),
        counters_bounded(series_entries(*old(eds))),
        counters_bounded(series_entries(*old(dss))),
        counters_bounded(series_entries(*old(lei))),
        counters_bounded(series_entries(*old(leis))),
        counters_bounded(series_entries(*old(less))),
    ensures
        series_arity(*final(ei)) == 2,
        series_arity(*final(eis)) == 2,
        series_arity(*final(ed)) == 2,
        series_arity(*final(eds)) == 2,
        series_arity(*final(lei)) == 2,
        series_arity(*final(leis)) == 2,
        series_arity(*final(ss)) == 3,
        series_arity(*final(dss)) == 3,
        series_arity(*final(less)) == 3,
        counters_bounded(series_entries(*final(ei))),
        counters_bounded(series_entries(*final(eis))),
        counters_bounded(series_entries(*final(ss))),
        counters_bounded(series_entries(*final(ed))),
        counters_bounded(series_entries(*final(eds))),
        counters_bounded(series_entries(*final(dss))),
        counters_bounded(series_entries(*final(lei))),
        counters_bounded(series_entries(*final(leis))),
        counters_bounded(series_entries(*final(less))),
        series_entries(*final(ei)) == series_entries(*old(ei)).remove(
            spec_event_key(stream@, format@),
        ),
        series_entries(*final(eis)) == series_entries(*old(eis)).remove(
            spec_event_key(stream@, format@),
        ),
        series_entries(*final(ed)) == series_entries(*old(ed)).remove(
            spec_event_key(stream@, format@),
        ),
        series_entries(*final(eds)) == series_entries(*old(eds)).remove(
            spec_event_key(stream@, format@),
        ),
        series_entries(*final(lei)) == series_entries(*old(lei)).remove(
            spec_event_key(stream@, format@),
        ),
        series_entries(*final(leis)) == series_entries(*old(leis)).remove(
            spec_event_key(stream@, format@),
        ),
        series_entries(*final(ss)) == series_entries(*old(ss)).remove(spec_storage_key(stream@)),
        series_entries(*final(dss)) == series_entries(*old(dss)).remove(spec_storage_key(stream@)),
        series_entries(*final(less)) == series_entries(*old(less)).remove(
            spec_storage_key(stream@),
        ),
        r.0 == series_entries(*old(ei)).contains_key(spec_event_key(stream@, format@)),
        r.1 == series_entries(*old(eis)).contains_key(spec_event_key(stream@, format@)),
        r.2 == series_entries(*old(ss)).contains_key(spec_storage_key(stream@)),
        r.3 == series_entries(*old(ed)).contains_key(spec_event_key(stream@, format@)),
        r.4 == series_entries(*old(eds)).contains_key(spec_event_key(stream@, format@)),
        r.5 == series_entries(*old(dss)).contains_key(spec_storage_key(stream@)),
        r.6 == series_entries(*old(lei)).contains_key(spec_event_key(stream@, format@)),
        r.7 == series_entries(*old(leis)).contains_key(spec_event_key(stream@, format@)),
        r.8 == series_entries(*old(less)).contains_key(spec_storage_key(stream@)),
{
    let el = event_labels(stream, format);
    let sl = storage_size_labels(stream);
    let ok_ei = series_drop(ei, &el);
    let ok_eis = series_drop(eis, &el);
    let ok_ss = series_drop(ss, &sl);
    let ok_ed = series_drop(ed, &el);
    let ok_eds = series_drop(eds, &el);
    let ok_dss = series_drop(dss, &sl);
    let ok_lei = series_drop(lei, &el);
    let ok_leis = series_drop(leis, &el);
    let ok_less = series_drop(less, &sl);
    (ok_ei, ok_eis, ok_ss, ok_ed, ok_eds, ok_dss, ok_lei, ok_leis, ok_less)
}

/// The Stream Metrics Accounting Manager: owns the 12 counter-series
/// families of the registry instance injected at construction and
/// coordinates their lazy creation, update and teardown.
pub struct StreamMetrics {
    events_ingested: CounterSeries,
    events_ingested_size: CounterSeries,
    storage_size: CounterSeries,
    events_deleted: CounterSeries,
    events_deleted_size: CounterSeries,
    deleted_events_storage_size: CounterSeries,
    lifetime_events_ingested: CounterSeries,
    lifetime_events_ingested_size: CounterSeries,
    lifetime_events_storage_size: CounterSeries,
    events_ingested_date: CounterSeries,
    events_ingested_size_date: CounterSeries,
    events_storage_size_date: CounterSeries,
    live: Vec<StreamKey>,
    dates: Vec<DateKey>,
}

impl StreamMetrics {
    /// Well-formedness: every family keeps its label arity, every counter
    /// value is a non-negative 64-bit integer, and no date partition is
    /// indexed twice.
    pub closed spec fn wf(&self) -> bool {
        &&& series_arity(self.events_ingested) == 2
        &&& series_arity(self.events_ingested_size) == 2
        &&& series_arity(self.events_deleted) == 2
        &&& series_arity(self.events_deleted_size) == 2
        &&& series_arity(self.lifetime_events_ingested) == 2
        &&& series_arity(self.lifetime_events_ingested_size) == 2
        &&& series_arity(self.storage_size) == 3
        &&& series_arity(self.deleted_events_storage_size) == 3
        &&& series_arity(self.lifetime_events_storage_size) == 3
        &&& series_arity(self.events_ingested_date) == 3
        &&& series_arity(self.events_ingested_size_date) == 3
        &&& series_arity(self.events_storage_size_date) == 4
        &&& counters_bounded(series_entries(self.events_ingested))
        &&& counters_bounded(series_entries(self.events_ingested_size))
        &&& counters_bounded(series_entries(self.storage_size))
        &&& counters_bounded(series_entries(self.events_deleted))
        &&& counters_bounded(series_entries(self.events_deleted_size))
        &&& counters_bounded(series_entries(self.deleted_events_storage_size))
        &&& counters_bounded(series_entries(self.lifetime_events_ingested))
        &&& counters_bounded(series_entries(self.lifetime_events_ingested_size))
        &&& counters_bounded(series_entries(self.lifetime_events_storage_size))
        &&& counters_bounded(series_entries(self.events_ingested_date))
        &&& counters_bounded(series_entries(self.events_ingested_size_date))
        &&& counters_bounded(series_entries(self.events_storage_size_date))
        &&& forall|i: int, j: int|
            0 <= i < j < self.dates@.len() ==> !((#[trigger] self.dates@[i]).stream@
                == (#[trigger] self.dates@[j]).stream@ && self.dates@[i].format@
                == self.dates@[j].format@ && self.dates@[i].date@ == self.dates@[j].date@)
        &&& forall|i: int|
            0 <= i < self.live@.len() ==> spec_valid_format((#[trigger] self.live@[i]).format@)
        &&& forall|i: int|
            0 <= i < self.dates@.len() ==> spec_valid_format((#[trigger] self.dates@[i]).format@)
                && spec_valid_date(self.dates@[i].date@)
        &&& forall|i: int|
            0 <= i < self.live@.len() ==> self.counter_set_present(
                (#[trigger] self.live@[i]).stream@,
                self.live@[i].format@,
            )
    }

    /// A freshly constructed manager: no series exists and nothing is live.
    pub closed spec fn is_fresh(&self) -> bool {
        &&& series_entries(self.events_ingested) == Map::<Seq<char>, int>::empty()
        &&& series_entries(self.events_ingested_size) == Map::<Seq<char>, int>::empty()
        &&& series_entries(self.storage_size) == Map::<Seq<char>, int>::empty()
        &&& series_entries(self.events_deleted) == Map::<Seq<char>, int>::empty()
        &&& series_entries(self.events_deleted_size) == Map::<Seq<char>, int>::empty()
        &&& series_entries(self.deleted_events_storage_size) == Map::<Seq<char>, int>::empty()
        &&& series_entries(self.lifetime_events_ingested) == Map::<Seq<char>, int>::empty()
        &&& series_entries(self.lifetime_events_ingested_size) == Map::<
            Seq<char>,
            int,
        >::empty()
        &&& series_entries(self.lifetime_events_storage_size) == Map::<
            Seq<char>,
            int,
        >::empty()
        &&& series_entries(self.events_ingested_date) == Map::<Seq<char>, int>::empty()
        &&& series_entries(self.events_ingested_size_date) == Map::<Seq<char>, int>::empty()
        &&& series_entries(self.events_storage_size_date) == Map::<Seq<char>, int>::empty()
        &&& self.live@.len() == 0
        &&& self.dates@.len() == 0
    }

    /// Whether the counter set of `(stream, format)` exists: the stream has
    /// been observed since its last teardown.
    pub closed spec fn is_live(&self, stream: Seq<char>, format: Seq<char>) -> bool {
        seq_has_key(self.live@, stream, format)
    }

    /// Whether `date` is an observed partition of `(stream, format)`.
    pub closed spec fn observed_date(
        &self,
        stream: Seq<char>,
        format: Seq<char>,
        date: Seq<char>,
    ) -> bool {
        seq_has_date(self.dates@, stream, format, date)
    }

    /// Current-tier event count of one stream.
    pub closed spec fn current_events(&self, stream: Seq<char>, format: Seq<char>) -> int {
        entry_or_zero(series_entries(self.events_ingested), spec_event_key(stream, format))
    }

    /// Current-tier ingested byte volume of one stream.
    pub closed spec fn current_ingestion(&self, stream: Seq<char>, format: Seq<char>) -> int {
        entry_or_zero(series_entries(self.events_ingested_size), spec_event_key(stream, format))
    }

    /// Current-tier stored byte volume of one stream (shared by all its
    /// formats: storage accounting is always against the on-disk columnar
    /// representation).
    pub closed spec fn current_storage(&self, stream: Seq<char>) -> int {
        entry_or_zero(series_entries(self.storage_size), spec_storage_key(stream))
    }

    /// Deleted-tier event count of one stream.
    pub closed spec fn deleted_events(&self, stream: Seq<char>, format: Seq<char>) -> int {
        entry_or_zero(series_entries(self.events_deleted), spec_event_key(stream, format))
    }

    /// Deleted-tier ingested byte volume of one stream.
    pub closed spec fn deleted_ingestion(&self, stream: Seq<char>, format: Seq<char>) -> int {
        entry_or_zero(series_entries(self.events_deleted_size), spec_event_key(stream, format))
    }

    /// Deleted-tier stored byte volume of one stream.
    pub closed spec fn deleted_storage(&self, stream: Seq<char>) -> int {
        entry_or_zero(series_entries(self.deleted_events_storage_size), spec_storage_key(stream))
    }

    /// Lifetime event count of one stream.
    pub closed spec fn lifetime_events(&self, stream: Seq<char>, format: Seq<char>) -> int {
        entry_or_zero(series_entries(self.lifetime_events_ingested), spec_event_key(stream, format))
    }

    /// Lifetime ingested byte volume of one stream.
    pub closed spec fn lifetime_ingestion(&self, stream: Seq<char>, format: Seq<char>) -> int {
        entry_or_zero(
            series_entries(self.lifetime_events_ingested_size),
            spec_event_key(stream, format),
        )
    }

    /// Lifetime stored byte volume of one stream.
    pub closed spec fn lifetime_storage(&self, stream: Seq<char>) -> int {
        entry_or_zero(series_entries(self.lifetime_events_storage_size), spec_storage_key(stream))
    }

    /// Event count of one date partition of a stream.
    pub closed spec fn date_events(
        &self,
        stream: Seq<char>,
        format: Seq<char>,
        date: Seq<char>,
    ) -> int {
        entry_or_zero(
            series_entries(self.events_ingested_date),
            spec_event_date_key(stream, format, date),
        )
    }

    /// Ingested byte volume of one date partition of a stream.
    pub closed spec fn date_ingestion(
        &self,
        stream: Seq<char>,
        format: Seq<char>,
        date: Seq<char>,
    ) -> int {
        entry_or_zero(
            series_entries(self.events_ingested_size_date),
            spec_event_date_key(stream, format, date),
        )
    }

    /// Stored byte volume of one date partition of a stream.
    pub closed spec fn date_storage(&self, stream: Seq<char>, date: Seq<char>) -> int {
        entry_or_zero(
            series_entries(self.events_storage_size_date),
            spec_storage_date_key(stream, date),
        )
    }

    /// No series of the nine non-date families exists for this stream, as a
    /// completed teardown leaves them.
    pub closed spec fn series_absent(&self, stream: Seq<char>, format: Seq<char>) -> bool {
        &&& !series_entries(self.events_ingested).contains_key(spec_event_key(stream, format))
        &&& !series_entries(self.events_ingested_size).contains_key(spec_event_key(stream, format))
        &&& !series_entries(self.storage_size).contains_key(spec_storage_key(stream))
        &&& !series_entries(self.events_deleted).contains_key(spec_event_key(stream, format))
        &&& !series_entries(self.events_deleted_size).contains_key(spec_event_key(stream, format))
        &&& !series_entries(self.deleted_events_storage_size).contains_key(
            spec_storage_key(stream),
        )
        &&& !series_entries(self.lifetime_events_ingested).contains_key(
            spec_event_key(stream, format),
        )
        &&& !series_entries(self.lifetime_events_ingested_size).contains_key(
            spec_event_key(stream, format),
        )
        &&& !series_entries(self.lifetime_events_storage_size).contains_key(
            spec_storage_key(stream),
        )
    }

    /// The assembled accounting view of one stream, each tier read from its
    /// three series (an absent series reads as zero).
    pub open spec fn spec_full_stats(&self, stream: Seq<char>, format: Seq<char>) -> FullStats {
        FullStats {
            lifetime_stats: Stats {
                events: self.lifetime_events(stream, format) as u64,
                ingestion: self.lifetime_ingestion(stream, format) as u64,
                storage: self.lifetime_storage(stream) as u64,
            },
            current_stats: Stats {
                events: self.current_events(stream, format) as u64,
                ingestion: self.current_ingestion(stream, format) as u64,
                storage: self.current_storage(stream) as u64,
            },
            deleted_stats: Stats {
                events: self.deleted_events(stream, format) as u64,
                ingestion: self.deleted_ingestion(stream, format) as u64,
                storage: self.deleted_storage(stream) as u64,
            },
        }
    }

    /// The snapshot a reader gets: the assembled view when the stream's
    /// counter set exists, "not found" otherwise.
    pub open spec fn spec_stats(&self, stream: Seq<char>, format: Seq<char>) -> Option<FullStats> {
        if self.is_live(stream, format) {
            Some(self.spec_full_stats(stream, format))
        } else {
            None
        }
    }

    /// A fresh manager reads as empty: nothing is live, no date partition
    /// is observed, and every counter of every stream is zero.
    pub proof fn lemma_fresh_is_empty(self, stream: Seq<char>, format: Seq<char>, date: Seq<char>)
        requires
            self.is_fresh(),
        ensures
            !self.is_live(stream, format),
            !self.observed_date(stream, format, date),
            self.spec_stats(stream, format) is None,
            self.series_absent(stream, format),
            self.current_events(stream, format) == 0,
            self.current_ingestion(stream, format) == 0,
            self.current_storage(stream) == 0,
            self.deleted_events(stream, format) == 0,
            self.deleted_ingestion(stream, format) == 0,
            self.deleted_storage(stream) == 0,
            self.lifetime_events(stream, format) == 0,
            self.lifetime_ingestion(stream, format) == 0,
            self.lifetime_storage(stream) == 0,
            self.date_events(stream, format, date) == 0,
            self.date_ingestion(stream, format, date) == 0,
            self.date_storage(stream, date) == 0,
    {
    }

    /// Every counter of a well-formed manager is a non-negative 64-bit
    /// value, so the unsigned fields of a snapshot report the abstract
    /// counters without loss.
    pub proof fn lemma_wf_counter_bounds(self, stream: Seq<char>, format: Seq<char>, date: Seq<char>)
        requires
            self.wf(),
        ensures
            0 <= self.current_events(stream, format) <= i64::MAX,
            0 <= self.current_ingestion(stream, format) <= i64::MAX,
            0 <= self.current_storage(stream) <= i64::MAX,
            0 <= self.deleted_events(stream, format) <= i64::MAX,
            0 <= self.deleted_ingestion(stream, format) <= i64::MAX,
            0 <= self.deleted_storage(stream) <= i64::MAX,
            0 <= self.lifetime_events(stream, format) <= i64::MAX,
            0 <= self.lifetime_ingestion(stream, format) <= i64::MAX,
            0 <= self.lifetime_storage(stream) <= i64::MAX,
            0 <= self.date_events(stream, format, date) <= i64::MAX,
            0 <= self.date_ingestion(stream, format, date) <= i64::MAX,
            0 <= self.date_storage(stream, date) <= i64::MAX,
    {
    }

    /// A live stream's whole counter set exists: the snapshot reader never
    /// assembles a view over an absent series.
    pub proof fn lemma_live_counter_set(self, stream: Seq<char>, format: Seq<char>)
        requires
            self.wf(),
            self.is_live(stream, format),
        ensures
            self.counter_set_present(stream, format),
    {
        let j = choose|j: int|
            0 <= j < self.live@.len() && (#[trigger] self.live@[j]).stream@ == stream
                && self.live@[j].format@ == format;
    }

    /// Teardown hides the stream from the snapshot reader: a key outside
    /// the live set — as `delete_stats` leaves it, unless a racing ingest
    /// has revived it — is reported "not found", never as zero stats.
    pub proof fn lemma_deleted_stream_not_found(self, stream: Seq<char>, format: Seq<char>)
        requires
            !self.is_live(stream, format),
        ensures
            self.spec_stats(stream, format) is None,
    {
    }

    /// Revival is zero-based: a stream whose series were all removed reads
    /// as zero in every tier, so an ingest that races a teardown counts up
    /// from zero and never from retained values.
    pub proof fn lemma_revival_zero_based(self, stream: Seq<char>, format: Seq<char>)
        requires
            self.series_absent(stream, format),
        ensures
            self.spec_full_stats(stream, format) == (FullStats {
                lifetime_stats: (Stats { events: 0, ingestion: 0, storage: 0 }),
                current_stats: (Stats { events: 0, ingestion: 0, storage: 0 }),
                deleted_stats: (Stats { events: 0, ingestion: 0, storage: 0 }),
            }),
    {
    }

    /// Creates the manager with a freshly constructed registry instance:
    /// all 12 families exist and hold no series. Returns `None` when the
    /// underlying registry refuses a family descriptor.
    pub fn new() -> (r: Option<StreamMetrics>)
        ensures
            r is Some,
            r matches Some(m) ==> m.wf() && m.is_fresh(),
    {
        let labels_ef = ["stream", "format"];
        let labels_st = ["type", "stream", "format"];
        let labels_efd = ["stream", "format", "date"];
        let labels_std = ["type", "stream", "format", "date"];
        proof {
            reveal_strlit("stream");
            reveal_strlit("format");
            reveal_strlit("type");
            reveal_strlit("date");
            assert(spec_label_name_ok("stream"@));
            assert(spec_label_name_ok("format"@));
            assert(spec_label_name_ok("type"@));
            assert(spec_label_name_ok("date"@));
            assert("stream"@[0] == 's' && "format"@[0] == 'f');
            assert("type"@[0] == 't' && "date"@[0] == 'd');
            assert(views_of(labels_ef@) =~= seq!["stream"@, "format"@]);
            assert(views_of(labels_st@) =~= seq!["type"@, "stream"@, "format"@]);
            assert(views_of(labels_efd@) =~= seq!["stream"@, "format"@, "date"@]);
            assert(views_of(labels_std@) =~= seq!["type"@, "stream"@, "format"@, "date"@]);
            reveal_strlit("events_ingested");
            reveal_strlit("Events ingested for a stream and format");
            assert(spec_metric_name_ok("events_ingested"@));
            assert(spec_descriptor_ok(
                "events_ingested"@,
                "Events ingested for a stream and format"@,
                views_of(labels_ef@),
            ));
            reveal_strlit("events_ingested_size");
            reveal_strlit("Ingested byte volume for a stream and format");
            assert(spec_metric_name_ok("events_ingested_size"@));
            assert(spec_descriptor_ok(
                "events_ingested_size"@,
                "Ingested byte volume for a stream and format"@,
                views_of(labels_ef@),
            ));
            reveal_strlit("storage_size");
            reveal_strlit("Stored byte volume for a stream");
            assert(spec_metric_name_ok("storage_size"@));
            assert(spec_descriptor_ok(
                "storage_size"@,
                "Stored byte volume for a stream"@,
                views_of(labels_st@),
            ));
            reveal_strlit("events_deleted");
            reveal_strlit("Events deleted from a stream and format");
            assert(spec_metric_name_ok("events_deleted"@));
            assert(spec_descriptor_ok(
                "events_deleted"@,
                "Events deleted from a stream and format"@,
                views_of(labels_ef@),
            ));
            reveal_strlit("events_deleted_size");
            reveal_strlit("Deleted ingested byte volume for a stream and format");
            assert(spec_metric_name_ok("events_deleted_size"@));
            assert(spec_descriptor_ok(
                "events_deleted_size"@,
                "Deleted ingested byte volume for a stream and format"@,
                views_of(labels_ef@),
            ));
            reveal_strlit("deleted_events_storage_size");
            reveal_strlit("Deleted stored byte volume for a stream");
            assert(spec_metric_name_ok("deleted_events_storage_size"@));
            assert(spec_descriptor_ok(
                "deleted_events_storage_size"@,
                "Deleted stored byte volume for a stream"@,
                views_of(labels_st@),
            ));
            reveal_strlit("lifetime_events_ingested");
            reveal_strlit("Lifetime events ingested for a stream and format");
            assert(spec_metric_name_ok("lifetime_events_ingested"@));
            assert(spec_descriptor_ok(
                "lifetime_events_ingested"@,
                "Lifetime events ingested for a stream and format"@,
                views_of(labels_ef@),
            ));
            reveal_strlit("lifetime_events_ingested_size");
            reveal_strlit("Lifetime ingested byte volume for a stream and format");
            assert(spec_metric_name_ok("lifetime_events_ingested_size"@));
            assert(spec_descriptor_ok(
                "lifetime_events_ingested_size"@,
                "Lifetime ingested byte volume for a stream and format"@,
                views_of(labels_ef@),
            ));
            reveal_strlit("lifetime_events_storage_size");
            reveal_strlit("Lifetime stored byte volume for a stream");
            assert(spec_metric_name_ok("lifetime_events_storage_size"@));
            assert(spec_descriptor_ok(
                "lifetime_events_storage_size"@,
                "Lifetime stored byte volume for a stream"@,
                views_of(labels_st@),
            ));
            reveal_strlit("events_ingested_date");
            reveal_strlit("Events ingested for a stream, format and date");
            assert(spec_metric_name_ok("events_ingested_date"@));
            assert(spec_descriptor_ok(
                "events_ingested_date"@,
                "Events ingested for a stream, format and date"@,
                views_of(labels_efd@),
            ));
            reveal_strlit("events_ingested_size_date");
            reveal_strlit("Ingested byte volume for a stream, format and date");
            assert(spec_metric_name_ok("events_ingested_size_date"@));
            assert(spec_descriptor_ok(
                "events_ingested_size_date"@,
                "Ingested byte volume for a stream, format and date"@,
                views_of(labels_efd@),
            ));
            reveal_strlit("events_storage_size_date");
            reveal_strlit("Stored byte volume for a stream and date");
            assert(spec_metric_name_ok("events_storage_size_date"@));
            assert(spec_descriptor_ok(
                "events_storage_size_date"@,
                "Stored byte volume for a stream and date"@,
                views_of(labels_std@),
            ));
        }
        let events_ingested = match CounterSeries::new(
            "events_ingested",
            "Events ingested for a stream and format",
            &labels_ef,
        ) {
            Some(v) => v,
            None => {
                proof {
                    assert(false);
                }
                return None;
            },
        };
        let events_ingested_size = match CounterSeries::new(
            "events_ingested_size",
            "Ingested byte volume for a stream and format",
            &labels_ef,
        ) {
            Some(v) => v,
            None => {
                proof {
                    assert(false);
                }
                return None;
            },
        };
        let storage_size = match CounterSeries::new(
            "storage_size",
            "Stored byte volume for a stream",
            &labels_st,
        ) {
            Some(v) => v,
            None => {
                proof {
                    assert(false);
                }
                return None;
            },
        };
        let events_deleted = match CounterSeries::new(
            "events_deleted",
            "Events deleted from a stream and format",
            &labels_ef,
        ) {
            Some(v) => v,
            None => {
                proof {
                    assert(false);
                }
                return None;
            },
        };
        let events_deleted_size = match CounterSeries::new(
            "events_deleted_size",
            "Deleted ingested byte volume for a stream and format",
            &labels_ef,
        ) {
            Some(v) => v,
            None => {
                proof {
                    assert(false);
                }
                return None;
            },
        };
        let deleted_events_storage_size = match CounterSeries::new(
            "deleted_events_storage_size",
            "Deleted stored byte volume for a stream",
            &labels_st,
        ) {
            Some(v) => v,
            None => {
                proof {
                    assert(false);
                }
                return None;
            },
        };
        let lifetime_events_ingested = match CounterSeries::new(
            "lifetime_events_ingested",
            "Lifetime events ingested for a stream and format",
            &labels_ef,
        ) {
            Some(v) => v,
            None => {
                proof {
                    assert(false);
                }
                return None;
            },
        };
        let lifetime_events_ingested_size = match CounterSeries::new(
            "lifetime_events_ingested_size",
            "Lifetime ingested byte volume for a stream and format",
            &labels_ef,
        ) {
            Some(v) => v,
            None => {
                proof {
                    assert(false);
                }
                return None;
            },
        };
        let lifetime_events_storage_size = match CounterSeries::new(
            "lifetime_events_storage_size",
            "Lifetime stored byte volume for a stream",
            &labels_st,
        ) {
            Some(v) => v,
            None => {
                proof {
                    assert(false);
                }
                return None;
            },
        };
        let events_ingested_date = match CounterSeries::new(
            "events_ingested_date",
            "Events ingested for a stream, format and date",
            &labels_efd,
        ) {
            Some(v) => v,
            None => {
                proof {
                    assert(false);
                }
                return None;
            },
        };
        let events_ingested_size_date = match CounterSeries::new(
            "events_ingested_size_date",
            "Ingested byte volume for a stream, format and date",
            &labels_efd,
        ) {
            Some(v) => v,
            None => {
                proof {
                    assert(false);
                }
                return None;
            },
        };
        let events_storage_size_date = match CounterSeries::new(
            "events_storage_size_date",
            "Stored byte volume for a stream and date",
            &labels_std,
        ) {
            Some(v) => v,
            None => {
                proof {
                    assert(false);
                }
                return None;
            },
        };
        Some(
            StreamMetrics {
                events_ingested,
                events_ingested_size,
                storage_size,
                events_deleted,
                events_deleted_size,
                deleted_events_storage_size,
                lifetime_events_ingested,
                lifetime_events_ingested_size,
                lifetime_events_storage_size,
                events_ingested_date,
                events_ingested_size_date,
                events_storage_size_date,
                live: Vec::new(),
                dates: Vec::new(),
            },
        )
    }

    /// Records one ingested event of `bytes` bytes for `(stream, format)`
    /// under the date partition `date` (the current day, supplied by the
    /// caller).
    ///
    /// The lifetime and current event and ingestion-byte counters and their
    /// date-partitioned counterparts move up together, saturating at the
    /// 64-bit registry ceiling, and the stream's whole counter set is made
    /// to exist: creation is lazy on the first observed event, and a set
    /// removed by a racing teardown is re-created zero-based. The format
    /// must be a token of the static enumeration and the date a
    /// calendar-day key, which keeps distinct tuples on distinct series.
    pub fn record_ingest(&mut self, stream: &str, format: &str, date: &str, bytes: u64)
        requires
            old(self).wf(),
            bytes <= i64::MAX,
            spec_valid_format(format@),
            spec_valid_date(date@),
        ensures
            final(self).wf(),
            forall|s2: Seq<char>, f2: Seq<char>|
                #![trigger final(self).is_live(s2, f2)]
                final(self).is_live(s2, f2) <==> (old(self).is_live(s2, f2) || (s2 == stream@
                    && f2 == format@)),
            forall|s2: Seq<char>, f2: Seq<char>, d2: Seq<char>|
                #![trigger final(self).observed_date(s2, f2, d2)]
                final(self).observed_date(s2, f2, d2) <==> (old(self).observed_date(s2, f2, d2)
                    || (s2 == stream@ && f2 == format@ && d2 == date@)),
            final(self).current_events(stream@, format@) == sat_add(
                old(self).current_events(stream@, format@),
                1,
            ),
            final(self).current_ingestion(stream@, format@) == sat_add(
                old(self).current_ingestion(stream@, format@),
                bytes as int,
            ),
            final(self).lifetime_events(stream@, format@) == sat_add(
                old(self).lifetime_events(stream@, format@),
                1,
            ),
            final(self).lifetime_ingestion(stream@, format@) == sat_add(
                old(self).lifetime_ingestion(stream@, format@),
                bytes as int,
            ),
            final(self).date_events(stream@, format@, date@) == sat_add(
                old(self).date_events(stream@, format@, date@),
                1,
            ),
            final(self).date_ingestion(stream@, format@, date@) == sat_add(
                old(self).date_ingestion(stream@, format@, date@),
                bytes as int,
            ),
            forall|s2: Seq<char>, f2: Seq<char>|
                #![trigger final(self).current_events(s2, f2)]
                spec_valid_format(f2) && !(s2 == stream@ && f2 == format@) ==> final(self).current_events(s2, f2) == old(
                    self,
                ).current_events(s2, f2),
            forall|s2: Seq<char>, f2: Seq<char>|
                #![trigger final(self).current_ingestion(s2, f2)]
                spec_valid_format(f2) && !(s2 == stream@ && f2 == format@) ==> final(self).current_ingestion(s2, f2) == old(
                    self,
                ).current_ingestion(s2, f2),
            forall|s2: Seq<char>, f2: Seq<char>|
                #![trigger final(self).lifetime_events(s2, f2)]
                spec_valid_format(f2) && !(s2 == stream@ && f2 == format@) ==> final(self).lifetime_events(s2, f2) == old(
                    self,
                ).lifetime_events(s2, f2),
            forall|s2: Seq<char>, f2: Seq<char>|
                #![trigger final(self).lifetime_ingestion(s2, f2)]
                spec_valid_format(f2) && !(s2 == stream@ && f2 == format@) ==> final(self).lifetime_ingestion(s2, f2)
                    == old(self).lifetime_ingestion(s2, f2),
            forall|s2: Seq<char>, f2: Seq<char>, d2: Seq<char>|
                #![trigger final(self).date_events(s2, f2, d2)]
                spec_valid_format(f2) && spec_valid_date(d2) && !(s2 == stream@ && f2 == format@ && d2 == date@) ==> final(self).date_events(
                    s2,
                    f2,
                    d2,
                ) == old(self).date_events(s2, f2, d2),
            forall|s2: Seq<char>, f2: Seq<char>, d2: Seq<char>|
                #![trigger final(self).date_ingestion(s2, f2, d2)]
                spec_valid_format(f2) && spec_valid_date(d2) && !(s2 == stream@ && f2 == format@ && d2 == date@) ==> final(self).date_ingestion(
                    s2,
                    f2,
                    d2,
                ) == old(self).date_ingestion(s2, f2, d2),
            forall|s2: Seq<char>, f2: Seq<char>|
                #![trigger final(self).deleted_events(s2, f2)]
                final(self).deleted_events(s2, f2) == old(self).deleted_events(s2, f2),
            forall|s2: Seq<char>, f2: Seq<char>|
                #![trigger final(self).deleted_ingestion(s2, f2)]
                final(self).deleted_ingestion(s2, f2) == old(self).deleted_ingestion(s2, f2),
            forall|s2: Seq<char>|
                #![trigger final(self).current_storage(s2)]
                final(self).current_storage(s2) == old(self).current_storage(s2),
            forall|s2: Seq<char>|
                #![trigger final(self).deleted_storage(s2)]
                final(self).deleted_storage(s2) == old(self).deleted_storage(s2),
            forall|s2: Seq<char>|
                #![trigger final(self).lifetime_storage(s2)]
                final(self).lifetime_storage(s2) == old(self).lifetime_storage(s2),
            forall|s2: Seq<char>, d2: Seq<char>|
                #![trigger final(self).date_storage(s2, d2)]
                final(self).date_storage(s2, d2) == old(self).date_storage(s2, d2),
            final(self).counter_set_present(stream@, format@),
            final(self).date_series_present(stream@, format@, date@),
            forall|s2: Seq<char>, f2: Seq<char>|
                #![trigger final(self).counter_set_present(s2, f2)]
                old(self).counter_set_present(s2, f2) ==> final(self).counter_set_present(s2, f2),
            forall|s2: Seq<char>, f2: Seq<char>, d2: Seq<char>|
                #![trigger final(self).date_series_present(s2, f2, d2)]
                old(self).date_series_present(s2, f2, d2) ==> final(self).date_series_present(
                    s2,
                    f2,
                    d2,
                ),
    {
        let el = event_labels(stream, format);
        let sl = storage_size_labels(stream);
        let eld = event_labels_date(stream, format, date);
        let sld = storage_size_labels_date(stream, date);
        series_bump(&mut self.events_ingested, &el, 1);
        series_bump(&mut self.events_ingested_size, &el, bytes);
        series_bump(&mut self.lifetime_events_ingested, &el, 1);
        series_bump(&mut self.lifetime_events_ingested_size, &el, bytes);
        series_bump(&mut self.events_ingested_date, &eld, 1);
        series_bump(&mut self.events_ingested_size_date, &eld, bytes);
        series_touch(&mut self.events_deleted, &el);
        series_touch(&mut self.events_deleted_size, &el);
        series_touch(&mut self.storage_size, &sl);
        series_touch(&mut self.deleted_events_storage_size, &sl);
        series_touch(&mut self.lifetime_events_storage_size, &sl);
        series_touch(&mut self.events_storage_size_date, &sld);
        let ghost live0 = self.live@;
        if !live_contains(&self.live, stream, format) {
            let key = StreamKey { stream: stream.to_owned(), format: format.to_owned() };
            let ghost gkey = key;
            self.live.push(key);
            proof {
                assert forall|s2: Seq<char>, f2: Seq<char>|
                    seq_has_key(self.live@, s2, f2) <==> (seq_has_key(live0, s2, f2) || (s2
                        == stream@ && f2 == format@)) by {
                    lemma_has_key_push(live0, gkey, s2, f2);
                }
            }
        }
        let ghost dates0 = self.dates@;
        if !date_contains(&self.dates, stream, format, date) {
            let key = DateKey {
                stream: stream.to_owned(),
                format: format.to_owned(),
                date: date.to_owned(),
            };
            let ghost gkey = key;
            self.dates.push(key);
            proof {
                assert forall|s2: Seq<char>, f2: Seq<char>, d2: Seq<char>|
                    seq_has_date(self.dates@, s2, f2, d2) <==> (seq_has_date(dates0, s2, f2, d2)
                        || (s2 == stream@ && f2 == format@ && d2 == date@)) by {
                    lemma_has_date_push(dates0, gkey, s2, f2, d2);
                }
                assert forall|i: int, j: int| 0 <= i < j < self.dates@.len() implies !((
                #[trigger] self.dates@[i]).stream@ == (#[trigger] self.dates@[j]).stream@
                    && self.dates@[i].format@ == self.dates@[j].format@ && self.dates@[i].date@
                    == self.dates@[j].date@) by {
                    if j == self.dates@.len() - 1 {
                        assert(self.dates@[i] == dates0[i]);
                        assert(self.dates@[j] == key);
                        if self.dates@[i].stream@ == stream@ && self.dates@[i].format@ == format@
                            && self.dates@[i].date@ == date@ {
                            assert(seq_has_date(dates0, stream@, format@, date@));
                        }
                    } else {
                        assert(self.dates@[i] == dates0[i]);
                        assert(self.dates@[j] == dates0[j]);
                    }
                }
            }
        }
        proof {
            assert forall|s2: Seq<char>, f2: Seq<char>|
                spec_valid_format(f2) && !(s2 == stream@ && f2 == format@) implies final(self).current_events(s2, f2)
                == old(self).current_events(s2, f2) && final(self).current_ingestion(s2, f2)
                == old(self).current_ingestion(s2, f2) && final(self).lifetime_events(s2, f2)
                == old(self).lifetime_events(s2, f2) && final(self).lifetime_ingestion(s2, f2)
                == old(self).lifetime_ingestion(s2, f2) by {
                lemma_event_key_inj(s2, f2, stream@, format@);
            }
            assert forall|s2: Seq<char>, f2: Seq<char>, d2: Seq<char>|
                spec_valid_format(f2) && spec_valid_date(d2) && !(s2 == stream@ && f2 == format@ && d2 == date@) implies final(self).date_events(
                s2,
                f2,
                d2,
            ) == old(self).date_events(s2, f2, d2) && final(self).date_ingestion(s2, f2, d2)
                == old(self).date_ingestion(s2, f2, d2) by {
                lemma_event_date_key_inj(s2, f2, d2, stream@, format@, date@);
            }
        }
    }

    /// Records the deletion of `events` events totalling `bytes` stored
    /// bytes from `(stream, format)`: the deleted tier moves up and the
    /// current tier moves down, clamped at zero.
    ///
    /// A clamp is surfaced as an [`AccountingDrift`] warning — non-fatal,
    /// reported but never blocking the caller's deletion request: without a
    /// transactional ledger the manager can drift under concurrent partial
    /// failures. Ingestion-byte counters are tracked at storage
    /// granularity, not per deleted event, and stay untouched. The format
    /// must be a token of the static enumeration.
    pub fn record_deletion(&mut self, stream: &str, format: &str, events: u64, bytes: u64) -> (drift:
        Option<AccountingDrift>)
        requires
            old(self).wf(),
            events <= i64::MAX,
            bytes <= i64::MAX,
            spec_valid_format(format@),
        ensures
            final(self).wf(),
            final(self).deleted_events(stream@, format@) == sat_add(
                old(self).deleted_events(stream@, format@),
                events as int,
            ),
            final(self).deleted_storage(stream@) == sat_add(
                old(self).deleted_storage(stream@),
                bytes as int,
            ),
            final(self).current_events(stream@, format@) == clamp_sub(
                old(self).current_events(stream@, format@),
                events as int,
            ),
            final(self).current_storage(stream@) == clamp_sub(
                old(self).current_storage(stream@),
                bytes as int,
            ),
            final(self).current_events(stream@, format@) >= 0,
            final(self).current_storage(stream@) >= 0,
            drift is Some <==> (events as int > old(self).current_events(stream@, format@)
                || bytes as int > old(self).current_storage(stream@)),
            drift matches Some(d) ==> d.events_clamped == (events as int > old(
                self,
            ).current_events(stream@, format@)) && d.storage_clamped == (bytes as int > old(
                self,
            ).current_storage(stream@)),
            forall|s2: Seq<char>, f2: Seq<char>|
                #![trigger final(self).current_events(s2, f2)]
                spec_valid_format(f2) && !(s2 == stream@ && f2 == format@) ==> final(self).current_events(s2, f2) == old(
                    self,
                ).current_events(s2, f2),
            forall|s2: Seq<char>, f2: Seq<char>|
                #![trigger final(self).deleted_events(s2, f2)]
                spec_valid_format(f2) && !(s2 == stream@ && f2 == format@) ==> final(self).deleted_events(s2, f2) == old(
                    self,
                ).deleted_events(s2, f2),
            forall|s2: Seq<char>|
                #![trigger final(self).current_storage(s2)]
                s2 != stream@ ==> final(self).current_storage(s2) == old(self).current_storage(s2),
            forall|s2: Seq<char>|
                #![trigger final(self).deleted_storage(s2)]
                s2 != stream@ ==> final(self).deleted_storage(s2) == old(self).deleted_storage(s2),
            forall|s2: Seq<char>, f2: Seq<char>|
                #![trigger final(self).current_ingestion(s2, f2)]
                final(self).current_ingestion(s2, f2) == old(self).current_ingestion(s2, f2),
            forall|s2: Seq<char>, f2: Seq<char>|
                #![trigger final(self).deleted_ingestion(s2, f2)]
                final(self).deleted_ingestion(s2, f2) == old(self).deleted_ingestion(s2, f2),
            forall|s2: Seq<char>, f2: Seq<char>|
                #![trigger final(self).lifetime_events(s2, f2)]
                final(self).lifetime_events(s2, f2) == old(self).lifetime_events(s2, f2),
            forall|s2: Seq<char>, f2: Seq<char>|
                #![trigger final(self).lifetime_ingestion(s2, f2)]
                final(self).lifetime_ingestion(s2, f2) == old(self).lifetime_ingestion(s2, f2),
            forall|s2: Seq<char>|
                #![trigger final(self).lifetime_storage(s2)]
                final(self).lifetime_storage(s2) == old(self).lifetime_storage(s2),
            forall|s2: Seq<char>, f2: Seq<char>, d2: Seq<char>|
                #![trigger final(self).date_events(s2, f2, d2)]
                final(self).date_events(s2, f2, d2) == old(self).date_events(s2, f2, d2),
            forall|s2: Seq<char>, f2: Seq<char>, d2: Seq<char>|
                #![trigger final(self).date_ingestion(s2, f2, d2)]
                final(self).date_ingestion(s2, f2, d2) == old(self).date_ingestion(s2, f2, d2),
            forall|s2: Seq<char>, d2: Seq<char>|
                #![trigger final(self).date_storage(s2, d2)]
                final(self).date_storage(s2, d2) == old(self).date_storage(s2, d2),
            forall|s2: Seq<char>, f2: Seq<char>|
                #![trigger final(self).is_live(s2, f2)]
                final(self).is_live(s2, f2) == old(self).is_live(s2, f2),
            forall|s2: Seq<char>, f2: Seq<char>, d2: Seq<char>|
                #![trigger final(self).observed_date(s2, f2, d2)]
                final(self).observed_date(s2, f2, d2) == old(self).observed_date(s2, f2, d2),
            forall|s2: Seq<char>, f2: Seq<char>|
                #![trigger final(self).counter_set_present(s2, f2)]
                old(self).counter_set_present(s2, f2) ==> final(self).counter_set_present(s2, f2),
            forall|s2: Seq<char>, f2: Seq<char>, d2: Seq<char>|
                #![trigger final(self).date_series_present(s2, f2, d2)]
                old(self).date_series_present(s2, f2, d2) ==> final(self).date_series_present(
                    s2,
                    f2,
                    d2,
                ),
    {
        let el = event_labels(stream, format);
        let sl = storage_size_labels(stream);
        let events_clamped = series_clamp_sub(&mut self.events_ingested, &el, events);
        let storage_clamped = series_clamp_sub(&mut self.storage_size, &sl, bytes);
        series_bump(&mut self.events_deleted, &el, events);
        series_bump(&mut self.deleted_events_storage_size, &sl, bytes);
        proof {
            assert forall|s2: Seq<char>, f2: Seq<char>|
                spec_valid_format(f2) && !(s2 == stream@ && f2 == format@) implies final(self).current_events(s2, f2)
                == old(self).current_events(s2, f2) && final(self).deleted_events(s2, f2) == old(
                self,
            ).deleted_events(s2, f2) by {
                lemma_event_key_inj(s2, f2, stream@, format@);
            }
            assert forall|s2: Seq<char>|
                s2 != stream@ implies final(self).current_storage(s2) == old(
                self,
            ).current_storage(s2) && final(self).deleted_storage(s2) == old(self).deleted_storage(
                s2,
            ) by {
                lemma_storage_key_inj(s2, stream@);
            }
        }
        if events_clamped || storage_clamped {
            Some(AccountingDrift { events_clamped, storage_clamped })
        } else {
            None
        }
    }

    /// Whether all nine non-date-partitioned series of the stream's
    /// counter set exist.
    pub closed spec fn counter_set_present(&self, stream: Seq<char>, format: Seq<char>) -> bool {
        &&& series_entries(self.events_ingested).contains_key(spec_event_key(stream, format))
        &&& series_entries(self.events_ingested_size).contains_key(spec_event_key(stream, format))
        &&& series_entries(self.storage_size).contains_key(spec_storage_key(stream))
        &&& series_entries(self.events_deleted).contains_key(spec_event_key(stream, format))
        &&& series_entries(self.events_deleted_size).contains_key(spec_event_key(stream, format))
        &&& series_entries(self.deleted_events_storage_size).contains_key(
            spec_storage_key(stream),
        )
        &&& series_entries(self.lifetime_events_ingested).contains_key(
            spec_event_key(stream, format),
        )
        &&& series_entries(self.lifetime_events_ingested_size).contains_key(
            spec_event_key(stream, format),
        )
        &&& series_entries(self.lifetime_events_storage_size).contains_key(
            spec_storage_key(stream),
        )
    }

    /// Whether the three date-partitioned series of one date partition of
    /// the stream exist.
    pub closed spec fn date_series_present(
        &self,
        stream: Seq<char>,
        format: Seq<char>,
        date: Seq<char>,
    ) -> bool {
        &&& series_entries(self.events_ingested_date).contains_key(
            spec_event_date_key(stream, format, date),
        )
        &&& series_entries(self.events_ingested_size_date).contains_key(
            spec_event_date_key(stream, format, date),
        )
        &&& series_entries(self.events_storage_size_date).contains_key(
            spec_storage_date_key(stream, date),
        )
    }

    /// Whether one non-date-partitioned series of the stream's set exists,
    /// named by its family. Date-partitioned families are never present
    /// without a partition.
    pub closed spec fn family_present(
        &self,
        family: SeriesFamily,
        stream: Seq<char>,
        format: Seq<char>,
    ) -> bool {
        match family {
            SeriesFamily::EventsIngested => series_entries(self.events_ingested).contains_key(
                spec_event_key(stream, format),
            ),
            SeriesFamily::EventsIngestedSize => series_entries(
                self.events_ingested_size,
            ).contains_key(spec_event_key(stream, format)),
            SeriesFamily::StorageSize => series_entries(self.storage_size).contains_key(
                spec_storage_key(stream),
            ),
            SeriesFamily::EventsDeleted => series_entries(self.events_deleted).contains_key(
                spec_event_key(stream, format),
            ),
            SeriesFamily::EventsDeletedSize => series_entries(
                self.events_deleted_size,
            ).contains_key(spec_event_key(stream, format)),
            SeriesFamily::DeletedEventsStorageSize => series_entries(
                self.deleted_events_storage_size,
            ).contains_key(spec_storage_key(stream)),
            SeriesFamily::LifetimeEventsIngested => series_entries(
                self.lifetime_events_ingested,
            ).contains_key(spec_event_key(stream, format)),
            SeriesFamily::LifetimeEventsIngestedSize => series_entries(
                self.lifetime_events_ingested_size,
            ).contains_key(spec_event_key(stream, format)),
            SeriesFamily::LifetimeEventsStorageSize => series_entries(
                self.lifetime_events_storage_size,
            ).contains_key(spec_storage_key(stream)),
            SeriesFamily::EventsIngestedDate => false,
            SeriesFamily::EventsIngestedSizeDate => false,
            SeriesFamily::EventsStorageSizeDate => false,
        }
    }

    /// Whether one date-partitioned series of the stream exists, named by
    /// its family and partition.
    pub closed spec fn date_family_present(
        &self,
        family: SeriesFamily,
        stream: Seq<char>,
        format: Seq<char>,
        date: Seq<char>,
    ) -> bool {
        match family {
            SeriesFamily::EventsIngestedDate => series_entries(
                self.events_ingested_date,
            ).contains_key(spec_event_date_key(stream, format, date)),
            SeriesFamily::EventsIngestedSizeDate => series_entries(
                self.events_ingested_size_date,
            ).contains_key(spec_event_date_key(stream, format, date)),
            SeriesFamily::EventsStorageSizeDate => series_entries(
                self.events_storage_size_date,
            ).contains_key(spec_storage_date_key(stream, date)),
            _ => false,
        }
    }

    /// What one entry of a teardown's surviving list reports of the state
    /// before the teardown: the named series — a per-stream family, or a
    /// date partition the stream had observed — did not exist when its
    /// removal was attempted.
    pub open spec fn survivor_reported(
        &self,
        stream: Seq<char>,
        format: Seq<char>,
        entry: SurvivingSeries,
    ) -> bool {
        match entry.date {
            None => match entry.family {
                SeriesFamily::EventsIngestedDate => false,
                SeriesFamily::EventsIngestedSizeDate => false,
                SeriesFamily::EventsStorageSizeDate => false,
                _ => !self.family_present(entry.family, stream, format),
            },
            Some(d) => self.observed_date(stream, format, d@) && match entry.family {
                SeriesFamily::EventsIngestedDate => !self.date_family_present(
                    entry.family,
                    stream,
                    format,
                    d@,
                ),
                SeriesFamily::EventsIngestedSizeDate => !self.date_family_present(
                    entry.family,
                    stream,
                    format,
                    d@,
                ),
                SeriesFamily::EventsStorageSizeDate => !self.date_family_present(
                    entry.family,
                    stream,
                    format,
                    d@,
                ),
                _ => false,
            },
        }
    }

    /// Whether every series of the stream's set exists, so that a teardown
    /// removes all of them cleanly: the nine per-stream series, and the
    /// three date-partitioned series of every observed date partition.
    pub open spec fn teardown_clean(&self, stream: Seq<char>, format: Seq<char>) -> bool {
        &&& self.counter_set_present(stream, format)
        &&& forall|d: Seq<char>|
            self.observed_date(stream, format, d) ==> #[trigger] self.date_series_present(
                stream,
                format,
                d,
            )
    }

    /// Tears down the counter set of `(stream, format)`: removes every
    /// label series the stream's life touched — the nine per-stream series
    /// and the date-partitioned series of every observed date partition —
    /// in a deterministic order (events, ingestion-size, storage-size per
    /// tier, then the date-partitioned series).
    ///
    /// Each removal is independent and best-effort; failures never abort
    /// the teardown and are aggregated into one [`PartialTeardownError`]
    /// naming the series that survived, for the caller to retry, while the
    /// logical stream removal always takes effect. Storage-size series are
    /// shared by every format of a stream and are removed regardless of
    /// other live formats, matching the label shapes of the key builders —
    /// their counter sets are then no longer complete, so the teardown
    /// hides the whole stream from the snapshot reader; a later ingest
    /// revives a format with whatever event series it still has and a
    /// zero-based storage set.
    #[verifier::rlimit(100)]
    #[verifier::spinoff_prover]
    pub fn delete_stats(&mut self, stream: &str, format: &str) -> (r: Result<
        (),
        PartialTeardownError,
    >)
        requires
            old(self).wf(),
            spec_valid_format(format@),
        ensures
            final(self).wf(),
            !final(self).is_live(stream@, format@),
            forall|s2: Seq<char>, f2: Seq<char>|
                #![trigger final(self).is_live(s2, f2)]
                final(self).is_live(s2, f2) <==> (old(self).is_live(s2, f2) && s2 != stream@),
            forall|s2: Seq<char>, f2: Seq<char>, d2: Seq<char>|
                #![trigger final(self).observed_date(s2, f2, d2)]
                final(self).observed_date(s2, f2, d2) <==> (old(self).observed_date(s2, f2, d2)
                    && !(s2 == stream@ && f2 == format@)),
            final(self).series_absent(stream@, format@),
            final(self).current_events(stream@, format@) == 0,
            final(self).current_ingestion(stream@, format@) == 0,
            final(self).current_storage(stream@) == 0,
            final(self).deleted_events(stream@, format@) == 0,
            final(self).deleted_ingestion(stream@, format@) == 0,
            final(self).deleted_storage(stream@) == 0,
            final(self).lifetime_events(stream@, format@) == 0,
            final(self).lifetime_ingestion(stream@, format@) == 0,
            final(self).lifetime_storage(stream@) == 0,
            forall|d2: Seq<char>|
                #![trigger final(self).date_events(stream@, format@, d2)]
                old(self).observed_date(stream@, format@, d2) ==> final(self).date_events(
                    stream@,
                    format@,
                    d2,
                ) == 0 && final(self).date_ingestion(stream@, format@, d2) == 0
                    && final(self).date_storage(stream@, d2) == 0,
            forall|s2: Seq<char>, f2: Seq<char>|
                #![trigger final(self).current_events(s2, f2)]
                spec_valid_format(f2) && !(s2 == stream@ && f2 == format@) ==> final(self).current_events(s2, f2) == old(
                    self,
                ).current_events(s2, f2) && final(self).current_ingestion(s2, f2) == old(
                    self,
                ).current_ingestion(s2, f2) && final(self).deleted_events(s2, f2) == old(
                    self,
                ).deleted_events(s2, f2) && final(self).deleted_ingestion(s2, f2) == old(
                    self,
                ).deleted_ingestion(s2, f2) && final(self).lifetime_events(s2, f2) == old(
                    self,
                ).lifetime_events(s2, f2) && final(self).lifetime_ingestion(s2, f2) == old(
                    self,
                ).lifetime_ingestion(s2, f2),
            forall|s2: Seq<char>|
                #![trigger final(self).current_storage(s2)]
                s2 != stream@ ==> final(self).current_storage(s2) == old(self).current_storage(s2)
                    && final(self).deleted_storage(s2) == old(self).deleted_storage(s2)
                    && final(self).lifetime_storage(s2) == old(self).lifetime_storage(s2),
            forall|s2: Seq<char>, f2: Seq<char>, d2: Seq<char>|
                #![trigger final(self).date_events(s2, f2, d2)]
                spec_valid_format(f2) && spec_valid_date(d2) && !(s2 == stream@ && f2 == format@)
                    ==> final(self).date_events(s2, f2, d2) == old(self).date_events(s2, f2, d2)
                    && final(self).date_ingestion(s2, f2, d2) == old(self).date_ingestion(
                    s2,
                    f2,
                    d2,
                ),
            forall|s2: Seq<char>, d2: Seq<char>|
                #![trigger final(self).date_storage(s2, d2)]
                spec_valid_date(d2) && s2 != stream@ ==> final(self).date_storage(s2, d2) == old(
                    self,
                ).date_storage(s2, d2),
            forall|s2: Seq<char>, f2: Seq<char>|
                #![trigger final(self).counter_set_present(s2, f2)]
                spec_valid_format(f2) && s2 != stream@ ==> final(self).counter_set_present(s2, f2)
                    == old(self).counter_set_present(s2, f2),
            forall|s2: Seq<char>, f2: Seq<char>, d2: Seq<char>|
                #![trigger final(self).date_series_present(s2, f2, d2)]
                spec_valid_format(f2) && spec_valid_date(d2) && s2 != stream@ ==> final(self).date_series_present(s2, f2, d2) == old(self).date_series_present(s2, f2, d2),
            forall|s2: Seq<char>, f2: Seq<char>, fam: SeriesFamily|
                #![trigger final(self).family_present(fam, s2, f2)]
                spec_valid_format(f2) && !(s2 == stream@ && f2 == format@) && !(fam
                    == SeriesFamily::StorageSize || fam == SeriesFamily::DeletedEventsStorageSize
                    || fam == SeriesFamily::LifetimeEventsStorageSize) ==> final(self).family_present(
                    fam,
                    s2,
                    f2,
                ) == old(self).family_present(fam, s2, f2),
            forall|s2: Seq<char>, f2: Seq<char>, d2: Seq<char>, fam: SeriesFamily|
                #![trigger final(self).date_family_present(fam, s2, f2, d2)]
                spec_valid_format(f2) && spec_valid_date(d2) && !(s2 == stream@ && f2 == format@)
                    && (fam == SeriesFamily::EventsIngestedDate || fam
                    == SeriesFamily::EventsIngestedSizeDate) ==> final(self).date_family_present(
                    fam,
                    s2,
                    f2,
                    d2,
                ) == old(self).date_family_present(fam, s2, f2, d2),
            r is Ok <==> old(self).teardown_clean(stream@, format@),
            r matches Err(e) ==> e.surviving@.len() > 0,
            r matches Err(e) ==> (forall|i: int|
                0 <= i < e.surviving@.len() ==> old(self).survivor_reported(
                    stream@,
                    format@,
                    #[trigger] e.surviving@[i],
                )),
            r matches Err(e) ==> (forall|fam: SeriesFamily|
                !(fam == SeriesFamily::EventsIngestedDate || fam
                    == SeriesFamily::EventsIngestedSizeDate || fam
                    == SeriesFamily::EventsStorageSizeDate) && !old(self).family_present(
                    fam,
                    stream@,
                    format@,
                ) ==> #[trigger] lists_family(e.surviving@, fam)),
            r matches Err(e) ==> (forall|d2: Seq<char>|
                #![trigger old(self).observed_date(stream@, format@, d2)]
                old(self).observed_date(stream@, format@, d2) ==> ((!old(self).date_family_present(
                    SeriesFamily::EventsIngestedDate,
                    stream@,
                    format@,
                    d2,
                ) ==> lists_date(e.surviving@, SeriesFamily::EventsIngestedDate, d2)) && (!old(
                    self,
                ).date_family_present(SeriesFamily::EventsIngestedSizeDate, stream@, format@, d2)
                    ==> lists_date(e.surviving@, SeriesFamily::EventsIngestedSizeDate, d2)) && (
                !old(self).date_family_present(
                    SeriesFamily::EventsStorageSizeDate,
                    stream@,
                    format@,
                    d2,
                ) ==> lists_date(e.surviving@, SeriesFamily::EventsStorageSizeDate, d2)))),
    {
        let el = event_labels(stream, format);
        let sl = storage_size_labels(stream);
        let mut surviving: Vec<SurvivingSeries> = Vec::new();
        let flags = drop_stream_series(
            &mut self.events_ingested,
            &mut self.events_ingested_size,
            &mut self.storage_size,
            &mut self.events_deleted,
            &mut self.events_deleted_size,
            &mut self.deleted_events_storage_size,
            &mut self.lifetime_events_ingested,
            &mut self.lifetime_events_ingested_size,
            &mut self.lifetime_events_storage_size,
            stream,
            format,
        );
        if !flags.0 {
            surviving.push(SurvivingSeries { family: SeriesFamily::EventsIngested, date: None });
        }
        if !flags.1 {
            surviving.push(
                SurvivingSeries { family: SeriesFamily::EventsIngestedSize, date: None },
            );
        }
        if !flags.2 {
            surviving.push(SurvivingSeries { family: SeriesFamily::StorageSize, date: None });
        }
        if !flags.3 {
            surviving.push(SurvivingSeries { family: SeriesFamily::EventsDeleted, date: None });
        }
        if !flags.4 {
            surviving.push(SurvivingSeries { family: SeriesFamily::EventsDeletedSize, date: None });
        }
        if !flags.5 {
            surviving.push(
                SurvivingSeries { family: SeriesFamily::DeletedEventsStorageSize, date: None },
            );
        }
        if !flags.6 {
            surviving.push(
                SurvivingSeries { family: SeriesFamily::LifetimeEventsIngested, date: None },
            );
        }
        if !flags.7 {
            surviving.push(
                SurvivingSeries { family: SeriesFamily::LifetimeEventsIngestedSize, date: None },
            );
        }
        if !flags.8 {
            surviving.push(
                SurvivingSeries { family: SeriesFamily::LifetimeEventsStorageSize, date: None },
            );
        }
        let ghost base_ok = surviving@.len() == 0;
        let ghost sv9 = surviving@;
        proof {
            let ghost i1 = (if !flags.0 { 1int } else { 0 });
            let ghost i2 = i1 + (if !flags.1 { 1int } else { 0 });
            let ghost i3 = i2 + (if !flags.2 { 1int } else { 0 });
            let ghost i4 = i3 + (if !flags.3 { 1int } else { 0 });
            let ghost i5 = i4 + (if !flags.4 { 1int } else { 0 });
            let ghost i6 = i5 + (if !flags.5 { 1int } else { 0 });
            let ghost i7 = i6 + (if !flags.6 { 1int } else { 0 });
            let ghost i8 = i7 + (if !flags.7 { 1int } else { 0 });
            if !flags.0 {
                assert((#[trigger] sv9[0]).family == SeriesFamily::EventsIngested && sv9[0].date
                    is None);
            }
            if !flags.1 {
                assert((#[trigger] sv9[i1]).family == SeriesFamily::EventsIngestedSize
                    && sv9[i1].date is None);
            }
            if !flags.2 {
                assert((#[trigger] sv9[i2]).family == SeriesFamily::StorageSize && sv9[i2].date
                    is None);
            }
            if !flags.3 {
                assert((#[trigger] sv9[i3]).family == SeriesFamily::EventsDeleted && sv9[i3].date
                    is None);
            }
            if !flags.4 {
                assert((#[trigger] sv9[i4]).family == SeriesFamily::EventsDeletedSize
                    && sv9[i4].date is None);
            }
            if !flags.5 {
                assert((#[trigger] sv9[i5]).family == SeriesFamily::DeletedEventsStorageSize
                    && sv9[i5].date is None);
            }
            if !flags.6 {
                assert((#[trigger] sv9[i6]).family == SeriesFamily::LifetimeEventsIngested
                    && sv9[i6].date is None);
            }
            if !flags.7 {
                assert((#[trigger] sv9[i7]).family == SeriesFamily::LifetimeEventsIngestedSize
                    && sv9[i7].date is None);
            }
            if !flags.8 {
                assert((#[trigger] sv9[i8]).family == SeriesFamily::LifetimeEventsStorageSize
                    && sv9[i8].date is None);
            }
            assert forall|t: int| 0 <= t < sv9.len() implies old(self).survivor_reported(
                stream@,
                format@,
                #[trigger] sv9[t],
            ) by {
            }
        }
        let pair = filter_dates(&self.dates, stream, format);
        let kept_dates = pair.0;
        let matched = pair.1;
        drop_date_series(
            &mut self.events_ingested_date,
            &mut self.events_ingested_size_date,
            &mut self.events_storage_size_date,
            &mut surviving,
            &matched,
            stream,
            format,
        );
        self.dates = kept_dates;
        let new_live = filter_live(&self.live, stream);
        self.live = new_live;
        proof {
            assert forall|s2: Seq<char>, f2: Seq<char>|
                spec_valid_format(f2) && !(s2 == stream@ && f2 == format@) implies final(self).current_events(s2, f2)
                == old(self).current_events(s2, f2) && final(self).current_ingestion(s2, f2)
                == old(self).current_ingestion(s2, f2) && final(self).deleted_events(s2, f2)
                == old(self).deleted_events(s2, f2) && final(self).deleted_ingestion(s2, f2)
                == old(self).deleted_ingestion(s2, f2) && final(self).lifetime_events(s2, f2)
                == old(self).lifetime_events(s2, f2) && final(self).lifetime_ingestion(s2, f2)
                == old(self).lifetime_ingestion(s2, f2) by {
                lemma_event_key_inj(s2, f2, stream@, format@);
            }
            assert forall|s2: Seq<char>|
                s2 != stream@ implies final(self).current_storage(s2) == old(
                self,
            ).current_storage(s2) && final(self).deleted_storage(s2) == old(self).deleted_storage(
                s2,
            ) && final(self).lifetime_storage(s2) == old(self).lifetime_storage(s2) by {
                lemma_storage_key_inj(s2, stream@);
            }
            assert forall|m: int| 0 <= m < self.live@.len() implies spec_valid_format(
                (#[trigger] self.live@[m]).format@,
            ) && self.counter_set_present(self.live@[m].stream@, self.live@[m].format@) by {
                let s2 = self.live@[m].stream@;
                let f2 = self.live@[m].format@;
                assert(seq_has_key(self.live@, s2, f2));
                let j = choose|j: int|
                    0 <= j < old(self).live@.len() && (#[trigger] old(self).live@[j]).stream@ == s2
                        && old(self).live@[j].format@ == f2;
                assert(spec_valid_format(f2));
                assert(old(self).counter_set_present(s2, f2));
                lemma_event_key_inj(s2, f2, stream@, format@);
                lemma_storage_key_inj(s2, stream@);
            }
            assert forall|s2: Seq<char>, f2: Seq<char>, d2: Seq<char>|
                spec_valid_format(f2) && spec_valid_date(d2) && !(s2 == stream@ && f2 == format@)
                    implies final(self).date_events(s2, f2, d2) == old(self).date_events(
                s2,
                f2,
                d2,
            ) && final(self).date_ingestion(s2, f2, d2) == old(self).date_ingestion(s2, f2, d2) by {
                let k = spec_event_date_key(s2, f2, d2);
            }
            assert forall|s2: Seq<char>, d2: Seq<char>|
                spec_valid_date(d2) && s2 != stream@ implies final(self).date_storage(s2, d2)
                == old(self).date_storage(s2, d2) by {
                let k = spec_storage_date_key(s2, d2);
            }
            assert forall|d2: Seq<char>|
                old(self).observed_date(stream@, format@, d2) implies final(self).date_events(
                stream@,
                format@,
                d2,
            ) == 0 && final(self).date_ingestion(stream@, format@, d2) == 0 && final(self).date_storage(stream@, d2) == 0 by {
                let j = choose|j: int|
                    0 <= j < old(self).dates@.len() && (#[trigger] old(self).dates@[j]).stream@
                        == stream@ && old(self).dates@[j].format@ == format@ && old(
                        self,
                    ).dates@[j].date@ == d2;
                assert(spec_valid_date(d2));
                assert(date_in(matched@, matched@.len() as int, d2));
                let k1 = spec_event_date_key(stream@, format@, d2);
                let k2 = spec_storage_date_key(stream@, d2);
            }
            assert forall|s2: Seq<char>, f2: Seq<char>|
                spec_valid_format(f2) && s2 != stream@ implies final(self).counter_set_present(
                s2,
                f2,
            ) == old(self).counter_set_present(s2, f2) by {
                lemma_event_key_inj(s2, f2, stream@, format@);
                lemma_storage_key_inj(s2, stream@);
            }
            assert forall|s2: Seq<char>, f2: Seq<char>, fam: SeriesFamily|
                spec_valid_format(f2) && !(s2 == stream@ && f2 == format@) && !(fam
                    == SeriesFamily::StorageSize || fam == SeriesFamily::DeletedEventsStorageSize
                    || fam == SeriesFamily::LifetimeEventsStorageSize) implies final(self).family_present(fam, s2, f2) == old(self).family_present(fam, s2, f2) by {
                lemma_event_key_inj(s2, f2, stream@, format@);
            }
            assert forall|s2: Seq<char>, f2: Seq<char>, d2: Seq<char>, fam: SeriesFamily|
                spec_valid_format(f2) && spec_valid_date(d2) && !(s2 == stream@ && f2 == format@)
                    && (fam == SeriesFamily::EventsIngestedDate || fam
                    == SeriesFamily::EventsIngestedSizeDate) implies final(self).date_family_present(
                fam,
                s2,
                f2,
                d2,
            ) == old(self).date_family_present(fam, s2, f2, d2) by {
                let k = spec_event_date_key(s2, f2, d2);
            }
            assert forall|s2: Seq<char>, f2: Seq<char>, d2: Seq<char>|
                spec_valid_format(f2) && spec_valid_date(d2) && s2 != stream@ implies final(self).date_series_present(s2, f2, d2) == old(self).date_series_present(s2, f2, d2) by {
                let k1 = spec_event_date_key(s2, f2, d2);
                let k2 = spec_storage_date_key(s2, d2);
            }
            let ghost clean_dates = (forall|m: int|
                0 <= m < matched@.len() ==> series_entries(
                    old(self).events_ingested_date,
                ).contains_key(spec_event_date_key(stream@, format@, (#[trigger] matched@[m])@))
                    && series_entries(old(self).events_ingested_size_date).contains_key(
                    spec_event_date_key(stream@, format@, matched@[m]@),
                ) && series_entries(old(self).events_storage_size_date).contains_key(
                    spec_storage_date_key(stream@, matched@[m]@),
                ));
            if clean_dates {
                assert forall|d: Seq<char>|
                    old(self).observed_date(stream@, format@, d) implies #[trigger] old(
                    self,
                ).date_series_present(stream@, format@, d) by {
                    assert(date_in(matched@, matched@.len() as int, d));
                    let m = choose|m: int|
                        0 <= m < matched@.len() && (#[trigger] matched@[m])@ == d;
                }
            } else {
                let m = choose|m: int|
                    0 <= m < matched@.len() && !(series_entries(
                        old(self).events_ingested_date,
                    ).contains_key(
                        spec_event_date_key(stream@, format@, (#[trigger] matched@[m])@),
                    ) && series_entries(old(self).events_ingested_size_date).contains_key(
                        spec_event_date_key(stream@, format@, matched@[m]@),
                    ) && series_entries(old(self).events_storage_size_date).contains_key(
                        spec_storage_date_key(stream@, matched@[m]@),
                    ));
                assert(date_in(matched@, matched@.len() as int, matched@[m]@));
                assert(old(self).observed_date(stream@, format@, matched@[m]@));
                if old(self).teardown_clean(stream@, format@) {
                    assert(old(self).date_series_present(stream@, format@, matched@[m]@));
                    assert(false);
                }
                assert(!old(self).teardown_clean(stream@, format@));
            }
        }
        proof {
            assert forall|f: SeriesFamily| lists_family(sv9, f) implies #[trigger] lists_family(
                surviving@,
                f,
            ) by {
                let t = choose|t: int|
                    0 <= t < sv9.len() && (#[trigger] sv9[t]).family == f && sv9[t].date is None;
                assert(surviving@[t] == sv9[t]);
            }
            assert forall|fam: SeriesFamily|
                !(fam == SeriesFamily::EventsIngestedDate || fam
                    == SeriesFamily::EventsIngestedSizeDate || fam
                    == SeriesFamily::EventsStorageSizeDate) && !old(self).family_present(
                    fam,
                    stream@,
                    format@,
                ) implies lists_family(surviving@, fam) by {
            }
            assert forall|d2: Seq<char>|
                old(self).observed_date(stream@, format@, d2) implies ((!old(
                    self,
                ).date_family_present(SeriesFamily::EventsIngestedDate, stream@, format@, d2)
                    ==> lists_date(surviving@, SeriesFamily::EventsIngestedDate, d2)) && (!old(
                    self,
                ).date_family_present(SeriesFamily::EventsIngestedSizeDate, stream@, format@, d2)
                    ==> lists_date(surviving@, SeriesFamily::EventsIngestedSizeDate, d2)) && (!old(
                    self,
                ).date_family_present(SeriesFamily::EventsStorageSizeDate, stream@, format@, d2)
                    ==> lists_date(surviving@, SeriesFamily::EventsStorageSizeDate, d2))) by {
                let j = choose|j: int|
                    0 <= j < old(self).dates@.len() && (#[trigger] old(self).dates@[j]).stream@
                        == stream@ && old(self).dates@[j].format@ == format@ && old(
                        self,
                    ).dates@[j].date@ == d2;
                assert(date_in(matched@, matched@.len() as int, d2));
            }
            assert forall|i2: int| 0 <= i2 < surviving@.len() implies old(self).survivor_reported(
                stream@,
                format@,
                #[trigger] surviving@[i2],
            ) by {
                if i2 < sv9.len() {
                    assert(surviving@[i2] == sv9[i2]);
                } else {
                    let d = surviving@[i2].date->Some_0@;
                    assert(date_in(matched@, matched@.len() as int, d));
                }
            }
        }
        if surviving.len() == 0 {
            Ok(())
        } else {
            Err(PartialTeardownError { surviving })
        }
    }

    /// Assembles the accounting view of one stream from its nine
    /// non-date-partitioned series.
    ///
    /// Returns "not found" — distinct from an all-zero view — when the
    /// stream is not live. A live stream's whole counter set exists (see
    /// the well-formedness invariant and `lemma_live_counter_set`), so a
    /// snapshot is never assembled over an absent series. The converse
    /// holds in one corner only up to the next ingest: a dormant format of
    /// a partially torn-down stream — its event series kept, its shared
    /// storage series re-created by a sibling format's ingest — has a
    /// complete set again but is reported not-found until its own next
    /// ingest re-registers it. Reading changes nothing. The nine reads are
    /// not atomic against concurrent updates: a snapshot taken during
    /// concurrent ingestion or deletion may mix older and newer values of
    /// different series, a documented trade-off favoring throughput.
    pub fn get_current_stats(&mut self, stream_name: &str, format: &str) -> (r: Option<FullStats>)
        requires
            old(self).wf(),
        ensures
            final(self).wf(),
            *final(self) == *old(self),
            r == old(self).spec_stats(stream_name@, format@),
    {
        if !live_contains(&self.live, stream_name, format) {
            return None;
        }
        proof {
            let j = choose|j: int|
                0 <= j < self.live@.len() && (#[trigger] self.live@[j]).stream@ == stream_name@
                    && self.live@[j].format@ == format@;
            assert(old(self).counter_set_present(stream_name@, format@));
        }
        let el = event_labels(stream_name, format);
        let sl = storage_size_labels(stream_name);
        let events_ingested: i64 = series_peek(&mut self.events_ingested, &el);
        let ingestion_size: i64 = series_peek(&mut self.events_ingested_size, &el);
        let storage_size: i64 = series_peek(&mut self.storage_size, &sl);
        let events_deleted: i64 = series_peek(&mut self.events_deleted, &el);
        let events_deleted_size: i64 = series_peek(&mut self.events_deleted_size, &el);
        let deleted_events_storage_size: i64 = series_peek(
            &mut self.deleted_events_storage_size,
            &sl,
        );
        let lifetime_events_ingested: i64 = series_peek(&mut self.lifetime_events_ingested, &el);
        let lifetime_ingestion_size: i64 = series_peek(
            &mut self.lifetime_events_ingested_size,
            &el,
        );
        let lifetime_events_storage_size: i64 = series_peek(
            &mut self.lifetime_events_storage_size,
            &sl,
        );
        proof {
            assert(*self == *old(self));
        }
        Some(
            FullStats {
                lifetime_stats: Stats {
                    events: lifetime_events_ingested as u64,
                    ingestion: lifetime_ingestion_size as u64,
                    storage: lifetime_events_storage_size as u64,
                },
                current_stats: Stats {
                    events: events_ingested as u64,
                    ingestion: ingestion_size as u64,
                    storage: storage_size as u64,
                },
                deleted_stats: Stats {
                    events: events_deleted as u64,
                    ingestion: events_deleted_size as u64,
                    storage: deleted_events_storage_size as u64,
                },
            },
        )
    }
}

} // verus!
