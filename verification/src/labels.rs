//! Label-tuple builders: the ordered label values that address the counter
//! series of one stream in the metrics registry.
//!
//! Tuple order is significant and fixed; callers must not reorder. The
//! storage-size tuples prepend a constant `"data"` discriminator and append a
//! constant `"parquet"` encoding tag: storage accounting is always against
//! the columnar on-disk representation, regardless of ingest format.
//!
//! The registry addresses a series by the concatenation of its label values
//! (see the registry module), so the spec key of each tuple shape is that
//! concatenation. With the format tag drawn from the static enumeration and
//! dates in calendar-day shape, the four shapes are injective, which the
//! accounting manager's key lemmas prove.

use vstd::prelude::*;

verus! {

/// The view of a list of label values: each label as its character sequence.
pub open spec fn views_of(labels: Seq<&str>) -> Seq<Seq<char>> {
    labels.map_values(|s: &str| s@)
}

/// The concatenation of a list of label values: how the registry addresses
/// the series of a family.
pub open spec fn joined(labels: Seq<Seq<char>>) -> Seq<char>
    decreases labels.len(),
{
    if labels.len() == 0 {
        Seq::empty()
    } else {
        joined(labels.drop_last()) + labels.last()
    }
}

/// The format tag is a static enumeration token, immutable once a counter
/// series exists for it.
pub open spec fn spec_valid_format(f: Seq<char>) -> bool {
    f == "json"@ || f == "parquet"@
}

/// A date partition key is a calendar-day string of the fixed shape
/// `YYYY-MM-DD`.
pub open spec fn spec_valid_date(d: Seq<char>) -> bool {
    &&& d.len() == 10
    &&& d[4] == '-'
    &&& d[7] == '-'
    &&& forall|i: int| 0 <= i < 10 && i != 4 && i != 7 ==> '0' <= #[trigger] d[i] <= '9'
}

/// Key of the event-count and ingestion-size series of one stream and format.
pub open spec fn spec_event_key(stream: Seq<char>, format: Seq<char>) -> Seq<char> {
    stream + format
}

/// Key of the storage-size series of one stream (shared by all formats).
pub open spec fn spec_storage_key(stream: Seq<char>) -> Seq<char> {
    "data"@ + stream + "parquet"@
}

/// Key of the date-partitioned event and ingestion-size series.
pub open spec fn spec_event_date_key(
    stream: Seq<char>,
    format: Seq<char>,
    date: Seq<char>,
) -> Seq<char> {
    stream + format + date
}

/// Key of the date-partitioned storage-size series.
pub open spec fn spec_storage_date_key(stream: Seq<char>, date: Seq<char>) -> Seq<char> {
    "data"@ + stream + "parquet"@ + date
}

/// Labels addressing event-count and ingestion-size series: `(stream, format)`.
pub fn event_labels<'a>(stream_name: &'a str, format: &'a str) -> (r: [&'a str; 2])
    ensures
        r@.len() == 2,
        r@[0]@ == stream_name@,
        r@[1]@ == format@,
        joined(views_of(r@)) == spec_event_key(stream_name@, format@),
{
    let r = [stream_name, format];
    proof {
        let v = views_of(r@);
        assert(v =~= seq![stream_name@, format@]);
        lemma_joined_two(v);
    }
    r
}

/// Labels addressing storage-size series: `("data", stream, "parquet")`.
pub fn storage_size_labels<'a>(stream_name: &'a str) -> (r: [&'a str; 3])
    ensures
        r@.len() == 3,
        r@[0]@ == "data"@,
        r@[1]@ == stream_name@,
        r@[2]@ == "parquet"@,
        joined(views_of(r@)) == spec_storage_key(stream_name@),
{
    let r = ["data", stream_name, "parquet"];
    proof {
        let v = views_of(r@);
        assert(v =~= seq!["data"@, stream_name@, "parquet"@]);
        lemma_joined_three(v);
    }
    r
}

/// Labels addressing date-partitioned event and ingestion-size series:
/// `(stream, format, date)`.
pub fn event_labels_date<'a>(
    stream_name: &'a str,
    format: &'a str,
    date: &'a str,
) -> (r: [&'a str; 3])
    ensures
        r@.len() == 3,
        r@[0]@ == stream_name@,
        r@[1]@ == format@,
        r@[2]@ == date@,
        joined(views_of(r@)) == spec_event_date_key(stream_name@, format@, date@),
{
    let r = [stream_name, format, date];
    proof {
        let v = views_of(r@);
        assert(v =~= seq![stream_name@, format@, date@]);
        lemma_joined_three(v);
    }
    r
}

/// Labels addressing date-partitioned storage-size series:
/// `("data", stream, "parquet", date)`.
pub fn storage_size_labels_date<'a>(stream_name: &'a str, date: &'a str) -> (r: [&'a str; 4])
    ensures
        r@.len() == 4,
        r@[0]@ == "data"@,
        r@[1]@ == stream_name@,
        r@[2]@ == "parquet"@,
        r@[3]@ == date@,
        joined(views_of(r@)) == spec_storage_date_key(stream_name@, date@),
{
    let r = ["data", stream_name, "parquet", date];
    proof {
        let v = views_of(r@);
        assert(v =~= seq!["data"@, stream_name@, "parquet"@, date@]);
        lemma_joined_three(v.drop_last());
        assert(v.drop_last() =~= seq!["data"@, stream_name@, "parquet"@]);
        assert(joined(v) == joined(v.drop_last()) + date@);
    }
    r
}

/// The concatenation of a two-label tuple.
proof fn lemma_joined_two(v: Seq<Seq<char>>)
    requires
        v.len() == 2,
    ensures
        joined(v) == v[0] + v[1],
{
    assert(v.drop_last() =~= seq![v[0]]);
    assert(seq![v[0]].drop_last() =~= Seq::<Seq<char>>::empty());
    assert(joined(Seq::<Seq<char>>::empty()) == Seq::<char>::empty());
    assert(joined(seq![v[0]]) == Seq::<char>::empty() + v[0]);
    assert(Seq::<char>::empty() + v[0] =~= v[0]);
    assert(joined(v) == joined(v.drop_last()) + v.last());
}

/// The concatenation of a three-label tuple.
proof fn lemma_joined_three(v: Seq<Seq<char>>)
    requires
        v.len() == 3,
    ensures
        joined(v) == v[0] + v[1] + v[2],
{
    assert(v.drop_last() =~= seq![v[0], v[1]]);
    lemma_joined_two(v.drop_last());
    assert(joined(v) == joined(v.drop_last()) + v.last());
}

} // verus!
