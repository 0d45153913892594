//! Trusted boundary to the prometheus metrics registry.
//!
//! One [`CounterSeries`] value is one family of integer counter series (a
//! `prometheus::IntGaugeVec`), addressed by ordered label values. The
//! registry auto-vivifies a zero-valued series on first label-values access
//! and provides per-series atomic reads and writes; everything above that —
//! saturation, clamping, teardown bookkeeping — is verified code in the
//! accounting manager.
//!
//! The registry keys the children of a family by a hash of the label
//! values' bytes, written one after another with no separator, so two
//! tuples with the same concatenation address the same series. The model
//! below is therefore keyed by the concatenation of the label values
//! ([`crate::labels::joined`]); where the accounting manager needs distinct
//! tuples to address distinct series, it proves the concatenations distinct
//! from the shapes of its keys. One assumption remains: the registry's
//! 64-bit FNV hash is taken as injective on distinct concatenations — a
//! colliding pair would alias two series in the real registry as silently
//! as in any program using it.

use vstd::prelude::*;
use crate::labels::joined;
use crate::labels::views_of;

verus! {

/// One family of integer counter series, addressed by ordered label values.
///
/// Verus refuses the declaration of `prometheus::IntGaugeVec` itself: the
/// alias expands to `MetricVec<GaugeVecBuilder<AtomicI64>>`, and the builder
/// type is not publicly nameable outside prometheus. The vec therefore
/// lives in a hidden field behind the trusted methods below.
#[verifier::external_body]
pub struct CounterSeries {
    vec: prometheus::IntGaugeVec,
}

/// The contents of a counter family: the value of each existing series,
/// keyed by the concatenation of its label values.
pub uninterp spec fn series_entries(v: CounterSeries) -> Map<Seq<char>, int>;

/// The number of variable labels the family was created with.
pub uninterp spec fn series_arity(v: CounterSeries) -> nat;

/// The value of the series under a key; zero when the series is absent,
/// matching the zero start value of a freshly vivified series.
pub open spec fn entry_or_zero(m: Map<Seq<char>, int>, k: Seq<char>) -> int {
    if m.contains_key(k) {
        m[k]
    } else {
        0
    }
}

/// A metric name the registry accepts: `[a-zA-Z_:]` first, then also
/// digits.
pub open spec fn spec_metric_name_ok(s: Seq<char>) -> bool {
    &&& s.len() > 0
    &&& ('a' <= s[0] <= 'z' || 'A' <= s[0] <= 'Z' || s[0] == '_' || s[0] == ':')
    &&& forall|i: int|
        0 < i < s.len() ==> ('a' <= #[trigger] s[i] <= 'z' || 'A' <= s[i] <= 'Z' || s[i] == '_'
            || s[i] == ':' || '0' <= s[i] <= '9')
}

/// A label name the registry accepts: `[a-zA-Z_]` first, then also digits.
pub open spec fn spec_label_name_ok(s: Seq<char>) -> bool {
    &&& s.len() > 0
    &&& ('a' <= s[0] <= 'z' || 'A' <= s[0] <= 'Z' || s[0] == '_')
    &&& forall|i: int|
        0 < i < s.len() ==> ('a' <= #[trigger] s[i] <= 'z' || 'A' <= s[i] <= 'Z' || s[i] == '_'
            || '0' <= s[i] <= '9')
}

/// A family descriptor the registry accepts: a valid metric name, a
/// non-empty help string, and distinct valid label names.
pub open spec fn spec_descriptor_ok(name: Seq<char>, help: Seq<char>, labels: Seq<Seq<char>>) -> bool {
    &&& spec_metric_name_ok(name)
    &&& help.len() > 0
    &&& forall|i: int| 0 <= i < labels.len() ==> spec_label_name_ok(#[trigger] labels[i])
    &&& forall|i: int, j: int| 0 <= i < j < labels.len() ==> labels[i] != labels[j]
}

impl CounterSeries {
    /// Relies on `prometheus::IntGaugeVec::new` (with `prometheus::Opts`): a
    /// freshly created vec holds no series and keeps the given variable
    /// label count; creation fails exactly when the descriptor is refused,
    /// and the descriptor checks are a valid metric name, a non-empty help
    /// string, and distinct valid label names.
    #[verifier::external_body]
    pub(crate) fn new(name: &str, help: &str, label_names: &[&str]) -> (r: Option<CounterSeries>)
        ensures
            match r {
                Some(v) => series_entries(v) == Map::<Seq<char>, int>::empty() && series_arity(v)
                    == label_names@.len(),
                None => true,
            },
            spec_descriptor_ok(name@, help@, views_of(label_names@)) ==> r is Some,
    {
        match prometheus::IntGaugeVec::new(prometheus::Opts::new(name, help), label_names) {
            Ok(vec) => Some(CounterSeries { vec }),
            Err(_) => None,
        }
    }

    /// Relies on `MetricVec::with_label_values` (get-or-create; panics only
    /// on a label count other than the vec's own, which `requires` rules
    /// out) and `GenericGauge::get`: returns the value of the series the
    /// concatenated label values address, creating it at zero on first
    /// access; a read of an existing series changes nothing.
    #[verifier::external_body]
    pub(crate) fn read(&mut self, labels: &[&str]) -> (r: i64)
        requires
            labels@.len() == series_arity(*old(self)),
        ensures
            series_arity(*final(self)) == series_arity(*old(self)),
            series_entries(*final(self)) == series_entries(*old(self)).insert(
                joined(views_of(labels@)),
                r as int,
            ),
            r as int == entry_or_zero(series_entries(*old(self)), joined(views_of(labels@))),
            series_entries(*old(self)).contains_key(joined(views_of(labels@))) ==> *final(self)
                == *old(self),
    {
        self.vec.with_label_values(labels).get()
    }

    /// Relies on `MetricVec::with_label_values` and `GenericGauge::set`: the
    /// series the concatenated label values address holds `value`
    /// afterwards; no series under another key is touched.
    #[verifier::external_body]
    pub(crate) fn write(&mut self, labels: &[&str], value: i64)
        requires
            labels@.len() == series_arity(*old(self)),
        ensures
            series_arity(*final(self)) == series_arity(*old(self)),
            series_entries(*final(self)) == series_entries(*old(self)).insert(
                joined(views_of(labels@)),
                value as int,
            ),
    {
        self.vec.with_label_values(labels).set(value);
    }

    /// Relies on `MetricVec::remove_label_values`: removes the series the
    /// concatenated label values address and reports whether one existed;
    /// removing an absent series errs and removes nothing.
    #[verifier::external_body]
    pub(crate) fn remove(&mut self, labels: &[&str]) -> (removed: bool)
        requires
            labels@.len() == series_arity(*old(self)),
        ensures
            series_arity(*final(self)) == series_arity(*old(self)),
            series_entries(*final(self)) == series_entries(*old(self)).remove(
                joined(views_of(labels@)),
            ),
            removed == series_entries(*old(self)).contains_key(joined(views_of(labels@))),
    {
        self.vec.remove_label_values(labels).is_ok()
    }
}

} // verus!
