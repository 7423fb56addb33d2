//! A gauge: a metric whose value may increase or decrease arbitrarily, with
//! labeled typed variants for the integer value types.
use vstd::prelude::*;

verus! {

use crate::atomics::{AtomicNum, NumCell};
use crate::error::PromError;
use crate::label::{Label, LabelView, Labeled, Metric, labels_view};
use crate::num::Num;

/// Relies on std::time::SystemTime: the whole seconds elapsed since the Unix
/// epoch, or zero if the system clock stands before it.
#[verifier::external_body]
fn unix_time_secs() -> u64 {
    std::time::SystemTime::UNIX_EPOCH.elapsed().map(|d| d.as_secs()).unwrap_or(0)
}

/// A bare gauge: one value cell, mutable in both directions.
#[derive(Debug)]
pub struct Gauge<A: AtomicNum> {
    value: A,
}

impl<A: AtomicNum> Gauge<A> {
    /// The value the gauge currently holds.
    pub closed spec fn value_spec(&self) -> A::Type {
        self.value.value_spec()
    }

    /// Creates a zeroed gauge.
    pub fn new() -> (r: Self)
        ensures
            r.value_spec() == <A::Type as Num>::zero_spec(),
    {
        Gauge { value: A::new() }
    }

    /// Increment the gauge by 1.
    pub fn inc(&mut self)
        ensures
            final(self).value_spec() == old(self).value_spec().add_spec(
                <A::Type as Num>::one_spec(),
            ),
    {
        self.value.inc();
    }

    /// Increment the gauge by `inc`.
    pub fn inc_by(&mut self, inc: A::Type)
        ensures
            final(self).value_spec() == old(self).value_spec().add_spec(inc),
    {
        self.value.inc_by(inc);
    }

    /// Decrement the gauge by 1.
    pub fn dec(&mut self)
        ensures
            final(self).value_spec() == old(self).value_spec().sub_spec(
                <A::Type as Num>::one_spec(),
            ),
    {
        self.value.dec();
    }

    /// Decrement the gauge by `dec`.
    pub fn dec_by(&mut self, dec: A::Type)
        ensures
            final(self).value_spec() == old(self).value_spec().sub_spec(dec),
    {
        self.value.dec_by(dec);
    }

    /// Set the gauge to `val`.
    pub fn set(&mut self, val: A::Type)
        ensures
            final(self).value_spec() == val,
    {
        self.value.set(val);
    }

    /// Get the gauge's current value.
    pub fn get(&self) -> (r: A::Type)
        ensures
            r == self.value_spec(),
    {
        self.value.get()
    }

    /// Reset the gauge to 0.
    pub fn clear(&mut self)
        ensures
            final(self).value_spec() == <A::Type as Num>::zero_spec(),
    {
        self.value.clear()
    }

    /// Set the gauge to the current Unix timestamp in seconds. The clock
    /// decides the value; the contract promises only that some whole number
    /// of seconds was written.
    pub fn set_to_current_time(&mut self)
        ensures
            exists|t: u64| final(self).value_spec() == <A::Type as Num>::from_u64_spec(t),
    {
        let current_time = unix_time_secs();
        self.value.set(<A::Type as Num>::from_u64(current_time));
        proof {
            assert(final(self).value_spec() == <A::Type as Num>::from_u64_spec(current_time));
        }
    }
}

impl<A: AtomicNum> Metric for Gauge<A> {
    open spec fn metric_kind_spec(&self) -> Seq<char> {
        "gauge"@
    }

    fn metric_kind(&self) -> &'static str {
        "gauge"
    }
}

/// A labeled gauge storing a `u64`.
#[derive(Debug)]
pub struct UintGauge(Labeled<Gauge<NumCell<u64>>>);

impl UintGauge {
    /// The value the gauge currently holds.
    pub closed spec fn value_spec(&self) -> u64 {
        self.0.data_spec().value_spec()
    }

    /// The gauge's name.
    pub closed spec fn name_spec(&self) -> Seq<char> {
        self.0.name_spec()
    }

    /// The gauge's description.
    pub closed spec fn description_spec(&self) -> Seq<char> {
        self.0.description_spec()
    }

    /// The gauge's labels.
    pub closed spec fn labels_spec(&self) -> Seq<LabelView> {
        self.0.labels_spec()
    }

    /// Everything but the value is unchanged.
    pub open spec fn same_identity_as(&self, other: &Self) -> bool {
        self.name_spec() == other.name_spec() && self.description_spec()
            == other.description_spec() && self.labels_spec() == other.labels_spec()
    }

    /// Creates a zeroed labeled gauge; succeeds exactly when `name` is a
    /// valid metric name.
    pub fn new(name: &str, description: &str) -> (r: Result<Self, PromError>)
        ensures
            r is Ok <==> crate::label::is_valid_metric_name(name@),
            r is Ok ==> r->Ok_0.value_spec() == 0u64 && r->Ok_0.name_spec() == name@
                && r->Ok_0.description_spec() == description@ && r->Ok_0.labels_spec() == Seq::<
                LabelView,
            >::empty(),
            r is Err ==> r->Err_0.kind_spec() == crate::error::PromErrorKind::InvalidMetricName,
    {
        match Labeled::new(Gauge::<NumCell<u64>>::new(), name, description) {
            Ok(labeled) => Ok(UintGauge(labeled)),
            Err(e) => Err(e),
        }
    }

    /// Increment the gauge by 1 (wrapping at the type's bound).
    pub fn inc(&mut self)
        ensures
            final(self).value_spec() == old(self).value_spec().add_spec(1u64),
            final(self).same_identity_as(old(self)),
    {
        self.0.data_mut().inc();
    }

    /// Increment the gauge by `inc`.
    pub fn inc_by(&mut self, inc: u64)
        ensures
            final(self).value_spec() == old(self).value_spec().add_spec(inc),
            final(self).same_identity_as(old(self)),
    {
        self.0.data_mut().inc_by(inc);
    }

    /// Decrement the gauge by 1.
    pub fn dec(&mut self)
        ensures
            final(self).value_spec() == old(self).value_spec().sub_spec(1u64),
            final(self).same_identity_as(old(self)),
    {
        self.0.data_mut().dec();
    }

    /// Decrement the gauge by `dec`.
    pub fn dec_by(&mut self, dec: u64)
        ensures
            final(self).value_spec() == old(self).value_spec().sub_spec(dec),
            final(self).same_identity_as(old(self)),
    {
        self.0.data_mut().dec_by(dec);
    }

    /// Set the gauge to `val`.
    pub fn set(&mut self, val: u64)
        ensures
            final(self).value_spec() == val,
            final(self).same_identity_as(old(self)),
    {
        self.0.data_mut().set(val);
    }

    /// Get the gauge's current value.
    pub fn get(&self) -> (r: u64)
        ensures
            r == self.value_spec(),
    {
        self.0.data().get()
    }

    /// Reset the gauge to 0.
    pub fn clear(&mut self)
        ensures
            final(self).value_spec() == 0u64,
            final(self).same_identity_as(old(self)),
    {
        self.0.data_mut().clear();
    }

    /// Set the gauge to the current Unix timestamp in seconds.
    pub fn set_to_current_time(&mut self)
        ensures
            final(self).same_identity_as(old(self)),
    {
        self.0.data_mut().set_to_current_time();
    }

    /// The gauge's name.
    pub fn name(&self) -> (r: &str)
        ensures
            r@ == self.name_spec(),
    {
        self.0.name()
    }

    /// The gauge's description.
    pub fn description(&self) -> (r: &str)
        ensures
            r@ == self.description_spec(),
    {
        self.0.description()
    }

    /// Replaces the gauge's labels.
    pub fn with_labels(self, labels: Vec<Label>) -> (r: Self)
        ensures
            r.value_spec() == self.value_spec(),
            r.name_spec() == self.name_spec(),
            r.description_spec() == self.description_spec(),
            r.labels_spec() == labels_view(labels@),
    {
        let UintGauge(inner) = self;
        let mut inner = inner;
        inner.set_labels(labels);
        UintGauge(inner)
    }

    /// The gauge's labels.
    pub fn labels(&self) -> (r: &Vec<Label>)
        ensures
            labels_view(r@) == self.labels_spec(),
    {
        self.0.labels()
    }
}

/// A labeled gauge storing an `i64`.
#[derive(Debug)]
pub struct IntGauge(Labeled<Gauge<NumCell<i64>>>);

impl IntGauge {
    /// The value the gauge currently holds.
    pub closed spec fn value_spec(&self) -> i64 {
        self.0.data_spec().value_spec()
    }

    /// The gauge's name.
    pub closed spec fn name_spec(&self) -> Seq<char> {
        self.0.name_spec()
    }

    /// The gauge's description.
    pub closed spec fn description_spec(&self) -> Seq<char> {
        self.0.description_spec()
    }

    /// The gauge's labels.
    pub closed spec fn labels_spec(&self) -> Seq<LabelView> {
        self.0.labels_spec()
    }

    /// Everything but the value is unchanged.
    pub open spec fn same_identity_as(&self, other: &Self) -> bool {
        self.name_spec() == other.name_spec() && self.description_spec()
            == other.description_spec() && self.labels_spec() == other.labels_spec()
    }

    /// Creates a zeroed labeled gauge; succeeds exactly when `name` is a
    /// valid metric name.
    pub fn new(name: &str, description: &str) -> (r: Result<Self, PromError>)
        ensures
            r is Ok <==> crate::label::is_valid_metric_name(name@),
            r is Ok ==> r->Ok_0.value_spec() == 0i64 && r->Ok_0.name_spec() == name@
                && r->Ok_0.description_spec() == description@ && r->Ok_0.labels_spec() == Seq::<
                LabelView,
            >::empty(),
            r is Err ==> r->Err_0.kind_spec() == crate::error::PromErrorKind::InvalidMetricName,
    {
        match Labeled::new(Gauge::<NumCell<i64>>::new(), name, description) {
            Ok(labeled) => Ok(IntGauge(labeled)),
            Err(e) => Err(e),
        }
    }

    /// Increment the gauge by 1 (wrapping at the type's bound).
    pub fn inc(&mut self)
        ensures
            final(self).value_spec() == old(self).value_spec().add_spec(1i64),
            final(self).same_identity_as(old(self)),
    {
        self.0.data_mut().inc();
    }

    /// Increment the gauge by `inc`.
    pub fn inc_by(&mut self, inc: i64)
        ensures
            final(self).value_spec() == old(self).value_spec().add_spec(inc),
            final(self).same_identity_as(old(self)),
    {
        self.0.data_mut().inc_by(inc);
    }

    /// Decrement the gauge by 1.
    pub fn dec(&mut self)
        ensures
            final(self).value_spec() == old(self).value_spec().sub_spec(1i64),
            final(self).same_identity_as(old(self)),
    {
        self.0.data_mut().dec();
    }

    /// Decrement the gauge by `dec`.
    pub fn dec_by(&mut self, dec: i64)
        ensures
            final(self).value_spec() == old(self).value_spec().sub_spec(dec),
            final(self).same_identity_as(old(self)),
    {
        self.0.data_mut().dec_by(dec);
    }

    /// Set the gauge to `val`.
    pub fn set(&mut self, val: i64)
        ensures
            final(self).value_spec() == val,
            final(self).same_identity_as(old(self)),
    {
        self.0.data_mut().set(val);
    }

    /// Get the gauge's current value.
    pub fn get(&self) -> (r: i64)
        ensures
            r == self.value_spec(),
    {
        self.0.data().get()
    }

    /// Reset the gauge to 0.
    pub fn clear(&mut self)
        ensures
            final(self).value_spec() == 0i64,
            final(self).same_identity_as(old(self)),
    {
        self.0.data_mut().clear();
    }

    /// Set the gauge to the current Unix timestamp in seconds.
    pub fn set_to_current_time(&mut self)
        ensures
            final(self).same_identity_as(old(self)),
    {
        self.0.data_mut().set_to_current_time();
    }

    /// The gauge's name.
    pub fn name(&self) -> (r: &str)
        ensures
            r@ == self.name_spec(),
    {
        self.0.name()
    }

    /// The gauge's description.
    pub fn description(&self) -> (r: &str)
        ensures
            r@ == self.description_spec(),
    {
        self.0.description()
    }

    /// Replaces the gauge's labels.
    pub fn with_labels(self, labels: Vec<Label>) -> (r: Self)
        ensures
            r.value_spec() == self.value_spec(),
            r.name_spec() == self.name_spec(),
            r.description_spec() == self.description_spec(),
            r.labels_spec() == labels_view(labels@),
    {
        let IntGauge(inner) = self;
        let mut inner = inner;
        inner.set_labels(labels);
        IntGauge(inner)
    }

    /// The gauge's labels.
    pub fn labels(&self) -> (r: &Vec<Label>)
        ensures
            labels_view(r@) == self.labels_spec(),
    {
        self.0.labels()
    }
}


/// The value a gauge reaches after a sequence of signed deltas, each applied
/// with the cell's (wrapping) addition; a decrement is the addition of a
/// negative delta.
pub open spec fn apply_deltas(start: i64, deltas: Seq<i64>) -> i64
    decreases deltas.len(),
{
    if deltas.len() == 0 {
        start
    } else {
        apply_deltas(start.add_spec(deltas[0]), deltas.skip(1))
    }
}

/// The mathematical sum of a sequence of signed deltas.
pub open spec fn deltas_sum(deltas: Seq<i64>) -> int
    decreases deltas.len(),
{
    if deltas.len() == 0 {
        0
    } else {
        deltas[0] + deltas_sum(deltas.skip(1))
    }
}

pub proof fn lemma_deltas_sum_concat(a: Seq<i64>, b: Seq<i64>)
    ensures
        deltas_sum(a + b) == deltas_sum(a) + deltas_sum(b),
    decreases a.len(),
{
    if a.len() == 0 {
        assert(a + b =~= b);
    } else {
        assert((a + b).skip(1) =~= a.skip(1) + b);
        assert((a + b)[0] == a[0]);
        lemma_deltas_sum_concat(a.skip(1), b);
    }
}

/// Law: a gauge that starts at `start` and takes any sequence of increments
/// and decrements ends at exactly the sum of the start value and every
/// signed delta — no update is lost — provided every intermediate value
/// stays within the gauge's range.
pub proof fn lemma_gauge_sum_of_deltas(start: i64, deltas: Seq<i64>)
    requires
        forall|i: int|
            0 <= i <= deltas.len() ==> i64::MIN <= start + deltas_sum(#[trigger] deltas.take(i))
                <= i64::MAX,
    ensures
        apply_deltas(start, deltas) == start + deltas_sum(deltas),
    decreases deltas.len(),
{
    if deltas.len() == 0 {
    } else {
        let first = deltas[0];
        let rest = deltas.skip(1);
        assert(deltas.take(0) =~= Seq::<i64>::empty());
        assert(deltas.take(1) =~= seq![first]);
        assert(seq![first].skip(1) =~= Seq::<i64>::empty());
        assert(deltas_sum(deltas.take(1)) == first);
        assert(i64::MIN <= start + first <= i64::MAX);
        assert(start.add_spec(first) == start + first);
        let next = (start + first) as i64;
        assert forall|i: int|
            0 <= i <= rest.len() implies i64::MIN <= next + deltas_sum(#[trigger] rest.take(i))
            <= i64::MAX by {
            assert(deltas.take(i + 1) =~= seq![first] + rest.take(i));
            lemma_deltas_sum_concat(seq![first], rest.take(i));
            assert(deltas_sum(seq![first]) == first);
            assert(i64::MIN <= start + deltas_sum(deltas.take(i + 1)) <= i64::MAX);
        }
        lemma_gauge_sum_of_deltas(next, rest);
        assert(deltas =~= seq![first] + rest);
        lemma_deltas_sum_concat(seq![first], rest);
        assert(deltas_sum(seq![first]) == first);
    }
}

} // verus!
