//! A monotonically increasing counter: its value only grows (by `inc` and
//! `inc_by`) or is reset to zero. Typed variants reject negative increments,
//! either as a precondition or through the fallible `try_inc_by`.
use vstd::prelude::*;

verus! {

use vstd::string::StringExecFns;
use crate::atomics::{AtomicNum, NumCell};
use crate::error::{PromError, PromErrorKind};
use crate::label::{Label, labels_view};
use crate::num::Num;
use crate::registry::{Collectable, Descriptor, DescriptorView};
use crate::render::{help_line, labels_block, push_help_line, push_labels_block, push_type_line,
    type_line};

/// A `Counter` storing a `u64`.
pub type UintCounter = Counter<NumCell<u64>>;

/// A `Counter` storing an `i64`. For a plain integer counter `UintCounter`
/// should be preferred.
pub type IntCounter = Counter<NumCell<i64>>;

/// The exposition text of a counter at a given state: its `# HELP` and
/// `# TYPE` lines, then one sample line.
pub open spec fn counter_text<T: Num>(d: DescriptorView, value: T) -> Seq<char> {
    help_line(d.name, d.help) + type_line(d.name, "counter"@) + d.name + labels_block(d.labels)
        + value.fmt_spec(false) + "\n"@
}

/// A monotonically increasing counter with its descriptor.
#[derive(Debug)]
pub struct Counter<A: AtomicNum> {
    /// The inner value cell.
    value: A,
    /// The counter's identity: name, help and labels.
    descriptor: Descriptor,
}

impl<A: AtomicNum> Counter<A> {
    /// The value the counter currently holds.
    pub closed spec fn value_spec(&self) -> A::Type {
        self.value.value_spec()
    }

    /// The counter's identity.
    pub closed spec fn descriptor_spec(&self) -> DescriptorView {
        self.descriptor@
    }

    /// Creates a zeroed counter without labels; succeeds exactly when `name`
    /// is a valid metric name.
    pub fn new(name: &str, help: &str) -> (r: Result<Self, PromError>)
        ensures
            r is Ok <==> crate::label::is_valid_metric_name(name@),
            r is Ok ==> r->Ok_0.value_spec() == <A::Type as Num>::zero_spec(),
            r is Ok ==> r->Ok_0.descriptor_spec() == (DescriptorView {
                name: name@,
                help: crate::text::escape_help(help@),
                labels: Seq::<crate::label::LabelView>::empty(),
            }),
            r is Err ==> r->Err_0.kind_spec() == PromErrorKind::InvalidMetricName,
    {
        let descriptor = match Descriptor::new(name, help, Vec::new()) {
            Ok(d) => d,
            Err(e) => {
                return Err(e);
            },
        };
        proof {
            assert(labels_view(Seq::<Label>::empty()) =~= Seq::<crate::label::LabelView>::empty());
        }
        Ok(Counter { value: A::new(), descriptor })
    }

    /// Replaces the counter's labels, keeping its name, help and value.
    pub fn with_labels(self, labels: Vec<Label>) -> (r: Self)
        ensures
            r.value_spec() == self.value_spec(),
            r.descriptor_spec() == (DescriptorView {
                name: self.descriptor_spec().name,
                help: self.descriptor_spec().help,
                labels: labels_view(labels@),
            }),
    {
        let Counter { value, descriptor } = self;
        let mut descriptor = descriptor;
        descriptor.set_labels(labels);
        Counter { value, descriptor }
    }

    /// Increment the counter by 1.
    pub fn inc(&mut self)
        ensures
            final(self).value_spec() == old(self).value_spec().add_spec(
                <A::Type as Num>::one_spec(),
            ),
            final(self).descriptor_spec() == old(self).descriptor_spec(),
    {
        self.value.inc();
    }

    /// Increment the counter by `inc`; a negative increment is a contract
    /// violation (see `try_inc_by` for the fallible form).
    pub fn inc_by(&mut self, inc: A::Type)
        requires
            !inc.is_neg_spec(),
        ensures
            final(self).value_spec() == old(self).value_spec().add_spec(inc),
            final(self).descriptor_spec() == old(self).descriptor_spec(),
    {
        self.value.inc_by(inc);
    }

    /// Increment the counter by `inc`, refusing a negative increment with an
    /// `IncrementNegative` error instead of treating it as a contract
    /// violation; succeeds exactly when `inc` is not negative.
    pub fn try_inc_by(&mut self, inc: A::Type) -> (r: Result<(), PromError>)
        ensures
            r is Ok <==> !inc.is_neg_spec(),
            r is Ok ==> final(self).value_spec() == old(self).value_spec().add_spec(inc),
            r is Err ==> final(self).value_spec() == old(self).value_spec(),
            r is Err ==> r->Err_0.kind_spec() == PromErrorKind::IncrementNegative,
            final(self).descriptor_spec() == old(self).descriptor_spec(),
    {
        if inc.is_neg() {
            Err(
                PromError::new(
                    "Counters may only be incremented by a non-negative amount".to_owned(),
                    PromErrorKind::IncrementNegative,
                ),
            )
        } else {
            self.value.inc_by(inc);
            Ok(())
        }
    }

    /// Get the counter's current value.
    pub fn get(&self) -> (r: A::Type)
        ensures
            r == self.value_spec(),
    {
        self.value.get()
    }

    /// Reset the counter's value to 0.
    pub fn clear(&mut self)
        ensures
            final(self).value_spec() == <A::Type as Num>::zero_spec(),
            final(self).descriptor_spec() == old(self).descriptor_spec(),
    {
        self.value.clear()
    }

    /// Set the counter's value to `val` (restart semantics, not a general
    /// decrement).
    pub fn set(&mut self, val: A::Type)
        ensures
            final(self).value_spec() == val,
            final(self).descriptor_spec() == old(self).descriptor_spec(),
    {
        self.value.set(val)
    }

    /// The counter's name.
    pub fn name(&self) -> (r: &str)
        ensures
            r@ == self.descriptor_spec().name,
    {
        self.descriptor.name()
    }

    /// The counter's help text.
    pub fn help(&self) -> (r: &str)
        ensures
            r@ == self.descriptor_spec().help,
    {
        self.descriptor.help()
    }

    /// The counter's labels.
    pub fn labels(&self) -> (r: &Vec<Label>)
        ensures
            labels_view(r@) == self.descriptor_spec().labels,
    {
        self.descriptor.labels()
    }
}

impl<A: AtomicNum> Collectable for Counter<A> {
    open spec fn text_spec(&self) -> Seq<char> {
        counter_text(self.descriptor_spec(), self.value_spec())
    }

    open spec fn descriptor_spec(&self) -> DescriptorView {
        Counter::descriptor_spec(self)
    }

    /// Renders `# HELP`/`# TYPE` lines and the counter's one sample line.
    fn encode_text(&self, buf: &mut String) -> (r: Result<(), PromError>) {
        let ghost pre = buf@;
        push_help_line(buf, self.name(), self.help());
        push_type_line(buf, self.name(), "counter");
        buf.append(self.name());
        push_labels_block(buf, self.labels());
        A::format(self.get(), buf, false);
        buf.append("\n");
        proof {
            assert(buf@ =~= pre + Collectable::text_spec(self));
        }
        Ok(())
    }

    fn descriptor(&self) -> (d: &Descriptor) {
        &self.descriptor
    }
}

/// The value a counter reaches after taking a sequence of increments, each
/// applied with the cell's (wrapping) addition.
pub open spec fn apply_incs<T: Num>(start: T, deltas: Seq<T>) -> T
    decreases deltas.len(),
{
    if deltas.len() == 0 {
        start
    } else {
        apply_incs(start.add_spec(deltas[0]), deltas.skip(1))
    }
}

/// The mathematical sum of a sequence of deltas.
pub open spec fn seq_sum(deltas: Seq<u64>) -> int
    decreases deltas.len(),
{
    if deltas.len() == 0 {
        0
    } else {
        deltas[0] + seq_sum(deltas.skip(1))
    }
}

pub proof fn lemma_seq_sum_nonneg(deltas: Seq<u64>)
    ensures
        seq_sum(deltas) >= 0,
    decreases deltas.len(),
{
    if deltas.len() > 0 {
        lemma_seq_sum_nonneg(deltas.skip(1));
    }
}

pub proof fn lemma_seq_sum_concat(a: Seq<u64>, b: Seq<u64>)
    ensures
        seq_sum(a + b) == seq_sum(a) + seq_sum(b),
    decreases a.len(),
{
    if a.len() == 0 {
        assert(a + b =~= b);
    } else {
        assert((a + b).skip(1) =~= a.skip(1) + b);
        assert((a + b)[0] == a[0]);
        lemma_seq_sum_concat(a.skip(1), b);
    }
}

/// Law: a `u64` counter that starts at `start` and takes any sequence of
/// `inc`/`inc_by` increments ends at exactly the sum of the start value and
/// every delta — no update is lost — provided that sum stays within the
/// counter's range.
pub proof fn lemma_counter_sum_of_increments(start: u64, deltas: Seq<u64>)
    requires
        start + seq_sum(deltas) <= u64::MAX,
    ensures
        apply_incs(start, deltas) == start + seq_sum(deltas),
    decreases deltas.len(),
{
    if deltas.len() == 0 {
    } else {
        lemma_seq_sum_nonneg(deltas.skip(1));
        assert(start.add_spec(deltas[0]) == start + deltas[0]);
        lemma_counter_sum_of_increments((start + deltas[0]) as u64, deltas.skip(1));
    }
}

/// Law: under the same no-overflow bound, a `u64` counter's value is
/// monotonically non-decreasing at every observation point along a sequence
/// of increments.
pub proof fn lemma_counter_monotonic(start: u64, deltas: Seq<u64>, i: int)
    requires
        0 <= i < deltas.len(),
        start + seq_sum(deltas) <= u64::MAX,
    ensures
        apply_incs(start, deltas.take(i)) <= apply_incs(start, deltas.take(i + 1)),
{
    let prefix = deltas.take(i);
    let next = deltas.take(i + 1);
    assert(deltas =~= next + deltas.skip(i + 1));
    assert(next =~= prefix + seq![deltas[i]]);
    lemma_seq_sum_concat(next, deltas.skip(i + 1));
    lemma_seq_sum_concat(prefix, seq![deltas[i]]);
    lemma_seq_sum_nonneg(deltas.skip(i + 1));
    lemma_seq_sum_nonneg(prefix);
    assert(seq_sum(Seq::<u64>::empty()) == 0);
    assert(seq![deltas[i]].skip(1) =~= Seq::<u64>::empty());
    assert(seq![deltas[i]].len() == 1 && seq![deltas[i]][0] == deltas[i]);
    assert(seq_sum(seq![deltas[i]]) == deltas[i]);
    lemma_counter_sum_of_increments(start, prefix);
    lemma_counter_sum_of_increments(start, next);
}

} // verus!
