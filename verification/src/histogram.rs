//! Histograms: an ordered list of upper-bound buckets, one counter per
//! bucket, a total observation count and a running sum, with a builder, a
//! buffered local variant, and the exposition-format rendering.
use vstd::prelude::*;

verus! {

use vstd::string::StringExecFns;
use crate::atomics::AtomicNum;
use crate::error::{PromError, PromErrorKind};
use crate::label::{Label, LabelView, labels_view};
use crate::num::Num;
use crate::registry::{Collectable, Descriptor, DescriptorView};
use crate::render::{help_line, labels_block, pairs_with_commas, push_help_line,
    push_labels_block, push_pairs_with_commas, push_type_line, type_line};
use crate::text::{dec_str, push_u64};

/// `i` is the first bucket whose upper bound admits `val`: the bound at `i`
/// is `>= val` and no earlier bound is.
pub open spec fn found_at<T: Num>(buckets: Seq<T>, val: T, i: int) -> bool {
    &&& 0 <= i < buckets.len()
    &&& val.le_spec(buckets[i])
    &&& forall|j: int| 0 <= j < i ==> !val.le_spec(#[trigger] buckets[j])
}

/// Some bucket admits `val`.
pub open spec fn has_bucket<T: Num>(buckets: Seq<T>, val: T) -> bool {
    exists|i: int| found_at(buckets, val, i)
}

/// The index of the first bucket that admits `val` (meaningful only when
/// `has_bucket` holds; `found_at` is unique when it holds at all).
pub open spec fn first_bucket<T: Num>(buckets: Seq<T>, val: T) -> int {
    choose|i: int| found_at(buckets, val, i)
}

pub proof fn lemma_found_at_unique<T: Num>(buckets: Seq<T>, val: T, i: int, j: int)
    requires
        found_at(buckets, val, i),
        found_at(buckets, val, j),
    ensures
        i == j,
{
    if i < j {
        assert(!val.le_spec(buckets[i]));
    }
    if j < i {
        assert(!val.le_spec(buckets[j]));
    }
}

/// The mathematical content of a histogram core.
pub ghost struct HistCoreView<T> {
    /// Upper bounds, in the order they were supplied.
    pub buckets: Seq<T>,
    /// One tally per bucket, counting the observations whose first matching
    /// bound is that bucket's.
    pub values: Seq<T>,
    /// Total number of observations.
    pub count: u64,
    /// Sum of all observed values.
    pub sum: T,
}

/// A freshly constructed (or cleared) core over the given bounds: every
/// tally, the count and the sum are zero.
pub open spec fn init_core_view<T: Num>(buckets: Seq<T>) -> HistCoreView<T> {
    HistCoreView {
        buckets,
        values: Seq::new(buckets.len(), |i: int| T::zero_spec()),
        count: 0u64,
        sum: T::zero_spec(),
    }
}

/// The bucket tallies after observing `val`: the first admitting bucket's
/// tally grows by one; with no admitting bucket the tallies are unchanged.
pub open spec fn observed_values<T: Num>(buckets: Seq<T>, values: Seq<T>, val: T) -> Seq<T> {
    if has_bucket(buckets, val) {
        let i = first_bucket(buckets, val);
        values.update(i, values[i].add_spec(T::one_spec()))
    } else {
        values
    }
}

/// A core after observing `val`: the matching tally (if any) grows by one,
/// the count by one, and the sum by `val`, whether or not a bucket matched.
pub open spec fn observed_core<T: Num>(v: HistCoreView<T>, val: T) -> HistCoreView<T> {
    HistCoreView {
        buckets: v.buckets,
        values: observed_values(v.buckets, v.values, val),
        count: vstd::wrapping::u64_specs::wrapping_add(v.count, 1u64),
        sum: v.sum.add_spec(val),
    }
}

/// The tallies and statistics of a histogram, without its identity.
pub struct HistogramCore<A: AtomicNum> {
    pub(crate) buckets: Vec<A::Type>,
    pub(crate) values: Vec<A::Type>,
    pub(crate) count: u64,
    pub(crate) sum: A::Type,
}

/// Finds the first bucket whose bound admits `val`.
fn find_bucket<T: Num>(buckets: &Vec<T>, val: T) -> (r: Option<usize>)
    ensures
        match r {
            Some(i) => found_at(buckets@, val, i as int),
            None => !has_bucket(buckets@, val),
        },
{
    let n = buckets.len();
    let mut i: usize = 0;
    while i < n
        invariant
            i <= n,
            n == buckets@.len(),
            forall|j: int| 0 <= j < i ==> !val.le_spec(#[trigger] buckets@[j]),
        decreases n - i,
    {
        if val.le_val(buckets[i]) {
            return Some(i);
        }
        i = i + 1;
    }
    proof {
        if has_bucket(buckets@, val) {
            let k = choose|k: int| found_at(buckets@, val, k);
            assert(!val.le_spec(buckets@[k]));
        }
    }
    None
}

impl<A: AtomicNum> View for HistogramCore<A> {
    type V = HistCoreView<A::Type>;

    closed spec fn view(&self) -> HistCoreView<A::Type> {
        HistCoreView {
            buckets: self.buckets@,
            values: self.values@,
            count: self.count,
            sum: self.sum,
        }
    }
}

impl<A: AtomicNum> HistogramCore<A> {
    /// One tally cell per bucket bound.
    #[verifier::type_invariant]
    closed spec fn wf(self) -> bool {
        self.values@.len() == self.buckets@.len()
    }

    /// Builds a zeroed core over the given bounds.
    pub(crate) fn new(buckets: Vec<A::Type>) -> (r: Self)
        ensures
            r@ == init_core_view(buckets@),
    {
        let mut values: Vec<A::Type> = Vec::new();
        let n = buckets.len();
        let mut i: usize = 0;
        while i < n
            invariant
                i <= n,
                values@.len() == i,
                forall|j: int| 0 <= j < i ==> #[trigger] values@[j]
                    == <A::Type as Num>::zero_spec(),
            decreases n - i,
        {
            values.push(<A::Type as Num>::zero());
            i = i + 1;
        }
        let r = HistogramCore { values, buckets, count: 0, sum: <A::Type as Num>::zero() };
        proof {
            assert(r@.values =~= init_core_view(r.buckets@).values);
        }
        r
    }

    /// Records one observation: the first admitting bucket's tally grows by
    /// one (none, if `val` exceeds every bound), and the count and sum grow
    /// in every case.
    pub fn observe(&mut self, val: A::Type)
        ensures
            final(self)@ == observed_core(old(self)@, val),
    {
        proof {
            use_type_invariant(&*self);
        }
        match find_bucket(&self.buckets, val) {
            Some(idx) => {
                let updated = self.values[idx].add_val(<A::Type as Num>::one());
                self.values[idx] = updated;
                proof {
                    lemma_found_at_unique(
                        self.buckets@,
                        val,
                        idx as int,
                        first_bucket(self.buckets@, val),
                    );
                    assert(self@.values =~= observed_values(
                        old(self)@.buckets,
                        old(self)@.values,
                        val,
                    ));
                }
            },
            None => {
            },
        }
        self.count = self.count.wrapping_add(1);
        self.sum = self.sum.add_val(val);
    }

    /// Resets every tally, the count and the sum to zero; the bounds stay.
    pub fn clear(&mut self)
        ensures
            final(self)@ == init_core_view(old(self)@.buckets),
    {
        proof {
            use_type_invariant(&*self);
        }
        let n = self.values.len();
        let mut i: usize = 0;
        while i < n
            invariant
                i <= n,
                n == self.values@.len(),
                n == self.buckets@.len(),
                self.buckets@ == old(self).buckets@,
                self.count == old(self).count,
                self.sum == old(self).sum,
                forall|j: int| 0 <= j < i ==> #[trigger] self.values@[j]
                    == <A::Type as Num>::zero_spec(),
            decreases n - i,
        {
            self.values[i] = <A::Type as Num>::zero();
            i = i + 1;
        }
        self.count = 0;
        self.sum = <A::Type as Num>::zero();
        proof {
            assert(self@.values =~= init_core_view(old(self)@.buckets).values);
        }
    }

    /// The total number of observations.
    pub fn get_count(&self) -> (r: u64)
        ensures
            r == self@.count,
    {
        self.count
    }

    /// The sum of all observed values.
    pub fn get_sum(&self) -> (r: A::Type)
        ensures
            r == self@.sum,
    {
        self.sum
    }

    /// Records an observation like `observe`, but reports `BucketNotFound`
    /// (touching nothing) when no bound admits `val`; succeeds exactly when
    /// one does. `bucket` only names the expected bound in the error text.
    pub fn observe_bucket(&mut self, val: A::Type, bucket: A::Type) -> (r: Result<
        (),
        PromError,
    >)
        ensures
            r is Ok <==> has_bucket(old(self)@.buckets, val),
            r is Ok ==> final(self)@ == observed_core(old(self)@, val),
            r is Err ==> final(self)@ == old(self)@,
            r is Err ==> r->Err_0.kind_spec() == PromErrorKind::BucketNotFound,
            r is Err ==> r->Err_0.message_spec() == "The bucket "@ + bucket.fmt_spec(false)
                + " doesn't exist"@,
    {
        proof {
            use_type_invariant(&*self);
        }
        match find_bucket(&self.buckets, val) {
            Some(idx) => {
                let updated = self.values[idx].add_val(<A::Type as Num>::one());
                self.values[idx] = updated;
                self.count = self.count.wrapping_add(1);
                self.sum = self.sum.add_val(val);
                proof {
                    lemma_found_at_unique(
                        old(self)@.buckets,
                        val,
                        idx as int,
                        first_bucket(old(self)@.buckets, val),
                    );
                    assert(self@.values =~= observed_values(
                        old(self)@.buckets,
                        old(self)@.values,
                        val,
                    ));
                }
                Ok(())
            },
            None => {
                let mut message = String::new();
                message.append("The bucket ");
                A::format(bucket, &mut message, false);
                message.append(" doesn't exist");
                proof {
                    assert(message@ =~= "The bucket "@ + bucket.fmt_spec(false)
                        + " doesn't exist"@);
                }
                Err(PromError::new(message, PromErrorKind::BucketNotFound))
            },
        }
    }

    /// The bucket bounds, in the order they were supplied.
    pub fn buckets(&self) -> (r: &Vec<A::Type>)
        ensures
            r@ == self@.buckets,
    {
        &self.buckets
    }

    /// The number of buckets, which is also the number of tallies.
    pub fn bucket_count(&self) -> (r: usize)
        ensures
            r == self@.buckets.len(),
            self@.values.len() == self@.buckets.len(),
    {
        proof {
            use_type_invariant(self);
        }
        self.buckets.len()
    }

    /// A copy of the per-bucket tallies.
    pub fn values(&self) -> (r: Vec<A::Type>)
        ensures
            r@ == self@.values,
    {
        let mut out: Vec<A::Type> = Vec::new();
        let n = self.values.len();
        let mut i: usize = 0;
        while i < n
            invariant
                i <= n,
                n == self.values@.len(),
                out@.len() == i,
                forall|j: int| 0 <= j < i ==> #[trigger] out@[j] == self.values@[j],
            decreases n - i,
        {
            out.push(self.values[i]);
            i = i + 1;
        }
        proof {
            assert(out@ =~= self@.values);
        }
        out
    }
}


/// A histogram builder: name, help, labels and buckets are supplied one by
/// one, and `build` checks that everything required is present.
pub struct HistogramBuilder<A: AtomicNum> {
    name: Option<String>,
    help: Option<String>,
    labels: Option<Vec<Label>>,
    buckets: Option<Vec<A::Type>>,
}

impl<A: AtomicNum> HistogramBuilder<A> {
    pub closed spec fn name_spec(&self) -> Option<Seq<char>> {
        match self.name {
            Some(ref s) => Some(s@),
            None => None,
        }
    }

    pub closed spec fn help_spec(&self) -> Option<Seq<char>> {
        match self.help {
            Some(ref s) => Some(s@),
            None => None,
        }
    }

    pub closed spec fn labels_spec(&self) -> Option<Seq<LabelView>> {
        match self.labels {
            Some(ref ls) => Some(labels_view(ls@)),
            None => None,
        }
    }

    pub closed spec fn buckets_spec(&self) -> Option<Seq<A::Type>> {
        match self.buckets {
            Some(ref bs) => Some(bs@),
            None => None,
        }
    }

    /// A builder with nothing supplied yet.
    pub fn new() -> (r: Self)
        ensures
            r.name_spec() is None,
            r.help_spec() is None,
            r.labels_spec() is None,
            r.buckets_spec() is None,
    {
        HistogramBuilder { name: None, help: None, labels: None, buckets: None }
    }

    /// Sets the histogram's name.
    pub fn name(self, name: &str) -> (r: Self)
        ensures
            r.name_spec() == Some(name@),
            r.help_spec() == self.help_spec(),
            r.labels_spec() == self.labels_spec(),
            r.buckets_spec() == self.buckets_spec(),
    {
        HistogramBuilder { name: Some(name.to_owned()), ..self }
    }

    /// Sets the histogram's help text.
    pub fn help(self, help: &str) -> (r: Self)
        ensures
            r.help_spec() == Some(help@),
            r.name_spec() == self.name_spec(),
            r.labels_spec() == self.labels_spec(),
            r.buckets_spec() == self.buckets_spec(),
    {
        HistogramBuilder { help: Some(help.to_owned()), ..self }
    }

    /// Replaces the histogram's labels.
    pub fn with_labels(self, labels: Vec<Label>) -> (r: Self)
        ensures
            r.labels_spec() == Some(labels_view(labels@)),
            r.name_spec() == self.name_spec(),
            r.help_spec() == self.help_spec(),
            r.buckets_spec() == self.buckets_spec(),
    {
        HistogramBuilder { labels: Some(labels), ..self }
    }

    /// Appends one label (starting a list if none was supplied yet).
    pub fn label(self, label: Label) -> (r: Self)
        ensures
            r.labels_spec() == match self.labels_spec() {
                Some(ls) => Some(ls.push(label@)),
                None => Some(seq![label@]),
            },
            r.name_spec() == self.name_spec(),
            r.help_spec() == self.help_spec(),
            r.buckets_spec() == self.buckets_spec(),
    {
        let HistogramBuilder { name, help, labels, buckets } = self;
        let labels = match labels {
            Some(mut ls) => {
                let ghost before = ls@;
                ls.push(label);
                proof {
                    assert(labels_view(ls@) =~= labels_view(before).push(label@));
                }
                ls
            },
            None => {
                let mut ls: Vec<Label> = Vec::new();
                ls.push(label);
                proof {
                    assert(labels_view(ls@) =~= seq![ls@[0]@]);
                }
                ls
            },
        };
        HistogramBuilder { name, help, labels: Some(labels), buckets }
    }

    /// Replaces the histogram's bucket bounds.
    pub fn with_buckets(self, buckets: Vec<A::Type>) -> (r: Self)
        ensures
            r.buckets_spec() == Some(buckets@),
            r.name_spec() == self.name_spec(),
            r.help_spec() == self.help_spec(),
            r.labels_spec() == self.labels_spec(),
    {
        HistogramBuilder { buckets: Some(buckets), ..self }
    }

    /// Appends one bucket bound (starting a list if none was supplied yet).
    pub fn bucket(self, bucket: A::Type) -> (r: Self)
        ensures
            r.buckets_spec() == match self.buckets_spec() {
                Some(bs) => Some(bs.push(bucket)),
                None => Some(seq![bucket]),
            },
            r.name_spec() == self.name_spec(),
            r.help_spec() == self.help_spec(),
            r.labels_spec() == self.labels_spec(),
    {
        let HistogramBuilder { name, help, labels, buckets } = self;
        let buckets = match buckets {
            Some(mut bs) => {
                bs.push(bucket);
                bs
            },
            None => {
                let mut bs: Vec<A::Type> = Vec::new();
                bs.push(bucket);
                proof {
                    assert(bs@ =~= seq![bucket]);
                }
                bs
            },
        };
        HistogramBuilder { name, help, labels, buckets: Some(buckets) }
    }

    /// Finishes the histogram. It succeeds exactly when a name, a help text
    /// and a non-empty bucket list were supplied and the name is a valid
    /// metric name; a missing or empty part is reported as
    /// `MissingComponent`, an invalid name as `InvalidMetricName`.
    pub fn build(self) -> (r: Result<Histogram<A>, PromError>)
        ensures
            r is Ok <==> (self.name_spec() is Some && self.help_spec() is Some
                && self.buckets_spec() is Some && self.buckets_spec()->0.len() > 0
                && crate::label::is_valid_metric_name(self.name_spec()->0)),
            r is Ok ==> r->Ok_0.descriptor_spec() == (DescriptorView {
                name: self.name_spec()->0,
                help: crate::text::escape_help(self.help_spec()->0),
                labels: match self.labels_spec() {
                    Some(ls) => ls,
                    None => Seq::<LabelView>::empty(),
                },
            }),
            r is Ok ==> r->Ok_0.core_spec() == init_core_view(self.buckets_spec()->0),
            r is Err ==> r->Err_0.kind_spec() == (if self.name_spec() is Some
                && self.help_spec() is Some && self.buckets_spec() is Some
                && self.buckets_spec()->0.len() > 0 {
                PromErrorKind::InvalidMetricName
            } else {
                PromErrorKind::MissingComponent
            }),
    {
        let HistogramBuilder { name, help, labels, buckets } = self;
        let name = match name {
            Some(n) => n,
            None => {
                return Err(
                    PromError::new(
                        "Histograms must have a name, but you didn't give one".to_owned(),
                        PromErrorKind::MissingComponent,
                    ),
                );
            },
        };
        let help = match help {
            Some(h) => h,
            None => {
                return Err(
                    PromError::new(
                        "Histograms must have a help, but you didn't give one".to_owned(),
                        PromErrorKind::MissingComponent,
                    ),
                );
            },
        };
        let buckets = match buckets {
            Some(b) => b,
            None => {
                return Err(
                    PromError::new(
                        "Histograms must have buckets, but you didn't give any".to_owned(),
                        PromErrorKind::MissingComponent,
                    ),
                );
            },
        };
        let labels = match labels {
            Some(ls) => ls,
            None => {
                let empty_labels: Vec<Label> = Vec::new();
                proof {
                    assert(labels_view(empty_labels@) =~= Seq::<LabelView>::empty());
                }
                empty_labels
            },
        };
        if buckets.len() == 0 {
            return Err(
                PromError::new(
                    "Histograms cannot have empty buckets".to_owned(),
                    PromErrorKind::MissingComponent,
                ),
            );
        }
        let descriptor = match Descriptor::new(name.as_str(), help.as_str(), labels) {
            Ok(d) => d,
            Err(e) => {
                return Err(e);
            },
        };
        Ok(Histogram { descriptor, core: HistogramCore::new(buckets) })
    }
}

/// The `<name>_sum` line.
pub open spec fn sum_line<T: Num>(d: DescriptorView, sum: T) -> Seq<char> {
    d.name + "_sum"@ + labels_block(d.labels) + sum.fmt_spec(false) + "\n"@
}

/// The `<name>_count` line; the count renders as an unsigned integer.
pub open spec fn count_line(d: DescriptorView, count: u64) -> Seq<char> {
    d.name + "_count"@ + labels_block(d.labels) + dec_str(count as int) + "\n"@
}

/// One `<name>_bucket` line: the descriptor's labels, then the bucket's
/// bound as the quoted `le` label, then that bucket's tally.
pub open spec fn bucket_line<T: Num>(d: DescriptorView, bound: T, tally: T) -> Seq<char> {
    d.name + "_bucket"@ + "{"@ + pairs_with_commas(d.labels, d.labels.len() as int) + "le="@
        + bound.fmt_spec(true) + "} "@ + tally.fmt_spec(false) + "\n"@
}

/// The first `n` bucket lines, in ascending bucket order.
pub open spec fn bucket_lines<T: Num>(d: DescriptorView, core: HistCoreView<T>, n: int) -> Seq<
    char,
>
    decreases n,
{
    if n <= 0 {
        Seq::empty()
    } else {
        bucket_lines(d, core, n - 1) + bucket_line(d, core.buckets[n - 1], core.values[n - 1])
    }
}

/// The exposition text of a histogram at a given state: `# HELP` and
/// `# TYPE` lines, the `_sum` and `_count` lines, then one `_bucket` line
/// per bound.
pub open spec fn histogram_text<T: Num>(d: DescriptorView, core: HistCoreView<T>) -> Seq<char> {
    help_line(d.name, d.help) + type_line(d.name, "histogram"@) + sum_line(d, core.sum)
        + count_line(d, core.count) + bucket_lines(d, core, core.buckets.len() as int)
}

/// A histogram: a core and the identity it renders under. Buckets are fixed
/// at construction; the histogram is never resized or rebuilt.
pub struct Histogram<A: AtomicNum> {
    descriptor: Descriptor,
    core: HistogramCore<A>,
}

impl<A: AtomicNum> Histogram<A> {
    /// The histogram's identity.
    pub closed spec fn descriptor_spec(&self) -> DescriptorView {
        self.descriptor@
    }

    /// The histogram's tallies and statistics.
    pub closed spec fn core_spec(&self) -> HistCoreView<A::Type> {
        self.core@
    }

    /// Records one observation (see `HistogramCore::observe`).
    pub fn observe(&mut self, val: A::Type)
        ensures
            final(self).core_spec() == observed_core(old(self).core_spec(), val),
            final(self).descriptor_spec() == old(self).descriptor_spec(),
    {
        self.core.observe(val)
    }

    /// Resets every tally, the count and the sum to zero.
    pub fn clear(&mut self)
        ensures
            final(self).core_spec() == init_core_view(old(self).core_spec().buckets),
            final(self).descriptor_spec() == old(self).descriptor_spec(),
    {
        self.core.clear()
    }

    /// The total number of observations.
    pub fn get_count(&self) -> (r: u64)
        ensures
            r == self.core_spec().count,
    {
        self.core.get_count()
    }

    /// The sum of all observed values.
    pub fn get_sum(&self) -> (r: A::Type)
        ensures
            r == self.core_spec().sum,
    {
        self.core.get_sum()
    }

    /// A fresh local buffer over this histogram's buckets, with nothing
    /// staged.
    pub fn local(&self) -> (r: LocalHistogram<A::Type>)
        ensures
            r@ == init_core_view(self.core_spec().buckets),
    {
        LocalHistogram::new(&self.core)
    }

    /// The histogram's name.
    pub fn name(&self) -> (r: &str)
        ensures
            r@ == self.descriptor_spec().name,
    {
        self.descriptor.name()
    }

    /// The histogram's help text.
    pub fn help(&self) -> (r: &str)
        ensures
            r@ == self.descriptor_spec().help,
    {
        self.descriptor.help()
    }

    /// The histogram's labels.
    pub fn labels(&self) -> (r: &Vec<Label>)
        ensures
            labels_view(r@) == self.descriptor_spec().labels,
    {
        self.descriptor.labels()
    }

    /// The histogram's bucket bounds.
    pub fn buckets(&self) -> (r: &Vec<A::Type>)
        ensures
            r@ == self.core_spec().buckets,
    {
        self.core.buckets()
    }

    /// A copy of the per-bucket tallies.
    pub fn values(&self) -> (r: Vec<A::Type>)
        ensures
            r@ == self.core_spec().values,
    {
        self.core.values()
    }

    /// Records an observation, failing with `BucketNotFound` when no bound
    /// admits `val` (see `HistogramCore::observe_bucket`).
    pub fn observe_bucket(&mut self, val: A::Type, bucket: A::Type) -> (r: Result<(), PromError>)
        ensures
            r is Ok <==> has_bucket(old(self).core_spec().buckets, val),
            r is Ok ==> final(self).core_spec() == observed_core(old(self).core_spec(), val),
            r is Err ==> final(self).core_spec() == old(self).core_spec(),
            r is Err ==> r->Err_0.kind_spec() == PromErrorKind::BucketNotFound,
            r is Err ==> r->Err_0.message_spec() == "The bucket "@ + bucket.fmt_spec(false)
                + " doesn't exist"@,
            final(self).descriptor_spec() == old(self).descriptor_spec(),
    {
        self.core.observe_bucket(val, bucket)
    }
}

impl<A: AtomicNum> Collectable for Histogram<A> {
    open spec fn text_spec(&self) -> Seq<char> {
        histogram_text(self.descriptor_spec(), self.core_spec())
    }

    open spec fn descriptor_spec(&self) -> DescriptorView {
        Histogram::descriptor_spec(self)
    }

    /// Renders `# HELP`/`# TYPE`, the `_sum` and `_count` lines, then one
    /// `_bucket` line per bound, each carrying the `le` label.
    fn encode_text(&self, buf: &mut String) -> (r: Result<(), PromError>) {
        let ghost d = Histogram::descriptor_spec(self);
        let ghost core = self.core_spec();
        let ghost pre = buf@;
        proof {
            use_type_invariant(&self.core);
        }
        push_help_line(buf, self.name(), self.help());
        push_type_line(buf, self.name(), "histogram");

        buf.append(self.name());
        buf.append("_sum");
        push_labels_block(buf, self.labels());
        A::format(self.get_sum(), buf, false);
        buf.append("\n");
        proof {
            assert(buf@ =~= pre + help_line(d.name, d.help) + type_line(d.name, "histogram"@)
                + sum_line(d, core.sum));
        }

        buf.append(self.name());
        buf.append("_count");
        push_labels_block(buf, self.labels());
        push_u64(buf, self.get_count());
        buf.append("\n");
        let ghost head = pre + help_line(d.name, d.help) + type_line(d.name, "histogram"@)
            + sum_line(d, core.sum) + count_line(d, core.count);
        proof {
            assert(buf@ =~= head);
        }

        let n = self.core.buckets.len();
        let labels = self.labels();
        let nlabels = labels.len();
        let mut i: usize = 0;
        while i < n
            invariant
                i <= n,
                n == core.buckets.len(),
                n == self.core.values@.len(),
                nlabels == d.labels.len(),
                self.core_spec() == core,
                Histogram::descriptor_spec(self) == d,
                labels_view(labels@) == d.labels,
                buf@ == head + bucket_lines(d, core, i as int),
            decreases n - i,
        {
            let ghost lpre = buf@;
            buf.append(self.name());
            buf.append("_bucket");
            buf.append("{");
            push_pairs_with_commas(buf, labels, nlabels);
            buf.append("le=");
            A::format(self.core.buckets[i], buf, true);
            buf.append("} ");
            A::format(self.core.values[i], buf, false);
            buf.append("\n");
            proof {
                assert(self.core.buckets@[i as int] == core.buckets[i as int]);
                assert(self.core.values@[i as int] == core.values[i as int]);
                assert(buf@ =~= lpre + bucket_line(d, core.buckets[i as int], core.values[i as int]));
                assert(buf@ =~= head + bucket_lines(d, core, i + 1));
            }
            i = i + 1;
        }
        proof {
            assert(buf@ =~= pre + histogram_text(d, core));
        }
        Ok(())
    }

    fn descriptor(&self) -> (r: &Descriptor) {
        &self.descriptor
    }
}

/// A core after a local buffer with the given staged state was flushed into
/// it: tallies add pointwise, the count and the sum add.
pub open spec fn flushed_core<T: Num>(core: HistCoreView<T>, staged: HistCoreView<T>) -> HistCoreView<T> {
    HistCoreView {
        buckets: core.buckets,
        values: Seq::new(core.values.len(), |i: int| core.values[i].add_spec(staged.values[i])),
        count: vstd::wrapping::u64_specs::wrapping_add(core.count, staged.count),
        sum: core.sum.add_spec(staged.sum),
    }
}

/// A per-caller staging buffer for one histogram: observations accumulate
/// locally (no shared traffic) until `flush` folds them into the shared
/// core in one pass. Not shared between callers.
pub struct LocalHistogram<T: Num> {
    buckets: Vec<T>,
    values: Vec<T>,
    count: u64,
    sum: T,
}

impl<T: Num> View for LocalHistogram<T> {
    type V = HistCoreView<T>;

    closed spec fn view(&self) -> HistCoreView<T> {
        HistCoreView { buckets: self.buckets@, values: self.values@, count: self.count, sum: self.sum }
    }
}

impl<T: Num> LocalHistogram<T> {
    /// One staged tally per bucket bound.
    #[verifier::type_invariant]
    closed spec fn wf(self) -> bool {
        self.values@.len() == self.buckets@.len()
    }

    /// A fresh buffer over the core's buckets, with nothing staged.
    pub(crate) fn new<A: AtomicNum<Type = T>>(core: &HistogramCore<A>) -> (r: Self)
        ensures
            r@ == init_core_view(core@.buckets),
    {
        let src_buckets = core.buckets();
        let n = src_buckets.len();
        let mut buckets: Vec<T> = Vec::new();
        let mut values: Vec<T> = Vec::new();
        let mut i: usize = 0;
        while i < n
            invariant
                i <= n,
                n == core@.buckets.len(),
                core.buckets@ == core@.buckets,
                buckets@.len() == i,
                values@.len() == i,
                forall|j: int| 0 <= j < i ==> #[trigger] buckets@[j] == core@.buckets[j],
                forall|j: int| 0 <= j < i ==> #[trigger] values@[j] == T::zero_spec(),
            decreases n - i,
        {
            buckets.push(core.buckets[i]);
            values.push(T::zero());
            i = i + 1;
        }
        let r = LocalHistogram { buckets, values, count: 0, sum: T::zero() };
        proof {
            assert(r@.buckets =~= core@.buckets);
            assert(r@.values =~= init_core_view(core@.buckets).values);
        }
        r
    }

    /// Stages one observation in the local buffer: the first admitting
    /// bucket's tally grows by one, and the staged count and sum grow in
    /// every case. Nothing is visible in the shared core until `flush`.
    pub fn observe(&mut self, val: T)
        ensures
            final(self)@ == observed_core(old(self)@, val),
    {
        proof {
            use_type_invariant(&*self);
        }
        match find_bucket(&self.buckets, val) {
            Some(idx) => {
                let updated = self.values[idx].add_val(T::one());
                self.values[idx] = updated;
                proof {
                    lemma_found_at_unique(
                        self.buckets@,
                        val,
                        idx as int,
                        first_bucket(self.buckets@, val),
                    );
                    assert(self@.values =~= observed_values(
                        old(self)@.buckets,
                        old(self)@.values,
                        val,
                    ));
                }
            },
            None => {
            },
        }
        self.count = self.count.wrapping_add(1);
        self.sum = self.sum.add_val(val);
    }

    /// Discards everything staged; the buckets stay.
    pub fn clear(&mut self)
        ensures
            final(self)@ == init_core_view(old(self)@.buckets),
    {
        proof {
            use_type_invariant(&*self);
        }
        let n = self.values.len();
        let mut i: usize = 0;
        while i < n
            invariant
                i <= n,
                n == self.values@.len(),
                n == self.buckets@.len(),
                self.buckets@ == old(self).buckets@,
                self.count == old(self).count,
                self.sum == old(self).sum,
                forall|j: int| 0 <= j < i ==> #[trigger] self.values@[j] == T::zero_spec(),
            decreases n - i,
        {
            self.values[i] = T::zero();
            i = i + 1;
        }
        self.count = 0;
        self.sum = T::zero();
        proof {
            assert(self@.values =~= init_core_view(old(self)@.buckets).values);
        }
    }

    /// The number of staged observations.
    pub fn get_count(&self) -> (r: u64)
        ensures
            r == self@.count,
    {
        self.count
    }

    /// The staged sum.
    pub fn get_sum(&self) -> (r: T)
        ensures
            r == self@.sum,
    {
        self.sum
    }

    /// Folds everything staged into the shared core and resets the buffer.
    /// With zero staged observations this is a no-op: no write reaches the
    /// core. Otherwise the core's tallies grow pointwise by the staged
    /// tallies, its count by the staged count and its sum by the staged sum.
    pub fn flush<A: AtomicNum<Type = T>>(&mut self, histogram: &mut Histogram<A>)
        requires
            old(self)@.buckets.len() == old(histogram).core_spec().buckets.len(),
        ensures
            final(histogram).descriptor_spec() == old(histogram).descriptor_spec(),
            old(self)@.count == 0 ==> final(self)@ == old(self)@ && final(histogram).core_spec()
                == old(histogram).core_spec(),
            old(self)@.count != 0 ==> final(histogram).core_spec() == flushed_core(
                old(histogram).core_spec(),
                old(self)@,
            ) && final(self)@ == init_core_view(old(self)@.buckets),
    {
        proof {
            use_type_invariant(&*self);
            use_type_invariant(&histogram.core);
        }
        if self.count == 0 {
            return;
        }
        let n = self.values.len();
        let mut i: usize = 0;
        while i < n
            invariant
                i <= n,
                n == self.values@.len(),
                n == histogram.core.values@.len(),
                n == histogram.core.buckets@.len(),
                n == old(histogram).core.values@.len(),
                self@ == old(self)@,
                histogram.descriptor@ == old(histogram).descriptor@,
                histogram.core.buckets@ == old(histogram).core.buckets@,
                histogram.core.count == old(histogram).core.count,
                histogram.core.sum == old(histogram).core.sum,
                forall|j: int| 0 <= j < i ==> #[trigger] histogram.core.values@[j] == old(
                    histogram,
                ).core.values@[j].add_spec(old(self)@.values[j]),
                forall|j: int| i <= j < n ==> #[trigger] histogram.core.values@[j] == old(
                    histogram,
                ).core.values@[j],
            decreases n - i,
        {
            let updated = histogram.core.values[i].add_val(self.values[i]);
            histogram.core.values[i] = updated;
            i = i + 1;
        }
        histogram.core.count = histogram.core.count.wrapping_add(self.count);
        histogram.core.sum = histogram.core.sum.add_val(self.sum);
        proof {
            assert(histogram.core@.values =~= flushed_core(
                old(histogram).core@,
                old(self)@,
            ).values);
        }
        self.clear();
    }
}


pub proof fn lemma_le_bound_implies_has_bucket<T: Num>(buckets: Seq<T>, val: T, k: int)
    requires
        0 <= k < buckets.len(),
        val.le_spec(buckets[k]),
    ensures
        has_bucket(buckets, val),
        first_bucket(buckets, val) <= k,
    decreases k,
{
    if forall|j: int| 0 <= j < k ==> !val.le_spec(#[trigger] buckets[j]) {
        assert(found_at(buckets, val, k));
        lemma_found_at_unique(buckets, val, k, first_bucket(buckets, val));
    } else {
        let j = choose|j: int| 0 <= j < k && val.le_spec(#[trigger] buckets[j]);
        lemma_le_bound_implies_has_bucket(buckets, val, j);
    }
}

/// Law: observing a value equal to a bucket's exact upper bound counts in a
/// bucket — the boundary is inclusive ("less-or-equal"). The tally that
/// grows is the first bucket whose bound admits the value, which stands at
/// or before the bound that was hit.
pub proof fn lemma_observe_exact_bound_counts<T: Num>(v: HistCoreView<T>, i: int)
    requires
        0 <= i < v.buckets.len(),
        v.buckets.len() == v.values.len(),
    ensures
        has_bucket(v.buckets, v.buckets[i]),
        first_bucket(v.buckets, v.buckets[i]) <= i,
        observed_core(v, v.buckets[i]).values[first_bucket(v.buckets, v.buckets[i])]
            == v.values[first_bucket(v.buckets, v.buckets[i])].add_spec(T::one_spec()),
{
    T::le_reflexive(v.buckets[i]);
    lemma_le_bound_implies_has_bucket(v.buckets, v.buckets[i], i);
}

/// Law: observing a value that no bucket bound admits increments no bucket
/// tally, but still increments the count and adds the value to the sum.
pub proof fn lemma_observe_beyond_bounds<T: Num>(v: HistCoreView<T>, val: T)
    requires
        forall|j: int| 0 <= j < v.buckets.len() ==> !val.le_spec(#[trigger] v.buckets[j]),
    ensures
        observed_core(v, val).values == v.values,
        observed_core(v, val).count == vstd::wrapping::u64_specs::wrapping_add(v.count, 1u64),
        observed_core(v, val).sum == v.sum.add_spec(val),
{
    if has_bucket(v.buckets, val) {
        let k = choose|k: int| found_at(v.buckets, val, k);
        assert(!val.le_spec(v.buckets[k]));
    }
}

/// Law: a cleared core is indistinguishable from a freshly built one over
/// the same bounds — every tally, the count and the sum are zero — so any
/// observation after `clear` behaves exactly as on a new histogram.
pub proof fn lemma_cleared_is_fresh<T: Num>(buckets: Seq<T>, i: int)
    requires
        0 <= i < buckets.len(),
    ensures
        init_core_view(buckets).values[i] == T::zero_spec(),
        init_core_view(buckets).count == 0u64,
        init_core_view(buckets).sum == T::zero_spec(),
        init_core_view(buckets).buckets == buckets,
{
}


/// A core after a whole sequence of observations, applied in order.
pub open spec fn observed_all<T: Num>(v: HistCoreView<T>, vals: Seq<T>) -> HistCoreView<T>
    decreases vals.len(),
{
    if vals.len() == 0 {
        v
    } else {
        observed_all(observed_core(v, vals[0]), vals.skip(1))
    }
}

/// Law: every observation grows the count by one and at most one tally by
/// one, so after any sequence of observations on a core whose tallies are
/// bounded by its count (a fresh core in particular), the total count is at
/// least every bucket tally — as long as the count stays within its 64-bit
/// range.
pub proof fn lemma_count_bounds_tallies(v: HistCoreView<u64>, vals: Seq<u64>)
    requires
        v.values.len() == v.buckets.len(),
        v.count + vals.len() <= u64::MAX,
        forall|i: int| 0 <= i < v.values.len() ==> #[trigger] v.values[i] <= v.count,
    ensures
        observed_all(v, vals).count == v.count + vals.len(),
        observed_all(v, vals).values.len() == observed_all(v, vals).buckets.len(),
        forall|i: int|
            0 <= i < observed_all(v, vals).values.len() ==> #[trigger] observed_all(
                v,
                vals,
            ).values[i] <= observed_all(v, vals).count,
    decreases vals.len(),
{
    if vals.len() > 0 {
        let v2 = observed_core(v, vals[0]);
        assert(v2.count == v.count + 1);
        assert forall|i: int| 0 <= i < v2.values.len() implies #[trigger] v2.values[i]
            <= v2.count by {
            if has_bucket(v.buckets, vals[0]) {
                let fb = first_bucket(v.buckets, vals[0]);
                assert(found_at(v.buckets, vals[0], fb));
                if i == fb {
                    assert(v.values[fb] <= v.count);
                    assert(v2.values[fb] == v.values[fb].add_spec(1u64));
                }
            }
        }
        lemma_count_bounds_tallies(v2, vals.skip(1));
    }
}

} // verus!
