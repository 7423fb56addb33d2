//! Metric identity and collection: the `Descriptor` every collector carries,
//! the `Collectable` interface, and the `Registry` that renders a fixed,
//! deduplicated, name-sorted set of collectors.
use vstd::prelude::*;

verus! {

use crate::error::{PromError, PromErrorKind};
use crate::label::{Label, LabelView, labels_view, is_valid_metric_name, valid_metric_name};
use crate::text::{escape_help, escaped_help};
use vstd::multiset::Multiset;

/// The mathematical content of a descriptor: validated name, escaped help,
/// labels in caller-supplied order.
pub ghost struct DescriptorView {
    pub name: Seq<char>,
    pub help: Seq<char>,
    pub labels: Seq<LabelView>,
}

/// The immutable identity of a metric: its validated name, its help text
/// (stored with backslashes and newlines escaped), and its ordered labels.
#[derive(Debug, PartialEq, Eq)]
pub struct Descriptor {
    name: String,
    help: String,
    pub(crate) labels: Vec<Label>,
}

impl View for Descriptor {
    type V = DescriptorView;

    closed spec fn view(&self) -> DescriptorView {
        DescriptorView { name: self.name@, help: self.help@, labels: labels_view(self.labels@) }
    }
}

impl Clone for Descriptor {
    fn clone(&self) -> (r: Self)
        ensures
            r@ == self@,
    {
        Descriptor {
            name: self.name.clone(),
            help: self.help.clone(),
            labels: clone_labels(&self.labels),
        }
    }
}

fn clone_labels(labels: &Vec<Label>) -> (r: Vec<Label>)
    ensures
        labels_view(r@) == labels_view(labels@),
{
    let mut out: Vec<Label> = Vec::new();
    let mut i: usize = 0;
    while i < labels.len()
        invariant
            i <= labels@.len(),
            out@.len() == i,
            forall|j: int| 0 <= j < i ==> (#[trigger] out@[j])@ == labels@[j]@,
        decreases labels@.len() - i,
    {
        out.push(labels[i].clone());
        i = i + 1;
    }
    proof {
        assert forall|j: int| 0 <= j < labels@.len() implies labels_view(out@)[j] == labels_view(
            labels@,
        )[j] by {
            assert(labels_view(out@)[j] == out@[j]@);
            assert(labels_view(labels@)[j] == labels@[j]@);
        }
        assert(labels_view(out@) =~= labels_view(labels@));
    }
    out
}

/// Two descriptors name the same metric: same name and the same ordered
/// label list (help text does not enter the identity).
pub open spec fn same_identity(a: DescriptorView, b: DescriptorView) -> bool {
    a.name == b.name && a.labels == b.labels
}

impl Descriptor {
    /// Builds the identity of a metric. The name must be a valid metric
    /// name, and exactly then the call succeeds; the help text is stored
    /// with backslashes and newlines escaped, once, here.
    pub fn new(name: &str, help: &str, labels: Vec<Label>) -> (r: Result<Self, PromError>)
        ensures
            r is Ok <==> is_valid_metric_name(name@),
            r is Ok ==> r->Ok_0@ == (DescriptorView {
                name: name@,
                help: escape_help(help@),
                labels: labels_view(labels@),
            }),
            r is Err ==> r->Err_0.kind_spec() == PromErrorKind::InvalidMetricName,
    {
        if !valid_metric_name(name) {
            return Err(
                PromError::new(
                    "Metric name contains invalid characters".to_owned(),
                    PromErrorKind::InvalidMetricName,
                ),
            );
        }
        Ok(Descriptor { name: name.to_owned(), help: escaped_help(help), labels })
    }

    /// The metric's name.
    pub fn name(&self) -> (r: &str)
        ensures
            r@ == self@.name,
    {
        self.name.as_str()
    }

    /// The metric's help text, as escaped at construction.
    pub fn help(&self) -> (r: &str)
        ensures
            r@ == self@.help,
    {
        self.help.as_str()
    }

    /// The metric's labels, in the order the caller supplied them.
    pub fn labels(&self) -> (r: &Vec<Label>)
        ensures
            labels_view(r@) == self@.labels,
    {
        &self.labels
    }

    /// Replaces the labels, keeping the name and the help text.
    pub fn set_labels(&mut self, labels: Vec<Label>)
        ensures
            final(self)@ == (DescriptorView {
                name: old(self)@.name,
                help: old(self)@.help,
                labels: labels_view(labels@),
            }),
    {
        self.labels = labels;
    }

    /// Decides whether `self` and `other` name the same metric.
    pub fn matches_identity(&self, other: &Descriptor) -> (r: bool)
        ensures
            r == same_identity(self@, other@),
    {
        if !(self.name == other.name) {
            proof {
                assert(self@.name != other@.name);
            }
            return false;
        }
        if self.labels.len() != other.labels.len() {
            proof {
                assert(self@.labels.len() != other@.labels.len());
            }
            return false;
        }
        let n = self.labels.len();
        let mut i: usize = 0;
        while i < n
            invariant
                i <= n,
                n == self.labels@.len(),
                n == other.labels@.len(),
                self@.name == other@.name,
                self@.labels.len() == other@.labels.len(),
                forall|j: int| 0 <= j < i ==> self@.labels[j] == other@.labels[j],
            decreases n - i,
        {
            let a = &self.labels[i];
            let b = &other.labels[i];
            proof {
                crate::label::lemma_label_view(&self.labels@[i as int]);
                crate::label::lemma_label_view(&other.labels@[i as int]);
                assert(self@.labels[i as int] == self.labels@[i as int]@);
                assert(other@.labels[i as int] == other.labels@[i as int]@);
            }
            if !(a.label == b.label) || !(a.value == b.value) {
                proof {
                    assert(self@.labels[i as int] != other@.labels[i as int]);
                }
                return false;
            }
            proof {
                assert(self@.labels[i as int] == other@.labels[i as int]);
            }
            i = i + 1;
        }
        proof {
            assert(self@.labels =~= other@.labels);
        }
        true
    }
}

/// What the registry asks of a collector: its identity, and its own
/// exposition-format lines, whose exact text its contract pins.
pub trait Collectable: Sized {
    /// The full text this collector renders at its current state.
    spec fn text_spec(&self) -> Seq<char>;

    /// The identity this collector renders under.
    spec fn descriptor_spec(&self) -> DescriptorView;

    /// Appends this collector's exposition lines to `buf`; never fails.
    fn encode_text(&self, buf: &mut String) -> (r: Result<(), PromError>)
        ensures
            r is Ok,
            final(buf)@ == old(buf)@ + self.text_spec(),
    ;

    /// The collector's descriptor.
    fn descriptor(&self) -> (d: &Descriptor)
        ensures
            d@ == self.descriptor_spec(),
    ;
}

/// One registered collector: a tagged union over the known metric kinds, so
/// the registry can hold a mixed set without dynamic dispatch. Group
/// variants hold the string-keyed families.
pub enum Collector {
    UintCounter(crate::counter::Counter<crate::atomics::NumCell<u64>>),
    IntCounter(crate::counter::Counter<crate::atomics::NumCell<i64>>),
    UintHistogram(crate::histogram::Histogram<crate::atomics::NumCell<u64>>),
    IntHistogram(crate::histogram::Histogram<crate::atomics::NumCell<i64>>),
    UintCounterGroup(crate::group::CounterGroup<String, crate::atomics::NumCell<u64>>),
    UintHistogramGroup(crate::group::HistogramGroup<String, crate::atomics::NumCell<u64>>),
}

impl Collectable for Collector {
    open spec fn text_spec(&self) -> Seq<char> {
        match self {
            Collector::UintCounter(c) => c.text_spec(),
            Collector::IntCounter(c) => c.text_spec(),
            Collector::UintHistogram(h) => h.text_spec(),
            Collector::IntHistogram(h) => h.text_spec(),
            Collector::UintCounterGroup(g) => g.text_spec(),
            Collector::UintHistogramGroup(g) => g.text_spec(),
        }
    }

    open spec fn descriptor_spec(&self) -> DescriptorView {
        match self {
            Collector::UintCounter(c) => Collectable::descriptor_spec(c),
            Collector::IntCounter(c) => Collectable::descriptor_spec(c),
            Collector::UintHistogram(h) => Collectable::descriptor_spec(h),
            Collector::IntHistogram(h) => Collectable::descriptor_spec(h),
            Collector::UintCounterGroup(g) => Collectable::descriptor_spec(g),
            Collector::UintHistogramGroup(g) => Collectable::descriptor_spec(g),
        }
    }

    fn encode_text(&self, buf: &mut String) -> (r: Result<(), PromError>) {
        match self {
            Collector::UintCounter(c) => c.encode_text(buf),
            Collector::IntCounter(c) => c.encode_text(buf),
            Collector::UintHistogram(h) => h.encode_text(buf),
            Collector::IntHistogram(h) => h.encode_text(buf),
            Collector::UintCounterGroup(g) => g.encode_text(buf),
            Collector::UintHistogramGroup(g) => g.encode_text(buf),
        }
    }

    fn descriptor(&self) -> (d: &Descriptor) {
        match self {
            Collector::UintCounter(c) => c.descriptor(),
            Collector::IntCounter(c) => c.descriptor(),
            Collector::UintHistogram(h) => h.descriptor(),
            Collector::IntHistogram(h) => h.descriptor(),
            Collector::UintCounterGroup(g) => g.descriptor(),
            Collector::UintHistogramGroup(g) => g.descriptor(),
        }
    }
}

/// The name a collector renders under.
pub open spec fn coll_name(c: &Collector) -> Seq<char> {
    Collectable::descriptor_spec(c).name
}

/// The collectors stand in name-ascending order.
pub open spec fn sorted_by_name(s: Seq<Collector>) -> bool {
    forall|i: int, j: int|
        0 <= i < j < s.len() ==> crate::text::lex_le(coll_name(&s[i]), coll_name(&s[j]))
}

/// Two of the collectors name the same metric.
pub open spec fn has_duplicate(s: Seq<Collector>) -> bool {
    exists|i: int, j: int|
        #![trigger s[i], s[j]]
        0 <= i < j < s.len() && same_identity(
            Collectable::descriptor_spec(&s[i]),
            Collectable::descriptor_spec(&s[j]),
        )
}

/// `j` is the first collector that repeats an earlier one's identity.
pub open spec fn first_dup_at(s: Seq<Collector>, j: int) -> bool {
    &&& 0 <= j < s.len()
    &&& !has_duplicate(s.take(j))
    &&& exists|p: int|
        0 <= p < j && same_identity(
            Collectable::descriptor_spec(&#[trigger] s[p]),
            Collectable::descriptor_spec(&s[j]),
        )
}

/// The index of the first collector that repeats an earlier one
/// (meaningful only when a duplicate exists; unique when it holds at all).
pub open spec fn first_duplicate(s: Seq<Collector>) -> int {
    choose|j: int| first_dup_at(s, j)
}

pub proof fn lemma_first_dup_at_unique(s: Seq<Collector>, i: int, j: int)
    requires
        first_dup_at(s, i),
        first_dup_at(s, j),
    ensures
        i == j,
{
    if i < j {
        let p = choose|p: int|
            0 <= p < i && same_identity(
                Collectable::descriptor_spec(&#[trigger] s[p]),
                Collectable::descriptor_spec(&s[i]),
            );
        assert(s.take(j)[p] == s[p]);
        assert(s.take(j)[i] == s[i]);
        assert(has_duplicate(s.take(j)));
    }
    if j < i {
        let p = choose|p: int|
            0 <= p < j && same_identity(
                Collectable::descriptor_spec(&#[trigger] s[p]),
                Collectable::descriptor_spec(&s[j]),
            );
        assert(s.take(i)[p] == s[p]);
        assert(s.take(i)[j] == s[j]);
        assert(has_duplicate(s.take(i)));
    }
}

impl Collector {
    /// The collector's name.
    pub fn name(&self) -> (r: &str)
        ensures
            r@ == coll_name(self),
    {
        self.descriptor().name()
    }
}

/// Sorts collectors by name (lexicographically on code points), keeping
/// exactly the same collectors.
fn sort_by_name(input: Vec<Collector>) -> (r: Vec<Collector>)
    ensures
        r@.to_multiset() == input@.to_multiset(),
        sorted_by_name(r@),
{
    broadcast use vstd::seq_lib::group_to_multiset_ensures;

    let mut rest = input;
    let mut out: Vec<Collector> = Vec::new();
    proof {
        assert(out@.to_multiset().add(rest@.to_multiset()) =~= input@.to_multiset());
    }
    while rest.len() > 0
        invariant
            out@.to_multiset().add(rest@.to_multiset()) == input@.to_multiset(),
            sorted_by_name(out@),
            forall|i: int, j: int|
                0 <= i < out@.len() && 0 <= j < rest@.len() ==> crate::text::lex_le(
                    coll_name(&out@[i]),
                    coll_name(&rest@[j]),
                ),
        decreases rest@.len(),
    {
        let mut min: usize = 0;
        let mut k: usize = 1;
        proof {
            crate::text::lemma_lex_le_total(coll_name(&rest@[0]), coll_name(&rest@[0]));
        }
        while k < rest.len()
            invariant
                (min as int) < rest@.len(),
                1 <= k <= rest@.len(),
                forall|j: int|
                    0 <= j < k ==> crate::text::lex_le(
                        coll_name(&rest@[min as int]),
                        #[trigger] coll_name(&rest@[j]),
                    ),
            decreases rest@.len() - k,
        {
            proof {
                crate::text::lemma_lex_le_total(
                    coll_name(&rest@[k as int]),
                    coll_name(&rest@[k as int]),
                );
            }
            if crate::text::str_lex_le(rest[k].name(), rest[min].name()) {
                proof {
                    assert forall|j: int| 0 <= j < k implies crate::text::lex_le(
                        coll_name(&rest@[k as int]),
                        #[trigger] coll_name(&rest@[j]),
                    ) by {
                        crate::text::lemma_lex_le_trans(
                            coll_name(&rest@[k as int]),
                            coll_name(&rest@[min as int]),
                            coll_name(&rest@[j]),
                        );
                    }
                }
                min = k;
            } else {
                proof {
                    crate::text::lemma_lex_le_total(
                        coll_name(&rest@[k as int]),
                        coll_name(&rest@[min as int]),
                    );
                }
            }
            k = k + 1;
        }
        let ghost rest_before = rest@;
        let ghost out_before = out@;
        let item = rest.remove(min);
        let ghost moved = rest_before[min as int];
        out.push(item);
        proof {
            rest_before.to_multiset_ensures();
            out_before.to_multiset_ensures();
            assert(rest_before.contains(moved));
            assert(rest_before.to_multiset().count(moved) > 0);
            assert(rest@.to_multiset() =~= rest_before.to_multiset().remove(moved));
            assert(out@.to_multiset() =~= out_before.to_multiset().insert(moved));
            assert(out@.to_multiset().add(rest@.to_multiset()) =~= input@.to_multiset());
            assert forall|i: int, j: int|
                0 <= i < out@.len() && 0 <= j < rest@.len() implies crate::text::lex_le(
                coll_name(&out@[i]),
                coll_name(&rest@[j]),
            ) by {
                if j < min as int {
                    assert(rest@[j] == rest_before[j]);
                } else {
                    assert(rest@[j] == rest_before[j + 1]);
                }
            }
        }
    }
    proof {
        assert(rest@.to_multiset() =~= Multiset::<Collector>::empty());
        assert(out@.to_multiset() =~= input@.to_multiset());
    }
    out
}

/// Collects the collectors a registry will hold; `build` checks for
/// duplicates and sorts.
pub struct RegistryBuilder {
    inputs: Option<Vec<Collector>>,
}

impl RegistryBuilder {
    /// The collectors registered so far, in registration order.
    pub closed spec fn inputs_spec(&self) -> Option<Seq<Collector>> {
        match self.inputs {
            Some(ref v) => Some(v@),
            None => None,
        }
    }

    /// A builder with nothing registered.
    pub fn new() -> (r: Self)
        ensures
            r.inputs_spec() is None,
    {
        RegistryBuilder { inputs: None }
    }

    /// Replaces the registered collectors.
    pub fn register_all(self, inputs: Vec<Collector>) -> (r: Self)
        ensures
            r.inputs_spec() == Some(inputs@),
    {
        RegistryBuilder { inputs: Some(inputs) }
    }

    /// Registers one more collector.
    pub fn register(self, input: Collector) -> (r: Self)
        ensures
            r.inputs_spec() == match self.inputs_spec() {
                Some(v) => Some(v.push(input)),
                None => Some(seq![input]),
            },
    {
        let RegistryBuilder { inputs } = self;
        let inputs = match inputs {
            Some(mut v) => {
                v.push(input);
                v
            },
            None => {
                let mut v: Vec<Collector> = Vec::new();
                v.push(input);
                proof {
                    assert(v@ =~= seq![input]);
                }
                v
            },
        };
        RegistryBuilder { inputs: Some(inputs) }
    }

    /// Finishes the registry. It succeeds exactly when at least one
    /// collector was registered and no two collectors share a name and
    /// label list; the registry then holds exactly the registered
    /// collectors, sorted by name. An empty builder is reported as
    /// `MissingComponent`; a duplicate pair as `DuplicatedCollector`, with
    /// the message naming the first collector that repeats an earlier one.
    pub fn build(self) -> (r: Result<Registry, PromError>)
        ensures
            r is Ok <==> (self.inputs_spec() is Some && self.inputs_spec()->0.len() > 0
                && !has_duplicate(self.inputs_spec()->0)),
            r is Ok ==> r->Ok_0.inputs_spec().to_multiset() == self.inputs_spec()->0.to_multiset(),
            r is Ok ==> sorted_by_name(r->Ok_0.inputs_spec()),
            r is Err ==> r->Err_0.kind_spec() == (if self.inputs_spec() is Some
                && self.inputs_spec()->0.len() > 0 {
                PromErrorKind::DuplicatedCollector
            } else {
                PromErrorKind::MissingComponent
            }),
            r is Err && self.inputs_spec() is Some && self.inputs_spec()->0.len() > 0
                ==> r->Err_0.message_spec() == coll_name(
                &self.inputs_spec()->0[first_duplicate(self.inputs_spec()->0)],
            ) + " was registered twice"@,
    {
        broadcast use vstd::seq_lib::group_to_multiset_ensures;

        let mut raw_inputs = match self.inputs {
            Some(v) => v,
            None => {
                return Err(
                    PromError::new(
                        "Registries must have at least one collection source".to_owned(),
                        PromErrorKind::MissingComponent,
                    ),
                );
            },
        };
        if raw_inputs.len() == 0 {
            return Err(
                PromError::new(
                    "Registries must have at least one collection source".to_owned(),
                    PromErrorKind::MissingComponent,
                ),
            );
        }
        let ghost all = raw_inputs@;
        let mut accepted: Vec<Collector> = Vec::new();
        let n = raw_inputs.len();
        let mut i: usize = 0;
        while i < n
            invariant
                i <= n,
                n == all.len(),
                n > 0,
                self.inputs_spec() == Some(all),
                accepted@ == all.take(i as int),
                raw_inputs@ == all.skip(i as int),
                !has_duplicate(all.take(i as int)),
            decreases n - i,
        {
            proof {
                assert(all.skip(i as int)[0] == all[i as int]);
            }
            let input = raw_inputs.remove(0);
            let mut j: usize = 0;
            let m = accepted.len();
            while j < m
                invariant
                    j <= m,
                    m == accepted@.len(),
                    all.len() > 0,
                    self.inputs_spec() == Some(all),
                    accepted@ == all.take(i as int),
                    !has_duplicate(all.take(i as int)),
                    i < all.len(),
                    input == all[i as int],
                    forall|p: int|
                        0 <= p < j ==> !same_identity(
                            Collectable::descriptor_spec(&#[trigger] accepted@[p]),
                            Collectable::descriptor_spec(&all[i as int]),
                        ),
                decreases m - j,
            {
                if accepted[j].descriptor().matches_identity(input.descriptor()) {
                    let mut message = input.descriptor().name().to_owned();
                    message.append(" was registered twice");
                    proof {
                        assert(accepted@[j as int] == all[j as int]);
                        assert(same_identity(
                            Collectable::descriptor_spec(&all[j as int]),
                            Collectable::descriptor_spec(&all[i as int]),
                        ));
                        assert(0 <= j < i < all.len());
                        assert(has_duplicate(all));
                        assert(first_dup_at(all, i as int));
                        lemma_first_dup_at_unique(all, i as int, first_duplicate(all));
                        assert(message@ =~= coll_name(&all[i as int])
                            + " was registered twice"@);
                    }
                    return Err(PromError::new(message, PromErrorKind::DuplicatedCollector));
                }
                j = j + 1;
            }
            accepted.push(input);
            proof {
                assert(accepted@ =~= all.take(i + 1));
                assert(raw_inputs@ =~= all.skip(i + 1));
                assert forall|p: int, q: int|
                    #![trigger all.take(i + 1)[p], all.take(i + 1)[q]]
                    0 <= p < q < i + 1 implies !same_identity(
                    Collectable::descriptor_spec(&all.take(i + 1)[p]),
                    Collectable::descriptor_spec(&all.take(i + 1)[q]),
                ) by {
                    if q < i as int {
                        assert(!has_duplicate(all.take(i as int)));
                        assert(all.take(i as int)[p] == all.take(i + 1)[p]);
                        assert(all.take(i as int)[q] == all.take(i + 1)[q]);
                    } else {
                        assert(all.take(i + 1)[p] == accepted@[p]);
                    }
                }
            }
            i = i + 1;
        }
        proof {
            assert(all.take(n as int) =~= all);
        }
        let sorted = sort_by_name(accepted);
        Ok(Registry { inputs: sorted })
    }
}

/// The concatenated exposition text of the first `n` collectors.
pub open spec fn collectors_text(s: Seq<Collector>, n: int) -> Seq<char>
    decreases n,
{
    if n <= 0 {
        Seq::empty()
    } else {
        collectors_text(s, n - 1) + s[n - 1].text_spec()
    }
}

/// An immutable, name-sorted, duplicate-free set of collectors, built once
/// and read on every collection request.
pub struct Registry {
    inputs: Vec<Collector>,
}

impl Registry {
    /// The collectors, in name-ascending order.
    pub closed spec fn inputs_spec(&self) -> Seq<Collector> {
        self.inputs@
    }

    /// Renders every collector's exposition lines, in the registry's sorted
    /// order, into one string.
    pub fn collect_to_string(&self) -> (r: Result<String, PromError>)
        ensures
            r is Ok,
            r is Ok ==> r->Ok_0@ == collectors_text(
                self.inputs_spec(),
                self.inputs_spec().len() as int,
            ),
    {
        let mut buf = String::new();
        let n = self.inputs.len();
        let mut i: usize = 0;
        while i < n
            invariant
                i <= n,
                n == self.inputs@.len(),
                buf@ == collectors_text(self.inputs_spec(), i as int),
            decreases n - i,
        {
            match self.inputs[i].encode_text(&mut buf) {
                Ok(()) => {
                },
                Err(e) => {
                    return Err(e);
                },
            }
            i = i + 1;
        }
        Ok(buf)
    }

    /// Borrows every collector, in the registry's sorted order, as a
    /// `Metric` handle.
    pub fn collect(&self) -> (r: Vec<Metric<'_>>)
        ensures
            r@.len() == self.inputs_spec().len(),
            forall|i: int|
                0 <= i < r@.len() ==> (#[trigger] r@[i]).value_spec() == &self.inputs_spec()[i],
    {
        let mut metrics: Vec<Metric<'_>> = Vec::new();
        let n = self.inputs.len();
        let mut i: usize = 0;
        while i < n
            invariant
                i <= n,
                n == self.inputs@.len(),
                metrics@.len() == i,
                forall|j: int|
                    0 <= j < i ==> (#[trigger] metrics@[j]).value_spec() == &self.inputs@[j],
            decreases n - i,
        {
            let input = &self.inputs[i];
            metrics.push(Metric::new(input, input.descriptor()));
            i = i + 1;
        }
        metrics
    }

    /// Touches every registered collector; useful when the registry sits in
    /// a lazily initialised static.
    pub fn init_registered(&self) {
        let _metrics = self.collect();
    }
}

/// A borrowed view of one collector: its identity fields and a handle that
/// renders it.
pub struct Metric<'a> {
    name: &'a str,
    help: &'a str,
    labels: &'a Vec<Label>,
    pub(crate) value: &'a Collector,
}

impl<'a> Metric<'a> {
    /// The collector this handle renders.
    pub closed spec fn value_spec(&self) -> &'a Collector {
        self.value
    }

    /// Borrows `value` under the identity in `descriptor`.
    pub(crate) fn new(value: &'a Collector, descriptor: &'a Descriptor) -> (r: Self)
        ensures
            r.value_spec() == value,
    {
        Metric {
            name: descriptor.name(),
            help: descriptor.help(),
            labels: descriptor.labels(),
            value,
        }
    }

    /// Appends the collector's exposition lines to `buf`; never fails.
    pub fn encode_text(&self, buf: &mut String) -> (r: Result<(), PromError>)
        ensures
            r is Ok,
            final(buf)@ == old(buf)@ + self.value_spec().text_spec(),
    {
        self.value.encode_text(buf)
    }
}

} // verus!
