//! Vector metrics: a family of counters or histograms under one name, told
//! apart by the value of one label. Entries are fixed at construction and
//! looked up by key; iteration order is the construction order, so rendering
//! is deterministic.
use vstd::prelude::*;

verus! {

use core::marker::PhantomData;
use vstd::string::StringExecFns;
use crate::atomics::AtomicNum;
use crate::error::{PromError, PromErrorKind};
use crate::histogram::{HistCoreView, HistogramCore, init_core_view};
use crate::label::{Label, LabelView, labels_view, is_valid_label_name, is_valid_metric_name,
    valid_label_name};
use crate::num::Num;
use crate::registry::{Collectable, Descriptor, DescriptorView};
use crate::render::{help_line, label_pair_text, pairs_with_commas, push_help_line,
    push_label_pair, push_pairs_with_commas, push_type_line, type_line};
use crate::text::{dec_str, escape_value, push_u64};

/// A key that names one member of a group.
pub trait Key: Sized {
    /// The name under which this key's entry is stored and rendered.
    spec fn name_spec(&self) -> Seq<char>;

    fn key_name(&self) -> (r: String)
        ensures
            r@ == self.name_spec(),
    ;
}

impl Key for String {
    open spec fn name_spec(&self) -> Seq<char> {
        self@
    }

    fn key_name(&self) -> (r: String)
        ensures
            r@ == self.name_spec(),
    {
        self.clone()
    }
}

/// `i` is the first entry stored under `name`.
pub open spec fn name_found_at(names: Seq<Seq<char>>, name: Seq<char>, i: int) -> bool {
    &&& 0 <= i < names.len()
    &&& names[i] == name
    &&& forall|j: int| 0 <= j < i ==> #[trigger] names[j] != name
}

/// Some entry is stored under `name`.
pub open spec fn has_name(names: Seq<Seq<char>>, name: Seq<char>) -> bool {
    exists|i: int| name_found_at(names, name, i)
}

/// The index of the first entry stored under `name` (meaningful only when
/// `has_name` holds).
pub open spec fn name_index(names: Seq<Seq<char>>, name: Seq<char>) -> int {
    choose|i: int| name_found_at(names, name, i)
}

pub proof fn lemma_name_found_at_unique(names: Seq<Seq<char>>, name: Seq<char>, i: int, j: int)
    requires
        name_found_at(names, name, i),
        name_found_at(names, name, j),
    ensures
        i == j,
{
    if i < j {
        assert(names[i] != name);
    }
    if j < i {
        assert(names[j] != name);
    }
}

/// A fixed family of values, each stored under a key's name.
pub struct Group<T, K: Key> {
    names: Vec<String>,
    metrics: Vec<T>,
    _key: PhantomData<K>,
}

fn find_name(names: &Vec<String>, name: &String) -> (r: Option<usize>)
    ensures
        match r {
            Some(i) => name_found_at(names@.map_values(|s: String| s@), name@, i as int),
            None => !has_name(names@.map_values(|s: String| s@), name@),
        },
{
    let ghost seqv = names@.map_values(|s: String| s@);
    let n = names.len();
    let mut i: usize = 0;
    while i < n
        invariant
            i <= n,
            n == names@.len(),
            seqv == names@.map_values(|s: String| s@),
            forall|j: int| 0 <= j < i ==> #[trigger] seqv[j] != name@,
        decreases n - i,
    {
        if names[i].eq(name) {
            proof {
                assert(seqv[i as int] == names@[i as int]@);
            }
            return Some(i);
        }
        proof {
            assert(seqv[i as int] == names@[i as int]@);
        }
        i = i + 1;
    }
    proof {
        if has_name(seqv, name@) {
            let k = choose|k: int| name_found_at(seqv, name@, k);
            assert(seqv[k] != name@);
        }
    }
    None
}

impl<T, K: Key> Group<T, K> {
    /// One value per stored name.
    #[verifier::type_invariant]
    closed spec fn group_wf(self) -> bool {
        self.metrics@.len() == self.names@.len()
    }

    /// The names the entries are stored under, in construction order.
    pub closed spec fn names_spec(&self) -> Seq<Seq<char>> {
        self.names@.map_values(|s: String| s@)
    }

    /// The entries, in construction order.
    pub closed spec fn metrics_spec(&self) -> Seq<T> {
        self.metrics@
    }

    /// Builds a group from parallel name and value lists.
    pub(crate) fn new(names: Vec<String>, metrics: Vec<T>) -> (r: Self)
        requires
            names@.len() == metrics@.len(),
        ensures
            r.names_spec() == names@.map_values(|s: String| s@),
            r.metrics_spec() == metrics@,
    {
        Group { names, metrics, _key: PhantomData }
    }

    /// The entry stored under `key`'s name; the name must be present.
    pub fn get(&self, key: K) -> (r: &T)
        requires
            has_name(self.names_spec(), key.name_spec()),
        ensures
            r == self.metrics_spec()[name_index(self.names_spec(), key.name_spec())],
    {
        proof {
            use_type_invariant(self);
        }
        let name = key.key_name();
        match find_name(&self.names, &name) {
            Some(i) => {
                proof {
                    lemma_name_found_at_unique(
                        self.names_spec(),
                        key.name_spec(),
                        i as int,
                        name_index(self.names_spec(), key.name_spec()),
                    );
                }
                &self.metrics[i]
            },
            None => vstd::pervasive::unreached(),
        }
    }

    /// The entry stored under `key`'s name, or `None` when the name is
    /// absent.
    pub fn try_get(&self, key: K) -> (r: Option<&T>)
        ensures
            match r {
                Some(t) => has_name(self.names_spec(), key.name_spec()) && t
                    == &self.metrics_spec()[name_index(self.names_spec(), key.name_spec())],
                None => !has_name(self.names_spec(), key.name_spec()),
            },
    {
        proof {
            use_type_invariant(self);
        }
        let name = key.key_name();
        match find_name(&self.names, &name) {
            Some(i) => {
                proof {
                    lemma_name_found_at_unique(
                        self.names_spec(),
                        key.name_spec(),
                        i as int,
                        name_index(self.names_spec(), key.name_spec()),
                    );
                }
                Some(&self.metrics[i])
            },
            None => None,
        }
    }

    /// The entry stored under `key`'s name, mutably; the name must be
    /// present. Everything else is unchanged.
    pub fn get_mut(&mut self, key: K) -> (r: &mut T)
        requires
            has_name(old(self).names_spec(), key.name_spec()),
        ensures
            *r == old(self).metrics_spec()[name_index(
                old(self).names_spec(),
                key.name_spec(),
            )],
            final(self).names_spec() == old(self).names_spec(),
            final(self).metrics_spec() == old(self).metrics_spec().update(
                name_index(old(self).names_spec(), key.name_spec()),
                *final(r),
            ),
    {
        proof {
            use_type_invariant(&*self);
        }
        let name = key.key_name();
        match find_name(&self.names, &name) {
            Some(i) => {
                proof {
                    lemma_name_found_at_unique(
                        self.names_spec(),
                        key.name_spec(),
                        i as int,
                        name_index(self.names_spec(), key.name_spec()),
                    );
                }
                &mut self.metrics[i]
            },
            None => vstd::pervasive::unreached(),
        }
    }
}

/// Computes each key's stored name, in order.
fn key_names<K: Key>(keys: &Vec<K>) -> (r: Vec<String>)
    ensures
        r@.map_values(|s: String| s@) == keys@.map_values(|k: K| k.name_spec()),
{
    let mut names: Vec<String> = Vec::new();
    let n = keys.len();
    let mut i: usize = 0;
    while i < n
        invariant
            i <= n,
            n == keys@.len(),
            names@.len() == i,
            forall|j: int| 0 <= j < i ==> (#[trigger] names@[j])@ == keys@[j].name_spec(),
        decreases n - i,
    {
        names.push(keys[i].key_name());
        i = i + 1;
    }
    proof {
        assert(names@.map_values(|s: String| s@) =~= keys@.map_values(|k: K| k.name_spec()));
    }
    names
}

/// The label block of one group entry: the group's distinguishing label
/// carrying the key's name, then the descriptor's labels.
pub open spec fn group_block(bucket_label: Seq<char>, key: Seq<char>, labels: Seq<LabelView>) -> Seq<char> {
    "{"@ + bucket_label + "="@ + "\""@ + escape_value(key) + "\""@ + (if labels.len() == 0 {
        Seq::<char>::empty()
    } else {
        ","@ + pairs_with_commas(labels, labels.len() - 1) + label_pair_text(labels.last())
    }) + "} "@
}

fn push_group_block(buf: &mut String, bucket_label: &str, key: &str, labels: &Vec<Label>)
    ensures
        final(buf)@ == old(buf)@ + group_block(bucket_label@, key@, labels_view(labels@)),
{
    let ghost pre = buf@;
    buf.append("{");
    buf.append(bucket_label);
    buf.append("=");
    buf.append("\"");
    crate::text::push_escaped_value(buf, key);
    buf.append("\"");
    let n = labels.len();
    if n > 0 {
        buf.append(",");
        push_pairs_with_commas(buf, labels, n - 1);
        push_label_pair(buf, &labels[n - 1]);
        proof {
            assert(labels_view(labels@).last() == labels@[n - 1]@);
        }
    }
    buf.append("} ");
    proof {
        assert(buf@ =~= pre + group_block(bucket_label@, key@, labels_view(labels@)));
    }
}

/// One sample line of a counter group.
pub open spec fn cg_line<T: Num>(
    d: DescriptorView,
    bucket_label: Seq<char>,
    key: Seq<char>,
    value: T,
) -> Seq<char> {
    d.name + group_block(bucket_label, key, d.labels) + value.fmt_spec(false) + "\n"@
}

/// The first `n` sample lines of a counter group, in construction order.
pub open spec fn cg_lines<T: Num>(
    d: DescriptorView,
    bucket_label: Seq<char>,
    names: Seq<Seq<char>>,
    values: Seq<T>,
    n: int,
) -> Seq<char>
    decreases n,
{
    if n <= 0 {
        Seq::empty()
    } else {
        cg_lines(d, bucket_label, names, values, n - 1) + cg_line(
            d,
            bucket_label,
            names[n - 1],
            values[n - 1],
        )
    }
}

/// The exposition text of a counter group.
pub open spec fn counter_group_text<T: Num>(
    d: DescriptorView,
    bucket_label: Seq<char>,
    names: Seq<Seq<char>>,
    values: Seq<T>,
) -> Seq<char> {
    help_line(d.name, d.help) + type_line(d.name, "counter"@) + cg_lines(
        d,
        bucket_label,
        names,
        values,
        names.len() as int,
    )
}

/// A family of counters under one name, told apart by the value of
/// `bucket_label`.
pub struct CounterGroup<K: Key, A: AtomicNum> {
    group: Group<A::Type, K>,
    descriptor: Descriptor,
    bucket_label: String,
}

impl<K: Key, A: AtomicNum> CounterGroup<K, A> {
    /// The names the entries are stored under, in construction order.
    pub closed spec fn names_spec(&self) -> Seq<Seq<char>> {
        self.group.names_spec()
    }

    /// The entries' values, in construction order.
    pub closed spec fn values_spec(&self) -> Seq<A::Type> {
        self.group.metrics_spec()
    }

    /// The group's identity.
    pub closed spec fn descriptor_spec(&self) -> DescriptorView {
        self.descriptor@
    }

    /// The distinguishing label's name.
    pub closed spec fn bucket_label_spec(&self) -> Seq<char> {
        self.bucket_label@
    }

    /// Builds a family of zeroed counters, one per key. It succeeds exactly
    /// when `bucket_label` is a valid label name and `group_name` a valid
    /// metric name; an invalid label is reported before an invalid name.
    pub fn new(group_name: &str, group_help: &str, bucket_label: &str, keys: Vec<K>) -> (r:
        Result<Self, PromError>)
        ensures
            r is Ok <==> (is_valid_label_name(bucket_label@) && is_valid_metric_name(
                group_name@,
            )),
            r is Ok ==> r->Ok_0.names_spec() == keys@.map_values(|k: K| k.name_spec()),
            r is Ok ==> r->Ok_0.values_spec() == Seq::new(
                keys@.len(),
                |i: int| <A::Type as Num>::zero_spec(),
            ),
            r is Ok ==> r->Ok_0.descriptor_spec() == (DescriptorView {
                name: group_name@,
                help: crate::text::escape_help(group_help@),
                labels: Seq::<LabelView>::empty(),
            }),
            r is Ok ==> r->Ok_0.bucket_label_spec() == bucket_label@,
            r is Err ==> r->Err_0.kind_spec() == (if is_valid_label_name(bucket_label@) {
                PromErrorKind::InvalidMetricName
            } else {
                PromErrorKind::InvalidLabelName
            }),
    {
        if !valid_label_name(bucket_label) {
            return Err(
                PromError::new(
                    "Label name contains invalid characters".to_owned(),
                    PromErrorKind::InvalidLabelName,
                ),
            );
        }
        let descriptor = match Descriptor::new(group_name, group_help, Vec::new()) {
            Ok(d) => d,
            Err(e) => {
                return Err(e);
            },
        };
        let names = key_names(&keys);
        proof {
            assert(names@.map_values(|s: String| s@).len() == keys@.map_values(
                |k: K| k.name_spec(),
            ).len());
            assert(names@.len() == keys@.len());
        }
        let n = names.len();
        let mut values: Vec<A::Type> = Vec::new();
        let mut i: usize = 0;
        while i < n
            invariant
                i <= n,
                values@.len() == i,
                forall|j: int| 0 <= j < i ==> #[trigger] values@[j]
                    == <A::Type as Num>::zero_spec(),
            decreases n - i,
        {
            values.push(<A::Type as Num>::zero());
            i = i + 1;
        }
        let r = CounterGroup {
            group: Group::new(names, values),
            descriptor,
            bucket_label: bucket_label.to_owned(),
        };
        proof {
            assert(labels_view(Seq::<Label>::empty()) =~= Seq::<LabelView>::empty());
            assert(r.values_spec() =~= Seq::new(
                keys@.len(),
                |i: int| <A::Type as Num>::zero_spec(),
            ));
        }
        Ok(r)
    }

    /// Increment the counter stored under `key`'s name by 1; the name must
    /// be present.
    pub fn inc(&mut self, key: K)
        requires
            has_name(old(self).names_spec(), key.name_spec()),
        ensures
            final(self).values_spec() == old(self).values_spec().update(
                name_index(old(self).names_spec(), key.name_spec()),
                old(self).values_spec()[name_index(old(self).names_spec(), key.name_spec())]
                    .add_spec(<A::Type as Num>::one_spec()),
            ),
            final(self).names_spec() == old(self).names_spec(),
            final(self).descriptor_spec() == old(self).descriptor_spec(),
            final(self).bucket_label_spec() == old(self).bucket_label_spec(),
    {
        let cell = self.group.get_mut(key);
        *cell = cell.add_val(<A::Type as Num>::one());
    }

    /// Increment the counter stored under `key`'s name by `val`.
    pub fn inc_by(&mut self, key: K, val: A::Type)
        requires
            has_name(old(self).names_spec(), key.name_spec()),
        ensures
            final(self).values_spec() == old(self).values_spec().update(
                name_index(old(self).names_spec(), key.name_spec()),
                old(self).values_spec()[name_index(old(self).names_spec(), key.name_spec())]
                    .add_spec(val),
            ),
            final(self).names_spec() == old(self).names_spec(),
            final(self).descriptor_spec() == old(self).descriptor_spec(),
            final(self).bucket_label_spec() == old(self).bucket_label_spec(),
    {
        let cell = self.group.get_mut(key);
        *cell = cell.add_val(val);
    }

    /// Set the counter stored under `key`'s name to `val`.
    pub fn set(&mut self, key: K, val: A::Type)
        requires
            has_name(old(self).names_spec(), key.name_spec()),
        ensures
            final(self).values_spec() == old(self).values_spec().update(
                name_index(old(self).names_spec(), key.name_spec()),
                val,
            ),
            final(self).names_spec() == old(self).names_spec(),
            final(self).descriptor_spec() == old(self).descriptor_spec(),
            final(self).bucket_label_spec() == old(self).bucket_label_spec(),
    {
        let cell = self.group.get_mut(key);
        *cell = val;
    }

    /// The value of the counter stored under `key`'s name.
    pub fn get(&self, key: K) -> (r: A::Type)
        requires
            has_name(self.names_spec(), key.name_spec()),
        ensures
            r == self.values_spec()[name_index(self.names_spec(), key.name_spec())],
    {
        *self.group.get(key)
    }

    /// The value stored under `key`'s name, or `None` when absent.
    pub fn try_get(&self, key: K) -> (r: Option<A::Type>)
        ensures
            match r {
                Some(v) => has_name(self.names_spec(), key.name_spec()) && v
                    == self.values_spec()[name_index(self.names_spec(), key.name_spec())],
                None => !has_name(self.names_spec(), key.name_spec()),
            },
    {
        match self.group.try_get(key) {
            Some(v) => Some(*v),
            None => None,
        }
    }

    /// Reset the counter stored under `key`'s name to 0.
    pub fn clear(&mut self, key: K)
        requires
            has_name(old(self).names_spec(), key.name_spec()),
        ensures
            final(self).values_spec() == old(self).values_spec().update(
                name_index(old(self).names_spec(), key.name_spec()),
                <A::Type as Num>::zero_spec(),
            ),
            final(self).names_spec() == old(self).names_spec(),
            final(self).descriptor_spec() == old(self).descriptor_spec(),
            final(self).bucket_label_spec() == old(self).bucket_label_spec(),
    {
        let cell = self.group.get_mut(key);
        *cell = <A::Type as Num>::zero();
    }

    /// The group's name.
    pub fn name(&self) -> (r: &str)
        ensures
            r@ == self.descriptor_spec().name,
    {
        self.descriptor.name()
    }

    /// The group's help text.
    pub fn help(&self) -> (r: &str)
        ensures
            r@ == self.descriptor_spec().help,
    {
        self.descriptor.help()
    }

    /// The group's labels.
    pub fn labels(&self) -> (r: &Vec<Label>)
        ensures
            labels_view(r@) == self.descriptor_spec().labels,
    {
        self.descriptor.labels()
    }
}

impl<K: Key, A: AtomicNum> Collectable for CounterGroup<K, A> {
    open spec fn text_spec(&self) -> Seq<char> {
        counter_group_text(
            self.descriptor_spec(),
            self.bucket_label_spec(),
            self.names_spec(),
            self.values_spec(),
        )
    }

    open spec fn descriptor_spec(&self) -> DescriptorView {
        CounterGroup::descriptor_spec(self)
    }

    /// Renders `# HELP`/`# TYPE` lines, then one sample line per entry in
    /// construction order.
    fn encode_text(&self, buf: &mut String) -> (r: Result<(), PromError>) {
        let ghost d = CounterGroup::descriptor_spec(self);
        let ghost bl = self.bucket_label_spec();
        let ghost pre = buf@;
        proof {
            use_type_invariant(&self.group);
        }
        push_help_line(buf, self.name(), self.help());
        push_type_line(buf, self.name(), "counter");
        let ghost head = pre + help_line(d.name, d.help) + type_line(d.name, "counter"@);
        let n = self.group.names.len();
        let mut i: usize = 0;
        proof {
            assert(buf@ =~= head + cg_lines(d, bl, self.names_spec(), self.values_spec(), 0));
        }
        while i < n
            invariant
                i <= n,
                n == self.group.names@.len(),
                n == self.group.metrics@.len(),
                CounterGroup::descriptor_spec(self) == d,
                self.bucket_label_spec() == bl,
                buf@ == head + cg_lines(d, bl, self.names_spec(), self.values_spec(), i as int),
            decreases n - i,
        {
            let ghost lpre = buf@;
            buf.append(self.descriptor.name());
            push_group_block(buf, self.bucket_label.as_str(), self.group.names[i].as_str(), self.descriptor.labels());
            let value = self.group.metrics[i];
            A::format(value, buf, false);
            buf.append("\n");
            proof {
                assert(self.names_spec()[i as int] == self.group.names@[i as int]@);
                assert(buf@ =~= lpre + cg_line(d, bl, self.names_spec()[i as int], self.values_spec()[i as int]));
                assert(buf@ =~= head + cg_lines(d, bl, self.names_spec(), self.values_spec(), i + 1));
            }
            i = i + 1;
        }
        proof {
            assert(buf@ =~= pre + Collectable::text_spec(self));
        }
        Ok(())
    }

    fn descriptor(&self) -> (r: &Descriptor) {
        &self.descriptor
    }
}


/// The views of a list of histogram cores.
pub open spec fn core_views<A: AtomicNum>(s: Seq<HistogramCore<A>>) -> Seq<HistCoreView<A::Type>> {
    s.map_values(|c: HistogramCore<A>| c@)
}

/// The `<name>_sum` line of one histogram-group entry.
pub open spec fn hg_sum_line<T: Num>(
    d: DescriptorView,
    bucket_label: Seq<char>,
    key: Seq<char>,
    sum: T,
) -> Seq<char> {
    d.name + "_sum"@ + group_block(bucket_label, key, d.labels) + sum.fmt_spec(false) + "\n"@
}

/// The `<name>_count` line of one histogram-group entry.
pub open spec fn hg_count_line(
    d: DescriptorView,
    bucket_label: Seq<char>,
    key: Seq<char>,
    count: u64,
) -> Seq<char> {
    d.name + "_count"@ + group_block(bucket_label, key, d.labels) + dec_str(count as int) + "\n"@
}

/// One `<name>_bucket` line of a histogram-group entry: the distinguishing
/// label, the descriptor's labels, then the bound as the quoted `le` label.
pub open spec fn hg_bucket_line<T: Num>(
    d: DescriptorView,
    bucket_label: Seq<char>,
    key: Seq<char>,
    bound: T,
    tally: T,
) -> Seq<char> {
    d.name + "_bucket"@ + "{"@ + bucket_label + "="@ + "\""@ + escape_value(key) + "\""@ + ","@
        + pairs_with_commas(d.labels, d.labels.len() as int) + "le="@ + bound.fmt_spec(true)
        + "} "@ + tally.fmt_spec(false) + "\n"@
}

/// The first `n` bucket lines of one histogram-group entry.
pub open spec fn hg_bucket_lines<T: Num>(
    d: DescriptorView,
    bucket_label: Seq<char>,
    key: Seq<char>,
    core: HistCoreView<T>,
    n: int,
) -> Seq<char>
    decreases n,
{
    if n <= 0 {
        Seq::empty()
    } else {
        hg_bucket_lines(d, bucket_label, key, core, n - 1) + hg_bucket_line(
            d,
            bucket_label,
            key,
            core.buckets[n - 1],
            core.values[n - 1],
        )
    }
}

/// The full text of one histogram-group entry: its `_sum` and `_count`
/// lines, then its bucket lines.
pub open spec fn hg_entry_text<T: Num>(
    d: DescriptorView,
    bucket_label: Seq<char>,
    key: Seq<char>,
    core: HistCoreView<T>,
) -> Seq<char> {
    hg_sum_line(d, bucket_label, key, core.sum) + hg_count_line(d, bucket_label, key, core.count)
        + hg_bucket_lines(d, bucket_label, key, core, core.buckets.len() as int)
}

/// The first `n` entries of a histogram group, in construction order.
pub open spec fn hg_entries<T: Num>(
    d: DescriptorView,
    bucket_label: Seq<char>,
    names: Seq<Seq<char>>,
    cores: Seq<HistCoreView<T>>,
    n: int,
) -> Seq<char>
    decreases n,
{
    if n <= 0 {
        Seq::empty()
    } else {
        hg_entries(d, bucket_label, names, cores, n - 1) + hg_entry_text(
            d,
            bucket_label,
            names[n - 1],
            cores[n - 1],
        )
    }
}

/// The exposition text of a histogram group.
pub open spec fn histogram_group_text<T: Num>(
    d: DescriptorView,
    bucket_label: Seq<char>,
    names: Seq<Seq<char>>,
    cores: Seq<HistCoreView<T>>,
) -> Seq<char> {
    help_line(d.name, d.help) + type_line(d.name, "histogram"@) + hg_entries(
        d,
        bucket_label,
        names,
        cores,
        names.len() as int,
    )
}

/// A family of histograms under one name, told apart by the value of
/// `bucket_label`; every member shares the same bucket bounds.
pub struct HistogramGroup<K: Key, A: AtomicNum> {
    group: Group<HistogramCore<A>, K>,
    descriptor: Descriptor,
    bucket_label: String,
}

impl<K: Key, A: AtomicNum> HistogramGroup<K, A> {
    /// The names the entries are stored under, in construction order.
    pub closed spec fn names_spec(&self) -> Seq<Seq<char>> {
        self.group.names_spec()
    }

    /// The entries' cores, in construction order.
    pub closed spec fn cores_spec(&self) -> Seq<HistCoreView<A::Type>> {
        core_views(self.group.metrics_spec())
    }

    /// The group's identity.
    pub closed spec fn descriptor_spec(&self) -> DescriptorView {
        self.descriptor@
    }

    /// The distinguishing label's name.
    pub closed spec fn bucket_label_spec(&self) -> Seq<char> {
        self.bucket_label@
    }

    /// Builds a family of fresh histograms over the same bounds, one per
    /// key. It succeeds exactly when `bucket_label` is a valid label name
    /// and `group_name` a valid metric name; an invalid label is reported
    /// before an invalid name.
    pub fn new(
        group_name: &str,
        group_help: &str,
        bucket_label: &str,
        keys: Vec<K>,
        buckets: Vec<A::Type>,
    ) -> (r: Result<Self, PromError>)
        ensures
            r is Ok <==> (is_valid_label_name(bucket_label@) && is_valid_metric_name(
                group_name@,
            )),
            r is Ok ==> r->Ok_0.names_spec() == keys@.map_values(|k: K| k.name_spec()),
            r is Ok ==> r->Ok_0.cores_spec() == Seq::new(
                keys@.len(),
                |i: int| init_core_view(buckets@),
            ),
            r is Ok ==> r->Ok_0.descriptor_spec() == (DescriptorView {
                name: group_name@,
                help: crate::text::escape_help(group_help@),
                labels: Seq::<LabelView>::empty(),
            }),
            r is Ok ==> r->Ok_0.bucket_label_spec() == bucket_label@,
            r is Err ==> r->Err_0.kind_spec() == (if is_valid_label_name(bucket_label@) {
                PromErrorKind::InvalidMetricName
            } else {
                PromErrorKind::InvalidLabelName
            }),
    {
        if !valid_label_name(bucket_label) {
            return Err(
                PromError::new(
                    "Label name contains invalid characters".to_owned(),
                    PromErrorKind::InvalidLabelName,
                ),
            );
        }
        let descriptor = match Descriptor::new(group_name, group_help, Vec::new()) {
            Ok(d) => d,
            Err(e) => {
                return Err(e);
            },
        };
        let names = key_names(&keys);
        proof {
            assert(names@.map_values(|s: String| s@).len() == keys@.map_values(
                |k: K| k.name_spec(),
            ).len());
            assert(names@.len() == keys@.len());
        }
        let n = names.len();
        let mut cores: Vec<HistogramCore<A>> = Vec::new();
        let mut i: usize = 0;
        while i < n
            invariant
                i <= n,
                cores@.len() == i,
                forall|j: int| 0 <= j < i ==> (#[trigger] cores@[j])@ == init_core_view(
                    buckets@,
                ),
            decreases n - i,
        {
            let mut bounds: Vec<A::Type> = Vec::new();
            let m = buckets.len();
            let mut k: usize = 0;
            while k < m
                invariant
                    k <= m,
                    m == buckets@.len(),
                    bounds@.len() == k,
                    forall|j: int| 0 <= j < k ==> #[trigger] bounds@[j] == buckets@[j],
                decreases m - k,
            {
                bounds.push(buckets[k]);
                k = k + 1;
            }
            proof {
                assert(bounds@ =~= buckets@);
            }
            cores.push(HistogramCore::new(bounds));
            i = i + 1;
        }
        let r = HistogramGroup {
            group: Group::new(names, cores),
            descriptor,
            bucket_label: bucket_label.to_owned(),
        };
        proof {
            assert(labels_view(Seq::<Label>::empty()) =~= Seq::<LabelView>::empty());
            assert forall|j: int| 0 <= j < keys@.len() implies r.cores_spec()[j]
                == init_core_view(buckets@) by {
                assert(r.cores_spec()[j] == r.group.metrics_spec()[j]@);
            }
            assert(r.cores_spec() =~= Seq::new(keys@.len(), |i: int| init_core_view(buckets@)));
        }
        Ok(r)
    }

    /// The histogram stored under `key`'s name; the name must be present.
    pub fn get(&self, key: K) -> (r: &HistogramCore<A>)
        requires
            has_name(self.names_spec(), key.name_spec()),
        ensures
            r@ == self.cores_spec()[name_index(self.names_spec(), key.name_spec())],
    {
        proof {
            use_type_invariant(&self.group);
            let idx = name_index(self.names_spec(), key.name_spec());
            assert(name_found_at(self.names_spec(), key.name_spec(), idx));
            assert(self.cores_spec()[idx] == self.group.metrics_spec()[idx]@);
        }
        self.group.get(key)
    }

    /// The histogram stored under `key`'s name, mutably; the name must be
    /// present.
    pub fn get_mut(&mut self, key: K) -> (r: &mut HistogramCore<A>)
        requires
            has_name(old(self).names_spec(), key.name_spec()),
        ensures
            (*r)@ == old(self).cores_spec()[name_index(
                old(self).names_spec(),
                key.name_spec(),
            )],
            final(self).names_spec() == old(self).names_spec(),
            final(self).descriptor_spec() == old(self).descriptor_spec(),
            final(self).bucket_label_spec() == old(self).bucket_label_spec(),
            final(self).cores_spec() == old(self).cores_spec().update(
                name_index(old(self).names_spec(), key.name_spec()),
                (*final(r))@,
            ),
    {
        let ghost idx = name_index(old(self).names_spec(), key.name_spec());
        proof {
            use_type_invariant(&self.group);
            assert(name_found_at(self.names_spec(), key.name_spec(), idx));
            let oldm = self.group.metrics_spec();
            assert(self.cores_spec()[idx] == oldm[idx]@);
            assert forall|v: HistogramCore<A>| #[trigger] core_views(oldm.update(idx, v))
                == core_views(oldm).update(idx, v@) by {
                let lhs = core_views(oldm.update(idx, v));
                let rhs = core_views(oldm).update(idx, v@);
                assert forall|j: int| 0 <= j < lhs.len() implies lhs[j] == rhs[j] by {
                    assert(lhs[j] == oldm.update(idx, v)[j]@);
                    assert(core_views(oldm)[j] == oldm[j]@);
                }
                assert(lhs =~= rhs);
            }
        }
        self.group.get_mut(key)
    }

    /// The histogram stored under `key`'s name, or `None` when absent.
    pub fn try_get(&self, key: K) -> (r: Option<&HistogramCore<A>>)
        ensures
            match r {
                Some(c) => has_name(self.names_spec(), key.name_spec()) && c@
                    == self.cores_spec()[name_index(self.names_spec(), key.name_spec())],
                None => !has_name(self.names_spec(), key.name_spec()),
            },
    {
        match self.group.try_get(key) {
            Some(c) => {
                proof {
                    use_type_invariant(&self.group);
                    let idx = name_index(self.names_spec(), key.name_spec());
                    assert(name_found_at(self.names_spec(), key.name_spec(), idx));
                    assert(self.cores_spec()[idx] == self.group.metrics_spec()[idx]@);
                }
                Some(c)
            },
            None => None,
        }
    }

    /// Resets the histogram stored under `key`'s name; the name must be
    /// present.
    pub fn clear(&mut self, key: K)
        requires
            has_name(old(self).names_spec(), key.name_spec()),
        ensures
            final(self).names_spec() == old(self).names_spec(),
            final(self).descriptor_spec() == old(self).descriptor_spec(),
            final(self).bucket_label_spec() == old(self).bucket_label_spec(),
            final(self).cores_spec() == old(self).cores_spec().update(
                name_index(old(self).names_spec(), key.name_spec()),
                init_core_view(
                    old(self).cores_spec()[name_index(
                        old(self).names_spec(),
                        key.name_spec(),
                    )].buckets,
                ),
            ),
    {
        let core = self.get_mut(key);
        core.clear();
    }

    /// The group's name.
    pub fn name(&self) -> (r: &str)
        ensures
            r@ == self.descriptor_spec().name,
    {
        self.descriptor.name()
    }

    /// The group's help text.
    pub fn help(&self) -> (r: &str)
        ensures
            r@ == self.descriptor_spec().help,
    {
        self.descriptor.help()
    }

    /// The group's labels.
    pub fn labels(&self) -> (r: &Vec<Label>)
        ensures
            labels_view(r@) == self.descriptor_spec().labels,
    {
        self.descriptor.labels()
    }
}

impl<K: Key, A: AtomicNum> Collectable for HistogramGroup<K, A> {
    open spec fn text_spec(&self) -> Seq<char> {
        histogram_group_text(
            self.descriptor_spec(),
            self.bucket_label_spec(),
            self.names_spec(),
            self.cores_spec(),
        )
    }

    open spec fn descriptor_spec(&self) -> DescriptorView {
        HistogramGroup::descriptor_spec(self)
    }

    /// Renders `# HELP`/`# TYPE` lines, then `_sum`, `_count` and `_bucket`
    /// lines per entry in construction order.
    fn encode_text(&self, buf: &mut String) -> (r: Result<(), PromError>) {
        let ghost d = HistogramGroup::descriptor_spec(self);
        let ghost bl = self.bucket_label_spec();
        let ghost names = self.names_spec();
        let ghost cores = self.cores_spec();
        let ghost pre = buf@;
        proof {
            use_type_invariant(&self.group);
        }
        push_help_line(buf, self.name(), self.help());
        push_type_line(buf, self.name(), "histogram");
        let ghost head = pre + help_line(d.name, d.help) + type_line(d.name, "histogram"@);
        let n = self.group.names.len();
        let mut i: usize = 0;
        proof {
            assert(buf@ =~= head + hg_entries(d, bl, names, cores, 0));
        }
        while i < n
            invariant
                i <= n,
                n == self.group.names@.len(),
                n == self.group.metrics@.len(),
                HistogramGroup::descriptor_spec(self) == d,
                self.bucket_label_spec() == bl,
                self.names_spec() == names,
                self.cores_spec() == cores,
                n == cores.len(),
                buf@ == head + hg_entries(d, bl, names, cores, i as int),
            decreases n - i,
        {
            let ghost entry_pre = buf@;
            let key = self.group.names[i].as_str();
            let core = &self.group.metrics[i];
            let ghost cv = cores[i as int];
            proof {
                assert(cores[i as int] == self.group.metrics_spec()[i as int]@);
                assert(names[i as int] == self.group.names@[i as int]@);
            }

            buf.append(self.descriptor.name());
            buf.append("_sum");
            push_group_block(buf, self.bucket_label.as_str(), key, self.descriptor.labels());
            A::format(core.get_sum(), buf, false);
            buf.append("\n");
            proof {
                assert(buf@ =~= entry_pre + hg_sum_line(d, bl, names[i as int], cv.sum));
            }

            buf.append(self.descriptor.name());
            buf.append("_count");
            push_group_block(buf, self.bucket_label.as_str(), key, self.descriptor.labels());
            push_u64(buf, core.get_count());
            buf.append("\n");
            let ghost entry_head = entry_pre + hg_sum_line(d, bl, names[i as int], cv.sum)
                + hg_count_line(d, bl, names[i as int], cv.count);
            proof {
                assert(buf@ =~= entry_head);
            }

            let m = core.bucket_count();
            let bs = core.buckets();
            let vs = core.values();
            let labels = self.descriptor.labels();
            let nlabels = labels.len();
            let mut k: usize = 0;
            while k < m
                invariant
                    k <= m,
                    m == cv.buckets.len(),
                    m == cv.values.len(),
                    bs@ == cv.buckets,
                    vs@ == cv.values,
                    nlabels == d.labels.len(),
                    labels_view(labels@) == d.labels,
                    HistogramGroup::descriptor_spec(self) == d,
                    self.bucket_label_spec() == bl,
                    names[i as int] == self.group.names@[i as int]@,
                    i < self.group.names@.len(),
                    buf@ == entry_head + hg_bucket_lines(d, bl, names[i as int], cv, k as int),
                decreases m - k,
            {
                let ghost lpre = buf@;
                buf.append(self.descriptor.name());
                buf.append("_bucket");
                buf.append("{");
                buf.append(self.bucket_label.as_str());
                buf.append("=");
                buf.append("\"");
                crate::text::push_escaped_value(buf, self.group.names[i].as_str());
                buf.append("\"");
                buf.append(",");
                push_pairs_with_commas(buf, labels, nlabels);
                buf.append("le=");
                A::format(bs[k], buf, true);
                buf.append("} ");
                A::format(vs[k], buf, false);
                buf.append("\n");
                proof {
                    assert(bs@[k as int] == cv.buckets[k as int]);
                    assert(vs@[k as int] == cv.values[k as int]);
                    assert(buf@ =~= lpre + hg_bucket_line(
                        d,
                        bl,
                        names[i as int],
                        cv.buckets[k as int],
                        cv.values[k as int],
                    ));
                    assert(buf@ =~= entry_head + hg_bucket_lines(
                        d,
                        bl,
                        names[i as int],
                        cv,
                        k + 1,
                    ));
                }
                k = k + 1;
            }
            proof {
                assert(buf@ =~= entry_pre + hg_entry_text(d, bl, names[i as int], cv));
                assert(buf@ =~= head + hg_entries(d, bl, names, cores, i + 1));
            }
            i = i + 1;
        }
        proof {
            assert(buf@ =~= pre + Collectable::text_spec(self));
        }
        Ok(())
    }

    fn descriptor(&self) -> (r: &Descriptor) {
        &self.descriptor
    }
}

} // verus!
