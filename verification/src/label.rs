//! Validated label pairs and the naming rules for labels and metrics, plus
//! the `Labeled` wrapper that gives a bare metric its identity.
use vstd::prelude::*;

verus! {

use vstd::string::StrSliceExecFns;
use crate::error::{PromError, PromErrorKind};

/// A character that may open a label name: `[a-zA-Z_]`.
pub open spec fn label_start_char(c: char) -> bool {
    (97 <= c as int && c as int <= 122) || (65 <= c as int && c as int <= 90) || c == '_'
}

/// A character that may continue a label name: `[a-zA-Z0-9_]`.
pub open spec fn label_rest_char(c: char) -> bool {
    label_start_char(c) || (48 <= c as int && c as int <= 57)
}

/// A character that may open a metric name: `[a-zA-Z_:]`.
pub open spec fn metric_start_char(c: char) -> bool {
    label_start_char(c) || c == ':'
}

/// A character that may continue a metric name: `[a-zA-Z0-9_:]`.
pub open spec fn metric_rest_char(c: char) -> bool {
    label_rest_char(c) || c == ':'
}

/// A valid label name: non-empty, matches `[a-zA-Z_][a-zA-Z0-9_]*`, and is
/// not the reserved name `le` (which histogram rendering claims for bucket
/// bounds).
pub open spec fn is_valid_label_name(s: Seq<char>) -> bool {
    &&& s.len() > 0
    &&& !(s.len() == 2 && s[0] == 'l' && s[1] == 'e')
    &&& label_start_char(s[0])
    &&& forall|i: int| 1 <= i < s.len() ==> label_rest_char(#[trigger] s[i])
}

/// A valid metric name: non-empty and matches `[a-zA-Z_:][a-zA-Z0-9_:]*`.
pub open spec fn is_valid_metric_name(s: Seq<char>) -> bool {
    &&& s.len() > 0
    &&& metric_start_char(s[0])
    &&& forall|i: int| 1 <= i < s.len() ==> metric_rest_char(#[trigger] s[i])
}

fn check_label_start(c: char) -> (r: bool)
    ensures
        r == label_start_char(c),
{
    let u = c as u32;
    (97 <= u && u <= 122) || (65 <= u && u <= 90) || c == '_'
}

fn check_label_rest(c: char) -> (r: bool)
    ensures
        r == label_rest_char(c),
{
    let u = c as u32;
    check_label_start(c) || (48 <= u && u <= 57)
}

/// Decides whether `label` is a valid label name.
pub fn valid_label_name(label: &str) -> (r: bool)
    ensures
        r == is_valid_label_name(label@),
{
    let n = label.unicode_len();
    if n == 0 {
        return false;
    }
    if n == 2 && label.get_char(0) == 'l' && label.get_char(1) == 'e' {
        return false;
    }
    if !check_label_start(label.get_char(0)) {
        return false;
    }
    let mut i: usize = 1;
    while i < n
        invariant
            1 <= i <= n,
            n == label@.len(),
            forall|j: int| 1 <= j < i ==> label_rest_char(#[trigger] label@[j]),
        decreases n - i,
    {
        if !check_label_rest(label.get_char(i)) {
            return false;
        }
        i = i + 1;
    }
    true
}

/// Decides whether `metric` is a valid metric name.
pub fn valid_metric_name(metric: &str) -> (r: bool)
    ensures
        r == is_valid_metric_name(metric@),
{
    let n = metric.unicode_len();
    if n == 0 {
        return false;
    }
    let first = metric.get_char(0);
    if !(check_label_start(first) || first == ':') {
        return false;
    }
    let mut i: usize = 1;
    while i < n
        invariant
            1 <= i <= n,
            n == metric@.len(),
            forall|j: int| 1 <= j < i ==> metric_rest_char(#[trigger] metric@[j]),
        decreases n - i,
    {
        let c = metric.get_char(i);
        if !(check_label_rest(c) || c == ':') {
            return false;
        }
        i = i + 1;
    }
    true
}

/// The mathematical content of a label: its name and its value.
pub ghost struct LabelView {
    pub name: Seq<char>,
    pub value: Seq<char>,
}

/// One `name="value"` pair attached to a metric. The name is validated at
/// construction; the pair is immutable afterwards.
#[derive(Debug, PartialEq, Eq)]
pub struct Label {
    pub(crate) label: String,
    pub(crate) value: String,
}

impl View for Label {
    type V = LabelView;

    closed spec fn view(&self) -> LabelView {
        LabelView { name: self.label@, value: self.value@ }
    }
}

impl Clone for Label {
    fn clone(&self) -> (r: Self)
        ensures
            r@ == self@,
    {
        Label { label: self.label.clone(), value: self.value.clone() }
    }
}

impl Label {
    /// Create a new label with the given name and value; the name must be a
    /// valid, non-reserved label name, and exactly then the call succeeds.
    pub fn new(label: &str, value: &str) -> (r: Result<Self, PromError>)
        ensures
            r is Ok <==> is_valid_label_name(label@),
            r is Ok ==> r->Ok_0@ == (LabelView { name: label@, value: value@ }),
            r is Err ==> r->Err_0.kind_spec() == PromErrorKind::InvalidLabelName,
    {
        if valid_label_name(label) {
            Ok(Label { label: label.to_owned(), value: value.to_owned() })
        } else {
            Err(
                PromError::new(
                    "Label name contains invalid characters".to_owned(),
                    PromErrorKind::InvalidLabelName,
                ),
            )
        }
    }

    /// The label's name.
    pub fn name(&self) -> (r: &str)
        ensures
            r@ == self@.name,
    {
        self.label.as_str()
    }

    /// The label's value.
    pub fn value(&self) -> (r: &str)
        ensures
            r@ == self@.value,
    {
        self.value.as_str()
    }
}

/// The views of a list of labels.
pub open spec fn labels_view(labels: Seq<Label>) -> Seq<LabelView> {
    labels.map_values(|l: Label| l@)
}

pub(crate) proof fn lemma_label_view(l: &Label)
    ensures
        l@ == (LabelView { name: l.label@, value: l.value@ }),
{
}

/// A metric kind as it appears in a `# TYPE` line.
pub trait Metric {
    /// The kind this metric renders under.
    spec fn metric_kind_spec(&self) -> Seq<char>;

    fn metric_kind(&self) -> (r: &'static str)
        ensures
            r@ == self.metric_kind_spec(),
    ;
}

/// A bare metric together with its validated name, its description and its
/// labels.
#[derive(Debug)]
pub struct Labeled<T> {
    data: T,
    name: String,
    description: String,
    pub(crate) labels: Vec<Label>,
}

impl<T> Labeled<T> {
    pub closed spec fn data_spec(&self) -> T {
        self.data
    }

    pub closed spec fn name_spec(&self) -> Seq<char> {
        self.name@
    }

    pub closed spec fn description_spec(&self) -> Seq<char> {
        self.description@
    }

    pub closed spec fn labels_spec(&self) -> Seq<LabelView> {
        labels_view(self.labels@)
    }

    /// Wraps `data` under a metric name; the name must be a valid metric
    /// name, and exactly then the call succeeds.
    pub fn new(data: T, name: &str, description: &str) -> (r: Result<Self, PromError>)
        ensures
            r is Ok <==> is_valid_metric_name(name@),
            r is Ok ==> r->Ok_0.data_spec() == data && r->Ok_0.name_spec() == name@
                && r->Ok_0.description_spec() == description@ && r->Ok_0.labels_spec() == Seq::<
                LabelView,
            >::empty(),
            r is Err ==> r->Err_0.kind_spec() == PromErrorKind::InvalidMetricName,
    {
        if valid_metric_name(name) {
            Ok(
                Labeled {
                    data,
                    name: name.to_owned(),
                    description: description.to_owned(),
                    labels: Vec::new(),
                },
            )
        } else {
            Err(
                PromError::new(
                    "Metric name contains invalid characters".to_owned(),
                    PromErrorKind::InvalidMetricName,
                ),
            )
        }
    }

    pub fn data(&self) -> (r: &T)
        ensures
            r == self.data_spec(),
    {
        &self.data
    }

    pub fn data_mut(&mut self) -> (r: &mut T)
        ensures
            final(self).name_spec() == old(self).name_spec(),
            final(self).description_spec() == old(self).description_spec(),
            final(self).labels_spec() == old(self).labels_spec(),
            *r == old(self).data_spec(),
            *final(r) == final(self).data_spec(),
    {
        &mut self.data
    }

    pub fn name(&self) -> (r: &str)
        ensures
            r@ == self.name_spec(),
    {
        self.name.as_str()
    }

    pub fn description(&self) -> (r: &str)
        ensures
            r@ == self.description_spec(),
    {
        self.description.as_str()
    }

    pub fn labels(&self) -> (r: &Vec<Label>)
        ensures
            labels_view(r@) == self.labels_spec(),
    {
        &self.labels
    }

    /// Replaces the wrapped metric's labels.
    pub fn set_labels(&mut self, labels: Vec<Label>)
        ensures
            final(self).labels_spec() == labels_view(labels@),
            final(self).name_spec() == old(self).name_spec(),
            final(self).description_spec() == old(self).description_spec(),
            final(self).data_spec() == old(self).data_spec(),
    {
        self.labels = labels;
    }
}

} // verus!
