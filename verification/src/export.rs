//! A second, self-contained rendering of single metrics in the exposition
//! format: `# HELP <name> <help>` and `# TYPE <name> <kind>` header lines,
//! then one sample line. Counters render their whole frame; a bare gauge
//! renders only its value and is framed by the `Labeled` wrapper.
use vstd::prelude::*;

verus! {

use vstd::string::StringExecFns;
use crate::atomics::AtomicNum;
use crate::counter::{Counter, counter_text};
use crate::error::PromError;
use crate::gauge::Gauge;
use crate::label::{LabelView, Labeled, Metric};
use crate::num::Num;
use crate::render::{help_line, labels_block, push_help_line, push_labels_block, push_type_line,
    type_line};

/// Renders a value (or a whole metric) in the exposition format.
pub trait Exportable {
    /// The exact text `export` appends.
    spec fn export_text_spec(&self) -> Seq<char>;

    /// Appends this metric's exposition lines to `f`; never fails.
    fn export(&self, f: &mut String) -> (r: Result<(), PromError>)
        ensures
            r is Ok,
            final(f)@ == old(f)@ + self.export_text_spec(),
    ;
}

/// The frame around one sample: the `# HELP <name> <help>` and
/// `# TYPE <name> <kind>` header lines, then the sample name, its label
/// block and the rendered value.
pub open spec fn export_frame(
    name: Seq<char>,
    help: Seq<char>,
    kind: Seq<char>,
    labels: Seq<LabelView>,
    value_text: Seq<char>,
) -> Seq<char> {
    help_line(name, help) + type_line(name, kind) + name + labels_block(labels) + value_text
        + "\n"@
}

impl<A: AtomicNum> Metric for Counter<A> {
    open spec fn metric_kind_spec(&self) -> Seq<char> {
        "counter"@
    }

    fn metric_kind(&self) -> &'static str {
        "counter"
    }
}

impl<A: AtomicNum> Exportable for Counter<A> {
    open spec fn export_text_spec(&self) -> Seq<char> {
        counter_text(self.descriptor_spec(), self.value_spec())
    }

    fn export(&self, f: &mut String) -> (r: Result<(), PromError>) {
        crate::registry::Collectable::encode_text(self, f)
    }
}

impl<A: AtomicNum> Exportable for Gauge<A> {
    open spec fn export_text_spec(&self) -> Seq<char> {
        self.value_spec().fmt_spec(false)
    }

    fn export(&self, f: &mut String) -> (r: Result<(), PromError>) {
        A::format(self.get(), f, false);
        Ok(())
    }
}

impl<T: Exportable + Metric> Exportable for Labeled<T> {
    open spec fn export_text_spec(&self) -> Seq<char> {
        export_frame(
            self.name_spec(),
            self.description_spec(),
            self.data_spec().metric_kind_spec(),
            self.labels_spec(),
            self.data_spec().export_text_spec(),
        )
    }

    fn export(&self, f: &mut String) -> (r: Result<(), PromError>) {
        let ghost pre = f@;
        push_help_line(f, self.name(), self.description());
        push_type_line(f, self.name(), self.data().metric_kind());
        f.append(self.name());
        push_labels_block(f, self.labels());
        let r = self.data().export(f);
        match r {
            Ok(()) => {
            },
            Err(e) => {
                return Err(e);
            },
        }
        f.append("\n");
        proof {
            assert(f@ =~= pre + self.export_text_spec());
        }
        Ok(())
    }
}

} // verus!
