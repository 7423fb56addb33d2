//! Shared pieces of the exposition text format: `# HELP` and `# TYPE` lines
//! and the rendering of label lists, with the exact text pinned by spec
//! functions.
use vstd::prelude::*;

verus! {

use vstd::string::StringExecFns;
use crate::label::{Label, LabelView, labels_view};
use crate::text::escape_value;

/// One `name="value"` pair as it appears inside braces, with the value
/// escaped and double-quoted.
pub open spec fn label_pair_text(l: LabelView) -> Seq<char> {
    l.name + "="@ + "\""@ + escape_value(l.value) + "\""@
}

/// The first `n` label pairs, each followed by a comma.
pub open spec fn pairs_with_commas(ls: Seq<LabelView>, n: int) -> Seq<char>
    recommends
        0 <= n <= ls.len(),
    decreases n,
{
    if n <= 0 {
        Seq::empty()
    } else {
        pairs_with_commas(ls, n - 1) + label_pair_text(ls[n - 1]) + ","@
    }
}

/// The label block that separates a sample name from its value: a single
/// space when there are no labels, else the comma-joined pairs in braces
/// followed by a space.
pub open spec fn labels_block(ls: Seq<LabelView>) -> Seq<char> {
    if ls.len() == 0 {
        " "@
    } else {
        "{"@ + pairs_with_commas(ls, ls.len() - 1) + label_pair_text(ls.last()) + "} "@
    }
}

/// The `# HELP <name> <help>` line.
pub open spec fn help_line(name: Seq<char>, help: Seq<char>) -> Seq<char> {
    "# HELP "@ + name + " "@ + help + "\n"@
}

/// The `# TYPE <name> <kind>` line.
pub open spec fn type_line(name: Seq<char>, kind: Seq<char>) -> Seq<char> {
    "# TYPE "@ + name + " "@ + kind + "\n"@
}

/// Appends `# HELP <name> <help>` and a newline.
pub fn push_help_line(buf: &mut String, name: &str, help: &str)
    ensures
        final(buf)@ == old(buf)@ + help_line(name@, help@),
{
    let ghost pre = buf@;
    buf.append("# HELP ");
    buf.append(name);
    buf.append(" ");
    buf.append(help);
    buf.append("\n");
    proof {
        assert(buf@ =~= pre + help_line(name@, help@));
    }
}

/// Appends `# TYPE <name> <kind>` and a newline.
pub fn push_type_line(buf: &mut String, name: &str, kind: &str)
    ensures
        final(buf)@ == old(buf)@ + type_line(name@, kind@),
{
    let ghost pre = buf@;
    buf.append("# TYPE ");
    buf.append(name);
    buf.append(" ");
    buf.append(kind);
    buf.append("\n");
    proof {
        assert(buf@ =~= pre + type_line(name@, kind@));
    }
}

/// Appends one `name="value"` pair.
pub fn push_label_pair(buf: &mut String, l: &Label)
    ensures
        final(buf)@ == old(buf)@ + label_pair_text(l@),
{
    let ghost pre = buf@;
    buf.append(l.name());
    buf.append("=");
    buf.append("\"");
    crate::text::push_escaped_value(buf, l.value());
    buf.append("\"");
    proof {
        assert(buf@ =~= pre + label_pair_text(l@));
    }
}

/// Appends the first `n` label pairs, each followed by a comma.
pub fn push_pairs_with_commas(buf: &mut String, labels: &Vec<Label>, n: usize)
    requires
        n <= labels@.len(),
    ensures
        final(buf)@ == old(buf)@ + pairs_with_commas(labels_view(labels@), n as int),
{
    let ghost pre = buf@;
    let mut i: usize = 0;
    while i < n
        invariant
            i <= n,
            n <= labels@.len(),
            buf@ == pre + pairs_with_commas(labels_view(labels@), i as int),
        decreases n - i,
    {
        push_label_pair(buf, &labels[i]);
        buf.append(",");
        proof {
            assert(labels_view(labels@)[i as int] == labels@[i as int]@);
            assert(buf@ =~= pre + pairs_with_commas(labels_view(labels@), i + 1));
        }
        i = i + 1;
    }
}

/// Appends the label block: `{a="x",b="y"} ` for labels, or a single space
/// for none.
pub fn push_labels_block(buf: &mut String, labels: &Vec<Label>)
    ensures
        final(buf)@ == old(buf)@ + labels_block(labels_view(labels@)),
{
    let ghost pre = buf@;
    let n = labels.len();
    if n == 0 {
        buf.append(" ");
    } else {
        buf.append("{");
        push_pairs_with_commas(buf, labels, n - 1);
        push_label_pair(buf, &labels[n - 1]);
        buf.append("} ");
        proof {
            assert(labels_view(labels@).last() == labels@[n - 1]@);
            assert(buf@ =~= pre + labels_block(labels_view(labels@)));
        }
    }
}

} // verus!
