//! The Prometheus text exposition format.
use vstd::prelude::*;

verus! {

/// The `# HELP` line of a metric.
pub open spec fn help_line(name: Seq<char>, help: Seq<char>) -> Seq<char> {
    "# HELP "@ + name + " "@ + help + "\n"@
}

/// The `# TYPE` line of a metric.
pub open spec fn type_line(name: Seq<char>, kind: Seq<char>) -> Seq<char> {
    "# TYPE "@ + name + " "@ + kind + "\n"@
}

/// A character as it stands inside a quoted label value.
pub open spec fn escaped_char(c: char) -> Seq<char> {
    if c == '\\' {
        "\\\\"@
    } else if c == '"' {
        "\\\""@
    } else if c == '\n' {
        "\\n"@
    } else {
        seq![c]
    }
}

/// A label value as it stands between its quotes.
pub open spec fn escaped(value: Seq<char>) -> Seq<char>
    decreases value.len(),
{
    if value.len() == 0 {
        seq![]
    } else {
        escaped(value.drop_last()) + escaped_char(value.last())
    }
}

/// A label: its name and its value.
pub type Label = (Seq<char>, Seq<char>);

/// One label of a sample line.
pub open spec fn label_text(label: Label) -> Seq<char> {
    label.0 + "=\""@ + escaped(label.1) + "\""@
}

/// The labels of a sample line, separated by commas.
pub open spec fn labels_text(labels: Seq<Label>) -> Seq<char>
    decreases labels.len(),
{
    if labels.len() == 0 {
        seq![]
    } else if labels.len() == 1 {
        label_text(labels[0])
    } else {
        labels_text(labels.drop_last()) + ","@ + label_text(labels.last())
    }
}

/// A sample line.
pub open spec fn sample_line(name: Seq<char>, labels: Seq<Label>, value: Seq<char>) -> Seq<char> {
    name + "{"@ + labels_text(labels) + "} "@ + value + "\n"@
}

/// The texts of labels held as string pairs.
pub open spec fn label_views(labels: Seq<(&str, &str)>) -> Seq<Label> {
    labels.map_values(|label: (&str, &str)| (label.0@, label.1@))
}

/// Builds an exposition line by line.
pub struct MetricBuilder {
    output: String,
}

impl View for MetricBuilder {
    type V = Seq<char>;

    closed spec fn view(&self) -> Seq<char> {
        self.output@
    }
}

impl MetricBuilder {
    /// A builder with nothing written.
    pub fn new() -> (builder: Self)
        ensures
            builder@ == Seq::<char>::empty(),
    {
        MetricBuilder { output: String::new() }
    }

    /// Writes the `# HELP` line of a metric.
    pub fn help(&mut self, name: &str, help: &str)
        ensures
            final(self)@ == old(self)@ + help_line(name@, help@),
    {
        self.output.append("# HELP ");
        self.output.append(name);
        self.output.append(" ");
        self.output.append(help);
        self.output.append("\n");
        assert(self.output@ =~= old(self)@ + help_line(name@, help@));
    }

    /// Writes the `# TYPE` line of a metric.
    pub fn type_(&mut self, name: &str, kind: &str)
        ensures
            final(self)@ == old(self)@ + type_line(name@, kind@),
    {
        self.output.append("# TYPE ");
        self.output.append(name);
        self.output.append(" ");
        self.output.append(kind);
        self.output.append("\n");
        assert(self.output@ =~= old(self)@ + type_line(name@, kind@));
    }

    /// Writes one sample line.
    pub fn metric(&mut self, name: &str, labels: &[(&str, &str)], value: &str)
        ensures
            final(self)@ == old(self)@ + sample_line(name@, label_views(labels@), value@),
    {
        self.output.append(name);
        self.output.append("{");
        let ghost start = self.output@;
        let mut i: usize = 0;
        while i < labels.len()
            invariant
                i <= labels@.len(),
                self.output@ == start + labels_text(label_views(labels@).take(i as int)),
            decreases labels@.len() - i,
        {
            let ghost shown = label_views(labels@).take(i as int);
            let ghost next = label_views(labels@).take(i + 1);
            if i > 0 {
                self.output.append(",");
            }
            self.output.append(labels[i].0);
            self.output.append("=\"");
            let quoted = escape(labels[i].1);
            self.output.append(quoted.as_str());
            self.output.append("\"");
            proof {
                assert(next.drop_last() =~= shown);
                assert(next.last() == label_views(labels@)[i as int]);
                assert(self.output@ =~= start + labels_text(next));
            }
            i += 1;
        }
        proof {
            assert(label_views(labels@).take(i as int) =~= label_views(labels@));
        }
        self.output.append("} ");
        self.output.append(value);
        self.output.append("\n");
        assert(self.output@ =~= old(self)@ + sample_line(name@, label_views(labels@), value@));
    }

    /// The exposition written so far.
    pub fn build(self) -> (output: String)
        ensures
            output@ == self@,
    {
        self.output
    }
}

/// Computes [`escaped`].
fn escape(value: &str) -> (text: String)
    ensures
        text@ == escaped(value@),
{
    let mut text = String::new();
    for c in chars: value.chars()
        invariant
            chars.seq() == value@,
            text@ == escaped(value@.take(chars.index())),
    {
        let ghost done = value@.take(chars.index());
        let ghost next = value@.take(chars.index() + 1);
        if c == '\\' {
            text.append("\\\\");
        } else if c == '"' {
            text.append("\\\"");
        } else if c == '\n' {
            text.append("\\n");
        } else {
            text.push(c);
        }
        proof {
            assert(next.drop_last() =~= done);
            assert(next.last() == c);
            assert(text@ =~= escaped(next));
        }
    }
    proof {
        assert(value@.take(value@.len() as int) =~= value@);
    }
    text
}

/// Escaping goes character by character: a backslash, a quote and the end of a
/// line get a backslash before them, the last as the letter `n`, and all others
/// stay as they are.
pub proof fn law_escaping_goes_by_characters(value: Seq<char>, c: char)
    ensures
        escaped(Seq::<char>::empty()).len() == 0,
        c == '\\' ==> escaped(value.push(c)) == escaped(value) + seq!['\\', '\\'],
        c == '"' ==> escaped(value.push(c)) == escaped(value) + seq!['\\', '"'],
        c == '\n' ==> escaped(value.push(c)) == escaped(value) + seq!['\\', 'n'],
        c != '\\' && c != '"' && c != '\n' ==> escaped(value.push(c)) == escaped(value).push(c),
{
    reveal_strlit("\\\\");
    reveal_strlit("\\\"");
    reveal_strlit("\\n");
    assert(value.push(c).drop_last() =~= value);
    assert("\\\\"@ =~= seq!['\\', '\\']);
    assert("\\\""@ =~= seq!['\\', '"']);
    assert("\\n"@ =~= seq!['\\', 'n']);
}

/// An escaped value has no end of a line in it.
pub proof fn law_escaped_values_stay_on_their_line(value: Seq<char>)
    ensures
        !escaped(value).contains('\n'),
    decreases value.len(),
{
    if value.len() > 0 {
        let (earlier, c) = (value.drop_last(), value.last());
        law_escaped_values_stay_on_their_line(earlier);
        law_escaping_goes_by_characters(earlier, c);
        assert(earlier.push(c) =~= value);
        if escaped(value).contains('\n') {
            let i = choose|i: int| 0 <= i < escaped(value).len() && escaped(value)[i] == '\n';
            if i < escaped(earlier).len() {
                assert(escaped(earlier)[i] == '\n');
            }
        }
    }
}

/// A value without any of the three characters is its own escape.
pub proof fn law_plain_values_are_unchanged(value: Seq<char>)
    requires
        !value.contains('\\'),
        !value.contains('"'),
        !value.contains('\n'),
    ensures
        escaped(value) == value,
    decreases value.len(),
{
    if value.len() > 0 {
        let (earlier, c) = (value.drop_last(), value.last());
        assert forall|d: char| #[trigger] earlier.contains(d) implies value.contains(d) by {
            let i = choose|i: int| 0 <= i < earlier.len() && earlier[i] == d;
            assert(value[i] == d);
        }
        assert(value[value.len() - 1] == c);
        law_plain_values_are_unchanged(earlier);
        law_escaping_goes_by_characters(earlier, c);
        assert(earlier.push(c) =~= value);
    }
}

/// Each label is its name and its escaped value in quotes, and labels are
/// separated by commas.
pub proof fn law_labels_are_separated(labels: Seq<Label>, label: Label)
    ensures
        labels_text(Seq::<Label>::empty()).len() == 0,
        labels.len() == 0 ==> labels_text(labels.push(label)) == label.0 + seq!['=', '"']
            + escaped(label.1) + seq!['"'],
        labels.len() > 0 ==> labels_text(labels.push(label)) == labels_text(labels) + seq![',']
            + label.0 + seq!['=', '"'] + escaped(label.1) + seq!['"'],
{
    reveal_strlit("=\"");
    reveal_strlit("\"");
    reveal_strlit(",");
    assert(labels.push(label).drop_last() =~= labels);
    assert("=\""@ =~= seq!['=', '"']);
    assert("\""@ =~= seq!['"']);
    assert(","@ =~= seq![',']);
    let text = labels_text(labels.push(label));
    assert(label_text(label) =~= label.0 + seq!['=', '"'] + escaped(label.1) + seq!['"']);
    if labels.len() > 0 {
        assert(text =~= labels_text(labels) + seq![','] + label.0 + seq!['=', '"'] + escaped(
            label.1,
        ) + seq!['"']);
    }
}

/// A sample is its name, its labels in braces, a space and its value, on a line
/// of its own.
pub proof fn law_sample_is_one_line(name: Seq<char>, labels: Seq<Label>, value: Seq<char>)
    ensures
        sample_line(name, labels, value) == name + seq!['{'] + labels_text(labels) + seq!['}', ' ']
            + value + seq!['\n'],
{
    reveal_strlit("{");
    reveal_strlit("} ");
    reveal_strlit("\n");
    assert("{"@ =~= seq!['{']);
    assert("} "@ =~= seq!['}', ' ']);
    assert("\n"@ =~= seq!['\n']);
}

} // verus!
