//! Expositions made of samples of the metric families.
use crate::families::Family;
use crate::metrics::{label_views, sample_line, Label, MetricBuilder};
use vstd::prelude::*;

verus! {

/// One sample: its family, its labels and the text of its value.
pub struct MetricLine {
    pub family: Family,
    pub labels: Seq<Label>,
    pub value: Seq<char>,
}

/// The line of a sample.
pub open spec fn line_text(line: MetricLine) -> Seq<char> {
    sample_line(line.family.name_text(), line.labels, line.value)
}

/// Whether one of the samples belongs to the family.
pub open spec fn mentions(lines: Seq<MetricLine>, family: Family) -> bool {
    exists|i: int| 0 <= i < lines.len() && (#[trigger] lines[i]).family == family
}

/// The exposition of the samples: their lines in order, and before the first
/// sample of each family the header of the family.
pub open spec fn exposition(lines: Seq<MetricLine>) -> Seq<char>
    decreases lines.len(),
{
    if lines.len() == 0 {
        seq![]
    } else {
        let earlier = lines.drop_last();
        let family = lines.last().family;
        exposition(earlier) + (if mentions(earlier, family) {
            seq![]
        } else {
            family.header()
        }) + line_text(lines.last())
    }
}

/// The samples of all items, in the order of the items.
pub open spec fn flat<T>(items: Seq<T>, lines: spec_fn(T) -> Seq<MetricLine>) -> Seq<MetricLine>
    decreases items.len(),
{
    if items.len() == 0 {
        seq![]
    } else {
        flat(items.drop_last(), lines) + lines(items.last())
    }
}

/// One more item adds its samples at the end.
pub proof fn lemma_flat_next<T>(
    items: Seq<T>,
    lines: spec_fn(T) -> Seq<MetricLine>,
    i: int,
)
    requires
        0 <= i < items.len(),
    ensures
        flat(items.take(i + 1), lines) == flat(items.take(i), lines) + lines(items[i]),
{
    assert(items.take(i + 1).drop_last() =~= items.take(i));
}

/// Writes an exposition sample by sample.
pub struct ExpositionWriter {
    builder: MetricBuilder,
    seen: Vec<Family>,
    lines: Ghost<Seq<MetricLine>>,
}

impl ExpositionWriter {
    /// The samples written so far.
    pub closed spec fn lines(self) -> Seq<MetricLine> {
        self.lines@
    }

    /// The text is the exposition of the samples, and the families that have a
    /// header are the families of the samples.
    pub closed spec fn well_formed(self) -> bool {
        &&& self.builder@ == exposition(self.lines@)
        &&& forall|family: Family|
            #[trigger] self.seen@.contains(family) == mentions(self.lines@, family)
    }

    /// A writer with nothing written.
    pub fn new() -> (writer: Self)
        ensures
            writer.well_formed(),
            writer.lines() == Seq::<MetricLine>::empty(),
    {
        ExpositionWriter {
            builder: MetricBuilder::new(),
            seen: Vec::new(),
            lines: Ghost(Seq::empty()),
        }
    }

    /// Whether the family has its header.
    fn has_header(&self, family: Family) -> (found: bool)
        ensures
            found == self.seen@.contains(family),
    {
        let mut i: usize = 0;
        while i < self.seen.len()
            invariant
                i <= self.seen@.len(),
                forall|j: int| 0 <= j < i ==> self.seen@[j] != family,
            decreases self.seen@.len() - i,
        {
            if self.seen[i] == family {
                return true;
            }
            i += 1;
        }
        false
    }

    /// Writes a sample, after the header of its family if it is the first one.
    pub fn sample(&mut self, family: Family, labels: &[(&str, &str)], value: &str)
        requires
            old(self).well_formed(),
        ensures
            final(self).well_formed(),
            final(self).lines() == old(self).lines().push(
                (MetricLine { family, labels: label_views(labels@), value: value@ }),
            ),
    {
        let ghost line = MetricLine { family, labels: label_views(labels@), value: value@ };
        let ghost earlier = self.lines@;
        if !self.has_header(family) {
            self.builder.help(family.name(), family.help());
            self.builder.type_(family.name(), family.kind());
            self.seen.push(family);
        }
        self.builder.metric(family.name(), labels, value);
        self.lines = Ghost(earlier.push(line));
        proof {
            let lines = earlier.push(line);
            assert(lines.drop_last() =~= earlier);
            assert(self.builder@ =~= exposition(lines));
            assert forall|f: Family| #[trigger] self.seen@.contains(f) == mentions(lines, f) by {
                let before = old(self).seen@;
                if f == family {
                    assert(lines[lines.len() - 1].family == f);
                    if !before.contains(f) {
                        assert(self.seen@[self.seen@.len() - 1] == f);
                    }
                } else {
                    if before.contains(f) {
                        let i = choose|i: int| 0 <= i < before.len() && before[i] == f;
                        assert(self.seen@[i] == f);
                    }
                    assert(mentions(lines, f) == mentions(earlier, f)) by {
                        if mentions(earlier, f) {
                            let i = choose|i: int|
                                0 <= i < earlier.len() && (#[trigger] earlier[i]).family == f;
                            assert(lines[i].family == f);
                        }
                        if mentions(lines, f) {
                            let i = choose|i: int|
                                0 <= i < lines.len() && (#[trigger] lines[i]).family == f;
                            assert(earlier[i].family == f);
                        }
                    }
                    if self.seen@.contains(f) {
                        let i = choose|i: int| 0 <= i < self.seen@.len() && self.seen@[i] == f;
                        assert(before[i] == f);
                    }
                }
            }
        }
    }

    /// The exposition of the samples.
    pub fn finish(self) -> (output: String)
        requires
            self.well_formed(),
        ensures
            output@ == exposition(self.lines()),
    {
        self.builder.build()
    }
}

} // verus!
