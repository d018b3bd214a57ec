//! The list of what a dry run would download.

use vstd::prelude::*;
use vstd::string::StringExecFns;

verus! {

/// The lines of `lines` with a line feed between each two.
pub open spec fn joined(lines: Seq<Seq<char>>) -> Seq<char>
    decreases lines.len(),
{
    if lines.len() == 0 {
        Seq::empty()
    } else if lines.len() == 1 {
        lines[0]
    } else {
        joined(lines.drop_last()) + seq!['\n'] + lines.last()
    }
}

/// The lines that the workers of a dry run reported, in the order in which
/// they came in. Workers that share a collector put it behind a lock of its
/// own.
pub struct ResultsCollector {
    lines: Vec<String>,
}

impl View for ResultsCollector {
    type V = Seq<Seq<char>>;

    closed spec fn view(&self) -> Seq<Seq<char>> {
        self.lines@.map_values(|line: String| line@)
    }
}

impl ResultsCollector {
    /// A collector without lines.
    pub fn new() -> (collector: ResultsCollector)
        ensures
            collector@ == Seq::<Seq<char>>::empty(),
    {
        ResultsCollector { lines: Vec::new() }
    }

    /// The number of lines.
    pub fn len(&self) -> (count: usize)
        ensures
            count == self@.len(),
    {
        self.lines.len()
    }

    /// Adds a line after those that are there.
    pub fn push(&mut self, line: String)
        ensures
            final(self)@ == old(self)@.push(line@),
    {
        self.lines.push(line);
        proof {
            assert(final(self)@ =~= old(self)@.push(line@));
        }
    }

    /// All lines as one text, with a line feed between each two.
    pub fn report(&self) -> (text: String)
        ensures
            text@ == joined(self@),
    {
        proof {
            reveal_strlit("\n");
            assert("\n"@ =~= seq!['\n']);
        }
        let mut text = String::new();
        let mut i: usize = 0;
        while i < self.lines.len()
            invariant
                i <= self.lines.len(),
                "\n"@ == seq!['\n'],
                text@ == joined(self@.take(i as int)),
            decreases self.lines.len() - i,
        {
            proof {
                assert(self@.take(i + 1).drop_last() =~= self@.take(i as int));
                assert(self@.take(i + 1).last() == self.lines@[i as int]@);
                if i == 0 {
                    assert(text@ + self.lines@[0]@ =~= self.lines@[0]@);
                }
            }
            if i > 0 {
                text.append("\n");
            }
            text.append(self.lines[i].as_str());
            i += 1;
        }
        proof {
            assert(self@.take(i as int) =~= self@);
        }
        text
    }
}

} // verus!
