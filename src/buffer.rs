use vstd::prelude::*;
use vstd::string::StringExecFns;
use crate::text::{join_lines, lines_of, split_at_breaks, lemma_split_nonempty};

verus! {

/// Relies on String::push: the character is added at the end.
#[verifier::external_body]
fn push_char(s: &mut String, c: char)
    ensures
        final(s)@ == old(s)@.push(c),
{
    s.push(c);
}

/// The lines that a session has accepted, in the order of acceptance.
pub struct SessionBuffer {
    lines: Vec<String>,
}

impl View for SessionBuffer {
    type V = Seq<Seq<char>>;

    closed spec fn view(&self) -> Seq<Seq<char>> {
        self.lines@.map_values(|l: String| l@)
    }
}

impl SessionBuffer {
    /// A buffer with no lines, as at the start of a fresh session.
    pub fn new() -> (r: SessionBuffer)
        ensures
            r@ == Seq::<Seq<char>>::empty(),
    {
        SessionBuffer { lines: Vec::new() }
    }

    /// A buffer holding the given lines, in the given order.
    pub fn from_lines(lines: Vec<String>) -> (r: SessionBuffer)
        ensures
            r@ == lines@.map_values(|l: String| l@),
    {
        SessionBuffer { lines }
    }

    /// The number of accepted lines.
    pub fn len(&self) -> (r: usize)
        ensures
            r == self@.len(),
    {
        self.lines.len()
    }

    /// The accepted lines, oldest first.
    pub fn lines(&self) -> (r: &Vec<String>)
        ensures
            r@.map_values(|l: String| l@) == self@,
    {
        &self.lines
    }

    /// Commits one line after the ones already accepted.
    pub fn append(&mut self, line: String)
        ensures
            final(self)@ == old(self)@.push(line@),
    {
        self.lines.push(line);
        assert(final(self)@ =~= old(self)@.push(line@));
    }

    /// The text of the session file for this buffer: the lines joined by line
    /// breaks, nothing before or after.
    pub fn to_text(&self) -> (r: String)
        ensures
            r@ == join_lines(self@),
    {
        let mut text = String::new();
        let mut i: usize = 0;
        while i < self.lines.len()
            invariant
                i <= self.lines@.len(),
                text@ == join_lines(self@.take(i as int)),
            decreases self.lines@.len() - i,
        {
            let ghost before = self@.take(i as int);
            if i > 0 {
                text.append("\n");
            }
            text.append(self.lines[i].as_str());
            proof {
                reveal_strlit("\n");
                let after = self@.take(i + 1);
                assert(after.drop_last() =~= before);
                assert(after.last() == self.lines@[i as int]@);
                if i == 0 {
                    assert(before.len() == 0);
                    assert(text@ =~= join_lines(after));
                } else {
                    assert(text@ =~= join_lines(after));
                }
            }
            i = i + 1;
        }
        assert(self@.take(self.lines@.len() as int) =~= self@);
        text
    }

    /// The buffer that a session file's text holds: one line for each piece
    /// between line breaks, and no line at all for an empty text.
    pub fn from_text(text: &str) -> (r: SessionBuffer)
        ensures
            r@ == lines_of(text@),
    {
        let mut lines: Vec<String> = Vec::new();
        let mut current = String::new();
        let ghost seen: Seq<char> = Seq::empty();
        for c in it: text.chars()
            invariant
                it.seq() == text@,
                seen == text@.take(it.index()),
                lines@.map_values(|l: String| l@).push(current@) == split_at_breaks(seen),
        {
            proof {
                lemma_split_nonempty(seen);
            }
            let ghost prev = seen;
            if c == '\n' {
                let done = current;
                lines.push(done);
                current = String::new();
            } else {
                push_char(&mut current, c);
            }
            proof {
                seen = text@.take(it.index() + 1);
                assert(seen.drop_last() =~= prev);
                assert(seen.last() == c);
                assert(lines@.map_values(|l: String| l@).push(current@) =~= split_at_breaks(seen));
            }
        }
        if text.is_empty() {
            return SessionBuffer { lines: Vec::new() };
        }
        assert(seen =~= text@);
        lines.push(current);
        SessionBuffer { lines }
    }
}

} // verus!
