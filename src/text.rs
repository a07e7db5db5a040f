use vstd::prelude::*;

verus! {

/// Lines joined into one text, with a single line break between neighbours.
pub open spec fn join_lines(lines: Seq<Seq<char>>) -> Seq<char>
    decreases lines.len(),
{
    if lines.len() == 0 {
        Seq::empty()
    } else if lines.len() == 1 {
        lines[0]
    } else {
        join_lines(lines.drop_last()) + seq!['\n'] + lines.last()
    }
}

/// The pieces of `text` that lie between its line breaks, in order: one more
/// piece than there are breaks.
pub open spec fn split_at_breaks(text: Seq<char>) -> Seq<Seq<char>>
    decreases text.len(),
{
    if text.len() == 0 {
        seq![Seq::empty()]
    } else {
        let pieces = split_at_breaks(text.drop_last());
        if text.last() == '\n' {
            pieces.push(Seq::empty())
        } else {
            pieces.update(pieces.len() - 1, pieces.last().push(text.last()))
        }
    }
}

/// The lines that a session file holds: none for an empty file, else the
/// pieces between its line breaks.
pub open spec fn lines_of(text: Seq<char>) -> Seq<Seq<char>> {
    if text.len() == 0 {
        Seq::empty()
    } else {
        split_at_breaks(text)
    }
}

/// A line that can be stored as one line of a session file.
pub open spec fn is_single_line(line: Seq<char>) -> bool {
    !line.contains('\n')
}

/// Splitting always gives at least one piece.
pub proof fn lemma_split_nonempty(text: Seq<char>)
    ensures
        split_at_breaks(text).len() >= 1,
    decreases text.len(),
{
    if text.len() > 0 {
        lemma_split_nonempty(text.drop_last());
    }
}

/// Appending text without line breaks extends the last piece.
pub proof fn lemma_split_extend(prefix: Seq<char>, tail: Seq<char>)
    requires
        is_single_line(tail),
    ensures
        split_at_breaks(prefix + tail) == split_at_breaks(prefix).update(
            split_at_breaks(prefix).len() - 1,
            split_at_breaks(prefix).last() + tail,
        ),
    decreases tail.len(),
{
    lemma_split_nonempty(prefix);
    let p = split_at_breaks(prefix);
    if tail.len() == 0 {
        assert(prefix + tail =~= prefix);
        assert(p.last() + tail =~= p.last());
        assert(p.update(p.len() - 1, p.last()) =~= p);
    } else {
        let init = tail.drop_last();
        assert(!init.contains('\n')) by {
            assert forall|i: int| 0 <= i < init.len() implies init[i] != '\n' by {
                assert(init[i] == tail[i]);
            }
        }
        lemma_split_extend(prefix, init);
        assert((prefix + tail).drop_last() =~= prefix + init);
        assert((prefix + tail).last() == tail.last());
        assert(tail.last() != '\n') by {
            assert(tail[tail.len() - 1] == tail.last());
        }
        let q = split_at_breaks(prefix + init);
        assert(q.len() == p.len());
        assert(q.last() == p.last() + init);
        assert((p.last() + init).push(tail.last()) =~= p.last() + tail);
        assert(q.update(q.len() - 1, q.last().push(tail.last())) =~= p.update(
            p.len() - 1,
            p.last() + tail,
        ));
    }
}

/// Splitting the join of single-line lines gives those lines back.
pub proof fn lemma_split_join(lines: Seq<Seq<char>>)
    requires
        lines.len() >= 1,
        forall|i: int| 0 <= i < lines.len() ==> is_single_line(#[trigger] lines[i]),
    ensures
        split_at_breaks(join_lines(lines)) == lines,
    decreases lines.len(),
{
    if lines.len() == 1 {
        let empty = Seq::<char>::empty();
        assert(split_at_breaks(empty) =~= seq![empty]);
        lemma_split_extend(empty, lines[0]);
        assert(empty + lines[0] =~= lines[0]);
        assert(seq![empty].update(0, empty + lines[0]) =~= lines);
    } else {
        let init = lines.drop_last();
        assert forall|i: int| 0 <= i < init.len() implies is_single_line(#[trigger] init[i]) by {
            assert(init[i] == lines[i]);
        }
        lemma_split_join(init);
        let head = join_lines(init) + seq!['\n'];
        assert(head.drop_last() =~= join_lines(init));
        assert(split_at_breaks(head) == init.push(Seq::<char>::empty()));
        assert(is_single_line(lines[lines.len() - 1]));
        lemma_split_extend(head, lines.last());
        assert(Seq::<char>::empty() + lines.last() =~= lines.last());
        assert(init.push(Seq::<char>::empty()).update(init.len() as int, lines.last()) =~= lines);
    }
}

/// Reading back the text of a session file gives the lines it was written
/// from, provided each is a single line and they are not one empty line,
/// whose text is that of no lines at all.
pub proof fn lemma_lines_round_trip(lines: Seq<Seq<char>>)
    requires
        forall|i: int| 0 <= i < lines.len() ==> is_single_line(#[trigger] lines[i]),
        lines != seq![Seq::<char>::empty()],
    ensures
        lines_of(join_lines(lines)) == lines,
{
    if lines.len() == 0 {
        assert(lines_of(join_lines(lines)) =~= lines);
    } else {
        lemma_split_join(lines);
        if join_lines(lines).len() == 0 {
            assert(split_at_breaks(Seq::<char>::empty()) =~= seq![Seq::<char>::empty()]);
            assert(lines =~= seq![Seq::<char>::empty()]);
        }
    }
}

} // verus!
