use vstd::prelude::*;
use vstd::string::StringExecFns;
use crate::buffer::SessionBuffer;
use crate::text::join_lines;

verus! {

/// What every candidate program starts with: an entry point whose unused
/// items draw no warnings.
pub const PROGRAM_HEAD: &'static str = "#[allow(unused)]\nfn main() {\n";

/// What closes every candidate program.
pub const PROGRAM_TAIL: &'static str = "\n}";

/// The prompt shown when no session file is in use.
pub const PLAIN_PROMPT: &'static str = "> ";

/// What follows the session file's path in the prompt.
pub const SESSION_PROMPT_SUFFIX: &'static str = " | > ";

/// The candidate program for the accepted `lines` and one new `line`.
pub open spec fn program_text(lines: Seq<Seq<char>>, line: Seq<char>) -> Seq<char> {
    PROGRAM_HEAD@ + join_lines(lines) + seq!['\n'] + line + PROGRAM_TAIL@
}

/// Where the `i`-th accepted line starts in the joined lines: after each
/// earlier line and its line break.
pub open spec fn line_offset(lines: Seq<Seq<char>>, i: int) -> int
    decreases i,
{
    if i <= 0 {
        0
    } else {
        line_offset(lines, i - 1) + lines[i - 1].len() + 1
    }
}

/// Where the new line starts, counted from the end of the program's head:
/// after the accepted lines and one line break.
pub open spec fn candidate_offset(lines: Seq<Seq<char>>) -> int {
    if lines.len() == 0 {
        1
    } else {
        line_offset(lines, lines.len() as int)
    }
}

/// Builds the program that is compiled for `line` on top of what `buffer`
/// has accepted.
pub fn synthesize(buffer: &SessionBuffer, line: &str) -> (r: String)
    ensures
        r@ == program_text(buffer@, line@),
{
    let mut text = String::from_str(PROGRAM_HEAD);
    let joined = buffer.to_text();
    text.append(joined.as_str());
    text.append("\n");
    text.append(line);
    text.append(PROGRAM_TAIL);
    proof {
        reveal_strlit("\n");
        assert(text@ =~= program_text(buffer@, line@));
    }
    text
}

/// The prompt: the plain one, or the session file's path followed by a
/// marker when a session file is in use.
pub fn prompt(session_path: Option<&str>) -> (r: String)
    ensures
        r@ == match session_path {
            None => PLAIN_PROMPT@,
            Some(p) => p@ + SESSION_PROMPT_SUFFIX@,
        },
{
    match session_path {
        None => String::from_str(PLAIN_PROMPT),
        Some(p) => {
            let mut text = String::from_str(p);
            text.append(SESSION_PROMPT_SUFFIX);
            text
        },
    }
}

/// The candidate program depends on the accepted lines and the new line
/// alone: the same buffer and line give the same text every time.
pub proof fn lemma_synthesis_deterministic(
    lines1: Seq<Seq<char>>,
    line1: Seq<char>,
    lines2: Seq<Seq<char>>,
    line2: Seq<char>,
)
    requires
        lines1 == lines2,
        line1 == line2,
    ensures
        program_text(lines1, line1) == program_text(lines2, line2),
{
}

proof fn lemma_join_positions(lines: Seq<Seq<char>>, n: int)
    requires
        1 <= n <= lines.len(),
    ensures
        join_lines(lines.take(n)).len() == line_offset(lines, n) - 1,
        forall|i: int|
            0 <= i < n ==> join_lines(lines.take(n)).subrange(
                line_offset(lines, i),
                line_offset(lines, i) + lines[i].len(),
            ) == #[trigger] lines[i],
    decreases n,
{
    let t = lines.take(n);
    if n == 1 {
        assert(t.len() == 1);
        assert(join_lines(t) == lines[0]);
        assert(line_offset(lines, 0) == 0);
        assert(join_lines(t).subrange(0, lines[0].len() as int) =~= lines[0]);
    } else {
        lemma_join_positions(lines, n - 1);
        let prev = join_lines(lines.take(n - 1));
        assert(t.drop_last() =~= lines.take(n - 1));
        assert(t.last() == lines[n - 1]);
        let whole = prev + seq!['\n'] + lines[n - 1];
        assert(join_lines(t) == whole);
        assert forall|i: int| 0 <= i < n implies join_lines(t).subrange(
            line_offset(lines, i),
            line_offset(lines, i) + lines[i].len(),
        ) == #[trigger] lines[i] by {
            if i < n - 1 {
                let a = line_offset(lines, i);
                let b = a + lines[i].len();
                lemma_offset_grows(lines, 0, i);
                assert(b <= prev.len()) by {
                    lemma_offset_grows(lines, i + 1, n - 1);
                }
                assert(whole.subrange(a, b) =~= prev.subrange(a, b));
            } else {
                assert(whole.subrange(prev.len() + 1int, whole.len() as int) =~= lines[n - 1]);
            }
        }
    }
}

proof fn lemma_offset_grows(lines: Seq<Seq<char>>, i: int, j: int)
    requires
        0 <= i <= j,
    ensures
        line_offset(lines, i) <= line_offset(lines, j),
    decreases j - i,
{
    if i < j {
        lemma_offset_grows(lines, i, j - 1);
    }
}

/// Each accepted line stands in the candidate program whole and unchanged,
/// starting where the lines accepted before it end, with the new line after
/// all of them: lines appear in the order in which they were committed, none
/// dropped, merged or moved.
pub proof fn lemma_lines_in_order(lines: Seq<Seq<char>>, line: Seq<char>)
    ensures
        forall|i: int|
            0 <= i < lines.len() ==> program_text(lines, line).subrange(
                PROGRAM_HEAD@.len() + line_offset(lines, i),
                PROGRAM_HEAD@.len() + line_offset(lines, i) + lines[i].len(),
            ) == #[trigger] lines[i],
        forall|i: int|
            0 <= i && i + 1 < lines.len() ==> line_offset(lines, i) + lines[i].len() < line_offset(
                lines,
                i + 1,
            ),
        program_text(lines, line).subrange(
            PROGRAM_HEAD@.len() + candidate_offset(lines),
            PROGRAM_HEAD@.len() + candidate_offset(lines) + line.len(),
        ) == line,
{
    let head = PROGRAM_HEAD@;
    let joined = join_lines(lines);
    let n = lines.len() as int;
    if n > 0 {
        lemma_join_positions(lines, n);
        assert(lines.take(n) =~= lines);
    }
    let text = program_text(lines, line);
    assert(text == head + (joined + (seq!['\n'] + (line + PROGRAM_TAIL@)))) by {
        assert(text =~= head + (joined + (seq!['\n'] + (line + PROGRAM_TAIL@))));
    }
    assert forall|i: int| 0 <= i < lines.len() implies text.subrange(
        head.len() + line_offset(lines, i),
        head.len() + line_offset(lines, i) + lines[i].len(),
    ) == #[trigger] lines[i] by {
        let a = line_offset(lines, i);
        let b = a + lines[i].len();
        lemma_offset_grows(lines, 0, i);
        lemma_offset_grows(lines, i + 1, n);
        assert(joined.subrange(a, b) == lines[i]);
        assert(text.subrange(head.len() + a, head.len() + b) =~= joined.subrange(a, b));
    }
    assert(candidate_offset(lines) == joined.len() + 1);
    let start = head.len() + joined.len() + 1int;
    assert(text.subrange(start, start + line.len()) =~= line);
}

} // verus!
