use vstd::prelude::*;
use crate::buffer::SessionBuffer;
use crate::program::{program_text, prompt, synthesize, PLAIN_PROMPT, SESSION_PROMPT_SUFFIX};
use crate::text::join_lines;

verus! {

/// Where a session stands between two events.
pub enum Phase {
    /// Waiting for the next line from the line editor.
    AwaitingInput,
    /// The program built for this line is being compiled.
    Compiling(String),
    /// The program built for this line compiled and is being run.
    Running(String),
    /// The session is over; its buffer has been handed out to be saved.
    Stopped,
}

/// What the outside world reports to a session.
pub enum Event {
    /// The line editor returned a line.
    Line(String),
    /// The user interrupted input.
    Interrupted,
    /// Input ended.
    EndOfInput,
    /// The line editor failed for another reason.
    InputFailed,
    /// The compiler finished; `true` when it succeeded.
    CompileFinished(bool),
    /// The compiled program finished, whatever its exit status.
    RunFinished,
}

/// What a session asks the outside world to do next.
pub enum Action {
    /// Read one line, showing this prompt.
    ReadLine(String),
    /// Compile this program text.
    Compile(String),
    /// Run the program that was just compiled.
    Run,
    /// Write this text to the session file at this path, then end.
    Save(String, String),
    /// End without saving.
    Exit,
}

/// The phase of a session, with lines as character sequences.
pub enum PhaseView {
    AwaitingInput,
    Compiling(Seq<char>),
    Running(Seq<char>),
    Stopped,
}

/// An event, with lines as character sequences.
pub enum EventView {
    Line(Seq<char>),
    Interrupted,
    EndOfInput,
    InputFailed,
    CompileFinished(bool),
    RunFinished,
}

/// An action, with texts as character sequences.
pub enum ActionView {
    ReadLine(Seq<char>),
    Compile(Seq<char>),
    Run,
    Save(Seq<char>, Seq<char>),
    Exit,
}

/// The state of a session: the accepted lines, the session file in use if
/// any, and the phase.
pub struct SessionView {
    pub lines: Seq<Seq<char>>,
    pub session_path: Option<Seq<char>>,
    pub phase: PhaseView,
}

impl View for Phase {
    type V = PhaseView;

    open spec fn view(&self) -> PhaseView {
        match self {
            Phase::AwaitingInput => PhaseView::AwaitingInput,
            Phase::Compiling(l) => PhaseView::Compiling(l@),
            Phase::Running(l) => PhaseView::Running(l@),
            Phase::Stopped => PhaseView::Stopped,
        }
    }
}

impl View for Event {
    type V = EventView;

    open spec fn view(&self) -> EventView {
        match self {
            Event::Line(l) => EventView::Line(l@),
            Event::Interrupted => EventView::Interrupted,
            Event::EndOfInput => EventView::EndOfInput,
            Event::InputFailed => EventView::InputFailed,
            Event::CompileFinished(ok) => EventView::CompileFinished(*ok),
            Event::RunFinished => EventView::RunFinished,
        }
    }
}

impl View for Action {
    type V = ActionView;

    open spec fn view(&self) -> ActionView {
        match self {
            Action::ReadLine(p) => ActionView::ReadLine(p@),
            Action::Compile(t) => ActionView::Compile(t@),
            Action::Run => ActionView::Run,
            Action::Save(p, t) => ActionView::Save(p@, t@),
            Action::Exit => ActionView::Exit,
        }
    }
}

/// The prompt for a session with this session file, if any.
pub open spec fn prompt_text(session_path: Option<Seq<char>>) -> Seq<char> {
    match session_path {
        None => PLAIN_PROMPT@,
        Some(p) => p + SESSION_PROMPT_SUFFIX@,
    }
}

/// What a session in state `s` waits to have done.
pub open spec fn pending_action(s: SessionView) -> ActionView {
    match s.phase {
        PhaseView::AwaitingInput => ActionView::ReadLine(prompt_text(s.session_path)),
        PhaseView::Compiling(l) => ActionView::Compile(program_text(s.lines, l)),
        PhaseView::Running(_) => ActionView::Run,
        PhaseView::Stopped => match s.session_path {
            Some(p) => ActionView::Save(p, join_lines(s.lines)),
            None => ActionView::Exit,
        },
    }
}

/// The state that follows `s` on event `e`. A line starts its compilation; a
/// failed compilation drops the line; a successful one runs the program, and
/// once it has run the line is committed; an interrupt, the end of input or
/// an input failure stops the session. An event that does not belong to the
/// phase changes nothing.
pub open spec fn next_state(s: SessionView, e: EventView) -> SessionView {
    match (s.phase, e) {
        (PhaseView::AwaitingInput, EventView::Line(l)) => SessionView {
            phase: PhaseView::Compiling(l),
            ..s
        },
        (PhaseView::AwaitingInput, EventView::Interrupted)
        | (PhaseView::AwaitingInput, EventView::EndOfInput)
        | (PhaseView::AwaitingInput, EventView::InputFailed) => SessionView {
            phase: PhaseView::Stopped,
            ..s
        },
        (PhaseView::Compiling(l), EventView::CompileFinished(ok)) => if ok {
            SessionView { phase: PhaseView::Running(l), ..s }
        } else {
            SessionView { phase: PhaseView::AwaitingInput, ..s }
        },
        (PhaseView::Running(l), EventView::RunFinished) => SessionView {
            lines: s.lines.push(l),
            phase: PhaseView::AwaitingInput,
            ..s
        },
        _ => s,
    }
}

/// A line read while waiting for input is compiled as part of the program
/// built from the lines accepted so far. If that compilation fails, the
/// session is back to waiting with its lines unchanged; if it succeeds, once
/// the program has run the session is back to waiting with the line appended.
pub proof fn lemma_commit_gating(s: SessionView, line: Seq<char>)
    requires
        s.phase == PhaseView::AwaitingInput,
    ensures
        pending_action(next_state(s, EventView::Line(line))) == ActionView::Compile(
            program_text(s.lines, line),
        ),
        next_state(next_state(s, EventView::Line(line)), EventView::CompileFinished(false)).lines
            == s.lines,
        next_state(next_state(s, EventView::Line(line)), EventView::CompileFinished(false)).phase
            == PhaseView::AwaitingInput,
        next_state(
            next_state(next_state(s, EventView::Line(line)), EventView::CompileFinished(true)),
            EventView::RunFinished,
        ).lines == s.lines.push(line),
        next_state(
            next_state(next_state(s, EventView::Line(line)), EventView::CompileFinished(true)),
            EventView::RunFinished,
        ).phase == PhaseView::AwaitingInput,
{
}

/// The accepted lines change on one step only: when the program built for a
/// line has compiled and run, and then just by that line at the end.
pub proof fn lemma_only_run_commits(s: SessionView, e: EventView)
    ensures
        next_state(s, e).lines == s.lines || (s.phase is Running && e == EventView::RunFinished
            && next_state(s, e).lines == s.lines.push(s.phase->Running_0)),
        next_state(s, e).session_path == s.session_path,
{
}

/// A stopped session stays stopped, with its lines as they were: whatever
/// arrives, it asks for nothing but to be saved or ended.
pub proof fn lemma_stopped_is_final(s: SessionView, e: EventView)
    requires
        s.phase == PhaseView::Stopped,
    ensures
        next_state(s, e) == s,
        pending_action(next_state(s, e)) == pending_action(s),
        pending_action(s) is Save || pending_action(s) is Exit,
{
}

/// One interactive session: the accepted lines, the session file in use if
/// any, and where the session stands.
pub struct Session {
    buffer: SessionBuffer,
    session_path: Option<String>,
    phase: Phase,
}

impl View for Session {
    type V = SessionView;

    closed spec fn view(&self) -> SessionView {
        SessionView {
            lines: self.buffer@,
            session_path: match self.session_path {
                Some(p) => Some(p@),
                None => None,
            },
            phase: self.phase@,
        }
    }
}

impl Session {
    /// A session that starts from `buffer` and waits for its first line.
    pub fn new(buffer: SessionBuffer, session_path: Option<String>) -> (r: Session)
        ensures
            r@.lines == buffer@,
            r@.session_path == match session_path {
                Some(p) => Some(p@),
                None => None::<Seq<char>>,
            },
            r@.phase == PhaseView::AwaitingInput,
    {
        Session { buffer, session_path, phase: Phase::AwaitingInput }
    }

    /// The accepted lines.
    pub fn buffer(&self) -> (r: &SessionBuffer)
        ensures
            r@ == self@.lines,
    {
        &self.buffer
    }

    /// True once the session has stopped.
    pub fn is_stopped(&self) -> (r: bool)
        ensures
            r == (self@.phase == PhaseView::Stopped),
    {
        match self.phase {
            Phase::Stopped => true,
            _ => false,
        }
    }

    /// What the session waits to have done now.
    pub fn pending(&self) -> (r: Action)
        ensures
            r@ == pending_action(self@),
    {
        match &self.phase {
            Phase::AwaitingInput => {
                let p = match &self.session_path {
                    Some(p) => prompt(Some(p.as_str())),
                    None => prompt(None),
                };
                Action::ReadLine(p)
            },
            Phase::Compiling(l) => Action::Compile(synthesize(&self.buffer, l.as_str())),
            Phase::Running(_) => Action::Run,
            Phase::Stopped => match &self.session_path {
                Some(p) => Action::Save(p.clone(), self.buffer.to_text()),
                None => Action::Exit,
            },
        }
    }

    /// Takes in one event and returns what is to be done next.
    pub fn step(&mut self, event: Event) -> (r: Action)
        ensures
            final(self)@ == next_state(old(self)@, event@),
            r@ == pending_action(final(self)@),
    {
        let mut phase = Phase::Stopped;
        core::mem::swap(&mut phase, &mut self.phase);
        let next = match (phase, event) {
            (Phase::AwaitingInput, Event::Line(l)) => Phase::Compiling(l),
            (Phase::AwaitingInput, Event::Interrupted)
            | (Phase::AwaitingInput, Event::EndOfInput)
            | (Phase::AwaitingInput, Event::InputFailed) => Phase::Stopped,
            (Phase::Compiling(l), Event::CompileFinished(ok)) => if ok {
                Phase::Running(l)
            } else {
                Phase::AwaitingInput
            },
            (Phase::Running(l), Event::RunFinished) => {
                self.buffer.append(l);
                Phase::AwaitingInput
            },
            (other, _) => other,
        };
        self.phase = next;
        self.pending()
    }
}

} // verus!
