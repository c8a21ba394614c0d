//! Replay of the journal files through the event bus.
//!
//! A pass walks the files of a journal directory from the newest (the highest
//! index) down to index 0. Every line of a file that decodes to an event is
//! broadcast on the event bus, and when a file is exhausted its index is
//! broadcast on the progress bus.
//!
//! Opening a file and reading a line are the caller's work. [`Replay::step`]
//! takes what came of the last request and answers with the next one, doing
//! the broadcasts itself. [`replay_step`] is the transition it follows, and the
//! lemmas at the end of the file say what a whole pass puts on the two buses.

use vstd::prelude::*;
use crate::broadcast_bus::BroadcastBus;
use crate::journal::{
    decode,
    event_of,
    is_empty_line,
    json_outcome,
    parse,
    Event,
    ParseError,
};
use crate::sequences::{lemma_filter_map_first, with_optional};

verus! {

/// Where a pass stands.
#[derive(Clone, Copy, Debug, PartialEq, Eq, Structural)]
pub enum ReplayPhase {
    /// Not started yet.
    Ready,
    /// Waiting for the current file to be opened.
    Opening,
    /// Waiting for the next line of the current file.
    Reading,
    /// Every file has been handled.
    Done,
}

/// What the caller is asked to do next.
#[derive(Clone, Copy, Debug, PartialEq, Eq, Structural)]
pub enum ReplayAction {
    /// Open the file with this index; answer with `Opened` or `OpenFailed`.
    Open(usize),
    /// Read the next line of the open file; answer with `Line`, `EndOfFile`
    /// or `ReadFailed`.
    ReadLine,
    /// Nothing is left to do.
    Stop,
}

/// What came of the caller's last piece of work.
#[derive(Debug)]
pub enum ReplayInput {
    /// The pass shall begin.
    Start,
    /// The file asked for is open.
    Opened,
    /// The file asked for could not be opened.
    OpenFailed,
    /// A line was read.
    Line(String),
    /// The open file has no more lines.
    EndOfFile,
    /// Reading a line failed.
    ReadFailed,
}

/// `ReplayInput` with the line as a sequence of characters.
pub enum InputView {
    Start,
    Opened,
    OpenFailed,
    Line(Seq<char>),
    EndOfFile,
    ReadFailed,
}

impl View for ReplayInput {
    type V = InputView;

    open spec fn view(&self) -> InputView {
        match self {
            ReplayInput::Start => InputView::Start,
            ReplayInput::Opened => InputView::Opened,
            ReplayInput::OpenFailed => InputView::OpenFailed,
            ReplayInput::Line(text) => InputView::Line(text@),
            ReplayInput::EndOfFile => InputView::EndOfFile,
            ReplayInput::ReadFailed => InputView::ReadFailed,
        }
    }
}

/// The state of a pass. `remaining` counts the files that are not finished
/// yet, so the current file is the one with index `remaining - 1`.
/// `failed_once` says that the last read of the current file failed.
pub struct ReplayState {
    pub phase: ReplayPhase,
    pub remaining: nat,
    pub failed_once: bool,
}

/// What one step does: the state it leads to, the request it answers with, and
/// what it broadcasts on the event bus and on the progress bus.
pub struct StepOutcome {
    pub next: ReplayState,
    pub action: ReplayAction,
    pub event: Option<Seq<char>>,
    pub progress: Option<int>,
}

impl ReplayState {
    /// The state before a pass over `file_count` files.
    pub open spec fn initial(file_count: nat) -> ReplayState {
        ReplayState { phase: ReplayPhase::Ready, remaining: file_count, failed_once: false }
    }

    /// A file is current exactly while one is being opened or read, and a
    /// finished pass has no file left.
    pub open spec fn wf(self) -> bool {
        &&& (self.phase == ReplayPhase::Opening || self.phase == ReplayPhase::Reading)
            ==> self.remaining >= 1
        &&& self.phase == ReplayPhase::Done ==> self.remaining == 0
        &&& self.remaining <= i64::MAX
    }
}

/// Turns to the newest of `remaining` unfinished files, or ends the pass when
/// none is left. `progress` is handed through to the outcome.
pub open spec fn turn_to_next(remaining: nat, progress: Option<int>) -> StepOutcome {
    if remaining == 0 {
        StepOutcome {
            next: ReplayState { phase: ReplayPhase::Done, remaining: 0, failed_once: false },
            action: ReplayAction::Stop,
            event: None,
            progress,
        }
    } else {
        StepOutcome {
            next: ReplayState { phase: ReplayPhase::Opening, remaining, failed_once: false },
            action: ReplayAction::Open((remaining - 1) as usize),
            event: None,
            progress,
        }
    }
}

/// Closes the current file of `remaining` unfinished ones: its index goes on
/// the progress bus and the pass turns to the file below it.
pub open spec fn finish_file(remaining: nat) -> StepOutcome {
    turn_to_next((remaining - 1) as nat, Some(remaining - 1))
}

/// A step that changes nothing but the request.
pub open spec fn stay(state: ReplayState, action: ReplayAction) -> StepOutcome {
    StepOutcome { next: state, action, event: None, progress: None }
}

/// The transition of a pass.
///
/// * Before the start only `Start` is heeded; after the end nothing is.
/// * A file that cannot be opened counts as exhausted.
/// * A line is decoded and, if it is an event, broadcast; empty and malformed
///   lines are dropped. Either way the next line is asked for.
/// * A failed read is tried again once; the second failure in a row ends the
///   file. An answer that fits no request counts as a failure of the request.
pub open spec fn replay_step(state: ReplayState, input: InputView) -> StepOutcome {
    match state.phase {
        ReplayPhase::Ready => match input {
            InputView::Start => turn_to_next(state.remaining, None),
            _ => stay(state, ReplayAction::Stop),
        },
        ReplayPhase::Opening => match input {
            InputView::Opened => stay(
                ReplayState { phase: ReplayPhase::Reading, failed_once: false, ..state },
                ReplayAction::ReadLine,
            ),
            _ => finish_file(state.remaining),
        },
        ReplayPhase::Reading => match input {
            InputView::Line(text) => StepOutcome {
                next: ReplayState { failed_once: false, ..state },
                action: ReplayAction::ReadLine,
                event: event_of(text),
                progress: None,
            },
            InputView::EndOfFile => finish_file(state.remaining),
            _ => if state.failed_once {
                finish_file(state.remaining)
            } else {
                stay(ReplayState { failed_once: true, ..state }, ReplayAction::ReadLine)
            },
        },
        ReplayPhase::Done => stay(state, ReplayAction::Stop),
    }
}

/// The place of a pass among the files, kept apart from the buses.
struct Cursor {
    phase: ReplayPhase,
    remaining: usize,
    failed_once: bool,
}

impl View for Cursor {
    type V = ReplayState;

    closed spec fn view(&self) -> ReplayState {
        ReplayState {
            phase: self.phase,
            remaining: self.remaining as nat,
            failed_once: self.failed_once,
        }
    }
}

impl Cursor {
    #[verifier::type_invariant]
    spec fn inv(&self) -> bool {
        self@.wf()
    }

    /// Follows `replay_step` as far as the place among the files goes. Returns
    /// the request, and the index to report if a file was finished.
    fn advance(&mut self, input: &ReplayInput) -> (out: (ReplayAction, Option<i64>))
        ensures
            final(self)@ == replay_step(old(self)@, input@).next,
            out.0 == replay_step(old(self)@, input@).action,
            match replay_step(old(self)@, input@).progress {
                Some(index) => out.1 == Some(index as i64),
                None => out.1.is_none(),
            },
            old(self)@.wf(),
            final(self)@.wf(),
    {
        proof {
            use_type_invariant(&*self);
        }
        let remaining = self.remaining;
        match self.phase {
            ReplayPhase::Ready => match input {
                ReplayInput::Start => {
                    let (next, action) = Cursor::turned_to(remaining);
                    *self = next;
                    (action, None)
                },
                _ => (ReplayAction::Stop, None),
            },
            ReplayPhase::Opening => match input {
                ReplayInput::Opened => {
                    *self = Cursor { phase: ReplayPhase::Reading, remaining, failed_once: false };
                    (ReplayAction::ReadLine, None)
                },
                _ => {
                    let (next, action) = Cursor::turned_to(remaining - 1);
                    *self = next;
                    (action, Some((remaining - 1) as i64))
                },
            },
            ReplayPhase::Reading => match input {
                ReplayInput::Line(_) => {
                    *self = Cursor { phase: ReplayPhase::Reading, remaining, failed_once: false };
                    (ReplayAction::ReadLine, None)
                },
                ReplayInput::EndOfFile => {
                    let (next, action) = Cursor::turned_to(remaining - 1);
                    *self = next;
                    (action, Some((remaining - 1) as i64))
                },
                _ => {
                    if self.failed_once {
                        let (next, action) = Cursor::turned_to(remaining - 1);
                        *self = next;
                        (action, Some((remaining - 1) as i64))
                    } else {
                        *self = Cursor {
                            phase: ReplayPhase::Reading,
                            remaining,
                            failed_once: true,
                        };
                        (ReplayAction::ReadLine, None)
                    }
                },
            },
            ReplayPhase::Done => (ReplayAction::Stop, None),
        }
    }

    /// The cursor on the newest of `remaining` unfinished files, with the
    /// request that goes with it.
    fn turned_to(remaining: usize) -> (out: (Cursor, ReplayAction))
        requires
            remaining <= i64::MAX,
        ensures
            out.0@ == turn_to_next(remaining as nat, None).next,
            out.1 == turn_to_next(remaining as nat, None).action,
    {
        if remaining == 0 {
            (
                Cursor { phase: ReplayPhase::Done, remaining: 0, failed_once: false },
                ReplayAction::Stop,
            )
        } else {
            (
                Cursor { phase: ReplayPhase::Opening, remaining, failed_once: false },
                ReplayAction::Open(remaining - 1),
            )
        }
    }
}

/// The complaint about the line that a step was given, if the step decoded a
/// line and the line was malformed.
pub open spec fn replay_rejection(state: ReplayState, input: InputView) -> Option<ParseError> {
    match input {
        InputView::Line(text) if state.phase == ReplayPhase::Reading => match decode(text) {
            Ok(_) => None,
            Err(error) => Some(error),
        },
        _ => None,
    }
}

/// A pass over the files of a journal directory, with the two buses it feeds.
pub struct Replay {
    events: BroadcastBus<Event>,
    progress: BroadcastBus<i64>,
    cursor: Cursor,
    rejection: Option<ParseError>,
}

impl View for Replay {
    type V = ReplayState;

    closed spec fn view(&self) -> ReplayState {
        self.cursor@
    }
}

impl Replay {
    /// The texts of the events broadcast on the event bus so far, oldest first.
    pub closed spec fn events_sent(&self) -> Seq<Seq<char>> {
        self.events.sent()
    }

    /// The indices broadcast on the progress bus so far, oldest first.
    pub closed spec fn progress_sent(&self) -> Seq<i64> {
        self.progress.sent()
    }

    /// The complaint about the line of the last step, if it was malformed.
    pub closed spec fn rejection(&self) -> Option<ParseError> {
        self.rejection
    }

    /// Prepares a pass over `file_count` files that broadcasts on the two
    /// buses given. Whoever wants to see the pass subscribes before it starts.
    pub fn new(
        file_count: usize,
        events: BroadcastBus<Event>,
        progress: BroadcastBus<i64>,
    ) -> (replay: Self)
        requires
            file_count <= i64::MAX,
        ensures
            replay@ == ReplayState::initial(file_count as nat),
            replay.events_sent() == events.sent(),
            replay.progress_sent() == progress.sent(),
            replay.rejection().is_none(),
    {
        Replay {
            events,
            progress,
            cursor: Cursor { phase: ReplayPhase::Ready, remaining: file_count, failed_once: false },
            rejection: None,
        }
    }

    /// Why the line that the last step was given was dropped, if that step
    /// was given a malformed line.
    pub fn last_rejection(&self) -> (rejection: Option<ParseError>)
        ensures
            rejection == self.rejection(),
    {
        self.rejection
    }

    /// Tells whether the pass has handled every file.
    pub fn is_done(&self) -> (done: bool)
        ensures
            done == (self@.phase == ReplayPhase::Done),
    {
        self.cursor.phase == ReplayPhase::Done
    }

    /// The number of files that are not finished yet.
    pub fn remaining(&self) -> (remaining: usize)
        ensures
            remaining == self@.remaining,
            self@.wf(),
    {
        proof {
            use_type_invariant(&self.cursor);
        }
        self.cursor.remaining
    }

    /// Takes the answer to the last request, broadcasts what the transition
    /// asks for, and returns the next request.
    pub fn step(&mut self, input: ReplayInput) -> (action: ReplayAction)
        ensures
            old(self)@.wf(),
            final(self)@.wf(),
            final(self)@ == replay_step(old(self)@, input@).next,
            action == replay_step(old(self)@, input@).action,
            final(self).events_sent() == with_optional(
                old(self).events_sent(),
                replay_step(old(self)@, input@).event,
            ),
            final(self).progress_sent() == with_optional(
                old(self).progress_sent(),
                match replay_step(old(self)@, input@).progress {
                    Some(index) => Some(index as i64),
                    None => None,
                },
            ),
            final(self).rejection() == replay_rejection(old(self)@, input@),
    {
        let reading = self.cursor.phase == ReplayPhase::Reading;
        let (action, report) = self.cursor.advance(&input);
        self.rejection = None;
        if reading {
            if let ReplayInput::Line(text) = input {
                match parse(text.as_str()) {
                    Ok(Some(event)) => {
                        self.events.broadcast(event);
                    },
                    Ok(None) => {},
                    Err(error) => {
                        self.rejection = Some(error);
                    },
                }
            }
        }
        if let Some(index) = report {
            self.progress.broadcast(index);
        }
        action
    }
}

/// What a run of steps leaves behind: the state reached, and what went out on
/// the event bus and on the progress bus, oldest first.
pub struct Trace {
    pub state: ReplayState,
    pub events: Seq<Seq<char>>,
    pub progress: Seq<int>,
}

/// The steps for `inputs`, taken one after the other from `state`.
pub open spec fn run(state: ReplayState, inputs: Seq<InputView>) -> Trace
    decreases inputs.len(),
{
    if inputs.len() == 0 {
        Trace { state, events: Seq::empty(), progress: Seq::empty() }
    } else {
        let first = replay_step(state, inputs[0]);
        let rest = run(first.next, inputs.drop_first());
        Trace {
            state: rest.state,
            events: with_optional(Seq::empty(), first.event) + rest.events,
            progress: with_optional(Seq::empty(), first.progress) + rest.progress,
        }
    }
}

/// The indices `from - 1`, `from - 2`, ..., `to`.
pub open spec fn countdown(from: nat, to: nat) -> Seq<int> {
    Seq::new((from - to) as nat, |i: int| from - 1 - i)
}

/// `event_of` as a value.
pub open spec fn event_picker() -> spec_fn(Seq<char>) -> Option<Seq<char>> {
    |line: Seq<char>| event_of(line)
}

/// The events of the lines of one file: those of the lines that have one, in
/// the order of the lines.
pub open spec fn events_of(lines: Seq<Seq<char>>) -> Seq<Seq<char>> {
    lines.filter_map(event_picker())
}

/// The answers that a file gives when it opens and every read succeeds.
pub open spec fn file_script(lines: Seq<Seq<char>>) -> Seq<InputView> {
    seq![InputView::Opened] + lines.map_values(|line: Seq<char>| InputView::Line(line))
        + seq![InputView::EndOfFile]
}

/// The answers of the files below index `count`, from the newest down.
pub open spec fn pass_script(files: Seq<Seq<Seq<char>>>, count: nat) -> Seq<InputView>
    decreases count,
{
    if count == 0 {
        Seq::empty()
    } else {
        file_script(files[count - 1]) + pass_script(files, (count - 1) as nat)
    }
}

/// The events of the files below index `count`, from the newest down.
pub open spec fn pass_events(files: Seq<Seq<Seq<char>>>, count: nat) -> Seq<Seq<char>>
    decreases count,
{
    if count == 0 {
        Seq::empty()
    } else {
        events_of(files[count - 1]) + pass_events(files, (count - 1) as nat)
    }
}

/// What a step broadcasts as an event is the line that it was given, and a
/// line that the JSON parser accepts: nothing else gets on the event bus.
pub proof fn lemma_step_broadcasts_its_line(state: ReplayState, input: InputView)
    ensures
        replay_step(state, input).event matches Some(text) ==> {
            &&& state.phase == ReplayPhase::Reading
            &&& input == InputView::Line(text)
            &&& !is_empty_line(text)
            &&& json_outcome(text) is Ok
        },
{
}

/// A step keeps the state well formed and finishes at most one file; it
/// reports an index exactly when it finishes a file, and then that file's.
pub proof fn lemma_step_reports_finished_file(state: ReplayState, input: InputView)
    requires
        state.wf(),
    ensures
        replay_step(state, input).next.wf(),
        replay_step(state, input).next.remaining == state.remaining
            && replay_step(state, input).progress.is_none()
            || replay_step(state, input).next.remaining + 1 == state.remaining
            && replay_step(state, input).progress == Some(state.remaining - 1),
{
}

/// Whatever the answers are, the indices that a run reports count down, one
/// by one, from the newest unfinished file to the newest that is still
/// unfinished afterwards.
pub proof fn lemma_progress_counts_down(state: ReplayState, inputs: Seq<InputView>)
    requires
        state.wf(),
    ensures
        run(state, inputs).state.wf(),
        run(state, inputs).state.remaining <= state.remaining,
        run(state, inputs).progress == countdown(
            state.remaining,
            run(state, inputs).state.remaining,
        ),
    decreases inputs.len(),
{
    if inputs.len() > 0 {
        // The first step reports at most the newest unfinished file, and the
        // steps after it count down from where it left off.
        lemma_step_reports_finished_file(state, inputs[0]);
        lemma_progress_counts_down(replay_step(state, inputs[0]).next, inputs.drop_first());
    }
}

/// A pass over `file_count` files that reaches its end has reported exactly
/// `file_count` indices: `file_count - 1` first, then one less each time, `0`
/// last.
pub proof fn lemma_finished_pass_reports_each_file(file_count: nat, inputs: Seq<InputView>)
    requires
        file_count <= i64::MAX,
        run(ReplayState::initial(file_count), inputs).state.phase == ReplayPhase::Done,
    ensures
        run(ReplayState::initial(file_count), inputs).progress.len() == file_count,
        forall|i: int|
            0 <= i < file_count ==> #[trigger] run(
                ReplayState::initial(file_count),
                inputs,
            ).progress[i] == file_count - 1 - i,
{
    lemma_progress_counts_down(ReplayState::initial(file_count), inputs);
}

/// Running `first` and then `second` is running the two one behind the other.
pub proof fn lemma_run_concat(state: ReplayState, first: Seq<InputView>, second: Seq<InputView>)
    ensures
        run(state, first + second).state == run(run(state, first).state, second).state,
        run(state, first + second).events == run(state, first).events + run(
            run(state, first).state,
            second,
        ).events,
        run(state, first + second).progress == run(state, first).progress + run(
            run(state, first).state,
            second,
        ).progress,
    decreases first.len(),
{
    if first.len() == 0 {
        assert(first + second =~= second);
    } else {
        assert((first + second).drop_first() =~= first.drop_first() + second);
        lemma_run_concat(replay_step(state, first[0]).next, first.drop_first(), second);
    }
}

/// While a file is read, lines put their events on the event bus, in order,
/// and nothing on the progress bus.
pub proof fn lemma_lines_become_events(state: ReplayState, lines: Seq<Seq<char>>)
    requires
        state.phase == ReplayPhase::Reading,
        !state.failed_once,
    ensures
        run(state, lines.map_values(|line: Seq<char>| InputView::Line(line))) == (Trace {
            state,
            events: events_of(lines),
            progress: Seq::empty(),
        }),
    decreases lines.len(),
{
    let inputs = lines.map_values(|line: Seq<char>| InputView::Line(line));
    if lines.len() > 0 {
        lemma_lines_become_events(state, lines.drop_first());
        lemma_filter_map_first(lines, event_picker());
        assert(inputs.drop_first() =~= lines.drop_first().map_values(
            |line: Seq<char>| InputView::Line(line),
        ));
        assert(run(state, inputs).events =~= events_of(lines));
    }
}

/// A file that opens and reads without failure puts the events of its lines
/// on the event bus and then its index on the progress bus, and the pass
/// turns to the file below.
pub proof fn lemma_file_is_replayed(remaining: nat, lines: Seq<Seq<char>>)
    requires
        remaining >= 1,
    ensures
        run(turn_to_next(remaining, None).next, file_script(lines)) == (Trace {
            state: turn_to_next((remaining - 1) as nat, None).next,
            events: events_of(lines),
            progress: seq![remaining - 1],
        }),
{
    let opening = turn_to_next(remaining, None).next;
    let reading = ReplayState { phase: ReplayPhase::Reading, remaining, failed_once: false };
    let open = seq![InputView::Opened];
    let read = lines.map_values(|line: Seq<char>| InputView::Line(line));
    let close = seq![InputView::EndOfFile];

    assert(run(opening, open) == (Trace {
        state: reading,
        events: Seq::empty(),
        progress: Seq::empty(),
    })) by {
        assert(run(reading, open.drop_first()).events =~= Seq::<Seq<char>>::empty());
    }
    lemma_lines_become_events(reading, lines);
    assert(run(reading, close) == (Trace {
        state: turn_to_next((remaining - 1) as nat, None).next,
        events: Seq::empty(),
        progress: seq![remaining - 1],
    })) by {
        let after = replay_step(reading, close[0]);
        assert(run(after.next, close.drop_first()).events =~= Seq::<Seq<char>>::empty());
    }
    lemma_run_concat(opening, open, read);
    lemma_run_concat(opening, open + read, close);
}

/// A whole pass over files that all open and read without failure: the event
/// bus gets the events of every file, the newest file first and each file's
/// lines in their order; the progress bus gets every index once, counting
/// down to `0`; and the pass is then done.
pub proof fn lemma_whole_pass(files: Seq<Seq<Seq<char>>>)
    ensures
        run(
            ReplayState::initial(files.len()),
            seq![InputView::Start] + pass_script(files, files.len()),
        ) == (Trace {
            state: ReplayState { phase: ReplayPhase::Done, remaining: 0, failed_once: false },
            events: pass_events(files, files.len()),
            progress: countdown(files.len(), 0),
        }),
{
    let initial = ReplayState::initial(files.len());
    let start = seq![InputView::Start];
    assert(run(initial, start) == (Trace {
        state: turn_to_next(files.len(), None).next,
        events: Seq::empty(),
        progress: Seq::empty(),
    })) by {
        let after = replay_step(initial, start[0]);
        assert(run(after.next, start.drop_first()).events =~= Seq::<Seq<char>>::empty());
    }
    lemma_rest_of_pass(files, files.len());
    lemma_run_concat(initial, start, pass_script(files, files.len()));
}

/// `lemma_whole_pass` from the moment at which `count` files are left.
proof fn lemma_rest_of_pass(files: Seq<Seq<Seq<char>>>, count: nat)
    requires
        count <= files.len(),
    ensures
        run(turn_to_next(count, None).next, pass_script(files, count)) == (Trace {
            state: ReplayState { phase: ReplayPhase::Done, remaining: 0, failed_once: false },
            events: pass_events(files, count),
            progress: countdown(count, 0),
        }),
    decreases count,
{
    let state = turn_to_next(count, None).next;
    if count == 0 {
        assert(run(state, pass_script(files, count)).progress =~= countdown(count, 0));
    } else {
        let below = (count - 1) as nat;
        lemma_file_is_replayed(count, files[count - 1]);
        lemma_rest_of_pass(files, below);
        lemma_run_concat(state, file_script(files[count - 1]), pass_script(files, below));
        assert(seq![count - 1] + countdown(below, 0) =~= countdown(count, 0));
    }
}

/// One thing that a pass does: it broadcasts an event, it reports the index
/// of a finished file, or it asks its caller for something.
pub enum Deed {
    Event(Seq<char>),
    Report(int),
    Request(ReplayAction),
}

/// What one step does, in the order in which it does it: the broadcast, if
/// there is one, and then the request.
pub open spec fn step_deeds(outcome: StepOutcome) -> Seq<Deed> {
    let event = match outcome.event {
        Some(text) => seq![Deed::Event(text)],
        None => Seq::empty(),
    };
    let report = match outcome.progress {
        Some(index) => seq![Deed::Report(index)],
        None => Seq::empty(),
    };
    event + report + seq![Deed::Request(outcome.action)]
}

/// What the steps for `inputs` do, taken one after the other from `state`.
pub open spec fn deeds(state: ReplayState, inputs: Seq<InputView>) -> Seq<Deed>
    decreases inputs.len(),
{
    if inputs.len() == 0 {
        Seq::empty()
    } else {
        let first = replay_step(state, inputs[0]);
        step_deeds(first) + deeds(first.next, inputs.drop_first())
    }
}

/// What the lines of a file bring about while it is read: each line its
/// event, if it has one, and then the request for the next line.
pub open spec fn line_deeds(lines: Seq<Seq<char>>) -> Seq<Deed>
    decreases lines.len(),
{
    if lines.len() == 0 {
        Seq::empty()
    } else {
        let event = match event_of(lines[0]) {
            Some(text) => seq![Deed::Event(text)],
            None => Seq::empty(),
        };
        event + seq![Deed::Request(ReplayAction::ReadLine)] + line_deeds(lines.drop_first())
    }
}

/// What a file brings about that is the newest of `remaining` unfinished
/// ones, from the moment it is open: the first line is asked for, the lines
/// are dealt with, and at the end of the file its index is reported before
/// the file below it is asked for, or before the pass stops.
pub open spec fn file_deeds(lines: Seq<Seq<char>>, remaining: nat) -> Seq<Deed> {
    seq![Deed::Request(ReplayAction::ReadLine)] + line_deeds(lines) + seq![
        Deed::Report(remaining - 1),
        Deed::Request(turn_to_next((remaining - 1) as nat, None).action),
    ]
}

/// What the files below index `count` bring about, from the newest down.
pub open spec fn pass_deeds(files: Seq<Seq<Seq<char>>>, count: nat) -> Seq<Deed>
    decreases count,
{
    if count == 0 {
        Seq::empty()
    } else {
        file_deeds(files[count - 1], count) + pass_deeds(files, (count - 1) as nat)
    }
}

/// What `first` and then `second` bring about is what `first` brings about
/// and then what `second` brings about from where `first` led.
pub proof fn lemma_deeds_concat(state: ReplayState, first: Seq<InputView>, second: Seq<InputView>)
    ensures
        deeds(state, first + second) == deeds(state, first) + deeds(
            run(state, first).state,
            second,
        ),
    decreases first.len(),
{
    if first.len() == 0 {
        assert(first + second =~= second);
        assert(deeds(state, first) + deeds(state, second) =~= deeds(state, second));
    } else {
        let head = replay_step(state, first[0]);
        assert((first + second).drop_first() =~= first.drop_first() + second);
        lemma_deeds_concat(head.next, first.drop_first(), second);
        assert(deeds(state, first + second) =~= deeds(state, first) + deeds(
            run(state, first).state,
            second,
        ));
    }
}

/// One step brings about what `step_deeds` says.
proof fn lemma_deeds_of_one(state: ReplayState, input: InputView)
    ensures
        deeds(state, seq![input]) == step_deeds(replay_step(state, input)),
        run(state, seq![input]).state == replay_step(state, input).next,
{
    let one = seq![input];
    let next = replay_step(state, input).next;
    assert(one.drop_first() =~= Seq::<InputView>::empty());
    assert(deeds(next, one.drop_first()) =~= Seq::<Deed>::empty());
    assert(run(next, one.drop_first()).state == next);
    assert(deeds(state, one) =~= step_deeds(replay_step(state, input)));
}

/// While a file is read, every line brings about its event, if it has one,
/// and then the request for the next line.
pub proof fn lemma_lines_in_order(state: ReplayState, lines: Seq<Seq<char>>)
    requires
        state.phase == ReplayPhase::Reading,
        !state.failed_once,
    ensures
        deeds(state, lines.map_values(|line: Seq<char>| InputView::Line(line))) == line_deeds(
            lines,
        ),
    decreases lines.len(),
{
    let inputs = lines.map_values(|line: Seq<char>| InputView::Line(line));
    if lines.len() > 0 {
        lemma_lines_in_order(state, lines.drop_first());
        assert(inputs.drop_first() =~= lines.drop_first().map_values(
            |line: Seq<char>| InputView::Line(line),
        ));
        assert(replay_step(state, inputs[0]).next == state);
        assert(deeds(state, inputs) =~= line_deeds(lines));
    } else {
        assert(deeds(state, inputs) =~= line_deeds(lines));
    }
}

/// A file that opens and reads without failure brings about `file_deeds`:
/// its events in the order of its lines, then the report of its index, then
/// the request for the file below it.
pub proof fn lemma_file_in_order(remaining: nat, lines: Seq<Seq<char>>)
    requires
        remaining >= 1,
    ensures
        deeds(turn_to_next(remaining, None).next, file_script(lines)) == file_deeds(
            lines,
            remaining,
        ),
{
    let opening = turn_to_next(remaining, None).next;
    let reading = ReplayState { phase: ReplayPhase::Reading, remaining, failed_once: false };
    let open = seq![InputView::Opened];
    let read = lines.map_values(|line: Seq<char>| InputView::Line(line));
    let close = seq![InputView::EndOfFile];
    lemma_deeds_of_one(opening, InputView::Opened);
    lemma_deeds_of_one(reading, InputView::EndOfFile);
    lemma_lines_in_order(reading, lines);
    lemma_lines_become_events(reading, lines);
    lemma_run_concat(opening, open, read);
    lemma_deeds_concat(opening, open, read);
    lemma_deeds_concat(opening, open + read, close);
    assert(deeds(opening, open) =~= seq![Deed::Request(ReplayAction::ReadLine)]);
    assert(deeds(reading, close) =~= seq![
        Deed::Report(remaining - 1),
        Deed::Request(turn_to_next((remaining - 1) as nat, None).action),
    ]);
    assert(deeds(opening, file_script(lines)) =~= file_deeds(lines, remaining));
}

/// A whole pass over files that all open and read without failure, deed by
/// deed: the newest file is asked for; then, file by file from the newest
/// down, the file's lines are read and their events broadcast in the order of
/// the lines, the file's index is reported, and only then the file below it
/// is asked for; after the report of index `0` the pass stops.
pub proof fn lemma_whole_pass_in_order(files: Seq<Seq<Seq<char>>>)
    ensures
        deeds(
            ReplayState::initial(files.len()),
            seq![InputView::Start] + pass_script(files, files.len()),
        ) == seq![Deed::Request(turn_to_next(files.len(), None).action)] + pass_deeds(
            files,
            files.len(),
        ),
{
    let initial = ReplayState::initial(files.len());
    let start = seq![InputView::Start];
    lemma_deeds_of_one(initial, InputView::Start);
    lemma_rest_of_pass_in_order(files, files.len());
    lemma_deeds_concat(initial, start, pass_script(files, files.len()));
    assert(deeds(initial, start) =~= seq![
        Deed::Request(turn_to_next(files.len(), None).action),
    ]);
}

/// `lemma_whole_pass_in_order` from the moment at which `count` files are
/// left.
proof fn lemma_rest_of_pass_in_order(files: Seq<Seq<Seq<char>>>, count: nat)
    requires
        count <= files.len(),
    ensures
        deeds(turn_to_next(count, None).next, pass_script(files, count)) == pass_deeds(
            files,
            count,
        ),
    decreases count,
{
    let state = turn_to_next(count, None).next;
    if count > 0 {
        let below = (count - 1) as nat;
        lemma_file_in_order(count, files[count - 1]);
        lemma_file_is_replayed(count, files[count - 1]);
        lemma_rest_of_pass_in_order(files, below);
        lemma_deeds_concat(state, file_script(files[count - 1]), pass_script(files, below));
    }
}

} // verus!
