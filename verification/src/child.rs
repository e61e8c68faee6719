//! What a running child process says: one event per line of its output, and one
//! about its end.
use vstd::prelude::*;

use crate::source::SourceEvent;

verus! {

/// How far the output of a child process has been read.
#[derive(Debug, Clone, Copy, PartialEq, Eq, Structural)]
pub enum ChildPhase {
    /// Its output goes on. It is drained to its end before the process is
    /// waited for, so that a child that fills its pipe can still make progress.
    Reading,
    /// Its output has ended; how it ended is awaited.
    Waiting,
    /// It has ended, and that was said.
    Ended,
}

/// What came of reading from a child process.
#[derive(Debug)]
pub enum ChildRead {
    Line(String),
    /// A line that is not UTF-8, or that could not be read. It says nothing
    /// about the rest of the output.
    Unreadable,
    OutputEnded,
    /// The process has ended, and this is all of its standard error.
    Exited { code: Option<i32>, stderr: String },
}

/// What a [`ChildRead`] says.
pub enum ChildReadView {
    Line(Seq<char>),
    Unreadable,
    OutputEnded,
    Exited { code: Option<i32>, stderr: Seq<char> },
}

impl DeepView for ChildRead {
    type V = ChildReadView;

    open spec fn deep_view(&self) -> ChildReadView {
        match self {
            ChildRead::Line(line) => ChildReadView::Line(line@),
            ChildRead::Unreadable => ChildReadView::Unreadable,
            ChildRead::OutputEnded => ChildReadView::OutputEnded,
            ChildRead::Exited { code, stderr } => ChildReadView::Exited {
                code: *code,
                stderr: stderr@,
            },
        }
    }
}

/// What one more reading comes to: how far the output has been read then, and
/// the event that is said. What is not awaited says nothing.
pub open spec fn child_step(phase: ChildPhase, read: ChildReadView) -> (
    ChildPhase,
    Option<crate::source::SourceEventView>,
) {
    match (phase, read) {
        (ChildPhase::Reading, ChildReadView::Line(line)) => (
            ChildPhase::Reading,
            Some(crate::source::SourceEventView::Line(line)),
        ),
        (ChildPhase::Reading, ChildReadView::OutputEnded) => (ChildPhase::Waiting, None),
        (ChildPhase::Waiting, ChildReadView::Exited { code, stderr }) => (
            ChildPhase::Ended,
            Some(crate::source::SourceEventView::Exited { code, stderr }),
        ),
        _ => (phase, None),
    }
}

/// The output of a child process while it is read.
#[derive(Debug)]
pub struct ChildOutput {
    phase: ChildPhase,
}

impl View for ChildOutput {
    type V = ChildPhase;

    closed spec fn view(&self) -> ChildPhase {
        self.phase
    }
}

impl ChildOutput {
    /// The output of a child process that was just started.
    pub fn new() -> (output: ChildOutput)
        ensures
            output@ == ChildPhase::Reading,
    {
        ChildOutput { phase: ChildPhase::Reading }
    }

    /// How far the output has been read.
    pub fn phase(&self) -> (phase: ChildPhase)
        ensures
            phase == self@,
    {
        self.phase
    }

    /// Takes in what came of reading once more. What is returned is said.
    pub fn read(&mut self, read: ChildRead) -> (event: Option<SourceEvent>)
        ensures
            (final(self)@, event.deep_view()) == child_step(old(self)@, read.deep_view()),
    {
        match (self.phase, read) {
            (ChildPhase::Reading, ChildRead::Line(line)) => Some(SourceEvent::Line(line)),
            (ChildPhase::Reading, ChildRead::OutputEnded) => {
                self.phase = ChildPhase::Waiting;
                None
            },
            (ChildPhase::Waiting, ChildRead::Exited { code, stderr }) => {
                self.phase = ChildPhase::Ended;
                Some(SourceEvent::Exited { code, stderr })
            },
            _ => None,
        }
    }
}

/// How far the output has been read after all of `reads`.
pub open spec fn child_phase(reads: Seq<ChildReadView>) -> ChildPhase
    decreases reads.len(),
{
    if reads.len() == 0 {
        ChildPhase::Reading
    } else {
        child_step(child_phase(reads.drop_last()), reads.last()).0
    }
}

/// Everything that is said over all of `reads`.
pub open spec fn child_events(reads: Seq<ChildReadView>) -> Seq<crate::source::SourceEventView>
    decreases reads.len(),
{
    if reads.len() == 0 {
        Seq::empty()
    } else {
        let before = child_events(reads.drop_last());
        match child_step(child_phase(reads.drop_last()), reads.last()).1 {
            Some(event) => before.push(event),
            None => before,
        }
    }
}

/// One event per line that could be read, in order.
pub open spec fn line_events(reads: Seq<ChildReadView>) -> Seq<crate::source::SourceEventView>
    decreases reads.len(),
{
    if reads.len() == 0 {
        Seq::empty()
    } else {
        let before = line_events(reads.drop_last());
        match reads.last() {
            ChildReadView::Line(line) => before.push(crate::source::SourceEventView::Line(line)),
            _ => before,
        }
    }
}

// ---------------------------------------------------------------------------
// Laws
// ---------------------------------------------------------------------------
/// While the output goes on, every line that can be read is said once and in
/// order, and one that cannot be read is passed over.
pub proof fn law_every_readable_line_is_said(reads: Seq<ChildReadView>)
    requires
        forall|i: int|
            0 <= i < reads.len() ==> (#[trigger] reads[i] is Line || reads[i] is Unreadable),
    ensures
        child_phase(reads) == ChildPhase::Reading,
        child_events(reads) == line_events(reads),
    decreases reads.len(),
{
    if reads.len() > 0 {
        assert forall|i: int| 0 <= i < reads.drop_last().len() implies (
        #[trigger] reads.drop_last()[i] is Line || reads.drop_last()[i] is Unreadable) by {
            assert(reads.drop_last()[i] == reads[i]);
        }
        law_every_readable_line_is_said(reads.drop_last());
        assert(reads.last() == reads[reads.len() - 1]);
    }
}

/// Once the output has ended and the process too, its end is said, after every
/// line and with nothing behind it, whatever is read from then on.
pub proof fn law_exit_is_said_last(
    reads: Seq<ChildReadView>,
    code: Option<i32>,
    stderr: Seq<char>,
    rest: Seq<ChildReadView>,
)
    requires
        forall|i: int|
            0 <= i < reads.len() ==> (#[trigger] reads[i] is Line || reads[i] is Unreadable),
    ensures
        child_events(
            reads.push(ChildReadView::OutputEnded).push(ChildReadView::Exited { code, stderr })
                + rest,
        ) == line_events(reads).push(crate::source::SourceEventView::Exited { code, stderr }),
    decreases rest.len(),
{
    let ended = reads.push(ChildReadView::OutputEnded);
    let exited = ended.push(ChildReadView::Exited { code, stderr });
    law_every_readable_line_is_said(reads);
    assert(ended.drop_last() == reads);
    assert(exited.drop_last() == ended);
    assert(ended.last() == ChildReadView::OutputEnded);
    assert(child_phase(ended) == ChildPhase::Waiting);
    assert(exited.last() == ChildReadView::Exited { code, stderr });
    assert(child_phase(exited) == ChildPhase::Ended);
    assert(child_events(ended) == line_events(reads));
    if rest.len() == 0 {
        assert(exited + rest == exited);
    } else {
        law_exit_is_said_last(reads, code, stderr, rest.drop_last());
        assert((exited + rest).drop_last() == exited + rest.drop_last());
        lemma_ended_stays(exited, rest.drop_last());
    }
}

proof fn lemma_ended_stays(reads: Seq<ChildReadView>, rest: Seq<ChildReadView>)
    requires
        child_phase(reads) == ChildPhase::Ended,
    ensures
        child_phase(reads + rest) == ChildPhase::Ended,
    decreases rest.len(),
{
    if rest.len() == 0 {
        assert(reads + rest == reads);
    } else {
        lemma_ended_stays(reads, rest.drop_last());
        assert((reads + rest).drop_last() == reads + rest.drop_last());
    }
}

/// The end of a process is said at most once, and as the last thing; all else
/// that is said are lines.
pub proof fn law_only_the_last_event_is_an_exit(reads: Seq<ChildReadView>)
    ensures
        forall|i: int|
            0 <= i < child_events(reads).len() ==> (#[trigger] child_events(reads)[i] is Line || (i
                == child_events(reads).len() - 1 && child_phase(reads) == ChildPhase::Ended)),
        child_phase(reads) == ChildPhase::Ended ==> child_events(reads).len() > 0 && child_events(
            reads,
        ).last() is Exited,
    decreases reads.len(),
{
    if reads.len() > 0 {
        law_only_the_last_event_is_an_exit(reads.drop_last());
    }
}

/// A line that was read is one more event behind those before it, as it was
/// read; nothing else that is read while the output goes on is an event.
pub proof fn law_each_line_is_an_event(reads: Seq<ChildReadView>, line: Seq<char>)
    requires
        child_phase(reads) == ChildPhase::Reading,
    ensures
        child_events(reads.push(ChildReadView::Line(line))) == child_events(reads).push(
            crate::source::SourceEventView::Line(line),
        ),
        child_phase(reads.push(ChildReadView::Line(line))) == ChildPhase::Reading,
        child_events(reads.push(ChildReadView::Unreadable)) == child_events(reads),
        child_phase(reads.push(ChildReadView::Unreadable)) == ChildPhase::Reading,
        child_events(reads.push(ChildReadView::OutputEnded)) == child_events(reads),
        child_phase(reads.push(ChildReadView::OutputEnded)) == ChildPhase::Waiting,
        child_phase(Seq::empty()) == ChildPhase::Reading,
        child_events(Seq::empty()).len() == 0,
{
    assert(reads.push(ChildReadView::Line(line)).drop_last() == reads);
    assert(reads.push(ChildReadView::Unreadable).drop_last() == reads);
    assert(reads.push(ChildReadView::OutputEnded).drop_last() == reads);
}

/// Once the output has ended only the end of the process is an event, with the
/// code and the standard error that it has.
pub proof fn law_the_end_is_an_event(
    reads: Seq<ChildReadView>,
    code: Option<i32>,
    stderr: Seq<char>,
    line: Seq<char>,
)
    requires
        child_phase(reads) == ChildPhase::Waiting,
    ensures
        child_events(reads.push(ChildReadView::Exited { code, stderr })) == child_events(reads).push(
            crate::source::SourceEventView::Exited { code, stderr },
        ),
        child_phase(reads.push(ChildReadView::Exited { code, stderr })) == ChildPhase::Ended,
        child_events(reads.push(ChildReadView::Line(line))) == child_events(reads),
        child_phase(reads.push(ChildReadView::Line(line))) == ChildPhase::Waiting,
{
    assert(reads.push(ChildReadView::Exited { code, stderr }).drop_last() == reads);
    assert(reads.push(ChildReadView::Line(line)).drop_last() == reads);
}

} // verus!
