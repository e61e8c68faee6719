//! A running Source: which Entries its output becomes, when they are handed
//! on, and how it ends.
use vstd::prelude::*;

use crate::remote::ResolvedCommand;
use crate::text::{first_detail, i64_text, trim, usize_text};

verus! {

/// How many seconds a Source may produce nothing at all before it is
/// abandoned. Once it has produced something it is never abandoned for
/// slowness: a Source that walks a large tree may legitimately take far longer
/// than this to finish.
pub const SOURCE_TIMEOUT: usize = 5;

/// The most Entries a Source may produce. Beyond this the Source is dropped and
/// what has arrived so far is kept.
pub const MAX_ENTRIES: usize = 100_000;

/// How many milliseconds arriving Entries are accumulated before being handed
/// on. Without this a fast Source would trigger a re-match per line.
pub const FLUSH_INTERVAL: u64 = 100;

/// One thing a running Source has to say.
#[derive(Debug, Clone, PartialEq)]
pub enum SourceEvent {
    Line(String),
    /// The process ended. Always the last event.
    Exited {
        /// `None` when the process was terminated by a signal.
        code: Option<i32>,
        stderr: String,
    },
}

/// What a [`SourceEvent`] says.
pub enum SourceEventView {
    Line(Seq<char>),
    Exited { code: Option<i32>, stderr: Seq<char> },
}

impl DeepView for SourceEvent {
    type V = SourceEventView;

    open spec fn deep_view(&self) -> SourceEventView {
        match self {
            SourceEvent::Line(line) => SourceEventView::Line(line@),
            SourceEvent::Exited { code, stderr } => SourceEventView::Exited {
                code: *code,
                stderr: stderr@,
            },
        }
    }
}

/// Why a Source stopped producing Entries. Rendered into the picker.
#[derive(Debug, PartialEq)]
pub enum SourceFailure {
    CouldNotSpawn { command: String, reason: String },
    Failed { command: String, details: String },
    TimedOut { command: String },
}

/// What a [`SourceFailure`] says.
pub enum SourceFailureView {
    CouldNotSpawn { command: Seq<char>, reason: Seq<char> },
    Failed { command: Seq<char>, details: Seq<char> },
    TimedOut { command: Seq<char> },
}

impl DeepView for SourceFailure {
    type V = SourceFailureView;

    open spec fn deep_view(&self) -> SourceFailureView {
        match self {
            SourceFailure::CouldNotSpawn { command, reason } => SourceFailureView::CouldNotSpawn {
                command: command@,
                reason: reason@,
            },
            SourceFailure::Failed { command, details } => SourceFailureView::Failed {
                command: command@,
                details: details@,
            },
            SourceFailure::TimedOut { command } => SourceFailureView::TimedOut {
                command: command@,
            },
        }
    }
}

impl SourceFailureView {
    /// The sentence shown to the user.
    pub open spec fn message(self) -> Seq<char> {
        match self {
            SourceFailureView::CouldNotSpawn { command, reason } => "Could not run `"@ + command
                + "`: "@ + reason,
            SourceFailureView::Failed { command, details } => "`"@ + command + "` failed: "@
                + details,
            SourceFailureView::TimedOut { command } => "`"@ + command
                + "` produced nothing within "@ + crate::text::digits(SOURCE_TIMEOUT as nat)
                + " seconds"@,
        }
    }
}

impl SourceFailure {
    /// The sentence shown to the user.
    pub fn to_string(&self) -> (message: String)
        ensures
            message@ == self.deep_view().message(),
    {
        let mut message = String::new();
        match self {
            SourceFailure::CouldNotSpawn { command, reason } => {
                message.append("Could not run `");
                message.append(command.as_str());
                message.append("`: ");
                message.append(reason.as_str());
            },
            SourceFailure::Failed { command, details } => {
                message.append("`");
                message.append(command.as_str());
                message.append("` failed: ");
                message.append(details.as_str());
            },
            SourceFailure::TimedOut { command } => {
                message.append("`");
                message.append(command.as_str());
                message.append("` produced nothing within ");
                message.append(usize_text(SOURCE_TIMEOUT).as_str());
                message.append(" seconds");
            },
        }
        assert(message@ == self.deep_view().message());
        message
    }
}

impl Clone for SourceFailure {
    fn clone(&self) -> (out: SourceFailure)
        ensures
            out.deep_view() == self.deep_view(),
    {
        match self {
            SourceFailure::CouldNotSpawn { command, reason } => SourceFailure::CouldNotSpawn {
                command: command.clone(),
                reason: reason.clone(),
            },
            SourceFailure::Failed { command, details } => SourceFailure::Failed {
                command: command.clone(),
                details: details.clone(),
            },
            SourceFailure::TimedOut { command } => SourceFailure::TimedOut {
                command: command.clone(),
            },
        }
    }
}

/// A batch of Entries, or the reason there will be no more. Exactly one
/// terminal update is sent, and it is sent last.
#[derive(Debug, Clone, PartialEq)]
pub enum SourceUpdate {
    Entries(Vec<String>),
    Finished { truncated: bool },
    Failed(SourceFailure),
}

/// What a [`SourceUpdate`] says.
pub enum SourceUpdateView {
    Entries(Seq<Seq<char>>),
    Finished { truncated: bool },
    Failed(SourceFailureView),
}

impl DeepView for SourceUpdate {
    type V = SourceUpdateView;

    open spec fn deep_view(&self) -> SourceUpdateView {
        match self {
            SourceUpdate::Entries(entries) => SourceUpdateView::Entries(entries.deep_view()),
            SourceUpdate::Finished { truncated } => SourceUpdateView::Finished {
                truncated: *truncated,
            },
            SourceUpdate::Failed(failure) => SourceUpdateView::Failed(failure.deep_view()),
        }
    }
}

impl SourceUpdateView {
    /// Whether the update ends the run.
    pub open spec fn is_terminal(self) -> bool {
        !(self is Entries)
    }
}

/// What can happen to a run between two decisions.
#[derive(Debug, Clone, PartialEq)]
pub enum SourceHappening {
    /// The command was started.
    Spawned,
    /// The command could not be started.
    SpawnFailed { reason: String },
    /// [`SOURCE_TIMEOUT`] seconds passed without any event.
    TimedOut,
    /// The process said something.
    Event(SourceEvent),
    /// The stream of events ended without reporting an exit.
    Ended,
    /// [`FLUSH_INTERVAL`] milliseconds passed since the last flush.
    FlushDue,
    /// Nobody listens to the updates any longer.
    ReceiverGone,
}

/// What a [`SourceHappening`] says.
pub enum SourceHappeningView {
    Spawned,
    SpawnFailed { reason: Seq<char> },
    TimedOut,
    Event(SourceEventView),
    Ended,
    FlushDue,
    ReceiverGone,
}

impl DeepView for SourceHappening {
    type V = SourceHappeningView;

    open spec fn deep_view(&self) -> SourceHappeningView {
        match self {
            SourceHappening::Spawned => SourceHappeningView::Spawned,
            SourceHappening::SpawnFailed { reason } => SourceHappeningView::SpawnFailed {
                reason: reason@,
            },
            SourceHappening::TimedOut => SourceHappeningView::TimedOut,
            SourceHappening::Event(event) => SourceHappeningView::Event(event.deep_view()),
            SourceHappening::Ended => SourceHappeningView::Ended,
            SourceHappening::FlushDue => SourceHappeningView::FlushDue,
            SourceHappening::ReceiverGone => SourceHappeningView::ReceiverGone,
        }
    }
}

/// What a run is waiting for.
#[derive(Debug, Clone, Copy, PartialEq, Eq, Structural)]
pub enum SourcePhase {
    /// For the command to start.
    Starting,
    /// For the first event, for [`SOURCE_TIMEOUT`] seconds.
    Silent,
    /// For the next event or the end of the flush interval.
    Running,
    /// For the next event alone: what had arrived was just handed on.
    Flushed,
    /// For nothing: the terminal update was sent.
    Done,
    /// For nothing: nobody listens.
    Abandoned,
}

/// Why a process that did not exit cleanly failed: the first line it wrote to
/// its standard error that is not blank, else how it ended.
pub open spec fn exit_details_of(code: Option<i32>, stderr: Seq<char>) -> Seq<char> {
    match crate::text::first_detail_spec(stderr) {
        Some(detail) => detail,
        None => match code {
            Some(code) => "exited with status "@ + crate::text::decimal(code as int),
            None => "terminated by a signal"@,
        },
    }
}

/// Why a process that did not exit cleanly failed.
pub fn exit_details(code: Option<i32>, stderr: &str) -> (details: String)
    ensures
        details@ == exit_details_of(code, stderr@),
{
    match first_detail(stderr) {
        Some(detail) => detail,
        None => match code {
            Some(code) => {
                let mut details = "exited with status ".to_owned();
                details.append(i64_text(code as i64).as_str());
                details
            },
            None => "terminated by a signal".to_owned(),
        },
    }
}

/// The state of a run: what it waits for, the Entries that were not handed on
/// yet, and how many were.
#[verifier::ext_equal]
pub struct SourceRunView {
    pub command: Seq<char>,
    pub phase: SourcePhase,
    pub pending: Seq<Seq<char>>,
    pub delivered: nat,
}

/// The updates that hand on what is pending: none where nothing is.
pub open spec fn batch(pending: Seq<Seq<char>>) -> Seq<SourceUpdateView> {
    if pending.len() == 0 {
        Seq::empty()
    } else {
        seq![SourceUpdateView::Entries(pending)]
    }
}

/// The terminal update of a process that ended.
pub open spec fn exit_update(
    command: Seq<char>,
    code: Option<i32>,
    stderr: Seq<char>,
) -> SourceUpdateView {
    if code == Some(0i32) {
        SourceUpdateView::Finished { truncated: false }
    } else {
        SourceUpdateView::Failed(
            SourceFailureView::Failed { command, details: exit_details_of(code, stderr) },
        )
    }
}

impl SourceRunView {
    /// A run before its command was started.
    pub open spec fn new(command: Seq<char>) -> SourceRunView {
        SourceRunView { command, phase: SourcePhase::Starting, pending: Seq::empty(), delivered: 0 }
    }

    /// Whether the process is being listened to.
    pub open spec fn listening(self) -> bool {
        self.phase == SourcePhase::Silent || self.phase == SourcePhase::Running || self.phase
            == SourcePhase::Flushed
    }

    /// The Entries are below the cap while the run goes on, and nothing is
    /// pending in the other phases.
    pub open spec fn wf(self) -> bool {
        &&& self.phase == SourcePhase::Starting ==> self.delivered == 0
        &&& self.listening() ==> self.delivered + self.pending.len() < MAX_ENTRIES
        &&& self.phase != SourcePhase::Running ==> self.pending.len() == 0
    }

    /// The run with its terminal update sent.
    pub open spec fn ended(self) -> SourceRunView {
        SourceRunView { phase: SourcePhase::Done, pending: Seq::empty(), ..self }
    }

    /// Whether one more Entry reaches the cap.
    pub open spec fn fills(self) -> bool {
        self.delivered + self.pending.len() + 1 >= MAX_ENTRIES
    }

    /// The state after `happening`. What the run does not wait for leaves it
    /// as it is.
    pub open spec fn step(self, happening: SourceHappeningView) -> SourceRunView {
        match happening {
            SourceHappeningView::Spawned => if self.phase == SourcePhase::Starting {
                SourceRunView { phase: SourcePhase::Silent, ..self }
            } else {
                self
            },
            SourceHappeningView::SpawnFailed { .. } => if self.phase == SourcePhase::Starting {
                self.ended()
            } else {
                self
            },
            SourceHappeningView::TimedOut => if self.phase == SourcePhase::Silent {
                self.ended()
            } else {
                self
            },
            SourceHappeningView::Event(SourceEventView::Line(line)) => if !self.listening() {
                self
            } else if crate::text::is_blank(line) {
                SourceRunView { phase: SourcePhase::Running, ..self }
            } else if self.fills() {
                self.ended()
            } else {
                SourceRunView {
                    phase: SourcePhase::Running,
                    pending: self.pending.push(crate::text::trimmed(line)),
                    ..self
                }
            },
            SourceHappeningView::Event(SourceEventView::Exited { .. })
            | SourceHappeningView::Ended => if self.listening() {
                self.ended()
            } else {
                self
            },
            SourceHappeningView::FlushDue => if self.phase == SourcePhase::Running {
                SourceRunView {
                    phase: SourcePhase::Flushed,
                    pending: Seq::empty(),
                    delivered: self.delivered + self.pending.len(),
                    ..self
                }
            } else {
                self
            },
            SourceHappeningView::ReceiverGone => if self.phase == SourcePhase::Flushed {
                SourceRunView { phase: SourcePhase::Abandoned, ..self }
            } else {
                self
            },
        }
    }

    /// The updates that `happening` sends.
    pub open spec fn says(self, happening: SourceHappeningView) -> Seq<SourceUpdateView> {
        match happening {
            SourceHappeningView::Spawned | SourceHappeningView::ReceiverGone => Seq::empty(),
            SourceHappeningView::SpawnFailed { reason } => if self.phase == SourcePhase::Starting {
                seq![
                    SourceUpdateView::Failed(
                        SourceFailureView::CouldNotSpawn { command: self.command, reason },
                    ),
                ]
            } else {
                Seq::empty()
            },
            SourceHappeningView::TimedOut => if self.phase == SourcePhase::Silent {
                seq![
                    SourceUpdateView::Failed(
                        SourceFailureView::TimedOut { command: self.command },
                    ),
                ]
            } else {
                Seq::empty()
            },
            SourceHappeningView::Event(SourceEventView::Line(line)) => if self.listening()
                && !crate::text::is_blank(line) && self.fills() {
                batch(self.pending.push(crate::text::trimmed(line))).push(
                    SourceUpdateView::Finished { truncated: true },
                )
            } else {
                Seq::empty()
            },
            SourceHappeningView::Event(SourceEventView::Exited { code, stderr }) => {
                if self.listening() {
                    batch(self.pending).push(exit_update(self.command, code, stderr))
                } else {
                    Seq::empty()
                }
            },
            SourceHappeningView::Ended => if self.listening() {
                batch(self.pending).push(SourceUpdateView::Finished { truncated: false })
            } else {
                Seq::empty()
            },
            SourceHappeningView::FlushDue => if self.phase == SourcePhase::Running {
                batch(self.pending)
            } else {
                Seq::empty()
            },
        }
    }
}

/// What is to be done next for a run.
#[derive(Debug, PartialEq)]
pub enum SourceAction {
    /// Start this command, and report whether that succeeded.
    Spawn(ResolvedCommand),
    /// Wait for what the phase waits for, and report it.
    Await(SourcePhase),
    /// Nothing: the run is over.
    Stop,
}

/// What a [`SourceAction`] is.
pub enum SourceActionView {
    Spawn(crate::remote::ResolvedCommandView),
    Await(SourcePhase),
    Stop,
}

impl DeepView for SourceAction {
    type V = SourceActionView;

    open spec fn deep_view(&self) -> SourceActionView {
        match self {
            SourceAction::Spawn(command) => SourceActionView::Spawn(command.deep_view()),
            SourceAction::Await(phase) => SourceActionView::Await(*phase),
            SourceAction::Stop => SourceActionView::Stop,
        }
    }
}

/// What is to be done next for a run that has begun.
pub open spec fn next_action(phase: SourcePhase) -> SourceActionView {
    if phase == SourcePhase::Done || phase == SourcePhase::Abandoned {
        SourceActionView::Stop
    } else {
        SourceActionView::Await(phase)
    }
}

/// A run of a Source's command, driven by what happens to the process.
pub struct SourceRun {
    command: String,
    phase: SourcePhase,
    pending: Vec<String>,
    delivered: usize,
}

impl View for SourceRun {
    type V = SourceRunView;

    closed spec fn view(&self) -> SourceRunView {
        SourceRunView {
            command: self.command@,
            phase: self.phase,
            pending: self.pending.deep_view(),
            delivered: self.delivered as nat,
        }
    }
}

impl SourceRun {
    /// A run before its command was started.
    pub fn new(command: String) -> (run: SourceRun)
        ensures
            run@ == SourceRunView::new(command@),
            run@.wf(),
    {
        let run = SourceRun {
            command,
            phase: SourcePhase::Starting,
            pending: Vec::new(),
            delivered: 0,
        };
        assert(run.pending.deep_view() == Seq::<Seq<char>>::empty());
        run
    }

    /// Begins a run of a command. `name` is what the user calls it.
    pub fn begin(name: String, command: ResolvedCommand) -> (begun: (SourceRun, SourceAction))
        ensures
            begun.0@ == SourceRunView::new(name@),
            begun.0@.wf(),
            begun.1.deep_view() == SourceActionView::Spawn(command.deep_view()),
    {
        (SourceRun::new(name), SourceAction::Spawn(command))
    }

    /// Takes in what happened and returns the updates to send, in order, and
    /// what is to be done next.
    pub fn advance(&mut self, happening: SourceHappening) -> (out: (
        Vec<SourceUpdate>,
        SourceAction,
    ))
        requires
            old(self)@.wf(),
        ensures
            final(self)@ == old(self)@.step(happening.deep_view()),
            final(self)@.wf(),
            out.0.deep_view() == old(self)@.says(happening.deep_view()),
            out.1.deep_view() == next_action(final(self)@.phase),
    {
        let updates = self.step(happening);
        let action = match self.phase {
            SourcePhase::Done | SourcePhase::Abandoned => SourceAction::Stop,
            phase => SourceAction::Await(phase),
        };
        (updates, action)
    }

    /// What the run waits for.
    pub fn phase(&self) -> (phase: SourcePhase)
        ensures
            phase == self@.phase,
    {
        self.phase
    }

    /// Takes what is pending out of the run, as an update where there is any.
    fn send_entries(&mut self, updates: &mut Vec<SourceUpdate>)
        ensures
            final(updates).deep_view() == old(updates).deep_view() + batch(old(self)@.pending),
            final(self)@ == (SourceRunView { pending: Seq::empty(), ..old(self)@ }),
    {
        let ghost before = updates.deep_view();
        if self.pending.len() > 0 {
            let mut entries: Vec<String> = Vec::new();
            std::mem::swap(&mut entries, &mut self.pending);
            updates.push(SourceUpdate::Entries(entries));
            assert(updates.deep_view() == before + batch(entries.deep_view()));
        }
        assert(self.pending.deep_view() == Seq::<Seq<char>>::empty());
        assert(updates.deep_view() == before + batch(old(self)@.pending));
    }

    /// Takes in what happened and returns the updates to send, in order.
    pub fn step(&mut self, happening: SourceHappening) -> (updates: Vec<SourceUpdate>)
        requires
            old(self)@.wf(),
        ensures
            final(self)@ == old(self)@.step(happening.deep_view()),
            updates.deep_view() == old(self)@.says(happening.deep_view()),
            final(self)@.wf(),
    {
        let mut updates: Vec<SourceUpdate> = Vec::new();
        assert(updates.deep_view() == Seq::<SourceUpdateView>::empty());
        let listening = match self.phase {
            SourcePhase::Silent | SourcePhase::Running | SourcePhase::Flushed => true,
            _ => false,
        };
        match happening {
            SourceHappening::Spawned => {
                if self.phase == SourcePhase::Starting {
                    self.phase = SourcePhase::Silent;
                }
            },
            SourceHappening::SpawnFailed { reason } => {
                if self.phase == SourcePhase::Starting {
                    updates.push(
                        SourceUpdate::Failed(
                            SourceFailure::CouldNotSpawn { command: self.command.clone(), reason },
                        ),
                    );
                    self.phase = SourcePhase::Done;
                }
            },
            SourceHappening::TimedOut => {
                if self.phase == SourcePhase::Silent {
                    updates.push(
                        SourceUpdate::Failed(
                            SourceFailure::TimedOut { command: self.command.clone() },
                        ),
                    );
                    self.phase = SourcePhase::Done;
                }
            },
            SourceHappening::Event(SourceEvent::Line(line)) => {
                if listening {
                    self.phase = SourcePhase::Running;
                    let entry = trim(line.as_str());
                    proof {
                        crate::text::lemma_trimmed_blank(line@);
                    }
                    if !entry.as_str().is_empty() {
                        let ghost pending = self.pending.deep_view();
                        self.pending.push(entry);
                        assert(self.pending.deep_view() == pending.push(entry@));
                        assert(self.pending.len() == self.pending.deep_view().len());
                        if self.delivered + self.pending.len() >= MAX_ENTRIES {
                            self.send_entries(&mut updates);
                            updates.push(SourceUpdate::Finished { truncated: true });
                            self.phase = SourcePhase::Done;
                        }
                    }
                }
            },
            SourceHappening::Event(SourceEvent::Exited { code, stderr }) => {
                if listening {
                    self.send_entries(&mut updates);
                    let clean = match code {
                        Some(code) => code == 0,
                        None => false,
                    };
                    if clean {
                        updates.push(SourceUpdate::Finished { truncated: false });
                    } else {
                        updates.push(
                            SourceUpdate::Failed(
                                SourceFailure::Failed {
                                    command: self.command.clone(),
                                    details: exit_details(code, stderr.as_str()),
                                },
                            ),
                        );
                    }
                    self.phase = SourcePhase::Done;
                }
            },
            SourceHappening::Ended => {
                if listening {
                    self.send_entries(&mut updates);
                    updates.push(SourceUpdate::Finished { truncated: false });
                    self.phase = SourcePhase::Done;
                }
            },
            SourceHappening::FlushDue => {
                if self.phase == SourcePhase::Running {
                    assert(self.pending.len() == self.pending.deep_view().len());
                    self.delivered = self.delivered + self.pending.len();
                    self.send_entries(&mut updates);
                    self.phase = SourcePhase::Flushed;
                }
            },
            SourceHappening::ReceiverGone => {
                if self.phase == SourcePhase::Flushed {
                    self.phase = SourcePhase::Abandoned;
                }
            },
        }
        proof {
            let said = old(self)@.says(happening.deep_view());
            assert(updates.deep_view() =~= said);
            assert(self@ =~= old(self)@.step(happening.deep_view()));
        }
        updates
    }
}

/// The update about a Source that could not be started.
pub fn could_not_spawn(command: &str, reason: &str) -> (update: SourceUpdate)
    ensures
        update.deep_view() == SourceUpdateView::Failed(
            SourceFailureView::CouldNotSpawn { command: command@, reason: reason@ },
        ),
{
    SourceUpdate::Failed(
        SourceFailure::CouldNotSpawn { command: command.to_owned(), reason: reason.to_owned() },
    )
}

// ---------------------------------------------------------------------------
// Whole runs
// ---------------------------------------------------------------------------
/// The state of a run after all of `history`.
pub open spec fn run_after(command: Seq<char>, history: Seq<SourceHappeningView>) -> SourceRunView
    decreases history.len(),
{
    if history.len() == 0 {
        SourceRunView::new(command)
    } else {
        run_after(command, history.drop_last()).step(history.last())
    }
}

/// All the updates that `history` sends, in order.
pub open spec fn run_updates(
    command: Seq<char>,
    history: Seq<SourceHappeningView>,
) -> Seq<SourceUpdateView>
    decreases history.len(),
{
    if history.len() == 0 {
        Seq::empty()
    } else {
        run_updates(command, history.drop_last()) + run_after(command, history.drop_last()).says(
            history.last(),
        )
    }
}

/// The lines that the run listened to.
pub open spec fn lines_heard(command: Seq<char>, history: Seq<SourceHappeningView>) -> Seq<
    Seq<char>,
>
    decreases history.len(),
{
    if history.len() == 0 {
        Seq::empty()
    } else {
        let heard = lines_heard(command, history.drop_last());
        match history.last() {
            SourceHappeningView::Event(SourceEventView::Line(line)) => {
                if run_after(command, history.drop_last()).listening() {
                    heard.push(line)
                } else {
                    heard
                }
            },
            _ => heard,
        }
    }
}

/// The Entries that lines of output stand for: each line that is not blank,
/// without the whitespace at its ends.
pub open spec fn entries_of(lines: Seq<Seq<char>>) -> Seq<Seq<char>>
    decreases lines.len(),
{
    if lines.len() == 0 {
        Seq::empty()
    } else if crate::text::is_blank(lines.last()) {
        entries_of(lines.drop_last())
    } else {
        entries_of(lines.drop_last()).push(crate::text::trimmed(lines.last()))
    }
}

/// The Entries that a sequence of updates hands on.
pub open spec fn entries_in(updates: Seq<SourceUpdateView>) -> Seq<Seq<char>>
    decreases updates.len(),
{
    if updates.len() == 0 {
        Seq::empty()
    } else {
        match updates.last() {
            SourceUpdateView::Entries(entries) => entries_in(updates.drop_last()) + entries,
            _ => entries_in(updates.drop_last()),
        }
    }
}

/// Runs a Source from a record of everything that happens to it and returns
/// the updates it sends.
pub fn run_source(command: String, history: Vec<SourceHappening>) -> (updates: Vec<SourceUpdate>)
    ensures
        updates.deep_view() == run_updates(command@, history.deep_view()),
{
    let ghost all = history.deep_view();
    let ghost name = command@;
    let mut run = SourceRun::new(command);
    let mut updates: Vec<SourceUpdate> = Vec::new();
    assert(all.take(0) == Seq::<SourceHappeningView>::empty());
    assert(updates.deep_view() == Seq::<SourceUpdateView>::empty());
    for happening in it: history
        invariant
            it.seq() == history@,
            all == history.deep_view(),
            run@ == run_after(name, all.take(it.index() as int)),
            run@.wf(),
            updates.deep_view() == run_updates(name, all.take(it.index() as int)),
    {
        let ghost i = it.index() as int;
        let ghost before = updates.deep_view();
        assert(happening.deep_view() == all[i]);
        assert(all.take(i + 1).drop_last() == all.take(i));
        let mut said = run.step(happening);
        let ghost new = said.deep_view();
        updates.append(&mut said);
        assert(updates.deep_view() == before + new);
    }
    assert(all.take(all.len() as int) == all);
    updates
}

// ---------------------------------------------------------------------------
// Laws
// ---------------------------------------------------------------------------
proof fn lemma_entries_in_concat(a: Seq<SourceUpdateView>, b: Seq<SourceUpdateView>)
    ensures
        entries_in(a + b) == entries_in(a) + entries_in(b),
    decreases b.len(),
{
    if b.len() == 0 {
        assert(a + b == a);
        assert(entries_in(a) + entries_in(b) == entries_in(a));
    } else {
        assert((a + b).drop_last() == a + b.drop_last());
        assert((a + b).last() == b.last());
        lemma_entries_in_concat(a, b.drop_last());
        match b.last() {
            SourceUpdateView::Entries(entries) => {
                assert(entries_in(a) + entries_in(b.drop_last()) + entries == entries_in(a) + (
                entries_in(b.drop_last()) + entries));
            },
            _ => {},
        }
    }
}

proof fn lemma_entries_in_batch(pending: Seq<Seq<char>>)
    ensures
        entries_in(batch(pending)) == pending,
{
    if pending.len() == 0 {
        assert(pending == Seq::<Seq<char>>::empty());
    } else {
        assert(batch(pending).drop_last() == Seq::<SourceUpdateView>::empty());
        assert(entries_in(batch(pending).drop_last()) == Seq::<Seq<char>>::empty());
        assert(Seq::<Seq<char>>::empty() + pending == pending);
    }
}

proof fn lemma_entries_in_terminal(updates: Seq<SourceUpdateView>, terminal: SourceUpdateView)
    requires
        terminal.is_terminal(),
    ensures
        entries_in(updates.push(terminal)) == entries_in(updates),
{
    assert(updates.push(terminal).drop_last() == updates);
}

/// While a run goes on its state is well formed: the Entries stay below the
/// cap, and nothing is held back but between two flushes.
pub proof fn law_run_is_well_formed(command: Seq<char>, history: Seq<SourceHappeningView>)
    ensures
        run_after(command, history).wf(),
        run_after(command, history).command == command,
    decreases history.len(),
{
    if history.len() > 0 {
        law_run_is_well_formed(command, history.drop_last());
    }
}

/// Every line that is not blank becomes exactly one Entry, in order, and
/// nothing else does. What a run has not handed on is pending; a run that
/// ended, also by a failure, has handed on everything first.
pub proof fn law_every_line_once(command: Seq<char>, history: Seq<SourceHappeningView>)
    ensures
        entries_in(run_updates(command, history)) + run_after(command, history).pending
            == entries_of(lines_heard(command, history)),
        run_after(command, history).phase != SourcePhase::Running ==> entries_in(
            run_updates(command, history),
        ) == entries_of(lines_heard(command, history)),
    decreases history.len(),
{
    if history.len() > 0 {
        let before = history.drop_last();
        let run = run_after(command, before);
        let sent = run_updates(command, before);
        let heard = lines_heard(command, before);
        let happening = history.last();
        law_every_line_once(command, before);
        law_run_is_well_formed(command, before);
        law_run_is_well_formed(command, history);
        lemma_entries_in_concat(sent, run.says(happening));
        assert(entries_in(Seq::<SourceUpdateView>::empty()) == Seq::<Seq<char>>::empty());
        match happening {
            SourceHappeningView::Event(SourceEventView::Line(line)) => {
                if run.listening() {
                    assert(heard.push(line).drop_last() == heard);
                    if !crate::text::is_blank(line) {
                        let entry = crate::text::trimmed(line);
                        let pending = run.pending.push(entry);
                        assert(entries_in(sent) + pending == (entries_in(sent) + run.pending).push(
                            entry,
                        ));
                        lemma_entries_in_batch(pending);
                        lemma_entries_in_terminal(
                            batch(pending),
                            SourceUpdateView::Finished { truncated: true },
                        );
                    }
                }
            },
            SourceHappeningView::Event(SourceEventView::Exited { code, stderr }) => {
                lemma_entries_in_batch(run.pending);
                lemma_entries_in_terminal(
                    batch(run.pending),
                    exit_update(run.command, code, stderr),
                );
            },
            SourceHappeningView::Ended => {
                lemma_entries_in_batch(run.pending);
                lemma_entries_in_terminal(
                    batch(run.pending),
                    SourceUpdateView::Finished { truncated: false },
                );
            },
            SourceHappeningView::FlushDue => {
                lemma_entries_in_batch(run.pending);
            },
            SourceHappeningView::SpawnFailed { reason } => {
                lemma_entries_in_terminal(
                    Seq::empty(),
                    SourceUpdateView::Failed(
                        SourceFailureView::CouldNotSpawn { command: run.command, reason },
                    ),
                );
                assert(run.says(happening) == Seq::<SourceUpdateView>::empty() || run.says(
                    happening,
                ) == Seq::<SourceUpdateView>::empty().push(
                    SourceUpdateView::Failed(
                        SourceFailureView::CouldNotSpawn { command: run.command, reason },
                    ),
                ));
            },
            SourceHappeningView::TimedOut => {
                lemma_entries_in_terminal(
                    Seq::empty(),
                    SourceUpdateView::Failed(SourceFailureView::TimedOut { command: run.command }),
                );
                assert(run.says(happening) == Seq::<SourceUpdateView>::empty() || run.says(
                    happening,
                ) == Seq::<SourceUpdateView>::empty().push(
                    SourceUpdateView::Failed(SourceFailureView::TimedOut { command: run.command }),
                ));
            },
            _ => {},
        }
        let after = run_after(command, history);
        if after.pending.len() == 0 {
            assert(after.pending == Seq::<Seq<char>>::empty());
            assert(entries_in(run_updates(command, history)) + after.pending == entries_in(
                run_updates(command, history),
            ));
        }
    } else {
        assert(entries_in(run_updates(command, history)) + run_after(command, history).pending
            == Seq::<Seq<char>>::empty());
    }
}

/// A terminal update is the last one and the only one, and a run has sent one
/// exactly when it is done.
pub proof fn law_one_terminal_update_last(command: Seq<char>, history: Seq<SourceHappeningView>)
    ensures
        run_after(command, history).phase == SourcePhase::Done <==> (run_updates(
            command,
            history,
        ).len() > 0 && run_updates(command, history).last().is_terminal()),
        forall|i: int|
            0 <= i < run_updates(command, history).len() - 1 ==> !(#[trigger] run_updates(
                command,
                history,
            )[i]).is_terminal(),
    decreases history.len(),
{
    if history.len() > 0 {
        let before = history.drop_last();
        law_one_terminal_update_last(command, before);
        law_run_is_well_formed(command, before);
        let run = run_after(command, before);
        let sent = run_updates(command, before);
        let said = run.says(history.last());
        if said.len() == 0 {
            assert(sent + said == sent);
        } else {
            assert((sent + said).last() == said.last());
            assert(run.phase != SourcePhase::Done);
            if sent.len() > 0 {
                assert(!sent.last().is_terminal());
            }
            assert forall|i: int| 0 <= i < (sent + said).len() - 1 implies !(#[trigger] (sent
                + said)[i]).is_terminal() by {
                if i < sent.len() {
                    assert((sent + said)[i] == sent[i]);
                } else {
                    assert((sent + said)[i] == said[i - sent.len()]);
                }
            }
        }
    }
}

/// A run that ended stays ended and says nothing more.
pub proof fn law_silent_after_the_end(
    command: Seq<char>,
    history: Seq<SourceHappeningView>,
    later: Seq<SourceHappeningView>,
)
    requires
        run_after(command, history).phase == SourcePhase::Done || run_after(command, history).phase
            == SourcePhase::Abandoned,
    ensures
        run_updates(command, history + later) == run_updates(command, history),
        run_after(command, history + later) == run_after(command, history),
    decreases later.len(),
{
    if later.len() == 0 {
        assert(history + later == history);
    } else {
        law_silent_after_the_end(command, history, later.drop_last());
        assert((history + later).drop_last() == history + later.drop_last());
        assert((history + later).last() == later.last());
        assert(run_updates(command, history + later) == run_updates(command, history));
    }
}

/// Everything that is to be done for a run of a command over `history`.
pub open spec fn run_actions(
    name: Seq<char>,
    command: crate::remote::ResolvedCommandView,
    history: Seq<SourceHappeningView>,
) -> Seq<SourceActionView>
    decreases history.len(),
{
    if history.len() == 0 {
        seq![SourceActionView::Spawn(command)]
    } else {
        run_actions(name, command, history.drop_last()).push(
            next_action(run_after(name, history).phase),
        )
    }
}

/// The command of a run is started once, first of all, and as it was given;
/// nothing else is ever started.
pub proof fn law_command_is_spawned_once(
    name: Seq<char>,
    command: crate::remote::ResolvedCommandView,
    history: Seq<SourceHappeningView>,
)
    ensures
        run_actions(name, command, history).len() == history.len() + 1,
        run_actions(name, command, history)[0] == SourceActionView::Spawn(command),
        forall|i: int|
            0 < i < run_actions(name, command, history).len() ==> !(#[trigger] run_actions(
                name,
                command,
                history,
            )[i] is Spawn),
    decreases history.len(),
{
    if history.len() > 0 {
        law_command_is_spawned_once(name, command, history.drop_last());
    }
}

/// Whether the command could be started, or the reason why not, once either
/// was reported.
pub open spec fn spawn_outcome(history: Seq<SourceHappeningView>) -> Option<Result<(), Seq<char>>>
    decreases history.len(),
{
    if history.len() == 0 {
        None
    } else {
        match (spawn_outcome(history.drop_last()), history.last()) {
            (Some(outcome), _) => Some(outcome),
            (None, SourceHappeningView::Spawned) => Some(Ok(())),
            (None, SourceHappeningView::SpawnFailed { reason }) => Some(Err(reason)),
            (None, _) => None,
        }
    }
}

/// A command that could not be started is the only thing that its run says, and
/// no other run says so.
pub proof fn law_spawn_failure_is_all_that_is_said(
    command: Seq<char>,
    history: Seq<SourceHappeningView>,
    reason: Seq<char>,
)
    ensures
        spawn_outcome(history) == Some(Err::<(), Seq<char>>(reason)) <==> run_updates(
            command,
            history,
        ) == seq![
            SourceUpdateView::Failed(SourceFailureView::CouldNotSpawn { command, reason }),
        ],
{
    lemma_spawn_outcome(command, history);
    let failed = SourceUpdateView::Failed(SourceFailureView::CouldNotSpawn { command, reason });
    assert(seq![failed][0] == failed);
    if let Some(Err(other)) = spawn_outcome(history) {
        let said = SourceUpdateView::Failed(
            SourceFailureView::CouldNotSpawn { command, reason: other },
        );
        assert(seq![said][0] == said);
    }
}

proof fn lemma_spawn_outcome(command: Seq<char>, history: Seq<SourceHappeningView>)
    ensures
        run_after(command, history).command == command,
        match spawn_outcome(history) {
            None => run_after(command, history).phase == SourcePhase::Starting && run_updates(
                command,
                history,
            ).len() == 0,
            Some(Err(reason)) => run_after(command, history).phase == SourcePhase::Done
                && run_updates(command, history) == seq![
                SourceUpdateView::Failed(SourceFailureView::CouldNotSpawn { command, reason }),
            ],
            Some(Ok(_)) => run_after(command, history).phase != SourcePhase::Starting && forall|
                i: int,
            |
                0 <= i < run_updates(command, history).len() ==> !(#[trigger] run_updates(
                    command,
                    history,
                )[i] matches SourceUpdateView::Failed(SourceFailureView::CouldNotSpawn { .. })),
        },
    decreases history.len(),
{
    if history.len() > 0 {
        let before = history.drop_last();
        lemma_spawn_outcome(command, before);
        let sent = run_updates(command, before);
        let said = run_after(command, before).says(history.last());
        if said.len() == 0 {
            assert(sent + said == sent);
        }
        if sent.len() == 0 {
            assert(sent + said == said);
        }
        if let Some(Ok(_)) = spawn_outcome(before) {
            assert forall|i: int| 0 <= i < (sent + said).len() implies !(#[trigger] (sent + said)[i]
                matches SourceUpdateView::Failed(SourceFailureView::CouldNotSpawn { .. })) by {
                if i < sent.len() {
                    assert((sent + said)[i] == sent[i]);
                } else {
                    assert((sent + said)[i] == said[i - sent.len()]);
                }
            }
        }
    }
}

/// No update hands on an empty batch.
pub proof fn law_no_empty_batch(command: Seq<char>, history: Seq<SourceHappeningView>)
    ensures
        forall|i: int|
            0 <= i < run_updates(command, history).len() ==> (#[trigger] run_updates(
                command,
                history,
            )[i] matches SourceUpdateView::Entries(entries) ==> entries.len() > 0),
    decreases history.len(),
{
    if history.len() > 0 {
        let before = history.drop_last();
        law_no_empty_batch(command, before);
        let sent = run_updates(command, before);
        let said = run_after(command, before).says(history.last());
        assert forall|i: int| 0 <= i < (sent + said).len() implies (#[trigger] (sent
            + said)[i] matches SourceUpdateView::Entries(entries) ==> entries.len() > 0) by {
            if i < sent.len() {
                assert((sent + said)[i] == sent[i]);
            } else {
                assert((sent + said)[i] == said[i - sent.len()]);
            }
        }
    }
}

proof fn lemma_delivered(command: Seq<char>, history: Seq<SourceHappeningView>)
    ensures
        run_after(command, history).listening() ==> run_after(command, history).delivered
            == entries_in(run_updates(command, history)).len(),
    decreases history.len(),
{
    if history.len() > 0 {
        let before = history.drop_last();
        lemma_delivered(command, before);
        law_run_is_well_formed(command, before);
        law_every_line_once(command, before);
        let run = run_after(command, before);
        let sent = run_updates(command, before);
        lemma_entries_in_concat(sent, run.says(history.last()));
        lemma_entries_in_batch(run.pending);
        assert(entries_in(Seq::<SourceUpdateView>::empty()) == Seq::<Seq<char>>::empty());
        if run.phase == SourcePhase::Starting {
            lemma_starting(command, before);
        }
    }
}

proof fn lemma_starting(command: Seq<char>, history: Seq<SourceHappeningView>)
    requires
        run_after(command, history).phase == SourcePhase::Starting,
    ensures
        run_updates(command, history).len() == 0,
        lines_heard(command, history).len() == 0,
    decreases history.len(),
{
    if history.len() > 0 {
        lemma_starting(command, history.drop_last());
    }
}

/// A run hands on at most [`MAX_ENTRIES`] Entries, and it says that it was cut
/// short exactly when it handed on that many.
pub proof fn law_cap(command: Seq<char>, history: Seq<SourceHappeningView>)
    ensures
        entries_in(run_updates(command, history)).len() <= MAX_ENTRIES,
        run_updates(command, history).contains(SourceUpdateView::Finished { truncated: true })
            <==> entries_in(run_updates(command, history)).len() == MAX_ENTRIES,
    decreases history.len(),
{
    let cut = SourceUpdateView::Finished { truncated: true };
    if history.len() > 0 {
        let before = history.drop_last();
        law_cap(command, before);
        law_run_is_well_formed(command, before);
        law_every_line_once(command, before);
        law_every_line_once(command, history);
        lemma_delivered(command, before);
        let run = run_after(command, before);
        let sent = run_updates(command, before);
        let said = run.says(history.last());
        let all = sent + said;
        lemma_entries_in_concat(sent, said);
        assert(entries_in(Seq::<SourceUpdateView>::empty()) == Seq::<Seq<char>>::empty());
        if said.len() == 0 {
            assert(all == sent);
        } else if run.phase == SourcePhase::Starting {
            lemma_starting(command, before);
            assert(all == said);
            assert(said.drop_last() == Seq::<SourceUpdateView>::empty());
            assert(entries_in(said).len() == 0);
        } else {
            lemma_entries_in_batch(run.pending);
            assert(all.last() == said.last());
            assert(forall|i: int| 0 <= i < sent.len() ==> all[i] == sent[i]);
            assert(forall|i: int| 0 <= i < said.len() ==> all[sent.len() + i] == said[i]);
            assert(!sent.contains(cut)) by {
                assert(entries_in(sent).len() < MAX_ENTRIES);
            }
            match history.last() {
                SourceHappeningView::Event(SourceEventView::Line(line)) => {
                    let pending = run.pending.push(crate::text::trimmed(line));
                    lemma_entries_in_batch(pending);
                    lemma_entries_in_terminal(batch(pending), cut);
                    assert(entries_in(said) == pending);
                    assert(all.contains(cut)) by {
                        assert(all[all.len() - 1] == cut);
                    }
                },
                SourceHappeningView::Event(SourceEventView::Exited { code, stderr }) => {
                    lemma_entries_in_terminal(
                        batch(run.pending),
                        exit_update(run.command, code, stderr),
                    );
                    assert(!all.contains(cut)) by {
                        lemma_contains_concat(sent, said, cut);
                    }
                },
                SourceHappeningView::Ended => {
                    lemma_entries_in_terminal(
                        batch(run.pending),
                        SourceUpdateView::Finished { truncated: false },
                    );
                    lemma_contains_concat(sent, said, cut);
                },
                SourceHappeningView::TimedOut => {
                    assert(said.drop_last() == Seq::<SourceUpdateView>::empty());
                    lemma_contains_concat(sent, said, cut);
                },
                _ => {
                    lemma_contains_concat(sent, said, cut);
                },
            }
        }
    } else {
        assert(entries_in(Seq::<SourceUpdateView>::empty()).len() == 0);
    }
}

proof fn lemma_contains_concat(
    a: Seq<SourceUpdateView>,
    b: Seq<SourceUpdateView>,
    x: SourceUpdateView,
)
    ensures
        (a + b).contains(x) <==> a.contains(x) || b.contains(x),
{
    if a.contains(x) {
        let i = choose|i: int| 0 <= i < a.len() && a[i] == x;
        assert((a + b)[i] == x);
    }
    if b.contains(x) {
        let i = choose|i: int| 0 <= i < b.len() && b[i] == x;
        assert((a + b)[a.len() + i] == x);
    }
    if (a + b).contains(x) {
        let i = choose|i: int| 0 <= i < (a + b).len() && (a + b)[i] == x;
        if i < a.len() {
            assert(a[i] == x);
        } else {
            assert(b[i - a.len()] == x);
        }
    }
}

/// Only a Source that never said anything times out: once one event has been
/// heard no amount of waiting ends the run.
pub proof fn law_timeout_only_before_first_output(
    command: Seq<char>,
    history: Seq<SourceHappeningView>,
)
    ensures
        run_updates(command, history).contains(
            SourceUpdateView::Failed(SourceFailureView::TimedOut { command }),
        ) ==> lines_heard(command, history).len() == 0 && run_updates(command, history).len() == 1,
        run_after(command, history).phase == SourcePhase::Silent ==> lines_heard(
            command,
            history,
        ).len() == 0 && run_updates(command, history).len() == 0,
    decreases history.len(),
{
    if history.len() > 0 {
        let before = history.drop_last();
        let run = run_after(command, before);
        let sent = run_updates(command, before);
        let said = run.says(history.last());
        let timeout = SourceUpdateView::Failed(SourceFailureView::TimedOut { command });
        law_timeout_only_before_first_output(command, before);
        law_run_is_well_formed(command, before);
        lemma_contains_concat(sent, said, timeout);
        if run.phase == SourcePhase::Starting {
            lemma_starting(command, before);
        }
        if sent.contains(timeout) {
            law_one_terminal_update_last(command, before);
            let i = choose|i: int| 0 <= i < sent.len() && sent[i] == timeout;
            assert(sent[i].is_terminal());
            assert(i == sent.len() - 1);
            assert(run.phase == SourcePhase::Done);
        }
    }
}

/// When flushes happen makes no difference, for as long as somebody listens:
/// without them the same Entries are handed on and the run ends the same way.
pub proof fn law_flushes_do_not_matter(command: Seq<char>, history: Seq<SourceHappeningView>)
    requires
        !history.contains(SourceHappeningView::ReceiverGone),
    ensures
        lines_heard(command, without_flushes(history)) == lines_heard(command, history),
        run_after(command, without_flushes(history)).phase == SourcePhase::Done <==> run_after(
            command,
            history,
        ).phase == SourcePhase::Done,
        run_after(command, history).phase == SourcePhase::Done ==> {
            &&& entries_in(run_updates(command, without_flushes(history))) == entries_in(
                run_updates(command, history),
            )
            &&& run_updates(command, without_flushes(history)).last() == run_updates(
                command,
                history,
            ).last()
        },
{
    lemma_same_but_flushes(command, history);
    law_every_line_once(command, history);
    law_every_line_once(command, without_flushes(history));
}

/// A history with its flushes left out.
pub open spec fn without_flushes(history: Seq<SourceHappeningView>) -> Seq<SourceHappeningView>
    decreases history.len(),
{
    if history.len() == 0 {
        Seq::empty()
    } else if history.last() == SourceHappeningView::FlushDue {
        without_flushes(history.drop_last())
    } else {
        without_flushes(history.drop_last()).push(history.last())
    }
}

spec fn same_but_batches(a: SourceRunView, b: SourceRunView) -> bool {
    &&& a.command == b.command
    &&& a.delivered + a.pending.len() == b.delivered + b.pending.len() || !b.listening()
    &&& a.phase == b.phase || (a.phase == SourcePhase::Running && b.phase == SourcePhase::Flushed)
}

proof fn lemma_same_but_flushes(command: Seq<char>, history: Seq<SourceHappeningView>)
    requires
        !history.contains(SourceHappeningView::ReceiverGone),
    ensures
        same_but_batches(
            run_after(command, without_flushes(history)),
            run_after(command, history),
        ),
        lines_heard(command, without_flushes(history)) == lines_heard(command, history),
        run_after(command, history).phase == SourcePhase::Done ==> run_updates(
            command,
            without_flushes(history),
        ).last() == run_updates(command, history).last(),
    decreases history.len(),
{
    if history.len() > 0 {
        let before = history.drop_last();
        let happening = history.last();
        assert(!before.contains(SourceHappeningView::ReceiverGone)) by {
            if before.contains(SourceHappeningView::ReceiverGone) {
                let i = choose|i: int|
                    0 <= i < before.len() && before[i] == SourceHappeningView::ReceiverGone;
                assert(history[i] == SourceHappeningView::ReceiverGone);
            }
        }
        assert(happening != SourceHappeningView::ReceiverGone) by {
            assert(history[history.len() - 1] == happening);
        }
        lemma_same_but_flushes(command, before);
        law_run_is_well_formed(command, before);
        law_run_is_well_formed(command, without_flushes(before));
        let bare = without_flushes(before);
        if happening == SourceHappeningView::FlushDue {
            if run_after(command, history).phase == SourcePhase::Done {
                assert(run_updates(command, history) == run_updates(command, before));
            }
        } else {
            let full = without_flushes(history);
            assert(full.drop_last() == bare);
            assert(full.last() == happening);
            let a = run_after(command, bare);
            let b = run_after(command, before);
            if b.phase == SourcePhase::Done {
                assert(run_updates(command, history) == run_updates(command, before));
                assert(run_updates(command, full) == run_updates(command, bare));
            } else if run_after(command, history).phase == SourcePhase::Done {
                assert(b.says(happening).len() > 0);
                assert(a.says(happening).len() > 0);
                assert(run_updates(command, history).last() == b.says(happening).last());
                assert(run_updates(command, full).last() == a.says(happening).last());
            }
        }
    }
}

/// No Entry is blank, and none has whitespace at its ends.
pub proof fn law_entries_are_trimmed(lines: Seq<Seq<char>>)
    ensures
        entries_of(lines).len() <= lines.len(),
        forall|i: int|
            0 <= i < entries_of(lines).len() ==> (#[trigger] entries_of(lines)[i]).len() > 0
                && crate::text::trimmed(entries_of(lines)[i]) == entries_of(lines)[i],
    decreases lines.len(),
{
    if lines.len() > 0 {
        let front = lines.drop_last();
        law_entries_are_trimmed(front);
        crate::text::lemma_trimmed_blank(lines.last());
        crate::text::lemma_trimmed_idempotent(lines.last());
        let entries = entries_of(lines);
        assert forall|i: int| 0 <= i < entries.len() implies (#[trigger] entries[i]).len() > 0
            && crate::text::trimmed(entries[i]) == entries[i] by {
            if i < entries_of(front).len() {
                assert(entries[i] == entries_of(front)[i]);
            }
        }
    }
}

/// The Entries of a sequence of updates are those of its batches, one behind the
/// other; no other update holds any.
pub proof fn law_entries_in_updates(updates: Seq<SourceUpdateView>, update: SourceUpdateView)
    ensures
        entries_in(Seq::empty()) == Seq::<Seq<char>>::empty(),
        update matches SourceUpdateView::Entries(entries) ==> entries_in(updates.push(update))
            == entries_in(updates) + entries,
        !(update is Entries) ==> entries_in(updates.push(update)) == entries_in(updates),
{
    assert(updates.push(update).drop_last() == updates);
}

/// A run hears every line once it was started and until it is over. A blank one
/// only ends the silence; any other becomes an Entry without the whitespace at
/// its ends, behind those that wait. The one that reaches the cap ends the run:
/// all that waits is handed on, and that the run was cut short.
pub proof fn law_lines_become_entries(run: SourceRunView, line: Seq<char>)
    requires
        run.phase == SourcePhase::Silent || run.phase == SourcePhase::Running || run.phase
            == SourcePhase::Flushed,
    ensures
        ({
            let heard = SourceHappeningView::Event(SourceEventView::Line(line));
            let after = run.step(heard);
            let said = run.says(heard);
            let entry = crate::text::trimmed(line);
            &&& after.command == run.command
            &&& after.delivered == run.delivered
            &&& crate::text::is_blank(line) ==> said.len() == 0 && after.pending == run.pending
                && after.phase == SourcePhase::Running
            &&& !crate::text::is_blank(line) && run.delivered + run.pending.len() + 1 < 100_000
                ==> said.len() == 0 && after.pending == run.pending.push(entry) && after.phase
                == SourcePhase::Running
            &&& !crate::text::is_blank(line) && run.delivered + run.pending.len() + 1 >= 100_000
                ==> said == seq![
                SourceUpdateView::Entries(run.pending.push(entry)),
                SourceUpdateView::Finished { truncated: true },
            ] && after.phase == SourcePhase::Done && after.pending.len() == 0
        }),
{
    let entry = crate::text::trimmed(line);
    assert(seq![SourceUpdateView::Entries(run.pending.push(entry))].push(
        SourceUpdateView::Finished { truncated: true },
    ) =~= seq![
        SourceUpdateView::Entries(run.pending.push(entry)),
        SourceUpdateView::Finished { truncated: true },
    ]);
}

/// Once a process has ended, what waits is handed on in one batch, where there
/// is any, and then how it ended: that it finished where it reported success or
/// nothing, else that the command failed and why.
pub proof fn law_the_end_of_a_process_is_reported(
    run: SourceRunView,
    code: Option<i32>,
    stderr: Seq<char>,
)
    requires
        run.phase == SourcePhase::Silent || run.phase == SourcePhase::Running || run.phase
            == SourcePhase::Flushed,
    ensures
        ({
            let exited = SourceHappeningView::Event(SourceEventView::Exited { code, stderr });
            let waiting = if run.pending.len() == 0 {
                Seq::<SourceUpdateView>::empty()
            } else {
                seq![SourceUpdateView::Entries(run.pending)]
            };
            let failed = |details: Seq<char>| SourceUpdateView::Failed(
                SourceFailureView::Failed { command: run.command, details },
            );
            let last = if code == Some(0i32) {
                SourceUpdateView::Finished { truncated: false }
            } else {
                match (crate::text::first_detail_spec(stderr), code) {
                    (Some(detail), _) => failed(detail),
                    (None, Some(code)) => failed(
                        "exited with status "@ + crate::text::decimal(code as int),
                    ),
                    (None, None) => failed("terminated by a signal"@),
                }
            };
            &&& run.says(exited) == waiting.push(last)
            &&& run.says(SourceHappeningView::Ended) == waiting.push(
                SourceUpdateView::Finished { truncated: false },
            )
            &&& run.step(exited).phase == SourcePhase::Done
            &&& run.step(SourceHappeningView::Ended).phase == SourcePhase::Done
        }),
{
}

/// A flush hands on all that waits, where anything does, and keeps count of it;
/// it comes to nothing but between two flushes.
pub proof fn law_flushes_hand_on_what_waits(run: SourceRunView)
    ensures
        ({
            let after = run.step(SourceHappeningView::FlushDue);
            let said = run.says(SourceHappeningView::FlushDue);
            &&& run.phase != SourcePhase::Running ==> after == run && said.len() == 0
            &&& run.phase == SourcePhase::Running ==> {
                &&& after.phase == SourcePhase::Flushed
                &&& after.pending.len() == 0
                &&& after.delivered == run.delivered + run.pending.len()
                &&& after.command == run.command
                &&& run.pending.len() == 0 ==> said.len() == 0
                &&& run.pending.len() > 0 ==> said == seq![SourceUpdateView::Entries(run.pending)]
            }
        }),
{
}

/// A run times out only while nothing at all was heard, and says so of its
/// command; it is given up only where nobody listens to what it hands on; and
/// what is reported of its start counts only while that is awaited.
pub proof fn law_happenings_count_only_when_awaited(run: SourceRunView, reason: Seq<char>)
    ensures
        run.phase == SourcePhase::Silent ==> run.says(SourceHappeningView::TimedOut) == seq![
            SourceUpdateView::Failed(SourceFailureView::TimedOut { command: run.command }),
        ] && run.step(SourceHappeningView::TimedOut).phase == SourcePhase::Done,
        run.phase != SourcePhase::Silent ==> run.says(SourceHappeningView::TimedOut).len() == 0
            && run.step(SourceHappeningView::TimedOut) == run,
        run.says(SourceHappeningView::ReceiverGone).len() == 0,
        run.phase == SourcePhase::Flushed ==> run.step(SourceHappeningView::ReceiverGone) == (
        SourceRunView { phase: SourcePhase::Abandoned, ..run }),
        run.phase != SourcePhase::Flushed ==> run.step(SourceHappeningView::ReceiverGone) == run,
        run.says(SourceHappeningView::Spawned).len() == 0,
        run.phase == SourcePhase::Starting ==> run.step(SourceHappeningView::Spawned) == (
        SourceRunView { phase: SourcePhase::Silent, ..run }),
        run.phase != SourcePhase::Starting ==> run.step(SourceHappeningView::Spawned) == run,
        run.phase != SourcePhase::Starting ==> run.says(
            SourceHappeningView::SpawnFailed { reason },
        ).len() == 0 && run.step(SourceHappeningView::SpawnFailed { reason }) == run,
        run.phase == SourcePhase::Starting ==> run.says(
            SourceHappeningView::SpawnFailed { reason },
        ) == seq![
            SourceUpdateView::Failed(
                SourceFailureView::CouldNotSpawn { command: run.command, reason },
            ),
        ] && run.step(SourceHappeningView::SpawnFailed { reason }).phase == SourcePhase::Done,
{
}

/// A run begins by awaiting its start, with nothing handed on and nothing
/// waiting.
pub proof fn law_runs_begin_with_nothing(command: Seq<char>)
    ensures
        run_after(command, Seq::empty()).command == command,
        run_after(command, Seq::empty()).phase == SourcePhase::Starting,
        run_after(command, Seq::empty()).pending.len() == 0,
        run_after(command, Seq::empty()).delivered == 0,
{
}

/// A line that is not blank is one more Entry, trimmed, behind those of the
/// lines before it; a blank one is none.
pub proof fn law_each_line_is_an_entry(lines: Seq<Seq<char>>, line: Seq<char>)
    ensures
        entries_of(Seq::empty()).len() == 0,
        crate::text::is_blank(line) ==> entries_of(lines.push(line)) == entries_of(lines),
        !crate::text::is_blank(line) ==> entries_of(lines.push(line)) == entries_of(lines).push(
            crate::text::trimmed(line),
        ),
{
    assert(lines.push(line).drop_last() == lines);
}

/// What happens to a process that prints the given lines.
pub open spec fn printing(lines: Seq<Seq<char>>) -> Seq<SourceHappeningView> {
    seq![SourceHappeningView::Spawned] + lines.map_values(
        |line: Seq<char>| SourceHappeningView::Event(SourceEventView::Line(line)),
    )
}

/// A process that prints lines and then succeeds has all the Entries of its
/// lines handed on, in one batch where no flush comes between, and the run
/// finishes.
pub proof fn law_a_run_hands_on_its_lines(
    command: Seq<char>,
    lines: Seq<Seq<char>>,
    stderr: Seq<char>,
)
    requires
        lines.len() < 100_000,
    ensures
        run_updates(
            command,
            printing(lines).push(
                SourceHappeningView::Event(SourceEventView::Exited { code: Some(0), stderr }),
            ),
        ) == (if entries_of(lines).len() == 0 {
            seq![SourceUpdateView::Finished { truncated: false }]
        } else {
            seq![
                SourceUpdateView::Entries(entries_of(lines)),
                SourceUpdateView::Finished { truncated: false },
            ]
        }),
{
    lemma_printing(command, lines);
    let exited = SourceHappeningView::Event(SourceEventView::Exited { code: Some(0), stderr });
    let history = printing(lines).push(exited);
    assert(history.drop_last() == printing(lines));
    assert(history.last() == exited);
    let finished = SourceUpdateView::Finished { truncated: false };
    let sent = run_updates(command, printing(lines));
    let said = run_after(command, printing(lines)).says(exited);
    assert(sent + said =~= said);
    if entries_of(lines).len() == 0 {
        assert(Seq::<SourceUpdateView>::empty().push(finished) =~= seq![finished]);
    } else {
        assert(seq![SourceUpdateView::Entries(entries_of(lines))].push(finished) =~= seq![
            SourceUpdateView::Entries(entries_of(lines)),
            finished,
        ]);
    }
}

proof fn lemma_printing(command: Seq<char>, lines: Seq<Seq<char>>)
    requires
        lines.len() < 100_000,
    ensures
        run_updates(command, printing(lines)).len() == 0,
        run_after(command, printing(lines)).command == command,
        run_after(command, printing(lines)).pending == entries_of(lines),
        run_after(command, printing(lines)).delivered == 0,
        run_after(command, printing(lines)).phase == SourcePhase::Silent || run_after(
            command,
            printing(lines),
        ).phase == SourcePhase::Running,
        entries_of(lines).len() <= lines.len(),
    decreases lines.len(),
{
    let history = printing(lines);
    if lines.len() == 0 {
        assert(history =~= seq![SourceHappeningView::Spawned]);
        assert(history.drop_last() =~= Seq::<SourceHappeningView>::empty());
        assert(history.last() == SourceHappeningView::Spawned);
        assert(run_updates(command, history.drop_last()).len() == 0);
    } else {
        let front = lines.drop_last();
        lemma_printing(command, front);
        assert(history.drop_last() =~= printing(front));
        assert(history.last() == SourceHappeningView::Event(SourceEventView::Line(lines.last())));
        law_lines_become_entries(run_after(command, printing(front)), lines.last());
    }
}

/// A failure is told by its command, as the user calls it, and by what went
/// wrong.
pub proof fn law_failures_are_told_by_their_command(command: Seq<char>, why: Seq<char>)
    ensures
        (SourceFailureView::CouldNotSpawn { command, reason: why }).message() == "Could not run `"@
            + command + "`: "@ + why,
        (SourceFailureView::Failed { command, details: why }).message() == "`"@ + command
            + "` failed: "@ + why,
        (SourceFailureView::TimedOut { command }).message() == "`"@ + command
            + "` produced nothing within "@ + crate::text::digits(5) + " seconds"@,
{
}

} // verus!
