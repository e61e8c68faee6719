//! The picker of one Finder: its Entries, its matches, its selection, and what
//! it says about its Source.
use std::sync::Arc;

use vstd::prelude::*;

use crate::config::{substitute_query, FinderConfig, Preview, RunOn};
use crate::generation::{next_generation, Generation};
use crate::outcome::{
    apply_outcome, resolve_outcome_path, OutcomeAction, OutcomeRun, PathWithPosition,
};
use crate::platform::Platform;
use crate::remote::{
    resolve_command, wrap_command, CommandPlan, CommandTemplate, Environment, ResolvedCommand,
};
use crate::source::{could_not_spawn, SourceUpdate, MAX_ENTRIES};
use crate::text::{same_text, usize_text};

verus! {

/// The most matches that are listed.
pub const MAX_MATCHES: usize = 1000;

/// How many milliseconds after the user stops typing a query-driven Source is
/// run again.
pub const QUERY_DEBOUNCE: u64 = 150;

/// An Entry that is listed: which one it is, and the places in it that the
/// Query matched.
#[derive(Debug, Clone, PartialEq)]
pub struct StringMatch {
    pub candidate_id: usize,
    pub positions: Vec<usize>,
    pub string: String,
}

/// What a [`StringMatch`] is.
pub struct StringMatchView {
    pub candidate_id: nat,
    pub positions: Seq<usize>,
    pub string: Seq<char>,
}

impl DeepView for StringMatch {
    type V = StringMatchView;

    open spec fn deep_view(&self) -> StringMatchView {
        StringMatchView {
            candidate_id: self.candidate_id as nat,
            positions: self.positions@,
            string: self.string@,
        }
    }
}

/// An Entry that is listed without anything in it being marked.
pub open spec fn unmarked(candidate_id: nat, string: Seq<char>) -> StringMatchView {
    StringMatchView { candidate_id, positions: Seq::empty(), string }
}

/// How the Source is doing.
#[derive(Debug)]
pub struct SourceState {
    pub running: bool,
    pub truncated: bool,
    pub failure: Option<String>,
}

/// What a [`SourceState`] is.
pub struct SourceStateView {
    pub running: bool,
    pub truncated: bool,
    pub failure: Option<Seq<char>>,
}

impl DeepView for SourceState {
    type V = SourceStateView;

    open spec fn deep_view(&self) -> SourceStateView {
        SourceStateView {
            running: self.running,
            truncated: self.truncated,
            failure: self.failure.deep_view(),
        }
    }
}

/// A Source that is running, or that has nothing to run for.
pub open spec fn fresh_state(running: bool) -> SourceStateView {
    SourceStateView { running, truncated: false, failure: None }
}

fn new_state(running: bool) -> (state: SourceState)
    ensures
        state.deep_view() == fresh_state(running),
{
    SourceState { running, truncated: false, failure: None }
}

impl SourceStateView {
    /// The state after an update that ends the run.
    pub open spec fn ended(self, update: crate::source::SourceUpdateView) -> SourceStateView {
        match update {
            crate::source::SourceUpdateView::Entries(_) => self,
            crate::source::SourceUpdateView::Finished { truncated } => SourceStateView {
                running: false,
                truncated,
                ..self
            },
            crate::source::SourceUpdateView::Failed(failure) => SourceStateView {
                running: false,
                failure: Some(failure.message()),
                ..self
            },
        }
    }
}

/// What a query-driven Finder keeps: the number of its current run, the Query
/// it is for, and whether its debounce can be cut short.
#[derive(Debug)]
pub struct QueryState {
    pub generation: Generation,
    pub pending_query: Option<String>,
    pub wakeable: bool,
}

/// What a [`QueryState`] is.
pub struct QueryStateView {
    pub generation: Generation,
    pub pending_query: Option<Seq<char>>,
    pub wakeable: bool,
}

impl DeepView for QueryState {
    type V = QueryStateView;

    open spec fn deep_view(&self) -> QueryStateView {
        QueryStateView {
            generation: self.generation,
            pending_query: self.pending_query.deep_view(),
            wakeable: self.wakeable,
        }
    }
}

/// A command to run for the Entries of a Finder.
#[derive(Debug, PartialEq)]
pub struct SourceRequest {
    pub command: String,
    pub args: Vec<String>,
    pub run_on: RunOn,
}

/// What a [`SourceRequest`] is.
pub struct SourceRequestView {
    pub command: Seq<char>,
    pub args: Seq<Seq<char>>,
    pub run_on: RunOn,
}

impl DeepView for SourceRequest {
    type V = SourceRequestView;

    open spec fn deep_view(&self) -> SourceRequestView {
        SourceRequestView {
            command: self.command@,
            args: self.args.deep_view(),
            run_on: self.run_on,
        }
    }
}

/// The environment that a Source runs in: an empty one where the project has
/// none.
pub open spec fn source_environment(
    environment: Option<crate::remote::EnvironmentView>,
) -> crate::remote::EnvironmentView {
    match environment {
        Some(environment) => environment,
        None => Seq::empty(),
    }
}

/// Decides how the command of a Source is to be run. `remote` says whether the
/// project has a transport.
pub fn start_source(
    request: SourceRequest,
    remote: bool,
    cwd: &str,
    environment: Option<Environment>,
) -> (plan: CommandPlan)
    ensures
        plan.deep_view() == crate::remote::command_plan(
            remote,
            request.run_on,
            request.deep_view().command,
            request.deep_view().args,
            cwd@,
            source_environment(environment.deep_view()),
        ),
{
    let env = match environment {
        Some(environment) => environment,
        None => {
            let none: Environment = Vec::new();
            assert(none.deep_view() =~= Seq::<(Seq<char>, Seq<char>)>::empty());
            none
        },
    };
    resolve_command(remote, request.run_on, request.command, request.args, cwd, env)
}

/// Takes the transport's answer for a Source. An answer that is an error is a
/// Source that could not be started, under the name that the user gave it.
pub fn start_wrapped_source(command: &str, reply: Result<CommandTemplate, String>) -> (out: Result<
    ResolvedCommand,
    SourceUpdate,
>)
    ensures
        crate::model::result_view(out) == (match crate::remote::wrapped_command(
            crate::model::result_view(reply),
        ) {
            Ok(resolved) => Ok(resolved),
            Err(error) => Err(
                crate::source::SourceUpdateView::Failed(
                    crate::source::SourceFailureView::CouldNotSpawn {
                        command: command@,
                        reason: error,
                    },
                ),
            ),
        }),
{
    match wrap_command(reply) {
        Ok(resolved) => Ok(resolved),
        Err(error) => Err(could_not_spawn(command, error.as_str())),
    }
}

/// What a change of the Query asks for.
#[derive(Debug, PartialEq)]
pub enum MatchPlan {
    /// Nothing: the list is empty without a Query.
    Nothing,
    /// After [`QUERY_DEBOUNCE`], unless it was superseded, run the Source for
    /// this Query; its updates carry the generation.
    Run { generation: Generation, request: SourceRequest },
    /// List these.
    List { matches: Vec<StringMatch>, selected: Option<String> },
    /// Match the Entries against the Query, case-sensitively where the Query
    /// has capitals, shorter Entries first among equals, and list the best
    /// `limit`.
    Match { query: String, limit: usize, selected: Option<String> },
}

/// What a [`MatchPlan`] is.
pub enum MatchPlanView {
    Nothing,
    Run { generation: Generation, request: SourceRequestView },
    List { matches: Seq<StringMatchView>, selected: Option<Seq<char>> },
    Match { query: Seq<char>, limit: nat, selected: Option<Seq<char>> },
}

impl DeepView for MatchPlan {
    type V = MatchPlanView;

    open spec fn deep_view(&self) -> MatchPlanView {
        match self {
            MatchPlan::Nothing => MatchPlanView::Nothing,
            MatchPlan::Run { generation, request } => MatchPlanView::Run {
                generation: *generation,
                request: request.deep_view(),
            },
            MatchPlan::List { matches, selected } => MatchPlanView::List {
                matches: matches.deep_view(),
                selected: selected.deep_view(),
            },
            MatchPlan::Match { query, limit, selected } => MatchPlanView::Match {
                query: query@,
                limit: *limit as nat,
                selected: selected.deep_view(),
            },
        }
    }
}

/// The first place of an Entry in a list of matches.
pub open spec fn place_of(matches: Seq<StringMatchView>, string: Seq<char>) -> Option<nat>
    decreases matches.len(),
{
    if matches.len() == 0 {
        None
    } else {
        match place_of(matches.drop_last(), string) {
            Some(i) => Some(i),
            None => if matches.last().string == string {
                Some((matches.len() - 1) as nat)
            } else {
                None
            },
        }
    }
}

/// The state of the picker of one Finder.
#[verifier::ext_equal]
pub struct FinderDelegateView {
    pub config: crate::config::FinderConfigView,
    pub cwd: Seq<char>,
    pub entries: Seq<Seq<char>>,
    pub matches: Seq<StringMatchView>,
    pub selected_index: nat,
    pub state: SourceStateView,
    pub keep_selected_entry: bool,
    pub query: Option<QueryStateView>,
}

impl FinderDelegateView {
    /// The picker as it opens: empty, with its Source considered running.
    pub open spec fn new(config: crate::config::FinderConfigView, cwd: Seq<char>) -> Self {
        FinderDelegateView {
            config,
            cwd,
            entries: Seq::empty(),
            matches: Seq::empty(),
            selected_index: 0,
            state: fresh_state(true),
            keep_selected_entry: false,
            query: if config.source is Query {
                Some(QueryStateView { generation: 0, pending_query: None, wakeable: false })
            } else {
                None
            },
        }
    }

    /// It keeps a Query exactly where the Source is driven by one.
    pub open spec fn wf(self) -> bool {
        self.query is Some <==> self.config.source is Query
    }

    /// The Entry that is selected, where there is one.
    pub open spec fn selected_entry(self) -> Option<Seq<char>> {
        if self.selected_index < self.matches.len() {
            Some(self.matches[self.selected_index as int].string)
        } else {
            None
        }
    }

    /// The Source as it is written.
    pub open spec fn request(self, args: Seq<Seq<char>>) -> SourceRequestView {
        SourceRequestView {
            command: self.config.source.command(),
            args,
            run_on: self.config.run_on,
        }
    }

    /// The picker with nothing listed: the list is always the answer to the
    /// current Query or empty, never a stale answer to the previous one.
    pub open spec fn emptied(self, running: bool) -> Self {
        FinderDelegateView {
            entries: Seq::empty(),
            matches: Seq::empty(),
            selected_index: 0,
            state: fresh_state(running),
            ..self
        }
    }

    /// A query-driven picker after the Query has changed.
    pub open spec fn queried(self, query: Seq<char>) -> Self {
        let old_state = self.query->0;
        if query.len() == 0 {
            FinderDelegateView {
                query: Some(
                    QueryStateView {
                        generation: crate::generation::following(old_state.generation),
                        pending_query: None,
                        ..old_state
                    },
                ),
                ..self.emptied(false)
            }
        } else {
            FinderDelegateView {
                query: Some(
                    QueryStateView {
                        generation: crate::generation::following(old_state.generation),
                        pending_query: Some(query),
                        wakeable: true,
                    },
                ),
                ..self.emptied(true)
            }
        }
    }

    /// What a change of the Query asks of a query-driven picker.
    pub open spec fn query_plan(self, query: Seq<char>) -> MatchPlanView {
        if query.len() == 0 {
            MatchPlanView::Nothing
        } else {
            MatchPlanView::Run {
                generation: crate::generation::following(self.query->0.generation),
                request: self.request(
                    crate::config::query_substituted(self.config.source.args(), query),
                ),
            }
        }
    }

    /// Whether a newer Query has replaced the run, so that it must not start.
    pub open spec fn is_superseded(self, generation: Generation) -> bool {
        !(self.query matches Some(state) && state.generation == generation)
    }

    /// What is started of a run whose debounce is over: its request, unless it
    /// was superseded.
    pub open spec fn started(
        self,
        generation: Generation,
        request: SourceRequestView,
    ) -> Option<SourceRequestView> {
        if self.is_superseded(generation) {
            None
        } else {
            Some(request)
        }
    }

    /// The matches of an empty Query: the first Entries, in order.
    pub open spec fn unfiltered(self) -> Seq<StringMatchView> {
        Seq::new(
            if self.entries.len() <= MAX_MATCHES {
                self.entries.len()
            } else {
                MAX_MATCHES as nat
            },
            |i: int| unmarked(i as nat, self.entries[i]),
        )
    }

    /// What a change of the Query asks of a picker whose Source ran once.
    pub open spec fn filter_plan(self, query: Seq<char>) -> MatchPlanView {
        let selected = if self.keep_selected_entry {
            self.selected_entry()
        } else {
            None
        };
        if query.len() == 0 {
            MatchPlanView::List { matches: self.unfiltered(), selected }
        } else {
            MatchPlanView::Match { query, limit: MAX_MATCHES as nat, selected }
        }
    }

    /// The picker with new matches: the selection stays on the Entry it was on,
    /// where that is to be kept and is still listed, else it is the first.
    pub open spec fn installed(
        self,
        matches: Seq<StringMatchView>,
        selected: Option<Seq<char>>,
    ) -> Self {
        FinderDelegateView {
            matches,
            selected_index: match selected {
                Some(entry) => match place_of(matches, entry) {
                    Some(i) => i,
                    None => 0,
                },
                None => 0,
            },
            ..self
        }
    }

    /// The picker of a Source that runs once, after an update.
    pub open spec fn applied(self, update: crate::source::SourceUpdateView) -> Self {
        FinderDelegateView {
            entries: match update {
                crate::source::SourceUpdateView::Entries(entries) => self.entries + entries,
                _ => self.entries,
            },
            state: self.state.ended(update),
            keep_selected_entry: true,
            ..self
        }
    }

    /// The picker of a query-driven Source after an update. Updates of a run
    /// that was superseded are dropped; the Source owns filtering.
    pub open spec fn query_applied(
        self,
        generation: Generation,
        update: crate::source::SourceUpdateView,
    ) -> Self {
        if self.query->0.generation != generation {
            self
        } else {
            match update {
                crate::source::SourceUpdateView::Entries(entries) => FinderDelegateView {
                    entries: self.entries + entries,
                    matches: self.matches + entries.map_values(
                        |entry: Seq<char>| unmarked(0, entry),
                    ),
                    ..self
                },
                _ => FinderDelegateView { state: self.state.ended(update), ..self },
            }
        }
    }

    /// What the list itself cannot carry: a failure that arrived after usable
    /// Entries, or a Source that was cut short.
    pub open spec fn footer(self) -> Option<Seq<char>> {
        if self.entries.len() > 0 && self.state.failure is Some {
            self.state.failure
        } else if self.state.truncated {
            Some("Showing the first "@ + crate::text::digits(MAX_ENTRIES as nat) + " entries"@)
        } else {
            None
        }
    }

    /// What the Source has to say while nothing is listed.
    pub open spec fn status(self) -> Option<Seq<char>> {
        if self.entries.len() == 0 && self.state.failure is Some {
            self.state.failure
        } else if self.state.running {
            Some("Running…"@)
        } else {
            None
        }
    }

    /// The text in place of an empty list.
    pub open spec fn no_matches(self) -> Seq<char> {
        match self.status() {
            Some(status) => status,
            None => "No matches"@,
        }
    }
}

/// The picker of one Finder.
#[derive(Debug)]
pub struct FinderDelegate {
    config: Arc<FinderConfig>,
    cwd: String,
    entries: Vec<String>,
    matches: Vec<StringMatch>,
    selected_index: usize,
    state: SourceState,
    keep_selected_entry: bool,
    query: Option<QueryState>,
}

impl View for FinderDelegate {
    type V = FinderDelegateView;

    closed spec fn view(&self) -> FinderDelegateView {
        FinderDelegateView {
            config: self.config.deep_view(),
            cwd: self.cwd@,
            entries: self.entries.deep_view(),
            matches: self.matches.deep_view(),
            selected_index: self.selected_index as nat,
            state: self.state.deep_view(),
            keep_selected_entry: self.keep_selected_entry,
            query: self.query.deep_view(),
        }
    }
}

impl FinderDelegate {
    /// The picker as it opens.
    pub fn new(config: Arc<FinderConfig>, cwd: String) -> (delegate: FinderDelegate)
        ensures
            delegate@ == FinderDelegateView::new(config.deep_view(), cwd@),
            delegate@.wf(),
    {
        let query = if config.source.is_query_driven() {
            Some(QueryState { generation: 0, pending_query: None, wakeable: false })
        } else {
            None
        };
        let delegate = FinderDelegate {
            config,
            cwd,
            entries: Vec::new(),
            matches: Vec::new(),
            selected_index: 0,
            state: new_state(true),
            keep_selected_entry: false,
            query,
        };
        assert(delegate.entries.deep_view() =~= Seq::<Seq<char>>::empty());
        assert(delegate.matches.deep_view() =~= Seq::<StringMatchView>::empty());
        delegate
    }

    /// The command to run as the picker opens. A query-driven Source waits for
    /// the first Query.
    pub fn spawn_source(&self) -> (request: Option<SourceRequest>)
        ensures
            request.deep_view() == (if self@.config.source is Query {
                None
            } else {
                Some(self@.request(self@.config.source.args()))
            }),
    {
        if self.config.source.is_query_driven() {
            return None;
        }
        let args = copy_texts(self.config.source.args());
        Some(
            SourceRequest {
                command: self.config.source.command().to_owned(),
                args,
                run_on: self.config.run_on,
            },
        )
    }

    fn clear_list(&mut self, running: bool)
        ensures
            final(self)@ == old(self)@.emptied(running),
    {
        self.entries = Vec::new();
        self.matches = Vec::new();
        self.selected_index = 0;
        self.state = new_state(running);
        assert(self.entries.deep_view() =~= Seq::<Seq<char>>::empty());
        assert(self.matches.deep_view() =~= Seq::<StringMatchView>::empty());
    }

    /// Takes in a new Query of a query-driven Finder.
    pub fn update_query_matches(&mut self, query: &str) -> (plan: MatchPlan)
        requires
            old(self)@.query is Some,
        ensures
            final(self)@ == old(self)@.queried(query@),
            plan.deep_view() == old(self)@.query_plan(query@),
    {
        let (generation, wakeable): (Generation, bool) = match &self.query {
            Some(state) => (next_generation(state.generation), state.wakeable),
            None => (0, false),
        };
        if query.is_empty() {
            self.clear_list(false);
            self.query = Some(QueryState { generation, pending_query: None, wakeable });
            return MatchPlan::Nothing;
        }
        self.clear_list(true);
        self.query =
        Some(QueryState { generation, pending_query: Some(query.to_owned()), wakeable: true });
        let request = SourceRequest {
            command: self.config.source.command().to_owned(),
            args: substitute_query(self.config.source.args(), query),
            run_on: self.config.run_on,
        };
        MatchPlan::Run { generation, request }
    }

    /// Whether a newer Query has replaced the run, so that it must not start.
    pub fn superseded(&self, generation: Generation) -> (superseded: bool)
        ensures
            superseded == self@.is_superseded(generation),
    {
        match &self.query {
            Some(state) => state.generation != generation,
            None => true,
        }
    }

    /// Takes up a run whose debounce is over. The request is handed back to be
    /// started, unless a newer Query has replaced the run. A plan holds its
    /// request once and it is given up here, so no run is started twice.
    pub fn start_query(&self, generation: Generation, request: SourceRequest) -> (started: Option<
        SourceRequest,
    >)
        ensures
            started.deep_view() == self@.started(generation, request.deep_view()),
    {
        if self.superseded(generation) {
            None
        } else {
            Some(request)
        }
    }

    /// Takes in an update of a query-driven Source.
    pub fn apply_query(&mut self, generation: Generation, update: SourceUpdate)
        requires
            old(self)@.query is Some,
        ensures
            final(self)@ == old(self)@.query_applied(generation, update.deep_view()),
    {
        if self.superseded(generation) {
            return;
        }
        match update {
            SourceUpdate::Entries(entries) => {
                let ghost old_matches = self.matches.deep_view();
                let ghost old_entries = self.entries.deep_view();
                let ghost new = entries.deep_view();
                let mut i: usize = 0;
                let ghost others = self@;
                while i < entries.len()
                    invariant
                        i <= entries@.len(),
                        new == entries.deep_view(),
                        self.matches.deep_view() == old_matches + new.take(i as int).map_values(
                            |entry: Seq<char>| unmarked(0, entry),
                        ),
                        self.entries.deep_view() == old_entries + new.take(i as int),
                        self@ == (FinderDelegateView {
                            matches: self.matches.deep_view(),
                            entries: self.entries.deep_view(),
                            ..others
                        }),
                    decreases entries@.len() - i,
                {
                    let ghost m = self.matches.deep_view();
                    let ghost e = self.entries.deep_view();
                    let found = StringMatch {
                        candidate_id: 0,
                        positions: Vec::new(),
                        string: entries[i].clone(),
                    };
                    self.matches.push(found);
                    self.entries.push(entries[i].clone());
                    proof {
                        assert(new.take(i + 1) == new.take(i as int).push(new[i as int]));
                        assert(self.matches.deep_view() =~= m.push(unmarked(0, new[i as int])));
                        assert(self.entries.deep_view() =~= e.push(new[i as int]));
                        assert(self.matches.deep_view() =~= old_matches + new.take(
                            i + 1,
                        ).map_values(|entry: Seq<char>| unmarked(0, entry)));
                    }
                    i += 1;
                }
                assert(new.take(i as int) == new);
            },
            SourceUpdate::Finished { truncated } => {
                self.state.running = false;
                self.state.truncated = truncated;
            },
            SourceUpdate::Failed(failure) => {
                self.state.running = false;
                self.state.failure = Some(failure.to_string());
            },
        }
    }

    /// Takes in an update of a Source that runs once.
    pub fn apply(&mut self, update: SourceUpdate)
        ensures
            final(self)@ == old(self)@.applied(update.deep_view()),
    {
        match update {
            SourceUpdate::Entries(entries) => {
                let ghost before = self.entries.deep_view();
                let ghost new = entries.deep_view();
                let mut entries = entries;
                self.entries.append(&mut entries);
                assert(self.entries.deep_view() =~= before + new);
            },
            SourceUpdate::Finished { truncated } => {
                self.state.running = false;
                self.state.truncated = truncated;
            },
            SourceUpdate::Failed(failure) => {
                self.state.running = false;
                self.state.failure = Some(failure.to_string());
            },
        }
        self.keep_selected_entry = true;
    }

    /// A failure that arrived after usable Entries, or a Source cut short at
    /// the cap: things the list itself cannot carry.
    pub fn footer_message(&self) -> (message: Option<String>)
        ensures
            message.deep_view() == self@.footer(),
    {
        if self.entries.len() > 0 {
            if let Some(failure) = &self.state.failure {
                return Some(failure.clone());
            }
        }
        if self.state.truncated {
            let mut message = "Showing the first ".to_owned();
            message.append(usize_text(MAX_ENTRIES).as_str());
            message.append(" entries");
            return Some(message);
        }
        None
    }

    /// What the Source has to say while nothing is listed.
    pub fn status_message(&self) -> (message: Option<String>)
        ensures
            message.deep_view() == self@.status(),
    {
        if self.entries.len() == 0 {
            if let Some(failure) = &self.state.failure {
                return Some(failure.clone());
            }
        }
        if self.state.running {
            Some("Running…".to_owned())
        } else {
            None
        }
    }

    /// Doubles as the Source's status line: the picker opens before the Source
    /// has produced anything, so an empty list must say why.
    pub fn no_matches_text(&self) -> (text: String)
        ensures
            text@ == self@.no_matches(),
    {
        match self.status_message() {
            Some(status) => status,
            None => "No matches".to_owned(),
        }
    }
}

/// What a path in the project turned out to be.
#[derive(Debug, Clone, Copy, PartialEq, Eq, Structural)]
pub enum PathClass {
    /// It lies outside every worktree, so nothing is known of it.
    Outside,
    File,
    Directory,
    /// It lies in a worktree that has nothing there.
    Gone,
}

/// What the Preview shows.
#[derive(Debug, PartialEq)]
pub enum PreviewUpdate {
    /// A text instead of a file, with the subject emphasized.
    Message { subject: String, reason: Option<String> },
    /// The file at a path, with the line of the position highlighted.
    Path { path: String, position: Option<PathWithPosition> },
}

/// What a [`PreviewUpdate`] is.
pub enum PreviewUpdateView {
    Message { subject: Seq<char>, reason: Option<Seq<char>> },
    Path { path: Seq<char>, position: Option<crate::outcome::PathWithPositionView> },
}

impl DeepView for PreviewUpdate {
    type V = PreviewUpdateView;

    open spec fn deep_view(&self) -> PreviewUpdateView {
        match self {
            PreviewUpdate::Message { subject, reason } => PreviewUpdateView::Message {
                subject: subject@,
                reason: reason.deep_view(),
            },
            PreviewUpdate::Path { path, position } => PreviewUpdateView::Path {
                path: path@,
                position: position.deep_view(),
            },
        }
    }
}

impl PreviewUpdateView {
    /// The text of a message.
    pub open spec fn text(self) -> Option<Seq<char>> {
        match self {
            PreviewUpdateView::Message { subject, reason: Some(reason) } => Some(
                subject + " "@ + reason + "."@,
            ),
            PreviewUpdateView::Message { subject, reason: None } => Some(subject),
            PreviewUpdateView::Path { .. } => None,
        }
    }
}

impl PreviewUpdate {
    /// The text of a message.
    pub fn message_text(&self) -> (text: Option<String>)
        ensures
            text.deep_view() == self.deep_view().text(),
    {
        match self {
            PreviewUpdate::Message { subject, reason } => {
                let mut text = subject.clone();
                if let Some(reason) = reason {
                    text.append(" ");
                    text.append(reason.as_str());
                    text.append(".");
                }
                Some(text)
            },
            PreviewUpdate::Path { .. } => None,
        }
    }
}

/// What is previewed of a target, once it is known what its path is. A path
/// outside every worktree is previewed optimistically.
pub open spec fn previewed(
    target: crate::outcome::PathWithPositionView,
    class: PathClass,
) -> PreviewUpdateView {
    match class {
        PathClass::Directory => PreviewUpdateView::Message {
            subject: target.path,
            reason: Some("is a directory"@),
        },
        PathClass::Gone => PreviewUpdateView::Message {
            subject: target.path,
            reason: Some("no longer exists"@),
        },
        _ => PreviewUpdateView::Path {
            path: target.path,
            position: if target.row is Some {
                Some(target)
            } else {
                None
            },
        },
    }
}

/// Decides what is previewed of a target.
pub fn preview_of(target: PathWithPosition, class: PathClass) -> (update: PreviewUpdate)
    ensures
        update.deep_view() == previewed(target.deep_view(), class),
{
    match class {
        PathClass::Directory => PreviewUpdate::Message {
            subject: target.path,
            reason: Some("is a directory".to_owned()),
        },
        PathClass::Gone => PreviewUpdate::Message {
            subject: target.path,
            reason: Some("no longer exists".to_owned()),
        },
        PathClass::Outside | PathClass::File => {
            let path = target.path.clone();
            let position = if target.row.is_some() {
                Some(target)
            } else {
                None
            };
            PreviewUpdate::Path { path, position }
        },
    }
}

/// Whether `update` is what the Preview shows for a target: nothing where
/// there is none, its error, or what `classify` makes of its path.
pub open spec fn is_preview_of<K: Fn(&str) -> PathClass>(
    classify: K,
    target: Option<Result<crate::outcome::PathWithPositionView, Seq<char>>>,
    update: Option<PreviewUpdateView>,
) -> bool {
    match target {
        None => update is None,
        Some(Err(error)) => update == Some(
            PreviewUpdateView::Message { subject: error, reason: None },
        ),
        Some(Ok(target)) => exists|path: &str, class: PathClass| #[trigger]
            call_ensures(classify, (path,), class) && path@ == target.path && update == Some(
                previewed(target, class),
            ),
    }
}

/// Whether `update` is what the picker previews: nothing without a Preview or
/// a selected Entry, else what is shown for the target of the Entry.
pub open spec fn is_previewed<F: Fn(&str) -> PathWithPosition, K: Fn(&str) -> PathClass>(
    picker: FinderDelegateView,
    separator: char,
    parse: F,
    classify: K,
    update: Option<PreviewUpdateView>,
) -> bool {
    if picker.config.preview is None || picker.selected_entry() is None {
        update is None
    } else {
        exists|target: Option<Result<crate::outcome::PathWithPositionView, Seq<char>>>|
            #[trigger] crate::outcome::is_target(
                parse,
                separator,
                picker.config.outcome,
                picker.selected_entry()->0,
                picker.cwd,
                picker.config.delimiter,
                target,
            ) && is_preview_of(classify, target, update)
    }
}

impl FinderDelegate {
    /// How many Entries are listed.
    pub fn match_count(&self) -> (n: usize)
        ensures
            n == self@.matches.len(),
    {
        self.matches.len()
    }

    /// Which of the listed Entries is selected.
    pub fn selected_index(&self) -> (i: usize)
        ensures
            i == self@.selected_index,
    {
        self.selected_index
    }

    /// Selects one of the listed Entries.
    pub fn set_selected_index(&mut self, i: usize)
        ensures
            final(self)@ == (FinderDelegateView { selected_index: i as nat, ..old(self)@ }),
    {
        self.selected_index = i;
    }

    /// The Entries that have arrived, in order.
    pub fn entries(&self) -> (entries: &Vec<String>)
        ensures
            entries.deep_view() == self@.entries,
    {
        &self.entries
    }

    /// The text in the empty input.
    pub fn placeholder_text(&self) -> (text: &str)
        ensures
            text@ == self@.config.placeholder,
    {
        self.config.placeholder.as_str()
    }

    /// What is listed at a place, with what is to be marked in it.
    pub fn match_at(&self, i: usize) -> (found: Option<&StringMatch>)
        ensures
            found.deep_view() == (if i < self@.matches.len() {
                Some(self@.matches[i as int])
            } else {
                None
            }),
    {
        if i < self.matches.len() {
            Some(&self.matches[i])
        } else {
            None
        }
    }

    /// The Entries that are listed, in order.
    pub fn matched_entries(&self) -> (entries: Vec<String>)
        ensures
            entries.deep_view() == self@.matches.map_values(|m: StringMatchView| m.string),
    {
        let mut entries: Vec<String> = Vec::new();
        let mut i: usize = 0;
        while i < self.matches.len()
            invariant
                i <= self.matches@.len(),
                entries@.len() == i,
                forall|j: int|
                    0 <= j < i ==> (#[trigger] entries@[j])@ == self.matches@[j].string@,
            decreases self.matches@.len() - i,
        {
            entries.push(self.matches[i].string.clone());
            i += 1;
        }
        assert(entries.deep_view() =~= self@.matches.map_values(|m: StringMatchView| m.string));
        entries
    }

    /// What the Source has to say while nothing is listed.
    pub fn status_text(&self) -> (text: Option<String>)
        ensures
            text.deep_view() == self@.status(),
    {
        self.status_message()
    }

    /// What the list itself cannot carry.
    pub fn footer_text(&self) -> (text: Option<String>)
        ensures
            text.deep_view() == self@.footer(),
    {
        self.footer_message()
    }

    fn list_all(&self) -> (matches: Vec<StringMatch>)
        ensures
            matches.deep_view() == self@.unfiltered(),
    {
        let mut matches: Vec<StringMatch> = Vec::new();
        let mut i: usize = 0;
        while i < self.entries.len() && i < MAX_MATCHES
            invariant
                i <= self.entries@.len(),
                i <= MAX_MATCHES,
                matches@.len() == i,
                self.entries.deep_view() == self@.entries,
                forall|j: int|
                    0 <= j < i ==> (#[trigger] matches@[j]).deep_view() == unmarked(
                        j as nat,
                        self@.entries[j],
                    ),
            decreases self.entries@.len() - i,
        {
            let found = StringMatch {
                candidate_id: i,
                positions: Vec::new(),
                string: self.entries[i].clone(),
            };
            assert(found.deep_view() == unmarked(i as nat, self@.entries[i as int]));
            matches.push(found);
            i += 1;
        }
        assert(self@.entries.len() == self.entries@.len());
        assert(matches.deep_view() =~= self@.unfiltered());
        matches
    }

    /// Takes in a change of the Query, or of the Entries, and says what is to
    /// be listed.
    pub fn update_matches(&mut self, query: &str) -> (plan: MatchPlan)
        requires
            old(self)@.wf(),
        ensures
            final(self)@.wf(),
            old(self)@.query is Some ==> final(self)@ == old(self)@.queried(query@)
                && plan.deep_view() == old(self)@.query_plan(query@),
            old(self)@.query is None ==> final(self)@ == (FinderDelegateView {
                keep_selected_entry: false,
                ..old(self)@
            }) && plan.deep_view() == old(self)@.filter_plan(query@),
    {
        if self.query.is_some() {
            return self.update_query_matches(query);
        }
        let selected = if self.keep_selected_entry && self.selected_index < self.matches.len() {
            Some(self.matches[self.selected_index].string.clone())
        } else {
            None
        };
        self.keep_selected_entry = false;
        if query.is_empty() {
            MatchPlan::List { matches: self.list_all(), selected }
        } else {
            MatchPlan::Match { query: query.to_owned(), limit: MAX_MATCHES, selected }
        }
    }

    /// Lists new matches, with the selection on `selected` where it is among
    /// them.
    pub fn install_matches(&mut self, matches: Vec<StringMatch>, selected: Option<String>)
        ensures
            final(self)@ == old(self)@.installed(matches.deep_view(), selected.deep_view()),
    {
        let at: Option<usize> = match &selected {
            Some(entry) => find_place(&matches, entry.as_str()),
            None => None,
        };
        self.selected_index = match at {
            Some(i) => i,
            None => 0,
        };
        self.matches = matches;
    }

    /// Takes in that the user confirms before the matches have settled. Returns
    /// whether they have, and whether the debounce is to be cut short so that
    /// the run starts now.
    pub fn finalize_update_matches(&mut self) -> (out: (bool, bool))
        ensures
            match old(self)@.query {
                // A Source that runs once has its matches already.
                None => out == (true, false) && final(self)@ == old(self)@,
                Some(state) => {
                    &&& out.0 == (state.pending_query is None)
                    &&& out.1 == state.wakeable
                    &&& final(self)@ == (FinderDelegateView {
                        query: Some(QueryStateView { wakeable: false, ..state }),
                        ..old(self)@
                    })
                },
            },
    {
        let mut query: Option<QueryState> = None;
        std::mem::swap(&mut query, &mut self.query);
        match query {
            None => (true, false),
            Some(state) => {
                let wake = state.wakeable;
                let settled = state.pending_query.is_none();
                self.query =
                Some(
                    QueryState {
                        generation: state.generation,
                        pending_query: state.pending_query,
                        wakeable: false,
                    },
                );
                (settled, wake)
            },
        }
    }

    /// Begins to apply the Outcome to the selected Entry, where there is one.
    /// `remote` says whether the project has a transport; `parse` reads a
    /// trailing `:row:col` off a path.
    pub fn confirm<F: Fn(&str) -> PathWithPosition>(
        &self,
        remote: bool,
        platform: Platform,
        parse: F,
    ) -> (begun: Option<(OutcomeRun, OutcomeAction)>)
        requires
            forall|s: &str| #[trigger] call_requires(parse, (s,)),
        ensures
            begun is Some <==> self@.selected_entry() is Some,
            begun matches Some(begun) ==> crate::outcome::is_begun(
                parse,
                platform@,
                self@.config.outcome,
                self@.selected_entry()->0,
                self@.cwd,
                self@.config.delimiter,
                self@.config.run_on,
                remote,
                (begun.0.deep_view(), begun.1.deep_view()),
            ),
    {
        if self.selected_index >= self.matches.len() {
            return None;
        }
        let entry = self.matches[self.selected_index].string.as_str();
        let delimiter = match &self.config.delimiter {
            Some(delimiter) => Some(delimiter.as_str()),
            None => None,
        };
        assert(Some(entry@) == self@.selected_entry());
        assert(delimiter.deep_view() == self@.config.delimiter);
        assert(self.config.outcome.deep_view() == self@.config.outcome);
        Some(
            apply_outcome(
                &self.config.outcome,
                entry,
                self.cwd.as_str(),
                delimiter,
                self.config.run_on,
                remote,
                platform,
                parse,
            ),
        )
    }

    /// What is previewed of the selected Entry. It is resolved via the Outcome
    /// so that the Preview shows what Confirm opens. `classify` says what a
    /// path of the project is.
    pub fn preview_target<F: Fn(&str) -> PathWithPosition, K: Fn(&str) -> PathClass>(
        &self,
        platform: Platform,
        parse: F,
        classify: K,
    ) -> (update: Option<PreviewUpdate>)
        requires
            forall|s: &str| #[trigger] call_requires(parse, (s,)),
            forall|s: &str| #[trigger] call_requires(classify, (s,)),
        ensures
            is_previewed(self@, platform@, parse, classify, update.deep_view()),
    {
        match self.config.preview {
            Some(Preview::Path) => {},
            None => return None,
        }
        if self.selected_index >= self.matches.len() {
            return None;
        }
        let entry = self.matches[self.selected_index].string.as_str();
        let delimiter = match &self.config.delimiter {
            Some(delimiter) => Some(delimiter.as_str()),
            None => None,
        };
        assert(Some(entry@) == self@.selected_entry());
        assert(delimiter.deep_view() == self@.config.delimiter);
        assert(self.config.outcome.deep_view() == self@.config.outcome);
        let resolved = resolve_outcome_path(
            &self.config.outcome,
            entry,
            self.cwd.as_str(),
            delimiter,
            platform,
            parse,
        );
        let ghost found = crate::outcome::target_view(resolved);
        assert(crate::outcome::is_target(
            parse,
            platform@,
            self@.config.outcome,
            self@.selected_entry()->0,
            self@.cwd,
            self@.config.delimiter,
            found,
        ));
        let update = match resolved {
            None => None,
            Some(Err(error)) => Some(PreviewUpdate::Message { subject: error, reason: None }),
            Some(Ok(target)) => {
                let class = classify(target.path.as_str());
                Some(preview_of(target, class))
            },
        };
        assert(is_preview_of(classify, found, update.deep_view()));
        update
    }
}

/// The first place of an Entry in a list of matches.
fn find_place(matches: &Vec<StringMatch>, entry: &str) -> (at: Option<usize>)
    ensures
        match at {
            Some(i) => place_of(matches.deep_view(), entry@) == Some(i as nat),
            None => place_of(matches.deep_view(), entry@) is None,
        },
{
    let ghost all = matches.deep_view();
    let mut i: usize = 0;
    assert(all.take(0) == Seq::<StringMatchView>::empty());
    while i < matches.len()
        invariant
            i <= matches@.len(),
            all == matches.deep_view(),
            place_of(all.take(i as int), entry@) is None,
        decreases matches@.len() - i,
    {
        proof {
            assert(all.take(i + 1).drop_last() == all.take(i as int));
            assert(all.take(i + 1).last() == matches@[i as int].deep_view());
        }
        if same_text(matches[i].string.as_str(), entry) {
            proof {
                lemma_place_stays(all, entry@, i + 1);
            }
            return Some(i);
        }
        i += 1;
    }
    assert(all.take(i as int) == all);
    None
}

proof fn lemma_place_stays(matches: Seq<StringMatchView>, entry: Seq<char>, n: int)
    requires
        0 <= n <= matches.len(),
        place_of(matches.take(n), entry) is Some,
    ensures
        place_of(matches, entry) == place_of(matches.take(n), entry),
    decreases matches.len() - n,
{
    if n == matches.len() {
        assert(matches.take(n) == matches);
    } else {
        assert(matches.take(n + 1).drop_last() == matches.take(n));
        lemma_place_stays(matches, entry, n + 1);
    }
}

/// The texts of a slice, in order.
fn copy_texts(texts: &[String]) -> (out: Vec<String>)
    ensures
        out.deep_view() == texts.deep_view(),
{
    let mut out: Vec<String> = Vec::new();
    let mut i: usize = 0;
    while i < texts.len()
        invariant
            i <= texts@.len(),
            out@.len() == i,
            forall|j: int| 0 <= j < i ==> (#[trigger] out@[j])@ == texts@[j]@,
        decreases texts@.len() - i,
    {
        out.push(texts[i].clone());
        i += 1;
    }
    assert(out.deep_view() =~= texts.deep_view());
    out
}

// ---------------------------------------------------------------------------
// Laws
// ---------------------------------------------------------------------------
/// The place of an Entry is the first at which it is listed, and there is one
/// exactly where it is listed.
pub proof fn law_place_is_the_first(matches: Seq<StringMatchView>, entry: Seq<char>)
    ensures
        place_of(matches, entry) matches Some(i) ==> i < matches.len() && matches[i as int].string
            == entry && forall|j: int| 0 <= j < i ==> (#[trigger] matches[j]).string != entry,
        place_of(matches, entry) is None ==> forall|j: int|
            0 <= j < matches.len() ==> (#[trigger] matches[j]).string != entry,
    decreases matches.len(),
{
    if matches.len() > 0 {
        let front = matches.drop_last();
        law_place_is_the_first(front, entry);
        if let Some(i) = place_of(front, entry) {
            assert(front[i as int] == matches[i as int]);
            assert forall|j: int| 0 <= j < i implies (#[trigger] matches[j]).string != entry by {
                assert(front[j] == matches[j]);
            }
        } else {
            assert forall|j: int| 0 <= j < front.len() implies (#[trigger] matches[j]).string
                != entry by {
                assert(front[j] == matches[j]);
            }
        }
    }
}

/// Entries that arrive do not move the selection: it stays on the Entry it was
/// on for as long as that is listed, wherever it is listed then.
pub proof fn law_selection_follows_the_entry(
    picker: FinderDelegateView,
    update: crate::source::SourceUpdateView,
    query: Seq<char>,
    matches: Seq<StringMatchView>,
)
    requires
        picker.selected_entry() is Some,
        exists|i: int|
            0 <= i < matches.len() && (#[trigger] matches[i]).string == picker.selected_entry()->0,
    ensures
        match picker.applied(update).filter_plan(query) {
            MatchPlanView::List { selected, .. } | MatchPlanView::Match { selected, .. } => {
                selected == picker.selected_entry() && picker.installed(
                    matches,
                    selected,
                ).selected_entry() == picker.selected_entry()
            },
            _ => false,
        },
{
    law_place_is_the_first(matches, picker.selected_entry()->0);
}

/// Typing a Query puts the selection back on the first match.
pub proof fn law_typing_resets_the_selection(
    picker: FinderDelegateView,
    query: Seq<char>,
    matches: Seq<StringMatchView>,
)
    requires
        !picker.keep_selected_entry,
    ensures
        match picker.filter_plan(query) {
            MatchPlanView::List { selected, .. } | MatchPlanView::Match { selected, .. } => {
                picker.installed(matches, selected).selected_index == 0
            },
            _ => false,
        },
{
}

/// A failure is shown in exactly one place: above an empty list where nothing
/// has arrived, below the Entries where something has. It never takes Entries
/// away.
pub proof fn law_failure_is_shown_once(
    picker: FinderDelegateView,
    failure: crate::source::SourceFailureView,
)
    ensures
        ({
            let after = picker.applied(crate::source::SourceUpdateView::Failed(failure));
            &&& after.entries == picker.entries
            &&& picker.entries.len() == 0 ==> after.status() == Some(failure.message())
            &&& picker.entries.len() > 0 ==> after.footer() == Some(failure.message())
                && after.status() is None
        }),
{
}

/// While the Source runs without a failure the empty list says so, and once it
/// has finished the list stands for itself.
pub proof fn law_status_follows_the_source(picker: FinderDelegateView, truncated: bool)
    requires
        picker.state.failure is None,
    ensures
        picker.status() is Some <==> picker.state.running,
        picker.applied(crate::source::SourceUpdateView::Finished { truncated }).status() is None,
        picker.applied(crate::source::SourceUpdateView::Finished { truncated }).footer() is Some
            <==> truncated,
{
}

/// An update of a run that was superseded changes nothing.
pub proof fn law_stale_updates_are_dropped(
    picker: FinderDelegateView,
    query: Seq<char>,
    update: crate::source::SourceUpdateView,
)
    requires
        picker.query is Some,
    ensures
        picker.queried(query).query_applied(picker.query->0.generation, update) == picker.queried(
            query,
        ),
{
}

/// After any number of further Queries the updates of a run are still dropped,
/// for as long as the numbers of generations last.
pub proof fn law_stale_updates_stay_dropped(
    picker: FinderDelegateView,
    queries: Seq<Seq<char>>,
    update: crate::source::SourceUpdateView,
)
    requires
        picker.query is Some,
        0 < queries.len() < 0x1_0000_0000_0000_0000,
    ensures
        queried_again(picker, queries).query_applied(picker.query->0.generation, update)
            == queried_again(picker, queries),
{
    lemma_queried_generation(picker, queries);
    crate::generation::law_later_generations_differ(picker.query->0.generation, queries.len());
}

/// The picker after a number of Queries.
pub open spec fn queried_again(
    picker: FinderDelegateView,
    queries: Seq<Seq<char>>,
) -> FinderDelegateView
    decreases queries.len(),
{
    if queries.len() == 0 {
        picker
    } else {
        queried_again(picker, queries.drop_last()).queried(queries.last())
    }
}

proof fn lemma_queried_generation(picker: FinderDelegateView, queries: Seq<Seq<char>>)
    requires
        picker.query is Some,
    ensures
        queried_again(picker, queries).query is Some,
        queried_again(picker, queries).query->0.generation == crate::generation::later(
            picker.query->0.generation,
            queries.len(),
        ),
    decreases queries.len(),
{
    if queries.len() > 0 {
        lemma_queried_generation(picker, queries.drop_last());
    }
}

/// What a Query starts, where its debounce is over after the given further
/// Queries.
pub open spec fn query_started(
    picker: FinderDelegateView,
    query: Seq<char>,
    queries: Seq<Seq<char>>,
) -> Option<SourceRequestView> {
    match picker.query_plan(query) {
        MatchPlanView::Run { generation, request } => queried_again(
            picker.queried(query),
            queries,
        ).started(generation, request),
        _ => None,
    }
}

/// A run is superseded by any number of further Queries, for as long as the
/// numbers of generations last, and by nothing but further Queries.
pub proof fn law_further_queries_supersede(picker: FinderDelegateView, queries: Seq<Seq<char>>)
    requires
        picker.query is Some,
        queries.len() < 0x1_0000_0000_0000_0000,
    ensures
        queried_again(picker, queries).is_superseded(picker.query->0.generation) <==> queries.len()
            > 0,
{
    lemma_queried_generation(picker, queries);
    if queries.len() > 0 {
        crate::generation::law_later_generations_differ(picker.query->0.generation, queries.len());
    }
}

/// A Query that is followed by no other starts one run, of the command of the
/// Source with the Query in its arguments. An empty Query starts none, and
/// neither does one that another Query follows before its debounce is over.
pub proof fn law_settled_query_starts_one_run(
    picker: FinderDelegateView,
    query: Seq<char>,
    queries: Seq<Seq<char>>,
)
    requires
        picker.query is Some,
        queries.len() < 0x1_0000_0000_0000_0000,
    ensures
        query_started(picker, query, queries) == (if query.len() > 0 && queries.len() == 0 {
            Some(
                SourceRequestView {
                    command: picker.config.source.command(),
                    args: crate::config::query_substituted(picker.config.source.args(), query),
                    run_on: picker.config.run_on,
                },
            )
        } else {
            None
        }),
{
    law_further_queries_supersede(picker.queried(query), queries);
}

/// What a Query starts in a local project is spawned as it is: the command of
/// the Source with the Query in its arguments, at the working directory.
pub proof fn law_settled_query_is_spawned(
    picker: FinderDelegateView,
    query: Seq<char>,
    environment: Option<crate::remote::EnvironmentView>,
)
    requires
        picker.query is Some,
        query.len() > 0,
    ensures
        ({
            let started = query_started(picker, query, Seq::empty());
            &&& started is Some
            &&& crate::remote::command_plan(
                false,
                started->0.run_on,
                started->0.command,
                started->0.args,
                picker.cwd,
                source_environment(environment),
            ) == crate::remote::CommandPlanView::Run(
                crate::remote::ResolvedCommandView {
                    command: picker.config.source.command(),
                    args: crate::config::query_substituted(picker.config.source.args(), query),
                    env: source_environment(environment),
                    cwd: Some(picker.cwd),
                },
            )
        }),
{
    law_settled_query_starts_one_run(picker, query, Seq::empty());
}

/// Nothing but a Query supersedes a run: not what its Source says, not the
/// matches that are listed, and not the selection.
pub proof fn law_only_queries_supersede(
    picker: FinderDelegateView,
    generation: Generation,
    update: crate::source::SourceUpdateView,
    of: Generation,
    matches: Seq<StringMatchView>,
    selected: Option<Seq<char>>,
    index: nat,
)
    requires
        picker.query is Some,
    ensures
        picker.query_applied(of, update).is_superseded(generation) == picker.is_superseded(
            generation,
        ),
        picker.applied(update).is_superseded(generation) == picker.is_superseded(generation),
        picker.installed(matches, selected).is_superseded(generation) == picker.is_superseded(
            generation,
        ),
        (FinderDelegateView { selected_index: index, ..picker }).is_superseded(generation)
            == picker.is_superseded(generation),
{
}

/// The list is always the answer to the current Query or empty: a new Query
/// leaves nothing of the one before, and an empty one runs nothing.
pub proof fn law_new_query_empties_the_list(picker: FinderDelegateView, query: Seq<char>)
    requires
        picker.query is Some,
    ensures
        picker.queried(query).entries.len() == 0,
        picker.queried(query).matches.len() == 0,
        picker.queried(query).selected_index == 0,
        picker.queried(query).state.failure is None,
        picker.query_plan(query) is Nothing <==> query.len() == 0,
        picker.queried(query).state.running == (query.len() > 0),
{
}

/// The updates of the run that a plan asks for are taken in, and what a
/// query-driven picker lists is then what the Source said, in order.
pub proof fn law_query_lists_what_the_source_says(
    picker: FinderDelegateView,
    query: Seq<char>,
    entries: Seq<Seq<char>>,
)
    requires
        picker.query is Some,
        query.len() > 0,
    ensures
        picker.query_plan(query) matches MatchPlanView::Run { generation, .. } && ({
            let listed = picker.queried(query).query_applied(
                generation,
                crate::source::SourceUpdateView::Entries(entries),
            );
            &&& listed.entries == entries
            &&& listed.matches.map_values(|m: StringMatchView| m.string) == entries
        }),
{
    let generation = crate::generation::following(picker.query->0.generation);
    let listed = picker.queried(query).query_applied(
        generation,
        crate::source::SourceUpdateView::Entries(entries),
    );
    assert(listed.entries =~= entries);
    assert(listed.matches.map_values(|m: StringMatchView| m.string) =~= entries);
}

/// What Confirm opens is what the Preview shows, where `parse` reads a text in
/// one way only: the same path, with the same position highlighted, or what is
/// wrong with that path.
pub proof fn law_preview_shows_what_confirm_opens<
    F: Fn(&str) -> PathWithPosition,
    K: Fn(&str) -> PathClass,
>(
    picker: FinderDelegateView,
    separator: char,
    parse: F,
    classify: K,
    remote: bool,
    begun: (crate::outcome::OutcomeRunView, crate::outcome::OutcomeActionView),
    update: Option<PreviewUpdateView>,
)
    requires
        forall|
            text: Seq<char>,
            a: crate::outcome::PathWithPositionView,
            b: crate::outcome::PathWithPositionView,
        |
            #[trigger] crate::outcome::may_parse(parse, text, a)
                && #[trigger] crate::outcome::may_parse(parse, text, b) ==> a == b,
        picker.config.preview is Some,
        picker.selected_entry() is Some,
        begun.1 is OpenPath,
        crate::outcome::is_begun(
            parse,
            separator,
            picker.config.outcome,
            picker.selected_entry()->0,
            picker.cwd,
            picker.config.delimiter,
            picker.config.run_on,
            remote,
            begun,
        ),
        is_previewed(picker, separator, parse, classify, update),
    ensures
        exists|class: PathClass| update == Some(
            #[trigger] previewed(begun.1->OpenPath_0, class),
        ),
{
    let entry = picker.selected_entry()->0;
    let opened = choose|
        target: Option<Result<crate::outcome::PathWithPositionView, Seq<char>>>,
    |
        #[trigger] crate::outcome::is_target(
            parse,
            separator,
            picker.config.outcome,
            entry,
            picker.cwd,
            picker.config.delimiter,
            target,
        ) && begun.1 == crate::outcome::target_action(target);
    let shown = choose|target: Option<Result<crate::outcome::PathWithPositionView, Seq<char>>>|
        #[trigger] crate::outcome::is_target(
            parse,
            separator,
            picker.config.outcome,
            entry,
            picker.cwd,
            picker.config.delimiter,
            target,
        ) && is_preview_of(classify, target, update);
    crate::outcome::law_one_target(
        parse,
        separator,
        picker.config.outcome,
        entry,
        picker.cwd,
        picker.config.delimiter,
        shown,
        opened,
    );
    assert(opened == Some(
        Ok::<crate::outcome::PathWithPositionView, Seq<char>>(begun.1->OpenPath_0),
    ));
}

/// Without a Query the Entries are listed as they came, up to the limit.
pub proof fn law_unfiltered_list_is_bounded(picker: FinderDelegateView)
    ensures
        picker.unfiltered().len() <= MAX_MATCHES,
        picker.unfiltered().len() <= picker.entries.len(),
        picker.entries.len() <= MAX_MATCHES ==> picker.unfiltered().len() == picker.entries.len(),
        forall|i: int|
            0 <= i < picker.unfiltered().len() ==> (#[trigger] picker.unfiltered()[i]).string
                == picker.entries[i] && picker.unfiltered()[i].candidate_id == i,
{
}

/// The picker of a Source that runs once, after all of `updates`.
pub open spec fn applied_all(
    picker: FinderDelegateView,
    updates: Seq<crate::source::SourceUpdateView>,
) -> FinderDelegateView
    decreases updates.len(),
{
    if updates.len() == 0 {
        picker
    } else {
        applied_all(picker, updates.drop_last()).applied(updates.last())
    }
}

proof fn lemma_applied_all(
    picker: FinderDelegateView,
    updates: Seq<crate::source::SourceUpdateView>,
)
    ensures
        applied_all(picker, updates).entries == picker.entries + crate::source::entries_in(updates),
    decreases updates.len(),
{
    if updates.len() > 0 {
        lemma_applied_all(picker, updates.drop_last());
        let before = crate::source::entries_in(updates.drop_last());
        if let crate::source::SourceUpdateView::Entries(entries) = updates.last() {
            assert(picker.entries + before + entries == picker.entries + (before + entries));
        }
    } else {
        assert(picker.entries + Seq::<Seq<char>>::empty() == picker.entries);
    }
}

/// A Source that has run its course has all its lines among the Entries of the
/// picker, each once and in order, and the picker no longer says that it runs.
pub proof fn law_picker_holds_the_whole_run(
    config: crate::config::FinderConfigView,
    cwd: Seq<char>,
    command: Seq<char>,
    history: Seq<crate::source::SourceHappeningView>,
)
    requires
        crate::source::run_after(command, history).phase == crate::source::SourcePhase::Done,
    ensures
        applied_all(
            FinderDelegateView::new(config, cwd),
            crate::source::run_updates(command, history),
        ).entries == crate::source::entries_of(crate::source::lines_heard(command, history)),
        !applied_all(
            FinderDelegateView::new(config, cwd),
            crate::source::run_updates(command, history),
        ).state.running,
{
    let picker = FinderDelegateView::new(config, cwd);
    let updates = crate::source::run_updates(command, history);
    lemma_applied_all(picker, updates);
    crate::source::law_every_line_once(command, history);
    crate::source::law_one_terminal_update_last(command, history);
    assert(picker.entries + crate::source::entries_in(updates) == crate::source::entries_in(
        updates,
    ));
}

/// The Entries that are listed, in order.
pub open spec fn listed(picker: FinderDelegateView) -> Seq<Seq<char>> {
    Seq::new(picker.matches.len(), |i: int| picker.matches[i].string)
}

/// A batch of the current run of a query-driven Source is put behind what is
/// listed, whatever that is, and behind the Entries; nothing in it is marked,
/// and nothing else of the picker changes.
pub proof fn law_batches_extend_the_list(
    picker: FinderDelegateView,
    entries: Seq<Seq<char>>,
)
    requires
        picker.query is Some,
    ensures
        ({
            let after = picker.query_applied(
                picker.query->0.generation,
                crate::source::SourceUpdateView::Entries(entries),
            );
            &&& listed(after) == listed(picker) + entries
            &&& after.entries == picker.entries + entries
            &&& after.matches.len() == picker.matches.len() + entries.len()
            &&& forall|i: int|
                0 <= i < picker.matches.len() ==> after.matches[i] == #[trigger] picker.matches[i]
            &&& forall|i: int|
                picker.matches.len() <= i < after.matches.len() ==> (#[trigger] after.matches[i]).positions.len()
                    == 0 && after.matches[i].candidate_id == 0
            &&& after.selected_index == picker.selected_index
            &&& after.state == picker.state
            &&& after.config == picker.config
            &&& after.cwd == picker.cwd
            &&& after.query == picker.query
            &&& after.keep_selected_entry == picker.keep_selected_entry
        }),
{
    let after = picker.query_applied(
        picker.query->0.generation,
        crate::source::SourceUpdateView::Entries(entries),
    );
    assert(listed(after) =~= listed(picker) + entries);
}

/// An update of any run but the current one leaves a query-driven picker as it
/// is.
pub proof fn law_other_runs_are_not_heard(
    picker: FinderDelegateView,
    generation: Generation,
    update: crate::source::SourceUpdateView,
)
    requires
        picker.query is Some,
        picker.query->0.generation != generation,
    ensures
        picker.query_applied(generation, update) == picker,
{
}

/// A query-driven picker after all of the updates of its current run.
pub open spec fn heard(
    picker: FinderDelegateView,
    updates: Seq<crate::source::SourceUpdateView>,
) -> FinderDelegateView
    decreases updates.len(),
{
    if updates.len() == 0 {
        picker
    } else {
        heard(picker, updates.drop_last()).query_applied(
            picker.query->0.generation,
            updates.last(),
        )
    }
}

/// Whatever the run for a Query says, in however many batches, all its Entries
/// are listed, each once and in order, and nothing else is: what is listed is
/// always what there is.
pub proof fn law_query_lists_every_batch(
    picker: FinderDelegateView,
    query: Seq<char>,
    updates: Seq<crate::source::SourceUpdateView>,
)
    requires
        picker.query is Some,
    ensures
        listed(heard(picker.queried(query), updates)) == crate::source::entries_in(updates),
        heard(picker.queried(query), updates).entries == crate::source::entries_in(updates),
        heard(picker.queried(query), updates).selected_index == 0,
    decreases updates.len(),
{
    let start = picker.queried(query);
    lemma_heard_generation(start, updates);
    if updates.len() == 0 {
        assert(listed(start) =~= Seq::<Seq<char>>::empty());
        assert(start.entries =~= Seq::<Seq<char>>::empty());
    } else {
        law_query_lists_every_batch(picker, query, updates.drop_last());
        let before = heard(start, updates.drop_last());
        lemma_heard_generation(start, updates.drop_last());
        match updates.last() {
            crate::source::SourceUpdateView::Entries(entries) => {
                law_batches_extend_the_list(before, entries);
            },
            _ => {
                assert(heard(start, updates).matches == before.matches);
            },
        }
    }
}

proof fn lemma_heard_generation(
    picker: FinderDelegateView,
    updates: Seq<crate::source::SourceUpdateView>,
)
    requires
        picker.query is Some,
    ensures
        heard(picker, updates).query == picker.query,
    decreases updates.len(),
{
    if updates.len() > 0 {
        lemma_heard_generation(picker, updates.drop_last());
    }
}

/// What a run ends with tells how it went and takes nothing away: a picker that
/// hears it no longer runs, shows the failure where there is one, and says that
/// it was cut short where it was.
pub proof fn law_the_end_of_a_run_is_noted(
    picker: FinderDelegateView,
    truncated: bool,
    failure: crate::source::SourceFailureView,
)
    requires
        picker.query is Some,
    ensures
        ({
            let generation = picker.query->0.generation;
            let finished = crate::source::SourceUpdateView::Finished { truncated };
            let failed = crate::source::SourceUpdateView::Failed(failure);
            &&& picker.query_applied(generation, finished).state == (SourceStateView {
                running: false,
                truncated,
                failure: picker.state.failure,
            })
            &&& picker.query_applied(generation, failed).state == (SourceStateView {
                running: false,
                truncated: picker.state.truncated,
                failure: Some(failure.message()),
            })
            &&& picker.applied(finished).state == picker.query_applied(generation, finished).state
            &&& picker.applied(failed).state == picker.query_applied(generation, failed).state
            &&& picker.query_applied(generation, finished) == (FinderDelegateView {
                state: picker.applied(finished).state,
                ..picker
            })
            &&& picker.query_applied(generation, failed) == (FinderDelegateView {
                state: picker.applied(failed).state,
                ..picker
            })
        }),
{
}

/// What a Source that runs once says extends the Entries and asks for the
/// selection to be kept; the list itself and all else wait for the next match.
pub proof fn law_updates_wait_for_the_next_match(
    picker: FinderDelegateView,
    update: crate::source::SourceUpdateView,
)
    ensures
        ({
            let after = picker.applied(update);
            &&& after.entries == picker.entries + crate::source::entries_in(seq![update])
            &&& after.matches == picker.matches
            &&& after.selected_index == picker.selected_index
            &&& after.config == picker.config
            &&& after.cwd == picker.cwd
            &&& after.query == picker.query
            &&& after.keep_selected_entry
            &&& update is Entries ==> after.state == picker.state
        }),
{
    crate::source::law_entries_in_updates(Seq::empty(), update);
    assert(Seq::<crate::source::SourceUpdateView>::empty().push(update) =~= seq![update]);
    assert(picker.entries + Seq::<Seq<char>>::empty() =~= picker.entries);
    if let crate::source::SourceUpdateView::Entries(entries) = update {
        assert(Seq::<Seq<char>>::empty() + entries =~= entries);
    }
}

/// A Query makes a query-driven picker wait for it and for nothing before it,
/// under the next generation; a picker keeps its Finder and its directory.
pub proof fn law_a_query_is_awaited(picker: FinderDelegateView, query: Seq<char>)
    requires
        picker.query is Some,
    ensures
        ({
            let after = picker.queried(query);
            let old_generation = picker.query->0.generation;
            &&& after.config == picker.config
            &&& after.cwd == picker.cwd
            &&& after.keep_selected_entry == picker.keep_selected_entry
            &&& after.query is Some
            &&& after.query->0.generation as int == (old_generation + 1) % 0x1_0000_0000_0000_0000
            &&& query.len() > 0 ==> after.query->0.pending_query == Some(query)
                && after.query->0.wakeable
            &&& query.len() == 0 ==> after.query->0.pending_query is None
                && after.query->0.wakeable == picker.query->0.wakeable
            &&& after.state == (SourceStateView {
                running: query.len() > 0,
                truncated: false,
                failure: None,
            })
        }),
{
}

/// What is asked of a Source is its own command under its own policy, with the
/// given arguments.
pub proof fn law_request_is_of_the_source(picker: FinderDelegateView, args: Seq<Seq<char>>)
    ensures
        picker.request(args).command == picker.config.source.command(),
        picker.request(args).args == args,
        picker.request(args).run_on == picker.config.run_on,
{
}

/// A Query of a picker whose Source ran once is matched against the Entries, up
/// to the limit; without one the first Entries are listed. The selection is
/// carried over exactly where Entries have arrived since it was made.
pub proof fn law_queries_filter_the_entries(picker: FinderDelegateView, query: Seq<char>)
    ensures
        ({
            let kept = if picker.keep_selected_entry {
                picker.selected_entry()
            } else {
                None
            };
            match picker.filter_plan(query) {
                MatchPlanView::List { matches, selected } => query.len() == 0 && selected == kept
                    && matches.len() == (if picker.entries.len() < 1000 {
                    picker.entries.len()
                } else {
                    1000
                }) && forall|i: int|
                    0 <= i < matches.len() ==> (#[trigger] matches[i]).string == picker.entries[i]
                        && matches[i].candidate_id == i && matches[i].positions.len() == 0,
                MatchPlanView::Match { query: asked, limit, selected } => query.len() > 0 && asked
                    == query && limit == 1000 && selected == kept,
                _ => false,
            }
        }),
{
}

/// New matches are listed as they are given. The selection goes to the first
/// place at which the carried Entry is listed, and to the first match where
/// none is carried or it is not listed; nothing else changes.
pub proof fn law_matches_are_listed_as_given(
    picker: FinderDelegateView,
    matches: Seq<StringMatchView>,
    selected: Option<Seq<char>>,
)
    ensures
        ({
            let after = picker.installed(matches, selected);
            &&& after.matches == matches
            &&& after.entries == picker.entries
            &&& after.state == picker.state
            &&& after.config == picker.config
            &&& after.cwd == picker.cwd
            &&& after.query == picker.query
            &&& after.keep_selected_entry == picker.keep_selected_entry
            &&& selected is None ==> after.selected_index == 0
            &&& after.selected_index > 0 ==> after.selected_index < matches.len() && selected
                == Some(matches[after.selected_index as int].string)
            &&& forall|j: int|
                0 <= j < matches.len() && selected == Some((#[trigger] matches[j]).string)
                    ==> after.selected_index <= j
        }),
{
    if let Some(entry) = selected {
        law_place_is_the_first(matches, entry);
    }
}

/// The selected Entry is the one listed at the selected place.
pub proof fn law_selection_is_a_place_in_the_list(picker: FinderDelegateView)
    ensures
        picker.selected_index < picker.matches.len() ==> picker.selected_entry() == Some(
            picker.matches[picker.selected_index as int].string,
        ),
        picker.selected_index >= picker.matches.len() ==> picker.selected_entry() is None,
{
}

/// What is said of a Source: its failure above an empty list and below Entries,
/// else that it runs above and that it was cut short below, else nothing; and
/// where nothing is said, that nothing matches.
pub proof fn law_what_is_said_of_a_source(picker: FinderDelegateView)
    ensures
        picker.state.failure is Some && picker.entries.len() == 0 ==> picker.status()
            == picker.state.failure,
        picker.state.failure is Some && picker.entries.len() > 0 ==> picker.footer()
            == picker.state.failure,
        picker.state.failure is None || picker.entries.len() > 0 ==> picker.status() == (
        if picker.state.running {
            Some("Running…"@)
        } else {
            None
        }),
        picker.state.failure is None || picker.entries.len() == 0 ==> picker.footer() == (
        if picker.state.truncated {
            Some("Showing the first "@ + crate::text::digits(100_000) + " entries"@)
        } else {
            None
        }),
        picker.status() matches Some(status) ==> picker.no_matches() == status,
        picker.status() is None ==> picker.no_matches() == "No matches"@,
{
}

/// A picker opens with its Finder and its directory, with nothing listed and its
/// Source running, and waits for a Query exactly where its Source needs one.
pub proof fn law_a_picker_opens_empty(
    config: crate::config::FinderConfigView,
    cwd: Seq<char>,
)
    ensures
        ({
            let picker = FinderDelegateView::new(config, cwd);
            &&& picker.config == config
            &&& picker.cwd == cwd
            &&& picker.entries.len() == 0
            &&& picker.matches.len() == 0
            &&& picker.selected_entry() is None
            &&& picker.status() == Some("Running…"@)
            &&& picker.footer() is None
            &&& !picker.keep_selected_entry
            &&& picker.query is Some <==> config.source is Query
            &&& picker.query matches Some(state) ==> state.generation == 0
                && state.pending_query is None && !state.wakeable
        }),
{
}

/// A file is previewed by its path, and so is a path of which nothing is known;
/// its position is handed on whole where it has a row. Of a directory and of a
/// path that is gone it is said, by the path, what they are.
pub proof fn law_preview_depends_on_what_the_path_is(
    target: crate::outcome::PathWithPositionView,
)
    ensures
        previewed(target, PathClass::File) == previewed(target, PathClass::Outside),
        previewed(target, PathClass::File) matches PreviewUpdateView::Path { path, position }
            && path == target.path && (target.row is Some ==> position == Some(target)) && (
        target.row is None ==> position is None),
        previewed(target, PathClass::Directory).text() == Some(target.path + " is a directory."@),
        previewed(target, PathClass::Gone).text() == Some(target.path + " no longer exists."@),
{
    reveal_strlit(" ");
    reveal_strlit(".");
    reveal_strlit("is a directory");
    reveal_strlit("no longer exists");
    reveal_strlit(" is a directory.");
    reveal_strlit(" no longer exists.");
    assert(" "@ + "is a directory"@ + "."@ =~= " is a directory."@);
    assert(" "@ + "no longer exists"@ + "."@ =~= " no longer exists."@);
    assert(target.path + " "@ + "is a directory"@ + "."@ =~= target.path + (" "@
        + "is a directory"@ + "."@));
    assert(target.path + " "@ + "no longer exists"@ + "."@ =~= target.path + (" "@
        + "no longer exists"@ + "."@));
}

/// A Preview of an Entry without the Field that is asked for says so, and
/// where no path is opened nothing is previewed.
pub proof fn law_preview_reports_errors<K: Fn(&str) -> PathClass>(
    classify: K,
    error: Seq<char>,
    update: Option<PreviewUpdateView>,
)
    ensures
        is_preview_of(classify, Some(Err(error)), update) ==> update is Some && update->0.text()
            == Some(error),
        is_preview_of(classify, None, update) ==> update is None,
{
}

/// What is previewed of a path is decided by what the project says of that very
/// path.
pub proof fn law_preview_asks_about_the_path<K: Fn(&str) -> PathClass>(
    classify: K,
    target: crate::outcome::PathWithPositionView,
    class: PathClass,
    update: Option<PreviewUpdateView>,
)
    requires
        forall|path: &str, answer: PathClass|
            path@ == target.path && #[trigger] call_ensures(classify, (path,), answer) ==> answer
                == class,
        is_preview_of(classify, Some(Ok(target)), update),
    ensures
        update == Some(previewed(target, class)),
{
}

/// A Source runs in the environment of the project, and in an empty one where
/// the project has none.
pub proof fn law_source_runs_in_the_environment(environment: crate::remote::EnvironmentView)
    ensures
        source_environment(Some(environment)) == environment,
        source_environment(None).len() == 0,
{
}

/// Without a Preview, and without a selected Entry, nothing is previewed.
pub proof fn law_nothing_is_previewed_without_an_entry<
    F: Fn(&str) -> PathWithPosition,
    K: Fn(&str) -> PathClass,
>(
    picker: FinderDelegateView,
    separator: char,
    parse: F,
    classify: K,
    update: Option<PreviewUpdateView>,
)
    requires
        is_previewed(picker, separator, parse, classify, update),
        picker.config.preview is None || picker.selected_entry() is None,
    ensures
        update is None,
{
}

} // verus!
