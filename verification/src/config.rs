//! What a Finder is made of: where its Entries come from, what choosing one
//! does, what is previewed, and where its commands run.
use vstd::prelude::*;

use crate::json::Json;
use crate::template::WHOLE_ENTRY;
use crate::text::{contains, replace};

verus! {

/// Where a Finder's Entries come from.
#[derive(Debug, Clone, PartialEq)]
pub enum Source {
    /// Runs once at open; the Query filters its output client-side.
    Command { command: String, args: Vec<String> },
    /// Re-runs per Query with [`QUERY_PLACEHOLDER`] substituted into `args`.
    /// Rejected at parse time if no arg carries the placeholder.
    Query { command: String, args: Vec<String> },
}

/// What a [`Source`] is.
pub enum SourceView {
    Command { command: Seq<char>, args: Seq<Seq<char>> },
    Query { command: Seq<char>, args: Seq<Seq<char>> },
}

impl DeepView for Source {
    type V = SourceView;

    open spec fn deep_view(&self) -> SourceView {
        match self {
            Source::Command { command, args } => SourceView::Command {
                command: command@,
                args: args.deep_view(),
            },
            Source::Query { command, args } => SourceView::Query {
                command: command@,
                args: args.deep_view(),
            },
        }
    }
}

impl SourceView {
    /// The program it runs.
    pub open spec fn command(self) -> Seq<char> {
        match self {
            SourceView::Command { command, .. } => command,
            SourceView::Query { command, .. } => command,
        }
    }

    /// The arguments as they were written.
    pub open spec fn args(self) -> Seq<Seq<char>> {
        match self {
            SourceView::Command { args, .. } => args,
            SourceView::Query { args, .. } => args,
        }
    }
}

impl Source {
    /// The program it runs.
    pub fn command(&self) -> (command: &str)
        ensures
            command@ == self.deep_view().command(),
    {
        match self {
            Source::Command { command, .. } => command.as_str(),
            Source::Query { command, .. } => command.as_str(),
        }
    }

    /// The arguments as they were written.
    pub fn args(&self) -> (args: &[String])
        ensures
            args.deep_view() == self.deep_view().args(),
    {
        let args = match self {
            Source::Command { args, .. } => args,
            Source::Query { args, .. } => args,
        };
        let slice = args.as_slice();
        assert(slice.deep_view() == args.deep_view());
        slice
    }

    /// Whether every Query runs the command anew.
    pub fn is_query_driven(&self) -> (driven: bool)
        ensures
            driven == (self.deep_view() is Query),
    {
        match self {
            Source::Query { .. } => true,
            Source::Command { .. } => false,
        }
    }
}

/// What stands for the typed Query in the arguments of a `query` Source.
pub const QUERY_PLACEHOLDER: &'static str = "{query}";

/// The arguments with the Query put in place of every placeholder.
pub open spec fn query_substituted(args: Seq<Seq<char>>, query: Seq<char>) -> Seq<Seq<char>> {
    args.map_values(|arg: Seq<char>| crate::text::replaced(arg, QUERY_PLACEHOLDER@, query))
}

/// Whether some argument holds the placeholder.
pub open spec fn holds_query_placeholder(args: Seq<Seq<char>>) -> bool {
    exists|i: int|
        0 <= i < args.len() && crate::text::has_occurrence(#[trigger] args[i], QUERY_PLACEHOLDER@)
}

/// Replaces every [`QUERY_PLACEHOLDER`] in `args` with `query`.
pub fn substitute_query(args: &[String], query: &str) -> (out: Vec<String>)
    ensures
        out.deep_view() == query_substituted(args.deep_view(), query@),
{
    proof {
        reveal_strlit("{query}");
    }
    let mut out: Vec<String> = Vec::new();
    let mut i: usize = 0;
    while i < args.len()
        invariant
            i <= args@.len(),
            out@.len() == i,
            QUERY_PLACEHOLDER@.len() > 0,
            forall|j: int|
                0 <= j < i ==> (#[trigger] out@[j])@ == crate::text::replaced(
                    args@[j]@,
                    QUERY_PLACEHOLDER@,
                    query@,
                ),
        decreases args@.len() - i,
    {
        out.push(replace(args[i].as_str(), QUERY_PLACEHOLDER, query));
        i += 1;
    }
    assert(out.deep_view() =~= query_substituted(args.deep_view(), query@));
    out
}

/// Whether some argument holds the placeholder.
pub fn has_query_placeholder(args: &[String]) -> (found: bool)
    ensures
        found == holds_query_placeholder(args.deep_view()),
{
    proof {
        reveal_strlit("{query}");
    }
    let ghost all = args.deep_view();
    let mut i: usize = 0;
    while i < args.len()
        invariant
            i <= args@.len(),
            all == args.deep_view(),
            QUERY_PLACEHOLDER@.len() > 0,
            forall|j: int|
                0 <= j < i ==> !crate::text::has_occurrence(#[trigger] all[j], QUERY_PLACEHOLDER@),
        decreases args@.len() - i,
    {
        assert(all[i as int] == args@[i as int]@);
        if contains(args[i].as_str(), QUERY_PLACEHOLDER) {
            return true;
        }
        i += 1;
    }
    false
}

/// What choosing an Entry does.
#[derive(Debug, Clone, PartialEq)]
pub enum Outcome {
    OpenPath {
        /// Defaults to the whole Entry.
        path: Option<String>,
    },
    /// Like [`Outcome::OpenPath`], but the path carries a trailing `:row:col`
    /// and the editor jumps there.
    OpenPathAtPosition { path: Option<String> },
    DispatchAction { action: String, args: Option<Json> },
    RunCommand { command: String, args: Vec<String> },
}

/// What an [`Outcome`] is.
pub enum OutcomeView {
    OpenPath { path: Option<Seq<char>> },
    OpenPathAtPosition { path: Option<Seq<char>> },
    DispatchAction { action: Seq<char>, args: Option<crate::json::JsonView> },
    RunCommand { command: Seq<char>, args: Seq<Seq<char>> },
}

impl DeepView for Outcome {
    type V = OutcomeView;

    open spec fn deep_view(&self) -> OutcomeView {
        match self {
            Outcome::OpenPath { path } => OutcomeView::OpenPath { path: path.deep_view() },
            Outcome::OpenPathAtPosition { path } => OutcomeView::OpenPathAtPosition {
                path: path.deep_view(),
            },
            Outcome::DispatchAction { action, args } => OutcomeView::DispatchAction {
                action: action@,
                args: args.deep_view(),
            },
            Outcome::RunCommand { command, args } => OutcomeView::RunCommand {
                command: command@,
                args: args.deep_view(),
            },
        }
    }
}

impl OutcomeView {
    /// The template naming the path, where the Outcome opens one.
    pub open spec fn path_template(self) -> Option<Seq<char>> {
        match self {
            OutcomeView::OpenPath { path } | OutcomeView::OpenPathAtPosition { path } => Some(
                match path {
                    Some(path) => path,
                    None => WHOLE_ENTRY@,
                },
            ),
            _ => None,
        }
    }
}

impl Outcome {
    /// The template naming the path, so the Preview shows what Confirm opens.
    pub fn path_template(&self) -> (template: Option<&str>)
        ensures
            template.deep_view() == self.deep_view().path_template(),
    {
        match self {
            Outcome::OpenPath { path } | Outcome::OpenPathAtPosition { path } => match path {
                Some(path) => Some(path.as_str()),
                None => Some(WHOLE_ENTRY),
            },
            Outcome::DispatchAction { .. } | Outcome::RunCommand { .. } => None,
        }
    }

    /// Whether the path carries a trailing `:row:col`.
    pub fn path_carries_position(&self) -> (carries: bool)
        ensures
            carries == (self.deep_view() is OpenPathAtPosition),
    {
        match self {
            Outcome::OpenPathAtPosition { .. } => true,
            _ => false,
        }
    }
}

/// What is shown of the selected Entry.
#[derive(Debug, Clone, Copy, PartialEq, Eq, Structural)]
pub enum Preview {
    Path,
}

impl DeepView for Preview {
    type V = Preview;

    open spec fn deep_view(&self) -> Preview {
        *self
    }
}

/// Where a Finder's command-spawning work (its Source and any `run_command`
/// Outcome) executes.
#[derive(Debug, Clone, Copy, PartialEq, Eq, Structural)]
pub enum RunOn {
    Auto,
    Local,
}

impl DeepView for RunOn {
    type V = RunOn;

    open spec fn deep_view(&self) -> RunOn {
        *self
    }
}

impl Default for RunOn {
    fn default() -> (run_on: RunOn)
        ensures
            run_on == RunOn::Auto,
    {
        RunOn::Auto
    }
}

/// A Finder, ready to be opened.
#[derive(Debug, Clone, PartialEq)]
pub struct FinderConfig {
    pub name: String,
    pub label: String,
    pub placeholder: String,
    pub source: Source,
    pub outcome: Outcome,
    pub preview: Option<Preview>,
    pub delimiter: Option<String>,
    pub run_on: RunOn,
}

/// What a [`FinderConfig`] is.
pub struct FinderConfigView {
    pub name: Seq<char>,
    pub label: Seq<char>,
    pub placeholder: Seq<char>,
    pub source: SourceView,
    pub outcome: OutcomeView,
    pub preview: Option<Preview>,
    pub delimiter: Option<Seq<char>>,
    pub run_on: RunOn,
}

impl DeepView for FinderConfig {
    type V = FinderConfigView;

    open spec fn deep_view(&self) -> FinderConfigView {
        FinderConfigView {
            name: self.name@,
            label: self.label@,
            placeholder: self.placeholder@,
            source: self.source.deep_view(),
            outcome: self.outcome.deep_view(),
            preview: self.preview,
            delimiter: self.delimiter.deep_view(),
            run_on: self.run_on,
        }
    }
}

// ---------------------------------------------------------------------------
// Laws
// ---------------------------------------------------------------------------
/// Every argument keeps its place, and one without the placeholder is passed
/// on as it is.
pub proof fn law_query_goes_only_to_placeholders(args: Seq<Seq<char>>, query: Seq<char>, i: int)
    requires
        0 <= i < args.len(),
    ensures
        query_substituted(args, query).len() == args.len(),
        !crate::text::has_occurrence(args[i], QUERY_PLACEHOLDER@) ==> query_substituted(
            args,
            query,
        )[i] == args[i],
{
    reveal_strlit("{query}");
    if !crate::text::has_occurrence(args[i], QUERY_PLACEHOLDER@) {
        crate::text::lemma_replaced_none(args[i], QUERY_PLACEHOLDER@, query);
    }
}

/// An argument that is the placeholder becomes the Query, whatever the Query
/// holds.
pub proof fn law_placeholder_becomes_the_query(args: Seq<Seq<char>>, query: Seq<char>, i: int)
    requires
        0 <= i < args.len(),
        args[i] == QUERY_PLACEHOLDER@,
    ensures
        query_substituted(args, query)[i] == query,
{
    reveal_strlit("{query}");
    let pat = QUERY_PLACEHOLDER@;
    assert(crate::text::occurs_at(pat, pat, 0)) by {
        assert(pat.subrange(0, pat.len() as int) == pat);
    }
    crate::text::lemma_occurrence_is(pat, pat, 0);
    crate::text::lemma_split_step(pat, pat);
    let rest = pat.skip(pat.len() as int);
    assert(rest == Seq::<char>::empty());
    crate::text::lemma_occurrence(rest, pat);
    crate::text::lemma_split_step(rest, pat);
    assert(pat.take(0) == Seq::<char>::empty());
    let pieces = crate::text::split(pat, pat);
    assert(pieces == seq![Seq::<char>::empty(), Seq::<char>::empty()]);
    assert(pieces.skip(1) == seq![Seq::<char>::empty()]);
    assert(crate::text::join(pieces.skip(1), query) == Seq::<char>::empty());
    assert(crate::text::join(pieces, query) == query);
}

/// Arguments without any placeholder ignore the Query.
pub proof fn law_query_is_ignored_without_placeholder(
    args: Seq<Seq<char>>,
    query: Seq<char>,
)
    requires
        !holds_query_placeholder(args),
    ensures
        query_substituted(args, query) == args,
{
    assert forall|i: int| 0 <= i < args.len() implies query_substituted(args, query)[i]
        == args[i] by {
        law_query_goes_only_to_placeholders(args, query, i);
        assert(!crate::text::has_occurrence(args[i], QUERY_PLACEHOLDER@));
    }
    assert(query_substituted(args, query) =~= args);
}

/// The Query stands in place of the first placeholder of an argument, what comes
/// before it is kept, and what comes behind it is treated as an argument of its
/// own.
pub proof fn law_query_replaces_each_placeholder(
    args: Seq<Seq<char>>,
    query: Seq<char>,
    i: int,
    before: Seq<char>,
    after: Seq<char>,
)
    requires
        0 <= i < args.len(),
        args[i] == before + "{query}"@ + after,
        forall|j: int|
            0 <= j < before.len() ==> !crate::text::occurs_at(args[i], "{query}"@, j),
    ensures
        query_substituted(args, query)[i] == before + query + query_substituted(
            seq![after],
            query,
        )[0],
{
    reveal_strlit("{query}");
    crate::text::law_replacing_goes_from_the_left(before, "{query}"@, after, query);
    assert(seq![after][0] == after);
}

/// A Source names the command and the arguments that it was written with, of
/// whichever kind it is.
pub proof fn law_source_keeps_its_command(command: Seq<char>, args: Seq<Seq<char>>)
    ensures
        (SourceView::Command { command, args }).command() == command,
        (SourceView::Query { command, args }).command() == command,
        (SourceView::Command { command, args }).args() == args,
        (SourceView::Query { command, args }).args() == args,
{
}

/// An Outcome opens the path that it was written with, the whole Entry where it
/// was written with none, and no path where it is of another kind.
pub proof fn law_outcome_keeps_its_path(outcome: OutcomeView)
    ensures
        match outcome {
            OutcomeView::OpenPath { path: Some(path) } => outcome.path_template() == Some(path),
            OutcomeView::OpenPathAtPosition { path: Some(path) } => outcome.path_template() == Some(
                path,
            ),
            OutcomeView::OpenPath { path: None } => outcome.path_template() == Some("{}"@),
            OutcomeView::OpenPathAtPosition { path: None } => outcome.path_template() == Some(
                "{}"@,
            ),
            _ => outcome.path_template() is None,
        },
{
}

} // verus!
