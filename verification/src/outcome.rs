//! What choosing an Entry does, one step at a time: the editor performs the
//! action it is given and answers with what came of it.
use vstd::prelude::*;

use crate::config::{Outcome, RunOn};
use crate::json::{substitute_json, Json};
use crate::platform::Platform;
use crate::remote::{
    resolve_command, wrap_command, CommandPlan, CommandTemplate, Environment, ResolvedCommand,
    TransportRequest,
};
use crate::template::{substitute, substitute_args};
use crate::text::{blank, i64_text};

verus! {

/// A path, with a row and a column where the text that named it carried them.
/// Both count from one.
#[derive(Debug, PartialEq)]
pub struct PathWithPosition {
    pub path: String,
    pub row: Option<u32>,
    pub column: Option<u32>,
}

/// What a [`PathWithPosition`] is.
pub struct PathWithPositionView {
    pub path: Seq<char>,
    pub row: Option<u32>,
    pub column: Option<u32>,
}

impl DeepView for PathWithPosition {
    type V = PathWithPositionView;

    open spec fn deep_view(&self) -> PathWithPositionView {
        PathWithPositionView { path: self.path@, row: self.row, column: self.column }
    }
}

impl Clone for PathWithPosition {
    fn clone(&self) -> (out: PathWithPosition)
        ensures
            out.deep_view() == self.deep_view(),
    {
        PathWithPosition { path: self.path.clone(), row: self.row, column: self.column }
    }
}

/// Resolves an Entry that is a path against the working directory, as the
/// machine that the program runs on writes paths.
pub fn resolve_entry_path(entry: &str, cwd: &str) -> (path: String)
    ensures
        exists|separator: char|
            path@ == #[trigger] crate::platform::entry_path(separator, entry@, cwd@),
{
    let platform = Platform::current();
    platform.resolve(entry, cwd)
}

/// The text that names the path of the Entry, or the sentence that says which
/// Field it lacks; nothing where the Outcome opens no path.
pub open spec fn outcome_path_text(
    outcome: crate::config::OutcomeView,
    entry: Seq<char>,
    delimiter: Option<Seq<char>>,
) -> Option<Result<Seq<char>, Seq<char>>> {
    match outcome.path_template() {
        Some(template) => Some(
            match crate::template::substituted(template, entry, delimiter) {
                Ok(text) => Ok(text),
                Err(error) => Err(error.message()),
            },
        ),
        None => None,
    }
}

/// Whether `parse` may read `text` as `position`.
pub open spec fn may_parse<F: Fn(&str) -> PathWithPosition>(
    parse: F,
    text: Seq<char>,
    position: PathWithPositionView,
) -> bool {
    exists|s: &str, p: PathWithPosition|
        s@ == text && #[trigger] call_ensures(parse, (s,), p) && p.deep_view() == position
}

/// Whether `target` is what the Outcome opens for the Entry: where the path
/// carries a position, as `parse` reads it; else the whole text is the path.
/// Either way the path is resolved against the working directory, as a machine
/// with the given separator does.
pub open spec fn is_target<F: Fn(&str) -> PathWithPosition>(
    parse: F,
    separator: char,
    outcome: crate::config::OutcomeView,
    entry: Seq<char>,
    cwd: Seq<char>,
    delimiter: Option<Seq<char>>,
    target: Option<Result<PathWithPositionView, Seq<char>>>,
) -> bool {
    match outcome_path_text(outcome, entry, delimiter) {
        None => target is None,
        Some(Err(error)) => target == Some(Err::<PathWithPositionView, Seq<char>>(error)),
        Some(Ok(text)) => if outcome is OpenPathAtPosition {
            exists|read: PathWithPositionView| #[trigger]
                may_parse(parse, text, read) && target == Some(
                    Ok::<PathWithPositionView, Seq<char>>(
                        PathWithPositionView { path: crate::platform::entry_path(separator, read.path, cwd), ..read },
                    ),
                )
        } else {
            target == Some(
                Ok::<PathWithPositionView, Seq<char>>(
                    PathWithPositionView {
                        path: crate::platform::entry_path(separator, text, cwd),
                        row: None,
                        column: None,
                    },
                ),
            )
        },
    }
}

/// What a resolved target says.
pub open spec fn target_view(target: Option<Result<PathWithPosition, String>>) -> Option<
    Result<PathWithPositionView, Seq<char>>,
> {
    match target {
        Some(target) => Some(crate::model::result_view(target)),
        None => None,
    }
}

/// Finds what the Outcome opens for an Entry. The Preview resolves the selected
/// Entry the same way, so what it shows is what Confirm will open. `parse`
/// reads a trailing `:row:col` off a path.
pub fn resolve_outcome_path<F: Fn(&str) -> PathWithPosition>(
    outcome: &Outcome,
    entry: &str,
    cwd: &str,
    delimiter: Option<&str>,
    platform: Platform,
    parse: F,
) -> (target: Option<Result<PathWithPosition, String>>)
    requires
        forall|s: &str| #[trigger] call_requires(parse, (s,)),
    ensures
        is_target(
            parse,
            platform@,
            outcome.deep_view(),
            entry@,
            cwd@,
            delimiter.deep_view(),
            target_view(target),
        ),
{
    let template = match outcome.path_template() {
        Some(template) => template,
        None => return None,
    };
    let resolved = match substitute(template, entry, delimiter) {
        Ok(resolved) => resolved,
        Err(error) => return Some(Err(error.to_string())),
    };
    let position = if outcome.path_carries_position() {
        let read = parse(resolved.as_str());
        assert(may_parse(parse, resolved@, read.deep_view()));
        read
    } else {
        PathWithPosition { path: resolved, row: None, column: None }
    };
    let path = platform.resolve(position.path.as_str(), cwd);
    Some(Ok(PathWithPosition { path, row: position.row, column: position.column }))
}

/// How a command ended, with the first line worth showing of each stream.
#[derive(Debug, Clone, PartialEq)]
pub struct CommandExit {
    pub code: Option<i32>,
    pub stdout: Option<String>,
    pub stderr: Option<String>,
}

/// What a [`CommandExit`] says.
pub struct CommandExitView {
    pub code: Option<i32>,
    pub stdout: Option<Seq<char>>,
    pub stderr: Option<Seq<char>>,
}

impl DeepView for CommandExit {
    type V = CommandExitView;

    open spec fn deep_view(&self) -> CommandExitView {
        CommandExitView {
            code: self.code,
            stdout: self.stdout.deep_view(),
            stderr: self.stderr.deep_view(),
        }
    }
}

/// Whether a stream said anything.
pub open spec fn says_something(stream: Option<Seq<char>>) -> bool {
    stream matches Some(text) && !crate::text::is_blank(text)
}

impl CommandExitView {
    /// What explains the exit: the standard error where it said anything, else
    /// the standard output where that did.
    pub open spec fn detail(self) -> Option<Seq<char>> {
        if says_something(self.stderr) {
            self.stderr
        } else if says_something(self.stdout) {
            self.stdout
        } else {
            None
        }
    }

    /// How the command ended, in words.
    pub open spec fn status(self) -> Seq<char> {
        match self.code {
            Some(code) => "exited with status "@ + crate::text::decimal(code as int),
            None => "was terminated by a signal"@,
        }
    }
}

/// The sentence about a command that failed.
pub open spec fn command_failure_text(command: Seq<char>, exit: CommandExitView) -> Seq<char> {
    match exit.detail() {
        Some(detail) => "`"@ + command + "` "@ + exit.status() + ": "@ + detail,
        None => "`"@ + command + "` "@ + exit.status(),
    }
}

fn detail_of(stream: Option<String>) -> (detail: Option<String>)
    ensures
        detail.deep_view() == (if says_something(stream.deep_view()) {
            stream.deep_view()
        } else {
            None
        }),
{
    match stream {
        Some(text) => if blank(text.as_str()) {
            None
        } else {
            Some(text)
        },
        None => None,
    }
}

/// The sentence about a command that failed.
pub fn command_failure(command: &str, exit: CommandExit) -> (message: String)
    ensures
        message@ == command_failure_text(command@, exit.deep_view()),
{
    let mut message = String::new();
    message.append("`");
    message.append(command);
    message.append("` ");
    match exit.code {
        Some(code) => {
            let mut status = "exited with status ".to_owned();
            status.append(i64_text(code as i64).as_str());
            message.append(status.as_str());
        },
        None => message.append("was terminated by a signal"),
    }
    let detail = match detail_of(exit.stderr) {
        Some(detail) => Some(detail),
        None => detail_of(exit.stdout),
    };
    if let Some(detail) = detail {
        message.append(": ");
        message.append(detail.as_str());
    }
    assert(message@ == command_failure_text(command@, exit.deep_view()));
    message
}

/// The sentence about a command that could not be run at all.
pub open spec fn could_not_run_text(command: Seq<char>, reason: Seq<char>) -> Seq<char> {
    "Could not run `"@ + command + "`: "@ + reason
}

fn could_not_run(command: &str, reason: &str) -> (message: String)
    ensures
        message@ == could_not_run_text(command@, reason@),
{
    let mut message = "Could not run `".to_owned();
    message.append(command);
    message.append("`: ");
    message.append(reason);
    message
}

/// The sentence about an action that could not be built.
pub open spec fn action_failure_text(action: Seq<char>, error: Seq<char>) -> Seq<char> {
    "`"@ + action + "` could not run: "@ + error
}

fn action_failure(action: &str, error: &str) -> (message: String)
    ensures
        message@ == action_failure_text(action@, error@),
{
    let mut message = "`".to_owned();
    message.append(action);
    message.append("` could not run: ");
    message.append(error);
    message
}

/// What the editor is asked to do next.
#[derive(Debug, PartialEq)]
pub enum OutcomeAction {
    Nothing,
    ShowError(String),
    /// See [`open_path`].
    OpenPath(PathWithPosition),
    DispatchAction { action: String, args: Option<Json> },
    /// Find the environment that the project's commands run in.
    FindEnvironment,
    AskTransport(TransportRequest),
    RunCommand(ResolvedCommand),
}

/// What an [`OutcomeAction`] is.
pub enum OutcomeActionView {
    Nothing,
    ShowError(Seq<char>),
    OpenPath(PathWithPositionView),
    DispatchAction { action: Seq<char>, args: Option<crate::json::JsonView> },
    FindEnvironment,
    AskTransport(crate::remote::TransportRequestView),
    RunCommand(crate::remote::ResolvedCommandView),
}

impl DeepView for OutcomeAction {
    type V = OutcomeActionView;

    open spec fn deep_view(&self) -> OutcomeActionView {
        match self {
            OutcomeAction::Nothing => OutcomeActionView::Nothing,
            OutcomeAction::ShowError(message) => OutcomeActionView::ShowError(message@),
            OutcomeAction::OpenPath(target) => OutcomeActionView::OpenPath(target.deep_view()),
            OutcomeAction::DispatchAction { action, args } => OutcomeActionView::DispatchAction {
                action: action@,
                args: args.deep_view(),
            },
            OutcomeAction::FindEnvironment => OutcomeActionView::FindEnvironment,
            OutcomeAction::AskTransport(request) => OutcomeActionView::AskTransport(
                request.deep_view(),
            ),
            OutcomeAction::RunCommand(command) => OutcomeActionView::RunCommand(
                command.deep_view(),
            ),
        }
    }
}

/// What came of the last action.
#[derive(Debug, PartialEq)]
pub enum OutcomeReply {
    /// The action was built and dispatched, or why it could not be built.
    Dispatched(Result<(), String>),
    /// The project's environment, where there is one.
    Environment(Option<Environment>),
    /// The launcher that the transport built, or why it built none.
    Transport(Result<CommandTemplate, String>),
    /// How the command ended, or why it could not be started.
    Ran(Result<CommandExit, String>),
}

/// What an [`OutcomeReply`] says.
pub enum OutcomeReplyView {
    Dispatched(Result<(), Seq<char>>),
    Environment(Option<crate::remote::EnvironmentView>),
    Transport(Result<crate::remote::CommandTemplateView, Seq<char>>),
    Ran(Result<CommandExitView, Seq<char>>),
}

impl DeepView for OutcomeReply {
    type V = OutcomeReplyView;

    open spec fn deep_view(&self) -> OutcomeReplyView {
        match self {
            OutcomeReply::Dispatched(result) => OutcomeReplyView::Dispatched(
                match result {
                    Ok(done) => Ok(*done),
                    Err(error) => Err(error@),
                },
            ),
            OutcomeReply::Environment(environment) => OutcomeReplyView::Environment(
                environment.deep_view(),
            ),
            OutcomeReply::Transport(result) => OutcomeReplyView::Transport(
                crate::model::result_view(*result),
            ),
            OutcomeReply::Ran(result) => OutcomeReplyView::Ran(crate::model::result_view(*result)),
        }
    }
}

/// An Outcome being applied: what its next reply is about.
#[derive(Debug, PartialEq)]
pub enum OutcomeRun {
    Done,
    Dispatching { action: String },
    AwaitingEnvironment {
        command: String,
        args: Vec<String>,
        cwd: String,
        run_on: RunOn,
        remote: bool,
    },
    AwaitingTransport { command: String },
    Running { command: String },
}

/// What an [`OutcomeRun`] is.
pub enum OutcomeRunView {
    Done,
    Dispatching { action: Seq<char> },
    AwaitingEnvironment {
        command: Seq<char>,
        args: Seq<Seq<char>>,
        cwd: Seq<char>,
        run_on: RunOn,
        remote: bool,
    },
    AwaitingTransport { command: Seq<char> },
    Running { command: Seq<char> },
}

impl DeepView for OutcomeRun {
    type V = OutcomeRunView;

    open spec fn deep_view(&self) -> OutcomeRunView {
        match self {
            OutcomeRun::Done => OutcomeRunView::Done,
            OutcomeRun::Dispatching { action } => OutcomeRunView::Dispatching { action: action@ },
            OutcomeRun::AwaitingEnvironment { command, args, cwd, run_on, remote } => {
                OutcomeRunView::AwaitingEnvironment {
                    command: command@,
                    args: args.deep_view(),
                    cwd: cwd@,
                    run_on: *run_on,
                    remote: *remote,
                }
            },
            OutcomeRun::AwaitingTransport { command } => OutcomeRunView::AwaitingTransport {
                command: command@,
            },
            OutcomeRun::Running { command } => OutcomeRunView::Running { command: command@ },
        }
    }
}

/// What a target asks for: to be opened, or its error to be shown.
pub open spec fn target_action(
    target: Option<Result<PathWithPositionView, Seq<char>>>,
) -> OutcomeActionView {
    match target {
        Some(Ok(target)) => OutcomeActionView::OpenPath(target),
        Some(Err(error)) => OutcomeActionView::ShowError(error),
        None => OutcomeActionView::Nothing,
    }
}

/// How an Outcome that dispatches an action or runs a command begins: with
/// the Entry put into its arguments, or with the Field that the Entry lacks.
pub open spec fn outcome_begun(
    outcome: crate::config::OutcomeView,
    entry: Seq<char>,
    cwd: Seq<char>,
    delimiter: Option<Seq<char>>,
    run_on: RunOn,
    remote: bool,
) -> (OutcomeRunView, OutcomeActionView) {
    match outcome {
        crate::config::OutcomeView::DispatchAction { action, args: None } => (
            OutcomeRunView::Dispatching { action },
            OutcomeActionView::DispatchAction { action, args: None },
        ),
        crate::config::OutcomeView::DispatchAction { action, args: Some(args) } => {
            match crate::json::substituted_json(args, entry, delimiter) {
                Ok(args) => (
                    OutcomeRunView::Dispatching { action },
                    OutcomeActionView::DispatchAction { action, args: Some(args) },
                ),
                Err(error) => (
                    OutcomeRunView::Done,
                    OutcomeActionView::ShowError(error.message()),
                ),
            }
        },
        crate::config::OutcomeView::RunCommand { command, args } => {
            match crate::template::substituted_all(args, entry, delimiter) {
                Ok(args) => (
                    OutcomeRunView::AwaitingEnvironment { command, args, cwd, run_on, remote },
                    OutcomeActionView::FindEnvironment,
                ),
                Err(error) => (
                    OutcomeRunView::Done,
                    OutcomeActionView::ShowError(error.message()),
                ),
            }
        },
        _ => (OutcomeRunView::Done, OutcomeActionView::Nothing),
    }
}

/// Whether `begun` is how the Outcome begins for the Entry: one that opens a
/// path is done with opening its target.
pub open spec fn is_begun<F: Fn(&str) -> PathWithPosition>(
    parse: F,
    separator: char,
    outcome: crate::config::OutcomeView,
    entry: Seq<char>,
    cwd: Seq<char>,
    delimiter: Option<Seq<char>>,
    run_on: RunOn,
    remote: bool,
    begun: (OutcomeRunView, OutcomeActionView),
) -> bool {
    if outcome.path_template() is Some {
        begun.0 is Done && exists|target: Option<Result<PathWithPositionView, Seq<char>>>|
            #[trigger] is_target(parse, separator, outcome, entry, cwd, delimiter, target) && begun.1
                == target_action(target)
    } else {
        begun == outcome_begun(outcome, entry, cwd, delimiter, run_on, remote)
    }
}

/// Begins to apply an Outcome to the chosen Entry. `remote` says whether the
/// project has a transport; `parse` reads a trailing `:row:col` off a path.
pub fn apply_outcome<F: Fn(&str) -> PathWithPosition>(
    outcome: &Outcome,
    entry: &str,
    cwd: &str,
    delimiter: Option<&str>,
    run_on: RunOn,
    remote: bool,
    platform: Platform,
    parse: F,
) -> (begun: (OutcomeRun, OutcomeAction))
    requires
        forall|s: &str| #[trigger] call_requires(parse, (s,)),
    ensures
        is_begun(
            parse,
            platform@,
            outcome.deep_view(),
            entry@,
            cwd@,
            delimiter.deep_view(),
            run_on,
            remote,
            (begun.0.deep_view(), begun.1.deep_view()),
        ),
{
    match outcome {
        Outcome::OpenPath { .. } | Outcome::OpenPathAtPosition { .. } => {
            let target = resolve_outcome_path(outcome, entry, cwd, delimiter, platform, parse);
            let ghost found = target_view(target);
            let action = match target {
                Some(Ok(target)) => OutcomeAction::OpenPath(target),
                Some(Err(error)) => OutcomeAction::ShowError(error),
                None => OutcomeAction::Nothing,
            };
            assert(action.deep_view() == target_action(found));
            (OutcomeRun::Done, action)
        },
        Outcome::DispatchAction { action, args } => {
            let args = match args {
                Some(args) => match substitute_json(args, entry, delimiter) {
                    Ok(args) => Some(args),
                    Err(error) => return (
                        OutcomeRun::Done,
                        OutcomeAction::ShowError(error.to_string()),
                    ),
                },
                None => None,
            };
            (
                OutcomeRun::Dispatching { action: action.clone() },
                OutcomeAction::DispatchAction { action: action.clone(), args },
            )
        },
        Outcome::RunCommand { command, args } => {
            let slice = args.as_slice();
            assert(slice.deep_view() == args.deep_view());
            match substitute_args(slice, entry, delimiter) {
                Ok(args) => (
                    OutcomeRun::AwaitingEnvironment {
                        command: command.clone(),
                        args,
                        cwd: cwd.to_owned(),
                        run_on,
                        remote,
                    },
                    OutcomeAction::FindEnvironment,
                ),
                Err(error) => (OutcomeRun::Done, OutcomeAction::ShowError(error.to_string())),
            }
        },
    }
}

impl OutcomeRunView {
    /// What a reply leads to. A reply to anything else than the last action
    /// leads to nothing.
    pub open spec fn reply(self, reply: OutcomeReplyView) -> (OutcomeRunView, OutcomeActionView) {
        match (self, reply) {
            (
                OutcomeRunView::Dispatching { action },
                OutcomeReplyView::Dispatched(Err(error)),
            ) => (
                OutcomeRunView::Done,
                OutcomeActionView::ShowError(action_failure_text(action, error)),
            ),
            (OutcomeRunView::Dispatching { .. }, OutcomeReplyView::Dispatched(Ok(_))) => (
                OutcomeRunView::Done,
                OutcomeActionView::Nothing,
            ),
            (
                OutcomeRunView::AwaitingEnvironment { command, .. },
                OutcomeReplyView::Environment(None),
            ) => (
                OutcomeRunView::Done,
                OutcomeActionView::ShowError(
                    could_not_run_text(command, "the project environment was unavailable"@),
                ),
            ),
            (
                OutcomeRunView::AwaitingEnvironment { command, args, cwd, run_on, remote },
                OutcomeReplyView::Environment(Some(env)),
            ) => match crate::remote::command_plan(remote, run_on, command, args, cwd, env) {
                crate::remote::CommandPlanView::Run(resolved) => (
                    OutcomeRunView::Running { command },
                    OutcomeActionView::RunCommand(resolved),
                ),
                crate::remote::CommandPlanView::AskTransport(request) => (
                    OutcomeRunView::AwaitingTransport { command },
                    OutcomeActionView::AskTransport(request),
                ),
            },
            (
                OutcomeRunView::AwaitingTransport { command },
                OutcomeReplyView::Transport(answer),
            ) => match crate::remote::wrapped_command(answer) {
                Ok(resolved) => (
                    OutcomeRunView::Running { command },
                    OutcomeActionView::RunCommand(resolved),
                ),
                Err(error) => (
                    OutcomeRunView::Done,
                    OutcomeActionView::ShowError(could_not_run_text(command, error)),
                ),
            },
            (OutcomeRunView::Running { command }, OutcomeReplyView::Ran(Err(error))) => (
                OutcomeRunView::Done,
                OutcomeActionView::ShowError(could_not_run_text(command, error)),
            ),
            (OutcomeRunView::Running { command }, OutcomeReplyView::Ran(Ok(exit))) => (
                OutcomeRunView::Done,
                if exit.code == Some(0i32) {
                    OutcomeActionView::Nothing
                } else {
                    OutcomeActionView::ShowError(command_failure_text(command, exit))
                },
            ),
            _ => (self, OutcomeActionView::Nothing),
        }
    }

    /// How many replies are still to come, at most.
    pub open spec fn replies_left(self) -> nat {
        match self {
            OutcomeRunView::Done => 0,
            OutcomeRunView::Dispatching { .. } => 1,
            OutcomeRunView::Running { .. } => 1,
            OutcomeRunView::AwaitingTransport { .. } => 2,
            OutcomeRunView::AwaitingEnvironment { .. } => 3,
        }
    }

    /// Whether `reply` answers the last action.
    pub open spec fn awaits(self, reply: OutcomeReplyView) -> bool {
        match self {
            OutcomeRunView::Done => false,
            OutcomeRunView::Dispatching { .. } => reply is Dispatched,
            OutcomeRunView::AwaitingEnvironment { .. } => reply is Environment,
            OutcomeRunView::AwaitingTransport { .. } => reply is Transport,
            OutcomeRunView::Running { .. } => reply is Ran,
        }
    }
}

impl OutcomeRun {
    /// Takes what came of the last action and returns the next one.
    pub fn reply(self, reply: OutcomeReply) -> (next: (OutcomeRun, OutcomeAction))
        ensures
            (next.0.deep_view(), next.1.deep_view()) == self.deep_view().reply(reply.deep_view()),
    {
        match (self, reply) {
            (OutcomeRun::Dispatching { action }, OutcomeReply::Dispatched(result)) => {
                match result {
                    Ok(_) => (OutcomeRun::Done, OutcomeAction::Nothing),
                    Err(error) => (
                        OutcomeRun::Done,
                        OutcomeAction::ShowError(action_failure(action.as_str(), error.as_str())),
                    ),
                }
            },
            (
                OutcomeRun::AwaitingEnvironment { command, args, cwd, run_on, remote },
                OutcomeReply::Environment(environment),
            ) => match environment {
                None => (
                    OutcomeRun::Done,
                    OutcomeAction::ShowError(
                        could_not_run(command.as_str(), "the project environment was unavailable"),
                    ),
                ),
                Some(env) => match resolve_command(
                    remote,
                    run_on,
                    command.clone(),
                    args,
                    cwd.as_str(),
                    env,
                ) {
                    CommandPlan::Run(resolved) => (
                        OutcomeRun::Running { command },
                        OutcomeAction::RunCommand(resolved),
                    ),
                    CommandPlan::AskTransport(request) => (
                        OutcomeRun::AwaitingTransport { command },
                        OutcomeAction::AskTransport(request),
                    ),
                },
            },
            (OutcomeRun::AwaitingTransport { command }, OutcomeReply::Transport(answer)) => {
                match wrap_command(answer) {
                    Ok(resolved) => (
                        OutcomeRun::Running { command },
                        OutcomeAction::RunCommand(resolved),
                    ),
                    Err(error) => (
                        OutcomeRun::Done,
                        OutcomeAction::ShowError(could_not_run(command.as_str(), error.as_str())),
                    ),
                }
            },
            (OutcomeRun::Running { command }, OutcomeReply::Ran(result)) => match result {
                Ok(exit) => {
                    let clean = match exit.code {
                        Some(code) => code == 0,
                        None => false,
                    };
                    if clean {
                        (OutcomeRun::Done, OutcomeAction::Nothing)
                    } else {
                        (
                            OutcomeRun::Done,
                            OutcomeAction::ShowError(command_failure(command.as_str(), exit)),
                        )
                    }
                },
                Err(error) => (
                    OutcomeRun::Done,
                    OutcomeAction::ShowError(could_not_run(command.as_str(), error.as_str())),
                ),
            },
            (run, _) => (run, OutcomeAction::Nothing),
        }
    }
}

/// What opening a target comes to, once it is known whether its path exists.
#[derive(Debug, PartialEq)]
pub enum OpenPath {
    ShowError(String),
    /// Open the file at the path.
    Open(String),
}

/// What an [`OpenPath`] is.
pub enum OpenPathView {
    ShowError(Seq<char>),
    Open(Seq<char>),
}

impl DeepView for OpenPath {
    type V = OpenPathView;

    open spec fn deep_view(&self) -> OpenPathView {
        match self {
            OpenPath::ShowError(message) => OpenPathView::ShowError(message@),
            OpenPath::Open(path) => OpenPathView::Open(path@),
        }
    }
}

/// A target is opened where it exists; else it is said that it does not.
pub open spec fn path_opened(target: PathWithPositionView, exists_now: bool) -> OpenPathView {
    if exists_now {
        OpenPathView::Open(target.path)
    } else {
        OpenPathView::ShowError(target.path + " no longer exists"@)
    }
}

/// Decides whether a target is opened.
pub fn open_path(target: &PathWithPosition, exists_now: bool) -> (out: OpenPath)
    ensures
        out.deep_view() == path_opened(target.deep_view(), exists_now),
{
    if exists_now {
        OpenPath::Open(target.path.clone())
    } else {
        let mut message = target.path.clone();
        message.append(" no longer exists");
        OpenPath::ShowError(message)
    }
}

/// A place in a buffer. Rows and columns count from zero.
#[derive(Debug, Clone, Copy, PartialEq, Eq, Structural)]
pub struct Point {
    pub row: u32,
    pub column: u32,
}

impl DeepView for Point {
    type V = Point;

    open spec fn deep_view(&self) -> Point {
        *self
    }
}

/// A number that counts from one, counted from zero; there is nothing before
/// the first.
pub open spec fn from_zero(n: u32) -> u32 {
    if n == 0 {
        0
    } else {
        (n - 1) as u32
    }
}

/// The place that a position names. What it leaves open is the first.
pub open spec fn external_point(row: Option<u32>, column: Option<u32>) -> Point {
    Point {
        row: from_zero(
            match row {
                Some(row) => row,
                None => 1,
            },
        ),
        column: from_zero(
            match column {
                Some(column) => column,
                None => 1,
            },
        ),
    }
}

/// The place that a position names. Rows and columns are 1-based in tool
/// output; buffer points are 0-based.
pub fn point_of(row: Option<u32>, column: Option<u32>) -> (point: Point)
    ensures
        point == external_point(row, column),
{
    let row: u32 = match row {
        Some(row) => row,
        None => 1,
    };
    let column: u32 = match column {
        Some(column) => column,
        None => 1,
    };
    Point { row: row.saturating_sub(1), column: column.saturating_sub(1) }
}

/// Where the cursor goes in the file that was opened: nowhere in particular
/// where the target names no row, or where what was opened is not one buffer
/// in an editor.
pub open spec fn cursor_point(target: PathWithPositionView, single_buffer: bool) -> Option<Point> {
    if target.row is Some && single_buffer {
        Some(external_point(target.row, target.column))
    } else {
        None
    }
}

/// Where the cursor goes in the file that was opened.
pub fn cursor(target: &PathWithPosition, single_buffer: bool) -> (point: Option<Point>)
    ensures
        point == cursor_point(target.deep_view(), single_buffer),
{
    if target.row.is_some() && single_buffer {
        Some(point_of(target.row, target.column))
    } else {
        None
    }
}

// ---------------------------------------------------------------------------
// Laws
// ---------------------------------------------------------------------------
/// Where `parse` reads a text in one way only, an Entry has one target: what
/// the Preview resolves is what Confirm opens.
pub proof fn law_one_target<F: Fn(&str) -> PathWithPosition>(
    parse: F,
    separator: char,
    outcome: crate::config::OutcomeView,
    entry: Seq<char>,
    cwd: Seq<char>,
    delimiter: Option<Seq<char>>,
    previewed: Option<Result<PathWithPositionView, Seq<char>>>,
    opened: Option<Result<PathWithPositionView, Seq<char>>>,
)
    requires
        forall|text: Seq<char>, a: PathWithPositionView, b: PathWithPositionView|
            #[trigger] may_parse(parse, text, a) && #[trigger] may_parse(parse, text, b) ==> a == b,
        is_target(parse, separator, outcome, entry, cwd, delimiter, previewed),
        is_target(parse, separator, outcome, entry, cwd, delimiter, opened),
    ensures
        previewed == opened,
{
}

/// A target is there exactly for the Outcomes that open a path.
pub proof fn law_only_paths_have_targets<F: Fn(&str) -> PathWithPosition>(
    parse: F,
    separator: char,
    outcome: crate::config::OutcomeView,
    entry: Seq<char>,
    cwd: Seq<char>,
    delimiter: Option<Seq<char>>,
    target: Option<Result<PathWithPositionView, Seq<char>>>,
)
    requires
        is_target(parse, separator, outcome, entry, cwd, delimiter, target),
    ensures
        target is Some <==> outcome is OpenPath || outcome is OpenPathAtPosition,
{
}

/// `open_path` never reads a row off a path, whatever the path looks like.
pub proof fn law_plain_path_has_no_position<F: Fn(&str) -> PathWithPosition>(
    parse: F,
    separator: char,
    path: Option<Seq<char>>,
    entry: Seq<char>,
    cwd: Seq<char>,
    delimiter: Option<Seq<char>>,
    target: Option<Result<PathWithPositionView, Seq<char>>>,
)
    requires
        is_target(
            parse,
            separator,
            crate::config::OutcomeView::OpenPath { path },
            entry,
            cwd,
            delimiter,
            target,
        ),
    ensures
        target matches Some(Ok(target)) ==> target.row is None && target.column is None,
        path is None ==> target == Some(
            Ok::<PathWithPositionView, Seq<char>>(
                PathWithPositionView {
                    path: crate::platform::entry_path(separator, entry, cwd),
                    row: None,
                    column: None,
                },
            ),
        ),
{
    crate::template::law_whole_entry(entry, delimiter);
}

/// An awaited reply always brings the run closer to its end; any other reply
/// changes nothing.
pub proof fn law_replies_run_out(run: OutcomeRunView, reply: OutcomeReplyView)
    ensures
        run.awaits(reply) ==> run.reply(reply).0.replies_left() < run.replies_left(),
        !run.awaits(reply) ==> run.reply(reply) == (run, OutcomeActionView::Nothing),
        run.reply(reply).1 is ShowError ==> run.reply(reply).0 is Done,
{
}

/// A command that succeeds is quiet, and one that fails is always reported.
pub proof fn law_only_failures_are_reported(command: Seq<char>, exit: CommandExitView)
    ensures
        (OutcomeRunView::Running { command }).reply(OutcomeReplyView::Ran(Ok(exit))).1 is Nothing
            <==> exit.code == Some(0i32),
        !((OutcomeRunView::Running { command }).reply(OutcomeReplyView::Ran(Ok(exit))).1 is Nothing)
            ==> (OutcomeRunView::Running { command }).reply(OutcomeReplyView::Ran(Ok(exit))).1
            == OutcomeActionView::ShowError(command_failure_text(command, exit)),
{
}

/// What a command wrote to its standard error explains its failure, whatever
/// it wrote to its standard output.
pub proof fn law_failure_prefers_stderr(command: Seq<char>, exit: CommandExitView)
    requires
        says_something(exit.stderr),
    ensures
        exit.detail() == exit.stderr,
        command_failure_text(command, exit) == command_failure_text(
            command,
            CommandExitView { stdout: None, ..exit },
        ),
{
}

/// No Outcome acts on an Entry that lacks a Field it names: the Field is
/// reported and nothing is left to do.
pub proof fn law_missing_field_stops(
    outcome: crate::config::OutcomeView,
    entry: Seq<char>,
    cwd: Seq<char>,
    delimiter: Option<Seq<char>>,
    run_on: RunOn,
    remote: bool,
)
    ensures
        outcome matches crate::config::OutcomeView::RunCommand { args, .. } ==> (
        crate::template::substituted_all(args, entry, delimiter) matches Err(error) ==> outcome_begun(
            outcome,
            entry,
            cwd,
            delimiter,
            run_on,
            remote,
        ) == (OutcomeRunView::Done, OutcomeActionView::ShowError(error.message()))),
        outcome matches crate::config::OutcomeView::DispatchAction { args: Some(args), .. } ==> (
        crate::json::substituted_json(args, entry, delimiter) matches Err(error) ==> outcome_begun(
            outcome,
            entry,
            cwd,
            delimiter,
            run_on,
            remote,
        ) == (OutcomeRunView::Done, OutcomeActionView::ShowError(error.message()))),
{
}

/// Where commands run makes no difference to an Outcome that runs none.
pub proof fn law_run_on_matters_to_commands_only<F: Fn(&str) -> PathWithPosition>(
    parse: F,
    separator: char,
    outcome: crate::config::OutcomeView,
    entry: Seq<char>,
    cwd: Seq<char>,
    delimiter: Option<Seq<char>>,
    run_on: RunOn,
    remote: bool,
    other_run_on: RunOn,
    other_remote: bool,
    begun: (OutcomeRunView, OutcomeActionView),
)
    requires
        !(outcome is RunCommand),
    ensures
        is_begun(parse, separator, outcome, entry, cwd, delimiter, run_on, remote, begun) == is_begun(
            parse,
            separator,
            outcome,
            entry,
            cwd,
            delimiter,
            other_run_on,
            other_remote,
            begun,
        ),
{
}

/// A command of an Outcome is resolved as every command is: what finally runs
/// is what its plan and the transport's answer come to.
pub proof fn law_outcome_resolves_like_a_source(
    command: Seq<char>,
    args: Seq<Seq<char>>,
    cwd: Seq<char>,
    run_on: RunOn,
    remote: bool,
    env: crate::remote::EnvironmentView,
    answer: Result<crate::remote::CommandTemplateView, Seq<char>>,
)
    ensures
        ({
            let plan = crate::remote::command_plan(remote, run_on, command, args, cwd, env);
            let asked = (OutcomeRunView::AwaitingEnvironment {
                command,
                args,
                cwd,
                run_on,
                remote,
            }).reply(OutcomeReplyView::Environment(Some(env)));
            let last = if asked.1 is AskTransport {
                asked.0.reply(OutcomeReplyView::Transport(answer)).1
            } else {
                asked.1
            };
            last == (match crate::remote::final_command(plan, answer) {
                Ok(resolved) => OutcomeActionView::RunCommand(resolved),
                Err(error) => OutcomeActionView::ShowError(could_not_run_text(command, error)),
            })
        }),
{
}

/// What `parse` returns for a text is a reading of it, and nothing else is.
pub proof fn law_readings_are_what_parse_returns<F: Fn(&str) -> PathWithPosition>(
    parse: F,
    text: &str,
    read: PathWithPosition,
    other: PathWithPositionView,
)
    ensures
        call_ensures(parse, (text,), read) ==> may_parse(parse, text@, read.deep_view()),
        may_parse(parse, text@, other) ==> exists|s: &str, p: PathWithPosition|
            s@ == text@ && #[trigger] call_ensures(parse, (s,), p) && p.path@ == other.path && p.row
                == other.row && p.column == other.column,
{
}

/// A path that carries a position is opened where `parse` reads that it points:
/// at the row and the column of the reading, each there or not as in it, and at
/// the path of the reading, resolved against the working directory.
pub proof fn law_position_is_opened_as_read<F: Fn(&str) -> PathWithPosition>(
    parse: F,
    separator: char,
    template: Seq<char>,
    entry: Seq<char>,
    cwd: Seq<char>,
    delimiter: Option<Seq<char>>,
    text: Seq<char>,
    read: PathWithPositionView,
    target: Option<Result<PathWithPositionView, Seq<char>>>,
)
    requires
        crate::template::substituted(template, entry, delimiter) == Ok::<
            Seq<char>,
            crate::template::MissingFieldView,
        >(text),
        forall|other: PathWithPositionView| #[trigger] may_parse(parse, text, other) ==> other == read,
        is_target(
            parse,
            separator,
            crate::config::OutcomeView::OpenPathAtPosition { path: Some(template) },
            entry,
            cwd,
            delimiter,
            target,
        ),
    ensures
        target matches Some(Ok(found)) && found.row == read.row && found.column == read.column
            && found.path == crate::platform::entry_path(separator, read.path, cwd),
{
}

/// Whether `found` has the position of one reading of the text, and its path
/// resolved against the working directory.
pub open spec fn comes_from_a_reading<F: Fn(&str) -> PathWithPosition>(
    parse: F,
    separator: char,
    text: Seq<char>,
    cwd: Seq<char>,
    found: PathWithPositionView,
) -> bool {
    exists|read: PathWithPositionView| #[trigger]
        may_parse(parse, text, read) && found.row == read.row && found.column == read.column
            && found.path == crate::platform::entry_path(separator, read.path, cwd)
}

/// However `parse` reads, the position that is opened is that of one of its
/// readings of the substituted text, in full.
pub proof fn law_every_position_is_a_reading<F: Fn(&str) -> PathWithPosition>(
    parse: F,
    separator: char,
    template: Seq<char>,
    entry: Seq<char>,
    cwd: Seq<char>,
    delimiter: Option<Seq<char>>,
    text: Seq<char>,
    target: Option<Result<PathWithPositionView, Seq<char>>>,
)
    requires
        crate::template::substituted(template, entry, delimiter) == Ok::<
            Seq<char>,
            crate::template::MissingFieldView,
        >(text),
        is_target(
            parse,
            separator,
            crate::config::OutcomeView::OpenPathAtPosition { path: Some(template) },
            entry,
            cwd,
            delimiter,
            target,
        ),
    ensures
        target matches Some(Ok(found)) && comes_from_a_reading(parse, separator, text, cwd, found),
{
    let read = choose|read: PathWithPositionView| #[trigger]
        may_parse(parse, text, read) && target == Some(
            Ok::<PathWithPositionView, Seq<char>>(
                PathWithPositionView {
                    path: crate::platform::entry_path(separator, read.path, cwd),
                    ..read
                },
            ),
        );
    assert(may_parse(parse, text, read));
}

/// A plain path is the whole of the substituted text, resolved against the
/// working directory, with no position; `parse` has no say in it.
pub proof fn law_plain_path_is_the_whole_text<F: Fn(&str) -> PathWithPosition>(
    parse: F,
    separator: char,
    template: Seq<char>,
    entry: Seq<char>,
    cwd: Seq<char>,
    delimiter: Option<Seq<char>>,
    text: Seq<char>,
    target: Option<Result<PathWithPositionView, Seq<char>>>,
)
    requires
        crate::template::substituted(template, entry, delimiter) == Ok::<
            Seq<char>,
            crate::template::MissingFieldView,
        >(text),
        is_target(
            parse,
            separator,
            crate::config::OutcomeView::OpenPath { path: Some(template) },
            entry,
            cwd,
            delimiter,
            target,
        ),
    ensures
        target matches Some(Ok(found)) && found.row is None && found.column is None && found.path
            == crate::platform::entry_path(separator, text, cwd),
{
}

/// An Outcome that opens a path without naming one opens what it would open had
/// it named the whole Entry.
pub proof fn law_unnamed_path_is_the_entry<F: Fn(&str) -> PathWithPosition>(
    parse: F,
    separator: char,
    entry: Seq<char>,
    cwd: Seq<char>,
    delimiter: Option<Seq<char>>,
    target: Option<Result<PathWithPositionView, Seq<char>>>,
)
    ensures
        is_target(
            parse,
            separator,
            crate::config::OutcomeView::OpenPathAtPosition { path: None },
            entry,
            cwd,
            delimiter,
            target,
        ) == is_target(
            parse,
            separator,
            crate::config::OutcomeView::OpenPathAtPosition { path: Some("{}"@) },
            entry,
            cwd,
            delimiter,
            target,
        ),
        is_target(
            parse,
            separator,
            crate::config::OutcomeView::OpenPath { path: None },
            entry,
            cwd,
            delimiter,
            target,
        ) == is_target(
            parse,
            separator,
            crate::config::OutcomeView::OpenPath { path: Some("{}"@) },
            entry,
            cwd,
            delimiter,
            target,
        ),
{
}

/// A path that names a Field the Entry does not have is not opened: the target
/// is the sentence about that Field.
pub proof fn law_missing_field_is_the_target<F: Fn(&str) -> PathWithPosition>(
    parse: F,
    separator: char,
    outcome: crate::config::OutcomeView,
    template: Seq<char>,
    entry: Seq<char>,
    cwd: Seq<char>,
    delimiter: Option<Seq<char>>,
    error: crate::template::MissingFieldView,
    target: Option<Result<PathWithPositionView, Seq<char>>>,
)
    requires
        outcome == (crate::config::OutcomeView::OpenPath { path: Some(template) }) || outcome == (
        crate::config::OutcomeView::OpenPathAtPosition { path: Some(template) }),
        crate::template::substituted(template, entry, delimiter) == Err::<
            Seq<char>,
            crate::template::MissingFieldView,
        >(error),
        is_target(parse, separator, outcome, entry, cwd, delimiter, target),
    ensures
        target == Some(Err::<PathWithPositionView, Seq<char>>(error.message())),
{
}

/// An Outcome that opens a path is done at once: it opens its target, or shows
/// what is wrong with it.
pub proof fn law_paths_are_opened_at_once<F: Fn(&str) -> PathWithPosition>(
    parse: F,
    separator: char,
    outcome: crate::config::OutcomeView,
    entry: Seq<char>,
    cwd: Seq<char>,
    delimiter: Option<Seq<char>>,
    run_on: RunOn,
    remote: bool,
    begun: (OutcomeRunView, OutcomeActionView),
)
    requires
        outcome is OpenPath || outcome is OpenPathAtPosition,
        is_begun(parse, separator, outcome, entry, cwd, delimiter, run_on, remote, begun),
    ensures
        begun.0 is Done,
        begun.1 matches OutcomeActionView::OpenPath(target) ==> is_target(
            parse,
            separator,
            outcome,
            entry,
            cwd,
            delimiter,
            Some(Ok(target)),
        ),
        begun.1 matches OutcomeActionView::ShowError(error) ==> is_target(
            parse,
            separator,
            outcome,
            entry,
            cwd,
            delimiter,
            Some(Err(error)),
        ),
        begun.1 is OpenPath || begun.1 is ShowError,
{
}

/// An action is dispatched by the name it was written with, with the arguments
/// that its arguments become for the Entry, and with none where it has none.
pub proof fn law_actions_are_dispatched_with_the_entry<F: Fn(&str) -> PathWithPosition>(
    parse: F,
    separator: char,
    action: Seq<char>,
    args: Option<crate::json::JsonView>,
    entry: Seq<char>,
    cwd: Seq<char>,
    delimiter: Option<Seq<char>>,
    run_on: RunOn,
    remote: bool,
    begun: (OutcomeRunView, OutcomeActionView),
)
    requires
        is_begun(
            parse,
            separator,
            crate::config::OutcomeView::DispatchAction { action, args },
            entry,
            cwd,
            delimiter,
            run_on,
            remote,
            begun,
        ),
    ensures
        args is None ==> begun.1 == (OutcomeActionView::DispatchAction { action, args: None }),
        args matches Some(args) ==> (crate::json::substituted_json(args, entry, delimiter)
            matches Ok(out) ==> begun.1 == (OutcomeActionView::DispatchAction {
            action,
            args: Some(out),
        })),
        args matches Some(args) ==> (crate::json::substituted_json(args, entry, delimiter)
            matches Err(error) ==> begun.0 is Done && begun.1 == OutcomeActionView::ShowError(
            error.message(),
        )),
        begun.1 is DispatchAction ==> begun.0 == (OutcomeRunView::Dispatching { action }),
{
}

/// A command is run once its environment is known, by the name it was written
/// with and with what its arguments become for the Entry; which machine it runs
/// on is decided as for every command.
pub proof fn law_commands_are_run_with_the_entry<F: Fn(&str) -> PathWithPosition>(
    parse: F,
    separator: char,
    command: Seq<char>,
    args: Seq<Seq<char>>,
    entry: Seq<char>,
    cwd: Seq<char>,
    delimiter: Option<Seq<char>>,
    run_on: RunOn,
    remote: bool,
    begun: (OutcomeRunView, OutcomeActionView),
    env: crate::remote::EnvironmentView,
)
    requires
        is_begun(
            parse,
            separator,
            crate::config::OutcomeView::RunCommand { command, args },
            entry,
            cwd,
            delimiter,
            run_on,
            remote,
            begun,
        ),
    ensures
        crate::template::substituted_all(args, entry, delimiter) matches Ok(out) ==> begun.1
            is FindEnvironment && (begun.0.reply(
            OutcomeReplyView::Environment(Some(env)),
        ).1 matches OutcomeActionView::RunCommand(resolved) ==> crate::remote::command_plan(
            remote,
            run_on,
            command,
            out,
            cwd,
            env,
        ) == crate::remote::CommandPlanView::Run(resolved)) && (begun.0.reply(
            OutcomeReplyView::Environment(Some(env)),
        ).1 matches OutcomeActionView::AskTransport(request) ==> crate::remote::command_plan(
            remote,
            run_on,
            command,
            out,
            cwd,
            env,
        ) == crate::remote::CommandPlanView::AskTransport(request)),
        crate::template::substituted_all(args, entry, delimiter) matches Err(error) ==> begun.0
            is Done && begun.1 == OutcomeActionView::ShowError(error.message()),
{
}

/// A run names its command or action as the user wrote it, to the end, in
/// whatever it has to report; only a reply that succeeds leads on.
pub proof fn law_failures_name_the_command(
    command: Seq<char>,
    args: Seq<Seq<char>>,
    cwd: Seq<char>,
    run_on: RunOn,
    remote: bool,
    error: Seq<char>,
    template: crate::remote::CommandTemplateView,
)
    ensures
        (OutcomeRunView::AwaitingEnvironment { command, args, cwd, run_on, remote }).reply(
            OutcomeReplyView::Environment(None),
        ) == (
            OutcomeRunView::Done,
            OutcomeActionView::ShowError(
                "Could not run `"@ + command + "`: "@ + "the project environment was unavailable"@,
            ),
        ),
        (OutcomeRunView::AwaitingTransport { command }).reply(
            OutcomeReplyView::Transport(Err(error)),
        ) == (
            OutcomeRunView::Done,
            OutcomeActionView::ShowError("Could not run `"@ + command + "`: "@ + error),
        ),
        (OutcomeRunView::AwaitingTransport { command }).reply(
            OutcomeReplyView::Transport(Ok(template)),
        ).0 == (OutcomeRunView::Running { command }),
        (OutcomeRunView::AwaitingTransport { command }).reply(
            OutcomeReplyView::Transport(Ok(template)),
        ).1 == OutcomeActionView::RunCommand(
            crate::remote::ResolvedCommandView {
                command: template.program,
                args: template.args,
                env: template.env,
                cwd: None,
            },
        ),
        (OutcomeRunView::Running { command }).reply(OutcomeReplyView::Ran(Err(error))) == (
            OutcomeRunView::Done,
            OutcomeActionView::ShowError("Could not run `"@ + command + "`: "@ + error),
        ),
        (OutcomeRunView::Dispatching { action: command }).reply(
            OutcomeReplyView::Dispatched(Err(error)),
        ) == (
            OutcomeRunView::Done,
            OutcomeActionView::ShowError("`"@ + command + "` could not run: "@ + error),
        ),
        (OutcomeRunView::Dispatching { action: command }).reply(
            OutcomeReplyView::Dispatched(Ok(())),
        ) == (OutcomeRunView::Done, OutcomeActionView::Nothing),
{
}

/// A failed command is named with how it ended, and with what explains it: the
/// standard error unless that is blank, else the standard output unless that is
/// blank too, else nothing more.
pub proof fn law_failure_says_how_and_why(command: Seq<char>, exit: CommandExitView)
    ensures
        ({
            let ended = match exit.code {
                Some(code) => "`"@ + command + "` "@ + ("exited with status "@
                    + crate::text::decimal(code as int)),
                None => "`"@ + command + "` "@ + "was terminated by a signal"@,
            };
            let loud_error = exit.stderr matches Some(text) && !crate::text::is_blank(text);
            let loud_output = exit.stdout matches Some(text) && !crate::text::is_blank(text);
            command_failure_text(command, exit) == (if loud_error {
                ended + ": "@ + exit.stderr->0
            } else if loud_output {
                ended + ": "@ + exit.stdout->0
            } else {
                ended
            })
        }),
{
}

/// A target is opened by its own path where it exists, and else it is said of
/// that path that it is gone.
pub proof fn law_only_what_exists_is_opened(target: PathWithPositionView)
    ensures
        path_opened(target, true) == OpenPathView::Open(target.path),
        path_opened(target, false) == OpenPathView::ShowError(target.path + " no longer exists"@),
{
}

/// Rows and columns that count from one become places that count from zero. A
/// column that is not named is the first; without a row, and in anything but a
/// single buffer, the cursor stays.
pub proof fn law_cursor_goes_to_the_named_place(target: PathWithPositionView)
    ensures
        cursor_point(target, false) is None,
        target.row is None ==> cursor_point(target, true) is None,
        target.row matches Some(row) ==> ({
            let point = cursor_point(target, true);
            &&& point is Some
            &&& point->0.row as int == (if row == 0 {
                0
            } else {
                row - 1
            })
            &&& point->0.column as int == (match target.column {
                Some(column) => if column == 0 {
                    0
                } else {
                    column - 1
                },
                None => 0,
            })
        }),
{
}

/// A position without a row is at the first, and so is one without a column.
pub proof fn law_what_is_not_named_is_the_first(row: Option<u32>, column: Option<u32>)
    ensures
        external_point(None, column) == external_point(Some(1), column),
        external_point(row, None) == external_point(row, Some(1)),
        row matches Some(n) ==> (n > 0 ==> external_point(row, column).row + 1 == n),
        column matches Some(n) ==> (n > 0 ==> external_point(row, column).column + 1 == n),
        external_point(Some(0), Some(0)) == external_point(Some(1), Some(1)),
{
}

} // verus!
