//! Where a command runs: beside the editor, or through the transport of a
//! remote project.
use vstd::prelude::*;

use crate::config::RunOn;

verus! {

/// The variables of an environment, as pairs of name and value.
pub type Environment = Vec<(String, String)>;

/// The variables of an environment.
pub type EnvironmentView = Seq<(Seq<char>, Seq<char>)>;

/// A command transformed for the project's execution context: a transport
/// launcher (e.g. `ssh`) wrapping the user's command when executed remotely.
#[derive(Debug, PartialEq)]
pub struct ResolvedCommand {
    pub command: String,
    pub args: Vec<String>,
    pub env: Environment,
    pub cwd: Option<String>,
}

/// What a [`ResolvedCommand`] is.
pub struct ResolvedCommandView {
    pub command: Seq<char>,
    pub args: Seq<Seq<char>>,
    pub env: EnvironmentView,
    pub cwd: Option<Seq<char>>,
}

impl DeepView for ResolvedCommand {
    type V = ResolvedCommandView;

    open spec fn deep_view(&self) -> ResolvedCommandView {
        ResolvedCommandView {
            command: self.command@,
            args: self.args.deep_view(),
            env: self.env.deep_view(),
            cwd: self.cwd.deep_view(),
        }
    }
}

/// What a transport is asked to wrap: a command that is not interactive and
/// forwards no port, run at `cwd` on the other side.
#[derive(Debug, PartialEq)]
pub struct TransportRequest {
    pub command: String,
    pub args: Vec<String>,
    pub env: Environment,
    pub cwd: String,
}

/// What a [`TransportRequest`] is.
pub struct TransportRequestView {
    pub command: Seq<char>,
    pub args: Seq<Seq<char>>,
    pub env: EnvironmentView,
    pub cwd: Seq<char>,
}

impl DeepView for TransportRequest {
    type V = TransportRequestView;

    open spec fn deep_view(&self) -> TransportRequestView {
        TransportRequestView {
            command: self.command@,
            args: self.args.deep_view(),
            env: self.env.deep_view(),
            cwd: self.cwd@,
        }
    }
}

/// The launcher that a transport answers with.
#[derive(Debug, PartialEq)]
pub struct CommandTemplate {
    pub program: String,
    pub args: Vec<String>,
    pub env: Environment,
}

/// What a [`CommandTemplate`] is.
pub struct CommandTemplateView {
    pub program: Seq<char>,
    pub args: Seq<Seq<char>>,
    pub env: EnvironmentView,
}

impl DeepView for CommandTemplate {
    type V = CommandTemplateView;

    open spec fn deep_view(&self) -> CommandTemplateView {
        CommandTemplateView {
            program: self.program@,
            args: self.args.deep_view(),
            env: self.env.deep_view(),
        }
    }
}

/// How a command is to be run: as it stands, or as the transport wraps it.
#[derive(Debug, PartialEq)]
pub enum CommandPlan {
    Run(ResolvedCommand),
    AskTransport(TransportRequest),
}

/// What a [`CommandPlan`] is.
pub enum CommandPlanView {
    Run(ResolvedCommandView),
    AskTransport(TransportRequestView),
}

impl DeepView for CommandPlan {
    type V = CommandPlanView;

    open spec fn deep_view(&self) -> CommandPlanView {
        match self {
            CommandPlan::Run(command) => CommandPlanView::Run(command.deep_view()),
            CommandPlan::AskTransport(request) => CommandPlanView::AskTransport(
                request.deep_view(),
            ),
        }
    }
}

/// A local project runs the command at its working directory. In a remote one
/// the transport wraps it, unless it is forced to run locally: then the remote
/// path must not become a local working directory.
pub open spec fn command_plan(
    remote: bool,
    run_on: RunOn,
    command: Seq<char>,
    args: Seq<Seq<char>>,
    cwd: Seq<char>,
    env: EnvironmentView,
) -> CommandPlanView {
    if !remote {
        CommandPlanView::Run(ResolvedCommandView { command, args, env, cwd: Some(cwd) })
    } else if run_on == RunOn::Local {
        CommandPlanView::Run(ResolvedCommandView { command, args, env, cwd: None })
    } else {
        CommandPlanView::AskTransport(TransportRequestView { command, args, env, cwd })
    }
}

/// The command that a transport's answer stands for: the launcher, started
/// wherever the editor is, or the transport's error.
pub open spec fn wrapped_command(reply: Result<CommandTemplateView, Seq<char>>) -> Result<
    ResolvedCommandView,
    Seq<char>,
> {
    match reply {
        Ok(template) => Ok(
            ResolvedCommandView {
                command: template.program,
                args: template.args,
                env: template.env,
                cwd: None,
            },
        ),
        Err(error) => Err(error),
    }
}

/// Decides how a command is to be run. `remote` says whether the project has
/// a transport.
pub fn resolve_command(
    remote: bool,
    run_on: RunOn,
    command: String,
    args: Vec<String>,
    cwd: &str,
    env: Environment,
) -> (plan: CommandPlan)
    ensures
        plan.deep_view() == command_plan(
            remote,
            run_on,
            command@,
            args.deep_view(),
            cwd@,
            env.deep_view(),
        ),
{
    if !remote {
        CommandPlan::Run(ResolvedCommand { command, args, env, cwd: Some(cwd.to_owned()) })
    } else {
        match run_on {
            RunOn::Local => CommandPlan::Run(ResolvedCommand { command, args, env, cwd: None }),
            RunOn::Auto => CommandPlan::AskTransport(
                TransportRequest { command, args, env, cwd: cwd.to_owned() },
            ),
        }
    }
}

/// Takes the transport's answer to a [`TransportRequest`].
pub fn wrap_command(reply: Result<CommandTemplate, String>) -> (out: Result<
    ResolvedCommand,
    String,
>)
    ensures
        crate::model::result_view(out) == wrapped_command(crate::model::result_view(reply)),
{
    match reply {
        Ok(template) => Ok(
            ResolvedCommand {
                command: template.program,
                args: template.args,
                env: template.env,
                cwd: None,
            },
        ),
        Err(error) => Err(error),
    }
}

// ---------------------------------------------------------------------------
// Laws
// ---------------------------------------------------------------------------
/// The command that finally runs: the plan's own, or the one that the
/// transport's answer stands for.
pub open spec fn final_command(
    plan: CommandPlanView,
    reply: Result<CommandTemplateView, Seq<char>>,
) -> Result<ResolvedCommandView, Seq<char>> {
    match plan {
        CommandPlanView::Run(command) => Ok(command),
        CommandPlanView::AskTransport(_) => wrapped_command(reply),
    }
}

/// In a remote project no command is ever given a working directory on this
/// side, whatever the transport answers.
pub proof fn law_no_local_directory_in_a_remote_project(
    run_on: RunOn,
    command: Seq<char>,
    args: Seq<Seq<char>>,
    cwd: Seq<char>,
    env: EnvironmentView,
    reply: Result<CommandTemplateView, Seq<char>>,
)
    ensures
        final_command(command_plan(true, run_on, command, args, cwd, env), reply) matches Ok(
            resolved,
        ) ==> resolved.cwd is None,
{
}

/// The transport is asked exactly for a command of a remote project that is
/// not forced to run locally, and then for that command in full.
pub proof fn law_transport_is_asked_for_auto_only(
    remote: bool,
    run_on: RunOn,
    command: Seq<char>,
    args: Seq<Seq<char>>,
    cwd: Seq<char>,
    env: EnvironmentView,
)
    ensures
        command_plan(remote, run_on, command, args, cwd, env) is AskTransport <==> remote && run_on
            == RunOn::Auto,
        command_plan(remote, run_on, command, args, cwd, env) matches CommandPlanView::AskTransport(
            request,
        ) ==> request == (TransportRequestView { command, args, env, cwd }),
{
}

/// A transport that fails is an error, never a reason to run the command
/// locally.
pub proof fn law_transport_failure_is_no_local_fallback(
    command: Seq<char>,
    args: Seq<Seq<char>>,
    cwd: Seq<char>,
    env: EnvironmentView,
    error: Seq<char>,
)
    ensures
        final_command(command_plan(true, RunOn::Auto, command, args, cwd, env), Err(error)) == Err::<
            ResolvedCommandView,
            Seq<char>,
        >(error),
{
}

/// What a remote project runs is the transport's launcher, in the launcher's
/// own environment: the project's environment went into the request.
pub proof fn law_remote_project_runs_the_launcher(
    command: Seq<char>,
    args: Seq<Seq<char>>,
    cwd: Seq<char>,
    env: EnvironmentView,
    template: CommandTemplateView,
)
    ensures
        final_command(command_plan(true, RunOn::Auto, command, args, cwd, env), Ok(template)) == Ok::<
            ResolvedCommandView,
            Seq<char>,
        >(
            ResolvedCommandView {
                command: template.program,
                args: template.args,
                env: template.env,
                cwd: None,
            },
        ),
{
}

/// Without a transport the policy makes no difference: the command runs as it
/// is, at the working directory.
pub proof fn law_local_project_ignores_the_policy(
    run_on: RunOn,
    command: Seq<char>,
    args: Seq<Seq<char>>,
    cwd: Seq<char>,
    env: EnvironmentView,
)
    ensures
        command_plan(false, run_on, command, args, cwd, env) == CommandPlanView::Run(
            ResolvedCommandView { command, args, env, cwd: Some(cwd) },
        ),
{
}

/// A command of a remote project that is forced to run locally runs as it is,
/// in the environment it was given and at no directory of the project.
pub proof fn law_forced_command_runs_as_it_is(
    command: Seq<char>,
    args: Seq<Seq<char>>,
    cwd: Seq<char>,
    env: EnvironmentView,
    reply: Result<CommandTemplateView, Seq<char>>,
)
    ensures
        final_command(command_plan(true, RunOn::Local, command, args, cwd, env), reply) == Ok::<
            ResolvedCommandView,
            Seq<char>,
        >(ResolvedCommandView { command, args, env, cwd: None }),
{
}

} // verus!
