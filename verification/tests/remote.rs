use finder::config::RunOn;
use finder::remote::{
    resolve_command, wrap_command, CommandPlan, CommandTemplate, Environment, ResolvedCommand,
    TransportRequest,
};

fn local_env() -> Environment {
    vec![("PATH".to_string(), "/project/.bin".to_string())]
}

/// A transport that runs everything through one program.
fn mock_transport(request: TransportRequest) -> Result<CommandTemplate, String> {
    let mut args = vec![request.command];
    args.extend(request.args);
    Ok(CommandTemplate { program: "mock".into(), args, env: request.env })
}

fn resolve(
    remote: bool,
    run_on: RunOn,
    cwd: &str,
    transport: impl Fn(TransportRequest) -> Result<CommandTemplate, String>,
) -> Result<ResolvedCommand, String> {
    match resolve_command(remote, run_on, "rg".into(), vec!["--files".into()], cwd, local_env()) {
        CommandPlan::Run(resolved) => Ok(resolved),
        CommandPlan::AskTransport(request) => wrap_command(transport(request)),
    }
}

#[test]
fn auto_routes_through_the_transport_when_a_remote_client_is_present() {
    let resolved = resolve(true, RunOn::Auto, "/remote/project", mock_transport)
        .expect("the mock transport builds commands");

    assert_eq!(resolved.command, "mock");
    assert_eq!(resolved.args, vec!["rg", "--files"]);
    assert_eq!(resolved.cwd, None, "the cd belongs to the transport");
    assert_eq!(resolved.env, local_env());
}

#[test]
fn the_transport_is_asked_for_the_command_at_the_remote_directory() {
    let plan = resolve_command(
        true,
        RunOn::Auto,
        "rg".into(),
        vec!["--files".into()],
        "/remote/project",
        local_env(),
    );
    assert_eq!(
        plan,
        CommandPlan::AskTransport(TransportRequest {
            command: "rg".into(),
            args: vec!["--files".into()],
            env: local_env(),
            cwd: "/remote/project".into(),
        })
    );
}

#[test]
fn local_overrides_the_transport_and_drops_the_remote_working_directory() {
    let resolved = resolve(true, RunOn::Local, "/remote/project", |_| {
        panic!("forced-local never consults the transport")
    })
    .expect("forced-local never consults the transport");

    assert_eq!(resolved.command, "rg");
    assert_eq!(resolved.args, vec!["--files"]);
    assert_eq!(
        resolved.cwd, None,
        "a remote path must not reach a local current_dir"
    );
}

#[test]
fn without_a_remote_client_the_command_runs_locally_at_the_working_directory() {
    for run_on in [RunOn::Auto, RunOn::Local] {
        let resolved = resolve(false, run_on, "/local/project", mock_transport)
            .expect("the local branch cannot fail");

        assert_eq!(resolved.command, "rg");
        assert_eq!(resolved.args, vec!["--files"]);
        assert_eq!(resolved.cwd, Some("/local/project".to_string()));
        assert_eq!(resolved.env, local_env());
    }
}

#[test]
fn an_unavailable_transport_connection_is_an_error_not_a_local_fallback() {
    let result = resolve(true, RunOn::Auto, "/remote/project", |_| {
        Err("no connection to the server".to_string())
    });

    let error = result.expect_err("no transport connection");
    assert!(
        error.to_string().contains("connection"),
        "unexpected error: {error}"
    );
}
