use finder::config::{Outcome, RunOn};
use finder::diagnostic::{
    first_non_empty_line, FirstLine, StreamRead, StreamState, MAX_DIAGNOSTIC_LINE_BYTES,
};
use finder::json::Json;
use finder::outcome::{
    apply_outcome, command_failure, cursor, open_path, point_of, resolve_entry_path,
    resolve_outcome_path, CommandExit, OpenPath, OutcomeAction, OutcomeReply, OutcomeRun,
    PathWithPosition, Point,
};
use finder::platform::Platform;
use finder::remote::{CommandTemplate, ResolvedCommand};

/// Reads `:row:col` or `:row` off the end of a path.
fn parse_position(text: &str) -> PathWithPosition {
    let split = |text: &str| -> Option<(String, u32)> {
        let (path, number) = text.rsplit_once(':')?;
        Some((path.to_string(), number.parse().ok()?))
    };
    match split(text) {
        None => PathWithPosition { path: text.to_string(), row: None, column: None },
        Some((path, last)) => match split(&path) {
            Some((path, row)) => PathWithPosition { path, row: Some(row), column: Some(last) },
            None => PathWithPosition { path, row: Some(last), column: None },
        },
    }
}

#[test]
fn an_absolute_entry_is_used_as_is() {
    assert_eq!(resolve_entry_path("/etc/hosts", "/project"), "/etc/hosts");
}

#[test]
fn a_relative_entry_resolves_against_the_working_directory() {
    assert_eq!(
        resolve_entry_path("src/main.rs", "/project"),
        "/project/src/main.rs"
    );
}

#[test]
fn resolving_joins_with_one_separator() {
    assert_eq!(resolve_entry_path("a", "/"), "/a");
    assert_eq!(resolve_entry_path("a", "/project/"), "/project/a");
    assert_eq!(resolve_entry_path("a", ""), "a");
    assert_eq!(resolve_entry_path("", "/project"), "/project/");
    for (entry, cwd) in [("a/b", "/p"), ("", "/p"), ("/x", "/p"), ("a", "/p/")] {
        assert_eq!(
            resolve_entry_path(entry, cwd),
            std::path::Path::new(cwd).join(entry).to_string_lossy()
        );
        assert_eq!(
            Platform::current().resolve(entry, cwd),
            std::path::Path::new(cwd).join(entry).to_string_lossy()
        );
    }
}

fn resolve(outcome: &Outcome, entry: &str, delimiter: Option<&str>) -> PathWithPosition {
    resolve_outcome_path(outcome, entry, "/project", delimiter, Platform::current(), parse_position)
        .expect("this outcome opens a path")
        .expect("the template applied")
}

#[test]
fn open_path_defaults_to_the_whole_entry() {
    let resolved = resolve(&Outcome::OpenPath { path: None }, "src/main.rs", None);
    assert_eq!(resolved.path, "/project/src/main.rs");
    assert_eq!(resolved.row, None);
}

/// `git status --porcelain` puts the path in the second Field.
#[test]
fn open_path_can_name_a_field() {
    let resolved = resolve(
        &Outcome::OpenPath {
            path: Some("{2}".into()),
        },
        " M src/main.rs",
        None,
    );
    assert_eq!(resolved.path, "/project/src/main.rs");
}

/// Parsed from the right, so a path may contain the delimiter.
#[test]
fn open_path_at_position_reads_a_trailing_row_and_column() {
    let resolved = resolve(
        &Outcome::OpenPathAtPosition { path: None },
        "src/main.rs:12:3",
        Some(":"),
    );
    assert_eq!(resolved.path, "/project/src/main.rs");
    assert_eq!(resolved.row, Some(12));
    assert_eq!(resolved.column, Some(3));
}

/// A ripgrep line: only the first three Fields are the target; the text
/// may itself contain the delimiter.
#[test]
fn a_ripgrep_line_resolves_to_its_file_and_position() {
    let resolved = resolve(
        &Outcome::OpenPathAtPosition {
            path: Some("{1}:{2}:{3}".into()),
        },
        "src/main.rs:12:3:let ratio = a:b;",
        Some(":"),
    );
    assert_eq!(resolved.path, "/project/src/main.rs");
    assert_eq!(resolved.row, Some(12));
    assert_eq!(resolved.column, Some(3));
}

#[test]
fn open_path_does_not_read_a_row_from_a_file_named_like_one() {
    let resolved = resolve(&Outcome::OpenPath { path: None }, "notes:2024", None);
    assert_eq!(resolved.path, "/project/notes:2024");
    assert_eq!(resolved.row, None);
}

#[test]
fn naming_a_field_an_entry_does_not_have_is_reported() {
    let error = resolve_outcome_path(
        &Outcome::OpenPath {
            path: Some("{3}".into()),
        },
        "one two",
        "/project",
        None,
        Platform::current(),
        parse_position,
    )
    .expect("this outcome opens a path")
    .expect_err("the entry has no third field");

    assert!(error.contains("field 3"), "got {error:?}");
}

#[test]
fn command_diagnostics_skip_blank_lines_and_bound_the_first_detail() {
    let long_detail = "x".repeat(MAX_DIAGNOSTIC_LINE_BYTES + 100);
    let output = format!("\n  \r\n{long_detail}\nignored\n");
    let retained = first_non_empty_line(output.as_bytes()).expect("diagnostic retained");

    assert_eq!(retained, "x".repeat(MAX_DIAGNOSTIC_LINE_BYTES));
}

#[test]
fn diagnostics_do_not_depend_on_the_chunks() {
    let output = "\n \n first \nsecond".as_bytes();
    for n in 1..output.len() {
        let mut search = FirstLine::new();
        for chunk in output.chunks(n) {
            search.read(chunk);
        }
        assert_eq!(search.finish().as_deref(), Some("first"));
    }
}

#[test]
fn diagnostics_take_the_last_line_without_its_end() {
    assert_eq!(first_non_empty_line(b"only").as_deref(), Some("only"));
    assert_eq!(first_non_empty_line(b"\n\n  \n"), None);
    assert_eq!(first_non_empty_line(b""), None);
}

#[test]
fn diagnostics_decode_what_is_utf8() {
    let output = " \n\u{fc}ber \u{1f600}\nrest";
    assert_eq!(first_non_empty_line(output.as_bytes()).as_deref(), Some("\u{fc}ber \u{1f600}"));
    let mut search = FirstLine::new();
    for byte in output.as_bytes() {
        search.read(&[*byte]);
    }
    assert_eq!(search.finish().as_deref(), Some("\u{fc}ber \u{1f600}"));
}

#[test]
fn a_stream_is_read_to_its_end() {
    let mut state: StreamState<String> = StreamState::new();
    for chunk in [&b" \nfi"[..], b"rst\nsec", b"ond\n"] {
        state = state.read(StreamRead::Bytes(chunk));
        assert!(matches!(state, StreamState::Reading(_)));
    }
    let done = state.read(StreamRead::Ended);
    assert!(matches!(&done, StreamState::Done(Ok(Some(line))) if line == "first"));
    let done = done.read(StreamRead::Failed("late".to_string()));
    assert!(matches!(done, StreamState::Done(Ok(Some(line))) if line == "first"));

    let state: StreamState<String> = StreamState::new();
    assert!(matches!(state.read(StreamRead::Ended), StreamState::Done(Ok(None))));
}

#[test]
fn a_stream_that_cannot_be_read_is_an_error() {
    let state: StreamState<String> = StreamState::new();
    let state = state.read(StreamRead::Bytes(b"first\n"));
    let done = state.read(StreamRead::Failed("broken pipe".to_string()));
    assert!(matches!(done, StreamState::Done(Err(error)) if error == "broken pipe"));
}

#[test]
fn diagnostics_replace_what_is_not_utf8() {
    assert_eq!(first_non_empty_line(b"a\xffb\n").as_deref(), Some("a\u{fffd}b"));
    assert_eq!(first_non_empty_line("größe\n".as_bytes()).as_deref(), Some("größe"));
}

#[test]
fn a_command_failure_prefers_stderr_and_reports_the_exit_status() {
    let message = command_failure(
        "git",
        CommandExit {
            code: Some(128),
            stdout: Some("stdout detail".into()),
            stderr: Some("fatal: invalid reference".into()),
        },
    );

    assert_eq!(
        message,
        "`git` exited with status 128: fatal: invalid reference"
    );
}

#[test]
fn a_command_failure_uses_stdout_when_stderr_is_empty() {
    let message = command_failure(
        "git",
        CommandExit {
            code: Some(1),
            stdout: Some("stdout detail".into()),
            stderr: Some(String::new()),
        },
    );

    assert_eq!(message, "`git` exited with status 1: stdout detail");
}

#[test]
fn a_command_failure_without_details_says_how_it_ended() {
    let exit = |code| CommandExit { code, stdout: Some(" ".into()), stderr: None };
    assert_eq!(command_failure("git", exit(Some(-9))), "`git` exited with status -9");
    assert_eq!(command_failure("git", exit(None)), "`git` was terminated by a signal");
}

#[test]
fn dispatch_action_has_no_path_to_resolve() {
    assert!(resolve_outcome_path(
        &Outcome::DispatchAction {
            action: "zed::OpenBrowser".into(),
            args: None,
        },
        "https://zed.dev",
        "/project",
        None,
        Platform::current(),
        parse_position,
    )
    .is_none());
}

fn begin(outcome: &Outcome, entry: &str, remote: bool, run_on: RunOn) -> (OutcomeRun, OutcomeAction) {
    apply_outcome(outcome, entry, "/project", None, run_on, remote, Platform::current(), parse_position)
}

#[test]
fn a_path_outcome_opens_its_target_and_is_done() {
    let (run, action) = begin(&Outcome::OpenPath { path: None }, "a.rs", true, RunOn::Local);
    assert_eq!(run, OutcomeRun::Done);
    assert_eq!(
        action,
        OutcomeAction::OpenPath(PathWithPosition {
            path: "/project/a.rs".into(),
            row: None,
            column: None,
        })
    );
}

#[test]
fn an_action_outcome_dispatches_or_says_why_not() {
    let outcome = Outcome::DispatchAction {
        action: "task::Spawn".into(),
        args: Some(Json::Text("go {1}".into())),
    };
    let (run, action) = begin(&outcome, "main x", false, RunOn::Auto);
    assert_eq!(
        action,
        OutcomeAction::DispatchAction {
            action: "task::Spawn".into(),
            args: Some(Json::Text("go main".into())),
        }
    );
    let (run, action) = run.reply(OutcomeReply::Dispatched(Err("no such action".into())));
    assert_eq!(run, OutcomeRun::Done);
    assert_eq!(
        action,
        OutcomeAction::ShowError("`task::Spawn` could not run: no such action".into())
    );

    let (run, _) = begin(&outcome, "main x", false, RunOn::Auto);
    let (run, action) = run.reply(OutcomeReply::Dispatched(Ok(())));
    assert_eq!((run, action), (OutcomeRun::Done, OutcomeAction::Nothing));

    let (run, action) = begin(&outcome, "", false, RunOn::Auto);
    assert_eq!(run, OutcomeRun::Done);
    assert_eq!(
        action,
        OutcomeAction::ShowError("`{1}` needs field 1 but `` has 0".into())
    );
}

fn run_outcome() -> Outcome {
    Outcome::RunCommand { command: "git".into(), args: vec!["checkout".into(), "{1}".into()] }
}

fn running(remote: bool, run_on: RunOn) -> (OutcomeRun, OutcomeAction) {
    let (run, action) = begin(&run_outcome(), "main x", remote, run_on);
    assert_eq!(action, OutcomeAction::FindEnvironment);
    run.reply(OutcomeReply::Environment(Some(vec![("A".into(), "b".into())])))
}

#[test]
fn a_command_outcome_runs_at_the_working_directory() {
    let (run, action) = running(false, RunOn::Auto);
    assert_eq!(
        action,
        OutcomeAction::RunCommand(ResolvedCommand {
            command: "git".into(),
            args: vec!["checkout".into(), "main".into()],
            env: vec![("A".into(), "b".into())],
            cwd: Some("/project".into()),
        })
    );
    let exit = CommandExit { code: Some(0), stdout: Some("out".into()), stderr: Some("err".into()) };
    let (run, action) = run.reply(OutcomeReply::Ran(Ok(exit)));
    assert_eq!((run, action), (OutcomeRun::Done, OutcomeAction::Nothing));
}

#[test]
fn a_command_outcome_reports_every_kind_of_failure() {
    let (run, _) = running(false, RunOn::Auto);
    let exit = CommandExit { code: Some(1), stdout: None, stderr: Some("bad".into()) };
    assert_eq!(
        run.reply(OutcomeReply::Ran(Ok(exit))).1,
        OutcomeAction::ShowError("`git` exited with status 1: bad".into())
    );

    let (run, _) = running(false, RunOn::Auto);
    assert_eq!(
        run.reply(OutcomeReply::Ran(Err("not found".into()))).1,
        OutcomeAction::ShowError("Could not run `git`: not found".into())
    );

    let (run, _) = begin(&run_outcome(), "main x", false, RunOn::Auto);
    assert_eq!(
        run.reply(OutcomeReply::Environment(None)).1,
        OutcomeAction::ShowError(
            "Could not run `git`: the project environment was unavailable".into()
        )
    );

    let (run, action) = begin(&run_outcome(), "", false, RunOn::Auto);
    assert_eq!(run, OutcomeRun::Done);
    assert!(matches!(action, OutcomeAction::ShowError(_)));
}

#[test]
fn a_command_outcome_goes_through_the_transport() {
    let (run, action) = running(true, RunOn::Auto);
    let OutcomeAction::AskTransport(request) = action else {
        panic!("expected the transport to be asked");
    };
    assert_eq!((request.command.as_str(), request.cwd.as_str()), ("git", "/project"));
    let (run, action) = run.reply(OutcomeReply::Transport(Ok(CommandTemplate {
        program: "ssh".into(),
        args: vec!["git".into()],
        env: Vec::new(),
    })));
    assert_eq!(
        action,
        OutcomeAction::RunCommand(ResolvedCommand {
            command: "ssh".into(),
            args: vec!["git".into()],
            env: Vec::new(),
            cwd: None,
        })
    );
    assert_eq!(run, OutcomeRun::Running { command: "git".into() });

    let (run, _) = running(true, RunOn::Auto);
    let (run, action) = run.reply(OutcomeReply::Transport(Err("connection lost".into())));
    assert_eq!(run, OutcomeRun::Done);
    assert_eq!(action, OutcomeAction::ShowError("Could not run `git`: connection lost".into()));

    let (_, action) = running(true, RunOn::Local);
    assert!(matches!(
        action,
        OutcomeAction::RunCommand(ResolvedCommand { cwd: None, .. })
    ));
}

#[test]
fn a_reply_to_something_else_changes_nothing() {
    let (run, _) = running(false, RunOn::Auto);
    let (run, action) = run.reply(OutcomeReply::Environment(None));
    assert_eq!(run, OutcomeRun::Running { command: "git".into() });
    assert_eq!(action, OutcomeAction::Nothing);
    let (run, action) = OutcomeRun::Done.reply(OutcomeReply::Ran(Err("x".into())));
    assert_eq!((run, action), (OutcomeRun::Done, OutcomeAction::Nothing));
}

#[test]
fn a_path_that_is_gone_is_not_opened() {
    let target = PathWithPosition { path: "/p/a".into(), row: Some(1), column: None };
    assert_eq!(open_path(&target, true), OpenPath::Open("/p/a".into()));
    assert_eq!(
        open_path(&target, false),
        OpenPath::ShowError("/p/a no longer exists".into())
    );
}

#[test]
fn the_cursor_counts_from_zero() {
    let target = |row, column| PathWithPosition { path: "/p/a".into(), row, column };
    assert_eq!(cursor(&target(Some(3), Some(2)), true), Some(Point { row: 2, column: 1 }));
    assert_eq!(cursor(&target(Some(3), None), true), Some(Point { row: 2, column: 0 }));
    assert_eq!(cursor(&target(Some(0), Some(0)), true), Some(Point { row: 0, column: 0 }));
    assert_eq!(cursor(&target(None, Some(2)), true), None);
    assert_eq!(cursor(&target(Some(3), Some(2)), false), None);
    assert_eq!(point_of(None, None), Point { row: 0, column: 0 });
}
