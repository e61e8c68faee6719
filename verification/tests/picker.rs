use finder::config::RunOn;
use finder::delegate::{
    preview_of, start_source, start_wrapped_source, MatchPlan, PathClass, PreviewUpdate,
    SourceRequest, StringMatch, MAX_MATCHES,
};
use finder::json::Json;
use finder::open::OpenFinder;
use finder::outcome::{cursor, open_path, OpenPath, OutcomeAction, PathWithPosition, Point};
use finder::platform::Platform;
use finder::remote::{CommandPlan, ResolvedCommand};
use finder::source::{
    run_source, SourceEvent, SourceFailure, SourceHappening, SourceRun, SourceUpdate,
};
use finder::{open_finder, FinderDelegate, FinderRegistry};

/// A Finder whose Outcome opens the Entry as a path.
const OPEN_PATH_CONFIG: &str = r#"
    [finder.demo]
    label = "Demo"
    source = { type = "command", command = "list", args = [] }
    outcome = { type = "open_path" }
"#;

/// The same Finder, with a Preview.
const PREVIEW_CONFIG: &str = r#"
    [finder.demo]
    label = "Demo"
    source = { type = "command", command = "list", args = [] }
    outcome = { type = "open_path" }
    preview = { type = "path" }
"#;

const QUERY_CONFIG: &str = r#"
    [finder.demo]
    source = { type = "query", command = "rg", args = ["-e", "{query}"] }
    outcome = { type = "open_path" }
"#;

fn open_demo(config: &str) -> FinderDelegate {
    let mut registry = FinderRegistry::new();
    registry.apply(config);
    match open_finder(Some(&registry), "demo", Some("/project")) {
        OpenFinder::Show { config, cwd } => FinderDelegate::new(config, cwd),
        other => panic!("expected the picker, got {other:?}"),
    }
}

fn line(text: &str) -> SourceHappening {
    SourceHappening::Event(SourceEvent::Line(text.to_string()))
}

fn exit(code: i32, stderr: &str) -> SourceHappening {
    SourceHappening::Event(SourceEvent::Exited { code: Some(code), stderr: stderr.to_string() })
}

fn emitting(lines: &[&str]) -> Vec<SourceHappening> {
    let mut history = vec![SourceHappening::Spawned];
    history.extend(lines.iter().map(|text| line(text)));
    history.push(exit(0, ""));
    history
}

/// Lists what the Query leaves, by looking for it in the Entries.
fn show(picker: &mut FinderDelegate, query: &str) {
    match picker.update_matches(query) {
        MatchPlan::List { matches, selected } => picker.install_matches(matches, selected),
        MatchPlan::Match { query, limit, selected } => {
            let matches = picker
                .entries()
                .iter()
                .enumerate()
                .filter(|(_, entry)| entry.contains(&query))
                .take(limit)
                .map(|(candidate_id, entry)| StringMatch {
                    candidate_id,
                    positions: Vec::new(),
                    string: entry.clone(),
                })
                .collect();
            picker.install_matches(matches, selected);
        }
        other => panic!("expected something to list, got {other:?}"),
    }
}

fn feed(picker: &mut FinderDelegate, run: &mut SourceRun, history: Vec<SourceHappening>) {
    for happening in history {
        for update in run.step(happening) {
            picker.apply(update);
            show(picker, "");
        }
    }
}

fn opened_after(config: &str, history: Vec<SourceHappening>) -> FinderDelegate {
    let mut picker = open_demo(config);
    show(&mut picker, "");
    feed(&mut picker, &mut SourceRun::new("list".to_string()), history);
    picker
}

fn selected(picker: &FinderDelegate) -> Option<String> {
    picker.matched_entries().get(picker.selected_index()).cloned()
}

fn parse_position(text: &str) -> PathWithPosition {
    let plain = PathWithPosition { path: text.to_string(), row: None, column: None };
    let Some((rest, column)) = text.rsplit_once(':') else {
        return plain;
    };
    let Some((path, row)) = rest.rsplit_once(':') else {
        return plain;
    };
    match (row.parse(), column.parse()) {
        (Ok(row), Ok(column)) => PathWithPosition {
            path: path.to_string(),
            row: Some(row),
            column: Some(column),
        },
        _ => plain,
    }
}

/// What the paths of a small project are.
fn classify(path: &str) -> PathClass {
    match path {
        "/project/a.rs" | "/project/sub/c.rs" | "/project/multi.rs" => PathClass::File,
        "/project/sub" => PathClass::Directory,
        _ if path.starts_with("/project/") => PathClass::Gone,
        _ => PathClass::Outside,
    }
}

fn confirm(picker: &FinderDelegate) -> Option<OutcomeAction> {
    picker.confirm(false, Platform::current(), parse_position).map(|(_, action)| action)
}

fn opened_path(action: Option<OutcomeAction>) -> String {
    match action {
        Some(OutcomeAction::OpenPath(target)) => match open_path(&target, true) {
            OpenPath::Open(path) => path,
            OpenPath::ShowError(message) => panic!("expected it to open: {message}"),
        },
        other => panic!("expected a path, got {other:?}"),
    }
}

#[test]
fn opens_before_the_source_has_produced_anything() {
    let picker = opened_after(OPEN_PATH_CONFIG, vec![SourceHappening::Spawned]);
    assert_eq!(picker.matched_entries(), Vec::<String>::new());
    assert_eq!(picker.status_text().as_deref(), Some("Running…"));
    assert_eq!(picker.no_matches_text(), "Running…");
}

#[test]
fn populates_entries_once_the_source_finishes() {
    let picker = opened_after(OPEN_PATH_CONFIG, emitting(&["a.rs", "b.rs"]));
    assert_eq!(picker.matched_entries(), vec!["a.rs", "b.rs"]);
    assert_eq!(picker.status_text(), None);
    assert_eq!(picker.footer_text(), None);
    assert_eq!(picker.match_count(), 2);
}

/// Entries appear while the Source is still running, rather than only at the
/// end. The picker is usable throughout.
#[test]
fn shows_entries_while_the_source_is_still_running() {
    let mut picker = open_demo(OPEN_PATH_CONFIG);
    let mut run = SourceRun::new("list".to_string());
    feed(
        &mut picker,
        &mut run,
        vec![SourceHappening::Spawned, line("a.rs"), SourceHappening::FlushDue],
    );
    assert_eq!(picker.matched_entries(), vec!["a.rs"]);
    assert_eq!(
        picker.status_text().as_deref(),
        Some("Running…"),
        "the source is still going"
    );

    feed(&mut picker, &mut run, vec![line("b.rs"), exit(0, "")]);
    assert_eq!(picker.matched_entries(), vec!["a.rs", "b.rs"]);
    assert_eq!(picker.status_text(), None);
}

/// A Source that keeps producing is never abandoned for slowness, even when the
/// gaps between Entries exceed the timeout that guards its first output.
#[test]
fn a_slow_but_productive_source_is_not_abandoned() {
    let picker = opened_after(
        OPEN_PATH_CONFIG,
        vec![
            SourceHappening::Spawned,
            line("a.rs"),
            SourceHappening::FlushDue,
            SourceHappening::TimedOut,
            line("b.rs"),
            exit(0, ""),
        ],
    );
    assert_eq!(picker.matched_entries(), vec!["a.rs", "b.rs"]);
    assert_eq!(picker.footer_text(), None);
}

/// The selection is anchored to the Entry, not the index: Entries arriving
/// underneath must not drag the highlight back to the top of the list.
#[test]
fn arriving_entries_do_not_move_the_selection() {
    let mut picker = open_demo(OPEN_PATH_CONFIG);
    let mut run = SourceRun::new("list".to_string());
    feed(
        &mut picker,
        &mut run,
        vec![SourceHappening::Spawned, line("a.rs"), line("b.rs"), SourceHappening::FlushDue],
    );
    picker.set_selected_index(1);
    assert_eq!(selected(&picker).as_deref(), Some("b.rs"));

    feed(&mut picker, &mut run, vec![line("c.rs"), exit(0, "")]);
    assert_eq!(picker.matched_entries(), vec!["a.rs", "b.rs", "c.rs"]);
    assert_eq!(
        selected(&picker).as_deref(),
        Some("b.rs"),
        "the selection followed the entry, not the index"
    );
}

/// Typing is the one thing that *should* reset the selection.
#[test]
fn typing_a_query_resets_the_selection() {
    let mut picker = opened_after(OPEN_PATH_CONFIG, emitting(&["a.rs", "b.rs"]));
    picker.set_selected_index(1);
    assert_eq!(selected(&picker).as_deref(), Some("b.rs"));

    show(&mut picker, ".rs");
    assert_eq!(picker.selected_index(), 0, "a new query starts from the top");
}

#[test]
fn filters_entries_by_the_typed_query() {
    let mut picker = opened_after(OPEN_PATH_CONFIG, emitting(&["a.rs", "b.rs", "notes.md"]));
    show(&mut picker, "notes");
    assert_eq!(picker.matched_entries(), vec!["notes.md"]);
    assert_eq!(picker.match_at(0).map(|found| found.candidate_id), Some(2));
    assert!(picker.match_at(1).is_none());
}

#[test]
fn a_query_is_matched_against_the_entries_up_to_the_limit() {
    let mut picker = opened_after(OPEN_PATH_CONFIG, emitting(&["a.rs"]));
    assert_eq!(
        picker.update_matches("a"),
        MatchPlan::Match { query: "a".into(), limit: MAX_MATCHES, selected: None }
    );
}

#[test]
fn a_failing_source_explains_itself_in_the_empty_state() {
    let picker = opened_after(
        OPEN_PATH_CONFIG,
        vec![SourceHappening::SpawnFailed { reason: "No such file or directory".to_string() }],
    );
    assert_eq!(picker.matched_entries(), Vec::<String>::new());
    let status = picker.status_text().expect("a reason is shown");
    assert!(
        status.contains("No such file or directory"),
        "expected the spawn failure, got {status:?}"
    );
}

/// A Source that fails partway keeps the Entries it already produced; the
/// failure moves to the footer rather than replacing them.
#[test]
fn a_late_failure_keeps_the_entries_and_moves_to_the_footer() {
    let picker = opened_after(
        OPEN_PATH_CONFIG,
        vec![
            SourceHappening::Spawned,
            line("a.rs"),
            line("b.rs"),
            exit(1, "fatal: interrupted"),
        ],
    );
    assert_eq!(picker.matched_entries(), vec!["a.rs", "b.rs"]);
    let footer = picker.footer_text().expect("the failure is still reported");
    assert!(
        footer.contains("fatal: interrupted"),
        "expected the failure in the footer, got {footer:?}"
    );
    assert_eq!(picker.status_text(), None);
}

#[test]
fn a_source_that_produces_nothing_times_out() {
    let picker = opened_after(
        OPEN_PATH_CONFIG,
        vec![SourceHappening::Spawned, SourceHappening::TimedOut, line("too late")],
    );
    let status = picker.status_text().expect("a reason is shown");
    assert!(
        status.contains("produced nothing"),
        "expected a timeout, got {status:?}"
    );
}

#[test]
fn a_truncated_source_says_so_below_the_list() {
    let mut picker = open_demo(OPEN_PATH_CONFIG);
    picker.apply(SourceUpdate::Entries(vec!["a".into()]));
    picker.apply(SourceUpdate::Finished { truncated: true });
    assert_eq!(picker.footer_text().as_deref(), Some("Showing the first 100000 entries"));
    assert_eq!(picker.no_matches_text(), "No matches");
}

#[test]
fn a_whole_run_reaches_the_picker() {
    let mut picker = open_demo(OPEN_PATH_CONFIG);
    for update in run_source("list".to_string(), emitting(&[" a ", "", "b"])) {
        picker.apply(update);
    }
    assert_eq!(picker.entries(), &vec!["a".to_string(), "b".to_string()]);
    assert_eq!(picker.status_text(), None);
}

#[test]
fn without_a_query_only_the_first_entries_are_listed() {
    let mut picker = open_demo(OPEN_PATH_CONFIG);
    let entries: Vec<String> = (0..MAX_MATCHES + 5).map(|i| i.to_string()).collect();
    picker.apply(SourceUpdate::Entries(entries));
    show(&mut picker, "");
    assert_eq!(picker.match_count(), MAX_MATCHES);
    assert_eq!(picker.matched_entries()[MAX_MATCHES - 1], (MAX_MATCHES - 1).to_string());
}

#[test]
fn confirming_an_open_path_outcome_opens_the_file() {
    let picker = opened_after(OPEN_PATH_CONFIG, emitting(&["a.rs"]));
    assert_eq!(opened_path(confirm(&picker)), "/project/a.rs");
}

#[test]
fn confirming_a_dispatch_action_outcome_substitutes_the_entry() {
    let picker = opened_after(
        r#"
        [finder.demo]
        source = { type = "command", command = "list" }
        outcome = { type = "dispatch_action", action = "finder_test::Record", args = { value = "picked-{}" } }
        "#,
        emitting(&["a.rs"]),
    );
    assert_eq!(
        confirm(&picker),
        Some(OutcomeAction::DispatchAction {
            action: "finder_test::Record".into(),
            args: Some(Json::Object(vec![(
                "value".to_string(),
                Json::Text("picked-a.rs".to_string()),
            )])),
        })
    );
}

/// `git status --porcelain` shape: the path is the second Field.
#[test]
fn an_outcome_opens_the_path_named_by_a_field() {
    let picker = opened_after(
        r#"
        [finder.demo]
        source = { type = "command", command = "list" }
        outcome = { type = "open_path", path = "{2}" }
        "#,
        emitting(&[" M a.rs"]),
    );
    assert_eq!(opened_path(confirm(&picker)), "/project/a.rs");
}

/// A ripgrep-shaped Entry: the trailing `:row:col` moves the cursor, and the
/// matched text after it is ignored.
#[test]
fn an_outcome_can_jump_to_a_row_and_column() {
    let picker = opened_after(
        r#"
        [finder.demo]
        delimiter = ":"
        source = { type = "command", command = "list" }
        outcome = { type = "open_path_at_position", path = "{1}:{2}:{3}" }
        "#,
        emitting(&["multi.rs:3:2:three"]),
    );
    let Some(OutcomeAction::OpenPath(target)) = confirm(&picker) else {
        panic!("expected a path");
    };
    assert_eq!(target.path, "/project/multi.rs");
    let head = cursor(&target, true).expect("the target names a row");
    assert_eq!(head, Point { row: 2, column: 1 });

    // "one\ntwo\nthree\n": row 3, column 2 is the `h` at offset 9.
    let text = "one\ntwo\nthree\n";
    let start: usize = text.lines().take(head.row as usize).map(|line| line.len() + 1).sum();
    assert_eq!(start + head.column as usize, 9);
}

/// A Finder that names a Field its Entries do not have reports the mistake
/// rather than opening something empty.
#[test]
fn naming_a_missing_field_reports_instead_of_opening() {
    let picker = opened_after(
        r#"
        [finder.demo]
        source = { type = "command", command = "list" }
        outcome = { type = "open_path", path = "{3}" }
        "#,
        emitting(&["a.rs"]),
    );
    assert_eq!(
        confirm(&picker),
        Some(OutcomeAction::ShowError("`{3}` needs field 3 but `a.rs` has 1".into()))
    );
}

#[test]
fn confirming_an_empty_list_does_nothing() {
    let picker = open_demo(OPEN_PATH_CONFIG);
    assert!(confirm(&picker).is_none());
}

fn preview_target(picker: &FinderDelegate) -> Option<PreviewUpdate> {
    picker.preview_target(Platform::current(), parse_position, classify)
}

#[test]
fn a_finder_without_a_preview_has_nothing_to_show() {
    let picker = opened_after(OPEN_PATH_CONFIG, emitting(&["a.rs"]));
    assert!(preview_target(&picker).is_none());
}

#[test]
fn a_relative_entry_previews_the_file_under_the_working_directory() {
    let picker = opened_after(PREVIEW_CONFIG, emitting(&["sub/c.rs"]));
    assert_eq!(
        preview_target(&picker),
        Some(PreviewUpdate::Path { path: "/project/sub/c.rs".into(), position: None }),
        "expected the entry resolved against the project root"
    );
}

/// An Entry naming something that is not a previewable file must say so, rather
/// than leaving the previously previewed file on screen.
#[test]
fn an_entry_that_is_not_a_file_previews_a_message() {
    let mut picker = opened_after(PREVIEW_CONFIG, emitting(&["sub", "gone.rs"]));
    let text = |picker: &FinderDelegate| {
        preview_target(picker).and_then(|update| update.message_text()).expect("a message")
    };
    assert!(text(&picker).contains("is a directory"), "got {:?}", text(&picker));
    assert_eq!(text(&picker), "/project/sub is a directory.");

    picker.set_selected_index(1);
    assert!(text(&picker).contains("no longer exists"), "got {:?}", text(&picker));
}

#[test]
fn a_preview_says_which_field_is_missing() {
    let picker = opened_after(
        r#"
        [finder.demo]
        source = { type = "command", command = "list" }
        outcome = { type = "open_path", path = "{2}" }
        preview = { type = "path" }
        "#,
        emitting(&["a.rs"]),
    );
    let update = preview_target(&picker).expect("a message");
    assert_eq!(
        update.message_text().as_deref(),
        Some("`{2}` needs field 2 but `a.rs` has 1")
    );
}

#[test]
fn a_preview_shows_the_position_that_confirm_opens() {
    let picker = opened_after(
        r#"
        [finder.demo]
        source = { type = "command", command = "list" }
        outcome = { type = "open_path_at_position" }
        preview = { type = "path" }
        "#,
        emitting(&["multi.rs:2:2"]),
    );
    let Some(OutcomeAction::OpenPath(target)) = confirm(&picker) else {
        panic!("expected a path");
    };
    assert_eq!(
        preview_target(&picker),
        Some(PreviewUpdate::Path { path: target.path.clone(), position: Some(target) })
    );
}

#[test]
fn a_path_outside_the_project_is_previewed_optimistically() {
    let target = || PathWithPosition { path: "/etc/hosts".into(), row: None, column: None };
    for class in [PathClass::Outside, PathClass::File] {
        assert_eq!(
            preview_of(target(), class),
            PreviewUpdate::Path { path: "/etc/hosts".into(), position: None }
        );
    }
    assert!(preview_of(target(), PathClass::File).message_text().is_none());
}

#[test]
fn an_outcome_without_a_path_has_no_preview() {
    let picker = opened_after(
        r#"
        [finder.demo]
        source = { type = "command", command = "list" }
        outcome = { type = "run_command", command = "x" }
        preview = { type = "path" }
        "#,
        emitting(&["a.rs"]),
    );
    assert!(preview_target(&picker).is_none());
}

#[test]
fn a_source_that_runs_once_starts_as_the_picker_opens() {
    let picker = open_demo(OPEN_PATH_CONFIG);
    assert_eq!(
        picker.spawn_source(),
        Some(SourceRequest { command: "list".into(), args: Vec::new(), run_on: RunOn::Auto })
    );
    assert_eq!(open_demo(QUERY_CONFIG).spawn_source(), None);
    assert_eq!(picker.placeholder_text(), "Search Demo…");
}

fn run_for(picker: &mut FinderDelegate, query: &str) -> (u64, SourceRequest) {
    match picker.update_matches(query) {
        MatchPlan::Run { generation, request } => (generation, request),
        other => panic!("expected a run, got {other:?}"),
    }
}

#[test]
fn every_query_runs_the_source_anew() {
    let mut picker = open_demo(QUERY_CONFIG);
    assert_eq!(picker.update_matches(""), MatchPlan::Nothing);
    assert_eq!(picker.status_text(), None);

    let (first, request) = run_for(&mut picker, "foo");
    assert_eq!(request.args, vec!["-e", "foo"]);
    assert_eq!(picker.status_text().as_deref(), Some("Running…"));
    assert!(!picker.superseded(first));

    picker.apply_query(first, SourceUpdate::Entries(vec!["x".into(), "y".into()]));
    picker.apply_query(first, SourceUpdate::Finished { truncated: false });
    assert_eq!(picker.matched_entries(), vec!["x", "y"]);
    assert_eq!(picker.status_text(), None);

    let (second, _) = run_for(&mut picker, "foob");
    assert_eq!(picker.match_count(), 0, "nothing of the previous answer is left");
    assert!(picker.superseded(first));
    picker.apply_query(first, SourceUpdate::Entries(vec!["late".into()]));
    assert_eq!(picker.match_count(), 0, "a late answer is dropped");
    picker.apply_query(
        second,
        SourceUpdate::Failed(SourceFailure::Failed { command: "rg".into(), details: "no".into() }),
    );
    assert_eq!(picker.status_text().as_deref(), Some("`rg` failed: no"));

    assert_eq!(picker.update_matches(""), MatchPlan::Nothing);
    assert!(picker.superseded(second));
    assert_eq!(picker.status_text(), None);
}

#[test]
fn confirming_early_cuts_the_debounce_short() {
    let mut picker = open_demo(QUERY_CONFIG);
    assert_eq!(picker.finalize_update_matches(), (true, false));
    run_for(&mut picker, "foo");
    assert_eq!(picker.finalize_update_matches(), (false, true));
    assert_eq!(picker.finalize_update_matches(), (false, false));
    assert_eq!(open_demo(OPEN_PATH_CONFIG).finalize_update_matches(), (true, false));
}

#[test]
fn a_source_is_resolved_like_every_command() {
    let request = || SourceRequest { command: "rg".into(), args: vec!["x".into()], run_on: RunOn::Auto };
    assert_eq!(
        start_source(request(), false, "/project", None),
        CommandPlan::Run(ResolvedCommand {
            command: "rg".into(),
            args: vec!["x".into()],
            env: Vec::new(),
            cwd: Some("/project".into()),
        })
    );
    assert!(matches!(
        start_source(request(), true, "/project", None),
        CommandPlan::AskTransport(_)
    ));
    assert_eq!(
        start_wrapped_source("rg", Err("no connection".into())),
        Err(SourceUpdate::Failed(SourceFailure::CouldNotSpawn {
            command: "rg".into(),
            reason: "no connection".into(),
        }))
    );
}

#[test]
fn a_settled_query_starts_the_source_once() {
    let mut picker = open_demo(QUERY_CONFIG);
    let (generation, request) = run_for(&mut picker, "ab");
    let started = picker.start_query(generation, request).expect("settled");
    assert_eq!(started.command, "rg");
    assert_eq!(started.args, vec!["-e".to_string(), "ab".to_string()]);
    let plan = start_source(started, false, "/project", None);
    let CommandPlan::Run(resolved) = plan else { panic!("a local project runs it") };
    assert_eq!(resolved.command, "rg");
    assert_eq!(resolved.args, vec!["-e".to_string(), "ab".to_string()]);
    assert_eq!(resolved.cwd, Some("/project".to_string()));
}

#[test]
fn a_superseded_query_starts_nothing() {
    let mut picker = open_demo(QUERY_CONFIG);
    let (first, request) = run_for(&mut picker, "a");
    let (second, _) = run_for(&mut picker, "ab");
    assert_eq!(picker.start_query(first, request), None);
    assert!(!picker.superseded(second));
    let (third, request) = run_for(&mut picker, "abc");
    assert!(matches!(picker.update_matches(""), MatchPlan::Nothing));
    assert_eq!(picker.start_query(third, request), None);
}

#[test]
fn only_a_query_supersedes_a_run() {
    let mut picker = open_demo(QUERY_CONFIG);
    let (generation, request) = run_for(&mut picker, "a");
    picker.apply_query(generation, SourceUpdate::Entries(vec!["x".into(), "y".into()]));
    picker.set_selected_index(1);
    picker.finalize_update_matches();
    assert!(picker.start_query(generation, request).is_some());
}

#[test]
fn a_run_that_is_not_driven_by_the_query_is_not_started_by_one() {
    let picker = open_demo(OPEN_PATH_CONFIG);
    let request = SourceRequest { command: "a".into(), args: Vec::new(), run_on: RunOn::Auto };
    assert_eq!(picker.start_query(0, request), None);
}
