use finder::child::{ChildOutput, ChildPhase, ChildRead};
use finder::remote::ResolvedCommand;
use finder::source::{
    could_not_spawn, exit_details, run_source, SourceAction, SourceEvent, SourceFailure, SourceHappening,
    SourcePhase, SourceRun, SourceUpdate, FLUSH_INTERVAL, MAX_ENTRIES, SOURCE_TIMEOUT,
};

const TIMEOUT_MILLIS: u64 = SOURCE_TIMEOUT as u64 * 1000;

/// One instruction in a scripted Source.
enum Step {
    Line(&'static str),
    /// Milliseconds that pass before the next event.
    Wait(u64),
    Exit(Option<i32>, &'static str),
}

fn exit_ok() -> Step {
    Step::Exit(Some(0), "")
}

fn exit_with(stderr: &'static str) -> Step {
    Step::Exit(Some(1), stderr)
}

fn emitting(lines: &[&'static str]) -> Vec<Step> {
    lines.iter().map(|line| Step::Line(line)).chain([exit_ok()]).collect()
}

fn line(text: &str) -> SourceHappening {
    SourceHappening::Event(SourceEvent::Line(text.to_string()))
}

fn exited(code: Option<i32>, stderr: &str) -> SourceHappening {
    SourceHappening::Event(SourceEvent::Exited { code, stderr: stderr.to_string() })
}

/// What happens to a Source that follows the script.
fn history(steps: Vec<Step>) -> Vec<SourceHappening> {
    let mut history = vec![SourceHappening::Spawned];
    for step in steps {
        match step {
            Step::Line(text) => history.push(line(text)),
            Step::Exit(code, stderr) => history.push(exited(code, stderr)),
            Step::Wait(millis) => {
                if millis >= FLUSH_INTERVAL {
                    history.push(SourceHappening::FlushDue);
                }
                if millis >= TIMEOUT_MILLIS {
                    history.push(SourceHappening::TimedOut);
                }
            }
        }
    }
    history
}

fn collect(steps: Vec<Step>) -> Vec<SourceUpdate> {
    run_source("git".to_string(), history(steps))
}

fn entries(updates: &[SourceUpdate]) -> Vec<String> {
    updates
        .iter()
        .filter_map(|update| match update {
            SourceUpdate::Entries(entries) => Some(entries.clone()),
            _ => None,
        })
        .flatten()
        .collect()
}

#[test]
fn reports_trimmed_non_empty_lines_as_entries() {
    let updates = collect(emitting(&["main", "  feature/one  ", "", "feature/two"]));

    assert_eq!(
        entries(&updates),
        vec!["main", "feature/one", "feature/two"]
    );
    assert_eq!(
        updates.last(),
        Some(&SourceUpdate::Finished { truncated: false })
    );
}

#[test]
fn reports_a_command_that_could_not_be_spawned() {
    let updates = run_source(
        "git".to_string(),
        vec![SourceHappening::SpawnFailed { reason: "No such file or directory".to_string() }],
    );

    let [SourceUpdate::Failed(failure)] = updates.as_slice() else {
        panic!("expected a single failure, got {updates:?}");
    };
    assert!(matches!(failure, SourceFailure::CouldNotSpawn { .. }));
    assert!(failure.to_string().contains("No such file or directory"));
}

#[test]
fn reports_a_non_zero_exit_with_its_first_stderr_line() {
    let updates = collect(vec![exit_with("fatal: not a git repository\nmore detail\n")]);

    assert_eq!(
        updates.last(),
        Some(&SourceUpdate::Failed(SourceFailure::Failed {
            command: "git".into(),
            details: "fatal: not a git repository".into(),
        }))
    );
}

/// A Source may produce usable Entries and only then fail. Those Entries
/// are still worth showing, so they are delivered before the failure.
#[test]
fn keeps_entries_produced_before_a_failure() {
    let updates = collect(vec![
        Step::Line("a.rs"),
        Step::Line("b.rs"),
        exit_with("fatal: interrupted"),
    ]);

    assert_eq!(entries(&updates), vec!["a.rs", "b.rs"]);
    assert!(matches!(
        updates.last(),
        Some(SourceUpdate::Failed(SourceFailure::Failed { .. }))
    ));
}

#[test]
fn abandons_a_source_that_produces_nothing() {
    let updates = collect(vec![Step::Wait(TIMEOUT_MILLIS * 100), Step::Line("too late")]);

    assert_eq!(
        updates,
        vec![SourceUpdate::Failed(SourceFailure::TimedOut {
            command: "git".into()
        })]
    );
}

/// The timeout guards the first Entry only. A Source that keeps producing
/// is never abandoned for taking a long time overall.
#[test]
fn does_not_abandon_a_slow_source_that_is_still_producing() {
    let updates = collect(vec![
        Step::Line("first"),
        Step::Wait(TIMEOUT_MILLIS * 3),
        Step::Line("second"),
        exit_ok(),
    ]);

    assert_eq!(entries(&updates), vec!["first", "second"]);
    assert_eq!(
        updates.last(),
        Some(&SourceUpdate::Finished { truncated: false })
    );
}

/// Entries arriving over time reach the consumer in more than one batch,
/// rather than all at the end.
#[test]
fn delivers_entries_in_batches_as_they_arrive() {
    let updates = collect(vec![
        Step::Line("first"),
        Step::Wait(FLUSH_INTERVAL * 3),
        Step::Line("second"),
        exit_ok(),
    ]);

    let batches: Vec<_> = updates
        .iter()
        .filter(|update| matches!(update, SourceUpdate::Entries(_)))
        .collect();
    assert_eq!(batches.len(), 2, "expected two batches, got {updates:?}");
    assert_eq!(entries(&updates), vec!["first", "second"]);
}

#[test]
fn stops_at_the_entry_cap_and_reports_truncation() {
    let steps = std::iter::repeat_with(|| Step::Line("entry"))
        .take(MAX_ENTRIES + 10)
        .chain([exit_ok()])
        .collect();
    let updates = collect(steps);

    assert_eq!(entries(&updates).len(), MAX_ENTRIES);
    assert_eq!(
        updates.last(),
        Some(&SourceUpdate::Finished { truncated: true })
    );
}

#[test]
fn the_cap_counts_entries_that_were_handed_on() {
    let mut steps: Vec<Step> = Vec::new();
    for i in 0..MAX_ENTRIES {
        steps.push(Step::Line("entry"));
        if i % 1000 == 0 {
            steps.push(Step::Wait(FLUSH_INTERVAL));
        }
    }
    let updates = collect(steps);

    assert_eq!(entries(&updates).len(), MAX_ENTRIES);
    assert_eq!(updates.last(), Some(&SourceUpdate::Finished { truncated: true }));
}

#[test]
fn one_entry_below_the_cap_is_not_truncated() {
    let steps = std::iter::repeat_with(|| Step::Line("entry"))
        .take(MAX_ENTRIES - 1)
        .chain([exit_ok()])
        .collect();
    let updates = collect(steps);

    assert_eq!(entries(&updates).len(), MAX_ENTRIES - 1);
    assert_eq!(updates.last(), Some(&SourceUpdate::Finished { truncated: false }));
}

#[test]
fn a_stream_that_ends_without_an_exit_is_finished() {
    let updates = run_source(
        "git".to_string(),
        vec![SourceHappening::Spawned, line("a"), SourceHappening::Ended],
    );
    assert_eq!(
        updates,
        vec![
            SourceUpdate::Entries(vec!["a".into()]),
            SourceUpdate::Finished { truncated: false },
        ]
    );
}

#[test]
fn nothing_is_said_after_the_end() {
    let mut past_the_end = history(emitting(&["a"]));
    let updates = run_source("git".to_string(), past_the_end.clone());
    past_the_end.push(line("b"));
    past_the_end.push(SourceHappening::FlushDue);
    past_the_end.push(SourceHappening::TimedOut);
    past_the_end.push(exited(Some(1), "late"));
    assert_eq!(run_source("git".to_string(), past_the_end), updates);
}

#[test]
fn no_batch_is_empty() {
    let updates = collect(vec![
        Step::Line("  "),
        Step::Wait(FLUSH_INTERVAL),
        Step::Line(""),
        Step::Wait(FLUSH_INTERVAL),
        exit_ok(),
    ]);
    assert_eq!(updates, vec![SourceUpdate::Finished { truncated: false }]);
}

#[test]
fn a_blank_line_is_output_enough_to_stop_the_timeout() {
    let updates = collect(vec![
        Step::Line(""),
        Step::Wait(TIMEOUT_MILLIS * 2),
        Step::Line("x"),
        exit_ok(),
    ]);
    assert_eq!(entries(&updates), vec!["x"]);
}

#[test]
fn flushes_change_the_batches_and_nothing_else() {
    let with = collect(vec![
        Step::Line("a"),
        Step::Wait(FLUSH_INTERVAL),
        Step::Line("b"),
        Step::Wait(FLUSH_INTERVAL),
        exit_with("no"),
    ]);
    let without = collect(vec![Step::Line("a"), Step::Line("b"), exit_with("no")]);
    assert_eq!(entries(&with), entries(&without));
    assert_eq!(with.last(), without.last());
    assert_eq!((with.len(), without.len()), (3, 2));
}

#[test]
fn a_run_waits_for_one_thing_at_a_time() {
    let mut run = SourceRun::new("git".to_string());
    assert_eq!(run.phase(), SourcePhase::Starting);
    assert!(run.step(SourceHappening::Spawned).is_empty());
    assert_eq!(run.phase(), SourcePhase::Silent);
    assert!(run.step(line("a")).is_empty());
    assert_eq!(run.phase(), SourcePhase::Running);
    assert_eq!(
        run.step(SourceHappening::FlushDue),
        vec![SourceUpdate::Entries(vec!["a".into()])]
    );
    assert_eq!(run.phase(), SourcePhase::Flushed);
    assert!(run.step(SourceHappening::ReceiverGone).is_empty());
    assert_eq!(run.phase(), SourcePhase::Abandoned);
    assert!(run.step(line("b")).is_empty());
    assert!(run.step(exited(Some(0), "")).is_empty());
    assert_eq!(run.phase(), SourcePhase::Abandoned);
}

#[test]
fn failures_say_what_happened() {
    let text = |failure: SourceFailure| failure.to_string();
    assert_eq!(
        text(SourceFailure::CouldNotSpawn { command: "rg".into(), reason: "gone".into() }),
        "Could not run `rg`: gone"
    );
    assert_eq!(
        text(SourceFailure::Failed { command: "rg".into(), details: "bad".into() }),
        "`rg` failed: bad"
    );
    assert_eq!(
        text(SourceFailure::TimedOut { command: "rg".into() }),
        "`rg` produced nothing within 5 seconds"
    );
}

#[test]
fn exit_details_fall_back_to_how_it_ended() {
    assert_eq!(exit_details(Some(3), " \n\t\r\n"), "exited with status 3");
    assert_eq!(exit_details(Some(-1), ""), "exited with status -1");
    assert_eq!(exit_details(None, ""), "terminated by a signal");
    assert_eq!(exit_details(None, "\n  why \r\nmore"), "why");
}

#[test]
fn a_failure_can_be_copied() {
    for failure in [
        SourceFailure::CouldNotSpawn { command: "a".into(), reason: "b".into() },
        SourceFailure::Failed { command: "a".into(), details: "b".into() },
        SourceFailure::TimedOut { command: "a".into() },
    ] {
        assert_eq!(failure.clone(), failure);
    }
}

#[test]
fn a_source_that_could_not_start_is_an_update() {
    assert_eq!(
        could_not_spawn("rg", "no transport"),
        SourceUpdate::Failed(SourceFailure::CouldNotSpawn {
            command: "rg".into(),
            reason: "no transport".into(),
        })
    );
}

#[test]
fn a_child_says_its_readable_lines_and_then_its_end() {
    let mut output = ChildOutput::new();
    assert_eq!(output.phase(), ChildPhase::Reading);
    assert_eq!(output.read(ChildRead::Line("a".into())), Some(SourceEvent::Line("a".into())));
    assert_eq!(output.read(ChildRead::Unreadable), None);
    assert_eq!(output.phase(), ChildPhase::Reading);
    assert_eq!(output.read(ChildRead::Line("b".into())), Some(SourceEvent::Line("b".into())));
    assert_eq!(output.read(ChildRead::OutputEnded), None);
    assert_eq!(output.phase(), ChildPhase::Waiting);
    let exited = || ChildRead::Exited { code: Some(1), stderr: "no".into() };
    assert_eq!(
        output.read(exited()),
        Some(SourceEvent::Exited { code: Some(1), stderr: "no".into() })
    );
    assert_eq!(output.phase(), ChildPhase::Ended);
    assert_eq!(output.read(exited()), None);
    assert_eq!(output.read(ChildRead::Line("late".into())), None);
    assert_eq!(output.phase(), ChildPhase::Ended);
}

#[test]
fn a_child_is_not_waited_for_while_its_output_goes_on() {
    let mut output = ChildOutput::new();
    assert_eq!(output.read(ChildRead::Exited { code: None, stderr: String::new() }), None);
    assert_eq!(output.phase(), ChildPhase::Reading);
    output.read(ChildRead::OutputEnded);
    assert_eq!(output.read(ChildRead::Line("late".into())), None);
    assert_eq!(output.read(ChildRead::OutputEnded), None);
    assert_eq!(output.phase(), ChildPhase::Waiting);
}

#[test]
fn a_run_starts_its_command_once_and_then_waits() {
    let command = || ResolvedCommand {
        command: "ssh".into(),
        args: vec!["host".into(), "git".into()],
        env: vec![("A".into(), "b".into())],
        cwd: None,
    };
    let (mut run, action) = SourceRun::begin("git".into(), command());
    assert_eq!(action, SourceAction::Spawn(command()));
    assert_eq!(run.phase(), SourcePhase::Starting);
    let next = |run: &mut SourceRun, happening| run.advance(happening);
    assert_eq!(
        next(&mut run, SourceHappening::Spawned),
        (vec![], SourceAction::Await(SourcePhase::Silent))
    );
    assert_eq!(
        next(&mut run, SourceHappening::Spawned),
        (vec![], SourceAction::Await(SourcePhase::Silent))
    );
    assert_eq!(
        next(&mut run, SourceHappening::Event(SourceEvent::Line("a".into()))),
        (vec![], SourceAction::Await(SourcePhase::Running))
    );
    assert_eq!(
        next(&mut run, SourceHappening::FlushDue),
        (vec![SourceUpdate::Entries(vec!["a".into()])], SourceAction::Await(SourcePhase::Flushed))
    );
    assert_eq!(
        next(&mut run, SourceHappening::Ended),
        (vec![SourceUpdate::Finished { truncated: false }], SourceAction::Stop)
    );
    assert_eq!(next(&mut run, SourceHappening::Ended), (vec![], SourceAction::Stop));
}

#[test]
fn a_command_that_could_not_be_started_is_all_that_is_said() {
    let command =
        ResolvedCommand { command: "ssh".into(), args: vec![], env: vec![], cwd: None };
    let (mut run, _) = SourceRun::begin("git".into(), command);
    assert_eq!(
        run.advance(SourceHappening::SpawnFailed { reason: "no such file".into() }),
        (vec![could_not_spawn("git", "no such file")], SourceAction::Stop)
    );
    assert_eq!(run.advance(SourceHappening::Spawned), (vec![], SourceAction::Stop));
}
