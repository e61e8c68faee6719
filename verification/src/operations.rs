//! What the operations do, stated of their calls: how what is returned, and what
//! is left behind, follows from what was given.
use std::sync::Arc;

use vstd::prelude::*;

use crate::child::{ChildOutput, ChildPhase, ChildRead};
use crate::config::{
    has_query_placeholder, substitute_query, FinderConfig, Outcome, RunOn, Source,
};
use crate::delegate::{
    preview_of, start_source, start_wrapped_source, FinderDelegate, MatchPlan, PathClass,
    PreviewUpdate, SourceRequest, StringMatch,
};
use crate::diagnostic::{first_non_empty_line, FirstLine, StreamRead, StreamState};
use crate::document::{parse_document, TomlDocument, TomlValue};
use crate::generation::Generation;
use crate::json::{substitute_json, Json};
use crate::list::{FinderListDelegate, ListPlan};
use crate::locate::locate;
use crate::names::NameMap;
use crate::open::{open_finder, open_finder_list, OpenFinder, OpenFinderList};
use crate::outcome::{
    apply_outcome, command_failure, cursor, open_path, point_of, resolve_outcome_path, CommandExit,
    OpenPath, OutcomeAction, OutcomeReply, OutcomeRun, PathWithPosition, Point,
};
use crate::parse::{load_finder, load_finders, parse_config, read_document, ParsedConfig};
use crate::platform::Platform;
use crate::preview::{
    buffer_source, match_location_for_position, BufferSource, MatchLocation, PositionedPreview,
    PreviewStep,
};
use crate::registry::{FinderListEntry, FinderLookup, FinderRegistry};
use crate::remote::{
    resolve_command, wrap_command, CommandPlan, CommandTemplate, Environment, ResolvedCommand,
};
use crate::source::{
    could_not_spawn, exit_details, run_source, SourceAction, SourceEvent, SourceFailure,
    SourceHappening, SourcePhase, SourceRun, SourceUpdate,
};
use crate::template::{fields, substitute, substitute_args, MissingField};

verus! {

// ---------------------------------------------------------------------------
// The picker of one Finder
// ---------------------------------------------------------------------------
/// A picker opens with its Finder and its directory and with nothing listed.
pub proof fn law_new_opens_empty(
    config: Arc<FinderConfig>,
    cwd: String,
    picker: FinderDelegate,
    listed: Vec<String>,
    count: usize,
    placeholder: &str,
)
    requires
        call_ensures(FinderDelegate::new, (config, cwd), picker),
        call_ensures(FinderDelegate::matched_entries, (&picker,), listed),
        call_ensures(FinderDelegate::match_count, (&picker,), count),
        call_ensures(FinderDelegate::placeholder_text, (&picker,), placeholder),
    ensures
        picker@.config == config.deep_view(),
        picker@.cwd == cwd@,
        listed@.len() == 0,
        count == 0,
        placeholder@ == config.deep_view().placeholder,
        picker@.wf(),
{
    assert(listed.deep_view().len() == 0);
}

/// A batch of the current run extends what is listed: what is listed after is
/// what was listed before, followed by the batch. A batch of another run changes
/// nothing.
pub proof fn law_apply_query_extends_the_list(
    picker: &mut FinderDelegate,
    generation: Generation,
    batch: Vec<String>,
    stale: bool,
    before: Vec<String>,
    after: Vec<String>,
)
    requires
        old(picker)@.query is Some,
        call_ensures(FinderDelegate::superseded, (&*old(picker), generation), stale),
        call_ensures(FinderDelegate::matched_entries, (&*old(picker),), before),
        call_ensures(
            FinderDelegate::apply_query,
            (picker, generation, SourceUpdate::Entries(batch)),
            (),
        ),
        call_ensures(FinderDelegate::matched_entries, (&*final(picker),), after),
    ensures
        !stale ==> after.deep_view() == before.deep_view() + batch.deep_view()
            && final(picker)@.entries == old(picker)@.entries + batch.deep_view()
            && final(picker)@.state == old(picker)@.state && final(picker)@.selected_index
            == old(picker)@.selected_index && final(picker)@.query == old(picker)@.query,
        stale ==> final(picker)@ == old(picker)@,
{
    let entries = batch.deep_view();
    if !stale {
        crate::delegate::law_batches_extend_the_list(old(picker)@, entries);
        assert(after.deep_view() =~= crate::delegate::listed(final(picker)@));
        assert(before.deep_view() =~= crate::delegate::listed(old(picker)@));
    }
}

/// What ends the current run is noted, and nothing that is listed goes; what
/// ends another run changes nothing.
pub proof fn law_apply_query_notes_the_end(
    picker: &mut FinderDelegate,
    generation: Generation,
    update: SourceUpdate,
    stale: bool,
)
    requires
        old(picker)@.query is Some,
        call_ensures(FinderDelegate::superseded, (&*old(picker), generation), stale),
        call_ensures(FinderDelegate::apply_query, (picker, generation, update), ()),
    ensures
        stale ==> final(picker)@ == old(picker)@,
        !stale ==> (update matches SourceUpdate::Finished { truncated } ==> final(picker)@ == (
        crate::delegate::FinderDelegateView {
            state: crate::delegate::SourceStateView {
                running: false,
                truncated,
                failure: old(picker)@.state.failure,
            },
            ..old(picker)@
        })),
        !stale ==> (update matches SourceUpdate::Failed(failure) ==> final(picker)@ == (
        crate::delegate::FinderDelegateView {
            state: crate::delegate::SourceStateView {
                running: false,
                truncated: old(picker)@.state.truncated,
                failure: Some(failure.deep_view().message()),
            },
            ..old(picker)@
        })),
{
}

/// An update of a Source that runs once extends the Entries or notes the end,
/// keeps what is listed until the next match, and keeps the selection then.
pub proof fn law_apply_extends_the_entries(picker: &mut FinderDelegate, update: SourceUpdate)
    requires
        call_ensures(FinderDelegate::apply, (picker, update), ()),
    ensures
        final(picker)@.matches == old(picker)@.matches,
        final(picker)@.selected_index == old(picker)@.selected_index,
        final(picker)@.config == old(picker)@.config,
        final(picker)@.cwd == old(picker)@.cwd,
        final(picker)@.query == old(picker)@.query,
        final(picker)@.keep_selected_entry,
        update matches SourceUpdate::Entries(batch) ==> final(picker)@.entries
            == old(picker)@.entries + batch.deep_view() && final(picker)@.state
            == old(picker)@.state,
        update matches SourceUpdate::Finished { truncated } ==> final(picker)@.entries
            == old(picker)@.entries && final(picker)@.state == (crate::delegate::SourceStateView {
            running: false,
            truncated,
            failure: old(picker)@.state.failure,
        }),
        update matches SourceUpdate::Failed(failure) ==> final(picker)@.entries
            == old(picker)@.entries && final(picker)@.state == (crate::delegate::SourceStateView {
            running: false,
            truncated: old(picker)@.state.truncated,
            failure: Some(failure.deep_view().message()),
        }),
{
}

/// A Query of a query-driven picker empties the list and supersedes every run
/// before it. A Query that is not empty asks for one run: of the command of the
/// Source, with the Query in its arguments, under a generation that is current.
pub proof fn law_update_query_matches_asks_for_a_run(
    picker: &mut FinderDelegate,
    query: &str,
    plan: MatchPlan,
    count: usize,
)
    requires
        old(picker)@.query is Some,
        call_ensures(FinderDelegate::update_query_matches, (picker, query), plan),
        call_ensures(FinderDelegate::match_count, (&*final(picker),), count),
    ensures
        count == 0,
        final(picker)@.entries.len() == 0,
        final(picker)@.selected_index == 0,
        final(picker)@.config == old(picker)@.config,
        final(picker)@.cwd == old(picker)@.cwd,
        final(picker)@.is_superseded(old(picker)@.query->0.generation),
        query@.len() == 0 ==> plan is Nothing && !final(picker)@.state.running,
        query@.len() > 0 ==> final(picker)@.state.running && (plan matches MatchPlan::Run {
            generation,
            request,
        } && !final(picker)@.is_superseded(generation) && request.command@
            == old(picker)@.config.source.command() && request.args.deep_view()
            == crate::config::query_substituted(old(picker)@.config.source.args(), query@)
            && request.run_on == old(picker)@.config.run_on),
{
}

/// A Query of a picker whose Source ran once leaves the picker as it is until
/// the matches are there: it asks for the Entries as they are, or to be matched.
/// That of a query-driven one asks for a run.
pub proof fn law_update_matches_says_what_to_list(
    picker: &mut FinderDelegate,
    query: &str,
    plan: MatchPlan,
)
    requires
        old(picker)@.wf(),
        call_ensures(FinderDelegate::update_matches, (picker, query), plan),
    ensures
        old(picker)@.config.source is Query && query@.len() > 0 ==> plan is Run
            && final(picker)@.entries.len() == 0 && final(picker)@.matches.len() == 0,
        old(picker)@.config.source is Query && query@.len() == 0 ==> plan is Nothing
            && final(picker)@.entries.len() == 0 && final(picker)@.matches.len() == 0,
        old(picker)@.config.source is Command ==> final(picker)@.entries == old(picker)@.entries
            && final(picker)@.matches == old(picker)@.matches && final(picker)@.selected_index
            == old(picker)@.selected_index && final(picker)@.state == old(picker)@.state
            && final(picker)@.query is None && !final(picker)@.keep_selected_entry,
        old(picker)@.config.source is Command && query@.len() == 0 ==> (
        plan matches MatchPlan::List { matches, selected } && matches.deep_view().len() == (
        if old(picker)@.entries.len() < 1000 {
            old(picker)@.entries.len()
        } else {
            1000
        }) && (selected is Some ==> old(picker)@.keep_selected_entry && Some(selected->0@)
            == old(picker)@.selected_entry()) && (selected is None ==> !(
        old(picker)@.keep_selected_entry && old(picker)@.selected_entry() is Some)) && forall|i: int|
            0 <= i < matches.deep_view().len() ==> (#[trigger] matches.deep_view()[i]).string
                == old(picker)@.entries[i] && matches.deep_view()[i].candidate_id == i
                && matches.deep_view()[i].positions.len() == 0),
        old(picker)@.config.source is Command && query@.len() > 0 ==> (
        plan matches MatchPlan::Match { query: asked, limit, selected } && asked@ == query@ && limit
            == 1000 && (selected is Some ==> old(picker)@.keep_selected_entry && Some(selected->0@)
            == old(picker)@.selected_entry()) && (selected is None ==> !(
        old(picker)@.keep_selected_entry && old(picker)@.selected_entry() is Some))),
{
}

/// Matches are listed as they are given. The selection is on the first of them
/// that is the carried Entry, and on the first where there is none.
pub proof fn law_install_matches_lists_them(
    picker: &mut FinderDelegate,
    matches: Vec<StringMatch>,
    selected: Option<String>,
    listed: Vec<String>,
    index: usize,
)
    requires
        call_ensures(FinderDelegate::install_matches, (picker, matches, selected), ()),
        call_ensures(FinderDelegate::matched_entries, (&*final(picker),), listed),
        call_ensures(FinderDelegate::selected_index, (&*final(picker),), index),
    ensures
        listed@.len() == matches@.len(),
        forall|i: int|
            0 <= i < matches@.len() ==> listed.deep_view()[i] == (
            #[trigger] matches.deep_view()[i]).string,
        final(picker)@.matches == matches.deep_view(),
        final(picker)@.entries == old(picker)@.entries,
        final(picker)@.state == old(picker)@.state,
        final(picker)@.query == old(picker)@.query,
        selected is None ==> index == 0,
        index > 0 ==> index < matches@.len() && selected is Some && listed.deep_view()[index as int]
            == selected->0@,
        selected matches Some(entry) ==> forall|i: int|
            0 <= i < matches@.len() && (#[trigger] matches.deep_view()[i]).string == entry@
                ==> index <= i && listed.deep_view()[index as int] == entry@,
{
    crate::delegate::law_matches_are_listed_as_given(
        old(picker)@,
        matches.deep_view(),
        selected.deep_view(),
    );
    assert(listed.deep_view().len() == matches.deep_view().len());
    if let Some(entry) = selected {
        crate::delegate::law_place_is_the_first(matches.deep_view(), entry@);
    }
}

/// The selection is where it is put, and nothing else changes.
pub proof fn law_set_selected_index_selects(picker: &mut FinderDelegate, i: usize, index: usize)
    requires
        call_ensures(FinderDelegate::set_selected_index, (picker, i), ()),
        call_ensures(FinderDelegate::selected_index, (&*final(picker),), index),
    ensures
        index == i,
        final(picker)@.matches == old(picker)@.matches,
        final(picker)@.entries == old(picker)@.entries,
        final(picker)@.state == old(picker)@.state,
        final(picker)@.query == old(picker)@.query,
        final(picker)@.keep_selected_entry == old(picker)@.keep_selected_entry,
{
}

/// What is listed at a place is what is listed there, with its marks; there is
/// something exactly at the places that there are.
pub proof fn law_match_at_is_what_is_listed(
    picker: &FinderDelegate,
    i: usize,
    found: Option<&StringMatch>,
    listed: Vec<String>,
    count: usize,
    entries: &Vec<String>,
)
    requires
        call_ensures(FinderDelegate::match_at, (picker, i), found),
        call_ensures(FinderDelegate::matched_entries, (picker,), listed),
        call_ensures(FinderDelegate::match_count, (picker,), count),
        call_ensures(FinderDelegate::entries, (picker,), entries),
    ensures
        found is Some <==> i < count,
        found matches Some(found) ==> found.string@ == listed.deep_view()[i as int]
            && found.deep_view() == picker@.matches[i as int],
        listed@.len() == count,
        entries.deep_view() == picker@.entries,
{
    assert(listed.deep_view().len() == picker@.matches.len());
}

/// Confirming before the matches have settled says so, asks once for the
/// debounce to be cut short, and takes nothing else.
pub proof fn law_finalize_wakes_once(
    picker: &mut FinderDelegate,
    out: (bool, bool),
    again: (bool, bool),
    later: &mut FinderDelegate,
)
    requires
        call_ensures(FinderDelegate::finalize_update_matches, (picker,), out),
        *old(later) == *final(picker),
        call_ensures(FinderDelegate::finalize_update_matches, (later,), again),
    ensures
        old(picker)@.query is None ==> out == (true, false),
        old(picker)@.query matches Some(state) ==> (out.0 <==> state.pending_query is None)
            && out.1 == state.wakeable,
        again.0 == out.0,
        !again.1,
        final(picker)@.entries == old(picker)@.entries,
        final(picker)@.matches == old(picker)@.matches,
        final(picker)@.selected_index == old(picker)@.selected_index,
        final(picker)@.state == old(picker)@.state,
        final(later)@ == final(picker)@,
{
}

/// A Source that runs once is run as it is written; a query-driven one is not
/// run when the picker opens.
pub proof fn law_spawn_source_runs_it_as_written(
    picker: &FinderDelegate,
    request: Option<SourceRequest>,
)
    requires
        call_ensures(FinderDelegate::spawn_source, (picker,), request),
    ensures
        request is None <==> picker@.config.source is Query,
        request matches Some(request) ==> request.command@ == picker@.config.source.command()
            && request.args.deep_view() == picker@.config.source.args() && request.run_on
            == picker@.config.run_on,
{
}

/// A run is started, as it was asked for, unless it was superseded.
pub proof fn law_start_query_starts_the_current_run(
    picker: &FinderDelegate,
    generation: Generation,
    request: SourceRequest,
    started: Option<SourceRequest>,
    stale: bool,
)
    requires
        call_ensures(FinderDelegate::superseded, (picker, generation), stale),
        call_ensures(FinderDelegate::start_query, (picker, generation, request), started),
    ensures
        stale ==> started is None,
        !stale ==> started is Some && started->0.deep_view() == request.deep_view(),
        stale <==> !(picker@.query is Some && picker@.query->0.generation == generation),
{
}

/// Of a Source it is said above an empty list that it failed or runs, and below
/// Entries that it failed or was cut short.
pub proof fn law_texts_tell_how_the_source_is_doing(
    picker: &FinderDelegate,
    status: Option<String>,
    footer: Option<String>,
    none: String,
)
    requires
        call_ensures(FinderDelegate::status_text, (picker,), status),
        call_ensures(FinderDelegate::footer_text, (picker,), footer),
        call_ensures(FinderDelegate::no_matches_text, (picker,), none),
    ensures
        picker@.state.failure is Some && picker@.entries.len() == 0 ==> status.deep_view()
            == picker@.state.failure,
        picker@.state.failure is Some && picker@.entries.len() > 0 ==> footer.deep_view()
            == picker@.state.failure,
        picker@.state.failure is None || picker@.entries.len() > 0 ==> (status is Some
            <==> picker@.state.running) && (status matches Some(text) ==> text@ == "Running…"@),
        picker@.state.failure is None || picker@.entries.len() == 0 ==> (footer is Some
            <==> picker@.state.truncated) && (footer matches Some(text) ==> text@
            == "Showing the first "@ + crate::text::digits(100_000) + " entries"@),
        none@ == (match status {
            Some(text) => text@,
            None => "No matches"@,
        }),
{
}

/// Confirming acts on the selected Entry exactly where there is one, with the
/// Outcome, the directory, the delimiter and the policy of the Finder.
pub proof fn law_confirm_acts_on_the_selected_entry<F: Fn(&str) -> PathWithPosition>(
    picker: &FinderDelegate,
    remote: bool,
    platform: Platform,
    parse: F,
    begun: Option<(OutcomeRun, OutcomeAction)>,
)
    requires
        call_ensures(FinderDelegate::confirm, (picker, remote, platform, parse), begun),
    ensures
        begun is Some <==> picker@.selected_index < picker@.matches.len(),
        begun matches Some(begun) ==> crate::outcome::is_begun(
            parse,
            platform@,
            picker@.config.outcome,
            picker@.matches[picker@.selected_index as int].string,
            picker@.cwd,
            picker@.config.delimiter,
            picker@.config.run_on,
            remote,
            (begun.0.deep_view(), begun.1.deep_view()),
        ),
{
}

/// The Preview is of the selected Entry, resolved with the Outcome, the
/// directory and the delimiter of the Finder; without a Preview, and without a
/// selected Entry, there is none.
pub proof fn law_preview_target_is_of_the_selected_entry<
    F: Fn(&str) -> PathWithPosition,
    K: Fn(&str) -> PathClass,
>(
    picker: &FinderDelegate,
    platform: Platform,
    parse: F,
    classify: K,
    target: crate::outcome::PathWithPositionView,
    class: PathClass,
    update: Option<PreviewUpdate>,
)
    requires
        call_ensures(FinderDelegate::preview_target, (picker, platform, parse, classify), update),
    ensures
        picker@.config.preview is None || picker@.selected_entry() is None ==> update is None,
        (picker@.config.preview is Some && picker@.selected_entry() is Some && (forall|
            other: Option<Result<crate::outcome::PathWithPositionView, Seq<char>>>,
        |
            #[trigger] crate::outcome::is_target(
                parse,
                platform@,
                picker@.config.outcome,
                picker@.selected_entry()->0,
                picker@.cwd,
                picker@.config.delimiter,
                other,
            ) ==> other == Some(
                Ok::<crate::outcome::PathWithPositionView, Seq<char>>(target),
            )) && (forall|path: &str, answer: PathClass|
            path@ == target.path && #[trigger] call_ensures(classify, (path,), answer) ==> answer
                == class)) ==> update.deep_view() == Some(
            crate::delegate::previewed(target, class),
        ),
{
}

/// What is previewed of a path is its file, with its position where it has a
/// row, or a text that says of it that it is a directory or gone.
pub proof fn law_preview_of_shows_the_path(
    target: PathWithPosition,
    class: PathClass,
    update: PreviewUpdate,
    text: Option<String>,
)
    requires
        call_ensures(preview_of, (target, class), update),
        call_ensures(PreviewUpdate::message_text, (&update,), text),
    ensures
        class == PathClass::File || class == PathClass::Outside ==> text is None && (
        update matches PreviewUpdate::Path { path, position } && path@ == target.path@ && (
        position is Some <==> target.row is Some) && (position matches Some(position)
            ==> position.deep_view() == target.deep_view())),
        class == PathClass::Directory ==> text.deep_view() == Some(
            target.path@ + " is a directory."@,
        ),
        class == PathClass::Gone ==> text.deep_view() == Some(target.path@ + " no longer exists."@),
{
    crate::delegate::law_preview_depends_on_what_the_path_is(target.deep_view());
}

/// A Source of a local project runs its own command at the directory, whatever
/// its policy; one of a remote project asks the transport for that command, or
/// runs here without a directory where it is told to. Its environment is that of
/// the project.
pub proof fn law_start_source_runs_its_command(
    request: SourceRequest,
    remote: bool,
    cwd: &str,
    environment: Option<Environment>,
    plan: CommandPlan,
)
    requires
        call_ensures(start_source, (request, remote, cwd, environment), plan),
    ensures
        plan is AskTransport <==> remote && request.run_on == RunOn::Auto,
        plan matches CommandPlan::Run(command) ==> command.command@ == request.command@
            && command.args.deep_view() == request.args.deep_view() && (command.cwd is Some
            <==> !remote) && (command.cwd matches Some(at) ==> at@ == cwd@) && (
        environment matches Some(environment) ==> command.env.deep_view()
            == environment.deep_view()) && (environment is None ==> command.env.deep_view().len()
            == 0),
        plan matches CommandPlan::AskTransport(asked) ==> asked.command@ == request.command@
            && asked.args.deep_view() == request.args.deep_view() && asked.cwd@ == cwd@ && (
        environment matches Some(environment) ==> asked.env.deep_view() == environment.deep_view())
            && (environment is None ==> asked.env.deep_view().len() == 0),
{
}

/// A transport's launcher is run as it was given, nowhere in particular; where
/// the transport fails, the Source could not be started, and it says so by the
/// name that the user gave.
pub proof fn law_start_wrapped_source_runs_the_launcher(
    command: &str,
    template: CommandTemplate,
    error: String,
    ran: Result<ResolvedCommand, SourceUpdate>,
    failed: Result<ResolvedCommand, SourceUpdate>,
)
    requires
        call_ensures(start_wrapped_source, (command, Ok(template)), ran),
        call_ensures(start_wrapped_source, (command, Err(error)), failed),
    ensures
        ran matches Ok(resolved) && resolved.command@ == template.program@
            && resolved.args.deep_view() == template.args.deep_view() && resolved.env.deep_view()
            == template.env.deep_view() && resolved.cwd is None,
        failed matches Err(SourceUpdate::Failed(failure)) && failure.deep_view().message()
            == "Could not run `"@ + command@ + "`: "@ + error@,
{
}

// ---------------------------------------------------------------------------
// Running a Source
// ---------------------------------------------------------------------------
/// A Source that prints lines and then succeeds, without a flush between, says
/// its Entries in one batch, where there are any, and that it finished: each
/// line that is not blank, in order, without the whitespace at its ends.
pub proof fn law_run_source_hands_on_the_lines(
    command: String,
    history: Vec<SourceHappening>,
    lines: Seq<Seq<char>>,
    stderr: Seq<char>,
    updates: Vec<SourceUpdate>,
)
    requires
        lines.len() < 100_000,
        history.deep_view() == crate::source::printing(lines).push(
            crate::source::SourceHappeningView::Event(
                crate::source::SourceEventView::Exited { code: Some(0), stderr },
            ),
        ),
        call_ensures(run_source, (command, history), updates),
    ensures
        updates.deep_view() == (if crate::source::entries_of(lines).len() == 0 {
            seq![crate::source::SourceUpdateView::Finished { truncated: false }]
        } else {
            seq![
                crate::source::SourceUpdateView::Entries(crate::source::entries_of(lines)),
                crate::source::SourceUpdateView::Finished { truncated: false },
            ]
        }),
{
    crate::source::law_a_run_hands_on_its_lines(command@, lines, stderr);
}

/// Whatever happens to a Source, what it hands on is every line that it heard
/// and that is not blank, each once, trimmed and in order, up to the cap; its
/// end is said once and last, and nothing is said behind it.
pub proof fn law_run_source_says_everything_once(
    command: String,
    history: Vec<SourceHappening>,
    updates: Vec<SourceUpdate>,
)
    requires
        call_ensures(run_source, (command, history), updates),
    ensures
        crate::source::entries_in(updates.deep_view()) + crate::source::run_after(
            command@,
            history.deep_view(),
        ).pending == crate::source::entries_of(
            crate::source::lines_heard(command@, history.deep_view()),
        ),
        crate::source::entries_in(updates.deep_view()).len() <= 100_000,
        forall|i: int|
            0 <= i < updates.deep_view().len() - 1 ==> (#[trigger] updates.deep_view()[i])
                is Entries,
{
    crate::source::law_every_line_once(command@, history.deep_view());
    crate::source::law_cap(command@, history.deep_view());
    crate::source::law_one_terminal_update_last(command@, history.deep_view());
}

/// A line that a run hears waits, trimmed, behind what waits already; a blank one
/// does not; and nothing is said of either below the cap.
pub proof fn law_step_hears_lines(
    run: &mut SourceRun,
    line: String,
    updates: Vec<SourceUpdate>,
)
    requires
        old(run)@.wf(),
        old(run)@.phase == SourcePhase::Silent || old(run)@.phase == SourcePhase::Running || old(run)@.phase == SourcePhase::Flushed,
        old(run)@.delivered + old(run)@.pending.len() + 1 < 100_000,
        call_ensures(
            SourceRun::step,
            (run, SourceHappening::Event(SourceEvent::Line(line))),
            updates,
        ),
    ensures
        updates.deep_view().len() == 0,
        final(run)@.phase == SourcePhase::Running,
        final(run)@.delivered == old(run)@.delivered,
        crate::text::is_blank(line@) ==> final(run)@.pending == old(run)@.pending,
        !crate::text::is_blank(line@) ==> final(run)@.pending == old(run)@.pending.push(
            crate::text::trimmed(line@),
        ),
{
    crate::source::law_lines_become_entries(old(run)@, line@);
}

/// A run takes each happening in once, says what that makes it say, and says
/// what to do next: to wait, or to stop once it is over. It begins with its
/// command to be started, as it was given.
pub proof fn law_runs_are_driven_by_what_happens(
    name: String,
    command: ResolvedCommand,
    begun: (SourceRun, SourceAction),
    run: &mut SourceRun,
    happening: SourceHappening,
    out: (Vec<SourceUpdate>, SourceAction),
    phase: SourcePhase,
)
    requires
        call_ensures(SourceRun::begin, (name, command), begun),
        old(run)@.wf(),
        call_ensures(SourceRun::advance, (run, happening), out),
        call_ensures(SourceRun::phase, (&*final(run),), phase),
    ensures
        begun.0@ == crate::source::run_after(name@, Seq::empty()),
        begun.1 matches SourceAction::Spawn(spawned) && spawned.deep_view() == command.deep_view(),
        final(run)@ == old(run)@.step(happening.deep_view()),
        out.0.deep_view() == old(run)@.says(happening.deep_view()),
        phase == final(run)@.phase,
        out.1 is Stop <==> phase == SourcePhase::Done || phase == SourcePhase::Abandoned,
        !(out.1 is Stop) ==> (out.1 matches SourceAction::Await(awaited) && awaited == phase),
{
}

/// The sentences about a Source name its command and what went wrong: the first
/// line of its standard error that is not blank, else how it ended.
pub proof fn law_failures_are_explained(
    command: &str,
    reason: &str,
    code: Option<i32>,
    stderr: &str,
    details: String,
    update: SourceUpdate,
    failure: &SourceFailure,
    message: String,
)
    requires
        call_ensures(exit_details, (code, stderr), details),
        call_ensures(could_not_spawn, (command, reason), update),
        call_ensures(SourceFailure::to_string, (failure,), message),
    ensures
        match (crate::text::first_detail_spec(stderr@), code) {
            (Some(detail), _) => details@ == detail,
            (None, Some(code)) => details@ == "exited with status "@ + crate::text::decimal(
                code as int,
            ),
            (None, None) => details@ == "terminated by a signal"@,
        },
        update matches SourceUpdate::Failed(SourceFailure::CouldNotSpawn { command: c, reason: r })
            && c@ == command@ && r@ == reason@,
        failure matches SourceFailure::CouldNotSpawn { command, reason } ==> message@
            == "Could not run `"@ + command@ + "`: "@ + reason@,
        failure matches SourceFailure::Failed { command, details } ==> message@ == "`"@ + command@
            + "` failed: "@ + details@,
        failure matches SourceFailure::TimedOut { command } ==> message@ == "`"@ + command@
            + "` produced nothing within "@ + crate::text::digits(5) + " seconds"@,
{
}

/// A line that is read from a child is said as it was read, and its end once its
/// output has ended; all else is silent.
pub proof fn law_children_are_heard(
    output: &mut ChildOutput,
    read: ChildRead,
    event: Option<SourceEvent>,
)
    requires
        call_ensures(ChildOutput::read, (output, read), event),
    ensures
        old(output)@ == ChildPhase::Reading ==> (read matches ChildRead::Line(line) ==> (
        event matches Some(SourceEvent::Line(said)) && said@ == line@) && final(output)@
            == ChildPhase::Reading),
        old(output)@ == ChildPhase::Reading && read is Unreadable ==> event is None && final(output)@ == ChildPhase::Reading,
        old(output)@ == ChildPhase::Reading && read is OutputEnded ==> event is None && final(output)@ == ChildPhase::Waiting,
        old(output)@ == ChildPhase::Waiting ==> (read matches ChildRead::Exited { code, stderr }
            ==> (event matches Some(SourceEvent::Exited { code: c, stderr: s }) && c == code && s@
            == stderr@) && final(output)@ == ChildPhase::Ended),
        old(output)@ == ChildPhase::Ended ==> event is None && final(output)@ == ChildPhase::Ended,
        old(output)@ != ChildPhase::Waiting && read is Exited ==> event is None,
        old(output)@ != ChildPhase::Reading && read is Line ==> event is None,
{
}

// ---------------------------------------------------------------------------
// Acting on an Entry
// ---------------------------------------------------------------------------
/// A path with a position is opened at the row and the column that `parse` reads
/// from the substituted text, and at the path it reads, resolved.
pub proof fn law_resolve_outcome_path_keeps_the_position<F: Fn(&str) -> PathWithPosition>(
    outcome: &Outcome,
    entry: &str,
    cwd: &str,
    delimiter: Option<&str>,
    platform: Platform,
    parse: F,
    template: Seq<char>,
    text: Seq<char>,
    read: crate::outcome::PathWithPositionView,
    target: Option<Result<PathWithPosition, String>>,
)
    requires
        call_ensures(
            resolve_outcome_path,
            (outcome, entry, cwd, delimiter, platform, parse),
            target,
        ),
        outcome.deep_view() == (crate::config::OutcomeView::OpenPathAtPosition {
            path: Some(template),
        }),
        crate::template::substituted(template, entry@, delimiter.deep_view()) == Ok::<
            Seq<char>,
            crate::template::MissingFieldView,
        >(text),
        forall|other: crate::outcome::PathWithPositionView|
            #[trigger] crate::outcome::may_parse(parse, text, other) ==> other == read,
    ensures
        target matches Some(Ok(found)) && found.row == read.row && found.column == read.column
            && found.path@ == crate::platform::entry_path(platform@, read.path, cwd@),
{
    crate::outcome::law_position_is_opened_as_read(
        parse,
        platform@,
        template,
        entry@,
        cwd@,
        delimiter.deep_view(),
        text,
        read,
        crate::outcome::target_view(target),
    );
}

/// A plain path is the whole substituted text, resolved, with no position; an
/// Outcome that opens no path has none; a Field that is missing is told.
pub proof fn law_resolve_outcome_path_resolves_the_text<F: Fn(&str) -> PathWithPosition>(
    outcome: &Outcome,
    entry: &str,
    cwd: &str,
    delimiter: Option<&str>,
    platform: Platform,
    parse: F,
    template: Seq<char>,
    target: Option<Result<PathWithPosition, String>>,
)
    requires
        call_ensures(
            resolve_outcome_path,
            (outcome, entry, cwd, delimiter, platform, parse),
            target,
        ),
    ensures
        outcome.deep_view() is DispatchAction || outcome.deep_view() is RunCommand ==> target
            is None,
        outcome.deep_view() == (crate::config::OutcomeView::OpenPath { path: Some(template) }) ==> (
        crate::template::substituted(template, entry@, delimiter.deep_view()) matches Ok(text) ==> (
        target matches Some(Ok(found)) && found.row is None && found.column is None && found.path@
            == crate::platform::entry_path(platform@, text, cwd@))),
        outcome.deep_view() == (crate::config::OutcomeView::OpenPath { path: Some(template) })
            || outcome.deep_view() == (crate::config::OutcomeView::OpenPathAtPosition {
            path: Some(template),
        }) ==> (crate::template::substituted(template, entry@, delimiter.deep_view()) matches Err(
            error,
        ) ==> (target matches Some(Err(message)) && message@ == error.message())),
{
}

/// What an Outcome begins with is what it is for: its path opened, its action
/// dispatched, or its command run, each with the Entry put in.
pub proof fn law_apply_outcome_begins_with_the_entry<F: Fn(&str) -> PathWithPosition>(
    outcome: &Outcome,
    entry: &str,
    cwd: &str,
    delimiter: Option<&str>,
    run_on: RunOn,
    remote: bool,
    platform: Platform,
    parse: F,
    begun: (OutcomeRun, OutcomeAction),
)
    requires
        call_ensures(
            apply_outcome,
            (outcome, entry, cwd, delimiter, run_on, remote, platform, parse),
            begun,
        ),
    ensures
        outcome.deep_view() is OpenPath || outcome.deep_view() is OpenPathAtPosition ==> begun.0
            is Done && (begun.1 is OpenPath || begun.1 is ShowError),
        begun.1 matches OutcomeAction::OpenPath(target) ==> crate::outcome::is_target(
            parse,
            platform@,
            outcome.deep_view(),
            entry@,
            cwd@,
            delimiter.deep_view(),
            Some(Ok(target.deep_view())),
        ),
        outcome.deep_view() matches crate::config::OutcomeView::DispatchAction { action, args } ==> (
        begun.1 matches OutcomeAction::DispatchAction { action: named, args: given } ==> named@
            == action && (given is Some <==> args is Some) && (args is Some
            ==> crate::json::substituted_json(args->0, entry@, delimiter.deep_view()) == Ok::<
            crate::json::JsonView,
            crate::template::MissingFieldView,
        >(given->0.deep_view()))),
        outcome.deep_view() is DispatchAction ==> begun.1 is DispatchAction || begun.1 is ShowError,
        outcome.deep_view() is RunCommand ==> begun.1 is FindEnvironment || begun.1 is ShowError,
        outcome.deep_view() matches crate::config::OutcomeView::RunCommand { command, args } ==> (
        begun.0 matches OutcomeRun::AwaitingEnvironment {
            command: named,
            args: given,
            cwd: at,
            run_on: policy,
            remote: far,
        } ==> named@ == command && at@ == cwd@ && policy == run_on && far == remote
            && crate::template::substituted_all(args, entry@, delimiter.deep_view()) == Ok::<
            Seq<Seq<char>>,
            crate::template::MissingFieldView,
        >(given.deep_view())),
{
}

/// What a reply leads to is told by the run alone: the next step, or what went
/// wrong by the name of the command or the action.
pub proof fn law_reply_leads_on_or_reports(
    command: String,
    error: String,
    exit: CommandExit,
    failed: (OutcomeRun, OutcomeAction),
    refused: (OutcomeRun, OutcomeAction),
    ended: (OutcomeRun, OutcomeAction),
)
    requires
        call_ensures(
            OutcomeRun::reply,
            (OutcomeRun::Running { command }, OutcomeReply::Ran(Err(error))),
            failed,
        ),
        call_ensures(
            OutcomeRun::reply,
            (OutcomeRun::Dispatching { action: command }, OutcomeReply::Dispatched(Err(error))),
            refused,
        ),
        call_ensures(
            OutcomeRun::reply,
            (OutcomeRun::Running { command }, OutcomeReply::Ran(Ok(exit))),
            ended,
        ),
    ensures
        failed.0 is Done && (failed.1 matches OutcomeAction::ShowError(message) && message@
            == "Could not run `"@ + command@ + "`: "@ + error@),
        refused.0 is Done && (refused.1 matches OutcomeAction::ShowError(message) && message@
            == "`"@ + command@ + "` could not run: "@ + error@),
        ended.0 is Done,
        exit.code == Some(0i32) ==> ended.1 is Nothing,
        exit.code != Some(0i32) ==> (ended.1 matches OutcomeAction::ShowError(message) && message@
            == crate::outcome::command_failure_text(command@, exit.deep_view())),
{
}

/// A run goes from its environment to the command, through the transport where
/// that is asked: what is asked for, and what is run, is the command of the
/// Outcome with its arguments.
pub proof fn law_reply_runs_the_command(
    command: String,
    args: Vec<String>,
    cwd: String,
    run_on: RunOn,
    remote: bool,
    env: Environment,
    next: (OutcomeRun, OutcomeAction),
)
    requires
        call_ensures(
            OutcomeRun::reply,
            (
                OutcomeRun::AwaitingEnvironment { command, args, cwd, run_on, remote },
                OutcomeReply::Environment(Some(env)),
            ),
            next,
        ),
    ensures
        next.1 is AskTransport <==> remote && run_on == RunOn::Auto,
        next.1 is AskTransport || next.1 is RunCommand,
        next.1 matches OutcomeAction::RunCommand(run) ==> run.command@ == command@
            && run.args.deep_view() == args.deep_view() && run.env.deep_view() == env.deep_view()
            && (run.cwd is Some <==> !remote) && (run.cwd matches Some(at) ==> at@ == cwd@),
        next.1 matches OutcomeAction::AskTransport(asked) ==> asked.command@ == command@
            && asked.args.deep_view() == args.deep_view() && asked.env.deep_view()
            == env.deep_view() && asked.cwd@ == cwd@,
{
}

/// A command that failed is told by its name, how it ended, and what explains it
/// where anything does.
pub proof fn law_command_failure_tells_why(command: &str, exit: CommandExit, message: String)
    requires
        call_ensures(command_failure, (command, exit), message),
    ensures
        ({
            let ended = match exit.code {
                Some(code) => "`"@ + command@ + "` "@ + ("exited with status "@
                    + crate::text::decimal(code as int)),
                None => "`"@ + command@ + "` "@ + "was terminated by a signal"@,
            };
            let error = exit.stderr is Some && !crate::text::is_blank(exit.stderr->0@);
            let output = exit.stdout is Some && !crate::text::is_blank(exit.stdout->0@);
            message@ == (if error {
                ended + ": "@ + exit.stderr->0@
            } else if output {
                ended + ": "@ + exit.stdout->0@
            } else {
                ended
            })
        }),
{
}

/// A target is opened by its path where it exists, and the cursor goes to its row
/// and column, counted from zero; the column is the first where none is named.
pub proof fn law_open_path_goes_to_the_position(
    target: &PathWithPosition,
    exists_now: bool,
    opened: OpenPath,
    single_buffer: bool,
    place: Option<Point>,
    row: Option<u32>,
    column: Option<u32>,
    point: Point,
)
    requires
        call_ensures(open_path, (target, exists_now), opened),
        call_ensures(cursor, (target, single_buffer), place),
        call_ensures(point_of, (row, column), point),
    ensures
        exists_now ==> (opened matches OpenPath::Open(path) && path@ == target.path@),
        !exists_now ==> (opened matches OpenPath::ShowError(message) && message@ == target.path@
            + " no longer exists"@),
        place is Some <==> target.row is Some && single_buffer,
        place matches Some(place) ==> place.row == (if target.row->0 == 0 {
            0
        } else {
            target.row->0 - 1
        }) && place.column == (match target.column {
            Some(column) => if column == 0 {
                0
            } else {
                column - 1
            },
            None => 0,
        }),
        row matches Some(n) ==> (n > 0 ==> point.row + 1 == n),
        column matches Some(n) ==> (n > 0 ==> point.column + 1 == n),
        row is None || row == Some(0u32) ==> point.row == 0,
        column is None || column == Some(0u32) ==> point.column == 0,
{
}

/// Where a command runs is decided by the project and the policy; the command is
/// handed on whole.
pub proof fn law_commands_are_resolved_whole(
    remote: bool,
    run_on: RunOn,
    command: String,
    args: Vec<String>,
    cwd: &str,
    env: Environment,
    plan: CommandPlan,
    template: CommandTemplate,
    error: String,
    wrapped: Result<ResolvedCommand, String>,
    failed: Result<ResolvedCommand, String>,
)
    requires
        call_ensures(resolve_command, (remote, run_on, command, args, cwd, env), plan),
        call_ensures(wrap_command, (Ok(template),), wrapped),
        call_ensures(wrap_command, (Err(error),), failed),
    ensures
        plan is AskTransport <==> remote && run_on == RunOn::Auto,
        plan matches CommandPlan::Run(run) ==> run.command@ == command@ && run.args.deep_view()
            == args.deep_view() && run.env.deep_view() == env.deep_view() && (run.cwd is Some
            <==> !remote) && (run.cwd matches Some(at) ==> at@ == cwd@),
        plan matches CommandPlan::AskTransport(asked) ==> asked.command@ == command@
            && asked.args.deep_view() == args.deep_view() && asked.env.deep_view()
            == env.deep_view() && asked.cwd@ == cwd@,
        wrapped matches Ok(run) && run.command@ == template.program@ && run.args.deep_view()
            == template.args.deep_view() && run.env.deep_view() == template.env.deep_view()
            && run.cwd is None,
        failed matches Err(told) && told@ == error@,
{
}

// ---------------------------------------------------------------------------
// Templates and queries
// ---------------------------------------------------------------------------
/// The Entry and its Fields stand in place of the braces of a template, and all
/// else of it stays; its Fields are parted by the delimiter, or by whitespace.
pub proof fn law_substitute_puts_the_entry_in<'a>(
    entry: &'a str,
    delimiter: Option<&str>,
    parts: Vec<&'a str>,
    template: &str,
    out: Result<String, MissingField>,
    error: &MissingField,
    message: String,
)
    requires
        call_ensures(fields, (entry, delimiter), parts),
        call_ensures(substitute, (template, entry, delimiter), out),
        call_ensures(MissingField::to_string, (error,), message),
    ensures
        parts.deep_view() == crate::template::fields_of(entry@, delimiter.deep_view()),
        crate::model::result_view(out) == crate::template::substituted(
            template@,
            entry@,
            delimiter.deep_view(),
        ),
        template@ == "{}"@ ==> (out matches Ok(text) && text@ == entry@),
        out matches Err(error) ==> error.entry@ == entry@ && error.available == parts@.len()
            && error.index > error.available,
        !template@.contains('{') ==> (out matches Ok(text) && text@ == template@),
        message@ == "`{"@ + crate::text::digits(error.index as nat) + "}` needs field "@
            + crate::text::digits(error.index as nat) + " but `"@ + error.entry@ + "` has "@
            + crate::text::digits(error.available as nat),
{
    crate::template::law_whole_entry(entry@, delimiter.deep_view());
    crate::template::law_missing_field_is_missing(template@, entry@, delimiter.deep_view());
    assert(parts.deep_view().len() == parts@.len());
    if !template@.contains('{') {
        crate::template::law_literal_template(template@, entry@, delimiter.deep_view());
    }
}

/// Each argument, and each string in the arguments of an action, becomes what it
/// becomes as a template alone, for the same Entry and the same delimiter.
pub proof fn law_arguments_are_templates(
    args: &[String],
    text: &str,
    leaf: Json,
    entry: &str,
    delimiter: Option<&str>,
    one: Result<String, MissingField>,
    all: Result<Vec<String>, MissingField>,
    json: Result<Json, MissingField>,
    i: int,
)
    requires
        leaf matches Json::Text(held) && held@ == text@,
        0 <= i < args@.len(),
        args@[i]@ == text@,
        call_ensures(substitute, (text, entry, delimiter), one),
        call_ensures(substitute_args, (args, entry, delimiter), all),
        call_ensures(substitute_json, (&leaf, entry, delimiter), json),
    ensures
        all matches Ok(texts) ==> texts@.len() == args@.len() && (one matches Ok(out) && texts@[i]@
            == out@),
        one is Err ==> all is Err,
        one matches Ok(out) ==> (json matches Ok(Json::Text(held)) && held@ == out@),
        one matches Err(error) ==> (json matches Err(told) && told.deep_view()
            == error.deep_view()),
{
    crate::template::law_arguments_one_for_one(args.deep_view(), entry@, delimiter.deep_view());
    assert(args.deep_view()[i] == text@);
    crate::json::law_strings_are_templates(text@, entry@, delimiter.deep_view());
    if let Ok(texts) = all {
        assert(texts.deep_view()[i] == texts@[i]@);
        assert(crate::template::substituted(args.deep_view()[i], entry@, delimiter.deep_view())
            is Ok);
    } else {
    }
    if one is Err {
        if let Ok(texts) = all {
            assert(texts.deep_view()[i] == texts@[i]@);
        }
    }
}

/// An array and an object of arguments are replaced value by value: what comes
/// out holds, in each place, what its value becomes alone.
pub proof fn law_substitute_json_goes_into_values(
    items: Vec<Json>,
    entry: &str,
    delimiter: Option<&str>,
    i: int,
    json: Result<Json, MissingField>,
    item: Result<Json, MissingField>,
)
    requires
        0 <= i < items@.len(),
        call_ensures(substitute_json, (&Json::Array(items), entry, delimiter), json),
        call_ensures(substitute_json, (&items@[i], entry, delimiter), item),
    ensures
        item is Err ==> json is Err,
        json matches Ok(out) ==> out.model() is Array && out.model()->Array_0.len() == items@.len()
            && (item matches Ok(value) && out.model()->Array_0[i] == value.model()),
{
    let view = Json::Array(items).model()->Array_0;
    assert(Json::Array(items).model() == crate::json::JsonView::Array(view));
    crate::json::law_arrays_are_substituted_item_by_item(view, entry@, delimiter.deep_view());
    assert(view[i] == items@[i].model());
    if let Ok(out) = json {
        assert(crate::json::substituted_json(view[i], entry@, delimiter.deep_view()) == Ok::<
            crate::json::JsonView,
            crate::template::MissingFieldView,
        >(out.model()->Array_0[i]));
    }
}

/// The Query stands in place of every placeholder of every argument; arguments
/// keep their number and their places.
pub proof fn law_substitute_query_puts_the_query_in(
    args: &[String],
    query: &str,
    out: Vec<String>,
    found: bool,
    i: int,
)
    requires
        0 <= i < args@.len(),
        call_ensures(substitute_query, (args, query), out),
        call_ensures(has_query_placeholder, (args,), found),
    ensures
        out@.len() == args@.len(),
        out@[i]@ == crate::text::replaced(args@[i]@, "{query}"@, query@),
        !found ==> out@[i]@ == args@[i]@,
        crate::text::has_occurrence(args@[i]@, "{query}"@) ==> found,
        args@[i]@ == "{query}"@ ==> out@[i]@ == query@,
{
    let given = args.deep_view();
    assert(given[i] == args@[i]@);
    assert(out.deep_view().len() == out@.len());
    crate::config::law_query_goes_only_to_placeholders(given, query@, i);
    assert(out.deep_view()[i] == out@[i]@);
    if !found {
        crate::config::law_query_is_ignored_without_placeholder(given, query@);
    }
    if args@[i]@ == "{query}"@ {
        crate::config::law_placeholder_becomes_the_query(given, query@, i);
    }
}

/// A Source and an Outcome tell what they were written with.
pub proof fn law_parts_of_a_finder_are_as_written(
    source: &Source,
    command: &str,
    args: &[String],
    driven: bool,
    outcome: &Outcome,
    template: Option<&str>,
    carries: bool,
)
    requires
        call_ensures(Source::command, (source,), command),
        call_ensures(Source::args, (source,), args),
        call_ensures(Source::is_query_driven, (source,), driven),
        call_ensures(Outcome::path_template, (outcome,), template),
        call_ensures(Outcome::path_carries_position, (outcome,), carries),
    ensures
        source matches Source::Command { command: c, args: a } ==> command@ == c@
            && args.deep_view() == a.deep_view() && !driven,
        source matches Source::Query { command: c, args: a } ==> command@ == c@ && args.deep_view()
            == a.deep_view() && driven,
        outcome matches Outcome::OpenPath { path: Some(path) } ==> (template matches Some(text)
            && text@ == path@) && !carries,
        outcome matches Outcome::OpenPathAtPosition { path: Some(path) } ==> (
        template matches Some(text) && text@ == path@) && carries,
        outcome matches Outcome::OpenPath { path: None } ==> (template matches Some(text) && text@
            == "{}"@) && !carries,
        outcome matches Outcome::OpenPathAtPosition { path: None } ==> (
        template matches Some(text) && text@ == "{}"@) && carries,
        outcome is DispatchAction || outcome is RunCommand ==> template is None && !carries,
{
}

// ---------------------------------------------------------------------------
// The configuration file and its Finders
// ---------------------------------------------------------------------------
/// A Finder that loads is what is written in its table: every key that is there
/// reaches it, whatever its Source and its Outcome are, and every key that is
/// not leaves its default.
pub proof fn law_load_finder_reads_what_is_written(
    name: &str,
    pairs: Vec<(String, TomlValue)>,
    out: Result<FinderConfig, String>,
    config: FinderConfig,
)
    requires
        call_ensures(load_finder, (name, &TomlValue::Table(pairs)), out),
        out matches Ok(loaded) && loaded == config,
    ensures
        config.name@ == name@,
        match crate::decode::field(pairs.deep_view(), "label"@) {
            Some(written) => crate::decode::text_of(written) == Some(config.label@),
            None => config.label@ == name@,
        },
        match crate::decode::field(pairs.deep_view(), "placeholder"@) {
            Some(written) => crate::decode::text_of(written) == Some(config.placeholder@),
            None => config.placeholder@ == "Search "@ + config.label@ + "…"@,
        },
        match crate::decode::field(pairs.deep_view(), "delimiter"@) {
            Some(written) => config.delimiter is Some && crate::decode::text_of(written) == Some(
                config.delimiter->0@,
            ),
            None => config.delimiter is None,
        },
        crate::decode::field(pairs.deep_view(), "source"@) matches Some(written)
            && crate::decode::decoded_source(written) == Ok::<
            crate::config::SourceView,
            crate::decode::DecodeErrorView,
        >(config.source.deep_view()),
        crate::decode::field(pairs.deep_view(), "outcome"@) matches Some(written)
            && crate::decode::decoded_outcome(written) == Ok::<
            crate::config::OutcomeView,
            crate::decode::DecodeErrorView,
        >(config.outcome.deep_view()),
        config.preview is Some <==> crate::decode::field(pairs.deep_view(), "preview"@) is Some,
        match crate::decode::field(pairs.deep_view(), "run_on"@) {
            Some(written) => crate::decode::run_on_name(written) == Some(
                match config.run_on {
                    RunOn::Auto => "auto"@,
                    RunOn::Local => "local"@,
                },
            ),
            None => config.run_on == RunOn::Auto,
        },
{
    let value = TomlValue::Table(pairs);
    crate::decode::lemma_contents(value);
    crate::parse::law_what_is_written_reaches_the_finder(
        pairs.deep_view(),
        name@,
        config.deep_view(),
    );
}

/// Each table is loaded on its own: a name is among the Finders, or among the
/// errors, exactly as its own table loads or does not.
pub proof fn law_load_finders_loads_each_alone(
    pairs: &Vec<(String, TomlValue)>,
    parsed: ParsedConfig,
    name: &str,
    value: &TomlValue,
    out: Result<FinderConfig, String>,
)
    requires
        crate::decode::field(pairs.deep_view(), name@) == Some(value.model()),
        call_ensures(load_finders, (pairs,), parsed),
        call_ensures(load_finder, (name, value), out),
    ensures
        out matches Ok(config) ==> parsed@.finders.dom().contains(name@) && parsed@.finders[name@]
            == config.deep_view() && !parsed@.errors.dom().contains(name@),
        out matches Err(error) ==> parsed@.errors.dom().contains(name@) && parsed@.errors[name@]
            == error@ && !parsed@.finders.dom().contains(name@),
{
    crate::parse::law_finders_are_loaded_by_name(pairs.deep_view(), name@);
}

/// A file is parsed into the Finders of its tables, or into the error of what is
/// wrong with it, as it is written; a document that was parsed elsewhere is read
/// in the same way.
pub proof fn law_files_are_read_as_toml_reads_them(
    contents: &str,
    parsed: Result<ParsedConfig, String>,
    document: Result<TomlDocument, String>,
    read: Result<ParsedConfig, String>,
    given: Result<TomlDocument, String>,
)
    requires
        call_ensures(parse_config, (contents,), parsed),
        call_ensures(parse_document, (contents,), document),
        call_ensures(read_document, (contents, document), read),
        call_ensures(parse_document, (contents,), given),
    ensures
        crate::parse::parsed_view(parsed) == crate::parse::parsed_view(read),
        crate::model::result_view(given) == crate::model::result_view(document),
        crate::document::toml_keys(contents@) matches Err(error) ==> (document matches Err(told)
            && told@ == error) && (parsed matches Err(told) && told@ == "parsing finder config: "@
            + error),
        crate::document::toml_keys(contents@) matches Ok(keys) ==> (document matches Ok(found)
            && found.keys.deep_view() == keys && crate::model::result_view(found.tables)
            == crate::document::toml_tables(contents@)),
        parsed matches Ok(config) ==> (crate::parse::config_of(
            contents@,
            document->Ok_0.deep_view(),
        ) matches Ok(defined) && config@ == defined),
        document is Ok ==> (parsed matches Err(told) ==> (crate::parse::config_of(
            contents@,
            document->Ok_0.deep_view(),
        ) matches Err(error) && told@ == "parsing finder config: "@ + error)),
{
}

/// What the registry holds after a file was applied is what parsing that file
/// gives, whatever it held before: its names resolve to that, and an error of
/// the file leaves none.
pub proof fn law_apply_replaces_everything(
    registry: &mut FinderRegistry,
    contents: &str,
    parsed: Result<ParsedConfig, String>,
    name: &str,
    found: FinderLookup,
    error: Option<&str>,
    rows: Vec<FinderListEntry>,
)
    requires
        call_ensures(parse_config, (contents,), parsed),
        call_ensures(FinderRegistry::apply, (registry, contents), ()),
        call_ensures(FinderRegistry::lookup, (&*final(registry), name), found),
        call_ensures(FinderRegistry::file_error, (&*final(registry),), error),
        call_ensures(FinderRegistry::entries, (&*final(registry),), rows),
    ensures
        parsed matches Ok(config) ==> error is None && (found is Found
            <==> config@.finders.dom().contains(name@)) && (found is Broken <==> (
        !config@.finders.dom().contains(name@) && config@.errors.dom().contains(name@))) && (
        found matches FinderLookup::Found(finder) ==> finder.deep_view() == config@.finders[name@])
            && (found matches FinderLookup::Broken { error } ==> error@ == config@.errors[name@]),
        parsed matches Err(told) ==> found is Missing && rows.deep_view().len() == 0 && (
        error matches Some(kept) && kept@ == told@),
        rows.deep_view() == final(registry)@.entries(),
        final(registry)@.wf(),
{
}

/// A Finder opens where its name resolves to one and a project is open, with the
/// project's root as its directory; else it is told why it does not.
pub proof fn law_open_finder_opens_what_is_found(
    registry: &FinderRegistry,
    name: &str,
    cwd: Option<&str>,
    found: FinderLookup,
    out: OpenFinder,
    nothing: OpenFinder,
)
    requires
        registry@.wf(),
        call_ensures(FinderRegistry::lookup, (registry, name), found),
        call_ensures(open_finder, (Some(registry), name, cwd), out),
        call_ensures(open_finder, (None, name, cwd), nothing),
    ensures
        nothing is Nothing,
        found matches FinderLookup::Found(config) ==> (cwd matches Some(at) ==> (
        out matches OpenFinder::Show { config: shown, cwd: root } && shown.deep_view()
            == config.deep_view() && root@ == at@)),
        found is Found && cwd is None ==> (out matches OpenFinder::ShowError(message) && message@
            == "Finder `"@ + name@ + "` needs an open project to run in"@),
        found matches FinderLookup::Broken { error } ==> (out matches OpenFinder::ShowError(message)
            && message@ == "Finder `"@ + name@ + "` failed to load: "@ + error@),
        found is Missing ==> (out matches OpenFinder::ShowError(message) && message@
            == "No finder named `"@ + name@ + "`"@),
{
}

/// The list opens with the rows of the registry, unless its file could not be
/// read: then that is told.
pub proof fn law_open_finder_list_shows_the_rows(
    registry: &FinderRegistry,
    rows: Vec<FinderListEntry>,
    error: Option<&str>,
    out: OpenFinderList,
    nothing: OpenFinderList,
)
    requires
        call_ensures(FinderRegistry::entries, (registry,), rows),
        call_ensures(FinderRegistry::file_error, (registry,), error),
        call_ensures(open_finder_list, (Some(registry),), out),
        call_ensures(open_finder_list, (None,), nothing),
    ensures
        nothing is Nothing,
        error is None ==> (out matches OpenFinderList::Show(shown) && shown.deep_view()
            == rows.deep_view()),
        error matches Some(told) ==> (out matches OpenFinderList::ShowError(message) && message@
            == "finders.toml"@ + " could not be read: "@ + told@),
{
}

// ---------------------------------------------------------------------------
// The picker over all Finders
// ---------------------------------------------------------------------------
/// The list holds the rows it was given; a row is known by its name and shown by
/// its label.
pub proof fn law_list_holds_its_rows(
    entries: Vec<FinderListEntry>,
    list: FinderListDelegate,
    labels: Vec<String>,
    none: String,
    entry: &FinderListEntry,
    name: &str,
    label: String,
)
    requires
        call_ensures(FinderListDelegate::new, (entries,), list),
        call_ensures(FinderListDelegate::candidates, (&list,), labels),
        call_ensures(FinderListDelegate::no_matches_text, (&list,), none),
        call_ensures(FinderListEntry::name, (entry,), name),
        call_ensures(FinderListEntry::label, (entry,), label),
    ensures
        list@.entries == entries.deep_view(),
        list@.matches.len() == 0,
        labels.deep_view().len() == entries.deep_view().len(),
        forall|i: int|
            0 <= i < entries.deep_view().len() ==> labels.deep_view()[i] == (
            #[trigger] entries.deep_view()[i]).label(),
        entries.deep_view().len() == 0 ==> none@ == "No finders configured"@,
        entries.deep_view().len() > 0 ==> none@ == "No matches"@,
        entry matches FinderListEntry::Finder(config) ==> name@ == config.deep_view().name && label@
            == config.deep_view().label,
        entry matches FinderListEntry::Broken { name: held, .. } ==> name@ == held@ && label@
            == held@,
{
}

/// A Query asks for the labels to be matched; without one every row is listed in
/// its place.
pub proof fn law_list_update_matches_says_what_to_list(
    list: &FinderListDelegate,
    query: &str,
    plan: ListPlan,
)
    requires
        call_ensures(FinderListDelegate::update_matches, (list, query), plan),
    ensures
        query@.len() > 0 ==> (plan matches ListPlan::Match { query: asked, limit } && asked@
            == query@ && limit == 100),
        query@.len() == 0 ==> (plan matches ListPlan::List(matches) && matches.deep_view().len()
            == list@.entries.len() && forall|i: int|
            0 <= i < matches.deep_view().len() ==> (#[trigger] matches.deep_view()[i]).string
                == list@.entries[i].label() && matches.deep_view()[i].candidate_id == i
                && matches.deep_view()[i].positions.len() == 0),
{
}

/// Confirming gives the name of the row that the selected match was made from,
/// and nothing where none is listed; new matches select the first, and a
/// selection is where it is put.
pub proof fn law_list_confirm_names_the_row(
    list: &mut FinderListDelegate,
    matches: Vec<StringMatch>,
    moved: &mut FinderListDelegate,
    i: usize,
    name: Option<String>,
    entry: Option<&FinderListEntry>,
    found: Option<&StringMatch>,
)
    requires
        call_ensures(FinderListDelegate::install_matches, (list, matches), ()),
        *old(moved) == *final(list),
        call_ensures(FinderListDelegate::set_selected_index, (moved, i), ()),
        call_ensures(FinderListDelegate::confirm, (&*final(moved),), name),
        call_ensures(FinderListDelegate::entry_at, (&*final(moved), i), entry),
        call_ensures(FinderListDelegate::match_at, (&*final(moved), i), found),
    ensures
        final(list)@.selected_index == 0,
        final(list)@.entries == old(list)@.entries,
        final(moved)@.matches == matches.deep_view(),
        i >= matches.deep_view().len() ==> name is None && entry is None && found is None,
        i < matches.deep_view().len() ==> found.deep_view() == Some(matches.deep_view()[i as int]),
        i < matches.deep_view().len() && matches.deep_view()[i as int].candidate_id < old(list)@.entries.len() ==> ({
            let row = old(list)@.entries[matches.deep_view()[i as int].candidate_id as int];
            name.deep_view() == Some(row.name()) && entry.deep_view() == Some(row)
        }),
{
}

// ---------------------------------------------------------------------------
// Preview and diagnostics
// ---------------------------------------------------------------------------
/// A path is loaded under a generation of its own, and shown with its position
/// once it is there; a load that was replaced by a path, a message or nothing at
/// all is not shown.
pub proof fn law_preview_shows_the_newest(
    preview: &mut PositionedPreview,
    position: Option<PathWithPosition>,
    step: PreviewStep,
    loading: &mut PositionedPreview,
    generation: Generation,
    show: Option<Option<PathWithPosition>>,
)
    requires
        call_ensures(PositionedPreview::update, (preview, true, position), step),
        *old(loading) == *final(preview),
        call_ensures(PositionedPreview::loaded, (loading, generation), show),
    ensures
        step matches PreviewStep::Load { generation: asked } && (asked == generation ==> (
        show matches Some(shown) && shown.deep_view() == position.deep_view())) && (asked
            != generation ==> show is None) && asked != old(preview)@.generation,
{
}

/// A message is shown as it is and leaves nothing to be loaded, and so does a
/// Preview that is cleared.
pub proof fn law_messages_replace_loads(
    preview: &mut PositionedPreview,
    position: Option<PathWithPosition>,
    step: PreviewStep,
    cleared: &mut PositionedPreview,
    after: &mut PositionedPreview,
    later: &mut PositionedPreview,
    generation: Generation,
    first: Option<Option<PathWithPosition>>,
    second: Option<Option<PathWithPosition>>,
)
    requires
        call_ensures(PositionedPreview::update, (preview, false, position), step),
        *old(after) == *final(preview),
        call_ensures(PositionedPreview::loaded, (after, generation), first),
        call_ensures(PositionedPreview::clear, (cleared,), ()),
        *old(later) == *final(cleared),
        call_ensures(PositionedPreview::loaded, (later, generation), second),
    ensures
        step is Forward,
        first is None,
        second is None,
        final(cleared)@.generation != old(cleared)@.generation,
        final(preview)@.generation != old(preview)@.generation,
{
}

/// The text of a path comes from the buffer that is open, else from the project,
/// and from the machine where it lies outside; the whole line of the position is
/// highlighted.
pub proof fn law_preview_highlights_the_line<C: Fn(Point) -> Point, L: Fn(u32) -> u32>(
    position: &PathWithPosition,
    clip: C,
    line_len: L,
    place: Point,
    point: Point,
    len: u32,
    location: MatchLocation,
    outside: BufferSource,
    open: BufferSource,
    closed: BufferSource,
    is_open: bool,
)
    requires
        call_ensures(match_location_for_position, (position, clip, line_len), location),
        call_ensures(point_of, (position.row, position.column), place),
        forall|answer: Point| #[trigger] call_ensures(clip, (place,), answer) ==> answer == point,
        forall|answer: u32|
            #[trigger] call_ensures(line_len, (point.row,), answer) ==> answer == len,
        call_ensures(buffer_source, (false, is_open), outside),
        call_ensures(buffer_source, (true, true), open),
        call_ensures(buffer_source, (true, false), closed),
    ensures
        location.start.row == point.row && location.start.column == 0,
        location.end.row == point.row && location.end.column == len,
        outside == BufferSource::Local,
        open == BufferSource::Open,
        closed == BufferSource::Project,
{
}

/// The diagnostic of output is that of all its bytes, however it is read: in one
/// piece, in two, or as a stream that then ends; a stream that fails hands its
/// error back.
pub proof fn law_diagnostics_do_not_depend_on_reads<E>(
    output: &[u8],
    first: &[u8],
    second: &[u8],
    whole: Option<String>,
    search: &mut FirstLine,
    rest: &mut FirstLine,
    fresh: FirstLine,
    found: Option<String>,
    start: StreamState<E>,
    read: StreamState<E>,
    done: StreamState<E>,
    error: E,
    failed: StreamState<E>,
)
    requires
        output@ == first@ + second@,
        call_ensures(first_non_empty_line, (output,), whole),
        call_ensures(FirstLine::new, (), fresh),
        *old(search) == fresh,
        call_ensures(FirstLine::read, (search, first), ()),
        *old(rest) == *final(search),
        call_ensures(FirstLine::read, (rest, second), ()),
        call_ensures(FirstLine::finish, (*final(rest),), found),
        call_ensures(StreamState::<E>::new, (), start),
        call_ensures(StreamState::<E>::read, (start, StreamRead::Bytes(output)), read),
        call_ensures(StreamState::<E>::read, (read, StreamRead::Ended), done),
        call_ensures(StreamState::<E>::read, (read, StreamRead::Failed(error)), failed),
    ensures
        found.deep_view() == whole.deep_view(),
        whole.deep_view() == crate::diagnostic::diagnostic_of(output@),
        done matches StreamState::Done(Ok(line)) && line.deep_view() == whole.deep_view(),
        failed matches StreamState::Done(Err(told)) && told == error,
        read is Reading,
{
    let none = crate::diagnostic::FirstLineView::new();
    crate::diagnostic::law_chunks_do_not_matter(none, first@, second@);
    crate::diagnostic::law_search_finds_the_diagnostic(output@);
}

/// An error is shown where it is: see the line, the column and the marks that
/// its bytes have.
pub proof fn law_locate_shows_the_place(
    contents: &str,
    start: usize,
    end: usize,
    message: &str,
    text: String,
    platform: &Platform,
    entry: &str,
    cwd: &str,
    path: String,
)
    requires
        call_ensures(locate, (contents, start, end, message), text),
        call_ensures(Platform::resolve, (platform, entry, cwd), path),
    ensures
        text@ == crate::locate::located(contents@, start as nat, end as nat, message@),
        path@ == crate::platform::entry_path(platform@, entry@, cwd@),
{
}

// ---------------------------------------------------------------------------
// Models
// ---------------------------------------------------------------------------
/// Nothing of a Finder is left out of its model.
pub proof fn law_finders_are_modelled_whole(config: FinderConfig)
    ensures
        config.deep_view().name == config.name@,
        config.deep_view().label == config.label@,
        config.deep_view().placeholder == config.placeholder@,
        config.deep_view().source == config.source.deep_view(),
        config.deep_view().outcome == config.outcome.deep_view(),
        config.deep_view().preview == config.preview,
        config.deep_view().delimiter is Some <==> config.delimiter is Some,
        config.delimiter matches Some(delimiter) ==> config.deep_view().delimiter == Some(
            delimiter@,
        ),
        config.deep_view().run_on == config.run_on,
{
}

/// Nothing of a Source or an Outcome is left out of its model.
pub proof fn law_sources_and_outcomes_are_modelled_whole(source: Source, outcome: Outcome)
    ensures
        source matches Source::Command { command, args } ==> source.deep_view() == (
        crate::config::SourceView::Command { command: command@, args: args.deep_view() }),
        source matches Source::Query { command, args } ==> source.deep_view() == (
        crate::config::SourceView::Query { command: command@, args: args.deep_view() }),
        outcome matches Outcome::OpenPath { path } ==> outcome.deep_view() == (
        crate::config::OutcomeView::OpenPath { path: path.deep_view() }),
        outcome matches Outcome::OpenPathAtPosition { path } ==> outcome.deep_view() == (
        crate::config::OutcomeView::OpenPathAtPosition { path: path.deep_view() }),
        outcome matches Outcome::DispatchAction { action, args } ==> outcome.deep_view() == (
        crate::config::OutcomeView::DispatchAction { action: action@, args: args.deep_view() }),
        outcome matches Outcome::RunCommand { command, args } ==> outcome.deep_view() == (
        crate::config::OutcomeView::RunCommand { command: command@, args: args.deep_view() }),
{
}

/// Nothing of a position, a match or an exit is left out of its model.
pub proof fn law_results_are_modelled_whole(
    position: PathWithPosition,
    found: StringMatch,
    exit: CommandExit,
    error: MissingField,
)
    ensures
        position.deep_view().path == position.path@,
        position.deep_view().row == position.row,
        position.deep_view().column == position.column,
        found.deep_view().string == found.string@,
        found.deep_view().candidate_id == found.candidate_id,
        found.deep_view().positions.len() == found.positions@.len(),
        exit.deep_view().code == exit.code,
        exit.deep_view().stdout == exit.stdout.deep_view(),
        exit.deep_view().stderr == exit.stderr.deep_view(),
        error.deep_view().index == error.index,
        error.deep_view().entry == error.entry@,
        error.deep_view().available == error.available,
{
}

/// Nothing of a command, wherever it is to run, is left out of its model.
pub proof fn law_commands_are_modelled_whole(
    command: ResolvedCommand,
    template: CommandTemplate,
    request: SourceRequest,
    plan: CommandPlan,
)
    ensures
        command.deep_view().command == command.command@,
        command.deep_view().args == command.args.deep_view(),
        command.deep_view().env == command.env.deep_view(),
        command.deep_view().cwd == command.cwd.deep_view(),
        template.deep_view().program == template.program@,
        template.deep_view().args == template.args.deep_view(),
        template.deep_view().env == template.env.deep_view(),
        request.deep_view().command == request.command@,
        request.deep_view().args == request.args.deep_view(),
        request.deep_view().run_on == request.run_on,
        plan matches CommandPlan::Run(run) ==> plan.deep_view()
            == crate::remote::CommandPlanView::Run(run.deep_view()),
        plan matches CommandPlan::AskTransport(asked) ==> (
        plan.deep_view() matches crate::remote::CommandPlanView::AskTransport(view) && view.command
            == asked.command@ && view.args == asked.args.deep_view() && view.env
            == asked.env.deep_view() && view.cwd == asked.cwd@),
{
}

/// Nothing that a Source says, and nothing that happens to it, is left out of
/// its model.
pub proof fn law_updates_are_modelled_whole(
    update: SourceUpdate,
    failure: SourceFailure,
    happening: SourceHappening,
    event: SourceEvent,
)
    ensures
        update matches SourceUpdate::Entries(entries) ==> update.deep_view()
            == crate::source::SourceUpdateView::Entries(entries.deep_view()),
        update matches SourceUpdate::Finished { truncated } ==> update.deep_view() == (
        crate::source::SourceUpdateView::Finished { truncated }),
        update matches SourceUpdate::Failed(failure) ==> update.deep_view()
            == crate::source::SourceUpdateView::Failed(failure.deep_view()),
        failure matches SourceFailure::CouldNotSpawn { command, reason } ==> failure.deep_view()
            == (crate::source::SourceFailureView::CouldNotSpawn {
            command: command@,
            reason: reason@,
        }),
        failure matches SourceFailure::Failed { command, details } ==> failure.deep_view() == (
        crate::source::SourceFailureView::Failed { command: command@, details: details@ }),
        failure matches SourceFailure::TimedOut { command } ==> failure.deep_view() == (
        crate::source::SourceFailureView::TimedOut { command: command@ }),
        event matches SourceEvent::Line(line) ==> event.deep_view()
            == crate::source::SourceEventView::Line(line@),
        event matches SourceEvent::Exited { code, stderr } ==> event.deep_view() == (
        crate::source::SourceEventView::Exited { code, stderr: stderr@ }),
        happening matches SourceHappening::Event(event) ==> happening.deep_view()
            == crate::source::SourceHappeningView::Event(event.deep_view()),
        happening matches SourceHappening::SpawnFailed { reason } ==> happening.deep_view() == (
        crate::source::SourceHappeningView::SpawnFailed { reason: reason@ }),
        happening is Spawned <==> happening.deep_view() is Spawned,
        happening is TimedOut <==> happening.deep_view() is TimedOut,
        happening is Ended <==> happening.deep_view() is Ended,
        happening is FlushDue <==> happening.deep_view() is FlushDue,
        happening is ReceiverGone <==> happening.deep_view() is ReceiverGone,
{
}

/// A document that was parsed replaces everything that the registry held, as its
/// contents do; a registry that has read nothing has nothing.
pub proof fn law_apply_document_replaces_everything(
    registry: &mut FinderRegistry,
    contents: &str,
    document: Result<TomlDocument, String>,
    read: Result<ParsedConfig, String>,
    name: &str,
    found: FinderLookup,
    error: Option<&str>,
    fresh: FinderRegistry,
    rows: Vec<FinderListEntry>,
)
    requires
        call_ensures(read_document, (contents, document), read),
        call_ensures(FinderRegistry::apply_document, (registry, contents, document), ()),
        call_ensures(FinderRegistry::lookup, (&*final(registry), name), found),
        call_ensures(FinderRegistry::file_error, (&*final(registry),), error),
        call_ensures(FinderRegistry::new, (), fresh),
        call_ensures(FinderRegistry::entries, (&fresh,), rows),
    ensures
        read matches Ok(config) ==> error is None && (found is Found
            <==> config@.finders.dom().contains(name@)) && (
        found matches FinderLookup::Found(finder) ==> finder.deep_view() == config@.finders[name@])
            && (found matches FinderLookup::Broken { error } ==> error@ == config@.errors[name@]),
        read matches Err(told) ==> found is Missing && (error matches Some(kept) && kept@ == told@),
        rows.deep_view().len() == 0,
{
}

/// A load is shown once: its answer is wanted no more after that. An answer that
/// was not wanted leaves the load that is.
pub proof fn law_loads_are_shown_once(
    preview: &mut PositionedPreview,
    again: &mut PositionedPreview,
    generation: Generation,
    first: Option<Option<PathWithPosition>>,
    second: Option<Option<PathWithPosition>>,
)
    requires
        call_ensures(PositionedPreview::loaded, (preview, generation), first),
        *old(again) == *final(preview),
        call_ensures(PositionedPreview::loaded, (again, generation), second),
    ensures
        second is None,
        first is None ==> final(preview)@ == old(preview)@,
        final(preview)@.generation == old(preview)@.generation,
        first is Some <==> old(preview)@.loading is Some && old(preview)@.generation == generation,
{
}

/// A name that is put into a map is found with its value, in place of any that
/// it had; every other name is found as before.
pub proof fn law_names_are_found_as_inserted(
    map: &mut NameMap<String>,
    name: String,
    value: String,
    other: &str,
    before: Option<&String>,
    after: Option<&String>,
    held: bool,
)
    requires
        old(map).wf(),
        call_ensures(NameMap::<String>::get, (&*old(map), other), before),
        call_ensures(NameMap::<String>::insert, (map, name, value), ()),
        call_ensures(NameMap::<String>::get, (&*final(map), other), after),
        call_ensures(NameMap::<String>::contains_key, (&*final(map), other), held),
    ensures
        other@ == name@ ==> (after matches Some(found) && found@ == value@),
        other@ != name@ ==> after.deep_view() == before.deep_view(),
        held <==> after is Some,
{
}

} // verus!
