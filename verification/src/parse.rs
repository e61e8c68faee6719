//! The configuration file: every Finder it defines, and why the others could
//! not be loaded.
use std::sync::Arc;

use vstd::prelude::*;

use crate::config::{has_query_placeholder, FinderConfig, Outcome, Preview, RunOn, Source};
use crate::decode::{
    decode_outcome, decode_preview, decode_run_on, decode_source, decode_text, find, missing_key,
    unknown_key, wrong_length, wrong_type, DecodeError,
};
use crate::document::{is_table, parse_document, TomlDocument, TomlValue, TopKey};
use crate::locate::locate;
use crate::names::NameMap;
use crate::text::same_text;

verus! {

/// A Finder as it is written in the file.
#[derive(Debug, PartialEq)]
pub struct FinderBody {
    pub label: Option<String>,
    pub placeholder: Option<String>,
    pub source: Source,
    pub outcome: Outcome,
    pub preview: Option<Preview>,
    pub delimiter: Option<String>,
    pub run_on: RunOn,
}

/// What a [`FinderBody`] is.
pub struct FinderBodyView {
    pub label: Option<Seq<char>>,
    pub placeholder: Option<Seq<char>>,
    pub source: crate::config::SourceView,
    pub outcome: crate::config::OutcomeView,
    pub preview: Option<Preview>,
    pub delimiter: Option<Seq<char>>,
    pub run_on: RunOn,
}

impl DeepView for FinderBody {
    type V = FinderBodyView;

    open spec fn deep_view(&self) -> FinderBodyView {
        FinderBodyView {
            label: self.label.deep_view(),
            placeholder: self.placeholder.deep_view(),
            source: self.source.deep_view(),
            outcome: self.outcome.deep_view(),
            preview: self.preview,
            delimiter: self.delimiter.deep_view(),
            run_on: self.run_on,
        }
    }
}

/// What is said of the keys that belong in a Finder.
pub const BODY_FIELDS: &'static str =
    "expected one of `label`, `placeholder`, `source`, `outcome`, `preview`, `delimiter`, `run_on`";

/// The error of a result.
pub open spec fn error_of<T>(
    result: Result<T, crate::decode::DecodeErrorView>,
) -> Option<crate::decode::DecodeErrorView> {
    match result {
        Ok(_) => None,
        Err(error) => Some(error),
    }
}

/// The error of a result, under a key.
pub open spec fn error_under<T>(
    result: Result<T, crate::decode::DecodeErrorView>,
    key: Seq<char>,
) -> Option<crate::decode::DecodeErrorView> {
    match result {
        Ok(_) => None,
        Err(error) => Some(error.under(key)),
    }
}

/// What is wrong with one pair of a Finder's table.
pub open spec fn body_pair_error(pair: (Seq<char>, crate::document::TomlView)) -> Option<
    crate::decode::DecodeErrorView,
> {
    if pair.0 == "label"@ || pair.0 == "placeholder"@ || pair.0 == "delimiter"@ {
        error_under(crate::decode::decoded_text(pair.1), pair.0)
    } else if pair.0 == "source"@ {
        error_under(crate::decode::decoded_source(pair.1), pair.0)
    } else if pair.0 == "outcome"@ {
        error_under(crate::decode::decoded_outcome(pair.1), pair.0)
    } else if pair.0 == "preview"@ {
        error_under(crate::decode::decoded_preview(pair.1), pair.0)
    } else if pair.0 == "run_on"@ {
        error_under(crate::decode::decoded_run_on(pair.1), pair.0)
    } else {
        Some(crate::decode::unknown_field(pair.0, BODY_FIELDS@))
    }
}

/// What is wrong with the first pair of a Finder's table with which anything
/// is wrong.
pub open spec fn body_error(pairs: Seq<(Seq<char>, crate::document::TomlView)>) -> Option<
    crate::decode::DecodeErrorView,
>
    decreases pairs.len(),
{
    if pairs.len() == 0 {
        None
    } else {
        match body_pair_error(pairs[0]) {
            Some(error) => Some(error),
            None => body_error(pairs.skip(1)),
        }
    }
}

/// What is wrong with the item at the given place of a list that stands for a
/// Finder.
pub open spec fn body_item_error(place: int, item: crate::document::TomlView) -> Option<
    crate::decode::DecodeErrorView,
> {
    if place == 0 || place == 1 || place == 5 {
        error_of(crate::decode::decoded_text(item))
    } else if place == 2 {
        error_of(crate::decode::decoded_source(item))
    } else if place == 3 {
        error_of(crate::decode::decoded_outcome(item))
    } else if place == 4 {
        error_of(crate::decode::decoded_preview(item))
    } else if place == 6 {
        error_of(crate::decode::decoded_run_on(item))
    } else {
        None
    }
}

/// What is wrong with the first item, from the given place on, with which
/// anything is wrong.
pub open spec fn body_items_error(
    items: Seq<crate::document::TomlView>,
    place: int,
) -> Option<crate::decode::DecodeErrorView>
    decreases items.len() - place,
{
    if place >= items.len() {
        None
    } else {
        match body_item_error(place, items[place]) {
            Some(error) => Some(error),
            None => body_items_error(items, place + 1),
        }
    }
}

/// The text at a place of a list that was checked.
pub open spec fn text_item(items: Seq<crate::document::TomlView>, place: int) -> Option<
    Seq<char>,
> {
    if place < items.len() {
        crate::decode::text_of(items[place])
    } else {
        None
    }
}

/// A Finder out of a list of its values: label, placeholder, Source and
/// Outcome, then as many of preview, delimiter and policy as there are.
pub open spec fn listed_body(items: Seq<crate::document::TomlView>) -> Result<
    FinderBodyView,
    crate::decode::DecodeErrorView,
> {
    match body_items_error(items, 0) {
        Some(error) => Err(error),
        None => if items.len() < 4 {
            Err(crate::decode::invalid_length(items.len(), "struct FinderBody with 7 elements"@))
        } else if items.len() > 7 {
            Err(crate::decode::invalid_length(items.len(), "fewer elements in array"@))
        } else {
            Ok(
                FinderBodyView {
                    label: text_item(items, 0),
                    placeholder: text_item(items, 1),
                    source: crate::decode::decoded_source(items[2])->Ok_0,
                    outcome: crate::decode::decoded_outcome(items[3])->Ok_0,
                    preview: if items.len() > 4 {
                        Some(crate::decode::decoded_preview(items[4])->Ok_0)
                    } else {
                        None
                    },
                    delimiter: text_item(items, 5),
                    run_on: if items.len() > 6 {
                        crate::decode::decoded_run_on(items[6])->Ok_0
                    } else {
                        RunOn::Auto
                    },
                },
            )
        },
    }
}

/// A Finder out of its table, where every key is checked before one is missed,
/// or out of a list of its values.
pub open spec fn decoded_body(value: crate::document::TomlView) -> Result<
    FinderBodyView,
    crate::decode::DecodeErrorView,
> {
    match value {
        crate::document::TomlView::Table(pairs) => match body_error(pairs) {
            Some(error) => Err(error),
            None => match (
                crate::decode::field(pairs, "source"@),
                crate::decode::field(pairs, "outcome"@),
            ) {
                (None, _) => Err(crate::decode::missing_field("source"@)),
                (_, None) => Err(crate::decode::missing_field("outcome"@)),
                (Some(source), Some(outcome)) => Ok(
                    FinderBodyView {
                        label: crate::decode::text_field(pairs, "label"@),
                        placeholder: crate::decode::text_field(pairs, "placeholder"@),
                        source: crate::decode::decoded_source(source)->Ok_0,
                        outcome: crate::decode::decoded_outcome(outcome)->Ok_0,
                        preview: match crate::decode::field(pairs, "preview"@) {
                            Some(preview) => Some(crate::decode::decoded_preview(preview)->Ok_0),
                            None => None,
                        },
                        delimiter: crate::decode::text_field(pairs, "delimiter"@),
                        run_on: match crate::decode::field(pairs, "run_on"@) {
                            Some(run_on) => crate::decode::decoded_run_on(run_on)->Ok_0,
                            None => RunOn::Auto,
                        },
                    },
                ),
            },
        },
        crate::document::TomlView::Array(items) => listed_body(items),
        _ => Err(crate::decode::invalid_type(value, "struct FinderBody"@)),
    }
}

fn under_key<T: DeepView>(result: Result<T, DecodeError>, key: &str) -> (error: Option<DecodeError>)
    ensures
        error.deep_view() == error_under(crate::model::result_view(result), key@),
{
    match result {
        Ok(_) => None,
        Err(error) => Some(error.under(key)),
    }
}

fn check_body_pair(key: &str, value: &TomlValue) -> (error: Option<DecodeError>)
    ensures
        error.deep_view() == body_pair_error((key@, value.model())),
{
    if same_text(key, "label") || same_text(key, "placeholder") || same_text(key, "delimiter") {
        under_key(decode_text(value), key)
    } else if same_text(key, "source") {
        under_key(decode_source(value), key)
    } else if same_text(key, "outcome") {
        under_key(decode_outcome(value), key)
    } else if same_text(key, "preview") {
        under_key(decode_preview(value), key)
    } else if same_text(key, "run_on") {
        under_key(decode_run_on(value), key)
    } else {
        Some(unknown_key(key, BODY_FIELDS))
    }
}

fn check_body(pairs: &Vec<(String, TomlValue)>) -> (error: Option<DecodeError>)
    ensures
        error.deep_view() == body_error(pairs.deep_view()),
{
    let ghost all = pairs.deep_view();
    let mut i: usize = 0;
    assert(all.skip(0) == all);
    while i < pairs.len()
        invariant
            i <= pairs@.len(),
            all == pairs.deep_view(),
            body_error(all) == body_error(all.skip(i as int)),
        decreases pairs@.len() - i,
    {
        proof {
            assert(all.skip(i as int)[0] == (pairs@[i as int].0@, pairs@[i as int].1.model()));
            assert(all.skip(i as int).skip(1) == all.skip(i + 1));
        }
        let error = check_body_pair(pairs[i].0.as_str(), &pairs[i].1);
        if error.is_some() {
            return error;
        }
        i += 1;
    }
    None
}

proof fn lemma_body_field_is_checked(
    pairs: Seq<(Seq<char>, crate::document::TomlView)>,
    key: Seq<char>,
)
    requires
        body_error(pairs) is None,
    ensures
        crate::decode::field(pairs, key) matches Some(value) ==> body_pair_error((key, value)) is None,
    decreases pairs.len(),
{
    if pairs.len() > 0 && pairs[0].0 != key {
        lemma_body_field_is_checked(pairs.skip(1), key);
    }
}

proof fn lemma_body_keys_differ()
    ensures
        "label"@ != "source"@,
        "label"@ != "outcome"@,
        "label"@ != "preview"@,
        "label"@ != "run_on"@,
        "placeholder"@ != "source"@,
        "placeholder"@ != "outcome"@,
        "placeholder"@ != "preview"@,
        "placeholder"@ != "run_on"@,
        "delimiter"@ != "source"@,
        "delimiter"@ != "outcome"@,
        "delimiter"@ != "preview"@,
        "delimiter"@ != "run_on"@,
        "source"@ != "outcome"@,
        "source"@ != "preview"@,
        "source"@ != "run_on"@,
        "outcome"@ != "preview"@,
        "outcome"@ != "run_on"@,
        "preview"@ != "run_on"@,
{
    reveal_strlit("label");
    reveal_strlit("placeholder");
    reveal_strlit("delimiter");
    reveal_strlit("source");
    reveal_strlit("outcome");
    reveal_strlit("preview");
    reveal_strlit("run_on");
    assert("label"@.len() == 5);
    assert("placeholder"@.len() == 11);
    assert("delimiter"@.len() == 9);
    assert("source"@.len() == 6 && "source"@[0] == 's');
    assert("outcome"@.len() == 7 && "outcome"@[0] == 'o');
    assert("preview"@.len() == 7 && "preview"@[0] == 'p');
    assert("run_on"@.len() == 6 && "run_on"@[0] == 'r');
}

fn checked<T: DeepView>(result: Result<T, DecodeError>) -> (error: Option<DecodeError>)
    ensures
        error.deep_view() == error_of(crate::model::result_view(result)),
{
    match result {
        Ok(_) => None,
        Err(error) => Some(error),
    }
}

fn check_body_item(place: usize, item: &TomlValue) -> (error: Option<DecodeError>)
    ensures
        error.deep_view() == body_item_error(place as int, item.model()),
{
    if place == 0 || place == 1 || place == 5 {
        checked(decode_text(item))
    } else if place == 2 {
        checked(decode_source(item))
    } else if place == 3 {
        checked(decode_outcome(item))
    } else if place == 4 {
        checked(decode_preview(item))
    } else if place == 6 {
        checked(decode_run_on(item))
    } else {
        None
    }
}

proof fn lemma_items_are_checked(items: Seq<crate::document::TomlView>, place: int, i: int)
    requires
        body_items_error(items, place) is None,
        place <= i < items.len(),
    ensures
        body_item_error(i, items[i]) is None,
    decreases i - place,
{
    if place < i {
        lemma_items_are_checked(items, place + 1, i);
    }
}

fn text_at(items: &Vec<TomlValue>, place: usize) -> (text: Option<String>)
    ensures
        text.deep_view() == text_item(items.deep_view(), place as int),
{
    if place >= items.len() {
        return None;
    }
    match &items[place] {
        TomlValue::Text(text) => Some(text.clone()),
        TomlValue::Datetime(text) => Some(text.clone()),
        _ => None,
    }
}

fn decode_listed_body(items: &Vec<TomlValue>) -> (out: Result<FinderBody, DecodeError>)
    ensures
        crate::model::result_view(out) == listed_body(items.deep_view()),
{
    let ghost all = items.deep_view();
    let mut i: usize = 0;
    while i < items.len()
        invariant
            i <= items@.len(),
            all == items.deep_view(),
            body_items_error(all, 0) == body_items_error(all, i as int),
        decreases items@.len() - i,
    {
        assert(all[i as int] == items@[i as int].model());
        let error = check_body_item(i, &items[i]);
        if let Some(error) = error {
            return Err(error);
        }
        i += 1;
    }
    if items.len() < 4 {
        return Err(wrong_length(items.len(), "struct FinderBody with 7 elements"));
    }
    if items.len() > 7 {
        return Err(wrong_length(items.len(), "fewer elements in array"));
    }
    proof {
        lemma_items_are_checked(all, 0, 2);
        lemma_items_are_checked(all, 0, 3);
        if all.len() > 4 {
            lemma_items_are_checked(all, 0, 4);
        }
        if all.len() > 6 {
            lemma_items_are_checked(all, 0, 6);
        }
    }
    let source = match decode_source(&items[2]) {
        Ok(source) => source,
        Err(error) => return Err(error),
    };
    let outcome = match decode_outcome(&items[3]) {
        Ok(outcome) => outcome,
        Err(error) => return Err(error),
    };
    let preview = if items.len() > 4 {
        match decode_preview(&items[4]) {
            Ok(preview) => Some(preview),
            Err(error) => return Err(error),
        }
    } else {
        None
    };
    let run_on = if items.len() > 6 {
        match decode_run_on(&items[6]) {
            Ok(run_on) => run_on,
            Err(error) => return Err(error),
        }
    } else {
        RunOn::default()
    };
    Ok(
        FinderBody {
            label: text_at(items, 0),
            placeholder: text_at(items, 1),
            source,
            outcome,
            preview,
            delimiter: text_at(items, 5),
            run_on,
        },
    )
}

/// Reads a Finder out of its table, or out of a list of its values.
pub fn decode_body(value: &TomlValue) -> (out: Result<FinderBody, DecodeError>)
    ensures
        crate::model::result_view(out) == decoded_body(value.model()),
{
    proof {
        crate::decode::lemma_contents(*value);
    }
    match value {
        TomlValue::Table(pairs) => {
            if let Some(error) = check_body(pairs) {
                return Err(error);
            }
            let ghost all = pairs.deep_view();
            proof {
                lemma_body_keys_differ();
                lemma_body_field_is_checked(all, "source"@);
                lemma_body_field_is_checked(all, "outcome"@);
                lemma_body_field_is_checked(all, "preview"@);
                lemma_body_field_is_checked(all, "run_on"@);
            }
            let source = match find(pairs, "source") {
                Some(value) => match decode_source(value) {
                    Ok(source) => source,
                    Err(error) => return Err(error.under("source")),
                },
                None => return Err(missing_key("source")),
            };
            let outcome = match find(pairs, "outcome") {
                Some(value) => match decode_outcome(value) {
                    Ok(outcome) => outcome,
                    Err(error) => return Err(error.under("outcome")),
                },
                None => return Err(missing_key("outcome")),
            };
            let preview = match find(pairs, "preview") {
                Some(value) => match decode_preview(value) {
                    Ok(preview) => Some(preview),
                    Err(error) => return Err(error.under("preview")),
                },
                None => None,
            };
            let run_on = match find(pairs, "run_on") {
                Some(value) => match decode_run_on(value) {
                    Ok(run_on) => run_on,
                    Err(error) => return Err(error.under("run_on")),
                },
                None => RunOn::default(),
            };
            Ok(
                FinderBody {
                    label: crate::decode::find_text(pairs, "label"),
                    placeholder: crate::decode::find_text(pairs, "placeholder"),
                    source,
                    outcome,
                    preview,
                    delimiter: crate::decode::find_text(pairs, "delimiter"),
                    run_on,
                },
            )
        },
        TomlValue::Array(items) => decode_listed_body(items),
        _ => Err(wrong_type(value, "struct FinderBody")),
    }
}

/// What is said of a `query` Source that ignores the Query.
pub const QUERY_IGNORED: &'static str =
    "a `query` source must put `{query}` in its args, or the typed query would be ignored";

impl FinderBodyView {
    /// The label that is shown: the table's key where none is given.
    pub open spec fn shown_label(self, name: Seq<char>) -> Seq<char> {
        match self.label {
            Some(label) => label,
            None => name,
        }
    }

    /// The Finder that the table stands for.
    pub open spec fn config(self, name: Seq<char>) -> crate::config::FinderConfigView {
        crate::config::FinderConfigView {
            name,
            label: self.shown_label(name),
            placeholder: match self.placeholder {
                Some(placeholder) => placeholder,
                None => "Search "@ + self.shown_label(name) + "…"@,
            },
            source: self.source,
            outcome: self.outcome,
            preview: self.preview,
            delimiter: self.delimiter,
            run_on: self.run_on,
        }
    }

    /// The Finder, unless its Source would ignore the Query.
    pub open spec fn checked_config(self, name: Seq<char>) -> Result<
        crate::config::FinderConfigView,
        Seq<char>,
    > {
        if self.source is Query && !crate::config::holds_query_placeholder(self.source.args()) {
            Err(QUERY_IGNORED@)
        } else {
            Ok(self.config(name))
        }
    }
}

impl FinderBody {
    /// The Finder, unless its Source would ignore the Query.
    pub fn try_into_config(self, name: &str) -> (out: Result<FinderConfig, String>)
        ensures
            crate::model::result_view(out) == self.deep_view().checked_config(name@),
    {
        if self.source.is_query_driven() && !has_query_placeholder(self.source.args()) {
            return Err(QUERY_IGNORED.to_owned());
        }
        Ok(self.into_config(name))
    }

    /// The Finder that the table stands for.
    pub fn into_config(self, name: &str) -> (config: FinderConfig)
        ensures
            config.deep_view() == self.deep_view().config(name@),
    {
        let label = match self.label {
            Some(label) => label,
            None => name.to_owned(),
        };
        let placeholder = match self.placeholder {
            Some(placeholder) => placeholder,
            None => {
                let mut text = "Search ".to_owned();
                text.append(label.as_str());
                text.append("…");
                text
            },
        };
        FinderConfig {
            name: name.to_owned(),
            label,
            placeholder,
            source: self.source,
            outcome: self.outcome,
            preview: self.preview,
            delimiter: self.delimiter,
            run_on: self.run_on,
        }
    }
}

/// The Finder that a name and its table stand for, or why it could not be
/// loaded.
pub open spec fn loaded_finder(name: Seq<char>, value: crate::document::TomlView) -> Result<
    crate::config::FinderConfigView,
    Seq<char>,
> {
    match decoded_body(value) {
        Ok(body) => body.checked_config(name),
        Err(error) => Err(error.text()),
    }
}

/// Loads one Finder.
pub fn load_finder(name: &str, value: &TomlValue) -> (out: Result<FinderConfig, String>)
    ensures
        crate::model::result_view(out) == loaded_finder(name@, value.model()),
{
    match decode_body(value) {
        Ok(body) => body.try_into_config(name),
        Err(error) => Err(error.to_string()),
    }
}

/// Failed Finders stay addressable so opening them can report why.
#[derive(Debug)]
pub struct ParsedConfig {
    pub finders: NameMap<Arc<FinderConfig>>,
    pub errors: NameMap<String>,
}

/// What a [`ParsedConfig`] is.
#[verifier::ext_equal]
pub struct ParsedConfigView {
    pub finders: Map<Seq<char>, crate::config::FinderConfigView>,
    pub errors: Map<Seq<char>, Seq<char>>,
}

impl View for ParsedConfig {
    type V = ParsedConfigView;

    open spec fn view(&self) -> ParsedConfigView {
        ParsedConfigView { finders: self.finders@, errors: self.errors@ }
    }
}

impl ParsedConfig {
    /// The names of both maps ascend.
    pub open spec fn wf(&self) -> bool {
        self.finders.wf() && self.errors.wf()
    }
}

impl Default for ParsedConfig {
    fn default() -> (parsed: ParsedConfig)
        ensures
            parsed.wf(),
            parsed@ == (ParsedConfigView { finders: Map::empty(), errors: Map::empty() }),
    {
        ParsedConfig { finders: NameMap::new(), errors: NameMap::new() }
    }
}

/// Whether the name is that of a Finder that could be loaded.
pub open spec fn is_loaded(
    pairs: Seq<(Seq<char>, crate::document::TomlView)>,
    name: Seq<char>,
) -> bool {
    crate::decode::field(pairs, name) matches Some(value) && loaded_finder(name, value) is Ok
}

/// Whether the name is that of a Finder that could not be loaded.
pub open spec fn is_broken(
    pairs: Seq<(Seq<char>, crate::document::TomlView)>,
    name: Seq<char>,
) -> bool {
    crate::decode::field(pairs, name) matches Some(value) && loaded_finder(name, value) is Err
}

/// The Finders that a table defines, each under its name, and why the others
/// could not be loaded, each under its name.
pub open spec fn loaded_finders(
    pairs: Seq<(Seq<char>, crate::document::TomlView)>,
) -> ParsedConfigView {
    ParsedConfigView {
        finders: Map::new(
            |name: Seq<char>| is_loaded(pairs, name),
            |name: Seq<char>|
                loaded_finder(name, crate::decode::field(pairs, name)->0)->Ok_0,
        ),
        errors: Map::new(
            |name: Seq<char>| is_broken(pairs, name),
            |name: Seq<char>|
                loaded_finder(name, crate::decode::field(pairs, name)->0)->Err_0,
        ),
    }
}

/// The first key of the file, as it is written, that does not belong there.
pub open spec fn first_unknown(keys: Seq<crate::document::TopKeyView>) -> Option<
    crate::document::TopKeyView,
>
    decreases keys.len(),
{
    if keys.len() == 0 {
        None
    } else if keys.last().key == "finder"@ {
        first_unknown(keys.drop_last())
    } else {
        match first_unknown(keys.drop_last()) {
            Some(first) => if first.start <= keys.last().start {
                Some(first)
            } else {
                Some(keys.last())
            },
            None => Some(keys.last()),
        }
    }
}

/// The key under which the file holds its Finders.
pub open spec fn finder_key(keys: Seq<crate::document::TopKeyView>) -> Option<
    crate::document::TopKeyView,
>
    decreases keys.len(),
{
    if keys.len() == 0 {
        None
    } else if keys.last().key == "finder"@ {
        Some(keys.last())
    } else {
        finder_key(keys.drop_last())
    }
}

/// What is said of a key that does not belong in the file, with its place.
pub open spec fn unknown_key_text(
    contents: Seq<char>,
    key: crate::document::TopKeyView,
) -> Seq<char> {
    crate::locate::located(
        contents,
        key.start,
        key.end,
        crate::decode::unknown_field(key.key, "expected `finder`"@).message,
    )
}

/// The pairs of the table that holds the Finders.
pub open spec fn finder_pairs(tables: Seq<(Seq<char>, crate::document::TomlView)>) -> Seq<
    (Seq<char>, crate::document::TomlView),
> {
    match crate::decode::field(tables, "finder"@) {
        Some(crate::document::TomlView::Table(pairs)) => pairs,
        _ => Seq::empty(),
    }
}

/// What a document defines, or why it is no configuration at all: what is
/// wrong with the first key, as it is written, with which anything is wrong.
pub open spec fn config_of(
    contents: Seq<char>,
    document: crate::document::TomlDocumentView,
) -> Result<ParsedConfigView, Seq<char>> {
    match (finder_key(document.keys), first_unknown(document.keys)) {
        (None, None) => Ok(loaded_finders(Seq::empty())),
        (Some(_), None) => match document.tables {
            Ok(tables) => Ok(loaded_finders(finder_pairs(tables))),
            Err(error) => Err(error),
        },
        (None, Some(unknown)) => Err(unknown_key_text(contents, unknown)),
        (Some(finder), Some(unknown)) => match document.tables {
            Err(error) => if finder.start < unknown.start && !crate::document::reads_as_table(
                finder.outline,
            ) {
                Err(error)
            } else {
                Err(unknown_key_text(contents, unknown))
            },
            Ok(_) => Err(unknown_key_text(contents, unknown)),
        },
    }
}

fn find_unknown<'a>(keys: &'a Vec<TopKey>) -> (found: Option<&'a TopKey>)
    ensures
        found.deep_view() == first_unknown(keys.deep_view()),
{
    let ghost all = keys.deep_view();
    let mut found: Option<&'a TopKey> = None;
    let mut i: usize = 0;
    assert(all.take(0) =~= Seq::empty());
    while i < keys.len()
        invariant
            i <= keys@.len(),
            all == keys.deep_view(),
            found.deep_view() == first_unknown(all.take(i as int)),
        decreases keys@.len() - i,
    {
        proof {
            assert(all.take(i + 1).drop_last() == all.take(i as int));
            assert(all.take(i + 1).last() == keys@[i as int].deep_view());
        }
        if !same_text(keys[i].key.as_str(), "finder") {
            let later = match found {
                Some(first) => first.start <= keys[i].start,
                None => false,
            };
            if !later {
                found = Some(&keys[i]);
            }
        }
        i += 1;
    }
    assert(all.take(i as int) == all);
    found
}

fn find_finder_key<'a>(keys: &'a Vec<TopKey>) -> (found: Option<&'a TopKey>)
    ensures
        found.deep_view() == finder_key(keys.deep_view()),
{
    let ghost all = keys.deep_view();
    let mut i: usize = keys.len();
    assert(all.take(i as int) =~= all);
    while i > 0
        invariant
            i <= keys@.len(),
            all == keys.deep_view(),
            finder_key(all) == finder_key(all.take(i as int)),
        decreases i,
    {
        proof {
            assert(all.take(i as int).drop_last() == all.take(i - 1));
            assert(all.take(i as int).last() == keys@[i - 1].deep_view());
        }
        i -= 1;
        if same_text(keys[i].key.as_str(), "finder") {
            return Some(&keys[i]);
        }
    }
    None
}

proof fn lemma_field_push(
    pairs: Seq<(Seq<char>, crate::document::TomlView)>,
    pair: (Seq<char>, crate::document::TomlView),
    key: Seq<char>,
)
    ensures
        crate::decode::field(pairs.push(pair), key) == (match crate::decode::field(pairs, key) {
            Some(value) => Some(value),
            None => if pair.0 == key {
                Some(pair.1)
            } else {
                None
            },
        }),
    decreases pairs.len(),
{
    if pairs.len() == 0 {
        assert(pairs.push(pair)[0] == pair);
        assert(crate::decode::field(pairs.push(pair).skip(1), key) is None);
    } else {
        assert(pairs.push(pair)[0] == pairs[0]);
        assert(pairs.push(pair).skip(1) == pairs.skip(1).push(pair));
        lemma_field_push(pairs.skip(1), pair, key);
    }
}

/// What one more pair adds to what was loaded: nothing where its name was met
/// before, else a Finder or the reason why there is none.
proof fn lemma_loaded_push(
    pairs: Seq<(Seq<char>, crate::document::TomlView)>,
    pair: (Seq<char>, crate::document::TomlView),
)
    ensures
        is_loaded(pairs, pair.0) || is_broken(pairs, pair.0) ==> loaded_finders(pairs.push(pair))
            == loaded_finders(pairs),
        !is_loaded(pairs, pair.0) && !is_broken(pairs, pair.0) ==> match loaded_finder(
            pair.0,
            pair.1,
        ) {
            Ok(config) => loaded_finders(pairs.push(pair)) == (ParsedConfigView {
                finders: loaded_finders(pairs).finders.insert(pair.0, config),
                errors: loaded_finders(pairs).errors,
            }),
            Err(error) => loaded_finders(pairs.push(pair)) == (ParsedConfigView {
                finders: loaded_finders(pairs).finders,
                errors: loaded_finders(pairs).errors.insert(pair.0, error),
            }),
        },
{
    let before = loaded_finders(pairs);
    let after = loaded_finders(pairs.push(pair));
    assert forall|name: Seq<char>|
        crate::decode::field(pairs.push(pair), name) == (match #[trigger] crate::decode::field(
            pairs,
            name,
        ) {
            Some(value) => Some(value),
            None => if pair.0 == name {
                Some(pair.1)
            } else {
                None
            },
        }) by {
        lemma_field_push(pairs, pair, name);
    }
    lemma_field_push(pairs, pair, pair.0);
    if is_loaded(pairs, pair.0) || is_broken(pairs, pair.0) {
        assert(after =~= before);
    } else {
        match loaded_finder(pair.0, pair.1) {
            Ok(config) => {
                assert(after.finders =~= before.finders.insert(pair.0, config));
                assert(after.errors =~= before.errors);
            },
            Err(error) => {
                assert(after.finders =~= before.finders);
                assert(after.errors =~= before.errors.insert(pair.0, error));
            },
        }
    }
}

/// Loads every Finder of a table. A name that is met again is passed over.
pub fn load_finders(pairs: &Vec<(String, TomlValue)>) -> (parsed: ParsedConfig)
    ensures
        parsed.wf(),
        parsed@ == loaded_finders(pairs.deep_view()),
{
    let ghost all = pairs.deep_view();
    let mut parsed = ParsedConfig::default();
    let mut i: usize = 0;
    proof {
        assert(all.take(0) == Seq::<(Seq<char>, crate::document::TomlView)>::empty());
        assert(parsed@ =~= loaded_finders(all.take(0)));
    }
    while i < pairs.len()
        invariant
            i <= pairs@.len(),
            all == pairs.deep_view(),
            parsed.wf(),
            parsed@ == loaded_finders(all.take(i as int)),
        decreases pairs@.len() - i,
    {
        let name = pairs[i].0.as_str();
        proof {
            assert(all[i as int] == (name@, pairs@[i as int].1.model()));
            assert(all.take(i + 1) == all.take(i as int).push(all[i as int]));
            lemma_loaded_push(all.take(i as int), all[i as int]);
        }
        if !parsed.finders.contains_key(name) && !parsed.errors.contains_key(name) {
            match load_finder(name, &pairs[i].1) {
                Ok(config) => parsed.finders.insert(name.to_owned(), Arc::new(config)),
                Err(error) => parsed.errors.insert(name.to_owned(), error),
            }
        }
        i += 1;
    }
    assert(all.take(i as int) == all);
    parsed
}

/// What precedes the error of a file that is no configuration at all.
pub const PARSING: &'static str = "parsing finder config: ";

/// What a file defines, from the document it is or from the reason why it is
/// no TOML.
pub open spec fn document_config(
    contents: Seq<char>,
    document: Result<crate::document::TomlDocumentView, Seq<char>>,
) -> Result<ParsedConfigView, Seq<char>> {
    match document {
        Ok(document) => match config_of(contents, document) {
            Ok(config) => Ok(config),
            Err(error) => Err(PARSING@ + error),
        },
        Err(error) => Err(PARSING@ + error),
    }
}

/// What a parsed file says.
pub open spec fn parsed_view(parsed: Result<ParsedConfig, String>) -> Result<
    ParsedConfigView,
    Seq<char>,
> {
    match parsed {
        Ok(parsed) => Ok(parsed@),
        Err(error) => Err(error@),
    }
}

fn parsing_error(error: &str) -> (text: String)
    ensures
        text@ == PARSING@ + error@,
{
    let mut text = PARSING.to_owned();
    text.append(error);
    text
}

/// What a file says that holds a key that does not belong there.
fn unknown_key_error(contents: &str, key: &TopKey) -> (text: String)
    ensures
        text@ == PARSING@ + unknown_key_text(contents@, key.deep_view()),
{
    let message = unknown_key(key.key.as_str(), "expected `finder`").message;
    parsing_error(locate(contents, key.start, key.end, message.as_str()).as_str())
}

/// Reads a configuration out of a document that was parsed, and the contents
/// that it was parsed from.
pub fn read_document(contents: &str, document: Result<TomlDocument, String>) -> (parsed: Result<
    ParsedConfig,
    String,
>)
    ensures
        parsed_view(parsed) == document_config(contents@, crate::model::result_view(document)),
        parsed matches Ok(config) ==> config.wf(),
{
    let document = match document {
        Ok(document) => document,
        Err(error) => return Err(parsing_error(error.as_str())),
    };
    let finder = find_finder_key(&document.keys);
    if let Some(unknown) = find_unknown(&document.keys) {
        if let (Some(finder), Err(error)) = (finder, &document.tables) {
            if finder.start < unknown.start && !is_table(&finder.outline) {
                return Err(parsing_error(error.as_str()));
            }
        }
        return Err(unknown_key_error(contents, unknown));
    }
    if finder.is_some() {
        match &document.tables {
            Err(error) => return Err(parsing_error(error.as_str())),
            Ok(tables) => {
                if let Some(table) = find(tables, "finder") {
                    proof {
                        crate::decode::lemma_contents(*table);
                    }
                    if let TomlValue::Table(pairs) = table {
                        return Ok(load_finders(pairs));
                    }
                }
            },
        }
    }
    let none: Vec<(String, TomlValue)> = Vec::new();
    assert(none.deep_view() =~= Seq::<(Seq<char>, crate::document::TomlView)>::empty());
    Ok(load_finders(&none))
}

/// Parses the configuration file. An error is returned only where the file is
/// no TOML, or holds something else than Finders, so that nothing in it can be
/// trusted; Finders that are malformed land in [`ParsedConfig::errors`].
pub fn parse_config(contents: &str) -> (parsed: Result<ParsedConfig, String>)
    ensures
        parsed_view(parsed) == document_config(
            contents@,
            crate::document::toml_document(contents@),
        ),
        parsed matches Ok(config) ==> config.wf(),
{
    read_document(contents, parse_document(contents))
}

// ---------------------------------------------------------------------------
// Laws
// ---------------------------------------------------------------------------
/// Every name that the file defines is either a Finder or an error, never
/// both, and no other name is either.
pub proof fn law_each_name_once(
    pairs: Seq<(Seq<char>, crate::document::TomlView)>,
    name: Seq<char>,
)
    ensures
        loaded_finders(pairs).finders.dom().contains(name) || loaded_finders(
            pairs,
        ).errors.dom().contains(name) <==> crate::decode::field(pairs, name) is Some,
        !(loaded_finders(pairs).finders.dom().contains(name) && loaded_finders(
            pairs,
        ).errors.dom().contains(name)),
{
}

/// What becomes of a Finder depends on its own table alone: a broken sibling
/// changes nothing for it.
pub proof fn law_siblings_do_not_matter(
    pairs: Seq<(Seq<char>, crate::document::TomlView)>,
    others: Seq<(Seq<char>, crate::document::TomlView)>,
    name: Seq<char>,
)
    requires
        crate::decode::field(pairs, name) == crate::decode::field(others, name),
    ensures
        loaded_finders(pairs).finders.dom().contains(name) == loaded_finders(
            others,
        ).finders.dom().contains(name),
        loaded_finders(pairs).errors.dom().contains(name) == loaded_finders(
            others,
        ).errors.dom().contains(name),
        loaded_finders(pairs).finders.dom().contains(name) ==> loaded_finders(pairs).finders[name]
            == loaded_finders(others).finders[name],
        loaded_finders(pairs).errors.dom().contains(name) ==> loaded_finders(pairs).errors[name]
            == loaded_finders(others).errors[name],
{
}

/// A Finder is loaded under the name it has, and one that is driven by the
/// Query always uses it.
pub proof fn law_loaded_finders_are_usable(
    pairs: Seq<(Seq<char>, crate::document::TomlView)>,
    name: Seq<char>,
)
    requires
        loaded_finders(pairs).finders.dom().contains(name),
    ensures
        loaded_finders(pairs).finders[name].name == name,
        loaded_finders(pairs).finders[name].source is Query
            ==> crate::config::holds_query_placeholder(
            loaded_finders(pairs).finders[name].source.args(),
        ),
{
}

/// A Finder is not loaded where anything is wrong with any of its keys, be it
/// that the key does not belong there.
pub proof fn law_wrong_key_is_refused(
    pairs: Seq<(Seq<char>, crate::document::TomlView)>,
    i: int,
)
    requires
        0 <= i < pairs.len(),
        body_pair_error(pairs[i]) is Some,
    ensures
        decoded_body(crate::document::TomlView::Table(pairs)) is Err,
{
    lemma_body_error_found(pairs, i);
}

proof fn lemma_body_error_found(pairs: Seq<(Seq<char>, crate::document::TomlView)>, i: int)
    requires
        0 <= i < pairs.len(),
        body_pair_error(pairs[i]) is Some,
    ensures
        body_error(pairs) is Some,
    decreases pairs.len(),
{
    if body_pair_error(pairs[0]) is None {
        assert(pairs.skip(1)[i - 1] == pairs[i]);
        lemma_body_error_found(pairs.skip(1), i - 1);
    }
}

/// A Finder without a label is called by its name, one without a placeholder
/// asks for what its label says, and one without a policy follows the project.
pub proof fn law_defaults(
    pairs: Seq<(Seq<char>, crate::document::TomlView)>,
    name: Seq<char>,
)
    requires
        loaded_finder(name, crate::document::TomlView::Table(pairs)) is Ok,
    ensures
        ({
            let config = loaded_finder(name, crate::document::TomlView::Table(pairs))->Ok_0;
            &&& config.name == name
            &&& crate::decode::field(pairs, "label"@) is None ==> config.label == name
            &&& crate::decode::field(pairs, "placeholder"@) is None ==> config.placeholder
                == "Search "@ + config.label + "…"@
            &&& crate::decode::field(pairs, "run_on"@) is None ==> config.run_on == RunOn::Auto
            &&& crate::decode::field(pairs, "preview"@) is None ==> config.preview is None
            &&& crate::decode::field(pairs, "delimiter"@) is None ==> config.delimiter is None
        }),
{
}

/// A file without keys defines no Finders, and is no error.
pub proof fn law_empty_file_has_no_finders(
    contents: Seq<char>,
    document: crate::document::TomlDocumentView,
    name: Seq<char>,
)
    requires
        document.keys.len() == 0,
    ensures
        config_of(contents, document) == Ok::<ParsedConfigView, Seq<char>>(
            loaded_finders(Seq::empty()),
        ),
        !loaded_finders(Seq::empty()).finders.dom().contains(name),
        !loaded_finders(Seq::empty()).errors.dom().contains(name),
{
}

/// A file with a key beside `finder` at its top is no configuration at all.
pub proof fn law_other_keys_are_refused(
    contents: Seq<char>,
    document: crate::document::TomlDocumentView,
    i: int,
)
    requires
        0 <= i < document.keys.len(),
        document.keys[i].key != "finder"@,
    ensures
        config_of(contents, document) is Err,
{
    lemma_unknown_is_first(document.keys, i);
}

/// Of the keys that do not belong in a file, the one that is reported stands
/// before all others.
pub proof fn law_first_unknown_is_reported(keys: Seq<crate::document::TopKeyView>, i: int)
    requires
        0 <= i < keys.len(),
        keys[i].key != "finder"@,
    ensures
        first_unknown(keys) matches Some(first) && keys.contains(first) && first.key != "finder"@
            && first.start <= keys[i].start,
{
    lemma_unknown_is_first(keys, i);
}

proof fn lemma_unknown_is_first(keys: Seq<crate::document::TopKeyView>, i: int)
    requires
        0 <= i < keys.len(),
        keys[i].key != "finder"@,
    ensures
        first_unknown(keys) matches Some(first) && keys.contains(first) && first.key != "finder"@
            && first.start <= keys[i].start,
    decreases keys.len(),
{
    let init = keys.drop_last();
    assert(keys.contains(keys.last()));
    if i < keys.len() - 1 {
        assert(init[i] == keys[i]);
        lemma_unknown_is_first(init, i);
        let first = first_unknown(init)->0;
        let j = choose|j: int| 0 <= j < init.len() && init[j] == first;
        assert(keys[j] == first);
    } else if first_unknown(init) is Some {
        lemma_first_unknown_occurs(init);
        let first = first_unknown(init)->0;
        let j = choose|j: int| 0 <= j < init.len() && init[j] == first;
        assert(keys[j] == first);
    }
}

proof fn lemma_first_unknown_occurs(keys: Seq<crate::document::TopKeyView>)
    requires
        first_unknown(keys) is Some,
    ensures
        first_unknown(keys) matches Some(first) && keys.contains(first) && first.key != "finder"@,
    decreases keys.len(),
{
    let init = keys.drop_last();
    assert(keys.contains(keys.last()));
    if first_unknown(init) is Some {
        lemma_first_unknown_occurs(init);
        let first = first_unknown(init)->0;
        let j = choose|j: int| 0 <= j < init.len() && init[j] == first;
        assert(keys[j] == first);
    }
}

/// What is written in the table of a Finder reaches the Finder as it is written,
/// whatever else is in it: its label, its placeholder and its delimiter, its
/// Source and its Outcome, its Preview and its policy. What is not written is
/// told by the name, or not there.
pub proof fn law_what_is_written_reaches_the_finder(
    pairs: Seq<(Seq<char>, crate::document::TomlView)>,
    name: Seq<char>,
    config: crate::config::FinderConfigView,
)
    requires
        loaded_finder(name, crate::document::TomlView::Table(pairs)) == Ok::<
            crate::config::FinderConfigView,
            Seq<char>,
        >(config),
    ensures
        config.name == name,
        match crate::decode::field(pairs, "label"@) {
            Some(written) => crate::decode::text_of(written) == Some(config.label),
            None => config.label == name,
        },
        match crate::decode::field(pairs, "placeholder"@) {
            Some(written) => crate::decode::text_of(written) == Some(config.placeholder),
            None => config.placeholder == "Search "@ + config.label + "…"@,
        },
        match crate::decode::field(pairs, "delimiter"@) {
            Some(written) => config.delimiter is Some && crate::decode::text_of(written)
                == config.delimiter,
            None => config.delimiter is None,
        },
        crate::decode::field(pairs, "source"@) matches Some(written)
            && crate::decode::decoded_source(written) == Ok::<
            crate::config::SourceView,
            crate::decode::DecodeErrorView,
        >(config.source),
        crate::decode::field(pairs, "outcome"@) matches Some(written)
            && crate::decode::decoded_outcome(written) == Ok::<
            crate::config::OutcomeView,
            crate::decode::DecodeErrorView,
        >(config.outcome),
        match crate::decode::field(pairs, "preview"@) {
            Some(written) => crate::decode::decoded_preview(written) is Ok && config.preview
                == Some(Preview::Path),
            None => config.preview is None,
        },
        match crate::decode::field(pairs, "run_on"@) {
            Some(written) => crate::decode::run_on_name(written) == Some(
                match config.run_on {
                    RunOn::Auto => "auto"@,
                    RunOn::Local => "local"@,
                },
            ),
            None => config.run_on == RunOn::Auto,
        },
{
    lemma_body_keys_differ();
    lemma_body_field_is_checked(pairs, "label"@);
    lemma_body_field_is_checked(pairs, "placeholder"@);
    lemma_body_field_is_checked(pairs, "delimiter"@);
    lemma_body_field_is_checked(pairs, "source"@);
    lemma_body_field_is_checked(pairs, "outcome"@);
    lemma_body_field_is_checked(pairs, "preview"@);
    lemma_body_field_is_checked(pairs, "run_on"@);
    if let Some(written) = crate::decode::field(pairs, "run_on"@) {
        crate::decode::law_run_on_has_two_names(written);
    }
}

/// Whether a pair belongs in the table of a Finder and has a value of its kind.
pub open spec fn is_good_pair(pair: (Seq<char>, crate::document::TomlView)) -> bool {
    ||| pair.0 == "label"@ && crate::decode::text_of(pair.1) is Some
    ||| pair.0 == "placeholder"@ && crate::decode::text_of(pair.1) is Some
    ||| pair.0 == "delimiter"@ && crate::decode::text_of(pair.1) is Some
    ||| pair.0 == "source"@ && crate::decode::decoded_source(pair.1) is Ok
    ||| pair.0 == "outcome"@ && crate::decode::decoded_outcome(pair.1) is Ok
    ||| pair.0 == "preview"@ && crate::decode::decoded_preview(pair.1) is Ok
    ||| pair.0 == "run_on"@ && crate::decode::decoded_run_on(pair.1) is Ok
}

/// A table of good pairs that holds a Source and an Outcome is a Finder, unless
/// its Source is driven by a Query that it does not use.
pub proof fn law_good_finders_are_loaded(
    pairs: Seq<(Seq<char>, crate::document::TomlView)>,
    name: Seq<char>,
    source: crate::config::SourceView,
)
    requires
        forall|i: int| 0 <= i < pairs.len() ==> is_good_pair(#[trigger] pairs[i]),
        crate::decode::field(pairs, "source"@) matches Some(written)
            && crate::decode::decoded_source(written) == Ok::<
            crate::config::SourceView,
            crate::decode::DecodeErrorView,
        >(source),
        crate::decode::field(pairs, "outcome"@) is Some,
    ensures
        ({
            let out = loaded_finder(name, crate::document::TomlView::Table(pairs));
            let unused = source is Query && forall|i: int|
                0 <= i < source.args().len() ==> !crate::text::has_occurrence(
                    #[trigger] source.args()[i],
                    "{query}"@,
                );
            &&& unused ==> out == Err::<crate::config::FinderConfigView, Seq<char>>(
                "a `query` source must put `{query}` in its args, or the typed query would be ignored"@,
            )
            &&& !unused ==> out is Ok
        }),
{
    lemma_body_keys_differ();
    assert forall|i: int| 0 <= i < pairs.len() implies body_pair_error(
        #[trigger] pairs[i],
    ) is None by {
        assert(is_good_pair(pairs[i]));
    }
    lemma_no_body_error(pairs);
}

proof fn lemma_no_body_error(pairs: Seq<(Seq<char>, crate::document::TomlView)>)
    requires
        forall|i: int| 0 <= i < pairs.len() ==> body_pair_error(#[trigger] pairs[i]) is None,
    ensures
        body_error(pairs) is None,
    decreases pairs.len(),
{
    if pairs.len() > 0 {
        let rest = pairs.skip(1);
        assert(body_pair_error(pairs[0]) is None);
        assert forall|i: int| 0 <= i < rest.len() implies body_pair_error(
            #[trigger] rest[i],
        ) is None by {
            assert(rest[i] == pairs[i + 1]);
        }
        lemma_no_body_error(rest);
    }
}

/// The first pair of a Finder's table that is wrong is what is reported of it,
/// under its key where the key belongs there; and where none is wrong, what is
/// missing is.
pub proof fn law_first_wrong_pair_of_a_finder(
    front: Seq<(Seq<char>, crate::document::TomlView)>,
    key: Seq<char>,
    value: crate::document::TomlView,
    rest: Seq<(Seq<char>, crate::document::TomlView)>,
    name: Seq<char>,
)
    requires
        forall|i: int| 0 <= i < front.len() ==> is_good_pair(#[trigger] front[i]),
        !is_good_pair((key, value)),
    ensures
        ({
            let out = loaded_finder(
                name,
                crate::document::TomlView::Table(front + seq![(key, value)] + rest),
            );
            &&& out is Err
            &&& key == "label"@ || key == "placeholder"@ || key == "delimiter"@ ==> out->Err_0
                == crate::decode::invalid_type(value, "a string"@).under(key).text()
            &&& key == "source"@ ==> out->Err_0 == crate::decode::decoded_source(
                value,
            )->Err_0.under(key).text()
            &&& key == "outcome"@ ==> out->Err_0 == crate::decode::decoded_outcome(
                value,
            )->Err_0.under(key).text()
            &&& key == "preview"@ ==> out->Err_0 == crate::decode::decoded_preview(
                value,
            )->Err_0.under(key).text()
            &&& key == "run_on"@ ==> out->Err_0 == crate::decode::decoded_run_on(
                value,
            )->Err_0.under(key).text()
            &&& key != "label"@ && key != "placeholder"@ && key != "delimiter"@ && key != "source"@
                && key != "outcome"@ && key != "preview"@ && key != "run_on"@ ==> out->Err_0
                == crate::decode::unknown_field(
                key,
                "expected one of `label`, `placeholder`, `source`, `outcome`, `preview`, `delimiter`, `run_on`"@,
            ).text()
        }),
{
    lemma_body_keys_differ();
    assert forall|i: int| 0 <= i < front.len() implies body_pair_error(
        #[trigger] front[i],
    ) is None by {
        assert(is_good_pair(front[i]));
    }
    lemma_first_body_error(front, (key, value), rest);
}

proof fn lemma_first_body_error(
    front: Seq<(Seq<char>, crate::document::TomlView)>,
    pair: (Seq<char>, crate::document::TomlView),
    rest: Seq<(Seq<char>, crate::document::TomlView)>,
)
    requires
        forall|i: int| 0 <= i < front.len() ==> body_pair_error(#[trigger] front[i]) is None,
        body_pair_error(pair) is Some,
    ensures
        body_error(front + seq![pair] + rest) == body_pair_error(pair),
    decreases front.len(),
{
    let all = front + seq![pair] + rest;
    if front.len() == 0 {
        assert(all[0] == pair);
    } else {
        assert(all[0] == front[0]);
        assert(body_pair_error(front[0]) is None);
        let tail = front.skip(1);
        assert(all.skip(1) == tail + seq![pair] + rest);
        assert forall|i: int| 0 <= i < tail.len() implies body_pair_error(
            #[trigger] tail[i],
        ) is None by {
            assert(tail[i] == front[i + 1]);
        }
        lemma_first_body_error(tail, pair, rest);
    }
}

/// A Finder of good pairs that lacks its Source or its Outcome is reported to
/// lack it, the Source first; what is neither a table nor a list is no Finder.
pub proof fn law_what_a_finder_needs(
    pairs: Seq<(Seq<char>, crate::document::TomlView)>,
    value: crate::document::TomlView,
    name: Seq<char>,
)
    requires
        forall|i: int| 0 <= i < pairs.len() ==> is_good_pair(#[trigger] pairs[i]),
    ensures
        ({
            let out = loaded_finder(name, crate::document::TomlView::Table(pairs));
            &&& crate::decode::field(pairs, "source"@) is None ==> out == Err::<
                crate::config::FinderConfigView,
                Seq<char>,
            >(crate::decode::missing_field("source"@).text())
            &&& crate::decode::field(pairs, "source"@) is Some && crate::decode::field(
                pairs,
                "outcome"@,
            ) is None ==> out == Err::<crate::config::FinderConfigView, Seq<char>>(
                crate::decode::missing_field("outcome"@).text(),
            )
        }),
        !(value is Table) && !(value is Array) ==> loaded_finder(name, value) == Err::<
            crate::config::FinderConfigView,
            Seq<char>,
        >(crate::decode::invalid_type(value, "struct FinderBody"@).text()),
{
    lemma_body_keys_differ();
    assert forall|i: int| 0 <= i < pairs.len() implies body_pair_error(
        #[trigger] pairs[i],
    ) is None by {
        assert(is_good_pair(pairs[i]));
    }
    lemma_no_body_error(pairs);
}

/// A list of values stands for the Finder that has them: label, placeholder,
/// Source, Outcome, and then as many of Preview, delimiter and policy as there
/// are.
pub proof fn law_listed_finder_is_as_written(
    items: Seq<crate::document::TomlView>,
    name: Seq<char>,
    config: crate::config::FinderConfigView,
)
    requires
        loaded_finder(name, crate::document::TomlView::Array(items)) == Ok::<
            crate::config::FinderConfigView,
            Seq<char>,
        >(config),
    ensures
        4 <= items.len() <= 7,
        config.name == name,
        crate::decode::text_of(items[0]) == Some(config.label),
        crate::decode::text_of(items[1]) == Some(config.placeholder),
        crate::decode::decoded_source(items[2]) == Ok::<
            crate::config::SourceView,
            crate::decode::DecodeErrorView,
        >(config.source),
        crate::decode::decoded_outcome(items[3]) == Ok::<
            crate::config::OutcomeView,
            crate::decode::DecodeErrorView,
        >(config.outcome),
        items.len() > 4 ==> crate::decode::decoded_preview(items[4]) is Ok && config.preview
            == Some(Preview::Path),
        items.len() <= 4 ==> config.preview is None,
        items.len() > 5 ==> config.delimiter is Some && crate::decode::text_of(items[5])
            == config.delimiter,
        items.len() <= 5 ==> config.delimiter is None,
        items.len() > 6 ==> crate::decode::decoded_run_on(items[6]) == Ok::<
            RunOn,
            crate::decode::DecodeErrorView,
        >(config.run_on),
        items.len() <= 6 ==> config.run_on == RunOn::Auto,
{
    lemma_items_are_checked(items, 0, 0);
    lemma_items_are_checked(items, 0, 1);
    lemma_items_are_checked(items, 0, 2);
    lemma_items_are_checked(items, 0, 3);
    if items.len() > 4 {
        lemma_items_are_checked(items, 0, 4);
    }
    if items.len() > 5 {
        lemma_items_are_checked(items, 0, 5);
    }
    if items.len() > 6 {
        lemma_items_are_checked(items, 0, 6);
    }
}

/// Each Finder of the file is loaded from its own table, under its own name, and
/// each that cannot be is reported with its own error, under its own name.
pub proof fn law_finders_are_loaded_by_name(
    pairs: Seq<(Seq<char>, crate::document::TomlView)>,
    name: Seq<char>,
)
    ensures
        match crate::decode::field(pairs, name) {
            Some(value) => match loaded_finder(name, value) {
                Ok(config) => loaded_finders(pairs).finders.dom().contains(name) && loaded_finders(
                    pairs,
                ).finders[name] == config && !loaded_finders(pairs).errors.dom().contains(name),
                Err(error) => loaded_finders(pairs).errors.dom().contains(name) && loaded_finders(
                    pairs,
                ).errors[name] == error && !loaded_finders(pairs).finders.dom().contains(name),
            },
            None => !loaded_finders(pairs).finders.dom().contains(name) && !loaded_finders(
                pairs,
            ).errors.dom().contains(name),
        },
{
}

/// A file that holds Finders and nothing else, and reads as tables, defines the
/// Finders of that table; an error of the file is told as one of parsing it.
pub proof fn law_a_file_defines_its_finders(
    contents: Seq<char>,
    key: crate::document::TopKeyView,
    pairs: Seq<(Seq<char>, crate::document::TomlView)>,
    error: Seq<char>,
)
    requires
        key.key == "finder"@,
    ensures
        document_config(
            contents,
            Ok(
                crate::document::TomlDocumentView {
                    keys: seq![key],
                    tables: Ok(seq![("finder"@, crate::document::TomlView::Table(pairs))]),
                },
            ),
        ) == Ok::<ParsedConfigView, Seq<char>>(loaded_finders(pairs)),
        document_config(
            contents,
            Ok(crate::document::TomlDocumentView { keys: seq![key], tables: Err(error) }),
        ) == Err::<ParsedConfigView, Seq<char>>("parsing finder config: "@ + error),
        document_config(contents, Err(error)) == Err::<ParsedConfigView, Seq<char>>(
            "parsing finder config: "@ + error,
        ),
{
    let keys = seq![key];
    assert(keys.last() == key);
    assert(first_unknown(keys.drop_last()) is None);
    let tables = seq![("finder"@, crate::document::TomlView::Table(pairs))];
    assert(tables[0].0 == "finder"@);
}

/// A file with a key that does not belong there is reported at the first such
/// key, unless what it holds as its Finders comes before that and cannot be read.
pub proof fn law_a_wrong_file_is_reported_where_it_is_wrong(
    contents: Seq<char>,
    document: crate::document::TomlDocumentView,
    unknown: crate::document::TopKeyView,
)
    requires
        first_unknown(document.keys) == Some(unknown),
    ensures
        ({
            let out = config_of(contents, document);
            let message = "unknown field `"@ + unknown.key + "`, "@ + "expected `finder`"@;
            let located = crate::locate::located(contents, unknown.start, unknown.end, message);
            &&& finder_key(document.keys) is None ==> out == Err::<ParsedConfigView, Seq<char>>(
                located,
            )
            &&& finder_key(document.keys) matches Some(finder) ==> (finder.start > unknown.start
                || crate::document::reads_as_table(finder.outline) ==> out == Err::<
                ParsedConfigView,
                Seq<char>,
            >(located))
            &&& finder_key(document.keys) matches Some(finder) ==> (finder.start < unknown.start
                && !crate::document::reads_as_table(finder.outline) && document.tables is Err
                ==> out == Err::<ParsedConfigView, Seq<char>>(document.tables->Err_0))
        }),
{
}

/// The key of the Finders is the one of that name, wherever it stands.
pub proof fn law_finder_key_is_found(keys: Seq<crate::document::TopKeyView>, i: int)
    requires
        0 <= i < keys.len(),
        keys[i].key == "finder"@,
    ensures
        finder_key(keys) matches Some(found) && found.key == "finder"@ && keys.contains(found),
    decreases keys.len(),
{
    assert(keys.contains(keys.last()));
    if keys.last().key != "finder"@ {
        let init = keys.drop_last();
        assert(init[i] == keys[i]);
        law_finder_key_is_found(init, i);
        let found = finder_key(init)->0;
        let j = choose|j: int| 0 <= j < init.len() && init[j] == found;
        assert(keys[j] == found);
    }
}

/// A list that stands for no Finder is refused for its first wrong item, else
/// for its length.
pub proof fn law_first_wrong_item_of_a_finder(
    items: Seq<crate::document::TomlView>,
    name: Seq<char>,
)
    ensures
        ({
            let out = loaded_finder(name, crate::document::TomlView::Array(items));
            let text = |i: int| crate::decode::text_of(items[i]) is Some;
            &&& items.len() == 0 ==> out == Err::<crate::config::FinderConfigView, Seq<char>>(
                crate::decode::invalid_length(0, "struct FinderBody with 7 elements"@).text(),
            )
            &&& items.len() > 0 && !text(0) ==> out == Err::<
                crate::config::FinderConfigView,
                Seq<char>,
            >(crate::decode::invalid_type(items[0], "a string"@).text())
            &&& items.len() == 1 && text(0) ==> out == Err::<
                crate::config::FinderConfigView,
                Seq<char>,
            >(crate::decode::invalid_length(1, "struct FinderBody with 7 elements"@).text())
            &&& items.len() > 1 && text(0) && !text(1) ==> out == Err::<
                crate::config::FinderConfigView,
                Seq<char>,
            >(crate::decode::invalid_type(items[1], "a string"@).text())
            &&& items.len() == 2 && text(0) && text(1) ==> out == Err::<
                crate::config::FinderConfigView,
                Seq<char>,
            >(crate::decode::invalid_length(2, "struct FinderBody with 7 elements"@).text())
            &&& items.len() > 2 && text(0) && text(1) && crate::decode::decoded_source(items[2])
                is Err ==> out == Err::<crate::config::FinderConfigView, Seq<char>>(
                crate::decode::decoded_source(items[2])->Err_0.text(),
            )
            &&& items.len() > 7 ==> out is Err
            &&& items.len() < 4 ==> out is Err
        }),
{
    reveal_with_fuel(body_items_error, 4);
}

} // verus!
