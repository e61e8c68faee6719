//! TOML documents as trees of plain values.
use std::collections::BTreeMap;

use vstd::prelude::*;

use crate::text::same_text;

verus! {

/// A TOML value.
#[derive(Debug, PartialEq)]
pub enum TomlValue {
    Text(String),
    Integer(i64),
    /// The bits of a double, and its shortest decimal numeral.
    Float { bits: u64, text: String },
    Boolean(bool),
    /// A date or a time, as it is written.
    Datetime(String),
    Array(Vec<TomlValue>),
    /// The pairs of a table, in the order in which they are visited.
    Table(Vec<(String, TomlValue)>),
}

/// What a [`TomlValue`] is.
pub enum TomlView {
    Text(Seq<char>),
    Integer(i64),
    Float { bits: u64, text: Seq<char> },
    Boolean(bool),
    Datetime(Seq<char>),
    Array(Seq<TomlView>),
    Table(Seq<(Seq<char>, TomlView)>),
}

impl TomlValue {
    /// What the value is.
    pub open spec fn model(self) -> TomlView
        decreases self,
    {
        match self {
            TomlValue::Text(s) => TomlView::Text(s@),
            TomlValue::Integer(n) => TomlView::Integer(n),
            TomlValue::Float { bits, text } => TomlView::Float { bits, text: text@ },
            TomlValue::Boolean(b) => TomlView::Boolean(b),
            TomlValue::Datetime(s) => TomlView::Datetime(s@),
            TomlValue::Array(items) => TomlView::Array(
                Seq::new(
                    items@.len(),
                    |i: int|
                        if 0 <= i < items@.len() {
                            items@[i].model()
                        } else {
                            arbitrary()
                        },
                ),
            ),
            TomlValue::Table(pairs) => TomlView::Table(
                Seq::new(
                    pairs@.len(),
                    |i: int|
                        if 0 <= i < pairs@.len() {
                            (pairs@[i].0@, pairs@[i].1.model())
                        } else {
                            arbitrary()
                        },
                ),
            ),
        }
    }
}

impl DeepView for TomlValue {
    type V = TomlView;

    open spec fn deep_view(&self) -> TomlView {
        self.model()
    }
}

/// The value that `toml` parses a document into.
#[verifier::external_type_specification]
#[verifier::external_body]
pub struct ExTomlValue(toml::Value);

/// A `serde_json::Value`, as which a document can be outlined whatever it holds.
#[verifier::external_type_specification]
#[verifier::external_body]
pub struct ExJsonValue(serde_json::Value);

/// What a TOML value looks like to whoever visits it. A date or a time looks
/// like a table with one pair, and a table that looks like that is read as one.
#[derive(Debug, PartialEq)]
pub enum Outline {
    /// Neither text nor made of other values.
    Scalar,
    Text(String),
    List(Vec<Outline>),
    /// The pairs of a table, in the order in which they are written.
    Table(Vec<(String, Outline)>),
}

/// What an [`Outline`] is.
pub enum OutlineView {
    Scalar,
    Text(Seq<char>),
    List(Seq<OutlineView>),
    Table(Seq<(Seq<char>, OutlineView)>),
}

impl Outline {
    /// What the outline is.
    pub open spec fn model(self) -> OutlineView
        decreases self,
    {
        match self {
            Outline::Scalar => OutlineView::Scalar,
            Outline::Text(s) => OutlineView::Text(s@),
            Outline::List(items) => OutlineView::List(
                Seq::new(
                    items@.len(),
                    |i: int|
                        if 0 <= i < items@.len() {
                            items@[i].model()
                        } else {
                            arbitrary()
                        },
                ),
            ),
            Outline::Table(pairs) => OutlineView::Table(
                Seq::new(
                    pairs@.len(),
                    |i: int|
                        if 0 <= i < pairs@.len() {
                            (pairs@[i].0@, pairs@[i].1.model())
                        } else {
                            arbitrary()
                        },
                ),
            ),
        }
    }
}

impl DeepView for Outline {
    type V = OutlineView;

    open spec fn deep_view(&self) -> OutlineView {
        self.model()
    }
}

/// The key that a table begins with which is read as a date or a time.
pub const DATETIME_KEY: &'static str = "$__toml_private_datetime";

/// Whether `toml` reads a text as a date or a time.
pub uninterp spec fn toml_date(text: Seq<char>) -> bool;

/// The `FromStr` of `toml::value::Datetime`. The contract claims that whether it
/// succeeds is a function of the text.
#[verifier::external_body]
fn is_date(text: &str) -> (date: bool)
    ensures
        date == toml_date(text@),
{
    text.parse::<toml::value::Datetime>().is_ok()
}

/// Whether something in a value begins as a date or a time does and is none, so
/// that the value cannot be read.
pub open spec fn holds_bad_date(outline: OutlineView) -> bool
    decreases outline,
{
    match outline {
        OutlineView::Table(pairs) => if pairs.len() > 0 && pairs[0].0 == DATETIME_KEY@ {
            !(pairs[0].1 matches OutlineView::Text(text) && toml_date(text))
        } else {
            exists|i: int| 0 <= i < pairs.len() && holds_bad_date((#[trigger] pairs[i]).1)
        },
        OutlineView::List(items) => exists|i: int|
            0 <= i < items.len() && holds_bad_date(#[trigger] items[i]),
        _ => false,
    }
}

fn find_bad_date(outline: &Outline) -> (bad: bool)
    ensures
        bad == holds_bad_date(outline.model()),
    decreases outline,
{
    match outline {
        Outline::Table(pairs) => {
            let ghost all = outline.model()->Table_0;
            if pairs.len() > 0 && same_text(pairs[0].0.as_str(), DATETIME_KEY) {
                assert(all[0] == (pairs@[0].0@, pairs@[0].1.model()));
                return match &pairs[0].1 {
                    Outline::Text(text) => !is_date(text.as_str()),
                    _ => true,
                };
            }
            let mut i: usize = 0;
            while i < pairs.len()
                invariant
                    outline matches Outline::Table(v) && v == pairs,
                    all == outline.model()->Table_0,
                    i <= pairs@.len(),
                    !(pairs@.len() > 0 && pairs@[0].0@ == DATETIME_KEY@),
                    forall|j: int| 0 <= j < i ==> !holds_bad_date((#[trigger] all[j]).1),
                decreases pairs@.len() - i,
            {
                assert(all[i as int] == (pairs@[i as int].0@, pairs@[i as int].1.model()));
                if find_bad_date(&pairs[i].1) {
                    return true;
                }
                i += 1;
            }
            false
        },
        Outline::List(items) => {
            let ghost all = outline.model()->List_0;
            let mut i: usize = 0;
            while i < items.len()
                invariant
                    outline matches Outline::List(v) && v == items,
                    all == outline.model()->List_0,
                    i <= items@.len(),
                    forall|j: int| 0 <= j < i ==> !holds_bad_date(#[trigger] all[j]),
                decreases items@.len() - i,
            {
                assert(all[i as int] == items@[i as int].model());
                if find_bad_date(&items[i]) {
                    return true;
                }
                i += 1;
            }
            false
        },
        _ => false,
    }
}

/// Whether a value can be read as a table.
pub open spec fn reads_as_table(outline: OutlineView) -> bool {
    outline matches OutlineView::Table(pairs) && forall|i: int|
        0 <= i < pairs.len() ==> !holds_bad_date((#[trigger] pairs[i]).1)
}

/// Whether a value can be read as a table.
pub fn is_table(outline: &Outline) -> (table: bool)
    ensures
        table == reads_as_table(outline.model()),
{
    match outline {
        Outline::Table(pairs) => {
            let ghost all = outline.model()->Table_0;
            let mut i: usize = 0;
            while i < pairs.len()
                invariant
                    outline matches Outline::Table(v) && v == pairs,
                    all == outline.model()->Table_0,
                    i <= pairs@.len(),
                    forall|j: int| 0 <= j < i ==> !holds_bad_date((#[trigger] all[j]).1),
                decreases pairs@.len() - i,
            {
                assert(all[i as int] == (pairs@[i as int].0@, pairs@[i as int].1.model()));
                if find_bad_date(&pairs[i].1) {
                    return false;
                }
                i += 1;
            }
            true
        },
        _ => false,
    }
}

/// One key at the top of a document: its first byte, the byte after its last,
/// and what its value looks like.
#[derive(Debug, PartialEq)]
pub struct TopKey {
    pub key: String,
    pub start: usize,
    pub end: usize,
    pub outline: Outline,
}

/// What a [`TopKey`] is.
pub struct TopKeyView {
    pub key: Seq<char>,
    pub start: nat,
    pub end: nat,
    pub outline: OutlineView,
}

impl DeepView for TopKey {
    type V = TopKeyView;

    open spec fn deep_view(&self) -> TopKeyView {
        TopKeyView {
            key: self.key@,
            start: self.start as nat,
            end: self.end as nat,
            outline: self.outline.model(),
        }
    }
}

/// A document that is TOML: the keys at its top, and what it reads as where
/// every one of them is a table; else what `toml` says of the first that is
/// none.
#[derive(Debug, PartialEq)]
pub struct TomlDocument {
    pub keys: Vec<TopKey>,
    pub tables: Result<Vec<(String, TomlValue)>, String>,
}

/// What a [`TomlDocument`] is.
pub struct TomlDocumentView {
    pub keys: Seq<TopKeyView>,
    pub tables: Result<Seq<(Seq<char>, TomlView)>, Seq<char>>,
}

impl DeepView for TomlDocument {
    type V = TomlDocumentView;

    open spec fn deep_view(&self) -> TomlDocumentView {
        TomlDocumentView {
            keys: self.keys.deep_view(),
            tables: crate::model::result_view(self.tables),
        }
    }
}

/// The keys that `toml::from_str` reads at the top of a document, or the text of
/// its error where that is no TOML.
pub uninterp spec fn toml_keys(contents: Seq<char>) -> Result<Seq<TopKeyView>, Seq<char>>;

/// The tables that `toml::from_str` reads a document as, or the text of its error.
pub uninterp spec fn toml_tables(contents: Seq<char>) -> Result<
    Seq<(Seq<char>, TomlView)>,
    Seq<char>,
>;

/// The document that the contents are, or why they are no TOML.
pub open spec fn toml_document(contents: Seq<char>) -> Result<TomlDocumentView, Seq<char>> {
    match toml_keys(contents) {
        Ok(keys) => Ok(TomlDocumentView { keys, tables: toml_tables(contents) }),
        Err(error) => Err(error),
    }
}

/// A `toml::Value` as a tree: each variant as its own, with its fields.
#[verifier::external_body]
fn tree_of(value: toml::Value) -> TomlValue {
    match value {
        toml::Value::String(text) => TomlValue::Text(text),
        toml::Value::Integer(n) => TomlValue::Integer(n),
        toml::Value::Float(x) => TomlValue::Float { bits: x.to_bits(), text: x.to_string() },
        toml::Value::Boolean(b) => TomlValue::Boolean(b),
        toml::Value::Datetime(at) => TomlValue::Datetime(at.to_string()),
        toml::Value::Array(items) => TomlValue::Array(items.into_iter().map(tree_of).collect()),
        toml::Value::Table(pairs) => TomlValue::Table(
            pairs.into_iter().map(|(key, value)| (key, tree_of(value))).collect(),
        ),
    }
}

/// A `serde_json::Value` as an outline: text, arrays and objects with what they
/// hold, and the others by what they are not.
#[verifier::external_body]
fn outline_of(value: serde_json::Value) -> Outline {
    match value {
        serde_json::Value::Null => Outline::Scalar,
        serde_json::Value::Bool(_) => Outline::Scalar,
        serde_json::Value::Number(_) => Outline::Scalar,
        serde_json::Value::String(text) => Outline::Text(text),
        serde_json::Value::Array(items) => {
            Outline::List(items.into_iter().map(outline_of).collect())
        },
        serde_json::Value::Object(pairs) => Outline::Table(
            pairs.into_iter().map(|(key, value)| (key, outline_of(value))).collect(),
        ),
    }
}

/// `toml::from_str` for a map whose keys carry their spans. The contract claims
/// that the keys, or the text of its error, are a function of the contents.
#[verifier::external_body]
fn parse_keys(contents: &str) -> (keys: Result<Vec<TopKey>, String>)
    ensures
        crate::model::result_view(keys) == toml_keys(contents@),
{
    let keys = toml::from_str::<BTreeMap<toml::Spanned<String>, serde_json::Value>>(contents)
        .map_err(|error| error.to_string())?;
    Ok(keys.into_iter().map(|(key, value)| TopKey {
        start: key.span().start,
        end: key.span().end,
        key: key.into_inner(),
        outline: outline_of(value),
    }).collect())
}

/// `toml::from_str` for a map of maps. The contract claims that the maps, or the
/// text of its error, are a function of the contents.
#[verifier::external_body]
fn parse_tables(contents: &str) -> (tables: Result<Vec<(String, TomlValue)>, String>)
    ensures
        crate::model::result_view(tables) == toml_tables(contents@),
{
    let tables = toml::from_str::<BTreeMap<String, BTreeMap<String, toml::Value>>>(contents)
        .map_err(|error| error.to_string())?;
    Ok(tables.into_iter().map(|(key, pairs)| {
        (key, tree_of(toml::Value::Table(pairs.into_iter().collect())))
    }).collect())
}

/// Parses a document.
pub fn parse_document(contents: &str) -> (document: Result<TomlDocument, String>)
    ensures
        crate::model::result_view(document) == toml_document(contents@),
{
    match parse_keys(contents) {
        Ok(keys) => Ok(TomlDocument { keys, tables: parse_tables(contents) }),
        Err(error) => Err(error),
    }
}

/// Only a table that begins as a date does can be a bad date, and it is one
/// unless its text is a date; anything else is as good as what it holds.
pub proof fn law_bad_dates_are_found_at_any_depth(
    text: Seq<char>,
    items: Seq<OutlineView>,
    pairs: Seq<(Seq<char>, OutlineView)>,
)
    ensures
        !holds_bad_date(OutlineView::Scalar),
        !holds_bad_date(OutlineView::Text(text)),
        holds_bad_date(OutlineView::List(items)) <==> exists|i: int|
            0 <= i < items.len() && holds_bad_date(#[trigger] items[i]),
        pairs.len() > 0 && pairs[0].0 == "$__toml_private_datetime"@ ==> (holds_bad_date(
            OutlineView::Table(pairs),
        ) <==> !(pairs[0].1 matches OutlineView::Text(text) && toml_date(text))),
        pairs.len() == 0 || pairs[0].0 != "$__toml_private_datetime"@ ==> (holds_bad_date(
            OutlineView::Table(pairs),
        ) <==> exists|i: int| 0 <= i < pairs.len() && holds_bad_date((#[trigger] pairs[i]).1)),
        reads_as_table(OutlineView::Table(pairs)) <==> forall|i: int|
            0 <= i < pairs.len() ==> !holds_bad_date((#[trigger] pairs[i]).1),
        !reads_as_table(OutlineView::Scalar),
        !reads_as_table(OutlineView::Text(text)),
        !reads_as_table(OutlineView::List(items)),
{
    let list = OutlineView::List(items);
    if holds_bad_date(list) {
        let i = choose|i: int| 0 <= i < items.len() && holds_bad_date(#[trigger] items[i]);
        assert(holds_bad_date(items[i]));
    }
    if exists|i: int| 0 <= i < items.len() && holds_bad_date(#[trigger] items[i]) {
        let i = choose|i: int| 0 <= i < items.len() && holds_bad_date(#[trigger] items[i]);
        assert(holds_bad_date(list->List_0[i]));
        assert(holds_bad_date(list));
    }
    let table = OutlineView::Table(pairs);
    if exists|i: int| 0 <= i < pairs.len() && holds_bad_date((#[trigger] pairs[i]).1) {
        let i = choose|i: int| 0 <= i < pairs.len() && holds_bad_date((#[trigger] pairs[i]).1);
        assert(holds_bad_date(table->Table_0[i].1));
    }
}

} // verus!
