//! Reading a Finder out of a TOML tree: which tables and lists are accepted,
//! what they stand for, and what is said of those that are not.
use vstd::prelude::*;

use crate::config::{Outcome, Preview, RunOn, Source};
use crate::document::TomlValue;
use crate::json::{Json, JsonNumber};
use crate::text::{contains, i64_text, same_text, usize_text};

verus! {

/// Why a value was not accepted, and the keys that lead to it.
#[derive(Debug, PartialEq)]
pub struct DecodeError {
    pub message: String,
    pub path: Vec<String>,
}

/// What a [`DecodeError`] says.
pub struct DecodeErrorView {
    pub message: Seq<char>,
    pub path: Seq<Seq<char>>,
}

impl DeepView for DecodeError {
    type V = DecodeErrorView;

    open spec fn deep_view(&self) -> DecodeErrorView {
        DecodeErrorView { message: self.message@, path: self.path.deep_view() }
    }
}

impl DecodeErrorView {
    /// The lines shown to the user.
    pub open spec fn text(self) -> Seq<char> {
        if self.path.len() == 0 {
            self.message + "\n"@
        } else {
            self.message + "\n"@ + "in `"@ + crate::text::join(self.path, "."@) + "`\n"@
        }
    }

    /// The error of a value under `key`.
    pub open spec fn under(self, key: Seq<char>) -> DecodeErrorView {
        DecodeErrorView { message: self.message, path: seq![key] + self.path }
    }
}

impl DecodeError {
    /// The lines shown to the user.
    pub fn to_string(&self) -> (text: String)
        ensures
            text@ == self.deep_view().text(),
    {
        let mut text = self.message.clone();
        text.append("\n");
        let n = self.path.len();
        if n > 0 {
            let ghost path = self.path.deep_view();
            let mut keys = self.path[n - 1].clone();
            let mut i: usize = n - 1;
            assert(path.skip(n - 1).len() == 1);
            while i > 0
                invariant
                    i < n,
                    n == self.path@.len(),
                    path == self.path.deep_view(),
                    keys@ == crate::text::join(path.skip(i as int), "."@),
                decreases i,
            {
                i -= 1;
                let mut longer = self.path[i].clone();
                longer.append(".");
                longer.append(keys.as_str());
                proof {
                    assert(path.skip(i as int)[0] == self.path@[i as int]@);
                    assert(path.skip(i as int).skip(1) == path.skip(i + 1));
                }
                keys = longer;
            }
            assert(path.skip(0) == path);
            text.append("in `");
            text.append(keys.as_str());
            text.append("`\n");
        }
        assert(text@ == self.deep_view().text());
        text
    }

    /// The error of a value under `key`.
    pub fn under(self, key: &str) -> (error: DecodeError)
        ensures
            error.deep_view() == self.deep_view().under(key@),
    {
        let mut path: Vec<String> = Vec::new();
        path.push(key.to_owned());
        let mut rest = self.path;
        path.append(&mut rest);
        let error = DecodeError { message: self.message, path };
        assert(error.path.deep_view() =~= seq![key@] + self.path.deep_view());
        error
    }
}

/// An error about the value itself.
pub open spec fn plain_error(message: Seq<char>) -> DecodeErrorView {
    DecodeErrorView { message, path: Seq::empty() }
}

fn plain(message: String) -> (error: DecodeError)
    ensures
        error.deep_view() == plain_error(message@),
{
    let error = DecodeError { message, path: Vec::new() };
    assert(error.path.deep_view() =~= Seq::<Seq<char>>::empty());
    error
}

/// How `serde` calls a string in a message.
pub uninterp spec fn described_string(text: Seq<char>) -> Seq<char>;

/// `serde::de::Unexpected::Str` in its `Display` form. The contract claims that
/// it is a function of the string.
#[verifier::external_body]
fn describe_string(text: &str) -> (described: String)
    ensures
        described@ == described_string(text@),
{
    serde::de::Unexpected::Str(text).to_string()
}

/// The numeral of a float with a decimal point, where it stands for a number.
pub open spec fn float_text(bits: u64, text: Seq<char>) -> Seq<char> {
    if is_finite(bits) && !crate::text::has_occurrence(text, "."@) {
        text + ".0"@
    } else {
        text
    }
}

/// How a value is called in a message.
pub open spec fn described(value: crate::document::TomlView) -> Seq<char> {
    match value {
        crate::document::TomlView::Text(text) => described_string(text),
        crate::document::TomlView::Datetime(text) => described_string(text),
        crate::document::TomlView::Integer(n) => "integer `"@ + crate::text::decimal(n as int)
            + "`"@,
        crate::document::TomlView::Float { bits, text } => "floating point `"@ + float_text(
            bits,
            text,
        ) + "`"@,
        crate::document::TomlView::Boolean(b) => if b {
            "boolean `true`"@
        } else {
            "boolean `false`"@
        },
        crate::document::TomlView::Array(_) => "sequence"@,
        crate::document::TomlView::Table(_) => "map"@,
    }
}

fn describe(value: &TomlValue) -> (text: String)
    ensures
        text@ == described(value.model()),
{
    match value {
        TomlValue::Text(text) => describe_string(text.as_str()),
        TomlValue::Datetime(text) => describe_string(text.as_str()),
        TomlValue::Integer(n) => {
            let mut out = "integer `".to_owned();
            out.append(i64_text(*n).as_str());
            out.append("`");
            out
        },
        TomlValue::Float { bits, text } => {
            let mut out = "floating point `".to_owned();
            out.append(text.as_str());
            if finite(*bits) && !contains(text.as_str(), ".") {
                out.append(".0");
            }
            out.append("`");
            assert(out@ == described(value.model()));
            out
        },
        TomlValue::Boolean(b) => if *b {
            "boolean `true`".to_owned()
        } else {
            "boolean `false`".to_owned()
        },
        TomlValue::Array(_) => "sequence".to_owned(),
        TomlValue::Table(_) => "map".to_owned(),
    }
}

/// A value of another type than the one that belongs there.
pub open spec fn invalid_type(
    value: crate::document::TomlView,
    expected: Seq<char>,
) -> DecodeErrorView {
    plain_error("invalid type: "@ + described(value) + ", expected "@ + expected)
}

/// The error about a value of another type than the one that belongs there.
pub fn wrong_type(value: &TomlValue, expected: &str) -> (error: DecodeError)
    ensures
        error.deep_view() == invalid_type(value.model(), expected@),
{
    let mut message = "invalid type: ".to_owned();
    message.append(describe(value).as_str());
    message.append(", expected ");
    message.append(expected);
    plain(message)
}

/// A key that does not belong in its table. `expected` lists those that do.
pub open spec fn unknown_field(key: Seq<char>, expected: Seq<char>) -> DecodeErrorView {
    plain_error("unknown field `"@ + key + "`, "@ + expected)
}

/// The error about a key that does not belong in its table.
pub fn unknown_key(key: &str, expected: &str) -> (error: DecodeError)
    ensures
        error.deep_view() == unknown_field(key@, expected@),
{
    let mut message = "unknown field `".to_owned();
    message.append(key);
    message.append("`, ");
    message.append(expected);
    plain(message)
}

/// A key that is not there and has no default.
pub open spec fn missing_field(key: Seq<char>) -> DecodeErrorView {
    plain_error("missing field `"@ + key + "`"@)
}

/// The error about a key that is not there and has no default.
pub fn missing_key(key: &str) -> (error: DecodeError)
    ensures
        error.deep_view() == missing_field(key@),
{
    let mut message = "missing field `".to_owned();
    message.append(key);
    message.append("`");
    plain(message)
}

/// A list of another length than the one that belongs there.
pub open spec fn invalid_length(len: nat, expected: Seq<char>) -> DecodeErrorView {
    plain_error("invalid length "@ + crate::text::decimal(len as int) + ", expected "@ + expected)
}

/// The error about a list of another length than the one that belongs there.
pub fn wrong_length(len: usize, expected: &str) -> (error: DecodeError)
    ensures
        error.deep_view() == invalid_length(len as nat, expected@),
{
    let mut message = "invalid length ".to_owned();
    message.append(usize_text(len).as_str());
    message.append(", expected ");
    message.append(expected);
    plain(message)
}

/// A name that stands for none of the alternatives. `expected` lists them.
pub open spec fn unknown_variant(name: Seq<char>, expected: Seq<char>) -> DecodeErrorView {
    plain_error("unknown variant `"@ + name + "`, expected "@ + expected)
}

fn unknown_name(name: &str, expected: &str) -> (error: DecodeError)
    ensures
        error.deep_view() == unknown_variant(name@, expected@),
{
    let mut message = "unknown variant `".to_owned();
    message.append(name);
    message.append("`, expected ");
    message.append(expected);
    plain(message)
}

/// The value under a key: the first, where a key occurs more than once.
pub open spec fn field(
    pairs: Seq<(Seq<char>, crate::document::TomlView)>,
    key: Seq<char>,
) -> Option<crate::document::TomlView>
    decreases pairs.len(),
{
    if pairs.len() == 0 {
        None
    } else if pairs[0].0 == key {
        Some(pairs[0].1)
    } else {
        field(pairs.skip(1), key)
    }
}

/// The value under a key.
pub fn find<'a>(pairs: &'a Vec<(String, TomlValue)>, key: &str) -> (found: Option<&'a TomlValue>)
    ensures
        found.deep_view() == field(pairs.deep_view(), key@),
{
    let ghost all = pairs.deep_view();
    let mut i: usize = 0;
    assert(all.skip(0) == all);
    while i < pairs.len()
        invariant
            i <= pairs@.len(),
            all == pairs.deep_view(),
            field(all, key@) == field(all.skip(i as int), key@),
        decreases pairs@.len() - i,
    {
        proof {
            assert(all.skip(i as int)[0] == (pairs@[i as int].0@, pairs@[i as int].1.model()));
            assert(all.skip(i as int).skip(1) == all.skip(i + 1));
        }
        if same_text(pairs[i].0.as_str(), key) {
            return Some(&pairs[i].1);
        }
        i += 1;
    }
    None
}

/// The text of a value, where it is one. A date or a time counts as what is
/// written.
pub open spec fn text_of(value: crate::document::TomlView) -> Option<Seq<char>> {
    match value {
        crate::document::TomlView::Text(text) => Some(text),
        crate::document::TomlView::Datetime(text) => Some(text),
        _ => None,
    }
}

/// A value read as text.
pub open spec fn decoded_text(value: crate::document::TomlView) -> Result<
    Seq<char>,
    DecodeErrorView,
> {
    match text_of(value) {
        Some(text) => Ok(text),
        None => Err(invalid_type(value, "a string"@)),
    }
}

/// Reads a value as text.
pub fn decode_text(value: &TomlValue) -> (out: Result<String, DecodeError>)
    ensures
        crate::model::result_view(out) == decoded_text(value.model()),
{
    match value {
        TomlValue::Text(text) => Ok(text.clone()),
        TomlValue::Datetime(text) => Ok(text.clone()),
        _ => Err(wrong_type(value, "a string")),
    }
}

/// A value read as a list of texts; the first item that is none is the error.
pub open spec fn decoded_texts(value: crate::document::TomlView) -> Result<
    Seq<Seq<char>>,
    DecodeErrorView,
> {
    match value {
        crate::document::TomlView::Array(items) => decoded_items(items),
        _ => Err(invalid_type(value, "a sequence"@)),
    }
}

/// Every item read as text, in order.
pub open spec fn decoded_items(items: Seq<crate::document::TomlView>) -> Result<
    Seq<Seq<char>>,
    DecodeErrorView,
>
    decreases items.len(),
{
    if items.len() == 0 {
        Ok(Seq::empty())
    } else {
        match decoded_items(items.drop_last()) {
            Ok(done) => match decoded_text(items.last()) {
                Ok(text) => Ok(done.push(text)),
                Err(error) => Err(error),
            },
            Err(error) => Err(error),
        }
    }
}

proof fn lemma_items_error(items: Seq<crate::document::TomlView>, n: int)
    requires
        0 <= n <= items.len(),
        decoded_items(items.take(n)) is Err,
    ensures
        decoded_items(items) == decoded_items(items.take(n)),
    decreases items.len() - n,
{
    if n == items.len() {
        assert(items.take(n) == items);
    } else {
        assert(items.take(n + 1).drop_last() == items.take(n));
        lemma_items_error(items, n + 1);
    }
}

fn decode_texts(value: &TomlValue) -> (out: Result<Vec<String>, DecodeError>)
    ensures
        crate::model::result_view(out) == decoded_texts(value.model()),
{
    match value {
        TomlValue::Array(items) => {
            let ghost all = value.model()->Array_0;
            let mut out: Vec<String> = Vec::new();
            let mut i: usize = 0;
            assert(all.take(0) == Seq::<crate::document::TomlView>::empty());
            assert(out.deep_view() =~= Seq::<Seq<char>>::empty());
            while i < items.len()
                invariant
                    value matches TomlValue::Array(v) && v == items,
                    all == value.model()->Array_0,
                    i <= items@.len(),
                    decoded_items(all.take(i as int)) == Ok::<Seq<Seq<char>>, DecodeErrorView>(
                        out.deep_view(),
                    ),
                decreases items@.len() - i,
            {
                let ghost before = out.deep_view();
                proof {
                    assert(all.take(i + 1).drop_last() == all.take(i as int));
                    assert(all.take(i + 1).last() == items@[i as int].model());
                }
                match decode_text(&items[i]) {
                    Ok(text) => {
                        out.push(text);
                        assert(out.deep_view() =~= before.push(text@));
                    },
                    Err(error) => {
                        proof {
                            lemma_items_error(all, i + 1);
                        }
                        return Err(error);
                    },
                }
                i += 1;
            }
            assert(all.take(i as int) == all);
            Ok(out)
        },
        _ => Err(wrong_type(value, "a sequence")),
    }
}

/// Whether the bits of a double stand for a number.
pub open spec fn is_finite(bits: u64) -> bool {
    (bits / 0x10_0000_0000_0000) % 0x800 != 0x7ff
}

fn finite(bits: u64) -> (finite: bool)
    ensures
        finite == is_finite(bits),
{
    (bits / 0x10_0000_0000_0000) % 0x800 != 0x7ff
}

/// A TOML value as JSON: dates and times become text, and a float that is no
/// number becomes null.
pub open spec fn json_of(value: crate::document::TomlView) -> crate::json::JsonView
    decreases value,
{
    match value {
        crate::document::TomlView::Text(text) => crate::json::JsonView::Text(text),
        crate::document::TomlView::Datetime(text) => crate::json::JsonView::Text(text),
        crate::document::TomlView::Integer(n) => crate::json::JsonView::Number(
            if n >= 0 {
                JsonNumber::PosInt(n as u64)
            } else {
                JsonNumber::NegInt(n)
            },
        ),
        crate::document::TomlView::Float { bits, .. } => if is_finite(bits) {
            crate::json::JsonView::Number(JsonNumber::Float(bits))
        } else {
            crate::json::JsonView::Null
        },
        crate::document::TomlView::Boolean(b) => crate::json::JsonView::Bool(b),
        crate::document::TomlView::Array(items) => crate::json::JsonView::Array(
            Seq::new(
                items.len(),
                |i: int|
                    if 0 <= i < items.len() {
                        json_of(items[i])
                    } else {
                        arbitrary()
                    },
            ),
        ),
        crate::document::TomlView::Table(pairs) => crate::json::JsonView::Object(
            Seq::new(
                pairs.len(),
                |i: int|
                    if 0 <= i < pairs.len() {
                        (pairs[i].0, json_of(pairs[i].1))
                    } else {
                        arbitrary()
                    },
            ),
        ),
    }
}

fn to_json(value: &TomlValue) -> (json: Json)
    ensures
        json.model() == json_of(value.model()),
    decreases value,
{
    match value {
        TomlValue::Text(text) => Json::Text(text.clone()),
        TomlValue::Datetime(text) => Json::Text(text.clone()),
        TomlValue::Integer(n) => if *n >= 0 {
            Json::Number(JsonNumber::PosInt(*n as u64))
        } else {
            Json::Number(JsonNumber::NegInt(*n))
        },
        TomlValue::Float { bits, .. } => if finite(*bits) {
            Json::Number(JsonNumber::Float(*bits))
        } else {
            Json::Null
        },
        TomlValue::Boolean(b) => Json::Bool(*b),
        TomlValue::Array(items) => {
            let mut out: Vec<Json> = Vec::new();
            let mut i: usize = 0;
            while i < items.len()
                invariant
                    value matches TomlValue::Array(v) && v == items,
                    i <= items@.len(),
                    out@.len() == i,
                    forall|j: int|
                        0 <= j < i ==> (#[trigger] out@[j]).model() == json_of(items@[j].model()),
                decreases items@.len() - i,
            {
                out.push(to_json(&items[i]));
                i += 1;
            }
            let json = Json::Array(out);
            assert(json.model()->Array_0 =~= json_of(value.model())->Array_0);
            json
        },
        TomlValue::Table(pairs) => {
            let mut out: Vec<(String, Json)> = Vec::new();
            let mut i: usize = 0;
            while i < pairs.len()
                invariant
                    value matches TomlValue::Table(v) && v == pairs,
                    i <= pairs@.len(),
                    out@.len() == i,
                    forall|j: int|
                        0 <= j < i ==> (#[trigger] out@[j]).0@ == pairs@[j].0@ && out@[j].1.model()
                            == json_of(pairs@[j].1.model()),
                decreases pairs@.len() - i,
            {
                out.push((pairs[i].0.clone(), to_json(&pairs[i].1)));
                i += 1;
            }
            let json = Json::Object(out);
            assert(json.model()->Object_0 =~= json_of(value.model())->Object_0);
            json
        },
    }
}

/// What the value under a key has to be.
#[derive(Debug, Clone, Copy, PartialEq, Eq, Structural)]
pub enum FieldKind {
    Text,
    Texts,
    Anything,
}

/// Which keys a table with a `type` may hold beside it.
#[derive(Debug, Clone, Copy, PartialEq, Eq, Structural)]
pub enum Shape {
    /// A program and its arguments.
    Command,
    /// A path template.
    Path,
    /// An action and its arguments.
    Action,
    /// Nothing.
    Bare,
}

impl Shape {
    /// What the value under `key` has to be, where the key belongs there.
    pub open spec fn kind(self, key: Seq<char>) -> Option<FieldKind> {
        match self {
            Shape::Command => if key == "command"@ {
                Some(FieldKind::Text)
            } else if key == "args"@ {
                Some(FieldKind::Texts)
            } else {
                None
            },
            Shape::Path => if key == "path"@ {
                Some(FieldKind::Text)
            } else {
                None
            },
            Shape::Action => if key == "action"@ {
                Some(FieldKind::Text)
            } else if key == "args"@ {
                Some(FieldKind::Anything)
            } else {
                None
            },
            Shape::Bare => None,
        }
    }

    /// What is said of the keys that belong there.
    pub open spec fn expected(self) -> Seq<char> {
        match self {
            Shape::Command => "expected `command` or `args`"@,
            Shape::Path => "expected `path`"@,
            Shape::Action => "expected `action` or `args`"@,
            Shape::Bare => "there are no fields"@,
        }
    }

    fn find_kind(self, key: &str) -> (kind: Option<FieldKind>)
        ensures
            kind == self.kind(key@),
    {
        match self {
            Shape::Command => if same_text(key, "command") {
                Some(FieldKind::Text)
            } else if same_text(key, "args") {
                Some(FieldKind::Texts)
            } else {
                None
            },
            Shape::Path => if same_text(key, "path") {
                Some(FieldKind::Text)
            } else {
                None
            },
            Shape::Action => if same_text(key, "action") {
                Some(FieldKind::Text)
            } else if same_text(key, "args") {
                Some(FieldKind::Anything)
            } else {
                None
            },
            Shape::Bare => None,
        }
    }

    fn expected_text(self) -> (text: &'static str)
        ensures
            text@ == self.expected(),
    {
        match self {
            Shape::Command => "expected `command` or `args`",
            Shape::Path => "expected `path`",
            Shape::Action => "expected `action` or `args`",
            Shape::Bare => "there are no fields",
        }
    }
}

/// What is wrong with a value of the given kind.
pub open spec fn kind_error(kind: FieldKind, value: crate::document::TomlView) -> Option<
    DecodeErrorView,
> {
    match kind {
        FieldKind::Text => match decoded_text(value) {
            Ok(_) => None,
            Err(error) => Some(error),
        },
        FieldKind::Texts => match decoded_texts(value) {
            Ok(_) => None,
            Err(error) => Some(error),
        },
        FieldKind::Anything => None,
    }
}

/// What is wrong with one pair of a table that has a `type`.
pub open spec fn pair_error(
    shape: Shape,
    pair: (Seq<char>, crate::document::TomlView),
) -> Option<DecodeErrorView> {
    if pair.0 == "type"@ {
        None
    } else {
        match shape.kind(pair.0) {
            Some(kind) => kind_error(kind, pair.1),
            None => Some(unknown_field(pair.0, shape.expected())),
        }
    }
}

/// What is wrong with the first pair with which anything is wrong.
pub open spec fn shape_error(
    shape: Shape,
    pairs: Seq<(Seq<char>, crate::document::TomlView)>,
) -> Option<DecodeErrorView>
    decreases pairs.len(),
{
    if pairs.len() == 0 {
        None
    } else {
        match pair_error(shape, pairs[0]) {
            Some(error) => Some(error),
            None => shape_error(shape, pairs.skip(1)),
        }
    }
}

fn check_pair(shape: Shape, key: &str, value: &TomlValue) -> (error: Option<DecodeError>)
    ensures
        error.deep_view() == pair_error(shape, (key@, value.model())),
{
    if same_text(key, "type") {
        return None;
    }
    match shape.find_kind(key) {
        Some(FieldKind::Text) => match decode_text(value) {
            Ok(_) => None,
            Err(error) => Some(error),
        },
        Some(FieldKind::Texts) => match decode_texts(value) {
            Ok(_) => None,
            Err(error) => Some(error),
        },
        Some(FieldKind::Anything) => None,
        None => Some(unknown_key(key, shape.expected_text())),
    }
}

fn check_shape(shape: Shape, pairs: &Vec<(String, TomlValue)>) -> (error: Option<DecodeError>)
    ensures
        error.deep_view() == shape_error(shape, pairs.deep_view()),
{
    let ghost all = pairs.deep_view();
    let mut i: usize = 0;
    assert(all.skip(0) == all);
    while i < pairs.len()
        invariant
            i <= pairs@.len(),
            all == pairs.deep_view(),
            shape_error(shape, all) == shape_error(shape, all.skip(i as int)),
        decreases pairs@.len() - i,
    {
        proof {
            assert(all.skip(i as int)[0] == (pairs@[i as int].0@, pairs@[i as int].1.model()));
            assert(all.skip(i as int).skip(1) == all.skip(i + 1));
        }
        let error = check_pair(shape, pairs[i].0.as_str(), &pairs[i].1);
        if error.is_some() {
            return error;
        }
        i += 1;
    }
    None
}

/// The `type` of a table, read as text.
pub open spec fn type_of(pairs: Seq<(Seq<char>, crate::document::TomlView)>) -> Result<
    Seq<char>,
    DecodeErrorView,
> {
    match field(pairs, "type"@) {
        None => Err(missing_field("type"@)),
        Some(value) => match text_of(value) {
            Some(text) => Ok(text),
            None => Err(invalid_type(value, "variant identifier"@).under("type"@)),
        },
    }
}

fn find_type(pairs: &Vec<(String, TomlValue)>) -> (out: Result<String, DecodeError>)
    ensures
        crate::model::result_view(out) == type_of(pairs.deep_view()),
{
    match find(pairs, "type") {
        None => Err(missing_key("type")),
        Some(value) => match value {
            TomlValue::Text(text) => Ok(text.clone()),
            TomlValue::Datetime(text) => Ok(text.clone()),
            _ => Err(wrong_type(value, "variant identifier").under("type")),
        },
    }
}

/// The text under a key of a table that was checked.
pub open spec fn text_field(
    pairs: Seq<(Seq<char>, crate::document::TomlView)>,
    key: Seq<char>,
) -> Option<Seq<char>> {
    match field(pairs, key) {
        Some(value) => text_of(value),
        None => None,
    }
}

/// The text under a key of a table that was checked.
pub fn find_text(pairs: &Vec<(String, TomlValue)>, key: &str) -> (text: Option<String>)
    ensures
        text.deep_view() == text_field(pairs.deep_view(), key@),
{
    match find(pairs, key) {
        Some(value) => match value {
            TomlValue::Text(text) => Some(text.clone()),
            TomlValue::Datetime(text) => Some(text.clone()),
            _ => None,
        },
        None => None,
    }
}

/// The texts under a key of a table that was checked; none without the key.
pub open spec fn texts_field(
    pairs: Seq<(Seq<char>, crate::document::TomlView)>,
    key: Seq<char>,
) -> Seq<Seq<char>> {
    match field(pairs, key) {
        Some(value) => match decoded_texts(value) {
            Ok(texts) => texts,
            Err(_) => Seq::empty(),
        },
        None => Seq::empty(),
    }
}

fn find_texts(pairs: &Vec<(String, TomlValue)>, key: &str) -> (texts: Vec<String>)
    ensures
        texts.deep_view() == texts_field(pairs.deep_view(), key@),
{
    let found = match find(pairs, key) {
        Some(value) => match decode_texts(value) {
            Ok(texts) => Some(texts),
            Err(_) => None,
        },
        None => None,
    };
    match found {
        Some(texts) => texts,
        None => {
            let texts: Vec<String> = Vec::new();
            assert(texts.deep_view() =~= Seq::<Seq<char>>::empty());
            texts
        },
    }
}

/// A program and its arguments out of a table: every key is checked before the
/// program is missed.
pub open spec fn decoded_command(pairs: Seq<(Seq<char>, crate::document::TomlView)>) -> Result<
    (Seq<char>, Seq<Seq<char>>),
    DecodeErrorView,
> {
    match shape_error(Shape::Command, pairs) {
        Some(error) => Err(error),
        None => match text_field(pairs, "command"@) {
            None => Err(missing_field("command"@)),
            Some(command) => Ok((command, texts_field(pairs, "args"@))),
        },
    }
}

fn decode_command(pairs: &Vec<(String, TomlValue)>) -> (out: Result<
    (String, Vec<String>),
    DecodeError,
>)
    ensures
        crate::model::result_view(out) == decoded_command(pairs.deep_view()),
{
    match check_shape(Shape::Command, pairs) {
        Some(error) => Err(error),
        None => match find_text(pairs, "command") {
            None => Err(missing_key("command")),
            Some(command) => Ok((command, find_texts(pairs, "args"))),
        },
    }
}

/// The `type` of a list, which is its first item, read as text.
pub open spec fn tag_of(items: Seq<crate::document::TomlView>) -> Result<
    Seq<char>,
    DecodeErrorView,
> {
    if items.len() == 0 {
        Err(missing_field("type"@))
    } else {
        match text_of(items[0]) {
            Some(text) => Ok(text),
            None => Err(invalid_type(items[0], "variant identifier"@)),
        }
    }
}

fn find_tag(items: &Vec<TomlValue>) -> (out: Result<String, DecodeError>)
    ensures
        crate::model::result_view(out) == tag_of(items.deep_view()),
{
    if items.len() == 0 {
        return Err(missing_key("type"));
    }
    match &items[0] {
        TomlValue::Text(text) => Ok(text.clone()),
        TomlValue::Datetime(text) => Ok(text.clone()),
        _ => Err(wrong_type(&items[0], "variant identifier")),
    }
}

/// A program and its arguments out of a list, behind its `type`. `expected`
/// says what the list stands for.
pub open spec fn listed_command(
    items: Seq<crate::document::TomlView>,
    expected: Seq<char>,
) -> Result<(Seq<char>, Seq<Seq<char>>), DecodeErrorView> {
    if items.len() < 2 {
        Err(invalid_length(0, expected))
    } else {
        match decoded_text(items[1]) {
            Err(error) => Err(error),
            Ok(command) => if items.len() == 2 {
                Ok((command, Seq::empty()))
            } else {
                match decoded_texts(items[2]) {
                    Err(error) => Err(error),
                    Ok(args) => if items.len() > 3 {
                        Err(invalid_length((items.len() - 1) as nat, "2 elements in sequence"@))
                    } else {
                        Ok((command, args))
                    },
                }
            },
        }
    }
}

fn decode_listed_command(items: &Vec<TomlValue>, expected: &str) -> (out: Result<
    (String, Vec<String>),
    DecodeError,
>)
    ensures
        crate::model::result_view(out) == listed_command(items.deep_view(), expected@),
{
    if items.len() < 2 {
        return Err(wrong_length(0, expected));
    }
    match decode_text(&items[1]) {
        Err(error) => Err(error),
        Ok(command) => if items.len() == 2 {
            let args: Vec<String> = Vec::new();
            assert(args.deep_view() =~= Seq::<Seq<char>>::empty());
            Ok((command, args))
        } else {
            match decode_texts(&items[2]) {
                Err(error) => Err(error),
                Ok(args) => if items.len() > 3 {
                    Err(wrong_length(items.len() - 1, "2 elements in sequence"))
                } else {
                    Ok((command, args))
                },
            }
        },
    }
}

/// A path template out of a list, behind its `type`; none where the list ends.
pub open spec fn listed_path(items: Seq<crate::document::TomlView>) -> Result<
    Option<Seq<char>>,
    DecodeErrorView,
> {
    if items.len() < 2 {
        Ok(None)
    } else {
        match decoded_text(items[1]) {
            Err(error) => Err(error),
            Ok(path) => if items.len() > 2 {
                Err(invalid_length((items.len() - 1) as nat, "1 element in sequence"@))
            } else {
                Ok(Some(path))
            },
        }
    }
}

fn decode_listed_path(items: &Vec<TomlValue>) -> (out: Result<Option<String>, DecodeError>)
    ensures
        crate::model::result_view(out) == listed_path(items.deep_view()),
{
    if items.len() < 2 {
        return Ok(None);
    }
    match decode_text(&items[1]) {
        Err(error) => Err(error),
        Ok(path) => if items.len() > 2 {
            Err(wrong_length(items.len() - 1, "1 element in sequence"))
        } else {
            Ok(Some(path))
        },
    }
}

/// What is said of a list that does not name its action.
pub const ACTION_LIST: &'static str = "struct variant Outcome::DispatchAction with 2 elements";

/// An action and its arguments out of a list, behind its `type`.
pub open spec fn listed_action(items: Seq<crate::document::TomlView>) -> Result<
    (Seq<char>, Option<crate::json::JsonView>),
    DecodeErrorView,
> {
    if items.len() < 2 {
        Err(invalid_length(0, ACTION_LIST@))
    } else {
        match decoded_text(items[1]) {
            Err(error) => Err(error),
            Ok(action) => if items.len() > 3 {
                Err(invalid_length((items.len() - 1) as nat, "2 elements in sequence"@))
            } else if items.len() == 3 {
                Ok((action, Some(json_of(items[2]))))
            } else {
                Ok((action, None))
            },
        }
    }
}

fn decode_listed_action(items: &Vec<TomlValue>) -> (out: Result<
    (String, Option<Json>),
    DecodeError,
>)
    ensures
        crate::model::result_view(out) == listed_action(items.deep_view()),
{
    if items.len() < 2 {
        return Err(wrong_length(0, ACTION_LIST));
    }
    match decode_text(&items[1]) {
        Err(error) => Err(error),
        Ok(action) => if items.len() > 3 {
            Err(wrong_length(items.len() - 1, "2 elements in sequence"))
        } else if items.len() == 3 {
            Ok((action, Some(to_json(&items[2]))))
        } else {
            Ok((action, None))
        },
    }
}

/// A Source out of a table, or out of a list whose first item is its `type`.
pub open spec fn decoded_source(value: crate::document::TomlView) -> Result<
    crate::config::SourceView,
    DecodeErrorView,
> {
    match value {
        crate::document::TomlView::Table(pairs) => match type_of(pairs) {
            Err(error) => Err(error),
            Ok(name) => if name == "command"@ {
                match decoded_command(pairs) {
                    Ok((command, args)) => Ok(crate::config::SourceView::Command { command, args }),
                    Err(error) => Err(error),
                }
            } else if name == "query"@ {
                match decoded_command(pairs) {
                    Ok((command, args)) => Ok(crate::config::SourceView::Query { command, args }),
                    Err(error) => Err(error),
                }
            } else {
                Err(unknown_variant(name, "`command` or `query`"@).under("type"@))
            },
        },
        crate::document::TomlView::Array(items) => match tag_of(items) {
            Err(error) => Err(error),
            Ok(name) => if name == "command"@ {
                match listed_command(items, "struct variant Source::Command with 2 elements"@) {
                    Ok((command, args)) => Ok(crate::config::SourceView::Command { command, args }),
                    Err(error) => Err(error),
                }
            } else if name == "query"@ {
                match listed_command(items, "struct variant Source::Query with 2 elements"@) {
                    Ok((command, args)) => Ok(crate::config::SourceView::Query { command, args }),
                    Err(error) => Err(error),
                }
            } else {
                Err(unknown_variant(name, "`command` or `query`"@))
            },
        },
        _ => Err(invalid_type(value, "internally tagged enum Source"@)),
    }
}

/// The pairs of a table or the items of a list that a value is.
pub proof fn lemma_contents(value: TomlValue)
    ensures
        value matches TomlValue::Array(items) ==> value.model()
            == crate::document::TomlView::Array(items.deep_view()),
        value matches TomlValue::Table(pairs) ==> value.model()
            == crate::document::TomlView::Table(pairs.deep_view()),
{
    if let TomlValue::Table(pairs) = value {
        assert(value.model()->Table_0 =~= pairs.deep_view());
    }
    if let TomlValue::Array(items) = value {
        assert(value.model()->Array_0 =~= items.deep_view());
    }
}

/// Reads a Source.
pub fn decode_source(value: &TomlValue) -> (out: Result<Source, DecodeError>)
    ensures
        crate::model::result_view(out) == decoded_source(value.model()),
{
    proof {
        lemma_contents(*value);
    }
    match value {
        TomlValue::Table(pairs) => match find_type(pairs) {
            Err(error) => Err(error),
            Ok(name) => if same_text(name.as_str(), "command") {
                match decode_command(pairs) {
                    Ok((command, args)) => Ok(Source::Command { command, args }),
                    Err(error) => Err(error),
                }
            } else if same_text(name.as_str(), "query") {
                match decode_command(pairs) {
                    Ok((command, args)) => Ok(Source::Query { command, args }),
                    Err(error) => Err(error),
                }
            } else {
                Err(unknown_name(name.as_str(), "`command` or `query`").under("type"))
            },
        },
        TomlValue::Array(items) => match find_tag(items) {
            Err(error) => Err(error),
            Ok(name) => if same_text(name.as_str(), "command") {
                match decode_listed_command(
                    items,
                    "struct variant Source::Command with 2 elements",
                ) {
                    Ok((command, args)) => Ok(Source::Command { command, args }),
                    Err(error) => Err(error),
                }
            } else if same_text(name.as_str(), "query") {
                match decode_listed_command(
                    items,
                    "struct variant Source::Query with 2 elements",
                ) {
                    Ok((command, args)) => Ok(Source::Query { command, args }),
                    Err(error) => Err(error),
                }
            } else {
                Err(unknown_name(name.as_str(), "`command` or `query`"))
            },
        },
        _ => Err(wrong_type(value, "internally tagged enum Source")),
    }
}

/// The JSON under a key.
pub open spec fn json_field(
    pairs: Seq<(Seq<char>, crate::document::TomlView)>,
    key: Seq<char>,
) -> Option<crate::json::JsonView> {
    match field(pairs, key) {
        Some(value) => Some(json_of(value)),
        None => None,
    }
}

/// What is said of the names that stand for an Outcome.
pub const OUTCOME_TYPES: &'static str =
    "one of `open_path`, `open_path_at_position`, `dispatch_action`, `run_command`";

/// An Outcome out of a table, or out of a list whose first item is its `type`.
pub open spec fn decoded_outcome(value: crate::document::TomlView) -> Result<
    crate::config::OutcomeView,
    DecodeErrorView,
> {
    match value {
        crate::document::TomlView::Table(pairs) => match type_of(pairs) {
            Err(error) => Err(error),
            Ok(name) => if name == "open_path"@ {
                match shape_error(Shape::Path, pairs) {
                    Some(error) => Err(error),
                    None => Ok(
                        crate::config::OutcomeView::OpenPath { path: text_field(pairs, "path"@) },
                    ),
                }
            } else if name == "open_path_at_position"@ {
                match shape_error(Shape::Path, pairs) {
                    Some(error) => Err(error),
                    None => Ok(
                        crate::config::OutcomeView::OpenPathAtPosition {
                            path: text_field(pairs, "path"@),
                        },
                    ),
                }
            } else if name == "dispatch_action"@ {
                match shape_error(Shape::Action, pairs) {
                    Some(error) => Err(error),
                    None => match text_field(pairs, "action"@) {
                        None => Err(missing_field("action"@)),
                        Some(action) => Ok(
                            crate::config::OutcomeView::DispatchAction {
                                action,
                                args: json_field(pairs, "args"@),
                            },
                        ),
                    },
                }
            } else if name == "run_command"@ {
                match decoded_command(pairs) {
                    Ok((command, args)) => Ok(
                        crate::config::OutcomeView::RunCommand { command, args },
                    ),
                    Err(error) => Err(error),
                }
            } else {
                Err(unknown_variant(name, OUTCOME_TYPES@).under("type"@))
            },
        },
        crate::document::TomlView::Array(items) => match tag_of(items) {
            Err(error) => Err(error),
            Ok(name) => if name == "open_path"@ {
                match listed_path(items) {
                    Ok(path) => Ok(crate::config::OutcomeView::OpenPath { path }),
                    Err(error) => Err(error),
                }
            } else if name == "open_path_at_position"@ {
                match listed_path(items) {
                    Ok(path) => Ok(crate::config::OutcomeView::OpenPathAtPosition { path }),
                    Err(error) => Err(error),
                }
            } else if name == "dispatch_action"@ {
                match listed_action(items) {
                    Ok((action, args)) => Ok(
                        crate::config::OutcomeView::DispatchAction { action, args },
                    ),
                    Err(error) => Err(error),
                }
            } else if name == "run_command"@ {
                match listed_command(
                    items,
                    "struct variant Outcome::RunCommand with 2 elements"@,
                ) {
                    Ok((command, args)) => Ok(
                        crate::config::OutcomeView::RunCommand { command, args },
                    ),
                    Err(error) => Err(error),
                }
            } else {
                Err(unknown_variant(name, OUTCOME_TYPES@))
            },
        },
        _ => Err(invalid_type(value, "internally tagged enum Outcome"@)),
    }
}

/// Reads an Outcome.
pub fn decode_outcome(value: &TomlValue) -> (out: Result<Outcome, DecodeError>)
    ensures
        crate::model::result_view(out) == decoded_outcome(value.model()),
{
    proof {
        lemma_contents(*value);
    }
    match value {
        TomlValue::Table(pairs) => match find_type(pairs) {
            Err(error) => Err(error),
            Ok(name) => if same_text(name.as_str(), "open_path") {
                match check_shape(Shape::Path, pairs) {
                    Some(error) => Err(error),
                    None => Ok(Outcome::OpenPath { path: find_text(pairs, "path") }),
                }
            } else if same_text(name.as_str(), "open_path_at_position") {
                match check_shape(Shape::Path, pairs) {
                    Some(error) => Err(error),
                    None => Ok(Outcome::OpenPathAtPosition { path: find_text(pairs, "path") }),
                }
            } else if same_text(name.as_str(), "dispatch_action") {
                match check_shape(Shape::Action, pairs) {
                    Some(error) => Err(error),
                    None => match find_text(pairs, "action") {
                        None => Err(missing_key("action")),
                        Some(action) => {
                            let args = match find(pairs, "args") {
                                Some(args) => Some(to_json(args)),
                                None => None,
                            };
                            Ok(Outcome::DispatchAction { action, args })
                        },
                    },
                }
            } else if same_text(name.as_str(), "run_command") {
                match decode_command(pairs) {
                    Ok((command, args)) => Ok(Outcome::RunCommand { command, args }),
                    Err(error) => Err(error),
                }
            } else {
                Err(unknown_name(name.as_str(), OUTCOME_TYPES).under("type"))
            },
        },
        TomlValue::Array(items) => match find_tag(items) {
            Err(error) => Err(error),
            Ok(name) => if same_text(name.as_str(), "open_path") {
                match decode_listed_path(items) {
                    Ok(path) => Ok(Outcome::OpenPath { path }),
                    Err(error) => Err(error),
                }
            } else if same_text(name.as_str(), "open_path_at_position") {
                match decode_listed_path(items) {
                    Ok(path) => Ok(Outcome::OpenPathAtPosition { path }),
                    Err(error) => Err(error),
                }
            } else if same_text(name.as_str(), "dispatch_action") {
                match decode_listed_action(items) {
                    Ok((action, args)) => Ok(Outcome::DispatchAction { action, args }),
                    Err(error) => Err(error),
                }
            } else if same_text(name.as_str(), "run_command") {
                match decode_listed_command(
                    items,
                    "struct variant Outcome::RunCommand with 2 elements",
                ) {
                    Ok((command, args)) => Ok(Outcome::RunCommand { command, args }),
                    Err(error) => Err(error),
                }
            } else {
                Err(unknown_name(name.as_str(), OUTCOME_TYPES))
            },
        },
        _ => Err(wrong_type(value, "internally tagged enum Outcome")),
    }
}

/// A Preview out of a table, or out of a list that holds its `type` alone.
pub open spec fn decoded_preview(value: crate::document::TomlView) -> Result<
    Preview,
    DecodeErrorView,
> {
    match value {
        crate::document::TomlView::Table(pairs) => match type_of(pairs) {
            Err(error) => Err(error),
            Ok(name) => if name == "path"@ {
                match shape_error(Shape::Bare, pairs) {
                    Some(error) => Err(error),
                    None => Ok(Preview::Path),
                }
            } else {
                Err(unknown_variant(name, "`path`"@).under("type"@))
            },
        },
        crate::document::TomlView::Array(items) => match tag_of(items) {
            Err(error) => Err(error),
            Ok(name) => if name != "path"@ {
                Err(unknown_variant(name, "`path`"@))
            } else if items.len() > 1 {
                Err(invalid_length((items.len() - 1) as nat, "0 elements in sequence"@))
            } else {
                Ok(Preview::Path)
            },
        },
        _ => Err(invalid_type(value, "internally tagged enum Preview"@)),
    }
}

/// Reads a Preview.
pub fn decode_preview(value: &TomlValue) -> (out: Result<Preview, DecodeError>)
    ensures
        crate::model::result_view(out) == decoded_preview(value.model()),
{
    proof {
        lemma_contents(*value);
    }
    match value {
        TomlValue::Table(pairs) => match find_type(pairs) {
            Err(error) => Err(error),
            Ok(name) => if same_text(name.as_str(), "path") {
                match check_shape(Shape::Bare, pairs) {
                    Some(error) => Err(error),
                    None => Ok(Preview::Path),
                }
            } else {
                Err(unknown_name(name.as_str(), "`path`").under("type"))
            },
        },
        TomlValue::Array(items) => match find_tag(items) {
            Err(error) => Err(error),
            Ok(name) => if !same_text(name.as_str(), "path") {
                Err(unknown_name(name.as_str(), "`path`"))
            } else if items.len() > 1 {
                Err(wrong_length(items.len() - 1, "0 elements in sequence"))
            } else {
                Ok(Preview::Path)
            },
        },
        _ => Err(wrong_type(value, "internally tagged enum Preview")),
    }
}

/// Where commands run, out of its name.
pub open spec fn named_run_on(name: Seq<char>) -> Result<RunOn, DecodeErrorView> {
    if name == "auto"@ {
        Ok(RunOn::Auto)
    } else if name == "local"@ {
        Ok(RunOn::Local)
    } else {
        Err(unknown_variant(name, "`auto` or `local`"@))
    }
}

fn find_run_on(name: &str) -> (out: Result<RunOn, DecodeError>)
    ensures
        crate::model::result_view(out) == named_run_on(name@),
{
    if same_text(name, "auto") {
        Ok(RunOn::Auto)
    } else if same_text(name, "local") {
        Ok(RunOn::Local)
    } else {
        Err(unknown_name(name, "`auto` or `local`"))
    }
}

/// What is wrong with the value under the name of an alternative that holds
/// nothing.
pub open spec fn empty_error(value: crate::document::TomlView) -> Option<DecodeErrorView> {
    match value {
        crate::document::TomlView::Array(items) => if items.len() == 0 {
            None
        } else {
            Some(plain_error("expected empty array"@))
        },
        crate::document::TomlView::Table(pairs) => if pairs.len() == 0 {
            None
        } else {
            Some(plain_error("expected empty table"@))
        },
        crate::document::TomlView::Text(_) => Some(plain_error("expected table, found string"@)),
        crate::document::TomlView::Integer(_) => Some(
            plain_error("expected table, found integer"@),
        ),
        crate::document::TomlView::Float { .. } => Some(
            plain_error("expected table, found float"@),
        ),
        crate::document::TomlView::Boolean(_) => Some(
            plain_error("expected table, found boolean"@),
        ),
        crate::document::TomlView::Datetime(_) => Some(
            plain_error("expected table, found datetime"@),
        ),
    }
}

fn check_empty(value: &TomlValue) -> (error: Option<DecodeError>)
    ensures
        error.deep_view() == empty_error(value.model()),
{
    let message = match value {
        TomlValue::Array(items) => if items.len() == 0 {
            return None;
        } else {
            "expected empty array"
        },
        TomlValue::Table(pairs) => if pairs.len() == 0 {
            return None;
        } else {
            "expected empty table"
        },
        TomlValue::Text(_) => "expected table, found string",
        TomlValue::Integer(_) => "expected table, found integer",
        TomlValue::Float { .. } => "expected table, found float",
        TomlValue::Boolean(_) => "expected table, found boolean",
        TomlValue::Datetime(_) => "expected table, found datetime",
    };
    Some(plain(message.to_owned()))
}

/// Where commands run: a name, or a table whose one key is the name and holds
/// nothing.
pub open spec fn decoded_run_on(value: crate::document::TomlView) -> Result<
    RunOn,
    DecodeErrorView,
> {
    match value {
        crate::document::TomlView::Text(name) => named_run_on(name),
        crate::document::TomlView::Table(pairs) => if pairs.len() == 0 {
            Err(plain_error("wanted exactly 1 element, found 0 elements"@))
        } else if pairs.len() > 1 {
            Err(plain_error("wanted exactly 1 element, more than 1 element"@))
        } else {
            match (named_run_on(pairs[0].0), empty_error(pairs[0].1)) {
                (Err(error), _) => Err(error),
                (_, Some(error)) => Err(error),
                (Ok(run_on), None) => Ok(run_on),
            }
        },
        _ => Err(plain_error("invalid type: unit variant, expected string only"@)),
    }
}

/// Reads where commands run.
pub fn decode_run_on(value: &TomlValue) -> (out: Result<RunOn, DecodeError>)
    ensures
        crate::model::result_view(out) == decoded_run_on(value.model()),
{
    proof {
        lemma_contents(*value);
    }
    match value {
        TomlValue::Text(name) => find_run_on(name.as_str()),
        TomlValue::Table(pairs) => if pairs.len() == 0 {
            Err(plain("wanted exactly 1 element, found 0 elements".to_owned()))
        } else if pairs.len() > 1 {
            Err(plain("wanted exactly 1 element, more than 1 element".to_owned()))
        } else {
            match find_run_on(pairs[0].0.as_str()) {
                Err(error) => Err(error),
                Ok(run_on) => match check_empty(&pairs[0].1) {
                    Some(error) => Err(error),
                    None => Ok(run_on),
                },
            }
        },
        _ => Err(plain("invalid type: unit variant, expected string only".to_owned())),
    }
}

// ---------------------------------------------------------------------------
// Laws
// ---------------------------------------------------------------------------
/// A table that is accepted holds, beside its `type`, only keys that belong
/// there, each with a value of its kind.
pub proof fn law_accepted_keys_belong(
    shape: Shape,
    pairs: Seq<(Seq<char>, crate::document::TomlView)>,
)
    requires
        shape_error(shape, pairs) is None,
    ensures
        forall|i: int|
            0 <= i < pairs.len() ==> (#[trigger] pairs[i]).0 == "type"@ || (shape.kind(
                pairs[i].0,
            ) matches Some(kind) && kind_error(kind, pairs[i].1) is None),
    decreases pairs.len(),
{
    if pairs.len() > 0 {
        law_accepted_keys_belong(shape, pairs.skip(1));
        assert forall|i: int| 0 <= i < pairs.len() implies (#[trigger] pairs[i]).0 == "type"@ || (
        shape.kind(pairs[i].0) matches Some(kind) && kind_error(kind, pairs[i].1) is None) by {
            if i > 0 {
                assert(pairs[i] == pairs.skip(1)[i - 1]);
            }
        }
    }
}

/// A table with a key that does not belong there is refused.
pub proof fn law_unknown_key_is_refused(
    shape: Shape,
    pairs: Seq<(Seq<char>, crate::document::TomlView)>,
    i: int,
)
    requires
        0 <= i < pairs.len(),
        pairs[i].0 != "type"@,
        shape.kind(pairs[i].0) is None,
    ensures
        shape_error(shape, pairs) is Some,
{
    if shape_error(shape, pairs) is None {
        law_accepted_keys_belong(shape, pairs);
        assert(pairs[i].0 == "type"@ || shape.kind(pairs[i].0) is Some);
    }
}

/// A Source with a key that does not belong in one is refused.
pub proof fn law_unknown_source_key_is_refused(
    pairs: Seq<(Seq<char>, crate::document::TomlView)>,
    i: int,
)
    requires
        0 <= i < pairs.len(),
        pairs[i].0 != "type"@,
        pairs[i].0 != "command"@,
        pairs[i].0 != "args"@,
    ensures
        decoded_source(crate::document::TomlView::Table(pairs)) is Err,
{
    law_unknown_key_is_refused(Shape::Command, pairs, i);
}

/// An Outcome with a key that belongs in none is refused.
pub proof fn law_unknown_outcome_key_is_refused(
    pairs: Seq<(Seq<char>, crate::document::TomlView)>,
    i: int,
)
    requires
        0 <= i < pairs.len(),
        pairs[i].0 != "type"@,
        pairs[i].0 != "path"@,
        pairs[i].0 != "action"@,
        pairs[i].0 != "command"@,
        pairs[i].0 != "args"@,
    ensures
        decoded_outcome(crate::document::TomlView::Table(pairs)) is Err,
{
    law_unknown_key_is_refused(Shape::Path, pairs, i);
    law_unknown_key_is_refused(Shape::Action, pairs, i);
    law_unknown_key_is_refused(Shape::Command, pairs, i);
}

/// A Preview holds nothing but its `type`.
pub proof fn law_unknown_preview_key_is_refused(
    pairs: Seq<(Seq<char>, crate::document::TomlView)>,
    i: int,
)
    requires
        0 <= i < pairs.len(),
        pairs[i].0 != "type"@,
    ensures
        decoded_preview(crate::document::TomlView::Table(pairs)) is Err,
{
    law_unknown_key_is_refused(Shape::Bare, pairs, i);
}

/// The name that a value gives for where commands run: its text, or the one
/// key of a table under which nothing stands.
pub open spec fn run_on_name(value: crate::document::TomlView) -> Option<Seq<char>> {
    match value {
        crate::document::TomlView::Text(name) => Some(name),
        crate::document::TomlView::Table(pairs) => if pairs.len() == 1 && empty_error(pairs[0].1)
            is None {
            Some(pairs[0].0)
        } else {
            None
        },
        _ => None,
    }
}

/// Every value for where commands run is refused but those that give one of
/// the two names that there are.
pub proof fn law_run_on_has_two_names(value: crate::document::TomlView)
    ensures
        decoded_run_on(value) == Ok::<RunOn, DecodeErrorView>(RunOn::Auto) <==> run_on_name(value)
            == Some("auto"@),
        decoded_run_on(value) == Ok::<RunOn, DecodeErrorView>(RunOn::Local) <==> run_on_name(value)
            == Some("local"@),
{
    reveal_strlit("auto");
    reveal_strlit("local");
    assert("auto"@.len() == 4 && "local"@.len() == 5);
}

/// A list stands for the same Source as the table with its items under the
/// keys, in the order `type`, `command`, `args`.
pub proof fn law_listed_source_is_the_table(
    name: Seq<char>,
    command: Seq<char>,
    args: Seq<crate::document::TomlView>,
)
    ensures
        ({
            let name = crate::document::TomlView::Text(name);
            let command = crate::document::TomlView::Text(command);
            let args = crate::document::TomlView::Array(args);
            let listed = decoded_source(crate::document::TomlView::Array(seq![name, command, args]));
            let table = decoded_source(
                crate::document::TomlView::Table(
                    seq![("type"@, name), ("command"@, command), ("args"@, args)],
                ),
            );
            (listed is Ok <==> table is Ok) && (listed is Ok ==> listed == table)
        }),
{
    let name = crate::document::TomlView::Text(name);
    let command = crate::document::TomlView::Text(command);
    let args = crate::document::TomlView::Array(args);
    let pairs = seq![("type"@, name), ("command"@, command), ("args"@, args)];
    let tail = pairs.skip(1);
    let last = tail.skip(1);
    lemma_command_keys_differ();
    assert(pairs[0].0 == "type"@);
    assert(tail[0] == ("command"@, command));
    assert(last[0] == ("args"@, args));
    assert(last.skip(1).len() == 0);
    assert(field(pairs, "type"@) == Some(name));
    assert(field(tail, "command"@) == Some(command));
    assert(field(pairs, "command"@) == Some(command));
    assert(field(last, "args"@) == Some(args));
    assert(field(tail, "args"@) == Some(args));
    assert(field(pairs, "args"@) == Some(args));
    assert(pair_error(Shape::Command, pairs[0]) is None);
    assert(pair_error(Shape::Command, tail[0]) is None);
    assert(shape_error(Shape::Command, last.skip(1)) is None);
    assert(shape_error(Shape::Command, last) == pair_error(Shape::Command, last[0]));
    assert(shape_error(Shape::Command, tail) == shape_error(Shape::Command, last));
    assert(shape_error(Shape::Command, pairs) == shape_error(Shape::Command, tail));
}

proof fn lemma_command_keys_differ()
    ensures
        "type"@ != "command"@,
        "type"@ != "args"@,
        "command"@ != "args"@,
{
    reveal_strlit("type");
    reveal_strlit("command");
    reveal_strlit("args");
    assert("type"@[0] == 't');
    assert("command"@[0] == 'c');
    assert("args"@[0] == 'a');
}

/// A key stands for the value of the first pair that has it.
pub proof fn law_a_key_stands_for_its_first_value(
    key: Seq<char>,
    value: crate::document::TomlView,
    rest: Seq<(Seq<char>, crate::document::TomlView)>,
    other: Seq<char>,
)
    ensures
        field(Seq::empty(), key) is None,
        field(seq![(key, value)] + rest, key) == Some(value),
        other != key ==> field(seq![(key, value)] + rest, other) == field(rest, other),
{
    let pairs = seq![(key, value)] + rest;
    assert(pairs[0] == (key, value));
    assert(pairs.skip(1) == rest);
}

/// A text is read as what it holds, and so is a date or a time; no other value
/// is read as text.
pub proof fn law_texts_are_read_as_they_are(text: Seq<char>, value: crate::document::TomlView)
    ensures
        decoded_text(crate::document::TomlView::Text(text)) == Ok::<Seq<char>, DecodeErrorView>(
            text,
        ),
        decoded_text(crate::document::TomlView::Datetime(text)) == Ok::<Seq<char>, DecodeErrorView>(
            text,
        ),
        !(value is Text) && !(value is Datetime) ==> decoded_text(value) is Err && text_of(value)
            is None,
        text_of(crate::document::TomlView::Text(text)) == Some(text),
        text_of(crate::document::TomlView::Datetime(text)) == Some(text),
{
}

/// A list of texts is read item by item, in order and in full; where an item is
/// no text, the first such is the error.
pub proof fn law_lists_are_read_item_by_item(
    items: Seq<crate::document::TomlView>,
    item: crate::document::TomlView,
)
    ensures
        decoded_texts(crate::document::TomlView::Array(Seq::empty())) == Ok::<
            Seq<Seq<char>>,
            DecodeErrorView,
        >(Seq::empty()),
        decoded_texts(crate::document::TomlView::Array(items)) matches Err(error) ==> decoded_texts(
            crate::document::TomlView::Array(items.push(item)),
        ) == Err::<Seq<Seq<char>>, DecodeErrorView>(error),
        decoded_texts(crate::document::TomlView::Array(items)) matches Ok(texts) ==> (decoded_text(
            item,
        ) matches Ok(text) ==> decoded_texts(crate::document::TomlView::Array(items.push(item)))
            == Ok::<Seq<Seq<char>>, DecodeErrorView>(texts.push(text))),
        decoded_texts(crate::document::TomlView::Array(items)) is Ok ==> (decoded_text(item)
            matches Err(error) ==> decoded_texts(
            crate::document::TomlView::Array(items.push(item)),
        ) == Err::<Seq<Seq<char>>, DecodeErrorView>(error)),
{
    assert(items.push(item).drop_last() == items);
}

/// The arguments of an action keep their shape: text and dates are text, numbers
/// and truths themselves, lists and tables are read value by value, with the
/// keys as written.
pub proof fn law_json_keeps_its_shape(
    text: Seq<char>,
    n: i64,
    b: bool,
    items: Seq<crate::document::TomlView>,
    pairs: Seq<(Seq<char>, crate::document::TomlView)>,
)
    ensures
        json_of(crate::document::TomlView::Text(text)) == crate::json::JsonView::Text(text),
        json_of(crate::document::TomlView::Datetime(text)) == crate::json::JsonView::Text(text),
        json_of(crate::document::TomlView::Boolean(b)) == crate::json::JsonView::Bool(b),
        n >= 0 ==> json_of(crate::document::TomlView::Integer(n)) == crate::json::JsonView::Number(
            JsonNumber::PosInt(n as u64),
        ),
        n < 0 ==> json_of(crate::document::TomlView::Integer(n)) == crate::json::JsonView::Number(
            JsonNumber::NegInt(n),
        ),
        json_of(crate::document::TomlView::Array(items)) matches crate::json::JsonView::Array(out)
            && out.len() == items.len() && forall|i: int|
            0 <= i < items.len() ==> #[trigger] out[i] == json_of(items[i]),
        json_of(crate::document::TomlView::Table(pairs)) matches crate::json::JsonView::Object(out)
            && out.len() == pairs.len() && forall|i: int|
            0 <= i < pairs.len() ==> (#[trigger] out[i]).0 == pairs[i].0 && out[i].1 == json_of(
                pairs[i].1,
            ),
{
}

/// A float is a number by its bits where it is finite, and nothing where it is
/// not.
pub proof fn law_json_floats_are_finite(bits: u64, text: Seq<char>)
    ensures
        (bits / 0x10_0000_0000_0000) % 2048 != 2047 ==> json_of(
            crate::document::TomlView::Float { bits, text },
        ) == crate::json::JsonView::Number(JsonNumber::Float(bits)),
        (bits / 0x10_0000_0000_0000) % 2048 == 2047 ==> json_of(
            crate::document::TomlView::Float { bits, text },
        ) is Null,
{
}

/// What is read of a Source is what is written: its type decides its kind, its
/// command and its arguments are those of its table, and without arguments it
/// has none.
pub proof fn law_source_is_read_as_written(
    pairs: Seq<(Seq<char>, crate::document::TomlView)>,
    source: crate::config::SourceView,
)
    requires
        decoded_source(crate::document::TomlView::Table(pairs)) == Ok::<
            crate::config::SourceView,
            DecodeErrorView,
        >(source),
    ensures
        field(pairs, "type"@) matches Some(tag) && (source is Command <==> text_of(tag) == Some(
            "command"@,
        )) && (source is Query <==> text_of(tag) == Some("query"@)),
        field(pairs, "command"@) matches Some(command) && text_of(command) == Some(source.command()),
        match field(pairs, "args"@) {
            Some(args) => decoded_texts(args) == Ok::<Seq<Seq<char>>, DecodeErrorView>(
                source.args(),
            ),
            None => source.args().len() == 0,
        },
{
    reveal_strlit("command");
    reveal_strlit("query");
    assert("command"@.len() == 7 && "query"@.len() == 5);
    lemma_command_keys_differ();
    lemma_checked_field(Shape::Command, pairs, "args"@);
}

proof fn lemma_checked_field(
    shape: Shape,
    pairs: Seq<(Seq<char>, crate::document::TomlView)>,
    key: Seq<char>,
)
    requires
        shape_error(shape, pairs) is None,
        key != "type"@,
    ensures
        field(pairs, key) matches Some(value) ==> pair_error(shape, (key, value)) is None,
    decreases pairs.len(),
{
    if pairs.len() > 0 && pairs[0].0 != key {
        lemma_checked_field(shape, pairs.skip(1), key);
    }
}

/// What is read of an Outcome is what is written: its type decides its kind, and
/// its path, action, command and arguments are those of its table, each there
/// or not as in it.
pub proof fn law_outcome_is_read_as_written(
    pairs: Seq<(Seq<char>, crate::document::TomlView)>,
    outcome: crate::config::OutcomeView,
)
    requires
        decoded_outcome(crate::document::TomlView::Table(pairs)) == Ok::<
            crate::config::OutcomeView,
            DecodeErrorView,
        >(outcome),
    ensures
        field(pairs, "type"@) matches Some(tag) && text_of(tag) == Some(
            match outcome {
                crate::config::OutcomeView::OpenPath { .. } => "open_path"@,
                crate::config::OutcomeView::OpenPathAtPosition { .. } => "open_path_at_position"@,
                crate::config::OutcomeView::DispatchAction { .. } => "dispatch_action"@,
                crate::config::OutcomeView::RunCommand { .. } => "run_command"@,
            },
        ),
        match outcome {
            crate::config::OutcomeView::OpenPath { path }
            | crate::config::OutcomeView::OpenPathAtPosition { path } => match field(
                pairs,
                "path"@,
            ) {
                Some(written) => path is Some && text_of(written) == path,
                None => path is None,
            },
            crate::config::OutcomeView::DispatchAction { action, args } => (field(
                pairs,
                "action"@,
            ) matches Some(written) && text_of(written) == Some(action)) && (match field(
                pairs,
                "args"@,
            ) {
                Some(written) => args == Some(json_of(written)),
                None => args is None,
            }),
            crate::config::OutcomeView::RunCommand { command, args } => (field(
                pairs,
                "command"@,
            ) matches Some(written) && text_of(written) == Some(command)) && (match field(
                pairs,
                "args"@,
            ) {
                Some(written) => decoded_texts(written) == Ok::<Seq<Seq<char>>, DecodeErrorView>(
                    args,
                ),
                None => args.len() == 0,
            }),
        },
{
    lemma_command_keys_differ();
    reveal_strlit("path");
    assert("path"@[0] == 'p');
    reveal_strlit("type");
    assert("type"@[0] == 't');
    if shape_error(Shape::Command, pairs) is None {
        lemma_checked_field(Shape::Command, pairs, "args"@);
    }
    if shape_error(Shape::Path, pairs) is None {
        lemma_checked_field(Shape::Path, pairs, "path"@);
    }
}

/// A table whose keys all belong there, each with a value of its kind, and that
/// holds what has to be there, is a Source.
pub proof fn law_good_source_is_accepted(
    pairs: Seq<(Seq<char>, crate::document::TomlView)>,
)
    requires
        field(pairs, "type"@) matches Some(tag) && (text_of(tag) == Some("command"@) || text_of(tag)
            == Some("query"@)),
        field(pairs, "command"@) is Some,
        forall|i: int|
            0 <= i < pairs.len() ==> {
                ||| (#[trigger] pairs[i]).0 == "type"@
                ||| pairs[i].0 == "command"@ && text_of(pairs[i].1) is Some
                ||| pairs[i].0 == "args"@ && decoded_texts(pairs[i].1) is Ok
            },
    ensures
        decoded_source(crate::document::TomlView::Table(pairs)) is Ok,
{
    lemma_command_keys_differ();
    assert forall|i: int| 0 <= i < pairs.len() implies pair_error(
        Shape::Command,
        #[trigger] pairs[i],
    ) is None by {}
    lemma_no_pair_error(Shape::Command, pairs);
    lemma_checked_field(Shape::Command, pairs, "command"@);
}

proof fn lemma_no_pair_error(shape: Shape, pairs: Seq<(Seq<char>, crate::document::TomlView)>)
    requires
        forall|i: int|
            0 <= i < pairs.len() ==> pair_error(shape, #[trigger] pairs[i]) is None,
    ensures
        shape_error(shape, pairs) is None,
    decreases pairs.len(),
{
    if pairs.len() > 0 {
        let rest = pairs.skip(1);
        assert(pair_error(shape, pairs[0]) is None);
        assert forall|i: int| 0 <= i < rest.len() implies pair_error(
            shape,
            #[trigger] rest[i],
        ) is None by {
            assert(rest[i] == pairs[i + 1]);
        }
        lemma_no_pair_error(shape, rest);
    }
}

/// A table whose keys all belong there, each with a value of its kind, and that
/// holds what has to be there, is an Outcome.
pub proof fn law_good_outcome_is_accepted(
    pairs: Seq<(Seq<char>, crate::document::TomlView)>,
    kind: Seq<char>,
)
    requires
        field(pairs, "type"@) matches Some(tag) && text_of(tag) == Some(kind),
        kind == "open_path"@ || kind == "open_path_at_position"@ ==> forall|i: int|
            0 <= i < pairs.len() ==> {
                ||| (#[trigger] pairs[i]).0 == "type"@
                ||| pairs[i].0 == "path"@ && text_of(pairs[i].1) is Some
            },
        kind == "dispatch_action"@ ==> field(pairs, "action"@) is Some && forall|i: int|
            0 <= i < pairs.len() ==> {
                ||| (#[trigger] pairs[i]).0 == "type"@
                ||| pairs[i].0 == "action"@ && text_of(pairs[i].1) is Some
                ||| pairs[i].0 == "args"@
            },
        kind == "run_command"@ ==> field(pairs, "command"@) is Some && forall|i: int|
            0 <= i < pairs.len() ==> {
                ||| (#[trigger] pairs[i]).0 == "type"@
                ||| pairs[i].0 == "command"@ && text_of(pairs[i].1) is Some
                ||| pairs[i].0 == "args"@ && decoded_texts(pairs[i].1) is Ok
            },
        kind == "open_path"@ || kind == "open_path_at_position"@ || kind == "dispatch_action"@
            || kind == "run_command"@,
    ensures
        decoded_outcome(crate::document::TomlView::Table(pairs)) is Ok,
{
    lemma_command_keys_differ();
    lemma_outcome_names_differ();
    reveal_strlit("action");
    assert("action"@.len() == 6);
    reveal_strlit("args");
    assert("args"@.len() == 4);
    reveal_strlit("type");
    assert("type"@.len() == 4);
    reveal_strlit("command");
    assert("command"@.len() == 7);
    let shape = if kind == "dispatch_action"@ {
        Shape::Action
    } else if kind == "run_command"@ {
        Shape::Command
    } else {
        Shape::Path
    };
    assert forall|i: int| 0 <= i < pairs.len() implies pair_error(
        shape,
        #[trigger] pairs[i],
    ) is None by {}
    lemma_no_pair_error(shape, pairs);
    lemma_checked_field(shape, pairs, "command"@);
    lemma_checked_field(shape, pairs, "action"@);
}

proof fn lemma_outcome_names_differ()
    ensures
        "open_path"@ != "open_path_at_position"@,
        "open_path"@ != "dispatch_action"@,
        "open_path"@ != "run_command"@,
        "open_path_at_position"@ != "dispatch_action"@,
        "open_path_at_position"@ != "run_command"@,
        "dispatch_action"@ != "run_command"@,
{
    reveal_strlit("open_path");
    reveal_strlit("open_path_at_position");
    reveal_strlit("dispatch_action");
    reveal_strlit("run_command");
    assert("open_path"@.len() == 9);
    assert("open_path_at_position"@.len() == 21);
    assert("dispatch_action"@.len() == 15);
    assert("run_command"@.len() == 11);
}

/// A Preview is read exactly where its type says `path` and nothing else is
/// written.
pub proof fn law_preview_is_its_type(pairs: Seq<(Seq<char>, crate::document::TomlView)>)
    ensures
        decoded_preview(crate::document::TomlView::Table(pairs)) is Ok <==> (field(pairs, "type"@)
            matches Some(tag) && text_of(tag) == Some("path"@)) && forall|i: int|
            0 <= i < pairs.len() ==> (#[trigger] pairs[i]).0 == "type"@,
{
    if shape_error(Shape::Bare, pairs) is None {
        law_accepted_keys_belong(Shape::Bare, pairs);
    }
    if forall|i: int| 0 <= i < pairs.len() ==> (#[trigger] pairs[i]).0 == "type"@ {
        assert forall|i: int| 0 <= i < pairs.len() implies pair_error(
            Shape::Bare,
            #[trigger] pairs[i],
        ) is None by {}
        lemma_no_pair_error(Shape::Bare, pairs);
    }
}

/// Anything but a table or a list is neither a Source, an Outcome nor a Preview.
pub proof fn law_scalars_are_not_tagged(value: crate::document::TomlView)
    requires
        !(value is Table) && !(value is Array),
    ensures
        decoded_source(value) == Err::<crate::config::SourceView, DecodeErrorView>(
            invalid_type(value, "internally tagged enum Source"@),
        ),
        decoded_outcome(value) == Err::<crate::config::OutcomeView, DecodeErrorView>(
            invalid_type(value, "internally tagged enum Outcome"@),
        ),
        decoded_preview(value) == Err::<Preview, DecodeErrorView>(
            invalid_type(value, "internally tagged enum Preview"@),
        ),
{
}

/// A list stands for the same Outcome as the table with its items under the
/// keys, in the order in which the keys are told.
pub proof fn law_listed_outcome_is_as_written(
    first: crate::document::TomlView,
    second: crate::document::TomlView,
)
    ensures
        ({
            let text = |s: Seq<char>| crate::document::TomlView::Text(s);
            let list = |items: Seq<crate::document::TomlView>| decoded_outcome(
                crate::document::TomlView::Array(items),
            );
            let first_text = text_of(first);
            let args = decoded_texts(second);
            &&& list(seq![text("open_path"@)]) == Ok::<crate::config::OutcomeView, DecodeErrorView>(
                crate::config::OutcomeView::OpenPath { path: None },
            )
            &&& list(seq![text("open_path_at_position"@)]) == Ok::<
                crate::config::OutcomeView,
                DecodeErrorView,
            >(crate::config::OutcomeView::OpenPathAtPosition { path: None })
            &&& first_text is Some ==> {
                &&& list(seq![text("open_path"@), first]) == Ok::<
                    crate::config::OutcomeView,
                    DecodeErrorView,
                >(crate::config::OutcomeView::OpenPath { path: first_text })
                &&& list(seq![text("open_path_at_position"@), first]) == Ok::<
                    crate::config::OutcomeView,
                    DecodeErrorView,
                >(crate::config::OutcomeView::OpenPathAtPosition { path: first_text })
                &&& list(seq![text("dispatch_action"@), first]) == Ok::<
                    crate::config::OutcomeView,
                    DecodeErrorView,
                >(crate::config::OutcomeView::DispatchAction { action: first_text->0, args: None })
                &&& list(seq![text("dispatch_action"@), first, second]) == Ok::<
                    crate::config::OutcomeView,
                    DecodeErrorView,
                >(
                    crate::config::OutcomeView::DispatchAction {
                        action: first_text->0,
                        args: Some(json_of(second)),
                    },
                )
                &&& list(seq![text("run_command"@), first]) == Ok::<
                    crate::config::OutcomeView,
                    DecodeErrorView,
                >(
                    crate::config::OutcomeView::RunCommand {
                        command: first_text->0,
                        args: Seq::empty(),
                    },
                )
                &&& args is Ok ==> list(seq![text("run_command"@), first, second]) == Ok::<
                    crate::config::OutcomeView,
                    DecodeErrorView,
                >(
                    crate::config::OutcomeView::RunCommand {
                        command: first_text->0,
                        args: args->Ok_0,
                    },
                )
            }
            &&& first_text is None ==> {
                &&& list(seq![text("open_path"@), first]) is Err
                &&& list(seq![text("open_path_at_position"@), first]) is Err
                &&& list(seq![text("dispatch_action"@), first]) is Err
                &&& list(seq![text("run_command"@), first]) is Err
            }
        }),
{
    lemma_outcome_names_differ();
}

/// A list that is too long stands for nothing, and neither does one without a
/// tag.
pub proof fn law_lists_have_their_length(items: Seq<crate::document::TomlView>)
    ensures
        items.len() == 0 || items.len() > 3 ==> decoded_source(
            crate::document::TomlView::Array(items),
        ) is Err && decoded_outcome(crate::document::TomlView::Array(items)) is Err,
        items.len() != 1 ==> decoded_preview(crate::document::TomlView::Array(items)) is Err,
        items.len() == 1 ==> (decoded_preview(crate::document::TomlView::Array(items)) is Ok <==>
            text_of(items[0]) == Some("path"@)),
{
}

/// The messages name what was found and what was expected.
pub proof fn law_messages_name_both(
    value: crate::document::TomlView,
    key: Seq<char>,
    expected: Seq<char>,
    len: nat,
)
    ensures
        invalid_type(value, expected).message == "invalid type: "@ + described(value)
            + ", expected "@ + expected,
        unknown_field(key, expected).message == "unknown field `"@ + key + "`, "@ + expected,
        missing_field(key).message == "missing field `"@ + key + "`"@,
        unknown_variant(key, expected).message == "unknown variant `"@ + key + "`, expected "@
            + expected,
        invalid_length(len, expected).message == "invalid length "@ + crate::text::digits(len)
            + ", expected "@ + expected,
        invalid_type(value, expected).path.len() == 0,
        unknown_field(key, expected).path.len() == 0,
        missing_field(key).path.len() == 0,
        unknown_variant(key, expected).path.len() == 0,
        invalid_length(len, expected).path.len() == 0,
{
}

/// A value is called in a message by its kind and, where that is short, by
/// itself.
pub proof fn law_values_are_called_by_their_kind(
    n: i64,
    text: Seq<char>,
    bits: u64,
    items: Seq<crate::document::TomlView>,
    pairs: Seq<(Seq<char>, crate::document::TomlView)>,
)
    ensures
        described(crate::document::TomlView::Integer(n)) == "integer `"@ + crate::text::decimal(
            n as int,
        ) + "`"@,
        described(crate::document::TomlView::Boolean(true)) == "boolean `true`"@,
        described(crate::document::TomlView::Boolean(false)) == "boolean `false`"@,
        described(crate::document::TomlView::Array(items)) == "sequence"@,
        described(crate::document::TomlView::Table(pairs)) == "map"@,
        described(crate::document::TomlView::Text(text)) == described_string(text),
        described(crate::document::TomlView::Datetime(text)) == described_string(text),
        crate::text::has_occurrence(text, "."@) ==> described(
            crate::document::TomlView::Float { bits, text },
        ) == "floating point `"@ + text + "`"@,
        !is_finite(bits) ==> described(crate::document::TomlView::Float { bits, text })
            == "floating point `"@ + text + "`"@,
        is_finite(bits) && !crate::text::has_occurrence(text, "."@) ==> described(
            crate::document::TomlView::Float { bits, text },
        ) == "floating point `"@ + (text + ".0"@) + "`"@,
{
}

/// An error is told by its message and by the keys that lead to it, outermost
/// first.
pub proof fn law_errors_are_told_with_their_path(error: DecodeErrorView, key: Seq<char>)
    ensures
        error.path.len() == 0 ==> error.text() == error.message + "\n"@,
        error.path.len() > 0 ==> error.text() == error.message + "\n"@ + "in `"@
            + crate::text::join(error.path, "."@) + "`\n"@,
        error.under(key).message == error.message,
        error.under(key).path == seq![key] + error.path,
{
}

proof fn lemma_first_pair_error(
    shape: Shape,
    front: Seq<(Seq<char>, crate::document::TomlView)>,
    pair: (Seq<char>, crate::document::TomlView),
    rest: Seq<(Seq<char>, crate::document::TomlView)>,
)
    requires
        forall|i: int| 0 <= i < front.len() ==> pair_error(shape, #[trigger] front[i]) is None,
        pair_error(shape, pair) is Some,
    ensures
        shape_error(shape, front + seq![pair] + rest) == pair_error(shape, pair),
    decreases front.len(),
{
    let all = front + seq![pair] + rest;
    if front.len() == 0 {
        assert(all[0] == pair);
    } else {
        assert(all[0] == front[0]);
        assert(pair_error(shape, front[0]) is None);
        let tail = front.skip(1);
        assert(all.skip(1) == tail + seq![pair] + rest);
        assert forall|i: int| 0 <= i < tail.len() implies pair_error(
            shape,
            #[trigger] tail[i],
        ) is None by {
            assert(tail[i] == front[i + 1]);
        }
        lemma_first_pair_error(shape, tail, pair, rest);
    }
}

/// The first pair of a Source's table that is wrong is what is reported of it,
/// whatever comes behind.
pub proof fn law_first_wrong_pair_of_a_source(
    front: Seq<(Seq<char>, crate::document::TomlView)>,
    key: Seq<char>,
    value: crate::document::TomlView,
    rest: Seq<(Seq<char>, crate::document::TomlView)>,
)
    requires
        ({
            let pairs = front + seq![(key, value)] + rest;
            field(pairs, "type"@) matches Some(tag) && (text_of(tag) == Some("command"@) || text_of(
                tag,
            ) == Some("query"@))
        }),
        forall|i: int|
            0 <= i < front.len() ==> {
                ||| (#[trigger] front[i]).0 == "type"@
                ||| front[i].0 == "command"@ && text_of(front[i].1) is Some
                ||| front[i].0 == "args"@ && decoded_texts(front[i].1) is Ok
            },
    ensures
        ({
            let out = decoded_source(
                crate::document::TomlView::Table(front + seq![(key, value)] + rest),
            );
            &&& key == "command"@ && text_of(value) is None ==> out == Err::<
                crate::config::SourceView,
                DecodeErrorView,
            >(invalid_type(value, "a string"@))
            &&& key == "args"@ && !(value is Array) ==> out == Err::<
                crate::config::SourceView,
                DecodeErrorView,
            >(invalid_type(value, "a sequence"@))
            &&& key == "args"@ && decoded_texts(value) is Err ==> out == Err::<
                crate::config::SourceView,
                DecodeErrorView,
            >(decoded_texts(value)->Err_0)
            &&& key != "type"@ && key != "command"@ && key != "args"@ ==> out == Err::<
                crate::config::SourceView,
                DecodeErrorView,
            >(unknown_field(key, "expected `command` or `args`"@))
        }),
{
    lemma_command_keys_differ();
    assert forall|i: int| 0 <= i < front.len() implies pair_error(
        Shape::Command,
        #[trigger] front[i],
    ) is None by {}
    if pair_error(Shape::Command, (key, value)) is Some {
        lemma_first_pair_error(Shape::Command, front, (key, value), rest);
    }
}

/// A Source needs a type that there is and, where nothing else is wrong, a
/// command.
pub proof fn law_what_a_source_needs(pairs: Seq<(Seq<char>, crate::document::TomlView)>)
    ensures
        ({
            let out = decoded_source(crate::document::TomlView::Table(pairs));
            let tag = field(pairs, "type"@);
            &&& tag is None ==> out == Err::<crate::config::SourceView, DecodeErrorView>(
                missing_field("type"@),
            )
            &&& tag is Some && text_of(tag->0) is None ==> out == Err::<
                crate::config::SourceView,
                DecodeErrorView,
            >(invalid_type(tag->0, "variant identifier"@).under("type"@))
            &&& tag is Some && text_of(tag->0) is Some && text_of(tag->0) != Some("command"@)
                && text_of(tag->0) != Some("query"@) ==> out == Err::<
                crate::config::SourceView,
                DecodeErrorView,
            >(unknown_variant(text_of(tag->0)->0, "`command` or `query`"@).under("type"@))
            &&& field(pairs, "command"@) is None ==> out is Err
        }),
{
}

/// An Outcome needs a type that there is, and its command or action where it is
/// of that kind.
pub proof fn law_what_an_outcome_needs(pairs: Seq<(Seq<char>, crate::document::TomlView)>)
    ensures
        ({
            let out = decoded_outcome(crate::document::TomlView::Table(pairs));
            let tag = field(pairs, "type"@);
            &&& tag is None ==> out == Err::<crate::config::OutcomeView, DecodeErrorView>(
                missing_field("type"@),
            )
            &&& tag is Some && text_of(tag->0) is None ==> out == Err::<
                crate::config::OutcomeView,
                DecodeErrorView,
            >(invalid_type(tag->0, "variant identifier"@).under("type"@))
            &&& tag is Some && text_of(tag->0) == Some("run_command"@) && field(pairs, "command"@)
                is None ==> out is Err
            &&& tag is Some && text_of(tag->0) == Some("dispatch_action"@) && field(
                pairs,
                "action"@,
            ) is None ==> out is Err
            &&& tag is Some && text_of(tag->0) is Some && text_of(tag->0) != Some("open_path"@)
                && text_of(tag->0) != Some("open_path_at_position"@) && text_of(tag->0) != Some(
                "dispatch_action"@,
            ) && text_of(tag->0) != Some("run_command"@) ==> out == Err::<
                crate::config::OutcomeView,
                DecodeErrorView,
            >(
                unknown_variant(
                    text_of(tag->0)->0,
                    "one of `open_path`, `open_path_at_position`, `dispatch_action`, `run_command`"@,
                ).under("type"@),
            )
        }),
{
    lemma_outcome_names_differ();
}

/// The first pair of an Outcome's table that is wrong is what is reported of it,
/// whatever comes behind.
pub proof fn law_first_wrong_pair_of_an_outcome(
    kind: Seq<char>,
    front: Seq<(Seq<char>, crate::document::TomlView)>,
    key: Seq<char>,
    value: crate::document::TomlView,
    rest: Seq<(Seq<char>, crate::document::TomlView)>,
)
    requires
        field(front + seq![(key, value)] + rest, "type"@) matches Some(tag) && text_of(tag) == Some(
            kind,
        ),
        forall|i: int| 0 <= i < front.len() ==> (#[trigger] front[i]).0 == "type"@,
        key != "type"@,
    ensures
        ({
            let out = decoded_outcome(
                crate::document::TomlView::Table(front + seq![(key, value)] + rest),
            );
            &&& kind == "open_path"@ || kind == "open_path_at_position"@ ==> {
                &&& key != "path"@ ==> out == Err::<crate::config::OutcomeView, DecodeErrorView>(
                    unknown_field(key, "expected `path`"@),
                )
                &&& key == "path"@ && text_of(value) is None ==> out == Err::<
                    crate::config::OutcomeView,
                    DecodeErrorView,
                >(invalid_type(value, "a string"@))
            }
            &&& kind == "dispatch_action"@ ==> {
                &&& key != "action"@ && key != "args"@ ==> out == Err::<
                    crate::config::OutcomeView,
                    DecodeErrorView,
                >(unknown_field(key, "expected `action` or `args`"@))
                &&& key == "action"@ && text_of(value) is None ==> out == Err::<
                    crate::config::OutcomeView,
                    DecodeErrorView,
                >(invalid_type(value, "a string"@))
            }
            &&& kind == "run_command"@ ==> {
                &&& key != "command"@ && key != "args"@ ==> out == Err::<
                    crate::config::OutcomeView,
                    DecodeErrorView,
                >(unknown_field(key, "expected `command` or `args`"@))
                &&& key == "command"@ && text_of(value) is None ==> out == Err::<
                    crate::config::OutcomeView,
                    DecodeErrorView,
                >(invalid_type(value, "a string"@))
                &&& key == "args"@ && decoded_texts(value) is Err ==> out == Err::<
                    crate::config::OutcomeView,
                    DecodeErrorView,
                >(decoded_texts(value)->Err_0)
            }
        }),
{
    lemma_command_keys_differ();
    lemma_outcome_names_differ();
    let shape = if kind == "dispatch_action"@ {
        Shape::Action
    } else if kind == "run_command"@ {
        Shape::Command
    } else {
        Shape::Path
    };
    assert forall|i: int| 0 <= i < front.len() implies pair_error(
        shape,
        #[trigger] front[i],
    ) is None by {}
    if pair_error(shape, (key, value)) is Some {
        lemma_first_pair_error(shape, front, (key, value), rest);
    }
}

/// A table gives a policy exactly where it has one key, that is its name, and
/// the value is an empty table or list; what else it is, is told.
pub proof fn law_policy_tables_hold_nothing(
    pairs: Seq<(Seq<char>, crate::document::TomlView)>,
    value: crate::document::TomlView,
)
    ensures
        pairs.len() == 0 ==> decoded_run_on(crate::document::TomlView::Table(pairs)) == Err::<
            RunOn,
            DecodeErrorView,
        >(plain_error("wanted exactly 1 element, found 0 elements"@)),
        pairs.len() > 1 ==> decoded_run_on(crate::document::TomlView::Table(pairs)) == Err::<
            RunOn,
            DecodeErrorView,
        >(plain_error("wanted exactly 1 element, more than 1 element"@)),
        ({
            let out = decoded_run_on(crate::document::TomlView::Table(seq![("local"@, value)]));
            &&& out is Ok <==> (value matches crate::document::TomlView::Array(items) && items.len()
                == 0) || (value matches crate::document::TomlView::Table(held) && held.len() == 0)
            &&& out is Ok ==> out == Ok::<RunOn, DecodeErrorView>(RunOn::Local)
            &&& value is Array && out is Err ==> out->Err_0 == plain_error(
                "expected empty array"@,
            )
            &&& value is Table && out is Err ==> out->Err_0 == plain_error(
                "expected empty table"@,
            )
            &&& value is Text ==> out->Err_0 == plain_error("expected table, found string"@)
            &&& value is Integer ==> out->Err_0 == plain_error("expected table, found integer"@)
            &&& value is Float ==> out->Err_0 == plain_error("expected table, found float"@)
            &&& value is Boolean ==> out->Err_0 == plain_error("expected table, found boolean"@)
            &&& value is Datetime ==> out->Err_0 == plain_error("expected table, found datetime"@)
        }),
        !(value is Text) && !(value is Table) ==> decoded_run_on(value) == Err::<
            RunOn,
            DecodeErrorView,
        >(plain_error("invalid type: unit variant, expected string only"@)),
        value matches crate::document::TomlView::Text(name) ==> (name != "auto"@ && name
            != "local"@ ==> decoded_run_on(value) == Err::<RunOn, DecodeErrorView>(
            unknown_variant(name, "`auto` or `local`"@),
        )),
{
    reveal_strlit("auto");
    reveal_strlit("local");
    assert("auto"@.len() == 4 && "local"@.len() == 5);
}

/// A list is refused for its first wrong item: its tag, then what it has to
/// hold, then what it may hold, then its length.
pub proof fn law_first_wrong_item_of_a_source(items: Seq<crate::document::TomlView>)
    ensures
        ({
            let out = decoded_source(crate::document::TomlView::Array(items));
            let refused = |error: DecodeErrorView| out == Err::<
                crate::config::SourceView,
                DecodeErrorView,
            >(error);
            let tag = text_of(items[0]);
            let known = tag == Some("command"@) || tag == Some("query"@);
            &&& items.len() == 0 ==> refused(missing_field("type"@))
            &&& items.len() > 0 && tag is None ==> refused(
                invalid_type(items[0], "variant identifier"@),
            )
            &&& items.len() > 0 && tag is Some && !known ==> refused(
                unknown_variant(tag->0, "`command` or `query`"@),
            )
            &&& items.len() == 1 && tag == Some("command"@) ==> refused(
                invalid_length(0, "struct variant Source::Command with 2 elements"@),
            )
            &&& items.len() == 1 && tag == Some("query"@) ==> refused(
                invalid_length(0, "struct variant Source::Query with 2 elements"@),
            )
            &&& items.len() > 1 && known && text_of(items[1]) is None ==> refused(
                invalid_type(items[1], "a string"@),
            )
            &&& items.len() > 2 && known && text_of(items[1]) is Some && decoded_texts(items[2])
                is Err ==> refused(decoded_texts(items[2])->Err_0)
            &&& items.len() > 3 && known && text_of(items[1]) is Some && decoded_texts(items[2])
                is Ok ==> refused(
                invalid_length((items.len() - 1) as nat, "2 elements in sequence"@),
            )
            &&& out matches Ok(source) ==> known && items.len() >= 2 && (source is Query <==> tag
                == Some("query"@)) && Some(source.command()) == text_of(items[1]) && (items.len()
                == 2 ==> source.args().len() == 0) && (items.len() == 3 ==> decoded_texts(items[2])
                == Ok::<Seq<Seq<char>>, DecodeErrorView>(source.args()))
            &&& (items.len() == 2 || items.len() == 3 && decoded_texts(items[2]) is Ok) && known
                && text_of(items[1]) is Some ==> out is Ok
        }),
{
    reveal_strlit("command");
    reveal_strlit("query");
    assert("command"@.len() == 7 && "query"@.len() == 5);
}

/// A list is refused for its first wrong item: its tag, then what it has to
/// hold, then what it may hold, then its length.
pub proof fn law_first_wrong_item_of_an_outcome(items: Seq<crate::document::TomlView>)
    ensures
        ({
            let out = decoded_outcome(crate::document::TomlView::Array(items));
            let refused = |error: DecodeErrorView| out == Err::<
                crate::config::OutcomeView,
                DecodeErrorView,
            >(error);
            let tag = text_of(items[0]);
            let path = tag == Some("open_path"@) || tag == Some("open_path_at_position"@);
            let action = tag == Some("dispatch_action"@);
            let command = tag == Some("run_command"@);
            let known = path || action || command;
            &&& items.len() == 0 ==> refused(missing_field("type"@))
            &&& items.len() > 0 && tag is None ==> refused(
                invalid_type(items[0], "variant identifier"@),
            )
            &&& items.len() > 0 && tag is Some && !known ==> refused(
                unknown_variant(
                    tag->0,
                    "one of `open_path`, `open_path_at_position`, `dispatch_action`, `run_command`"@,
                ),
            )
            &&& items.len() == 1 && action ==> refused(
                invalid_length(0, "struct variant Outcome::DispatchAction with 2 elements"@),
            )
            &&& items.len() == 1 && command ==> refused(
                invalid_length(0, "struct variant Outcome::RunCommand with 2 elements"@),
            )
            &&& items.len() > 1 && known && text_of(items[1]) is None ==> refused(
                invalid_type(items[1], "a string"@),
            )
            &&& items.len() > 2 && path && text_of(items[1]) is Some ==> refused(
                invalid_length((items.len() - 1) as nat, "1 element in sequence"@),
            )
            &&& items.len() > 3 && action && text_of(items[1]) is Some ==> refused(
                invalid_length((items.len() - 1) as nat, "2 elements in sequence"@),
            )
            &&& items.len() > 2 && command && text_of(items[1]) is Some && decoded_texts(items[2])
                is Err ==> refused(decoded_texts(items[2])->Err_0)
            &&& items.len() > 3 && command && text_of(items[1]) is Some && decoded_texts(items[2])
                is Ok ==> refused(
                invalid_length((items.len() - 1) as nat, "2 elements in sequence"@),
            )
        }),
{
    lemma_outcome_names_differ();
}

/// A list that is no Preview is refused for its tag, else for its length.
pub proof fn law_first_wrong_item_of_a_preview(items: Seq<crate::document::TomlView>)
    ensures
        ({
            let out = decoded_preview(crate::document::TomlView::Array(items));
            let tag = text_of(items[0]);
            &&& items.len() == 0 ==> out == Err::<Preview, DecodeErrorView>(missing_field("type"@))
            &&& items.len() > 0 && tag is None ==> out == Err::<Preview, DecodeErrorView>(
                invalid_type(items[0], "variant identifier"@),
            )
            &&& items.len() > 0 && tag is Some && tag != Some("path"@) ==> out == Err::<
                Preview,
                DecodeErrorView,
            >(unknown_variant(tag->0, "`path`"@))
            &&& items.len() > 1 && tag == Some("path"@) ==> out == Err::<Preview, DecodeErrorView>(
                invalid_length((items.len() - 1) as nat, "0 elements in sequence"@),
            )
        }),
{
}

/// A Preview's table is refused for its type, else for its first key beside it.
pub proof fn law_first_wrong_pair_of_a_preview(
    front: Seq<(Seq<char>, crate::document::TomlView)>,
    key: Seq<char>,
    value: crate::document::TomlView,
    rest: Seq<(Seq<char>, crate::document::TomlView)>,
)
    requires
        forall|i: int| 0 <= i < front.len() ==> (#[trigger] front[i]).0 == "type"@,
        key != "type"@,
    ensures
        ({
            let pairs = front + seq![(key, value)] + rest;
            let out = decoded_preview(crate::document::TomlView::Table(pairs));
            let tag = field(pairs, "type"@);
            &&& tag is None ==> out == Err::<Preview, DecodeErrorView>(missing_field("type"@))
            &&& tag is Some && text_of(tag->0) is None ==> out == Err::<Preview, DecodeErrorView>(
                invalid_type(tag->0, "variant identifier"@).under("type"@),
            )
            &&& tag is Some && text_of(tag->0) is Some && text_of(tag->0) != Some("path"@) ==> out
                == Err::<Preview, DecodeErrorView>(
                unknown_variant(text_of(tag->0)->0, "`path`"@).under("type"@),
            )
            &&& tag is Some && text_of(tag->0) == Some("path"@) ==> out == Err::<
                Preview,
                DecodeErrorView,
            >(unknown_field(key, "there are no fields"@))
        }),
{
    assert forall|i: int| 0 <= i < front.len() implies pair_error(
        Shape::Bare,
        #[trigger] front[i],
    ) is None by {}
    lemma_first_pair_error(Shape::Bare, front, (key, value), rest);
}

} // verus!
