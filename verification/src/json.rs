//! JSON values, as the arguments of an action, and templates inside them.
use vstd::prelude::*;

use crate::template::{substitute, MissingField};

verus! {

/// A JSON number, kept as it was written: a non-negative integer, a negative
/// integer, or the bits of a double.
#[derive(Debug, Clone, Copy, PartialEq, Eq, Structural)]
pub enum JsonNumber {
    PosInt(u64),
    NegInt(i64),
    Float(u64),
}

/// A JSON value. The members of an object keep their order.
#[derive(Debug, PartialEq)]
pub enum Json {
    Null,
    Bool(bool),
    Number(JsonNumber),
    Text(String),
    Array(Vec<Json>),
    Object(Vec<(String, Json)>),
}

/// What a [`Json`] value is.
pub enum JsonView {
    Null,
    Bool(bool),
    Number(JsonNumber),
    Text(Seq<char>),
    Array(Seq<JsonView>),
    Object(Seq<(Seq<char>, JsonView)>),
}

impl Json {
    /// What the value is.
    pub open spec fn model(self) -> JsonView
        decreases self,
    {
        match self {
            Json::Null => JsonView::Null,
            Json::Bool(b) => JsonView::Bool(b),
            Json::Number(n) => JsonView::Number(n),
            Json::Text(s) => JsonView::Text(s@),
            Json::Array(items) => JsonView::Array(
                Seq::new(
                    items@.len(),
                    |i: int|
                        if 0 <= i < items@.len() {
                            items@[i].model()
                        } else {
                            arbitrary()
                        },
                ),
            ),
            Json::Object(members) => JsonView::Object(
                Seq::new(
                    members@.len(),
                    |i: int|
                        if 0 <= i < members@.len() {
                            (members@[i].0@, members@[i].1.model())
                        } else {
                            arbitrary()
                        },
                ),
            ),
        }
    }
}

impl DeepView for Json {
    type V = JsonView;

    open spec fn deep_view(&self) -> JsonView {
        self.model()
    }
}

impl Json {
    fn copy(&self) -> (out: Json)
        ensures
            out.model() == self.model(),
        decreases self,
    {
        match self {
            Json::Null => Json::Null,
            Json::Bool(b) => Json::Bool(*b),
            Json::Number(n) => Json::Number(*n),
            Json::Text(s) => Json::Text(s.clone()),
            Json::Array(items) => {
                let mut out: Vec<Json> = Vec::new();
                let mut i: usize = 0;
                while i < items.len()
                    invariant
                        self matches Json::Array(v) && v == items,
                        i <= items@.len(),
                        out@.len() == i,
                        forall|j: int| 0 <= j < i ==> (#[trigger] out@[j]).model() == items@[j].model(),
                    decreases items@.len() - i,
                {
                    out.push(items[i].copy());
                    i += 1;
                }
                let copy = Json::Array(out);
                assert(copy.model()->Array_0 =~= self.model()->Array_0);
                copy
            },
            Json::Object(members) => {
                let mut out: Vec<(String, Json)> = Vec::new();
                let mut i: usize = 0;
                while i < members.len()
                    invariant
                        self matches Json::Object(v) && v == members,
                        i <= members@.len(),
                        out@.len() == i,
                        forall|j: int|
                            0 <= j < i ==> (#[trigger] out@[j]).0@ == members@[j].0@ && out@[j].1.model()
                                == members@[j].1.model(),
                    decreases members@.len() - i,
                {
                    out.push((members[i].0.clone(), members[i].1.copy()));
                    i += 1;
                }
                let copy = Json::Object(out);
                assert(copy.model()->Object_0 =~= self.model()->Object_0);
                copy
            },
        }
    }
}

impl Clone for Json {
    fn clone(&self) -> (out: Json)
        ensures
            out.deep_view() == self.deep_view(),
    {
        self.copy()
    }
}

/// The value with the placeholders in all its strings replaced, at every
/// depth; the first Field that the Entry does not have is the error. The keys
/// of objects are not templates.
pub open spec fn substituted_json(
    value: JsonView,
    entry: Seq<char>,
    delimiter: Option<Seq<char>>,
) -> Result<JsonView, crate::template::MissingFieldView>
    decreases value,
{
    match value {
        JsonView::Text(text) => match crate::template::substituted(text, entry, delimiter) {
            Ok(text) => Ok(JsonView::Text(text)),
            Err(error) => Err(error),
        },
        JsonView::Array(items) => match substituted_items(items, entry, delimiter) {
            Ok(items) => Ok(JsonView::Array(items)),
            Err(error) => Err(error),
        },
        JsonView::Object(members) => match substituted_members(members, entry, delimiter) {
            Ok(members) => Ok(JsonView::Object(members)),
            Err(error) => Err(error),
        },
        other => Ok(other),
    }
}

/// Every item with its placeholders replaced, in order.
pub open spec fn substituted_items(
    items: Seq<JsonView>,
    entry: Seq<char>,
    delimiter: Option<Seq<char>>,
) -> Result<Seq<JsonView>, crate::template::MissingFieldView>
    decreases items,
{
    if items.len() == 0 {
        Ok(Seq::empty())
    } else {
        match substituted_items(items.subrange(0, items.len() - 1), entry, delimiter) {
            Ok(done) => match substituted_json(items[items.len() - 1], entry, delimiter) {
                Ok(item) => Ok(done.push(item)),
                Err(error) => Err(error),
            },
            Err(error) => Err(error),
        }
    }
}

/// Every member with the placeholders in its value replaced, in order.
pub open spec fn substituted_members(
    members: Seq<(Seq<char>, JsonView)>,
    entry: Seq<char>,
    delimiter: Option<Seq<char>>,
) -> Result<Seq<(Seq<char>, JsonView)>, crate::template::MissingFieldView>
    decreases members,
{
    if members.len() == 0 {
        Ok(Seq::empty())
    } else {
        match substituted_members(members.subrange(0, members.len() - 1), entry, delimiter) {
            Ok(done) => match substituted_json(members[members.len() - 1].1, entry, delimiter) {
                Ok(value) => Ok(done.push((members[members.len() - 1].0, value))),
                Err(error) => Err(error),
            },
            Err(error) => Err(error),
        }
    }
}

proof fn lemma_items_error(
    items: Seq<JsonView>,
    entry: Seq<char>,
    delimiter: Option<Seq<char>>,
    n: int,
)
    requires
        0 <= n <= items.len(),
        substituted_items(items.take(n), entry, delimiter) is Err,
    ensures
        substituted_items(items, entry, delimiter) == substituted_items(
            items.take(n),
            entry,
            delimiter,
        ),
    decreases items.len() - n,
{
    if n == items.len() {
        assert(items.take(n) == items);
    } else {
        assert(items.take(n + 1).subrange(0, n) == items.take(n));
        lemma_items_error(items, entry, delimiter, n + 1);
    }
}

proof fn lemma_members_error(
    members: Seq<(Seq<char>, JsonView)>,
    entry: Seq<char>,
    delimiter: Option<Seq<char>>,
    n: int,
)
    requires
        0 <= n <= members.len(),
        substituted_members(members.take(n), entry, delimiter) is Err,
    ensures
        substituted_members(members, entry, delimiter) == substituted_members(
            members.take(n),
            entry,
            delimiter,
        ),
    decreases members.len() - n,
{
    if n == members.len() {
        assert(members.take(n) == members);
    } else {
        assert(members.take(n + 1).subrange(0, n) == members.take(n));
        lemma_members_error(members, entry, delimiter, n + 1);
    }
}

/// Replaces the placeholders in every string of a JSON value.
pub fn substitute_json(value: &Json, entry: &str, delimiter: Option<&str>) -> (out: Result<
    Json,
    MissingField,
>)
    ensures
        crate::model::result_view(out) == substituted_json(
            value.model(),
            entry@,
            delimiter.deep_view(),
        ),
    decreases value,
{
    match value {
        Json::Text(text) => match substitute(text.as_str(), entry, delimiter) {
            Ok(text) => Ok(Json::Text(text)),
            Err(error) => Err(error),
        },
        Json::Array(items) => {
            let ghost all = value.model()->Array_0;
            let ghost marks = delimiter.deep_view();
            let mut out: Vec<Json> = Vec::new();
            let mut i: usize = 0;
            assert(all.take(0) == Seq::<JsonView>::empty());
            assert(Json::Array(out).model()->Array_0 == Seq::<JsonView>::empty());
            while i < items.len()
                invariant
                    value matches Json::Array(v) && v == items,
                    all == value.model()->Array_0,
                    marks == delimiter.deep_view(),
                    i <= items@.len(),
                    substituted_items(all.take(i as int), entry@, marks) == Ok::<
                        Seq<JsonView>,
                        crate::template::MissingFieldView,
                    >(Json::Array(out).model()->Array_0),
                decreases items@.len() - i,
            {
                let ghost before = Json::Array(out).model()->Array_0;
                proof {
                    assert(all.take(i + 1).subrange(0, i as int) == all.take(i as int));
                    assert(all.take(i + 1)[i as int] == items@[i as int].model());
                }
                match substitute_json(&items[i], entry, delimiter) {
                    Ok(item) => {
                        out.push(item);
                        assert(Json::Array(out).model()->Array_0 =~= before.push(item.model()));
                    },
                    Err(error) => {
                        proof {
                            lemma_items_error(all, entry@, marks, i + 1);
                        }
                        return Err(error);
                    },
                }
                i += 1;
            }
            assert(all.take(i as int) == all);
            Ok(Json::Array(out))
        },
        Json::Object(members) => {
            let ghost all = value.model()->Object_0;
            let ghost marks = delimiter.deep_view();
            let mut out: Vec<(String, Json)> = Vec::new();
            let mut i: usize = 0;
            assert(all.take(0) == Seq::<(Seq<char>, JsonView)>::empty());
            assert(Json::Object(out).model()->Object_0 == Seq::<(Seq<char>, JsonView)>::empty());
            while i < members.len()
                invariant
                    value matches Json::Object(v) && v == members,
                    all == value.model()->Object_0,
                    marks == delimiter.deep_view(),
                    i <= members@.len(),
                    substituted_members(all.take(i as int), entry@, marks) == Ok::<
                        Seq<(Seq<char>, JsonView)>,
                        crate::template::MissingFieldView,
                    >(Json::Object(out).model()->Object_0),
                decreases members@.len() - i,
            {
                let ghost before = Json::Object(out).model()->Object_0;
                proof {
                    assert(all.take(i + 1).subrange(0, i as int) == all.take(i as int));
                    assert(all.take(i + 1)[i as int] == (
                        members@[i as int].0@,
                        members@[i as int].1.model(),
                    ));
                }
                match substitute_json(&members[i].1, entry, delimiter) {
                    Ok(member) => {
                        let key = members[i].0.clone();
                        out.push((key, member));
                        assert(Json::Object(out).model()->Object_0 =~= before.push(
                            (key@, member.model()),
                        ));
                    },
                    Err(error) => {
                        proof {
                            lemma_members_error(all, entry@, marks, i + 1);
                        }
                        return Err(error);
                    },
                }
                i += 1;
            }
            assert(all.take(i as int) == all);
            Ok(Json::Object(out))
        },
        Json::Null => Ok(Json::Null),
        Json::Bool(b) => Ok(Json::Bool(*b)),
        Json::Number(n) => Ok(Json::Number(*n)),
    }
}

// ---------------------------------------------------------------------------
// Laws
// ---------------------------------------------------------------------------
/// Values that are no strings, and hold none, are left alone.
pub proof fn law_scalars_are_left_alone(
    value: JsonView,
    entry: Seq<char>,
    delimiter: Option<Seq<char>>,
)
    requires
        value is Null || value is Bool || value is Number,
    ensures
        substituted_json(value, entry, delimiter) == Ok::<
            JsonView,
            crate::template::MissingFieldView,
        >(value),
{
}

/// An array keeps its length, and each item comes from its own.
pub proof fn law_items_one_for_one(
    items: Seq<JsonView>,
    entry: Seq<char>,
    delimiter: Option<Seq<char>>,
)
    ensures
        substituted_items(items, entry, delimiter) matches Ok(out) ==> out.len() == items.len()
            && forall|i: int|
            0 <= i < items.len() ==> substituted_json(items[i], entry, delimiter) == Ok::<
                JsonView,
                crate::template::MissingFieldView,
            >(#[trigger] out[i]),
    decreases items.len(),
{
    if items.len() > 0 {
        let front = items.subrange(0, items.len() - 1);
        law_items_one_for_one(front, entry, delimiter);
        if let Ok(out) = substituted_items(items, entry, delimiter) {
            let done = substituted_items(front, entry, delimiter)->Ok_0;
            assert forall|i: int| 0 <= i < items.len() implies substituted_json(
                items[i],
                entry,
                delimiter,
            ) == Ok::<JsonView, crate::template::MissingFieldView>(#[trigger] out[i]) by {
                if i < front.len() {
                    assert(out[i] == done[i]);
                    assert(front[i] == items[i]);
                }
            }
        }
    }
}

/// An object keeps its keys in their order, and each value comes from its own.
pub proof fn law_members_one_for_one(
    members: Seq<(Seq<char>, JsonView)>,
    entry: Seq<char>,
    delimiter: Option<Seq<char>>,
)
    ensures
        substituted_members(members, entry, delimiter) matches Ok(out) ==> out.len()
            == members.len() && forall|i: int|
            0 <= i < members.len() ==> (#[trigger] out[i]).0 == members[i].0 && substituted_json(
                members[i].1,
                entry,
                delimiter,
            ) == Ok::<JsonView, crate::template::MissingFieldView>(out[i].1),
    decreases members.len(),
{
    if members.len() > 0 {
        let front = members.subrange(0, members.len() - 1);
        law_members_one_for_one(front, entry, delimiter);
        if let Ok(out) = substituted_members(members, entry, delimiter) {
            let done = substituted_members(front, entry, delimiter)->Ok_0;
            assert forall|i: int| 0 <= i < members.len() implies (#[trigger] out[i]).0
                == members[i].0 && substituted_json(members[i].1, entry, delimiter) == Ok::<
                JsonView,
                crate::template::MissingFieldView,
            >(out[i].1) by {
                if i < front.len() {
                    assert(out[i] == done[i]);
                    assert(front[i] == members[i]);
                }
            }
        }
    }
}

/// A string in the arguments of an action is a template like any other: it
/// becomes what the template becomes for the same Entry and the same delimiter,
/// and fails where and as that fails.
pub proof fn law_strings_are_templates(
    text: Seq<char>,
    entry: Seq<char>,
    delimiter: Option<Seq<char>>,
)
    ensures
        match crate::template::substituted(text, entry, delimiter) {
            Ok(out) => substituted_json(JsonView::Text(text), entry, delimiter) == Ok::<
                JsonView,
                crate::template::MissingFieldView,
            >(JsonView::Text(out)),
            Err(error) => substituted_json(JsonView::Text(text), entry, delimiter) == Err::<
                JsonView,
                crate::template::MissingFieldView,
            >(error),
        },
{
}

/// Whether the value at `i` is the first that names a Field the Entry does not
/// have, and `error` says so.
pub open spec fn value_fails_first(
    values: Seq<JsonView>,
    entry: Seq<char>,
    delimiter: Option<Seq<char>>,
    i: int,
    error: crate::template::MissingFieldView,
) -> bool {
    &&& 0 <= i < values.len()
    &&& substituted_json(values[i], entry, delimiter) == Err::<
        JsonView,
        crate::template::MissingFieldView,
    >(error)
    &&& forall|j: int| 0 <= j < i ==> substituted_json(#[trigger] values[j], entry, delimiter) is Ok
}

/// Whether `error` is that of the first value that names a Field the Entry does
/// not have.
pub open spec fn is_first_failure(
    values: Seq<JsonView>,
    entry: Seq<char>,
    delimiter: Option<Seq<char>>,
    error: crate::template::MissingFieldView,
) -> bool {
    exists|i: int| value_fails_first(values, entry, delimiter, i, error)
}

/// Whether each of `out` is what the value in its place becomes alone.
pub open spec fn values_become(
    values: Seq<JsonView>,
    out: Seq<JsonView>,
    entry: Seq<char>,
    delimiter: Option<Seq<char>>,
) -> bool {
    &&& out.len() == values.len()
    &&& forall|i: int|
        0 <= i < values.len() ==> substituted_json(values[i], entry, delimiter) == Ok::<
            JsonView,
            crate::template::MissingFieldView,
        >(#[trigger] out[i])
}

/// An array becomes the array of what its items become alone, in their order, or
/// fails as the first of them that does.
pub proof fn law_arrays_are_substituted_item_by_item(
    items: Seq<JsonView>,
    entry: Seq<char>,
    delimiter: Option<Seq<char>>,
)
    ensures
        substituted_json(JsonView::Array(items), entry, delimiter) matches Ok(out) ==> out is Array
            && values_become(items, out->Array_0, entry, delimiter),
        substituted_json(JsonView::Array(items), entry, delimiter) matches Err(error) ==> is_first_failure(
            items,
            entry,
            delimiter,
            error,
        ),
{
    law_items_one_for_one(items, entry, delimiter);
    lemma_items_fail_first(items, entry, delimiter);
    if let Ok(out) = substituted_items(items, entry, delimiter) {
        assert(values_become(items, out, entry, delimiter));
    }
}

proof fn lemma_items_fail_first(
    items: Seq<JsonView>,
    entry: Seq<char>,
    delimiter: Option<Seq<char>>,
)
    ensures
        substituted_items(items, entry, delimiter) matches Err(error) ==> is_first_failure(
            items,
            entry,
            delimiter,
            error,
        ),
    decreases items.len(),
{
    if items.len() > 0 {
        let last = items.len() - 1;
        let front = items.subrange(0, last);
        lemma_items_fail_first(front, entry, delimiter);
        match substituted_items(front, entry, delimiter) {
            Ok(done) => {
                law_items_one_for_one(front, entry, delimiter);
                if let Err(error) = substituted_items(items, entry, delimiter) {
                    assert forall|j: int| 0 <= j < last implies substituted_json(
                        #[trigger] items[j],
                        entry,
                        delimiter,
                    ) is Ok by {
                        assert(front[j] == items[j]);
                        assert(substituted_json(front[j], entry, delimiter) == Ok::<
                            JsonView,
                            crate::template::MissingFieldView,
                        >(done[j]));
                    }
                    assert(value_fails_first(items, entry, delimiter, last, error));
                }
            },
            Err(error) => {
                let i = choose|i: int| value_fails_first(front, entry, delimiter, i, error);
                assert(front[i] == items[i]);
                assert forall|j: int| 0 <= j < i implies substituted_json(
                    #[trigger] items[j],
                    entry,
                    delimiter,
                ) is Ok by {
                    assert(front[j] == items[j]);
                }
                assert(value_fails_first(items, entry, delimiter, i, error));
            },
        }
    }
}

/// The values of the members of an object, in order.
pub open spec fn member_values(members: Seq<(Seq<char>, JsonView)>) -> Seq<JsonView> {
    Seq::new(members.len(), |i: int| members[i].1)
}

/// The keys of the members of an object, in order.
pub open spec fn member_keys(members: Seq<(Seq<char>, JsonView)>) -> Seq<Seq<char>> {
    Seq::new(members.len(), |i: int| members[i].0)
}

/// An object keeps its keys, whatever they look like, and their order; its
/// values become what they become alone, or it fails as the first of them that
/// does.
pub proof fn law_objects_are_substituted_value_by_value(
    members: Seq<(Seq<char>, JsonView)>,
    entry: Seq<char>,
    delimiter: Option<Seq<char>>,
)
    ensures
        substituted_json(JsonView::Object(members), entry, delimiter) matches Ok(out) ==> out
            is Object && member_keys(out->Object_0) == member_keys(members) && values_become(
            member_values(members),
            member_values(out->Object_0),
            entry,
            delimiter,
        ),
        substituted_json(JsonView::Object(members), entry, delimiter) matches Err(error) ==> is_first_failure(
            member_values(members),
            entry,
            delimiter,
            error,
        ),
{
    law_members_one_for_one(members, entry, delimiter);
    lemma_members_fail_first(members, entry, delimiter);
    if let Ok(out) = substituted_members(members, entry, delimiter) {
        let values = member_values(members);
        let new = member_values(out);
        assert forall|i: int| 0 <= i < values.len() implies substituted_json(
            values[i],
            entry,
            delimiter,
        ) == Ok::<JsonView, crate::template::MissingFieldView>(#[trigger] new[i]) by {
            assert(out[i].0 == members[i].0);
        }
        assert(values_become(values, new, entry, delimiter));
        assert(member_keys(out) =~= member_keys(members));
    }
}

proof fn lemma_members_fail_first(
    members: Seq<(Seq<char>, JsonView)>,
    entry: Seq<char>,
    delimiter: Option<Seq<char>>,
)
    ensures
        substituted_members(members, entry, delimiter) matches Err(error) ==> is_first_failure(
            member_values(members),
            entry,
            delimiter,
            error,
        ),
    decreases members.len(),
{
    if members.len() > 0 {
        let last = members.len() - 1;
        let front = members.subrange(0, last);
        let values = member_values(members);
        lemma_members_fail_first(front, entry, delimiter);
        match substituted_members(front, entry, delimiter) {
            Ok(done) => {
                law_members_one_for_one(front, entry, delimiter);
                if let Err(error) = substituted_members(members, entry, delimiter) {
                    assert forall|j: int| 0 <= j < last implies substituted_json(
                        #[trigger] values[j],
                        entry,
                        delimiter,
                    ) is Ok by {
                        assert(front[j] == members[j]);
                        assert(done[j].0 == front[j].0);
                    }
                    assert(value_fails_first(values, entry, delimiter, last, error));
                }
            },
            Err(error) => {
                let old_values = member_values(front);
                let i = choose|i: int| value_fails_first(old_values, entry, delimiter, i, error);
                assert(old_values[i] == values[i]);
                assert forall|j: int| 0 <= j < i implies substituted_json(
                    #[trigger] values[j],
                    entry,
                    delimiter,
                ) is Ok by {
                    assert(old_values[j] == values[j]);
                }
                assert(value_fails_first(values, entry, delimiter, i, error));
            },
        }
    }
}

} // verus!
