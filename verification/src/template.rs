//! Templates: text with placeholders for an Entry and its Fields.
use vstd::prelude::*;

use crate::text::{chars_of, find_char, parse_usize, push_chars, split_on, split_words, usize_text};

verus! {

/// The template that stands for the whole Entry.
pub const WHOLE_ENTRY: &'static str = "{}";

/// A template referenced a Field the Entry does not have. Reported rather
/// than substituted empty so the mistake is visible.
#[derive(Debug, Clone, PartialEq)]
pub struct MissingField {
    pub index: usize,
    pub entry: String,
    pub available: usize,
}

/// What a [`MissingField`] says.
pub struct MissingFieldView {
    pub index: nat,
    pub entry: Seq<char>,
    pub available: nat,
}

impl DeepView for MissingField {
    type V = MissingFieldView;

    open spec fn deep_view(&self) -> MissingFieldView {
        MissingFieldView {
            index: self.index as nat,
            entry: self.entry@,
            available: self.available as nat,
        }
    }
}

impl MissingFieldView {
    /// The sentence shown to the user.
    pub open spec fn message(self) -> Seq<char> {
        "`{"@ + crate::text::digits(self.index) + "}` needs field "@ + crate::text::digits(
            self.index,
        ) + " but `"@ + self.entry + "` has "@ + crate::text::digits(self.available)
    }
}

impl MissingField {
    /// The sentence shown to the user.
    pub fn to_string(&self) -> (message: String)
        ensures
            message@ == self.deep_view().message(),
    {
        let mut message = String::new();
        message.append("`{");
        message.append(usize_text(self.index).as_str());
        message.append("}` needs field ");
        message.append(usize_text(self.index).as_str());
        message.append(" but `");
        message.append(self.entry.as_str());
        message.append("` has ");
        message.append(usize_text(self.available).as_str());
        assert(message@ == self.deep_view().message());
        message
    }
}

/// The Fields of an Entry: what stands between the delimiters, or, without a
/// delimiter, between runs of whitespace.
pub open spec fn fields_of(entry: Seq<char>, delimiter: Option<Seq<char>>) -> Seq<Seq<char>> {
    match delimiter {
        Some(delimiter) => if delimiter.len() > 0 {
            crate::text::split(entry, delimiter)
        } else {
            crate::text::words(entry)
        },
        None => crate::text::words(entry),
    }
}

/// The Field that the text in a pair of braces names, counting from one.
pub open spec fn field_index(placeholder: Seq<char>) -> Option<nat> {
    match crate::text::number(placeholder) {
        Some(n) => if 0 < n <= usize::MAX {
            Some(n)
        } else {
            None
        },
        None => None,
    }
}

/// What stands in place of a pair of braces: the Entry where they are empty,
/// a Field where they hold its number, and else the braces themselves.
pub open spec fn placeholder_text(
    placeholder: Seq<char>,
    entry: Seq<char>,
    delimiter: Option<Seq<char>>,
) -> Result<Seq<char>, MissingFieldView> {
    if placeholder.len() == 0 {
        Ok(entry)
    } else {
        match field_index(placeholder) {
            Some(n) => {
                let fields = fields_of(entry, delimiter);
                if n <= fields.len() {
                    Ok(fields[n - 1])
                } else {
                    Err(MissingFieldView { index: n, entry, available: fields.len() })
                }
            },
            None => Ok(seq!['{'] + placeholder + seq!['}']),
        }
    }
}

/// The template with each placeholder replaced, read from the left; the first
/// Field that the Entry does not have is the error.
pub open spec fn substituted(
    template: Seq<char>,
    entry: Seq<char>,
    delimiter: Option<Seq<char>>,
) -> Result<Seq<char>, MissingFieldView>
    decreases template.len(),
{
    let start = crate::text::position(template, '{');
    let after = template.skip(start + 1);
    let end = crate::text::position(after, '}');
    proof {
        crate::text::lemma_position(template, '{');
        crate::text::lemma_position(after, '}');
    }
    if start >= template.len() || end >= after.len() {
        Ok(template)
    } else {
        match placeholder_text(after.take(end), entry, delimiter) {
            Ok(piece) => match substituted(after.skip(end + 1), entry, delimiter) {
                Ok(rest) => Ok(template.take(start) + piece + rest),
                Err(error) => Err(error),
            },
            Err(error) => Err(error),
        }
    }
}

/// The Fields of `entry`. With no delimiter, runs of whitespace separate
/// Fields (column output like `docker ps`).
pub fn fields<'a>(entry: &'a str, delimiter: Option<&str>) -> (out: Vec<&'a str>)
    ensures
        out.deep_view() == fields_of(entry@, delimiter.deep_view()),
{
    match delimiter {
        Some(delimiter) => if !delimiter.is_empty() {
            split_on(entry, delimiter)
        } else {
            split_words(entry)
        },
        None => split_words(entry),
    }
}

/// Replaces `{}` with the whole Entry and `{n}` with its nth Field, counting
/// from 1. Anything else in braces is left alone.
pub fn substitute(template: &str, entry: &str, delimiter: Option<&str>) -> (out: Result<
    String,
    MissingField,
>)
    ensures
        crate::model::result_view(out) == substituted(template@, entry@, delimiter.deep_view()),
{
    let chars = chars_of(template);
    let ghost full = substituted(template@, entry@, delimiter.deep_view());
    let mut split: Option<Vec<&str>> = None;
    let mut result = String::new();
    let mut i: usize = 0;
    assert(chars@.skip(0) == template@);
    proof {
        if let Ok(text) = full {
            assert(result@ + text == text);
        }
    }
    loop
        invariant
            i <= chars@.len(),
            full == substituted(template@, entry@, delimiter.deep_view()),
            split matches Some(found) ==> found.deep_view() == fields_of(
                entry@,
                delimiter.deep_view(),
            ),
            match substituted(chars@.skip(i as int), entry@, delimiter.deep_view()) {
                Ok(rest) => full == Ok::<Seq<char>, MissingFieldView>(result@ + rest),
                Err(error) => full == Err::<Seq<char>, MissingFieldView>(error),
            },
        decreases chars@.len() - i,
    {
        let ghost rest = chars@.skip(i as int);
        let start: usize = find_char(&chars, i, '{');
        if start == chars.len() {
            push_chars(&mut result, &chars, i, start);
            assert(chars@.subrange(i as int, start as int) == rest);
            return Ok(result);
        }
        let end: usize = find_char(&chars, start + 1, '}');
        let ghost after = rest.skip(start - i + 1);
        assert(after == chars@.skip(start + 1));
        if end == chars.len() {
            push_chars(&mut result, &chars, i, end);
            assert(chars@.subrange(i as int, end as int) == rest);
            return Ok(result);
        }
        let ghost before = result@;
        let ghost placeholder = after.take(end - start - 1);
        assert(placeholder == chars@.subrange(start + 1, end as int));
        assert(after.skip(end - start) == chars@.skip(end + 1));
        push_chars(&mut result, &chars, i, start);
        assert(chars@.subrange(i as int, start as int) == rest.take(start - i));
        let ghost lead = result@;
        if end == start + 1 {
            result.append(entry);
        } else {
            match parse_usize(&chars, start + 1, end) {
                Some(index) if index > 0 => {
                    if split.is_none() {
                        split = Some(fields(entry, delimiter));
                    }
                    if let Some(found) = &split {
                        if index <= found.len() {
                            let field = found[index - 1];
                            assert(found.deep_view()[index - 1] == field@);
                            result.append(field);
                        } else {
                            return Err(
                                MissingField {
                                    index,
                                    entry: entry.to_owned(),
                                    available: found.len(),
                                },
                            );
                        }
                    }
                },
                _ => {
                    result.push('{');
                    push_chars(&mut result, &chars, start + 1, end);
                    result.push('}');
                    assert(result@ == lead + (seq!['{'] + placeholder + seq!['}']));
                },
            }
        }
        proof {
            let piece = placeholder_text(placeholder, entry@, delimiter.deep_view());
            assert(piece is Ok);
            assert(result@ == before + rest.take(start - i) + piece->Ok_0);
            if let Ok(tail) = substituted(after.skip(end - start), entry@, delimiter.deep_view()) {
                assert(before + (rest.take(start - i) + piece->Ok_0 + tail) == result@ + tail);
            }
        }
        i = end + 1;
    }
}

/// Every argument with its placeholders replaced, in order; the first Field
/// that the Entry does not have is the error.
pub open spec fn substituted_all(
    args: Seq<Seq<char>>,
    entry: Seq<char>,
    delimiter: Option<Seq<char>>,
) -> Result<Seq<Seq<char>>, MissingFieldView>
    decreases args.len(),
{
    if args.len() == 0 {
        Ok(Seq::empty())
    } else {
        match substituted_all(args.drop_last(), entry, delimiter) {
            Ok(done) => match substituted(args.last(), entry, delimiter) {
                Ok(text) => Ok(done.push(text)),
                Err(error) => Err(error),
            },
            Err(error) => Err(error),
        }
    }
}

proof fn lemma_substituted_all_error(
    args: Seq<Seq<char>>,
    entry: Seq<char>,
    delimiter: Option<Seq<char>>,
    n: int,
)
    requires
        0 <= n <= args.len(),
        substituted_all(args.take(n), entry, delimiter) is Err,
    ensures
        substituted_all(args, entry, delimiter) == substituted_all(args.take(n), entry, delimiter),
    decreases args.len() - n,
{
    if n == args.len() {
        assert(args.take(n) == args);
    } else {
        assert(args.take(n + 1).drop_last() == args.take(n));
        lemma_substituted_all_error(args, entry, delimiter, n + 1);
    }
}

/// Replaces the placeholders in every argument.
pub fn substitute_args(args: &[String], entry: &str, delimiter: Option<&str>) -> (out: Result<
    Vec<String>,
    MissingField,
>)
    ensures
        crate::model::result_view(out) == substituted_all(
            args.deep_view(),
            entry@,
            delimiter.deep_view(),
        ),
{
    let mut out: Vec<String> = Vec::new();
    let ghost all = args.deep_view();
    let mut i: usize = 0;
    assert(all.take(0) == Seq::<Seq<char>>::empty());
    assert(out.deep_view() == Seq::<Seq<char>>::empty());
    while i < args.len()
        invariant
            i <= args@.len(),
            all == args.deep_view(),
            substituted_all(all.take(i as int), entry@, delimiter.deep_view()) == Ok::<
                Seq<Seq<char>>,
                MissingFieldView,
            >(out.deep_view()),
        decreases args@.len() - i,
    {
        let ghost before = out.deep_view();
        proof {
            assert(all.take(i + 1).drop_last() == all.take(i as int));
            assert(all.take(i + 1).last() == args@[i as int]@);
        }
        match substitute(args[i].as_str(), entry, delimiter) {
            Ok(text) => {
                out.push(text);
                assert(out.deep_view() == before.push(text@));
            },
            Err(error) => {
                proof {
                    lemma_substituted_all_error(all, entry@, delimiter.deep_view(), i + 1);
                }
                return Err(error);
            },
        }
        i += 1;
    }
    assert(all.take(i as int) == all);
    Ok(out)
}

// ---------------------------------------------------------------------------
// Laws
// ---------------------------------------------------------------------------
/// A template without an opening brace comes back as it is, for every Entry.
pub proof fn law_literal_template(
    template: Seq<char>,
    entry: Seq<char>,
    delimiter: Option<Seq<char>>,
)
    requires
        !template.contains('{'),
    ensures
        substituted(template, entry, delimiter) == Ok::<Seq<char>, MissingFieldView>(template),
{
    crate::text::lemma_position(template, '{');
    if crate::text::position(template, '{') < template.len() {
        assert(template[crate::text::position(template, '{')] == '{');
    }
}

/// An opening brace that nothing closes is left alone, with what follows it.
pub proof fn law_unclosed_brace(
    before: Seq<char>,
    after: Seq<char>,
    entry: Seq<char>,
    delimiter: Option<Seq<char>>,
)
    requires
        !before.contains('{'),
        !after.contains('}'),
    ensures
        substituted(before + seq!['{'] + after, entry, delimiter) == Ok::<
            Seq<char>,
            MissingFieldView,
        >(before + seq!['{'] + after),
{
    let template = before + seq!['{'] + after;
    assert forall|j: int| 0 <= j < before.len() implies template[j] != '{' by {
        assert(before[j] == template[j]);
    }
    crate::text::lemma_position_is(template, '{', before.len() as int);
    assert(template.skip(before.len() as int + 1) == after);
    crate::text::lemma_position(after, '}');
}

/// One pair of braces between literal text on the left and any template on the
/// right: the left is kept, the braces are replaced, the right goes on alone.
/// In particular no replacement is read for placeholders again.
pub proof fn law_placeholder_step(
    before: Seq<char>,
    placeholder: Seq<char>,
    rest: Seq<char>,
    entry: Seq<char>,
    delimiter: Option<Seq<char>>,
)
    requires
        !before.contains('{'),
        !placeholder.contains('}'),
    ensures
        substituted(before + seq!['{'] + placeholder + seq!['}'] + rest, entry, delimiter) == (
        match (
            placeholder_text(placeholder, entry, delimiter),
            substituted(rest, entry, delimiter),
        ) {
            (Ok(piece), Ok(tail)) => Ok::<Seq<char>, MissingFieldView>(before + piece + tail),
            (Ok(_), Err(error)) => Err(error),
            (Err(error), _) => Err(error),
        }),
{
    let template = before + seq!['{'] + placeholder + seq!['}'] + rest;
    assert forall|j: int| 0 <= j < before.len() implies template[j] != '{' by {
        assert(before[j] == template[j]);
    }
    crate::text::lemma_position_is(template, '{', before.len() as int);
    let after = template.skip(before.len() as int + 1);
    assert(after == placeholder + seq!['}'] + rest);
    assert forall|j: int| 0 <= j < placeholder.len() implies after[j] != '}' by {
        assert(placeholder[j] == after[j]);
    }
    crate::text::lemma_position_is(after, '}', placeholder.len() as int);
    assert(after.take(placeholder.len() as int) == placeholder);
    assert(after.skip(placeholder.len() as int + 1) == rest);
    assert(template.take(before.len() as int) == before);
}

/// `{}` is the whole Entry, whatever the Entry holds.
pub proof fn law_whole_entry(entry: Seq<char>, delimiter: Option<Seq<char>>)
    ensures
        substituted(WHOLE_ENTRY@, entry, delimiter) == Ok::<Seq<char>, MissingFieldView>(entry),
{
    reveal_strlit("{}");
    let none = Seq::<char>::empty();
    assert(WHOLE_ENTRY@ == none + seq!['{'] + none + seq!['}'] + none);
    law_placeholder_step(none, none, none, entry, delimiter);
    law_literal_template(none, entry, delimiter);
    assert(none + entry + none == entry);
}

/// `{n}` is the nth Field, counting from one; where the Entry has fewer, it is
/// the error that names the Field, the Entry and how many there are.
pub proof fn law_numbered_field(n: nat, entry: Seq<char>, delimiter: Option<Seq<char>>)
    requires
        0 < n <= usize::MAX,
    ensures
        substituted(seq!['{'] + crate::text::digits(n) + seq!['}'], entry, delimiter) == (if n
            <= fields_of(entry, delimiter).len() {
            Ok(fields_of(entry, delimiter)[n - 1])
        } else {
            Err(
                MissingFieldView {
                    index: n,
                    entry,
                    available: fields_of(entry, delimiter).len(),
                },
            )
        }),
{
    let none = Seq::<char>::empty();
    let numeral = crate::text::digits(n);
    crate::text::lemma_number_of_digits(n);
    assert forall|j: int| 0 <= j < numeral.len() implies numeral[j] != '}' by {
        assert(crate::text::is_digit(numeral[j]));
    }
    assert(seq!['{'] + numeral + seq!['}'] == none + seq!['{'] + numeral + seq!['}'] + none);
    law_placeholder_step(none, numeral, none, entry, delimiter);
    law_literal_template(none, entry, delimiter);
    if n <= fields_of(entry, delimiter).len() {
        let field = fields_of(entry, delimiter)[n - 1];
        assert(none + field + none == field);
    }
}

/// Braces around anything that is neither empty nor a Field number are left
/// alone.
pub proof fn law_unrecognised_braces(
    placeholder: Seq<char>,
    entry: Seq<char>,
    delimiter: Option<Seq<char>>,
)
    requires
        placeholder.len() > 0,
        !placeholder.contains('}'),
        field_index(placeholder) is None,
    ensures
        substituted(seq!['{'] + placeholder + seq!['}'], entry, delimiter) == Ok::<
            Seq<char>,
            MissingFieldView,
        >(seq!['{'] + placeholder + seq!['}']),
{
    let none = Seq::<char>::empty();
    let braces = seq!['{'] + placeholder + seq!['}'];
    assert(braces == none + seq!['{'] + placeholder + seq!['}'] + none);
    law_placeholder_step(none, placeholder, none, entry, delimiter);
    law_literal_template(none, entry, delimiter);
    assert(none + braces + none == braces);
}

/// A substitution fails only on a Field that the Entry does not have, and the
/// error says so truthfully.
pub proof fn law_missing_field_is_missing(
    template: Seq<char>,
    entry: Seq<char>,
    delimiter: Option<Seq<char>>,
)
    ensures
        substituted(template, entry, delimiter) matches Err(error) ==> {
            &&& error.entry == entry
            &&& error.available == fields_of(entry, delimiter).len()
            &&& error.index > error.available
        },
    decreases template.len(),
{
    let start = crate::text::position(template, '{');
    let after = template.skip(start + 1);
    let end = crate::text::position(after, '}');
    crate::text::lemma_position(template, '{');
    crate::text::lemma_position(after, '}');
    if start < template.len() && end < after.len() {
        law_missing_field_is_missing(after.skip(end + 1), entry, delimiter);
    }
}

/// With a delimiter, joining the Fields with it gives the Entry back, empty
/// Fields included, and no Field holds the delimiter.
pub proof fn law_delimited_fields(entry: Seq<char>, delimiter: Seq<char>)
    requires
        delimiter.len() > 0,
    ensures
        fields_of(entry, Some(delimiter)).len() > 0,
        crate::text::join(fields_of(entry, Some(delimiter)), delimiter) == entry,
        forall|i: int|
            0 <= i < fields_of(entry, Some(delimiter)).len() ==> !crate::text::has_occurrence(
                #[trigger] fields_of(entry, Some(delimiter))[i],
                delimiter,
            ),
{
    crate::text::lemma_split_step(entry, delimiter);
    crate::text::lemma_join_split(entry, delimiter);
    crate::text::lemma_split_pieces(entry, delimiter);
}

/// Without a delimiter no Field is empty and none holds whitespace; an empty
/// delimiter counts as none.
pub proof fn law_whitespace_fields(entry: Seq<char>)
    ensures
        fields_of(entry, Some(Seq::<char>::empty())) == fields_of(entry, None),
        forall|i: int|
            0 <= i < fields_of(entry, None).len() ==> crate::text::is_word(
                #[trigger] fields_of(entry, None)[i],
            ),
{
    crate::text::lemma_words_are_words(entry);
}

/// Whether the argument at `i` is the first that names a Field the Entry does
/// not have, and `error` says so.
pub open spec fn fails_first(
    args: Seq<Seq<char>>,
    entry: Seq<char>,
    delimiter: Option<Seq<char>>,
    i: int,
    error: MissingFieldView,
) -> bool {
    &&& 0 <= i < args.len()
    &&& substituted(args[i], entry, delimiter) == Err::<Seq<char>, MissingFieldView>(error)
    &&& forall|j: int| 0 <= j < i ==> substituted(#[trigger] args[j], entry, delimiter) is Ok
}

/// Replacing placeholders keeps the number of arguments, and each comes from
/// its own template; an error is that of the first argument that has one.
pub proof fn law_arguments_one_for_one(
    args: Seq<Seq<char>>,
    entry: Seq<char>,
    delimiter: Option<Seq<char>>,
)
    ensures
        match substituted_all(args, entry, delimiter) {
            Ok(texts) => texts.len() == args.len() && forall|i: int|
                0 <= i < args.len() ==> substituted(args[i], entry, delimiter) == Ok::<
                    Seq<char>,
                    MissingFieldView,
                >(#[trigger] texts[i]),
            Err(error) => exists|i: int| fails_first(args, entry, delimiter, i, error),
        },
    decreases args.len(),
{
    if args.len() > 0 {
        let front = args.drop_last();
        let last = args.len() - 1;
        law_arguments_one_for_one(front, entry, delimiter);
        match substituted_all(front, entry, delimiter) {
            Ok(done) => {
                assert(args.last() == args[last]);
                match substituted_all(args, entry, delimiter) {
                    Ok(texts) => {
                        assert forall|i: int| 0 <= i < args.len() implies substituted(
                            args[i],
                            entry,
                            delimiter,
                        ) == Ok::<Seq<char>, MissingFieldView>(#[trigger] texts[i]) by {
                            if i < front.len() {
                                assert(texts[i] == done[i]);
                                assert(front[i] == args[i]);
                            }
                        }
                    },
                    Err(error) => {
                        assert forall|j: int| 0 <= j < last implies substituted(
                            #[trigger] args[j],
                            entry,
                            delimiter,
                        ) is Ok by {
                            assert(front[j] == args[j]);
                            assert(substituted(front[j], entry, delimiter) == Ok::<
                                Seq<char>,
                                MissingFieldView,
                            >(done[j]));
                        }
                        assert(fails_first(args, entry, delimiter, last, error));
                    },
                }
            },
            Err(error) => {
                let i = choose|i: int| fails_first(front, entry, delimiter, i, error);
                assert(args[i] == front[i]);
                assert forall|j: int| 0 <= j < i implies substituted(
                    #[trigger] args[j],
                    entry,
                    delimiter,
                ) is Ok by {
                    assert(front[j] == args[j]);
                }
                assert(fails_first(args, entry, delimiter, i, error));
            },
        }
    }
}

/// Fields are taken from the left: what stands before the first delimiter is
/// one, and what stands behind it has Fields of its own. An Entry without the
/// delimiter is one Field.
pub proof fn law_delimiter_parts_fields(a: Seq<char>, delimiter: Seq<char>, b: Seq<char>)
    requires
        delimiter.len() > 0,
    ensures
        !crate::text::has_occurrence(a, delimiter) ==> fields_of(a, Some(delimiter)) == seq![a],
        (forall|j: int|
            0 <= j < a.len() ==> !crate::text::occurs_at(a + delimiter + b, delimiter, j))
            ==> fields_of(a + delimiter + b, Some(delimiter)) == seq![a] + fields_of(
            b,
            Some(delimiter),
        ),
{
    crate::text::law_split_goes_from_the_left(a, delimiter, b);
}

/// Without a delimiter whitespace parts Fields, however much of it there is, and
/// an Entry without whitespace is one Field.
pub proof fn law_whitespace_parts_fields(a: Seq<char>, space: char, b: Seq<char>)
    requires
        crate::text::is_space(space),
    ensures
        fields_of(a.push(space) + b, None) == fields_of(a, None) + fields_of(b, None),
        crate::text::is_word(a) ==> fields_of(a, None) == seq![a],
        fields_of(Seq::empty(), None).len() == 0,
{
    crate::text::law_whitespace_parts_words(a, space, b);
    if crate::text::is_word(a) {
        crate::text::law_one_word(a);
    }
    crate::text::law_one_word(Seq::empty());
}

/// Every way to write a Field's number names that Field, with zeros or a plus
/// sign before it too; no number but one that can count Fields names any.
pub proof fn law_every_numeral_names_its_field(
    placeholder: Seq<char>,
    entry: Seq<char>,
    delimiter: Option<Seq<char>>,
)
    requires
        placeholder.len() > 0,
        !placeholder.contains('}'),
    ensures
        ({
            let fields = fields_of(entry, delimiter);
            let braces = seq!['{'] + placeholder + seq!['}'];
            let out = substituted(braces, entry, delimiter);
            match crate::text::number(placeholder) {
                Some(n) => if n == 0 || n > usize::MAX {
                    out == Ok::<Seq<char>, MissingFieldView>(braces)
                } else if n <= fields.len() {
                    out == Ok::<Seq<char>, MissingFieldView>(fields[n - 1])
                } else {
                    out == Err::<Seq<char>, MissingFieldView>(
                        MissingFieldView { index: n, entry, available: fields.len() },
                    )
                },
                None => out == Ok::<Seq<char>, MissingFieldView>(braces),
            }
        }),
{
    let none = Seq::<char>::empty();
    let braces = seq!['{'] + placeholder + seq!['}'];
    assert(braces == none + seq!['{'] + placeholder + seq!['}'] + none);
    law_placeholder_step(none, placeholder, none, entry, delimiter);
    law_literal_template(none, entry, delimiter);
    assert(none + braces + none == braces);
    if let Some(n) = crate::text::number(placeholder) {
        let fields = fields_of(entry, delimiter);
        if 0 < n <= usize::MAX && n <= fields.len() {
            assert(none + fields[n - 1] + none == fields[n - 1]);
        }
    }
}

/// A template is made of parts: literal text, then what a pair of braces alone
/// comes to, then what the rest alone comes to. Where a part fails, the first
/// that does is the error.
pub proof fn law_templates_are_substituted_part_by_part(
    before: Seq<char>,
    placeholder: Seq<char>,
    rest: Seq<char>,
    entry: Seq<char>,
    delimiter: Option<Seq<char>>,
)
    requires
        !before.contains('{'),
        !placeholder.contains('}'),
    ensures
        ({
            let braces = seq!['{'] + placeholder + seq!['}'];
            let out = substituted(before + braces + rest, entry, delimiter);
            match substituted(braces, entry, delimiter) {
                Err(error) => out == Err::<Seq<char>, MissingFieldView>(error),
                Ok(piece) => match substituted(rest, entry, delimiter) {
                    Err(error) => out == Err::<Seq<char>, MissingFieldView>(error),
                    Ok(tail) => out == Ok::<Seq<char>, MissingFieldView>(before + piece + tail),
                },
            }
        }),
{
    let none = Seq::<char>::empty();
    let braces = seq!['{'] + placeholder + seq!['}'];
    assert(braces == none + seq!['{'] + placeholder + seq!['}'] + none);
    assert(before + braces + rest == before + seq!['{'] + placeholder + seq!['}'] + rest);
    law_placeholder_step(none, placeholder, none, entry, delimiter);
    law_placeholder_step(before, placeholder, rest, entry, delimiter);
    law_literal_template(none, entry, delimiter);
    if let Ok(piece) = placeholder_text(placeholder, entry, delimiter) {
        assert(none + piece + none == piece);
    }
}

/// The sentence about a missing Field names the Field as the template did, then
/// the Entry, and ends with how many Fields there are.
pub proof fn law_missing_field_is_named(error: MissingFieldView)
    ensures
        error.message() == "`{"@ + crate::text::digits(error.index) + "}` needs field "@
            + crate::text::digits(error.index) + " but `"@ + error.entry + "` has "@
            + crate::text::digits(error.available),
{
}

} // verus!
