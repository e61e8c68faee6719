//! Text as sequences of characters: searching, splitting, trimming, numerals.
use vstd::prelude::*;

verus! {

/// `String::push` appends one character to the string.
pub assume_specification[ String::push ](s: &mut String, c: char)
    ensures
        final(s)@ == old(s)@.push(c),
;

/// The characters with the Unicode `White_Space` property.
pub open spec fn is_space(c: char) -> bool {
    ||| '\u{9}' <= c <= '\u{d}'
    ||| c == ' '
    ||| c == '\u{85}'
    ||| c == '\u{a0}'
    ||| c == '\u{1680}'
    ||| '\u{2000}' <= c <= '\u{200a}'
    ||| c == '\u{2028}'
    ||| c == '\u{2029}'
    ||| c == '\u{202f}'
    ||| c == '\u{205f}'
    ||| c == '\u{3000}'
}

/// Whether `c` has the Unicode `White_Space` property.
pub fn is_whitespace(c: char) -> (space: bool)
    ensures
        space == is_space(c),
{
    ('\u{9}' <= c && c <= '\u{d}') || c == ' ' || c == '\u{85}' || c == '\u{a0}' || c == '\u{1680}'
        || ('\u{2000}' <= c && c <= '\u{200a}') || c == '\u{2028}' || c == '\u{2029}' || c
        == '\u{202f}' || c == '\u{205f}' || c == '\u{3000}'
}

/// The characters of a string, in order.
pub fn chars_of(s: &str) -> (chars: Vec<char>)
    ensures
        chars@ == s@,
{
    let mut chars: Vec<char> = Vec::new();
    for c in it: s.chars()
        invariant
            chars@ == it.seq().take(it.index() as int),
            it.seq() == s@,
    {
        chars.push(c);
    }
    chars
}

/// Appends `chars[from..to]` to `out`.
pub fn push_chars(out: &mut String, chars: &Vec<char>, from: usize, to: usize)
    requires
        from <= to <= chars@.len(),
    ensures
        final(out)@ == old(out)@ + chars@.subrange(from as int, to as int),
{
    let mut i: usize = from;
    while i < to
        invariant
            from <= i <= to <= chars@.len(),
            out@ == old(out)@ + chars@.subrange(from as int, i as int),
        decreases to - i,
    {
        out.push(chars[i]);
        i += 1;
    }
}

/// The string made of `chars[from..to]`.
pub fn slice_to_string(chars: &Vec<char>, from: usize, to: usize) -> (out: String)
    requires
        from <= to <= chars@.len(),
    ensures
        out@ == chars@.subrange(from as int, to as int),
{
    let mut out = String::new();
    push_chars(&mut out, chars, from, to);
    out
}

// ---------------------------------------------------------------------------
// One character
// ---------------------------------------------------------------------------
/// The index of the first `c` in `s`, or the length of `s` where there is none.
pub open spec fn position(s: Seq<char>, c: char) -> int
    decreases s.len(),
{
    if s.len() == 0 || s[0] == c {
        0
    } else {
        1 + position(s.skip(1), c)
    }
}

/// `position` is the only index with nothing but other characters before it
/// and either the character or the end at it.
pub proof fn lemma_position(s: Seq<char>, c: char)
    ensures
        0 <= position(s, c) <= s.len(),
        position(s, c) < s.len() ==> s[position(s, c)] == c,
        forall|j: int| 0 <= j < position(s, c) ==> s[j] != c,
    decreases s.len(),
{
    if s.len() > 0 && s[0] != c {
        lemma_position(s.skip(1), c);
        let p = position(s.skip(1), c);
        assert forall|j: int| 0 <= j < position(s, c) implies s[j] != c by {
            if j > 0 {
                assert(s.skip(1)[j - 1] == s[j]);
            }
        }
        if p < s.len() - 1 {
            assert(s.skip(1)[p] == s[p + 1]);
        }
    }
}

/// An index that meets the description of `position` is `position`.
pub proof fn lemma_position_is(s: Seq<char>, c: char, i: int)
    requires
        0 <= i <= s.len(),
        i < s.len() ==> s[i] == c,
        forall|j: int| 0 <= j < i ==> s[j] != c,
    ensures
        position(s, c) == i,
{
    lemma_position(s, c);
    if position(s, c) < i {
        assert(s[position(s, c)] != c);
    }
}

/// The index of the first `c` at or after `from`, or the length.
pub fn find_char(chars: &Vec<char>, from: usize, c: char) -> (at: usize)
    requires
        from <= chars@.len(),
    ensures
        from <= at <= chars@.len(),
        at == from + position(chars@.skip(from as int), c),
{
    let mut i: usize = from;
    while i < chars.len() && chars[i] != c
        invariant
            from <= i <= chars@.len(),
            forall|j: int| from <= j < i ==> chars@[j] != c,
        decreases chars@.len() - i,
    {
        i += 1;
    }
    proof {
        lemma_position_is(chars@.skip(from as int), c, i - from);
    }
    i
}

// ---------------------------------------------------------------------------
// Whitespace
// ---------------------------------------------------------------------------
/// `s` without the whitespace that it starts with.
pub open spec fn trim_start(s: Seq<char>) -> Seq<char>
    decreases s.len(),
{
    if s.len() > 0 && is_space(s[0]) {
        trim_start(s.skip(1))
    } else {
        s
    }
}

/// `s` without the whitespace that it ends with.
pub open spec fn trim_end(s: Seq<char>) -> Seq<char>
    decreases s.len(),
{
    if s.len() > 0 && is_space(s.last()) {
        trim_end(s.drop_last())
    } else {
        s
    }
}

/// `s` without the whitespace around it.
pub open spec fn trimmed(s: Seq<char>) -> Seq<char> {
    trim_end(trim_start(s))
}

/// Whether `s` holds nothing but whitespace.
pub open spec fn is_blank(s: Seq<char>) -> bool {
    forall|i: int| 0 <= i < s.len() ==> is_space(#[trigger] s[i])
}

proof fn lemma_trim_start_is(s: Seq<char>, i: int)
    requires
        0 <= i <= s.len(),
        forall|j: int| 0 <= j < i ==> is_space(#[trigger] s[j]),
        i < s.len() ==> !is_space(s[i]),
    ensures
        trim_start(s) == s.skip(i),
    decreases s.len(),
{
    if i > 0 {
        assert(is_space(s[0]));
        let t = s.skip(1);
        assert forall|j: int| 0 <= j < i - 1 implies is_space(#[trigger] t[j]) by {
            assert(t[j] == s[j + 1]);
        }
        lemma_trim_start_is(t, i - 1);
        assert(t.skip(i - 1) == s.skip(i));
    } else {
        assert(s.skip(0) == s);
    }
}

proof fn lemma_trim_end_is(s: Seq<char>, i: int)
    requires
        0 <= i <= s.len(),
        forall|j: int| i <= j < s.len() ==> is_space(#[trigger] s[j]),
        i > 0 ==> !is_space(s[i - 1]),
    ensures
        trim_end(s) == s.take(i),
    decreases s.len(),
{
    if i < s.len() {
        assert(is_space(s[s.len() - 1]));
        lemma_trim_end_is(s.drop_last(), i);
        assert(s.drop_last().take(i) == s.take(i));
    } else {
        assert(s.take(i) == s);
    }
}

/// A trimmed text neither starts nor ends with whitespace.
pub proof fn lemma_trimmed_ends(s: Seq<char>)
    ensures
        trimmed(s).len() > 0 ==> !is_space(trimmed(s)[0]) && !is_space(trimmed(s).last()),
        trimmed(s).len() <= s.len(),
{
    lemma_trim_start_len(s);
    lemma_trim_end_len(trim_start(s));
}

proof fn lemma_trim_start_len(s: Seq<char>)
    ensures
        trim_start(s).len() <= s.len(),
        trim_start(s).len() > 0 ==> !is_space(trim_start(s)[0]),
    decreases s.len(),
{
    if s.len() > 0 && is_space(s[0]) {
        lemma_trim_start_len(s.skip(1));
    }
}

proof fn lemma_trim_end_len(s: Seq<char>)
    ensures
        trim_end(s).len() <= s.len(),
        trim_end(s).len() > 0 ==> !is_space(trim_end(s).last()) && trim_end(s)[0] == s[0],
    decreases s.len(),
{
    if s.len() > 0 && is_space(s.last()) {
        lemma_trim_end_len(s.drop_last());
    }
}

/// Trimming leaves nothing exactly where there was nothing but whitespace.
pub proof fn lemma_trimmed_blank(s: Seq<char>)
    ensures
        trimmed(s).len() == 0 <==> is_blank(s),
    decreases s.len(),
{
    if s.len() > 0 && is_space(s[0]) {
        let t = s.skip(1);
        lemma_trimmed_blank(t);
        if is_blank(t) {
            assert forall|i: int| 0 <= i < s.len() implies is_space(#[trigger] s[i]) by {
                if i > 0 {
                    assert(s[i] == t[i - 1]);
                }
            }
        }
        if is_blank(s) {
            assert forall|i: int| 0 <= i < t.len() implies is_space(#[trigger] t[i]) by {
                assert(t[i] == s[i + 1]);
            }
        }
    } else if s.len() > 0 {
        assert(trim_start(s) == s);
        lemma_trim_end_keeps(s);
        assert(!is_blank(s));
    }
}

proof fn lemma_trim_end_keeps(s: Seq<char>)
    requires
        s.len() > 0,
        !is_space(s[0]),
    ensures
        trim_end(s).len() > 0,
    decreases s.len(),
{
    if is_space(s.last()) {
        lemma_trim_end_keeps(s.drop_last());
    }
}

/// A text without whitespace around it is its own trimmed text.
pub proof fn lemma_trimmed_idempotent(s: Seq<char>)
    ensures
        trimmed(trimmed(s)) == trimmed(s),
{
    lemma_trimmed_ends(s);
}

/// `chars[from..to]` without the whitespace around it, as its bounds.
fn trim_bounds(chars: &Vec<char>, from: usize, to: usize) -> (bounds: (usize, usize))
    requires
        from <= to <= chars@.len(),
    ensures
        from <= bounds.0 <= bounds.1 <= to,
        chars@.subrange(bounds.0 as int, bounds.1 as int) == trimmed(
            chars@.subrange(from as int, to as int),
        ),
{
    let ghost s = chars@.subrange(from as int, to as int);
    let mut start: usize = from;
    while start < to && is_whitespace(chars[start])
        invariant
            from <= start <= to <= chars@.len(),
            forall|j: int| from <= j < start ==> is_space(#[trigger] chars@[j]),
        decreases to - start,
    {
        start += 1;
    }
    let mut end: usize = to;
    while start < end && is_whitespace(chars[end - 1])
        invariant
            from <= start <= end <= to <= chars@.len(),
            forall|j: int| end <= j < to ==> is_space(#[trigger] chars@[j]),
        decreases end,
    {
        end -= 1;
    }
    proof {
        assert forall|j: int| 0 <= j < start - from implies is_space(#[trigger] s[j]) by {
            assert(s[j] == chars@[j + from]);
        }
        lemma_trim_start_is(s, start - from);
        let t = s.skip(start - from);
        assert forall|j: int| end - start <= j < t.len() implies is_space(#[trigger] t[j]) by {
            assert(t[j] == chars@[j + start]);
        }
        lemma_trim_end_is(t, end - start);
        assert(t.take(end - start) == chars@.subrange(start as int, end as int));
    }
    (start, end)
}

/// `s` without the whitespace around it.
pub fn trim(s: &str) -> (out: String)
    ensures
        out@ == trimmed(s@),
{
    let chars = chars_of(s);
    let (start, end) = trim_bounds(&chars, 0, chars.len());
    assert(chars@.subrange(0, chars@.len() as int) == s@);
    slice_to_string(&chars, start, end)
}

/// The runs of characters between whitespace: what column output such as that
/// of `docker ps` puts in its columns.
pub open spec fn words(s: Seq<char>) -> Seq<Seq<char>>
    decreases s.len(),
{
    if s.len() == 0 {
        Seq::empty()
    } else if is_space(s[0]) {
        words(s.skip(1))
    } else {
        let n = word_len(s);
        proof {
            lemma_word_len(s);
        }
        seq![s.take(n)] + words(s.skip(n))
    }
}

/// How many characters come before the first whitespace.
pub open spec fn word_len(s: Seq<char>) -> int
    decreases s.len(),
{
    if s.len() == 0 || is_space(s[0]) {
        0
    } else {
        1 + word_len(s.skip(1))
    }
}

/// `word_len` counts up to the first whitespace or the end.
pub proof fn lemma_word_len(s: Seq<char>)
    ensures
        0 <= word_len(s) <= s.len(),
        s.len() > 0 && !is_space(s[0]) ==> word_len(s) > 0,
        word_len(s) < s.len() ==> is_space(s[word_len(s)]),
        forall|j: int| 0 <= j < word_len(s) ==> !is_space(#[trigger] s[j]),
    decreases s.len(),
{
    if s.len() > 0 && !is_space(s[0]) {
        let t = s.skip(1);
        lemma_word_len(t);
        assert forall|j: int| 0 <= j < word_len(s) implies !is_space(#[trigger] s[j]) by {
            if j > 0 {
                assert(s[j] == t[j - 1]);
            }
        }
    }
}

proof fn lemma_word_len_is(s: Seq<char>, n: int)
    requires
        0 <= n <= s.len(),
        n < s.len() ==> is_space(s[n]),
        forall|j: int| 0 <= j < n ==> !is_space(#[trigger] s[j]),
    ensures
        word_len(s) == n,
{
    lemma_word_len(s);
    if word_len(s) < n {
        assert(is_space(s[word_len(s)]));
    }
    if n < word_len(s) {
        assert(!is_space(s[n]));
    }
}

/// The words of `s`, each a slice of it.
pub fn split_words<'a>(s: &'a str) -> (out: Vec<&'a str>)
    ensures
        out.deep_view() == words(s@),
{
    let chars = chars_of(s);
    let mut out: Vec<&'a str> = Vec::new();
    let mut i: usize = 0;
    assert(chars@.skip(0) == s@);
    assert(out.deep_view() + words(chars@.skip(0)) == words(s@));
    while i < chars.len()
        invariant
            i <= chars@.len(),
            chars@ == s@,
            out.deep_view() + words(chars@.skip(i as int)) == words(s@),
        decreases chars@.len() - i,
    {
        let ghost rest = chars@.skip(i as int);
        if is_whitespace(chars[i]) {
            assert(rest[0] == chars@[i as int]);
            assert(rest.skip(1) == chars@.skip(i + 1));
            i += 1;
        } else {
            let start: usize = i;
            while i < chars.len() && !is_whitespace(chars[i])
                invariant
                    start <= i <= chars@.len(),
                    forall|j: int| start <= j < i ==> !is_space(#[trigger] chars@[j]),
                decreases chars@.len() - i,
            {
                i += 1;
            }
            let word = s.substring_char(start, i);
            let ghost before = out.deep_view();
            out.push(word);
            proof {
                let n = i - start;
                assert forall|j: int| 0 <= j < n implies !is_space(#[trigger] rest[j]) by {
                    assert(rest[j] == chars@[j + start]);
                }
                lemma_word_len_is(rest, n);
                assert(rest.take(n) == word@);
                assert(rest.skip(n) == chars@.skip(i as int));
                assert(rest[0] == chars@[start as int]);
                assert(out.deep_view() == before.push(word@));
                assert(before + (seq![word@] + words(rest.skip(n))) == out.deep_view() + words(
                    rest.skip(n),
                ));
            }
        }
    }
    assert(words(chars@.skip(i as int)) == Seq::<Seq<char>>::empty());
    out
}

/// A text that is not empty and holds no whitespace.
pub open spec fn is_word(w: Seq<char>) -> bool {
    w.len() > 0 && forall|j: int| 0 <= j < w.len() ==> !is_space(#[trigger] w[j])
}

/// No word is empty or holds whitespace.
pub proof fn lemma_words_are_words(s: Seq<char>)
    ensures
        forall|i: int| 0 <= i < words(s).len() ==> is_word(#[trigger] words(s)[i]),
    decreases s.len(),
{
    if s.len() > 0 {
        if is_space(s[0]) {
            lemma_words_are_words(s.skip(1));
            assert(words(s) == words(s.skip(1)));
        } else {
            let n = word_len(s);
            lemma_word_len(s);
            let rest = words(s.skip(n));
            lemma_words_are_words(s.skip(n));
            assert forall|i: int| 0 <= i < words(s).len() implies is_word(
                #[trigger] words(s)[i],
            ) by {
                if i == 0 {
                    assert(words(s)[0] == s.take(n));
                } else {
                    assert(words(s)[i] == rest[i - 1]);
                }
            }
        }
    }
}

// ---------------------------------------------------------------------------
// Patterns of several characters
// ---------------------------------------------------------------------------
/// Whether `pat` stands in `s` at index `i`.
pub open spec fn occurs_at(s: Seq<char>, pat: Seq<char>, i: int) -> bool {
    0 <= i && i + pat.len() <= s.len() && s.subrange(i, i + pat.len()) == pat
}

/// The index at which `pat` first stands in `s`.
pub open spec fn occurrence(s: Seq<char>, pat: Seq<char>) -> Option<int>
    decreases s.len(),
{
    if occurs_at(s, pat, 0) {
        Some(0)
    } else if s.len() == 0 {
        None
    } else {
        match occurrence(s.skip(1), pat) {
            Some(i) => Some(i + 1),
            None => None,
        }
    }
}

/// Whether `pat` stands anywhere in `s`.
pub open spec fn has_occurrence(s: Seq<char>, pat: Seq<char>) -> bool {
    exists|i: int| occurs_at(s, pat, i)
}

proof fn lemma_occurs_at_skip(s: Seq<char>, pat: Seq<char>, n: int, i: int)
    requires
        0 <= n <= s.len(),
        0 <= i,
    ensures
        occurs_at(s.skip(n), pat, i) == occurs_at(s, pat, i + n),
{
    if i + n + pat.len() <= s.len() {
        assert(s.skip(n).subrange(i, i + pat.len()) == s.subrange(i + n, i + n + pat.len()));
    }
}

/// `occurrence` is the least index at which the pattern stands.
pub proof fn lemma_occurrence(s: Seq<char>, pat: Seq<char>)
    ensures
        match occurrence(s, pat) {
            Some(i) => occurs_at(s, pat, i) && forall|j: int| 0 <= j < i ==> !occurs_at(s, pat, j),
            None => forall|j: int| !occurs_at(s, pat, j),
        },
    decreases s.len(),
{
    if !occurs_at(s, pat, 0) && s.len() > 0 {
        lemma_occurrence(s.skip(1), pat);
        assert forall|j: int| 1 <= j implies occurs_at(s, pat, j) == occurs_at(
            s.skip(1),
            pat,
            j - 1,
        ) by {
            lemma_occurs_at_skip(s, pat, 1, j - 1);
        }
        assert forall|j: int| j < 0 implies !occurs_at(s, pat, j) by {}
    }
}

/// An index that meets the description of `occurrence` is `occurrence`.
pub proof fn lemma_occurrence_is(s: Seq<char>, pat: Seq<char>, i: int)
    requires
        occurs_at(s, pat, i),
        forall|j: int| 0 <= j < i ==> !occurs_at(s, pat, j),
    ensures
        occurrence(s, pat) == Some(i),
{
    lemma_occurrence(s, pat);
}

/// Whether `pat` stands in `chars` at index `at`.
fn pattern_at(chars: &Vec<char>, pat: &Vec<char>, at: usize) -> (found: bool)
    requires
        at <= chars@.len(),
    ensures
        found == occurs_at(chars@, pat@, at as int),
{
    if pat.len() > chars.len() - at {
        return false;
    }
    let mut k: usize = 0;
    while k < pat.len()
        invariant
            k <= pat@.len(),
            at + pat@.len() <= chars.len(),
            forall|j: int| 0 <= j < k ==> chars@[at + j] == #[trigger] pat@[j],
        decreases pat@.len() - k,
    {
        if chars[at + k] != pat[k] {
            assert(chars@.subrange(at as int, at + pat@.len())[k as int] != pat@[k as int]);
            return false;
        }
        k += 1;
    }
    assert(chars@.subrange(at as int, at + pat@.len()) == pat@);
    true
}

/// The index of the first `pat` at or after `from`.
fn find_pattern(chars: &Vec<char>, from: usize, pat: &Vec<char>) -> (at: Option<usize>)
    requires
        from <= chars@.len(),
    ensures
        match at {
            Some(i) => from <= i && occurrence(chars@.skip(from as int), pat@) == Some(i - from),
            None => occurrence(chars@.skip(from as int), pat@) is None,
        },
{
    let ghost rest = chars@.skip(from as int);
    let mut i: usize = from;
    while i < chars.len()
        invariant
            from <= i <= chars@.len(),
            rest == chars@.skip(from as int),
            forall|j: int| 0 <= j < i - from ==> !occurs_at(rest, pat@, j),
        decreases chars@.len() - i,
    {
        proof {
            lemma_occurs_at_skip(chars@, pat@, from as int, i - from);
        }
        if pattern_at(chars, pat, i) {
            proof {
                lemma_occurrence_is(rest, pat@, i - from);
            }
            return Some(i);
        }
        i += 1;
    }
    proof {
        lemma_occurs_at_skip(chars@, pat@, from as int, i - from);
    }
    if pattern_at(chars, pat, i) {
        proof {
            lemma_occurrence_is(rest, pat@, i - from);
        }
        Some(i)
    } else {
        proof {
            lemma_occurrence(rest, pat@);
        }
        None
    }
}

/// The pieces of `s` between the occurrences of `pat`, found from the left.
pub open spec fn split(s: Seq<char>, pat: Seq<char>) -> Seq<Seq<char>>
    decreases s.len(),
{
    match occurrence(s, pat) {
        Some(i) => if 0 < pat.len() && 0 <= i && i + pat.len() <= s.len() {
            seq![s.take(i)] + split(s.skip(i + pat.len()), pat)
        } else {
            seq![s]
        },
        None => seq![s],
    }
}

/// The pieces in order, with `sep` between each two.
pub open spec fn join(pieces: Seq<Seq<char>>, sep: Seq<char>) -> Seq<char>
    decreases pieces.len(),
{
    if pieces.len() == 0 {
        Seq::empty()
    } else if pieces.len() == 1 {
        pieces[0]
    } else {
        pieces[0] + sep + join(pieces.skip(1), sep)
    }
}

/// `s` with `with` in place of every occurrence of `pat`, found from the left.
pub open spec fn replaced(s: Seq<char>, pat: Seq<char>, with: Seq<char>) -> Seq<char> {
    join(split(s, pat), with)
}

/// What comes first among the pieces, and what is left to be split.
pub proof fn lemma_split_step(s: Seq<char>, pat: Seq<char>)
    requires
        pat.len() > 0,
    ensures
        split(s, pat).len() > 0,
        match occurrence(s, pat) {
            Some(i) => 0 <= i && i + pat.len() <= s.len() && split(s, pat) == seq![s.take(i)]
                + split(s.skip(i + pat.len()), pat),
            None => split(s, pat) == seq![s],
        },
{
    lemma_occurrence(s, pat);
}

proof fn lemma_join_front(first: Seq<char>, rest: Seq<Seq<char>>, sep: Seq<char>)
    requires
        rest.len() > 0,
    ensures
        join(seq![first] + rest, sep) == first + sep + join(rest, sep),
{
    assert((seq![first] + rest).skip(1) == rest);
}

/// Joining the pieces with the pattern gives the text back.
pub proof fn lemma_join_split(s: Seq<char>, pat: Seq<char>)
    requires
        pat.len() > 0,
    ensures
        join(split(s, pat), pat) == s,
    decreases s.len(),
{
    lemma_split_step(s, pat);
    lemma_occurrence(s, pat);
    if let Some(i) = occurrence(s, pat) {
        let rest = s.skip(i + pat.len());
        lemma_join_split(rest, pat);
        lemma_split_step(rest, pat);
        lemma_join_front(s.take(i), split(rest, pat), pat);
        assert(s == s.take(i) + pat + rest) by {
            assert(s.subrange(i, i + pat.len()) == pat);
            assert(s.take(i) + s.subrange(i, i + pat.len()) + rest == s);
        }
    }
}

/// No piece holds the pattern.
pub proof fn lemma_split_pieces(s: Seq<char>, pat: Seq<char>)
    requires
        pat.len() > 0,
    ensures
        forall|k: int|
            0 <= k < split(s, pat).len() ==> !has_occurrence(#[trigger] split(s, pat)[k], pat),
    decreases s.len(),
{
    lemma_split_step(s, pat);
    lemma_occurrence(s, pat);
    match occurrence(s, pat) {
        Some(i) => {
            let rest = s.skip(i + pat.len());
            lemma_split_pieces(rest, pat);
            assert forall|k: int| 0 <= k < split(s, pat).len() implies !has_occurrence(
                #[trigger] split(s, pat)[k],
                pat,
            ) by {
                if k == 0 {
                    let piece = s.take(i);
                    assert forall|j: int| !occurs_at(piece, pat, j) by {
                        if occurs_at(piece, pat, j) {
                            assert(piece.subrange(j, j + pat.len()) == s.subrange(
                                j,
                                j + pat.len(),
                            ));
                            assert(occurs_at(s, pat, j));
                        }
                    }
                } else {
                    assert(split(s, pat)[k] == split(rest, pat)[k - 1]);
                }
            }
        },
        None => {},
    }
}

/// Where the pattern stands nowhere, nothing is replaced.
pub proof fn lemma_replaced_none(s: Seq<char>, pat: Seq<char>, with: Seq<char>)
    requires
        pat.len() > 0,
        !has_occurrence(s, pat),
    ensures
        replaced(s, pat, with) == s,
{
    lemma_occurrence(s, pat);
    lemma_split_step(s, pat);
    if let Some(i) = occurrence(s, pat) {
        assert(occurs_at(s, pat, i));
    }
}

/// The pieces of `s` between the occurrences of `pat`, each a slice of `s`.
pub fn split_on<'a>(s: &'a str, pat: &str) -> (out: Vec<&'a str>)
    requires
        pat@.len() > 0,
    ensures
        out.deep_view() == split(s@, pat@),
{
    let chars = chars_of(s);
    let pattern = chars_of(pat);
    let mut out: Vec<&'a str> = Vec::new();
    let mut i: usize = 0;
    assert(chars@.skip(0) == s@);
    assert(out.deep_view() + split(chars@.skip(0), pat@) == split(s@, pat@));
    loop
        invariant
            i <= chars@.len(),
            chars@ == s@,
            pattern@ == pat@,
            pat@.len() > 0,
            out.deep_view() + split(chars@.skip(i as int), pat@) == split(s@, pat@),
        ensures
            i <= chars@.len(),
            out.deep_view() + split(chars@.skip(i as int), pat@) == split(s@, pat@),
            occurrence(chars@.skip(i as int), pat@) is None,
        decreases chars@.len() - i,
    {
        let at: usize = match find_pattern(&chars, i, &pattern) {
            Some(at) => at,
            None => {
                break;
            },
        };
        let ghost rest = chars@.skip(i as int);
        let ghost before = out.deep_view();
        proof {
            lemma_split_step(rest, pat@);
        }
        let piece = s.substring_char(i, at);
        out.push(piece);
        proof {
            assert(piece@ == rest.take(at - i));
            assert(rest.skip(at - i + pat@.len()) == chars@.skip(at + pat@.len()));
            assert(out.deep_view() == before.push(piece@));
            let tail = split(chars@.skip(at + pat@.len()), pat@);
            assert(before + (seq![piece@] + tail) == out.deep_view() + tail);
        }
        assert(at + pat@.len() <= chars.len());
        i = at + pattern.len();
    }
    let ghost before = out.deep_view();
    let ghost rest = chars@.skip(i as int);
    proof {
        lemma_split_step(rest, pat@);
    }
    let piece = s.substring_char(i, chars.len());
    out.push(piece);
    proof {
        assert(piece@ == rest);
        assert(out.deep_view() == before + seq![rest]);
    }
    out
}

/// `s` with `with` in place of every occurrence of `pat`.
pub fn replace(s: &str, pat: &str, with: &str) -> (out: String)
    requires
        pat@.len() > 0,
    ensures
        out@ == replaced(s@, pat@, with@),
{
    let chars = chars_of(s);
    let pattern = chars_of(pat);
    let mut out = String::new();
    let mut i: usize = 0;
    assert(chars@.skip(0) == s@);
    assert(out@ + replaced(chars@.skip(0), pat@, with@) == replaced(s@, pat@, with@));
    loop
        invariant
            i <= chars@.len(),
            chars@ == s@,
            pattern@ == pat@,
            pat@.len() > 0,
            out@ + replaced(chars@.skip(i as int), pat@, with@) == replaced(s@, pat@, with@),
        ensures
            i <= chars@.len(),
            out@ + replaced(chars@.skip(i as int), pat@, with@) == replaced(s@, pat@, with@),
            occurrence(chars@.skip(i as int), pat@) is None,
        decreases chars@.len() - i,
    {
        let at: usize = match find_pattern(&chars, i, &pattern) {
            Some(at) => at,
            None => {
                break;
            },
        };
        let ghost rest = chars@.skip(i as int);
        let ghost before = out@;
        proof {
            lemma_split_step(rest, pat@);
        }
        push_chars(&mut out, &chars, i, at);
        out.append(with);
        proof {
            let tail = chars@.skip(at + pat@.len());
            assert(rest.skip(at - i + pat@.len()) == tail);
            lemma_split_step(tail, pat@);
            lemma_join_front(rest.take(at - i), split(tail, pat@), with@);
            assert(chars@.subrange(i as int, at as int) == rest.take(at - i));
            assert(before + (rest.take(at - i) + with@ + replaced(tail, pat@, with@)) == out@
                + replaced(tail, pat@, with@));
        }
        assert(at + pat@.len() <= chars.len());
        i = at + pattern.len();
    }
    let ghost rest = chars@.skip(i as int);
    proof {
        lemma_split_step(rest, pat@);
        assert(chars@.subrange(i as int, chars@.len() as int) == rest);
    }
    push_chars(&mut out, &chars, i, chars.len());
    out
}

/// Whether `pat` stands anywhere in `s`.
pub fn contains(s: &str, pat: &str) -> (found: bool)
    ensures
        found == has_occurrence(s@, pat@),
{
    let chars = chars_of(s);
    let pattern = chars_of(pat);
    assert(chars@.skip(0) == s@);
    proof {
        lemma_occurrence(s@, pat@);
    }
    let found = find_pattern(&chars, 0, &pattern).is_some();
    proof {
        if let Some(i) = occurrence(s@, pat@) {
            assert(occurs_at(s@, pat@, i));
        }
    }
    found
}

/// Whether two texts hold the same characters.
pub fn same_text(a: &str, b: &str) -> (same: bool)
    ensures
        same == (a@ == b@),
{
    let left = chars_of(a);
    let right = chars_of(b);
    if left.len() != right.len() {
        return false;
    }
    let mut i: usize = 0;
    while i < left.len()
        invariant
            i <= left@.len(),
            left@.len() == right@.len(),
            left@ == a@,
            right@ == b@,
            forall|j: int| 0 <= j < i ==> left@[j] == right@[j],
        decreases left@.len() - i,
    {
        if left[i] != right[i] {
            return false;
        }
        i += 1;
    }
    assert(left@ == right@);
    true
}

// ---------------------------------------------------------------------------
// Lines
// ---------------------------------------------------------------------------
/// The first of `pieces` that is not blank, without the whitespace around it.
pub open spec fn first_detail_of(pieces: Seq<Seq<char>>) -> Option<Seq<char>>
    decreases pieces.len(),
{
    if pieces.len() == 0 {
        None
    } else if !is_blank(pieces[0]) {
        Some(trimmed(pieces[0]))
    } else {
        first_detail_of(pieces.skip(1))
    }
}

/// The first line of `s` that is not blank, without the whitespace around it.
pub open spec fn first_detail_spec(s: Seq<char>) -> Option<Seq<char>> {
    first_detail_of(split(s, seq!['\n']))
}

/// Whether `s` holds nothing but whitespace.
pub fn blank(s: &str) -> (b: bool)
    ensures
        b == is_blank(s@),
{
    let text = trim(s);
    proof {
        lemma_trimmed_blank(s@);
    }
    text.as_str().is_empty()
}

/// The first line of `s` that is not blank, without the whitespace around it.
pub fn first_detail(s: &str) -> (detail: Option<String>)
    ensures
        detail.deep_view() == first_detail_spec(s@),
{
    proof {
        reveal_strlit("\n");
    }
    assert("\n"@ == seq!['\n']);
    let pieces = split_on(s, "\n");
    let ghost all = pieces.deep_view();
    let mut i: usize = 0;
    assert(all.skip(0) == all);
    while i < pieces.len()
        invariant
            i <= pieces@.len(),
            all == pieces.deep_view(),
            first_detail_of(all) == first_detail_of(all.skip(i as int)),
            all == split(s@, seq!['\n']),
        decreases pieces@.len() - i,
    {
        assert(all.skip(i as int)[0] == pieces@[i as int]@);
        if !blank(pieces[i]) {
            return Some(trim(pieces[i]));
        }
        assert(all.skip(i as int).skip(1) == all.skip(i + 1));
        i += 1;
    }
    None
}

// ---------------------------------------------------------------------------
// Numerals
// ---------------------------------------------------------------------------
/// The character of a decimal digit.
pub open spec fn digit_char(d: int) -> char {
    (48 + d) as char
}

/// The decimal numeral of `n`.
pub open spec fn digits(n: nat) -> Seq<char>
    decreases n,
{
    if n < 10 {
        seq![digit_char(n as int)]
    } else {
        digits(n / 10).push(digit_char((n % 10) as int))
    }
}

/// The decimal numeral of `n`, with a minus sign where it is negative.
pub open spec fn decimal(n: int) -> Seq<char> {
    if n < 0 {
        seq!['-'] + digits((-n) as nat)
    } else {
        digits(n as nat)
    }
}

/// Appends the decimal numeral of `n`.
pub fn push_digits(out: &mut String, n: u64)
    ensures
        final(out)@ == old(out)@ + digits(n as nat),
    decreases n,
{
    if n >= 10 {
        push_digits(out, n / 10);
    }
    let d: u8 = (n % 10) as u8;
    out.push((48 + d) as char);
    assert(out@ == old(out)@ + digits(n as nat));
}

/// The decimal numeral of `n`.
pub fn usize_text(n: usize) -> (out: String)
    ensures
        out@ == digits(n as nat),
{
    let mut out = String::new();
    push_digits(&mut out, n as u64);
    assert(out@ == digits(n as nat));
    out
}

/// The decimal numeral of `n`, with a minus sign where it is negative.
pub fn i64_text(n: i64) -> (out: String)
    ensures
        out@ == decimal(n as int),
{
    let mut out = String::new();
    if n < 0 {
        out.push('-');
        if n == i64::MIN {
            push_digits(&mut out, 9223372036854775808);
        } else {
            push_digits(&mut out, (-n) as u64);
        }
    } else {
        push_digits(&mut out, n as u64);
    }
    assert(out@ == decimal(n as int));
    out
}

/// Whether `c` is one of the ten ASCII digits.
pub open spec fn is_digit(c: char) -> bool {
    '0' <= c <= '9'
}

/// Whether `s` holds nothing but ASCII digits.
pub open spec fn all_digits(s: Seq<char>) -> bool {
    forall|i: int| 0 <= i < s.len() ==> is_digit(#[trigger] s[i])
}

/// The number that a run of digits stands for.
pub open spec fn digits_value(s: Seq<char>) -> nat
    decreases s.len(),
{
    if s.len() == 0 {
        0
    } else {
        (10 * digits_value(s.drop_last()) + (s.last() as int - 48)) as nat
    }
}

/// The number that `s` stands for: digits, after a plus sign or none.
pub open spec fn number(s: Seq<char>) -> Option<nat> {
    let run = if s.len() > 0 && s[0] == '+' {
        s.skip(1)
    } else {
        s
    };
    if run.len() > 0 && all_digits(run) {
        Some(digits_value(run))
    } else {
        None
    }
}

proof fn lemma_digits_value_grows(s: Seq<char>, n: int)
    requires
        all_digits(s),
        0 <= n <= s.len(),
    ensures
        digits_value(s.take(n)) <= digits_value(s),
    decreases s.len() - n,
{
    if n == s.len() {
        assert(s.take(n) == s);
    } else {
        lemma_digits_value_grows(s, n + 1);
        assert(s.take(n + 1).drop_last() == s.take(n));
        assert(is_digit(s[n]));
        assert(s.take(n + 1).last() == s[n]);
    }
}

/// A numeral stands for the number it was written from.
pub proof fn lemma_number_of_digits(n: nat)
    ensures
        digits(n).len() > 0,
        all_digits(digits(n)),
        digits_value(digits(n)) == n,
        number(digits(n)) == Some(n),
    decreases n,
{
    let d = (n % 10) as int;
    assert(is_digit(digit_char(d)));
    assert(digit_char(d) as int - 48 == d);
    assert(digits(n).last() == digit_char(d));
    if n >= 10 {
        lemma_number_of_digits(n / 10);
        let front = digits(n / 10);
        assert(digits(n).drop_last() == front);
        assert forall|i: int| 0 <= i < digits(n).len() implies is_digit(#[trigger] digits(n)[i]) by {
            if i < front.len() {
                assert(digits(n)[i] == front[i]);
            }
        }
        assert(digits(n)[0] == front[0]);
    } else {
        assert(digits(n).drop_last() == Seq::<char>::empty());
        assert(digits_value(Seq::<char>::empty()) == 0);
    }
    assert(is_digit(digits(n)[0]));
}

/// The number that `chars[from..to]` stands for, where a `usize` can hold it.
pub fn parse_usize(chars: &Vec<char>, from: usize, to: usize) -> (n: Option<usize>)
    requires
        from <= to <= chars@.len(),
    ensures
        match (n, number(chars@.subrange(from as int, to as int))) {
            (Some(n), Some(value)) => n == value,
            (Some(_), None) => false,
            (None, Some(value)) => value > usize::MAX,
            (None, None) => true,
        },
{
    let ghost text = chars@.subrange(from as int, to as int);
    let mut start: usize = from;
    if from < to && chars[from] == '+' {
        start = from + 1;
    }
    let ghost run = chars@.subrange(start as int, to as int);
    assert(start > from ==> run == text.skip(1));
    assert(start == from ==> run == text);
    assert(from < to ==> text[0] == chars@[from as int]);
    if start == to {
        return None;
    }
    let mut value: usize = 0;
    let mut i: usize = start;
    assert(run.take(0) == Seq::<char>::empty());
    while i < to
        invariant
            from <= start <= i <= to <= chars@.len(),
            run == chars@.subrange(start as int, to as int),
            text == chars@.subrange(from as int, to as int),
            number(text) == (if run.len() > 0 && all_digits(run) {
                Some(digits_value(run))
            } else {
                None
            }),
            forall|j: int| 0 <= j < i - start ==> is_digit(#[trigger] run[j]),
            value == digits_value(run.take(i - start)),
        decreases to - i,
    {
        let c = chars[i];
        let ghost k = i - start;
        assert(run[k] == c);
        if c < '0' || '9' < c {
            assert(!is_digit(run[k]));
            return None;
        }
        let digit: usize = (c as u32 - 48) as usize;
        proof {
            assert(run.take(k + 1).drop_last() == run.take(k));
            assert(run.take(k + 1).last() == c);
            if all_digits(run) {
                lemma_digits_value_grows(run, k + 1);
            }
        }
        value = match value.checked_mul(10) {
            Some(tens) => match tens.checked_add(digit) {
                Some(sum) => sum,
                None => {
                    return None;
                },
            },
            None => {
                return None;
            },
        };
        i += 1;
    }
    assert(run.take(i - start) == run);
    Some(value)
}

// ---------------------------------------------------------------------------
// Laws
// ---------------------------------------------------------------------------
/// Whether nothing but whitespace stands in `s` before `i` and from `j` on, and
/// none at the ends of what lies between.
pub open spec fn lies_between_spaces(s: Seq<char>, i: int, j: int) -> bool {
    &&& 0 <= i <= j <= s.len()
    &&& forall|k: int| 0 <= k < i ==> is_space(#[trigger] s[k])
    &&& forall|k: int| j <= k < s.len() ==> is_space(#[trigger] s[k])
    &&& i < j ==> !is_space(s[i]) && !is_space(s[j - 1])
}

/// Trimming takes nothing but whitespace off the ends, and all of that: what is
/// left is a stretch of the text, with whitespace alone before and behind it
/// and none at its own ends.
pub proof fn law_trimming_keeps_the_middle(s: Seq<char>)
    ensures
        exists|i: int, j: int|
            #[trigger] lies_between_spaces(s, i, j) && trimmed(s) == s.subrange(i, j),
{
    let i = lemma_trim_start_at(s);
    let t = s.skip(i);
    let n = lemma_trim_end_at(t);
    assert forall|k: int| i + n <= k < s.len() implies is_space(#[trigger] s[k]) by {
        assert(s[k] == t[k - i]);
    }
    if n > 0 {
        assert(t[n - 1] == s[i + n - 1]);
    }
    assert(lies_between_spaces(s, i, i + n));
    assert(t.take(n) == s.subrange(i, i + n));
}

proof fn lemma_trim_start_at(s: Seq<char>) -> (i: int)
    ensures
        0 <= i <= s.len(),
        trim_start(s) == s.skip(i),
        forall|k: int| 0 <= k < i ==> is_space(#[trigger] s[k]),
        i < s.len() ==> !is_space(s[i]),
    decreases s.len(),
{
    if s.len() > 0 && is_space(s[0]) {
        let t = s.skip(1);
        let i = lemma_trim_start_at(t);
        assert forall|k: int| 0 <= k < i + 1 implies is_space(#[trigger] s[k]) by {
            if k > 0 {
                assert(s[k] == t[k - 1]);
            }
        }
        assert(t.skip(i) == s.skip(i + 1));
        i + 1
    } else {
        assert(s.skip(0) == s);
        0
    }
}

proof fn lemma_trim_end_at(s: Seq<char>) -> (n: int)
    ensures
        0 <= n <= s.len(),
        trim_end(s) == s.take(n),
        forall|k: int| n <= k < s.len() ==> is_space(#[trigger] s[k]),
        n > 0 ==> !is_space(s[n - 1]),
    decreases s.len(),
{
    if s.len() > 0 && is_space(s.last()) {
        let t = s.drop_last();
        let n = lemma_trim_end_at(t);
        assert forall|k: int| n <= k < s.len() implies is_space(#[trigger] s[k]) by {
            if k < t.len() {
                assert(s[k] == t[k]);
            }
        }
        assert(t.take(n) == s.take(n));
        n
    } else {
        assert(s.take(s.len() as int) == s);
        s.len() as int
    }
}

/// A text that neither begins nor ends with whitespace is trimmed to itself, and
/// so is the text with any whitespace put around it.
pub proof fn law_trimming_undoes_padding(before: Seq<char>, s: Seq<char>, after: Seq<char>)
    requires
        is_blank(before),
        is_blank(after),
        s.len() > 0 ==> !is_space(s[0]) && !is_space(s.last()),
    ensures
        trimmed(before + s + after) == s,
{
    let whole = before + s + after;
    if s.len() == 0 {
        assert forall|i: int| 0 <= i < whole.len() implies is_space(#[trigger] whole[i]) by {
            if i < before.len() {
                assert(whole[i] == before[i]);
            } else {
                assert(whole[i] == after[i - before.len()]);
            }
        }
        lemma_trimmed_blank(whole);
        assert(trimmed(whole) == s);
    } else {
        let n = before.len() as int;
        assert forall|j: int| 0 <= j < n implies is_space(#[trigger] whole[j]) by {
            assert(whole[j] == before[j]);
        }
        assert(whole[n] == s[0]);
        lemma_trim_start_is(whole, n);
        let t = whole.skip(n);
        assert(t == s + after);
        assert forall|j: int| s.len() <= j < t.len() implies is_space(#[trigger] t[j]) by {
            assert(t[j] == after[j - s.len()]);
        }
        assert(t[s.len() - 1] == s.last());
        lemma_trim_end_is(t, s.len() as int);
        assert(t.take(s.len() as int) == s);
    }
}

/// Whitespace is what Unicode calls so, by code point.
pub proof fn law_whitespace_code_points(c: char)
    ensures
        is_space(c) <==> {
            let code = c as u32;
            ||| 9 <= code <= 13
            ||| code == 32
            ||| code == 133
            ||| code == 160
            ||| code == 5760
            ||| 8192 <= code <= 8202
            ||| code == 8232
            ||| code == 8233
            ||| code == 8239
            ||| code == 8287
            ||| code == 12288
        },
{
}

/// A text without whitespace is one word, and there are no words in no text.
pub proof fn law_one_word(w: Seq<char>)
    requires
        forall|j: int| 0 <= j < w.len() ==> !is_space(#[trigger] w[j]),
    ensures
        w.len() > 0 ==> words(w) == seq![w],
        w.len() == 0 ==> words(w) == Seq::<Seq<char>>::empty(),
{
    if w.len() > 0 {
        lemma_word_len_is(w, w.len() as int);
        assert(w.take(w.len() as int) == w);
        assert(words(w.skip(w.len() as int)) == Seq::<Seq<char>>::empty());
        assert(seq![w] + Seq::<Seq<char>>::empty() == seq![w]);
    }
}

/// Whitespace parts words: those of a text are those before it and those behind.
pub proof fn law_whitespace_parts_words(a: Seq<char>, space: char, b: Seq<char>)
    requires
        is_space(space),
    ensures
        words(a.push(space) + b) == words(a) + words(b),
    decreases a.len(),
{
    let whole = a.push(space) + b;
    if a.len() == 0 {
        assert(whole[0] == space);
        assert(whole.skip(1) == b);
        assert(words(a) + words(b) == words(b));
    } else if is_space(a[0]) {
        assert(whole[0] == a[0]);
        assert(whole.skip(1) == a.skip(1).push(space) + b);
        law_whitespace_parts_words(a.skip(1), space, b);
    } else {
        let n = word_len(a);
        lemma_word_len(a);
        assert forall|j: int| 0 <= j < n implies !is_space(#[trigger] whole[j]) by {
            assert(whole[j] == a[j]);
        }
        if n < a.len() {
            assert(whole[n] == a[n]);
        } else {
            assert(whole[n] == space);
        }
        lemma_word_len_is(whole, n);
        assert(whole[0] == a[0]);
        assert(whole.take(n) == a.take(n));
        assert(whole.skip(n) == a.skip(n).push(space) + b);
        law_whitespace_parts_words(a.skip(n), space, b);
        assert(seq![a.take(n)] + (words(a.skip(n)) + words(b)) == seq![a.take(n)] + words(a.skip(n))
            + words(b));
    }
}

/// A pattern stands at an index exactly where the text is something of that
/// length, the pattern, and something else.
pub proof fn law_occurring_is_standing_between(s: Seq<char>, pat: Seq<char>, i: int)
    ensures
        occurs_at(s, pat, i) <==> exists|a: Seq<char>, b: Seq<char>|
            a.len() == i && s == #[trigger] (a + pat + b),
{
    if occurs_at(s, pat, i) {
        let a = s.take(i);
        let b = s.skip(i + pat.len());
        assert(s.subrange(i, i + pat.len()) == pat);
        assert(s == a + pat + b) by {
            assert(a + s.subrange(i, i + pat.len()) + b == s);
        }
    }
    if exists|a: Seq<char>, b: Seq<char>| a.len() == i && s == #[trigger] (a + pat + b) {
        let (a, b) = choose|a: Seq<char>, b: Seq<char>|
            a.len() == i && s == #[trigger] (a + pat + b);
        assert((a + pat + b).subrange(i, i + pat.len()) == pat);
    }
}

/// A text is split where the pattern first stands in it, and the rest behind
/// that on its own; a text without the pattern is one piece.
pub proof fn law_split_goes_from_the_left(a: Seq<char>, pat: Seq<char>, b: Seq<char>)
    requires
        pat.len() > 0,
    ensures
        !has_occurrence(a, pat) ==> split(a, pat) == seq![a],
        (forall|j: int| 0 <= j < a.len() ==> !occurs_at(a + pat + b, pat, j)) ==> split(
            a + pat + b,
            pat,
        ) == seq![a] + split(b, pat),
{
    lemma_occurrence(a, pat);
    if !has_occurrence(a, pat) {
        if let Some(i) = occurrence(a, pat) {
            assert(occurs_at(a, pat, i));
        }
    }
    let whole = a + pat + b;
    let n = a.len() as int;
    assert(whole.subrange(n, n + pat.len()) == pat);
    if forall|j: int| 0 <= j < a.len() ==> !occurs_at(whole, pat, j) {
        lemma_occurrence_is(whole, pat, n);
        lemma_split_step(whole, pat);
        assert(whole.take(n) == a);
        assert(whole.skip(n + pat.len()) == b);
    }
}

/// Splitting loses nothing but the patterns between the pieces, and leaves none
/// in them.
pub proof fn law_split_is_undone_by_join(s: Seq<char>, pat: Seq<char>)
    requires
        pat.len() > 0,
    ensures
        split(s, pat).len() > 0,
        join(split(s, pat), pat) == s,
        forall|k: int, i: int|
            0 <= k < split(s, pat).len() ==> !#[trigger] occurs_at(split(s, pat)[k], pat, i),
{
    lemma_split_step(s, pat);
    lemma_join_split(s, pat);
    lemma_split_pieces(s, pat);
    assert forall|k: int, i: int| 0 <= k < split(s, pat).len() implies !#[trigger] occurs_at(
        split(s, pat)[k],
        pat,
        i,
    ) by {
        assert(!has_occurrence(split(s, pat)[k], pat));
    }
}

/// Joining puts the separator between each two pieces and nowhere else.
pub proof fn law_join_separates(pieces: Seq<Seq<char>>, piece: Seq<char>, sep: Seq<char>)
    ensures
        join(Seq::<Seq<char>>::empty(), sep) == Seq::<char>::empty(),
        join(seq![piece], sep) == piece,
        pieces.len() > 0 ==> join(pieces.push(piece), sep) == join(pieces, sep) + sep + piece,
    decreases pieces.len(),
{
    if pieces.len() == 1 {
        let two = pieces.push(piece);
        assert(two.skip(1) == seq![piece]);
        assert(join(seq![piece], sep) == piece);
        assert(join(two, sep) == two[0] + sep + join(two.skip(1), sep));
    } else if pieces.len() > 1 {
        law_join_separates(pieces.skip(1), piece, sep);
        assert(pieces.push(piece).skip(1) == pieces.skip(1).push(piece));
        assert(pieces[0] + sep + (join(pieces.skip(1), sep) + sep + piece) == pieces[0] + sep + join(
            pieces.skip(1),
            sep,
        ) + sep + piece);
    }
}

/// What stands in place of the first pattern is the replacement, with all
/// before it kept and the rest behind it replaced on its own; a text without
/// the pattern is kept.
pub proof fn law_replacing_goes_from_the_left(
    a: Seq<char>,
    pat: Seq<char>,
    b: Seq<char>,
    with: Seq<char>,
)
    requires
        pat.len() > 0,
    ensures
        !has_occurrence(a, pat) ==> replaced(a, pat, with) == a,
        (forall|j: int| 0 <= j < a.len() ==> !occurs_at(a + pat + b, pat, j)) ==> replaced(
            a + pat + b,
            pat,
            with,
        ) == a + with + replaced(b, pat, with),
{
    law_split_goes_from_the_left(a, pat, b);
    lemma_split_step(b, pat);
    lemma_join_front(a, split(b, pat), with);
}

/// The detail of a text is that of its first line that is not blank, trimmed.
pub proof fn law_detail_is_that_of_the_first_line(line: Seq<char>, rest: Seq<char>)
    requires
        forall|i: int| 0 <= i < line.len() ==> line[i] != '\n',
    ensures
        is_blank(line) ==> first_detail_spec(line) is None,
        !is_blank(line) ==> first_detail_spec(line) == Some(trimmed(line)),
        is_blank(line) ==> first_detail_spec(line.push('\n') + rest) == first_detail_spec(rest),
        !is_blank(line) ==> first_detail_spec(line.push('\n') + rest) == Some(trimmed(line)),
{
    let pat = seq!['\n'];
    let whole = line + pat + rest;
    assert(line.push('\n') + rest == whole);
    assert forall|j: int| 0 <= j < line.len() implies !occurs_at(whole, pat, j) by {
        if occurs_at(whole, pat, j) {
            assert(whole.subrange(j, j + pat.len())[0] == whole[j]);
        }
    }
    assert forall|j: int| !occurs_at(line, pat, j) by {
        if occurs_at(line, pat, j) {
            assert(line.subrange(j, j + pat.len())[0] == line[j]);
        }
    }
    law_split_goes_from_the_left(line, pat, rest);
    assert((seq![line] + split(rest, pat)).skip(1) == split(rest, pat));
    assert(first_detail_of(seq![line].skip(1)) is None);
    assert(!has_occurrence(line, pat));
    assert(seq![line][0] == line);
    assert((seq![line] + split(rest, pat))[0] == line);
}

/// A numeral is made of digits, without a zero before others, and stands for the
/// number that it was written from; that of a negative number is that of its
/// opposite behind a minus sign.
pub proof fn law_numerals_are_read_back(n: nat)
    ensures
        digits(n).len() > 0,
        all_digits(digits(n)),
        digits(n).len() > 1 ==> digits(n)[0] != '0',
        number(digits(n)) == Some(n),
        decimal(n as int) == digits(n),
        n > 0 ==> decimal(-n) == seq!['-'] + digits(n),
    decreases n,
{
    lemma_number_of_digits(n);
    if n >= 10 {
        law_numerals_are_read_back(n / 10);
        assert(digits(n)[0] == digits(n / 10)[0]);
        if digits(n / 10).len() == 1 {
            assert(n / 10 < 10) by {
                if n / 10 >= 10 {
                    lemma_number_of_digits(n / 10 / 10);
                }
            }
            assert(digits(n / 10)[0] == digit_char((n / 10) as int));
            assert(digit_char((n / 10) as int) as int == 48 + n / 10);
        }
    }
}

/// A digit behind a numeral makes it ten times as large and adds the digit; a
/// plus sign before it changes nothing, and anything else makes it none.
pub proof fn law_numbers_are_decimal(s: Seq<char>, c: char)
    ensures
        number(Seq::empty()) is None,
        '0' <= c <= '9' ==> number(seq![c]) == Some((c as u32 - 48) as nat),
        '0' <= c <= '9' && number(s) is Some ==> number(s.push(c)) == Some(
            (10 * number(s)->0 + (c as u32 - 48)) as nat,
        ),
        !('0' <= c <= '9') ==> number(s.push(c)) is None,
        s.len() > 0 && s[0] != '+' ==> number(seq!['+'] + s) == number(s),
        number(seq!['+', '+'] + s) is None,
{
    let one = seq![c];
    assert(one.drop_last() == Seq::<char>::empty());
    assert(digits_value(Seq::<char>::empty()) == 0);
    assert(one.last() == c);
    assert(one[0] == c);
    if '0' <= c <= '9' {
        assert(all_digits(one));
    }
    let longer = s.push(c);
    let plus = s.len() > 0 && s[0] == '+';
    let run = if plus {
        s.skip(1)
    } else {
        s
    };
    let longer_run = if longer[0] == '+' {
        longer.skip(1)
    } else {
        longer
    };
    if s.len() > 0 {
        assert(longer[0] == s[0]);
        assert(longer_run == run.push(c));
        assert(run.push(c).drop_last() == run);
        assert(run.push(c).last() == c);
        if '0' <= c <= '9' && all_digits(run) {
            assert forall|i: int| 0 <= i < longer_run.len() implies is_digit(
                #[trigger] longer_run[i],
            ) by {
                if i < run.len() {
                    assert(longer_run[i] == run[i]);
                }
            }
        }
        if !('0' <= c <= '9') {
            assert(!is_digit(longer_run[longer_run.len() - 1]));
        }
    } else if !('0' <= c <= '9') {
        assert(longer == one);
        assert(!is_digit(longer[0]));
        assert(longer.skip(1) == Seq::<char>::empty());
    }
    let signed = seq!['+'] + s;
    assert(signed[0] == '+');
    assert(signed.skip(1) == s);
    let twice = seq!['+', '+'] + s;
    assert(twice[0] == '+');
    assert(twice.skip(1)[0] == '+');
    assert(!is_digit(twice.skip(1)[0]));
}

/// A text is blank where it holds whitespace alone, and then nothing of it is
/// left by trimming.
pub proof fn law_blank_texts_trim_to_nothing(s: Seq<char>, c: char)
    ensures
        is_blank(Seq::<char>::empty()),
        is_blank(s.push(c)) <==> is_blank(s) && is_space(c),
        is_blank(s) <==> trimmed(s).len() == 0,
{
    lemma_trimmed_blank(s);
    let longer = s.push(c);
    if is_blank(longer) {
        assert forall|i: int| 0 <= i < s.len() implies is_space(#[trigger] s[i]) by {
            assert(longer[i] == s[i]);
        }
        assert(longer[s.len() as int] == c);
    }
    if is_blank(s) && is_space(c) {
        assert forall|i: int| 0 <= i < longer.len() implies is_space(#[trigger] longer[i]) by {
            if i < s.len() {
                assert(longer[i] == s[i]);
            }
        }
    }
}

} // verus!
