//! Showing where in a file an error is: the line and column, the line itself,
//! and a mark under what is wrong.
use vstd::prelude::*;

use crate::text::{chars_of, find_char, push_chars, usize_text};

verus! {

/// How many bytes a character takes in a file.
pub open spec fn width(c: char) -> nat {
    if (c as u32) < 0x80 {
        1
    } else if (c as u32) < 0x800 {
        2
    } else if (c as u32) < 0x1_0000 {
        3
    } else {
        4
    }
}

fn char_width(c: char) -> (n: usize)
    ensures
        n == width(c),
{
    let code: u32 = c as u32;
    if code < 0x80 {
        1
    } else if code < 0x800 {
        2
    } else if code < 0x1_0000 {
        3
    } else {
        4
    }
}

/// How many bytes a text takes in a file.
pub open spec fn text_width(s: Seq<char>) -> nat
    decreases s.len(),
{
    if s.len() == 0 {
        0
    } else {
        text_width(s.drop_last()) + width(s.last())
    }
}

/// The index of the character that holds the given byte; the last one where
/// the text ends before it.
pub open spec fn char_at(s: Seq<char>, byte: nat) -> int
    decreases s.len(),
{
    if s.len() <= 1 || byte < width(s[0]) {
        0
    } else {
        1 + char_at(s.skip(1), (byte - width(s[0])) as nat)
    }
}

/// The index at which the line that holds the given character begins.
pub open spec fn line_start(s: Seq<char>, at: int) -> int
    decreases at,
{
    if at <= 0 {
        0
    } else if s[at - 1] == '\n' {
        at
    } else {
        line_start(s, at - 1)
    }
}

/// How many lines end before the given character.
pub open spec fn lines_before(s: Seq<char>, at: int) -> nat
    decreases at,
{
    if at <= 0 {
        0
    } else if s[at - 1] == '\n' {
        lines_before(s, at - 1) + 1
    } else {
        lines_before(s, at - 1)
    }
}

/// The line that begins at the given index, up to where it ends.
pub open spec fn line_text(s: Seq<char>, start: int) -> Seq<char> {
    s.skip(start).take(crate::text::position(s.skip(start), '\n'))
}

/// A character over and over.
pub open spec fn repeated(c: char, n: nat) -> Seq<char> {
    Seq::new(n, |i: int| c)
}

/// How many characters are marked: as many as the bytes of what is wrong, as
/// far as the line goes, and at least one.
pub open spec fn marks(line: Seq<char>, column: int, bytes: int) -> nat {
    let room = text_width(line) - column;
    let marked = if bytes < room {
        bytes
    } else {
        room
    };
    if marked < 1 {
        1
    } else {
        marked as nat
    }
}

/// The message with the place in the text that it is about: the bytes from
/// `start` to before `end`.
pub open spec fn located(s: Seq<char>, start: nat, end: nat, message: Seq<char>) -> Seq<char> {
    let at = char_at(s, start);
    let begin = line_start(s, at);
    let number = crate::text::digits(lines_before(s, at) + 1);
    let line = line_text(s, begin);
    let margin = repeated(' ', number.len() + 1) + "|"@;
    "TOML parse error at line "@ + number + ", column "@ + crate::text::digits(
        (at - begin + 1) as nat,
    ) + "\n"@ + margin + "\n"@ + number + " | "@ + line + "\n"@ + margin + repeated(
        ' ',
        (at - begin + 1) as nat,
    ) + repeated('^', marks(line, at - begin, end - start)) + "\n"@ + message + "\n"@
}

fn find_char_at(chars: &Vec<char>, byte: usize) -> (at: usize)
    ensures
        at == char_at(chars@, byte as nat),
        at <= chars@.len(),
        at < usize::MAX,
{
    let mut left: usize = byte;
    let mut i: usize = 0;
    assert(chars@.skip(0) == chars@);
    while chars.len() > 0 && i < chars.len() - 1 && left >= char_width(chars[i])
        invariant
            i <= chars@.len(),
            chars@.len() > 0 ==> i < chars@.len(),
            char_at(chars@, byte as nat) == i + char_at(chars@.skip(i as int), left as nat),
        decreases chars@.len() - i,
    {
        proof {
            assert(chars@.skip(i as int)[0] == chars@[i as int]);
            assert(chars@.skip(i as int).skip(1) == chars@.skip(i + 1));
        }
        left -= char_width(chars[i]);
        i += 1;
    }
    proof {
        if i < chars@.len() {
            assert(chars@.skip(i as int)[0] == chars@[i as int]);
        }
        assert(chars@.len() == chars.len());
    }
    i
}

fn find_line_start(chars: &Vec<char>, at: usize) -> (start: usize)
    requires
        at <= chars@.len(),
    ensures
        start == line_start(chars@, at as int),
        start <= at,
{
    let mut i: usize = at;
    while i > 0 && chars[i - 1] != '\n'
        invariant
            i <= at,
            at <= chars@.len(),
            line_start(chars@, at as int) == line_start(chars@, i as int),
        decreases i,
    {
        i -= 1;
    }
    i
}

fn count_lines_before(chars: &Vec<char>, at: usize) -> (n: usize)
    requires
        at <= chars@.len(),
    ensures
        n == lines_before(chars@, at as int),
        n <= at,
{
    let mut n: usize = 0;
    let mut i: usize = 0;
    while i < at
        invariant
            i <= at,
            at <= chars@.len(),
            n <= i,
            n == lines_before(chars@, i as int),
        decreases at - i,
    {
        if chars[i] == '\n' {
            n += 1;
        }
        i += 1;
    }
    n
}

fn push_repeated(out: &mut String, c: char, n: usize)
    ensures
        final(out)@ == old(out)@ + repeated(c, n as nat),
{
    let ghost before = out@;
    let mut i: usize = 0;
    assert(out@ =~= before + repeated(c, 0));
    while i < n
        invariant
            i <= n,
            out@ == before + repeated(c, i as nat),
        decreases n - i,
    {
        out.push(c);
        i += 1;
        assert(out@ =~= before + repeated(c, i as nat));
    }
}

/// How many characters are marked on the line from `from` to before `to`.
fn count_marks(chars: &Vec<char>, from: usize, to: usize, column: usize, bytes: usize) -> (n: usize)
    requires
        from <= to <= chars@.len(),
    ensures
        n == marks(chars@.subrange(from as int, to as int), column as int, bytes as int),
{
    let ghost line = chars@.subrange(from as int, to as int);
    let mut wide: u128 = 0;
    let mut i: usize = from;
    assert(line.take(0) =~= Seq::empty());
    while i < to
        invariant
            from <= i <= to <= chars@.len(),
            line == chars@.subrange(from as int, to as int),
            wide == text_width(line.take(i - from)),
            wide <= 4 * (i - from),
        decreases to - i,
    {
        proof {
            assert(line.take(i - from + 1).drop_last() == line.take(i - from));
            assert(line.take(i - from + 1).last() == chars@[i as int]);
        }
        wide += char_width(chars[i]) as u128;
        i += 1;
    }
    assert(line.take(to - from) == line);
    if wide <= column as u128 {
        return 1;
    }
    let room: u128 = wide - column as u128;
    if (bytes as u128) < room {
        if bytes < 1 {
            1
        } else {
            bytes
        }
    } else {
        room as usize
    }
}

/// Shows where in a text the bytes are that a message is about.
pub fn locate(contents: &str, start: usize, end: usize, message: &str) -> (text: String)
    ensures
        text@ == located(contents@, start as nat, end as nat, message@),
{
    let chars = chars_of(contents);
    let at = find_char_at(&chars, start);
    let begin = find_line_start(&chars, at);
    let finish = find_char(&chars, begin, '\n');
    let number = usize_text(count_lines_before(&chars, at) + 1);
    let column = usize_text(at - begin + 1);
    let bytes: usize = if start < end {
        end - start
    } else {
        0
    };
    let marked = count_marks(&chars, begin, finish, at - begin, bytes);
    assert(line_text(chars@, begin as int) =~= chars@.subrange(begin as int, finish as int));
    let mut margin = String::new();
    push_repeated(&mut margin, ' ', chars_of(number.as_str()).len());
    margin.append(" |");
    proof {
        reveal_strlit(" |");
        reveal_strlit("|");
        assert(margin@ =~= repeated(' ', number@.len() + 1) + "|"@);
    }
    let mut text = "TOML parse error at line ".to_owned();
    text.append(number.as_str());
    text.append(", column ");
    text.append(column.as_str());
    text.append("\n");
    text.append(margin.as_str());
    text.append("\n");
    text.append(number.as_str());
    text.append(" | ");
    push_chars(&mut text, &chars, begin, finish);
    text.append("\n");
    text.append(margin.as_str());
    push_repeated(&mut text, ' ', at - begin + 1);
    push_repeated(&mut text, '^', marked);
    text.append("\n");
    text.append(message);
    text.append("\n");
    text
}

// ---------------------------------------------------------------------------
// Laws
// ---------------------------------------------------------------------------
proof fn lemma_text_width_front(c: char, rest: Seq<char>)
    ensures
        text_width(seq![c] + rest) == width(c) + text_width(rest),
    decreases rest.len(),
{
    let all = seq![c] + rest;
    if rest.len() == 0 {
        assert(all.drop_last() =~= Seq::<char>::empty());
        assert(all.last() == c);
        assert(text_width(all.drop_last()) == 0);
    } else {
        assert(all.drop_last() =~= seq![c] + rest.drop_last());
        assert(all.last() == rest.last());
        lemma_text_width_front(c, rest.drop_last());
    }
}

proof fn lemma_char_at_prefix(front: Seq<char>, rest: Seq<char>)
    requires
        rest.len() > 0,
    ensures
        char_at(front + rest, text_width(front)) == front.len(),
    decreases front.len(),
{
    let all = front + rest;
    if front.len() > 0 {
        let tail = front.skip(1);
        assert(seq![front[0]] + tail =~= front);
        lemma_text_width_front(front[0], tail);
        assert(all[0] == front[0]);
        assert(all.skip(1) =~= tail + rest);
        lemma_char_at_prefix(tail, rest);
    } else {
        assert(text_width(front) == 0);
    }
}

proof fn lemma_line_start_at(s: Seq<char>, start: int, at: int)
    requires
        0 <= start <= at <= s.len(),
        start > 0 ==> s[start - 1] == '\n',
        forall|i: int| start <= i < at ==> s[i] != '\n',
    ensures
        line_start(s, at) == start,
        lines_before(s, at) == lines_before(s, start),
    decreases at - start,
{
    if start < at {
        lemma_line_start_at(s, start, at - 1);
    }
}

proof fn lemma_lines_before_prefix(s: Seq<char>, t: Seq<char>, at: int)
    requires
        0 <= at <= s.len(),
    ensures
        lines_before(s + t, at) == lines_before(s, at),
    decreases at,
{
    if at > 0 {
        assert((s + t)[at - 1] == s[at - 1]);
        lemma_lines_before_prefix(s, t, at - 1);
    }
}

/// What is wrong at a character of a line is shown with the number of that line,
/// the column of that character, both from one, and the line in full, with the
/// marks under the character; the message comes last.
pub proof fn law_an_error_is_shown_on_its_line(
    before: Seq<char>,
    line: Seq<char>,
    after: Seq<char>,
    column: int,
    bytes: nat,
    message: Seq<char>,
)
    requires
        before.len() > 0 ==> before.last() == '\n',
        after.len() > 0 ==> after[0] == '\n',
        forall|i: int| 0 <= i < line.len() ==> line[i] != '\n',
        0 <= column < line.len(),
    ensures
        ({
            let start = text_width(before + line.take(column));
            let number = crate::text::digits(lines_before(before, before.len() as int) + 1);
            let margin = repeated(' ', number.len() + 1) + "|"@;
            located(before + line + after, start, start + bytes, message)
                == "TOML parse error at line "@ + number + ", column "@ + crate::text::digits(
                (column + 1) as nat,
            ) + "\n"@ + margin + "\n"@ + number + " | "@ + line + "\n"@ + margin + repeated(
                ' ',
                (column + 1) as nat,
            ) + repeated('^', marks(line, column, bytes as int)) + "\n"@ + message + "\n"@
        }),
{
    let s = before + line + after;
    let front = before + line.take(column);
    let rest = line.skip(column) + after;
    assert(front + rest =~= s);
    lemma_char_at_prefix(front, rest);
    let begin = before.len() as int;
    let at = begin + column;
    if begin > 0 {
        assert(s[begin - 1] == before.last());
    }
    assert forall|i: int| begin <= i < at implies s[i] != '\n' by {
        assert(s[i] == line[i - begin]);
    }
    lemma_line_start_at(s, begin, at);
    assert(s =~= before + (line + after));
    lemma_lines_before_prefix(before, line + after, begin);
    let tail = s.skip(begin);
    assert(tail =~= line + after);
    let n = line.len() as int;
    assert forall|j: int| 0 <= j < n implies tail[j] != '\n' by {
        assert(tail[j] == line[j]);
    }
    if n < tail.len() {
        assert(tail[n] == after[0]);
    }
    crate::text::lemma_position_is(tail, '\n', n);
    assert(tail.take(n) =~= line);
}

/// Lines are counted by their ends.
pub proof fn law_lines_are_counted_by_their_ends(s: Seq<char>, c: char)
    ensures
        lines_before(Seq::empty(), 0) == 0,
        lines_before(s.push(c), s.len() as int + 1) == lines_before(s, s.len() as int) + (if c == '\n' {
            1nat
        } else {
            0nat
        }),
{
    assert(s + seq![c] =~= s.push(c));
    lemma_lines_before_prefix(s, seq![c], s.len() as int);
}

/// As many characters are marked as the bytes of what is wrong, but none behind
/// the end of the line, and always one.
pub proof fn law_marks_stay_on_the_line(line: Seq<char>, column: int, bytes: int)
    ensures
        marks(line, column, bytes) >= 1,
        bytes <= 1 ==> marks(line, column, bytes) == 1,
        bytes >= 1 && column + bytes <= text_width(line) ==> marks(line, column, bytes) == bytes,
        bytes >= 1 && column + bytes > text_width(line) && column + 1 <= text_width(line) ==> column
            + marks(line, column, bytes) == text_width(line),
        column + 1 > text_width(line) ==> marks(line, column, bytes) == 1,
{
}

/// A character takes as many bytes as UTF-8 gives it, and a text as many as its
/// characters together.
pub proof fn law_text_is_as_wide_as_its_characters(s: Seq<char>, c: char)
    ensures
        text_width(Seq::empty()) == 0,
        text_width(s.push(c)) == text_width(s) + width(c),
        (c as u32) <= 127 ==> width(c) == 1,
        128 <= (c as u32) <= 2047 ==> width(c) == 2,
        2048 <= (c as u32) <= 65535 ==> width(c) == 3,
        65536 <= (c as u32) ==> width(c) == 4,
{
    assert(s.push(c).drop_last() =~= s);
}

} // verus!
