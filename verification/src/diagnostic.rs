//! The first line worth showing of what a command printed, from output of any
//! length in bounded memory.
use vstd::prelude::*;

use crate::text::trim;

verus! {

/// How many bytes of a line are kept at most.
pub const MAX_DIAGNOSTIC_LINE_BYTES: usize = 4096;

/// The text of bytes that are not UTF-8, as `String::from_utf8_lossy` reads
/// them.
pub uninterp spec fn lossy_text(bytes: Seq<u8>) -> Seq<char>;

/// The text of bytes: what they encode, where they are UTF-8.
pub open spec fn bytes_text(bytes: Seq<u8>) -> Seq<char> {
    if vstd::utf8::valid_utf8(bytes) {
        vstd::utf8::decode_utf8(bytes)
    } else {
        lossy_text(bytes)
    }
}

/// `String::from_utf8_lossy` followed by `Cow::into_owned`. The contract claims
/// that bytes which are UTF-8 are decoded as such, and that the text of others
/// is a function of them; what stands in place of what is not UTF-8 is left
/// unsaid.
#[verifier::external_body]
fn from_utf8_lossy(bytes: &Vec<u8>) -> (text: String)
    ensures
        vstd::utf8::valid_utf8(bytes@) ==> text@ == vstd::utf8::decode_utf8(bytes@),
        !vstd::utf8::valid_utf8(bytes@) ==> text@ == lossy_text(bytes@),
{
    String::from_utf8_lossy(bytes).into_owned()
}

/// How many bytes the first line of `bytes` has, without its end.
pub open spec fn first_line_len(bytes: Seq<u8>) -> int
    decreases bytes.len(),
{
    if bytes.len() == 0 || bytes[0] == 10u8 {
        0
    } else {
        1 + first_line_len(bytes.skip(1))
    }
}

/// What is kept of a line: its first bytes.
pub open spec fn kept(line: Seq<u8>) -> Seq<u8> {
    if line.len() <= MAX_DIAGNOSTIC_LINE_BYTES {
        line
    } else {
        line.take(MAX_DIAGNOSTIC_LINE_BYTES as int)
    }
}

/// What is shown of what was kept of a line.
pub open spec fn candidate(line: Seq<u8>) -> Seq<char> {
    crate::text::trimmed(bytes_text(line))
}

/// The first line that shows anything, cut to the bytes that are kept.
pub open spec fn diagnostic_of(bytes: Seq<u8>) -> Option<Seq<char>>
    decreases bytes.len(),
{
    let n = first_line_len(bytes);
    proof {
        lemma_first_line_len(bytes);
    }
    let text = candidate(kept(bytes.take(n)));
    if text.len() > 0 {
        Some(text)
    } else if n < bytes.len() {
        diagnostic_of(bytes.skip(n + 1))
    } else {
        None
    }
}

/// Whether what is kept of every line is UTF-8.
pub open spec fn lines_are_utf8(bytes: Seq<u8>) -> bool
    decreases bytes.len(),
{
    let n = first_line_len(bytes);
    proof {
        lemma_first_line_len(bytes);
    }
    vstd::utf8::valid_utf8(kept(bytes.take(n))) && (n < bytes.len() ==> lines_are_utf8(
        bytes.skip(n + 1),
    ))
}

/// The first line that shows anything, of output whose lines are UTF-8.
pub open spec fn utf8_diagnostic(bytes: Seq<u8>) -> Option<Seq<char>>
    decreases bytes.len(),
{
    let n = first_line_len(bytes);
    proof {
        lemma_first_line_len(bytes);
    }
    let text = crate::text::trimmed(vstd::utf8::decode_utf8(kept(bytes.take(n))));
    if text.len() > 0 {
        Some(text)
    } else if n < bytes.len() {
        utf8_diagnostic(bytes.skip(n + 1))
    } else {
        None
    }
}

/// `first_line_len` counts up to the first line end or the end of the bytes.
pub proof fn lemma_first_line_len(bytes: Seq<u8>)
    ensures
        0 <= first_line_len(bytes) <= bytes.len(),
        forall|i: int| 0 <= i < first_line_len(bytes) ==> bytes[i] != 10u8,
        first_line_len(bytes) < bytes.len() ==> bytes[first_line_len(bytes)] == 10u8,
    decreases bytes.len(),
{
    if bytes.len() > 0 && bytes[0] != 10u8 {
        lemma_first_line_len(bytes.skip(1));
        assert forall|i: int| 0 <= i < first_line_len(bytes) implies bytes[i] != 10u8 by {
            if i > 0 {
                assert(bytes[i] == bytes.skip(1)[i - 1]);
            }
        }
    }
}

proof fn lemma_first_line_len_is(bytes: Seq<u8>, n: int)
    requires
        0 <= n <= bytes.len(),
        forall|i: int| 0 <= i < n ==> bytes[i] != 10u8,
        n < bytes.len() ==> bytes[n] == 10u8,
    ensures
        first_line_len(bytes) == n,
{
    lemma_first_line_len(bytes);
    let m = first_line_len(bytes);
    if m < n {
        assert(bytes[m] == 10u8);
    } else if n < m {
        assert(bytes[n] != 10u8);
    }
}

/// How far the search for the first line has come.
#[verifier::ext_equal]
pub struct FirstLineView {
    pub retained: Option<Seq<char>>,
    pub line: Seq<u8>,
}

impl FirstLineView {
    /// Before any byte was read.
    pub open spec fn new() -> FirstLineView {
        FirstLineView { retained: None, line: Seq::empty() }
    }

    /// After one more byte.
    pub open spec fn step(self, byte: u8) -> FirstLineView {
        if self.retained is Some {
            self
        } else if byte == 10u8 {
            let text = candidate(self.line);
            FirstLineView {
                retained: if text.len() > 0 {
                    Some(text)
                } else {
                    None
                },
                line: Seq::empty(),
            }
        } else if self.line.len() < MAX_DIAGNOSTIC_LINE_BYTES {
            FirstLineView { line: self.line.push(byte), ..self }
        } else {
            self
        }
    }

    /// After all of `bytes`.
    pub open spec fn fed(self, bytes: Seq<u8>) -> FirstLineView
        decreases bytes.len(),
    {
        if bytes.len() == 0 {
            self
        } else {
            self.fed(bytes.drop_last()).step(bytes.last())
        }
    }

    /// What was found, once there are no more bytes.
    pub open spec fn found(self) -> Option<Seq<char>> {
        match self.retained {
            Some(text) => Some(text),
            None => {
                let text = candidate(self.line);
                if text.len() > 0 {
                    Some(text)
                } else {
                    None
                }
            },
        }
    }
}

/// A search for the first line worth showing, fed with output as it arrives.
pub struct FirstLine {
    retained: Option<String>,
    line: Vec<u8>,
}

impl View for FirstLine {
    type V = FirstLineView;

    closed spec fn view(&self) -> FirstLineView {
        FirstLineView { retained: self.retained.deep_view(), line: self.line@ }
    }
}

impl FirstLine {
    /// A search that has read nothing.
    pub fn new() -> (search: FirstLine)
        ensures
            search@ == FirstLineView::new(),
    {
        FirstLine { retained: None, line: Vec::new() }
    }

    /// Reads the next bytes of the output.
    pub fn read(&mut self, chunk: &[u8])
        ensures
            final(self)@ == old(self)@.fed(chunk@),
    {
        let mut i: usize = 0;
        assert(chunk@.take(0) == Seq::<u8>::empty());
        while i < chunk.len()
            invariant
                i <= chunk@.len(),
                self@ == old(self)@.fed(chunk@.take(i as int)),
            decreases chunk@.len() - i,
        {
            proof {
                assert(chunk@.take(i + 1).drop_last() == chunk@.take(i as int));
                assert(chunk@.take(i + 1).last() == chunk@[i as int]);
            }
            if self.retained.is_none() {
                if chunk[i] == 10u8 {
                    let text = trim(from_utf8_lossy(&self.line).as_str());
                    self.line.clear();
                    if !text.as_str().is_empty() {
                        self.retained = Some(text);
                    }
                } else if self.line.len() < MAX_DIAGNOSTIC_LINE_BYTES {
                    self.line.push(chunk[i]);
                }
            }
            i += 1;
        }
        assert(chunk@.take(i as int) == chunk@);
    }

    /// What was found, once there are no more bytes.
    pub fn finish(self) -> (found: Option<String>)
        ensures
            found.deep_view() == self@.found(),
            forall|output: Seq<u8>|
                #![trigger lines_are_utf8(output)]
                self@ == FirstLineView::new().fed(output) && lines_are_utf8(output)
                    ==> found.deep_view() == utf8_diagnostic(output),
    {
        proof {
            assert forall|output: Seq<u8>|
                #![trigger lines_are_utf8(output)]
                self@ == FirstLineView::new().fed(output) && lines_are_utf8(
                    output,
                ) implies self@.found() == utf8_diagnostic(output) by {
                law_search_finds_the_diagnostic(output);
                law_utf8_is_decoded(output);
            }
        }
        match self.retained {
            Some(text) => Some(text),
            None => {
                let text = trim(from_utf8_lossy(&self.line).as_str());
                if text.as_str().is_empty() {
                    None
                } else {
                    Some(text)
                }
            },
        }
    }
}

/// What came of reading from a stream of output.
pub enum StreamRead<'a, E> {
    Bytes(&'a [u8]),
    Ended,
    Failed(E),
}

/// What a [`StreamRead`] says.
pub enum StreamReadView<E> {
    Bytes(Seq<u8>),
    Ended,
    Failed(E),
}

impl<'a, E> StreamRead<'a, E> {
    /// What the reading says.
    pub open spec fn model(self) -> StreamReadView<E> {
        match self {
            StreamRead::Bytes(bytes) => StreamReadView::Bytes(bytes@),
            StreamRead::Ended => StreamReadView::Ended,
            StreamRead::Failed(error) => StreamReadView::Failed(error),
        }
    }
}

/// How far a stream was read: to a place from which it is read on, or as far as
/// it will be, with what was found.
pub enum StreamState<E> {
    Reading(FirstLine),
    Done(Result<Option<String>, E>),
}

/// What a [`StreamState`] is.
pub enum StreamStateView<E> {
    Reading(FirstLineView),
    Done(Result<Option<Seq<char>>, E>),
}

impl<E> StreamState<E> {
    /// What the state is.
    pub open spec fn model(self) -> StreamStateView<E> {
        match self {
            StreamState::Reading(search) => StreamStateView::Reading(search@),
            StreamState::Done(Ok(found)) => StreamStateView::Done(Ok(found.deep_view())),
            StreamState::Done(Err(error)) => StreamStateView::Done(Err(error)),
        }
    }

    /// A stream of which nothing was read.
    pub fn new() -> (state: StreamState<E>)
        ensures
            state.model() == StreamStateView::<E>::Reading(FirstLineView::new()),
    {
        StreamState::Reading(FirstLine::new())
    }

    /// Takes in what came of reading once more. A stream is read to its end, so
    /// that it cannot block the process, also after the line was found.
    pub fn read<'a>(self, read: StreamRead<'a, E>) -> (state: StreamState<E>)
        ensures
            state.model() == self.model().after(read.model()),
    {
        match self {
            StreamState::Done(found) => StreamState::Done(found),
            StreamState::Reading(search) => match read {
                StreamRead::Bytes(bytes) => {
                    let mut search = search;
                    search.read(bytes);
                    StreamState::Reading(search)
                },
                StreamRead::Ended => StreamState::Done(Ok(search.finish())),
                StreamRead::Failed(error) => StreamState::Done(Err(error)),
            },
        }
    }
}

impl<E> StreamStateView<E> {
    /// After one more reading.
    pub open spec fn after(self, read: StreamReadView<E>) -> StreamStateView<E> {
        match self {
            StreamStateView::Done(_) => self,
            StreamStateView::Reading(search) => match read {
                StreamReadView::Bytes(bytes) => StreamStateView::Reading(search.fed(bytes)),
                StreamReadView::Ended => StreamStateView::Done(Ok(search.found())),
                StreamReadView::Failed(error) => StreamStateView::Done(Err(error)),
            },
        }
    }

    /// After reading all of `chunks`.
    pub open spec fn after_chunks(self, chunks: Seq<Seq<u8>>) -> StreamStateView<E>
        decreases chunks.len(),
    {
        if chunks.len() == 0 {
            self
        } else {
            self.after_chunks(chunks.drop_last()).after(StreamReadView::Bytes(chunks.last()))
        }
    }
}

/// All the bytes of a stream that arrives in chunks.
pub open spec fn joined_chunks(chunks: Seq<Seq<u8>>) -> Seq<u8>
    decreases chunks.len(),
{
    if chunks.len() == 0 {
        Seq::empty()
    } else {
        joined_chunks(chunks.drop_last()) + chunks.last()
    }
}

/// The first line of `output` that shows anything, cut to
/// [`MAX_DIAGNOSTIC_LINE_BYTES`] bytes.
pub fn first_non_empty_line(output: &[u8]) -> (found: Option<String>)
    ensures
        found.deep_view() == diagnostic_of(output@),
        lines_are_utf8(output@) ==> found.deep_view() == utf8_diagnostic(output@),
{
    let mut search = FirstLine::new();
    search.read(output);
    proof {
        law_search_finds_the_diagnostic(output@);
        if lines_are_utf8(output@) {
            law_utf8_is_decoded(output@);
        }
    }
    search.finish()
}

// ---------------------------------------------------------------------------
// Laws
// ---------------------------------------------------------------------------
/// Into how many chunks the output is cut makes no difference.
pub proof fn law_chunks_do_not_matter(search: FirstLineView, first: Seq<u8>, second: Seq<u8>)
    ensures
        search.fed(first).fed(second) == search.fed(first + second),
    decreases second.len(),
{
    if second.len() == 0 {
        assert(first + second == first);
    } else {
        law_chunks_do_not_matter(search, first, second.drop_last());
        assert((first + second).drop_last() == first + second.drop_last());
    }
}

/// However a stream is cut into chunks, it is read on for as long as it lasts,
/// whatever was found by then. Its end gives the diagnostic of all its bytes,
/// and a failure to read it is handed back.
pub proof fn law_streams_are_read_to_their_end<E>(chunks: Seq<Seq<u8>>, error: E)
    ensures
        ({
            let start = StreamStateView::<E>::Reading(FirstLineView::new());
            let read = start.after_chunks(chunks);
            &&& read is Reading
            &&& read.after(StreamReadView::Ended) == StreamStateView::<E>::Done(
                Ok(diagnostic_of(joined_chunks(chunks))),
            )
            &&& read.after(StreamReadView::Failed(error)) == StreamStateView::<E>::Done(Err(error))
        }),
{
    lemma_chunks_are_fed::<E>(chunks);
    law_search_finds_the_diagnostic(joined_chunks(chunks));
}

proof fn lemma_chunks_are_fed<E>(chunks: Seq<Seq<u8>>)
    ensures
        StreamStateView::<E>::Reading(FirstLineView::new()).after_chunks(chunks)
            == StreamStateView::<E>::Reading(FirstLineView::new().fed(joined_chunks(chunks))),
    decreases chunks.len(),
{
    if chunks.len() > 0 {
        lemma_chunks_are_fed::<E>(chunks.drop_last());
        law_chunks_do_not_matter(
            FirstLineView::new(),
            joined_chunks(chunks.drop_last()),
            chunks.last(),
        );
    }
}

/// The memory that a search takes is bounded, however long the lines are.
pub proof fn law_kept_line_is_bounded(bytes: Seq<u8>)
    ensures
        FirstLineView::new().fed(bytes).line.len() <= MAX_DIAGNOSTIC_LINE_BYTES,
    decreases bytes.len(),
{
    if bytes.len() > 0 {
        law_kept_line_is_bounded(bytes.drop_last());
    }
}

/// A search that was fed the whole output has found its diagnostic.
pub proof fn law_search_finds_the_diagnostic(bytes: Seq<u8>)
    ensures
        FirstLineView::new().fed(bytes).found() == diagnostic_of(bytes),
{
    assert(FirstLineView::new().line == kept(Seq::empty()));
    lemma_search_finds(Seq::empty(), bytes);
    assert(Seq::<u8>::empty() + bytes == bytes);
}

/// Where what is kept of every line is UTF-8, the diagnostic is the first line
/// that encodes anything to show.
pub proof fn law_utf8_is_decoded(bytes: Seq<u8>)
    requires
        lines_are_utf8(bytes),
    ensures
        diagnostic_of(bytes) == utf8_diagnostic(bytes),
    decreases bytes.len(),
{
    let n = first_line_len(bytes);
    lemma_first_line_len(bytes);
    if n < bytes.len() {
        law_utf8_is_decoded(bytes.skip(n + 1));
    }
}

proof fn lemma_retained_stays(search: FirstLineView, bytes: Seq<u8>)
    requires
        search.retained is Some,
    ensures
        search.fed(bytes) == search,
    decreases bytes.len(),
{
    if bytes.len() > 0 {
        lemma_retained_stays(search, bytes.drop_last());
    }
}

proof fn lemma_search_finds(raw: Seq<u8>, bytes: Seq<u8>)
    requires
        forall|i: int| 0 <= i < raw.len() ==> raw[i] != 10u8,
    ensures
        (FirstLineView { retained: None, line: kept(raw) }).fed(bytes).found() == diagnostic_of(
            raw + bytes,
        ),
    decreases bytes.len(),
{
    let search = FirstLineView { retained: None, line: kept(raw) };
    let all = raw + bytes;
    if bytes.len() == 0 {
        assert(all == raw);
        lemma_first_line_len_is(all, raw.len() as int);
        assert(all.take(raw.len() as int) == raw);
    } else {
        let byte = bytes[0];
        let rest = bytes.skip(1);
        let one = seq![byte];
        assert(bytes == one + rest);
        law_chunks_do_not_matter(search, one, rest);
        assert(one.drop_last() == Seq::<u8>::empty());
        assert(search.fed(Seq::empty()) == search);
        assert(search.fed(one) == search.step(byte));
        if byte == 10u8 {
            lemma_first_line_len_is(all, raw.len() as int);
            assert(all.take(raw.len() as int) == raw);
            assert(all.skip(raw.len() as int + 1) == rest);
            let next = search.step(byte);
            if next.retained is Some {
                lemma_retained_stays(next, rest);
            } else {
                lemma_search_finds(Seq::empty(), rest);
                assert(kept(Seq::<u8>::empty()) == Seq::<u8>::empty());
                assert(Seq::<u8>::empty() + rest == rest);
            }
        } else {
            let longer = raw.push(byte);
            assert(kept(longer) == search.step(byte).line);
            assert(longer + rest == all);
            lemma_search_finds(longer, rest);
        }
    }
}

/// What is kept of a line is the line where it is short, and its beginning where
/// it is not; what is shown of it is its text without the whitespace around it.
pub proof fn law_lines_are_cut_at_the_limit(line: Seq<u8>)
    ensures
        line.len() <= 4096 ==> kept(line) == line,
        line.len() > 4096 ==> kept(line).len() == 4096 && kept(line).is_prefix_of(line),
        vstd::utf8::valid_utf8(line) ==> candidate(line) == crate::text::trimmed(
            vstd::utf8::decode_utf8(line),
        ),
        !vstd::utf8::valid_utf8(line) ==> candidate(line) == crate::text::trimmed(lossy_text(line)),
{
}

/// The diagnostic of output is that of its first line where that shows anything,
/// and else that of the rest.
pub proof fn law_first_line_that_shows_anything(line: Seq<u8>, rest: Seq<u8>)
    requires
        forall|i: int| 0 <= i < line.len() ==> line[i] != 10u8,
    ensures
        candidate(kept(line)).len() > 0 ==> diagnostic_of(line) == Some(candidate(kept(line)))
            && diagnostic_of(line.push(10u8) + rest) == Some(candidate(kept(line))),
        candidate(kept(line)).len() == 0 ==> diagnostic_of(line) is None && diagnostic_of(
            line.push(10u8) + rest,
        ) == diagnostic_of(rest),
{
    let n = line.len() as int;
    let whole = line.push(10u8) + rest;
    lemma_first_line_len_is(line, n);
    assert(line.take(n) == line);
    assert forall|i: int| 0 <= i < n implies whole[i] != 10u8 by {
        assert(whole[i] == line[i]);
    }
    lemma_first_line_len_is(whole, n);
    assert(whole.take(n) == line);
    assert(whole.skip(n + 1) == rest);
}

} // verus!
