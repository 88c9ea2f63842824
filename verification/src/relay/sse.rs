//! The line protocol of a streamed completion: bytes arrive in pieces, are
//! cut into lines at each newline, and every line that carries a content
//! delta releases one chunk.

use vstd::prelude::*;
use vstd::string::StringSliceAdditionalSpecFns;
use vstd::utf8::{decode_utf8, encode_utf8, valid_utf8};
use crate::json::{Json, JsonView, as_text, item, json_of, member, parsed_view};
use crate::text::{
    chars_start_with, chars_trim, from_chars, starts_with, str_equal, to_chars, trim,
};

verus! {

/// What a record line starts with.
pub const DATA_PREFIX: &'static str = "data: ";

/// The payload that ends a stream.
pub const DONE_MARK: &'static str = "[DONE]";

/// The byte that ends a line.
pub const NEWLINE: u8 = 10;

/// The text as `String::from_utf8_lossy` reads bytes that are not UTF-8:
/// with the replacement character in place of each invalid sequence.
pub uninterp spec fn utf8_lossy(bytes: Seq<u8>) -> Seq<char>;

/// The text that bytes are read as: what they encode where they are UTF-8,
/// and a lossy reading where they are not.
pub open spec fn text_of(bytes: Seq<u8>) -> Seq<char> {
    if valid_utf8(bytes) {
        decode_utf8(bytes)
    } else {
        utf8_lossy(bytes)
    }
}

/// `String::from_utf8_lossy`: bytes that are UTF-8 give the text they
/// encode, unchanged; in others each invalid sequence gives U+FFFD.
#[verifier::external_body]
pub(crate) fn lossy_text(bytes: &[u8]) -> (r: String)
    ensures
        valid_utf8(bytes@) ==> r@ == decode_utf8(bytes@),
        !valid_utf8(bytes@) ==> r@ == utf8_lossy(bytes@),
{
    String::from_utf8_lossy(bytes).into_owned()
}

/// The content delta of a completion record: `choices[0].delta.content`,
/// where it is there and is a string.
pub open spec fn delta_content(record: JsonView) -> Option<Seq<char>> {
    match member(record, "choices"@) {
        Some(choices) => match item(choices, 0) {
            Some(first) => match member(first, "delta"@) {
                Some(delta) => match member(delta, "content"@) {
                    Some(content) => as_text(content),
                    None => None,
                },
                None => None,
            },
            None => None,
        },
        None => None,
    }
}

/// The payload of a line: what follows the prefix of a record line, once the
/// line is trimmed; `None` for any other line.
pub open spec fn payload(line: Seq<char>) -> Option<Seq<char>> {
    let trimmed = trim(line);
    if starts_with(trimmed, DATA_PREFIX@) {
        Some(trimmed.skip(DATA_PREFIX@.len() as int))
    } else {
        None
    }
}

/// The chunk that a payload releases, by what it parses to. The end mark
/// releases none, and neither does what is not JSON or holds no content delta.
pub open spec fn payload_chunk(data: Seq<char>, parsed: Result<JsonView, Seq<char>>) -> Option<
    Seq<char>,
> {
    if data == DONE_MARK@ {
        None
    } else {
        match parsed {
            Ok(record) => delta_content(record),
            Err(_) => None,
        }
    }
}

/// The chunk that a line releases, if it releases one.
pub open spec fn line_chunk(line: Seq<char>) -> Option<Seq<char>> {
    match payload(line) {
        Some(data) => payload_chunk(data, json_of(data)),
        None => None,
    }
}

/// What is left of a stream after its last newline: the line that is not yet complete.
pub open spec fn pending(stream: Seq<u8>) -> Seq<u8>
    decreases stream.len(),
{
    if stream.len() == 0 {
        Seq::empty()
    } else if stream.last() == NEWLINE {
        Seq::empty()
    } else {
        pending(stream.drop_last()).push(stream.last())
    }
}

/// The chunks that the complete lines of a stream release, in order.
pub open spec fn released(stream: Seq<u8>) -> Seq<Seq<char>>
    decreases stream.len(),
{
    if stream.len() == 0 {
        Seq::empty()
    } else if stream.last() == NEWLINE {
        match line_chunk(text_of(pending(stream.drop_last()))) {
            Some(chunk) => released(stream.drop_last()).push(chunk),
            None => released(stream.drop_last()),
        }
    } else {
        released(stream.drop_last())
    }
}

/// Whether the bytes hold no newline.
pub open spec fn unbroken(bytes: Seq<u8>) -> bool {
    forall|i: int| 0 <= i < bytes.len() ==> bytes[i] != NEWLINE
}

/// What is pending holds no newline.
pub proof fn lemma_pending_unbroken(stream: Seq<u8>)
    ensures
        unbroken(pending(stream)),
    decreases stream.len(),
{
    if stream.len() > 0 && stream.last() != NEWLINE {
        lemma_pending_unbroken(stream.drop_last());
    }
}

/// Bytes without a newline are all pending and release nothing.
pub proof fn lemma_unbroken(bytes: Seq<u8>)
    requires
        unbroken(bytes),
    ensures
        pending(bytes) == bytes,
        released(bytes) == Seq::<Seq<char>>::empty(),
    decreases bytes.len(),
{
    if bytes.len() > 0 {
        lemma_unbroken(bytes.drop_last());
        assert(bytes.drop_last().push(bytes.last()) =~= bytes);
    }
}

/// Robustness against splitting. Wherever a stream is cut in two, between
/// any two bytes, reading the first part and then, with what was pending,
/// the second releases the same chunks in the same order as reading the
/// whole, and leaves the same pending.
pub proof fn lemma_split(first: Seq<u8>, second: Seq<u8>)
    ensures
        released(first + second) == released(first) + released(pending(first) + second),
        pending(first + second) == pending(pending(first) + second),
    decreases second.len(),
{
    let whole = first + second;
    let resumed = pending(first) + second;
    if second.len() == 0 {
        assert(whole =~= first);
        assert(resumed =~= pending(first));
        lemma_pending_unbroken(first);
        lemma_unbroken(pending(first));
        assert(released(first) + released(resumed) =~= released(first));
    } else {
        lemma_split(first, second.drop_last());
        assert(whole.drop_last() =~= first + second.drop_last());
        assert(resumed.drop_last() =~= pending(first) + second.drop_last());
        assert(whole.last() == second.last());
        assert(resumed.last() == second.last());
        assert(released(whole) =~= released(first) + released(resumed));
    }
}

/// The pieces in a row.
pub open spec fn concat_all(pieces: Seq<Seq<u8>>) -> Seq<u8>
    decreases pieces.len(),
{
    if pieces.len() == 0 {
        Seq::empty()
    } else {
        concat_all(pieces.drop_last()) + pieces.last()
    }
}

/// What is pending after the pieces were read one by one, starting with `buffer` pending.
pub open spec fn pending_after(buffer: Seq<u8>, pieces: Seq<Seq<u8>>) -> Seq<u8>
    decreases pieces.len(),
{
    if pieces.len() == 0 {
        buffer
    } else {
        pending(pending_after(buffer, pieces.drop_last()) + pieces.last())
    }
}

/// The chunks released while the pieces were read one by one.
pub open spec fn released_by(buffer: Seq<u8>, pieces: Seq<Seq<u8>>) -> Seq<Seq<char>>
    decreases pieces.len(),
{
    if pieces.len() == 0 {
        Seq::empty()
    } else {
        released_by(buffer, pieces.drop_last()) + released(
            pending_after(buffer, pieces.drop_last()) + pieces.last(),
        )
    }
}

/// Robustness against splitting, for any number of pieces: read one by one
/// they release what their concatenation releases when read at once.
pub proof fn lemma_pieces(buffer: Seq<u8>, pieces: Seq<Seq<u8>>)
    requires
        unbroken(buffer),
    ensures
        released_by(buffer, pieces) == released(buffer + concat_all(pieces)),
        pending_after(buffer, pieces) == pending(buffer + concat_all(pieces)),
    decreases pieces.len(),
{
    if pieces.len() == 0 {
        assert(buffer + concat_all(pieces) =~= buffer);
        lemma_unbroken(buffer);
    } else {
        let front = pieces.drop_last();
        lemma_pieces(buffer, front);
        lemma_split(buffer + concat_all(front), pieces.last());
        assert(buffer + concat_all(pieces) =~= (buffer + concat_all(front)) + pieces.last());
    }
}

/// The content delta of a completion record.
pub fn content_of(record: &Json) -> (r: Option<String>)
    ensures
        r.deep_view() == delta_content(record.deep_view()),
{
    let choices = record.field("choices")?;
    let first = choices.item(0)?;
    let delta = first.field("delta")?;
    let content = delta.field("content")?;
    match content.as_text() {
        Some(text) => Some(from_chars(&to_chars(text))),
        None => None,
    }
}

/// The chunk that a payload releases, given what it parsed to.
pub fn chunk_of(data: &str, parsed: Result<Json, String>) -> (r: Option<String>)
    ensures
        r.deep_view() == payload_chunk(data@, parsed_view(parsed)),
{
    if str_equal(data, DONE_MARK) {
        return None;
    }
    match parsed {
        Ok(record) => content_of(&record),
        Err(_) => None,
    }
}

/// The payload of a line.
pub fn payload_of(line: &str) -> (r: Option<String>)
    ensures
        r.deep_view() == payload(line@),
{
    let trimmed = chars_trim(&to_chars(line));
    let prefix = to_chars(DATA_PREFIX);
    if chars_start_with(&trimmed, &prefix) {
        let mut data: Vec<char> = Vec::new();
        let mut i: usize = prefix.len();
        while i < trimmed.len()
            invariant
                prefix.len() <= i <= trimmed.len(),
                data@ == trimmed@.subrange(prefix.len() as int, i as int),
            decreases trimmed.len() - i,
        {
            data.push(trimmed[i]);
            i += 1;
        }
        proof {
            assert(data@ =~= trimmed@.skip(prefix.len() as int));
        }
        Some(from_chars(&data))
    } else {
        None
    }
}

/// The chunk that a line releases.
pub fn chunk_of_line(line: &str) -> (r: Option<String>)
    ensures
        r.deep_view() == line_chunk(line@),
{
    match payload_of(line) {
        Some(data) => {
            let parsed = Json::parse(data.as_str());
            chunk_of(data.as_str(), parsed)
        },
        None => None,
    }
}

/// The reader of a stream: it holds the bytes of the line that is not yet complete.
pub struct SseParser {
    buffer: Vec<u8>,
}

impl View for SseParser {
    type V = Seq<u8>;

    closed spec fn view(&self) -> Seq<u8> {
        self.buffer@
    }
}

impl SseParser {
    /// The pending line holds no newline.
    pub open spec fn wf(&self) -> bool {
        unbroken(self@)
    }

    /// A reader with nothing pending.
    pub fn new() -> (r: Self)
        ensures
            r.wf(),
            r@ == Seq::<u8>::empty(),
    {
        SseParser { buffer: Vec::new() }
    }

    /// Reads the next piece of the stream and hands back the chunks that the
    /// lines it completes release. A line is read as text once it is
    /// complete; what is not UTF-8 in it is read as the replacement character.
    pub fn feed_bytes(&mut self, bytes: &[u8]) -> (chunks: Vec<String>)
        requires
            old(self).wf(),
        ensures
            final(self).wf(),
            final(self)@ == pending(old(self)@ + bytes@),
            chunks.deep_view() == released(old(self)@ + bytes@),
    {
        let ghost start = self.buffer@;
        let mut chunks: Vec<String> = Vec::new();
        let mut i: usize = 0;
        proof {
            lemma_unbroken(start);
            assert(start + bytes@.take(0) =~= start);
            assert(chunks.deep_view() =~= Seq::<Seq<char>>::empty());
        }
        while i < bytes.len()
            invariant
                i <= bytes.len(),
                self.buffer@ == pending(start + bytes@.take(i as int)),
                chunks.deep_view() == released(start + bytes@.take(i as int)),
            decreases bytes.len() - i,
        {
            let ghost read = start + bytes@.take(i as int);
            let ghost next = start + bytes@.take(i + 1);
            proof {
                assert(next.drop_last() =~= read);
                assert(next.last() == bytes@[i as int]);
            }
            let b = bytes[i];
            if b == NEWLINE {
                let line = lossy_text(self.buffer.as_slice());
                match chunk_of_line(line.as_str()) {
                    Some(chunk) => {
                        chunks.push(chunk);
                        proof {
                            assert(chunks.deep_view() =~= released(next));
                        }
                    },
                    None => {},
                }
                self.buffer = Vec::new();
            } else {
                self.buffer.push(b);
            }
            i += 1;
        }
        proof {
            assert(bytes@.take(bytes.len() as int) =~= bytes@);
            lemma_pending_unbroken(start + bytes@);
        }
        chunks
    }

    /// Reads the next piece of the stream, given as text.
    pub fn feed(&mut self, text: &str) -> (chunks: Vec<String>)
        requires
            old(self).wf(),
        ensures
            final(self).wf(),
            final(self)@ == pending(old(self)@ + encode_utf8(text@)),
            chunks.deep_view() == released(old(self)@ + encode_utf8(text@)),
    {
        self.feed_bytes(text.as_bytes())
    }
}

} // verus!
