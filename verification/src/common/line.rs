//! Framing of newline-delimited control messages.

use crate::common::error::{Result, VeilaError};
use crate::common::text;
use std::string::FromUtf8Error;
use vstd::prelude::*;
use vstd::utf8;
use zeroize::Zeroize;

verus! {

/// Maximum bytes accepted for a single newline-delimited IPC message
pub const IPC_MAX_LINE_BYTES: usize = 64 * 1024;

const NEWLINE: u8 = 10;

#[derive(Debug, PartialEq, Eq)]
pub enum LineProgress {
    Complete { line: String, consumed: usize },
    Pending,
}

/// Accumulates newline-delimited IPC input while enforcing a byte ceiling
#[derive(Debug)]
pub struct LineAccumulator {
    buffer: Vec<u8>,
    max_bytes: usize,
}

#[verifier::external_type_specification]
#[verifier::external_body]
pub struct ExFromUtf8Error(FromUtf8Error);

/// `String::from_utf8`: succeeds exactly on well-formed UTF-8, with the text those bytes encode.
pub assume_specification[ String::from_utf8 ](bytes: Vec<u8>) -> (result: core::result::Result<
    String,
    FromUtf8Error,
>)
    ensures
        match result {
            Ok(line) => utf8::valid_utf8(bytes@) && line@ == utf8::decode_utf8(bytes@),
            Err(_) => !utf8::valid_utf8(bytes@),
        },
;

/// `FromUtf8Error::into_bytes`: hands back the bytes that were refused. They are only wiped,
/// so nothing is claimed of them.
pub assume_specification[ FromUtf8Error::into_bytes ](error: FromUtf8Error) -> Vec<u8>
;

/// `Zeroize::zeroize` for `Vec<u8>`: overwrites the buffer and leaves the vector empty.
#[verifier::external_body]
fn wipe_bytes(bytes: &mut Vec<u8>)
    ensures
        final(bytes)@ == Seq::<u8>::empty(),
    opens_invariants none
    no_unwind
{
    bytes.zeroize();
}

/// Number of bytes that stand before the first newline.
pub open spec fn line_len(chunk: Seq<u8>) -> nat
    decreases chunk.len(),
{
    if chunk.len() == 0 || chunk[0] == 10u8 {
        0
    } else {
        1 + line_len(chunk.skip(1))
    }
}

/// What becomes of a chunk of input.
pub ghost enum LineStep {
    /// The line is not finished; these bytes wait for the rest.
    Pending(Seq<u8>),
    /// The line is finished, and this many bytes of the chunk belong to it.
    Complete(Seq<char>, nat),
    /// The line is longer than the ceiling.
    TooLong,
    /// The line is finished and is not UTF-8.
    NotUtf8,
}

/// Appends the chunk's part of the current line to the bytes that wait.
pub open spec fn absorb(pending: Seq<u8>, chunk: Seq<u8>) -> LineStep {
    let taken = line_len(chunk);
    let line = pending + chunk.take(taken as int);
    if line.len() > IPC_MAX_LINE_BYTES {
        LineStep::TooLong
    } else if taken == chunk.len() {
        LineStep::Pending(line)
    } else if utf8::valid_utf8(line) {
        LineStep::Complete(utf8::decode_utf8(line), taken + 1)
    } else {
        LineStep::NotUtf8
    }
}

pub proof fn lemma_line_len(chunk: Seq<u8>)
    ensures
        line_len(chunk) <= chunk.len(),
        forall|i: int| 0 <= i < line_len(chunk) ==> chunk[i] != 10u8,
        line_len(chunk) < chunk.len() ==> chunk[line_len(chunk) as int] == 10u8,
    decreases chunk.len(),
{
    if chunk.len() > 0 && chunk[0] != 10u8 {
        let rest = chunk.skip(1);
        lemma_line_len(rest);
        assert forall|i: int| 0 <= i < line_len(chunk) implies chunk[i] != 10u8 by {
            if i > 0 {
                assert(rest[i - 1] == chunk[i]);
            }
        }
    }
}

proof fn lemma_line_len_unique(chunk: Seq<u8>, n: nat)
    requires
        n <= chunk.len(),
        forall|i: int| 0 <= i < n ==> chunk[i] != 10u8,
        n < chunk.len() ==> chunk[n as int] == 10u8,
    ensures
        line_len(chunk) == n,
{
    lemma_line_len(chunk);
    if line_len(chunk) < n {
        assert(chunk[line_len(chunk) as int] == 10u8);
    } else if n < line_len(chunk) {
        assert(chunk[n as int] == 10u8);
    }
}

/// Position of the first newline, or the length where there is none.
fn find_line_end(chunk: &[u8]) -> (end: usize)
    ensures
        end == line_len(chunk@),
{
    let mut end: usize = 0;
    while end < chunk.len() && chunk[end] != NEWLINE
        invariant
            end <= chunk.len(),
            forall|i: int| 0 <= i < end ==> chunk@[i] != 10u8,
        decreases chunk.len() - end,
    {
        end += 1;
    }
    proof {
        lemma_line_len_unique(chunk@, end as nat);
    }
    end
}

impl View for LineAccumulator {
    type V = Seq<u8>;

    closed spec fn view(&self) -> Seq<u8> {
        self.buffer@
    }
}

impl LineAccumulator {
    /// The bytes that wait never exceed the ceiling.
    pub closed spec fn wf(&self) -> bool {
        self.max_bytes == IPC_MAX_LINE_BYTES && self.buffer@.len() <= self.max_bytes
    }

    pub fn new() -> (accumulator: Self)
        ensures
            accumulator.wf(),
            accumulator@ == Seq::<u8>::empty(),
    {
        Self::with_capacity(0)
    }

    /// Pre-sizes the buffer so an expected message never reallocates
    pub fn with_capacity(capacity: usize) -> (accumulator: Self)
        requires
            capacity <= isize::MAX,
        ensures
            accumulator.wf(),
            accumulator@ == Seq::<u8>::empty(),
    {
        Self { buffer: Vec::with_capacity(capacity), max_bytes: IPC_MAX_LINE_BYTES }
    }

    pub fn is_empty(&self) -> (empty: bool)
        ensures
            empty == (self@.len() == 0),
    {
        self.buffer.len() == 0
    }

    /// Takes the part of `chunk` that belongs to the current line. Whatever ends the line, well
    /// or badly, leaves nothing waiting.
    pub fn push_chunk(&mut self, chunk: &[u8], label: &str) -> (result: Result<LineProgress>)
        requires
            old(self).wf(),
        ensures
            final(self).wf(),
            match absorb(old(self)@, chunk@) {
                LineStep::Pending(line) => result == Ok::<LineProgress, VeilaError>(
                    LineProgress::Pending,
                ) && final(self)@ == line,
                LineStep::Complete(text, used) => final(self)@ == Seq::<u8>::empty() && (
                result matches Ok(LineProgress::Complete { line, consumed }) && line@ == text
                    && consumed == used),
                LineStep::TooLong => final(self)@ == Seq::<u8>::empty() && (
                result matches Err(VeilaError::IpcFraming(message)) && message@ == label@
                    + " exceeds "@ + text::decimal(IPC_MAX_LINE_BYTES as nat) + " bytes"@),
                LineStep::NotUtf8 => final(self)@ == Seq::<u8>::empty() && (
                result matches Err(VeilaError::IpcFraming(message)) && message@ == label@
                    + " is not UTF-8"@),
            },
    {
        let take: usize = find_line_end(chunk);
        proof {
            lemma_line_len(chunk@);
        }

        if take > self.max_bytes - self.buffer.len() {
            wipe_bytes(&mut self.buffer);
            let mut message = text::joined(label, " exceeds ");
            message.append(text::decimal_text(self.max_bytes as u128).as_str());
            message.append(" bytes");
            return Err(invalid_data(message));
        }
        self.buffer.extend_from_slice(vstd::slice::slice_subrange(chunk, 0, take));
        assert(self.buffer@ =~= old(self)@ + chunk@.take(take as int));

        if take == chunk.len() {
            return Ok(LineProgress::Pending);
        }
        let consumed: usize = take + 1;
        let mut bytes: Vec<u8> = Vec::new();
        std::mem::swap(&mut bytes, &mut self.buffer);
        match String::from_utf8(bytes) {
            Ok(line) => Ok(LineProgress::Complete { line, consumed }),
            Err(error) => {
                let mut bytes = error.into_bytes();
                wipe_bytes(&mut bytes);
                Err(invalid_data(text::joined(label, " is not UTF-8")))
            },
        }
    }

    /// Reports an unexpected end of input, distinguishing a clean close from a truncated message
    pub fn finish(&mut self, label: &str) -> (result: Result<Option<String>>)
        requires
            old(self).wf(),
        ensures
            final(self).wf(),
            final(self)@ == Seq::<u8>::empty(),
            old(self)@.len() == 0 ==> result == Ok::<Option<String>, VeilaError>(None),
            old(self)@.len() > 0 ==> (result matches Err(VeilaError::IpcFraming(message))
                && message@ == label@ + " ended before newline"@),
    {
        if self.buffer.len() == 0 {
            return Ok(None);
        }
        wipe_bytes(&mut self.buffer);
        Err(invalid_data(text::joined(label, " ended before newline")))
    }
}

impl Default for LineAccumulator {
    fn default() -> (accumulator: Self)
        ensures
            accumulator.wf(),
            accumulator@ == Seq::<u8>::empty(),
    {
        Self::new()
    }
}

impl Drop for LineAccumulator {
    fn drop(&mut self)
        ensures
            final(self)@ == Seq::<u8>::empty(),
        opens_invariants none
        no_unwind
    {
        wipe_bytes(&mut self.buffer);
    }
}

fn invalid_data(message: String) -> (error: VeilaError)
    ensures
        error == VeilaError::IpcFraming(message),
{
    VeilaError::IpcFraming(message)
}

/// It does not matter where the reader cuts the input: a line that arrives in two chunks gives
/// what it gives in one, with the first chunk's bytes counted in.
pub proof fn law_chunk_boundaries_do_not_matter(pending: Seq<u8>, first: Seq<u8>, second: Seq<u8>)
    requires
        absorb(pending, first) is Pending,
    ensures
        absorb(pending, first + second) == match absorb(
            absorb(pending, first)->Pending_0,
            second,
        ) {
            LineStep::Complete(text, used) => LineStep::Complete(text, first.len() + used),
            other => other,
        },
{
    lemma_line_len(first);
    lemma_line_len(second);
    let whole = first + second;
    let n = first.len() + line_len(second);
    assert(line_len(first) == first.len());
    assert forall|i: int| 0 <= i < n implies whole[i] != 10u8 by {
        if i < first.len() {
            assert(whole[i] == first[i]);
        } else {
            assert(whole[i] == second[i - first.len()]);
        }
    }
    lemma_line_len_unique(whole, n);
    assert(first.take(first.len() as int) =~= first);
    assert(pending + whole.take(n as int) =~= (pending + first) + second.take(
        line_len(second) as int,
    ));
}

/// What a peer sends comes out again: an encoded line of at most the ceiling, followed by a
/// newline, is read back whole, and the bytes after the newline stay with the reader.
pub proof fn law_sent_line_is_read_back(line: Seq<char>, rest: Seq<u8>)
    requires
        !utf8::encode_utf8(line).contains(10u8),
        utf8::encode_utf8(line).len() <= IPC_MAX_LINE_BYTES,
    ensures
        absorb(Seq::empty(), utf8::encode_utf8(line).push(10u8) + rest) == LineStep::Complete(
            line,
            utf8::encode_utf8(line).len() + 1,
        ),
{
    let bytes = utf8::encode_utf8(line);
    let chunk = bytes.push(10u8) + rest;
    assert forall|i: int| 0 <= i < bytes.len() implies chunk[i] != 10u8 by {
        assert(chunk[i] == bytes[i]);
        assert(bytes.contains(bytes[i]));
    }
    lemma_line_len_unique(chunk, bytes.len());
    assert(Seq::<u8>::empty() + chunk.take(bytes.len() as int) =~= bytes);
    utf8::encode_utf8_valid_utf8(line);
    utf8::encode_utf8_decode_utf8(line);
}

/// The bytes that a finished line takes off a chunk end with its newline, which is the first one.
pub proof fn law_line_takes_the_bytes_up_to_its_newline(pending: Seq<u8>, chunk: Seq<u8>)
    requires
        absorb(pending, chunk) is Complete,
    ensures
        ({
            let used = absorb(pending, chunk)->Complete_1;
            &&& 1 <= used <= chunk.len()
            &&& chunk[used - 1] == 10u8
            &&& forall|i: int| 0 <= i < used - 1 ==> chunk[i] != 10u8
        }),
{
    lemma_line_len(chunk);
}

/// What reading chunk after chunk gives: the lines in the order they are finished, and what the
/// last bytes came to. The rest of a chunk behind a finished line is read again; a line that is
/// too long or no UTF-8 ends the reading.
pub open spec fn read_chunks(pending: Seq<u8>, chunks: Seq<Seq<u8>>) -> (Seq<Seq<char>>, LineStep)
    decreases chunks.len(), chunks[0].len(),
{
    if chunks.len() == 0 {
        (Seq::empty(), LineStep::Pending(pending))
    } else {
        proof {
            lemma_line_len(chunks[0]);
        }
        match absorb(pending, chunks[0]) {
            LineStep::Pending(line) => read_chunks(line, chunks.drop_first()),
            LineStep::Complete(text, used) => {
                let (lines, end) = read_chunks(
                    Seq::empty(),
                    seq![chunks[0].skip(used as int)] + chunks.drop_first(),
                );
                (seq![text] + lines, end)
            },
            step => (Seq::empty(), step),
        }
    }
}

/// The bytes of all chunks in a row.
pub open spec fn all_bytes(chunks: Seq<Seq<u8>>) -> Seq<u8>
    decreases chunks.len(),
{
    if chunks.len() == 0 {
        Seq::empty()
    } else {
        chunks[0] + all_bytes(chunks.drop_first())
    }
}

/// The pieces of a stream that a newline ends, as text.
pub open spec fn stream_lines(stream: Seq<u8>) -> Seq<Seq<char>>
    decreases stream.len(),
{
    let len = line_len(stream) as int;
    if 0 <= len < stream.len() {
        seq![utf8::decode_utf8(stream.take(len))] + stream_lines(stream.skip(len + 1))
    } else {
        Seq::empty()
    }
}

/// Whether every piece of a stream keeps to the ceiling, and every one that a newline ends is
/// UTF-8.
pub open spec fn well_framed(stream: Seq<u8>) -> bool
    decreases stream.len(),
{
    let len = line_len(stream) as int;
    &&& len <= IPC_MAX_LINE_BYTES
    &&& 0 <= len < stream.len() ==> utf8::valid_utf8(stream.take(len)) && well_framed(
        stream.skip(len + 1),
    )
}

/// A chunk in which a line ends gives the same with more bytes behind it, and so does one that is
/// too long already.
proof fn lemma_more_bytes(pending: Seq<u8>, chunk: Seq<u8>, more: Seq<u8>)
    requires
        absorb(pending, chunk) !is Pending,
    ensures
        absorb(pending, chunk + more) == absorb(pending, chunk),
{
    lemma_line_len(chunk);
    lemma_line_len(chunk + more);
    let whole = chunk + more;
    let n = line_len(chunk);
    if n < chunk.len() {
        assert forall|i: int| 0 <= i < n implies whole[i] != 10u8 by {
            assert(whole[i] == chunk[i]);
        }
        lemma_line_len_unique(whole, n);
        assert(whole.take(n as int) =~= chunk.take(n as int));
    } else if line_len(whole) < n {
        assert(whole[line_len(whole) as int] == chunk[line_len(whole) as int]);
    }
}

proof fn lemma_one_chunk(pending: Seq<u8>, chunk: Seq<u8>)
    ensures
        read_chunks(pending, seq![chunk]) == match absorb(pending, chunk) {
            LineStep::Complete(text, used) => {
                let (lines, end) = read_chunks(Seq::empty(), seq![chunk.skip(used as int)]);
                (seq![text] + lines, end)
            },
            step => (Seq::<Seq<char>>::empty(), step),
        },
{
    lemma_line_len(chunk);
    reveal_with_fuel(read_chunks, 2);
    let chunks = seq![chunk];
    assert(chunks.drop_first() =~= Seq::empty());
    if let LineStep::Complete(text, used) = absorb(pending, chunk) {
        assert(seq![chunk.skip(used as int)] + chunks.drop_first() =~= seq![
            chunk.skip(used as int),
        ]);
    }
}

/// However a stream is cut into chunks, the same lines come out of it in the same order, and the
/// same is left at its end.
pub proof fn law_cuts_do_not_matter(pending: Seq<u8>, chunks: Seq<Seq<u8>>)
    requires
        pending.len() <= IPC_MAX_LINE_BYTES,
    ensures
        read_chunks(pending, chunks) == read_chunks(pending, seq![all_bytes(chunks)]),
    decreases chunks.len(), chunks[0].len(),
{
    lemma_one_chunk(pending, all_bytes(chunks));
    if chunks.len() == 0 {
        let nothing = Seq::<u8>::empty();
        assert(pending + nothing.take(0) =~= pending);
    } else {
        let first = chunks[0];
        let rest = chunks.drop_first();
        let more = all_bytes(rest);
        lemma_line_len(first);
        match absorb(pending, first) {
            LineStep::Pending(line) => {
                law_chunk_boundaries_do_not_matter(pending, first, more);
                law_cuts_do_not_matter(line, rest);
                lemma_one_chunk(line, more);
                lemma_line_len(more);
                if let LineStep::Complete(text, used) = absorb(line, more) {
                    assert((first + more).skip((first.len() + used) as int) =~= more.skip(
                        used as int,
                    ));
                }
            },
            LineStep::Complete(text, used) => {
                lemma_more_bytes(pending, first, more);
                let left = seq![first.skip(used as int)] + rest;
                assert(left.drop_first() =~= rest);
                assert((first + more).skip(used as int) =~= first.skip(used as int) + more);
                law_cuts_do_not_matter(Seq::empty(), left);
            },
            _ => {
                lemma_more_bytes(pending, first, more);
            },
        }
    }
}

/// A stream, cut anywhere, gives exactly the lines that its newlines end, in order: none is lost,
/// joined to another or repeated.
pub proof fn law_stream_gives_its_lines(chunks: Seq<Seq<u8>>)
    requires
        well_framed(all_bytes(chunks)),
    ensures
        read_chunks(Seq::empty(), chunks).0 == stream_lines(all_bytes(chunks)),
        read_chunks(Seq::empty(), chunks).1 is Pending,
{
    law_cuts_do_not_matter(Seq::empty(), chunks);
    lemma_whole_stream(all_bytes(chunks));
}

proof fn lemma_whole_stream(stream: Seq<u8>)
    requires
        well_framed(stream),
    ensures
        read_chunks(Seq::empty(), seq![stream]).0 == stream_lines(stream),
        read_chunks(Seq::empty(), seq![stream]).1 is Pending,
    decreases stream.len(),
{
    lemma_line_len(stream);
    lemma_one_chunk(Seq::empty(), stream);
    let len = line_len(stream) as int;
    assert(Seq::<u8>::empty() + stream.take(len) =~= stream.take(len));
    if len < stream.len() {
        lemma_whole_stream(stream.skip(len + 1));
    }
}

/// A line is refused where it is longer than 64 kibibytes, and only there; the bytes that wait are
/// those that came, as they came.
pub proof fn law_lines_are_limited(pending: Seq<u8>, chunk: Seq<u8>, end: int)
    requires
        0 <= end <= chunk.len(),
        forall|i: int| 0 <= i < end ==> chunk[i] != 10u8,
        end < chunk.len() ==> chunk[end] == 10u8,
    ensures
        absorb(pending, chunk) is TooLong <==> pending.len() + end > 65_536,
        pending.len() + end <= 65_536 && end == chunk.len() ==> absorb(pending, chunk)
            == LineStep::Pending(pending + chunk),
        pending.len() + end <= 65_536 && end < chunk.len() ==> !(absorb(pending, chunk) is Pending),
        absorb(pending, chunk) is NotUtf8 ==> !utf8::valid_utf8(pending + chunk.take(end)),
{
    lemma_line_len_unique(chunk, end as nat);
    assert(chunk.take(chunk.len() as int) == chunk);
}

} // verus!
