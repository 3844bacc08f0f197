//! Lines of a pod log, read from buffers of any size within a fixed budget.

use crate::text::string_from_utf8;
use crate::utf8::{error_len, scan_utf8, valid_len};
use vstd::prelude::*;
use vstd::slice::*;
use vstd::string::*;
use vstd::utf8::*;

verus! {

broadcast use vstd::utf8::group_utf8_lib;

/// The budget of a single log line; it excludes the notice that a line was cut.
pub const MAX_LOG_LINE_BYTES: usize = 256 * 1024;

const NEWLINE: u8 = 10;

const CARRIAGE_RETURN: u8 = 13;

/// How many bytes of `buffer` come before its first newline, or before its end.
pub open spec fn content_len(buffer: Seq<u8>) -> nat
    decreases buffer.len(),
{
    if buffer.len() == 0 || buffer[0] == 10 {
        0
    } else {
        1 + content_len(buffer.drop_first())
    }
}

/// What has been read of a line.
#[verifier::ext_equal]
pub struct LogLineView {
    /// The bytes of the line so far, without its newline.
    pub content: Seq<u8>,
    /// Whether any byte was read, a newline included.
    pub saw_bytes: bool,
    /// Whether the newline of the line was read.
    pub terminated: bool,
    /// Whether the source came to its end.
    pub ended: bool,
}

impl LogLineView {
    /// Whether there is nothing more to read of the line.
    pub open spec fn done(self) -> bool {
        self.terminated || self.ended
    }
}

/// A line of which nothing has been read.
pub open spec fn fresh_line() -> LogLineView {
    LogLineView { content: seq![], saw_bytes: false, terminated: false, ended: false }
}

/// What has been read of a line after `buffer` was offered: an empty buffer is the end
/// of the source, and nothing is taken behind the newline.
pub open spec fn after_buffer(line: LogLineView, buffer: Seq<u8>) -> LogLineView {
    if line.done() {
        line
    } else if buffer.len() == 0 {
        LogLineView { ended: true, ..line }
    } else {
        LogLineView {
            content: line.content + buffer.take(content_len(buffer) as int),
            saw_bytes: true,
            terminated: content_len(buffer) < buffer.len(),
            ended: false,
        }
    }
}

/// How many bytes of `buffer` belong to the line, its newline included.
pub open spec fn consumed_bytes(line: LogLineView, buffer: Seq<u8>) -> nat {
    if line.done() {
        0
    } else if content_len(buffer) < buffer.len() {
        content_len(buffer) + 1
    } else {
        buffer.len()
    }
}

/// The bytes of a line: those before its newline, without a carriage return right
/// before the newline.
pub open spec fn line_bytes(line: LogLineView) -> Seq<u8> {
    if line.terminated && line.content.len() > 0 && line.content.last() == 13 {
        line.content.drop_last()
    } else {
        line.content
    }
}

/// The bytes that are kept of a line: all within the budget, and beyond it the longest
/// beginning within the budget that ends no character in the middle.
pub open spec fn kept_bytes(line: Seq<u8>) -> Seq<u8> {
    if line.len() <= MAX_LOG_LINE_BYTES {
        line
    } else {
        let head = line.take(MAX_LOG_LINE_BYTES as int);
        if error_len(head) == 0 {
            head.take(valid_len(head))
        } else {
            head
        }
    }
}

/// The text of a line: what is kept of it, and a notice where that is not all.
pub open spec fn line_text(line: Seq<u8>) -> Seq<char> {
    decode_utf8(kept_bytes(line)) + if line.len() > MAX_LOG_LINE_BYTES {
        " [truncated at 256 KiB]"@
    } else {
        seq![]
    }
}

/// A line that is not UTF-8, by the bytes that were kept of it.
#[derive(Debug)]
pub struct InvalidLogLine {
    pub bytes: Vec<u8>,
}

/// What a buffer contributed to a line.
#[derive(Debug, Clone, Copy, PartialEq, Eq, Structural)]
pub struct LogLineProgress {
    /// How many bytes of the buffer belong to the line.
    pub consumed: usize,
    /// Whether there is nothing more to read of the line.
    pub done: bool,
}

/// A log line while it is read. It never holds more than the budget and one byte: the
/// extra byte tells a line of exactly the budget with a carriage return from one that
/// is too long.
pub struct LogLineReader {
    bytes: Vec<u8>,
    truncated: bool,
    saw_bytes: bool,
    terminated: bool,
    ended: bool,
    content: Ghost<Seq<u8>>,
}

impl View for LogLineReader {
    type V = LogLineView;

    closed spec fn view(&self) -> LogLineView {
        LogLineView {
            content: self.content@,
            saw_bytes: self.saw_bytes,
            terminated: self.terminated,
            ended: self.ended,
        }
    }
}

impl LogLineReader {
    /// How many bytes of the line the reader holds.
    pub closed spec fn held(self) -> nat {
        self.bytes@.len()
    }

    /// The reader holds the beginning of the line, and knows whether that is all.
    pub closed spec fn inv(self) -> bool {
        let limit = MAX_LOG_LINE_BYTES + 1;
        &&& self.truncated == (self.content@.len() > limit)
        &&& self.bytes@ == (if self.content@.len() > limit {
            self.content@.take(limit)
        } else {
            self.content@
        })
        &&& self.content@.len() > 0 ==> self.saw_bytes
        &&& self.terminated ==> self.saw_bytes
    }

    /// A reader that has read nothing.
    pub fn new() -> (reader: LogLineReader)
        ensures
            reader.inv(),
            reader@ == fresh_line(),
    {
        LogLineReader {
            bytes: Vec::new(),
            truncated: false,
            saw_bytes: false,
            terminated: false,
            ended: false,
            content: Ghost(Seq::empty()),
        }
    }

    /// Reads what belongs to the line from `buffer`; an empty buffer is the end of the
    /// source.
    pub fn accept(&mut self, buffer: &[u8]) -> (progress: LogLineProgress)
        requires
            old(self).inv(),
        ensures
            final(self).inv(),
            final(self)@ == after_buffer(old(self)@, buffer@),
            progress.consumed == consumed_bytes(old(self)@, buffer@),
            progress.done == final(self)@.done(),
            final(self).held() <= MAX_LOG_LINE_BYTES + 1,
    {
        if self.terminated || self.ended {
            return LogLineProgress { consumed: 0, done: true };
        }
        if buffer.len() == 0 {
            self.ended = true;
            return LogLineProgress { consumed: 0, done: true };
        }
        self.saw_bytes = true;
        let len: usize = len_before_newline(buffer);
        let room: usize = (MAX_LOG_LINE_BYTES + 1) - self.bytes.len();
        let retained: usize = if len <= room {
            len
        } else {
            room
        };
        let ghost before = self.content@;
        self.bytes.extend_from_slice(slice_subrange(buffer, 0, retained));
        self.truncated = self.truncated || len > retained;
        self.content = Ghost(before + buffer@.take(len as int));
        let limit: Ghost<int> = Ghost(MAX_LOG_LINE_BYTES + 1);
        assert(self.bytes@ =~= if self.content@.len() > limit@ {
            self.content@.take(limit@)
        } else {
            self.content@
        });
        let newline: bool = len < buffer.len();
        self.terminated = newline;
        LogLineProgress {
            consumed: if newline {
                len + 1
            } else {
                len
            },
            done: newline,
        }
    }

    /// The line that was read: none where the source was at its end already, and an
    /// error where what is kept of the line is not UTF-8.
    pub fn into_line(self) -> (line: Result<Option<String>, InvalidLogLine>)
        requires
            self.inv(),
        ensures
            line matches Ok(None) <==> !self@.saw_bytes,
            line is Err <==> self@.saw_bytes && !valid_utf8(kept_bytes(line_bytes(self@))),
            line matches Ok(Some(text)) ==> text@ == line_text(line_bytes(self@)),
            line matches Err(error) ==> error.bytes@ == kept_bytes(line_bytes(self@)),
    {
        if !self.saw_bytes {
            return Ok(None);
        }
        let ghost line = line_bytes(self@);
        let mut bytes: Vec<u8> = self.bytes;
        if self.terminated && !self.truncated && bytes.len() > 0 && bytes[bytes.len() - 1]
            == CARRIAGE_RETURN {
            let _ = bytes.pop();
        }
        let truncated: bool = self.truncated || bytes.len() > MAX_LOG_LINE_BYTES;
        assert(truncated == (line.len() > MAX_LOG_LINE_BYTES));
        if truncated {
            bytes.truncate(MAX_LOG_LINE_BYTES);
            assert(bytes@ =~= line.take(MAX_LOG_LINE_BYTES as int));
            let (valid, invalid) = scan_utf8(bytes.as_slice());
            if invalid == 0 {
                bytes.truncate(valid);
            }
        }
        assert(bytes@ =~= kept_bytes(line));
        if !is_utf8(bytes.as_slice()) {
            return Err(InvalidLogLine { bytes });
        }
        let mut text: String = match string_from_utf8(bytes) {
            Some(text) => text,
            None => String::new(),
        };
        if truncated {
            text.append(" [truncated at 256 KiB]");
        }
        assert(text@ =~= line_text(line));
        Ok(Some(text))
    }
}

/// Whether `bytes` are UTF-8.
fn is_utf8(bytes: &[u8]) -> (yes: bool)
    ensures
        yes == valid_utf8(bytes@),
{
    let (valid, _) = scan_utf8(bytes);
    assert(bytes@.take(bytes@.len() as int) =~= bytes@);
    proof {
        if valid_utf8(bytes@) {
            crate::utf8::valid_len_is_greatest(bytes@, bytes@.len() as int);
        }
    }
    valid == bytes.len()
}

fn len_before_newline(buffer: &[u8]) -> (len: usize)
    ensures
        len == content_len(buffer@),
        len <= buffer@.len(),
{
    let mut len: usize = 0;
    assert(buffer@.skip(0) =~= buffer@);
    while len < buffer.len() && buffer[len] != NEWLINE
        invariant
            len <= buffer@.len(),
            content_len(buffer@) == len + content_len(buffer@.skip(len as int)),
        decreases buffer@.len() - len,
    {
        assert(buffer@.skip(len as int).drop_first() =~= buffer@.skip(len + 1));
        len = len + 1;
    }
    len
}

proof fn lemma_content_len(buffer: Seq<u8>)
    ensures
        content_len(buffer) <= buffer.len(),
        forall|i: int| 0 <= i < content_len(buffer) ==> #[trigger] buffer[i] != 10,
        content_len(buffer) < buffer.len() ==> buffer[content_len(buffer) as int] == 10,
    decreases buffer.len(),
{
    if buffer.len() > 0 && buffer[0] != 10 {
        let rest = buffer.drop_first();
        lemma_content_len(rest);
        assert forall|i: int| 0 <= i < content_len(buffer) implies #[trigger] buffer[i] != 10 by {
            if i > 0 {
                assert(buffer[i] == rest[i - 1]);
            }
        }
    }
}

proof fn lemma_content_len_of_two(a: Seq<u8>, b: Seq<u8>)
    ensures
        content_len(a + b) == (if content_len(a) < a.len() {
            content_len(a)
        } else {
            a.len() + content_len(b)
        }),
        content_len(a) <= a.len(),
    decreases a.len(),
{
    if a.len() == 0 {
        assert(a + b =~= b);
    } else if a[0] != 10 {
        lemma_content_len_of_two(a.drop_first(), b);
        assert((a + b).drop_first() =~= a.drop_first() + b);
    }
}

/// A line holds no newline, and its length is that of the bytes before the first one.
pub proof fn a_line_ends_at_the_first_newline(buffer: Seq<u8>)
    requires
        buffer.len() > 0,
    ensures
        ({
            let line = after_buffer(fresh_line(), buffer);
            &&& !line.content.contains(10)
            &&& line.terminated == buffer.contains(10)
            &&& line.terminated ==> line.content.push(10) == buffer.take(
                consumed_bytes(fresh_line(), buffer) as int,
            )
            &&& !line.terminated ==> line.content == buffer
        }),
{
    lemma_content_len(buffer);
    let len = content_len(buffer) as int;
    let line = after_buffer(fresh_line(), buffer);
    assert(line.content =~= buffer.take(len));
    if len < buffer.len() {
        assert(buffer[len] == 10);
        assert(line.content.push(10) =~= buffer.take(len + 1));
    } else {
        assert(line.content =~= buffer);
        if buffer.contains(10) {
            let i = buffer.index_of(10);
            assert(buffer[i] != 10);
        }
    }
}

/// Two buffers read the same line as one buffer with the bytes of both.
pub proof fn two_buffers_read_as_one(line: LogLineView, a: Seq<u8>, b: Seq<u8>)
    requires
        a.len() > 0,
        b.len() > 0,
    ensures
        after_buffer(after_buffer(line, a), b) == after_buffer(line, a + b),
        consumed_bytes(line, a) + consumed_bytes(after_buffer(line, a), b) == consumed_bytes(
            line,
            a + b,
        ),
{
    lemma_content_len_of_two(a, b);
    lemma_content_len(b);
    if !line.done() {
        if content_len(a) < a.len() {
            assert((a + b).take(content_len(a) as int) =~= a.take(content_len(a) as int));
        } else {
            assert(a.take(a.len() as int) =~= a);
            assert((a + b).take((a.len() + content_len(b)) as int) =~= a + b.take(
                content_len(b) as int,
            ));
            assert(line.content + a + b.take(content_len(b) as int) =~= line.content + (a + b).take(
                (a.len() + content_len(b)) as int,
            ));
        }
    }
}

/// What has been read of a line after `buffers` were offered one behind the other.
pub open spec fn after_buffers(line: LogLineView, buffers: Seq<Seq<u8>>) -> LogLineView
    decreases buffers.len(),
{
    if buffers.len() == 0 {
        line
    } else {
        after_buffers(after_buffer(line, buffers.first()), buffers.drop_first())
    }
}

/// A line does not depend on how its source is cut into buffers.
pub proof fn cutting_keeps_the_line(line: LogLineView, buffers: Seq<Seq<u8>>)
    requires
        buffers.len() > 0,
        forall|i: int| 0 <= i < buffers.len() ==> (#[trigger] buffers[i]).len() > 0,
    ensures
        after_buffers(line, buffers) == after_buffer(line, buffers.flatten()),
        buffers.flatten().len() > 0,
    decreases buffers.len(),
{
    let first = buffers.first();
    let rest = buffers.drop_first();
    assert(first == buffers[0]);
    let next = after_buffer(line, first);
    if rest.len() == 0 {
        assert(rest.flatten() =~= seq![]);
        assert(buffers.flatten() =~= first);
        assert(after_buffers(next, rest) == next);
    } else {
        assert forall|i: int| 0 <= i < rest.len() implies (#[trigger] rest[i]).len() > 0 by {
            assert(rest[i] == buffers[i + 1]);
        }
        cutting_keeps_the_line(next, rest);
        two_buffers_read_as_one(line, first, rest.flatten());
    }
}

/// What is kept of a line is within the budget, and is all of the line where that is
/// within the budget.
pub proof fn kept_bytes_are_within_the_budget(line: Seq<u8>)
    ensures
        kept_bytes(line).len() <= MAX_LOG_LINE_BYTES,
        kept_bytes(line).is_prefix_of(line),
        line.len() <= MAX_LOG_LINE_BYTES ==> kept_bytes(line) == line,
{
    if line.len() > MAX_LOG_LINE_BYTES {
        let head = line.take(MAX_LOG_LINE_BYTES as int);
        assert(head.take(0) =~= seq![]);
        crate::utf8::valid_len_is_greatest(head, 0);
        assert(head.take(valid_len(head)) =~= line.take(valid_len(head)));
    }
}

/// Cutting a line that is UTF-8 never makes it invalid: at most the character that the
/// budget ends in is lost, so that fewer than four bytes of the budget go unused.
pub proof fn cutting_a_line_keeps_it_valid(line: Seq<u8>)
    requires
        valid_utf8(line),
    ensures
        valid_utf8(kept_bytes(line)),
        line.len() > MAX_LOG_LINE_BYTES ==> kept_bytes(line).len() + 3 >= MAX_LOG_LINE_BYTES,
{
    if line.len() > MAX_LOG_LINE_BYTES {
        crate::utf8::cut_text_is_valid_or_incomplete(line, MAX_LOG_LINE_BYTES as int);
    }
}

/// A line that is written is read back: whatever the text, as long as it holds no newline
/// and is within the budget, a line that ends in a newline, with or without a carriage
/// return before it, or at the end of the source gives the text again. A text that
/// itself ends in a carriage return needs one more before the newline.
pub proof fn a_written_line_is_read_back(text: Seq<char>)
    requires
        encode_utf8(text).len() <= MAX_LOG_LINE_BYTES,
        !encode_utf8(text).contains(10),
    ensures
        ({
            let bytes = encode_utf8(text);
            let with_newline = after_buffer(fresh_line(), bytes + seq![10u8]);
            let with_both = after_buffer(fresh_line(), bytes + seq![13u8, 10u8]);
            let at_the_end = after_buffer(after_buffer(fresh_line(), bytes), seq![]);
            &&& bytes.len() == 0 || bytes.last() != 13 ==> reads_as(with_newline, text)
            &&& reads_as(with_both, text)
            &&& bytes.len() > 0 ==> reads_as(at_the_end, text)
        }),
{
    let bytes = encode_utf8(text);
    encode_utf8_decode_utf8(text);
    lemma_no_newline(bytes, seq![10u8]);
    lemma_no_newline(bytes, seq![13u8, 10u8]);
    lemma_no_newline(bytes, seq![]);
    reveal_with_fuel(content_len, 3);
    assert(seq![13u8, 10u8].drop_first() =~= seq![10u8]);
    let with_newline = after_buffer(fresh_line(), bytes + seq![10u8]);
    let with_both = after_buffer(fresh_line(), bytes + seq![13u8, 10u8]);
    assert(with_newline.content =~= bytes);
    assert(with_both.content =~= bytes.push(13));
    assert(bytes.push(13).drop_last() =~= bytes);
    assert(bytes + seq![] =~= bytes);
    assert(after_buffer(fresh_line(), bytes).content =~= bytes);
    assert(decode_utf8(bytes) + Seq::<char>::empty() =~= text);
}

/// Whether a line that was read to its end is there, is valid, and has the text.
pub open spec fn reads_as(line: LogLineView, text: Seq<char>) -> bool {
    &&& line.done()
    &&& line.saw_bytes
    &&& valid_utf8(kept_bytes(line_bytes(line)))
    &&& line_text(line_bytes(line)) == text
}

proof fn lemma_no_newline(bytes: Seq<u8>, end: Seq<u8>)
    requires
        !bytes.contains(10),
    ensures
        content_len(bytes + end) == bytes.len() + content_len(end),
{
    lemma_content_len_of_two(bytes, end);
    lemma_content_len(bytes);
    if content_len(bytes) < bytes.len() {
        assert(bytes.contains(bytes[content_len(bytes) as int]));
    }
}

/// The text of a line is all of it where that is within 256 KiB. Beyond, it is what was
/// kept, and a notice that it was cut; a line that was not cut has no notice.
pub proof fn a_cut_line_says_so(line: Seq<u8>)
    ensures
        line.len() <= 262_144 ==> line_text(line) == decode_utf8(line),
        line.len() > 262_144 ==> line_text(line) == decode_utf8(kept_bytes(line))
            + " [truncated at 256 KiB]"@,
{
    assert(line_text(line) =~= decode_utf8(kept_bytes(line)) + if line.len() > 262_144 {
        " [truncated at 256 KiB]"@
    } else {
        seq![]
    });
    if line.len() <= 262_144 {
        assert(line_text(line) =~= decode_utf8(line));
    }
}

/// As much of a valid line is kept as can be: no longer beginning within the budget ends
/// with a whole character.
pub proof fn no_character_is_lost_needlessly(line: Seq<u8>, len: int)
    requires
        valid_utf8(line),
        0 <= len <= line.len(),
        len <= MAX_LOG_LINE_BYTES,
        valid_utf8(line.take(len)),
    ensures
        len <= kept_bytes(line).len(),
{
    if line.len() > MAX_LOG_LINE_BYTES {
        let head = line.take(MAX_LOG_LINE_BYTES as int);
        crate::utf8::cut_text_is_valid_or_incomplete(line, MAX_LOG_LINE_BYTES as int);
        assert(head.take(len) =~= line.take(len));
        crate::utf8::valid_len_is_greatest(head, len);
    }
}

/// Bytes that encode nothing are not cut away: a line that holds some within the budget
/// keeps all of the budget, and is no valid text.
pub proof fn cutting_hides_no_invalid_bytes(line: Seq<u8>, at: int)
    requires
        line.len() > MAX_LOG_LINE_BYTES,
        0 <= at < MAX_LOG_LINE_BYTES,
        valid_utf8(line.take(at)),
        ({
            let rest = line.take(MAX_LOG_LINE_BYTES as int).skip(at);
            !valid_first_scalar(rest) && !crate::utf8::incomplete_scalar(rest)
        }),
    ensures
        kept_bytes(line) == line.take(MAX_LOG_LINE_BYTES as int),
        !valid_utf8(kept_bytes(line)),
{
    let head = line.take(MAX_LOG_LINE_BYTES as int);
    assert(head.take(at) =~= line.take(at));
    crate::utf8::the_valid_beginning_ends_with_its_text(head, at);
    crate::utf8::a_broken_character_is_given_up_whole(head.skip(at), 1);
    assert(error_len(head) > 0);
    if valid_utf8(head) {
        assert(head.take(head.len() as int) =~= head);
        crate::utf8::valid_len_is_greatest(head, head.len() as int);
    }
}

/// Of a line only one carriage return is dropped, and that only right before its newline.
pub proof fn only_the_carriage_return_before_a_newline_is_dropped(line: LogLineView)
    ensures
        line.terminated && line.content.len() > 0 && line.content.last() == 13 ==> line_bytes(
            line,
        ).push(13) == line.content,
        !line.terminated || line.content.len() == 0 || line.content.last() != 13 ==> line_bytes(
            line,
        ) == line.content,
{
    if line.terminated && line.content.len() > 0 && line.content.last() == 13 {
        assert(line.content.drop_last().push(13) =~= line.content);
    }
}

/// A line that is done takes nothing more; the end of the source ends a line, and where
/// nothing was read there is none; whatever is read makes one, be it a newline alone.
pub proof fn a_line_is_there_once_anything_is_read(line: LogLineView, buffer: Seq<u8>)
    ensures
        line.terminated || line.ended ==> after_buffer(line, buffer) == line && consumed_bytes(
            line,
            buffer,
        ) == 0,
        ({
            let end = after_buffer(fresh_line(), seq![]);
            end.ended && !end.saw_bytes && end.content.len() == 0
        }),
        !line.done() && buffer.len() > 0 ==> after_buffer(line, buffer).saw_bytes && !after_buffer(
            line,
            buffer,
        ).ended,
        !line.done() && buffer.len() == 0 ==> after_buffer(line, buffer) == (LogLineView {
            ended: true,
            ..line
        }) && consumed_bytes(line, buffer) == 0,
        line.done() <==> line.terminated || line.ended,
        fresh_line().content.len() == 0 && !fresh_line().saw_bytes && !fresh_line().terminated
            && !fresh_line().ended,
{
}

} // verus!
