//! Decoding `text/event-stream`.
//!
//! A wire-format parser fed by a network, so it assumes nothing about what it
//! is handed: bytes arrive in arbitrary chunks that split lines, split UTF-8
//! sequences, and end without the terminating blank line the format calls
//! for. It handles:
//!
//! - `data:` repeated over several lines, rejoined with `\n`;
//! - comment lines (`: keep-alive`), which dispatch nothing;
//! - a body that ends without a blank line: [`SseDecoder::finish`] dispatches
//!   the last frame rather than dropping it;
//! - `\n`, `\r\n` and lone `\r` line endings, including a `\r\n` split across
//!   two chunks;
//! - a leading UTF-8 byte-order mark;
//! - a field with no colon, an empty field value, and unknown field names;
//! - a frame with no `data` field, which the format says not to dispatch.
//!
//! It refuses invalid UTF-8, and a single frame larger than
//! [`SseDecoder::max_frame_size`].
//!
//! The decoder keeps what it has read as bytes and turns them into text only
//! when a frame goes out. Every line is checked to be UTF-8 when it is taken;
//! the field values cut from it at ASCII delimiters are UTF-8 too, which is
//! what lets a frame's text be produced without a second failure mode.

use vstd::prelude::*;
use vstd::string::StringSliceAdditionalSpecFns;
use vstd::utf8::{
    decode_utf8, encode_utf8, encode_utf8_valid_utf8, is_ascii_chars, is_ascii_chars_encode_utf8,
    is_char_boundary, is_char_boundary_iff_is_leading_byte, is_leading_byte_width_1,
    length_of_first_scalar, pop_first_scalar, valid_utf8, valid_utf8_concat, valid_utf8_split,
};

use crate::error::Error;
use crate::registry::opt_text;
use crate::text::cat;

verus! {

/// The default cap on one frame, before the decoder gives up: 8 MiB.
pub const DEFAULT_MAX_FRAME_SIZE: usize = 8 * 1024 * 1024;

/// Whether `b` ends a line: `\n` or `\r`.
pub open spec fn is_line_break(b: u8) -> bool {
    b == 10 || b == 13
}

/// The position of the first line break at or after `i`, or the length of
/// `buf` when there is none.
pub open spec fn break_from(buf: Seq<u8>, i: int) -> int
    decreases buf.len() - i,
{
    if i >= buf.len() {
        buf.len() as int
    } else if is_line_break(buf[i]) {
        i
    } else {
        break_from(buf, i + 1)
    }
}

/// The position of the first `:` at or after `i`, or the length of `line`.
pub open spec fn colon_from(line: Seq<u8>, i: int) -> int
    decreases line.len() - i,
{
    if i >= line.len() {
        line.len() as int
    } else if line[i] == 58 {
        i
    } else {
        colon_from(line, i + 1)
    }
}

/// The next whole line in `buf`, without its terminator, and what follows
/// it. At the end of the stream the trailing bytes are a line even without a
/// terminator; before it, a `\r` at the very end is held back, since it may be
/// the first half of a `\r\n` split across two chunks.
pub open spec fn split_line(buf: Seq<u8>, eof: bool) -> Option<(Seq<u8>, Seq<u8>)> {
    let p = break_from(buf, 0);
    if p >= buf.len() {
        if eof && buf.len() > 0 {
            Some((buf, Seq::empty()))
        } else {
            None
        }
    } else if buf[p] == 13 && p + 1 == buf.len() && !eof {
        None
    } else {
        let width = if buf[p] == 13 && p + 1 < buf.len() && buf[p + 1] == 10 { 2int } else { 1int };
        Some((buf.subrange(0, p), buf.subrange(p + width, buf.len() as int)))
    }
}

/// Whether `t` is a line terminator: `\n`, `\r` or `\r\n`.
pub open spec fn is_terminator(t: Seq<u8>) -> bool {
    t == seq![10u8] || t == seq![13u8] || t == seq![13u8, 10u8]
}

/// Lines end at the first line break, whichever of the three it is: a line
/// split off holds no line break, and the buffer is the line, its
/// terminator (a `\r\n` taken whole, never as a `\r` then an empty line)
/// and the rest; or, at the end of the stream, the unterminated remainder.
/// Nothing is split off only where no line is complete: no break is
/// buffered but perhaps a final `\r`, and the stream has not ended with
/// bytes still buffered.
pub proof fn law_a_line_ends_at_its_first_break(buf: Seq<u8>, eof: bool)
    ensures
        split_line(buf, eof) matches Some((line, rest)) ==> {
            &&& forall|i: int| 0 <= i < line.len() ==> !is_line_break(#[trigger] line[i])
            &&& {
                ||| exists|t: Seq<u8>| {
                    &&& #[trigger] is_terminator(t)
                    &&& buf == line + t + rest
                    &&& t == seq![13u8] ==> !(rest.len() > 0 && rest[0] == 10)
                }
                ||| eof && rest.len() == 0 && buf == line
            }
        },
        split_line(buf, eof) is None ==> {
            &&& !(eof && buf.len() > 0)
            &&& forall|i: int| 0 <= i < buf.len() - 1 ==> !is_line_break(#[trigger] buf[i])
            &&& buf.len() > 0 && is_line_break(buf.last()) ==> buf.last() == 13
        },
{
    lemma_break_from_bounds(buf, 0);
    let p = break_from(buf, 0);
    if p >= buf.len() {
        if eof && buf.len() > 0 {
            let line = buf;
            assert forall|i: int| 0 <= i < line.len() implies !is_line_break(#[trigger] line[i]) by {}
        }
    } else if buf[p] == 13 && p + 1 == buf.len() && !eof {
    } else {
        let width = if buf[p] == 13 && p + 1 < buf.len() && buf[p + 1] == 10 { 2int } else { 1int };
        let line = buf.subrange(0, p);
        let rest = buf.subrange(p + width, buf.len() as int);
        let t = buf.subrange(p, p + width);
        assert forall|i: int| 0 <= i < line.len() implies !is_line_break(#[trigger] line[i]) by {
            assert(line[i] == buf[i]);
        }
        if width == 2 {
            assert(t =~= seq![13u8, 10u8]);
        } else if buf[p] == 13 {
            assert(t =~= seq![13u8]);
            if rest.len() > 0 {
                assert(rest[0] == buf[p + 1]);
            }
        } else {
            assert(t =~= seq![10u8]);
        }
        assert(buf =~= line + t + rest);
        assert(is_terminator(t));
    }
}

/// Whether `line` starts with the UTF-8 byte-order mark.
pub open spec fn starts_with_bom(line: Seq<u8>) -> bool {
    line.len() >= 3 && line[0] == 0xef && line[1] == 0xbb && line[2] == 0xbf
}

/// `value` without the one optional space after a field's colon.
pub open spec fn without_space(value: Seq<u8>) -> Seq<u8> {
    if value.len() > 0 && value[0] == 32 {
        value.subrange(1, value.len() as int)
    } else {
        value
    }
}

/// The field name of a line: what precedes the first colon, or the whole
/// line when it has none.
pub open spec fn field_of(line: Seq<u8>) -> Seq<u8> {
    let c = colon_from(line, 0);
    if c < line.len() {
        line.subrange(0, c)
    } else {
        line
    }
}

/// The value of a line: what follows the first colon and the one optional
/// space after it, or nothing when the line has no colon.
pub open spec fn value_of(line: Seq<u8>) -> Seq<u8> {
    let c = colon_from(line, 0);
    if c < line.len() {
        without_space(line.subrange(c + 1, line.len() as int))
    } else {
        Seq::empty()
    }
}

/// A line's field is what precedes its first colon, and its value what
/// follows, less one space right after the colon: the line is the field, the
/// colon, that space where there is one, and the value. A line without a
/// colon is all field and no value.
pub proof fn law_a_field_ends_at_the_first_colon(line: Seq<u8>)
    ensures
        forall|i: int| 0 <= i < field_of(line).len() ==> #[trigger] field_of(line)[i] != 58,
        line.contains(58) ==> {
            ||| line == field_of(line) + seq![58u8] + value_of(line)
                && !(value_of(line).len() > 0 && value_of(line)[0] == 32)
            ||| line == field_of(line) + seq![58u8, 32u8] + value_of(line)
        },
        !line.contains(58) ==> field_of(line) == line && value_of(line).len() == 0,
{
    lemma_colon_from_bounds(line, 0);
    lemma_no_colon_before(line, 0);
    let c = colon_from(line, 0);
    if c < line.len() {
        let after = line.subrange(c + 1, line.len() as int);
        assert(line[c] == 58);
        assert(line.contains(58));
        if after.len() > 0 && after[0] == 32 {
            assert(line =~= field_of(line) + seq![58u8, 32u8] + value_of(line));
        } else {
            assert(line =~= field_of(line) + seq![58u8] + value_of(line));
        }
    } else {
        assert(!line.contains(58));
    }
}

/// No colon stands between `i` and the first colon from `i`.
proof fn lemma_no_colon_before(line: Seq<u8>, i: int)
    requires
        0 <= i,
    ensures
        forall|j: int| i <= j < colon_from(line, i) && j < line.len() ==> line[j] != 58,
    decreases line.len() - i,
{
    if i < line.len() && line[i] != 58 {
        lemma_no_colon_before(line, i + 1);
    }
}

/// Whether every byte is an ASCII digit.
pub open spec fn all_digits(s: Seq<u8>) -> bool {
    forall|i: int| 0 <= i < s.len() ==> 48 <= #[trigger] s[i] <= 57
}

/// The number a string of ASCII digits spells in decimal.
pub open spec fn decimal_value(digits: Seq<u8>) -> nat
    decreases digits.len(),
{
    if digits.len() == 0 {
        0
    } else {
        decimal_value(digits.drop_last()) * 10 + (digits.last() - 48) as nat
    }
}

/// What `u64::from_str` makes of `value`: an optional `+` and at least one
/// decimal digit, with nothing else, whose number fits in a `u64`.
pub open spec fn parse_u64(value: Seq<u8>) -> Option<u64> {
    let digits = if value.len() > 0 && value[0] == 43 {
        value.subrange(1, value.len() as int)
    } else {
        value
    };
    if digits.len() > 0 && all_digits(digits) && decimal_value(digits) <= u64::MAX {
        Some(decimal_value(digits) as u64)
    } else {
        None
    }
}

/// The decimal digits of `n`, as `usize`'s `Display` writes them.
pub open spec fn decimal_text(n: nat) -> Seq<char>
    decreases n,
{
    if n < 10 {
        seq![digit_char(n)]
    } else {
        decimal_text(n / 10) + seq![digit_char(n % 10)]
    }
}

/// The ASCII digit for `d`.
pub open spec fn digit_char(d: nat) -> char {
    if d == 0 { '0' } else if d == 1 { '1' } else if d == 2 { '2' } else if d == 3 { '3' }
    else if d == 4 { '4' } else if d == 5 { '5' } else if d == 6 { '6' } else if d == 7 { '7' }
    else if d == 8 { '8' } else { '9' }
}

/// The text `std` gives the error of decoding `bytes` as UTF-8, which says
/// where the first invalid sequence starts. A function of `bytes` alone.
pub uninterp spec fn utf8_error_text(bytes: Seq<u8>) -> Seq<char>;

/// What the decoder holds between chunks.
pub struct SseView {
    /// Bytes received but not yet split into lines.
    pub buffer: Seq<u8>,
    /// The `data` lines of the frame being built, each followed by `\n`.
    pub data: Seq<u8>,
    /// The frame's `event` field.
    pub event: Option<Seq<u8>>,
    /// The frame's `id` field.
    pub id: Option<Seq<u8>>,
    /// The frame's `retry` field.
    pub retry: Option<u64>,
    /// The cap on one frame.
    pub max_frame_size: usize,
    /// No line has been decoded yet, so a byte-order mark may still come.
    pub at_start: bool,
}

/// A frame, as text.
pub struct FrameView {
    /// The `event` field.
    pub event: Option<Seq<char>>,
    /// The payload.
    pub data: Seq<char>,
    /// The `id` field.
    pub id: Option<Seq<char>>,
    /// The `retry` field.
    pub retry: Option<u64>,
}

/// The text of optional UTF-8 bytes.
pub open spec fn decoded(bytes: Option<Seq<u8>>) -> Option<Seq<char>> {
    match bytes {
        Some(b) => Some(decode_utf8(b)),
        None => None,
    }
}

/// What the decoder makes of one line.
pub enum LineStep {
    /// No whole line is buffered.
    Nothing,
    /// A line, decoded, without a byte-order mark.
    Line(Seq<u8>),
    /// A line that is not UTF-8.
    Invalid(Seq<u8>),
}

/// The state after taking the next line, and the line.
pub open spec fn take_line(st: SseView, eof: bool) -> (SseView, LineStep) {
    match split_line(st.buffer, eof) {
        None => (st, LineStep::Nothing),
        Some((raw, rest)) => {
            let next = SseView { buffer: rest, ..st };
            if !valid_utf8(raw) {
                (next, LineStep::Invalid(raw))
            } else if st.at_start {
                let line = if starts_with_bom(raw) { raw.subrange(3, raw.len() as int) } else { raw };
                (SseView { at_start: false, ..next }, LineStep::Line(line))
            } else {
                (next, LineStep::Line(raw))
            }
        },
    }
}

/// The state after the frame being built goes out, and the frame, if it
/// has a payload.
pub open spec fn dispatch(st: SseView) -> (SseView, Option<FrameView>) {
    let cleared = SseView { data: Seq::empty(), event: None, id: None, retry: None, ..st };
    if st.data.len() == 0 {
        (cleared, None)
    } else {
        (cleared, Some(FrameView {
            event: decoded(st.event),
            data: decode_utf8(st.data.drop_last()),
            id: decoded(st.id),
            retry: st.retry,
        }))
    }
}

/// The state after one line is applied to the frame being built, and the
/// frame a blank line dispatches.
pub open spec fn process(st: SseView, line: Seq<u8>) -> (SseView, Option<FrameView>) {
    if line.len() == 0 {
        dispatch(st)
    } else if line[0] == 58 {
        (st, None)
    } else {
        let field = field_of(line);
        let value = value_of(line);
        if field == encode_utf8("data"@) {
            (SseView { data: st.data + value + seq![10u8], ..st }, None)
        } else if field == encode_utf8("event"@) {
            (SseView { event: Some(value), ..st }, None)
        } else if field == encode_utf8("id"@) {
            (SseView { id: Some(value), ..st }, None)
        } else if field == encode_utf8("retry"@) {
            match parse_u64(value) {
                Some(n) => (SseView { retry: Some(n), ..st }, None),
                None => (st, None),
            }
        } else {
            (st, None)
        }
    }
}

/// What pulling a frame gives.
pub enum Pulled {
    /// A frame.
    Frame(FrameView),
    /// No complete frame is buffered yet.
    NoFrame,
    /// A line that is not UTF-8.
    Invalid(Seq<u8>),
}

/// A line split off a buffer is shorter than the buffer.
pub proof fn lemma_split_line_shrinks(buf: Seq<u8>, eof: bool)
    ensures
        split_line(buf, eof) matches Some((line, rest)) ==> rest.len() < buf.len(),
{
    lemma_break_from_bounds(buf, 0);
}

/// Where `break_from` can land.
pub proof fn lemma_break_from_bounds(buf: Seq<u8>, i: int)
    requires
        0 <= i,
    ensures
        i <= break_from(buf, i) <= buf.len() || (i > buf.len() && break_from(buf, i) == buf.len()),
        break_from(buf, i) < buf.len() ==> is_line_break(buf[break_from(buf, i)]),
        forall|j: int| i <= j < break_from(buf, i) ==> !is_line_break(#[trigger] buf[j]),
    decreases buf.len() - i,
{
    if i < buf.len() && !is_line_break(buf[i]) {
        lemma_break_from_bounds(buf, i + 1);
    }
}

/// Where `colon_from` can land.
pub proof fn lemma_colon_from_bounds(line: Seq<u8>, i: int)
    requires
        0 <= i,
    ensures
        i <= line.len() ==> i <= colon_from(line, i) <= line.len(),
        colon_from(line, i) < line.len() ==> line[colon_from(line, i)] == 58,
    decreases line.len() - i,
{
    if i < line.len() && line[i] != 58 {
        lemma_colon_from_bounds(line, i + 1);
    }
}

/// The state after pulling lines until a frame is complete, and the frame.
pub open spec fn pull(st: SseView, eof: bool) -> (SseView, Pulled)
    decreases st.buffer.len(),
{
    let (next, step) = take_line(st, eof);
    match step {
        LineStep::Nothing => (next, Pulled::NoFrame),
        LineStep::Invalid(raw) => (next, Pulled::Invalid(raw)),
        LineStep::Line(line) => {
            let (after, frame) = process(next, line);
            match frame {
                Some(f) => (after, Pulled::Frame(f)),
                None => {
                    proof {
                        lemma_split_line_shrinks(st.buffer, eof);
                    }
                    pull(after, eof)
                },
            }
        },
    }
}

/// The state after the end of the stream: every remaining line applied, in
/// order, then whatever was being built dispatched. The frames, or the first
/// line that is not UTF-8.
pub open spec fn drain(st: SseView) -> (SseView, Result<Seq<FrameView>, Seq<u8>>)
    decreases st.buffer.len(),
{
    let (next, step) = take_line(st, true);
    match step {
        LineStep::Nothing => {
            let (after, frame) = dispatch(st);
            (after, Ok(match frame {
                Some(f) => seq![f],
                None => Seq::empty(),
            }))
        },
        LineStep::Invalid(raw) => (next, Err(raw)),
        LineStep::Line(line) => {
            let (after, frame) = process(next, line);
            proof {
                lemma_split_line_shrinks(st.buffer, true);
            }
            let (end, rest) = drain(after);
            (end, match rest {
                Ok(frames) => Ok(match frame {
                    Some(f) => seq![f] + frames,
                    None => frames,
                }),
                Err(raw) => Err(raw),
            })
        },
    }
}

/// Each frame starts empty: once a frame goes out (or a blank line finds
/// nothing to send), none of its fields carries over to the next. Only the
/// unread bytes, the cap and whether a byte-order mark may still come stay.
pub proof fn law_a_frame_starts_empty(st: SseView)
    ensures
        dispatch(st).0.data.len() == 0,
        dispatch(st).0.event is None,
        dispatch(st).0.id is None,
        dispatch(st).0.retry is None,
        dispatch(st).0.buffer == st.buffer,
        dispatch(st).0.max_frame_size == st.max_frame_size,
        dispatch(st).0.at_start == st.at_start,
        dispatch(st).1 is Some <==> st.data.len() > 0,
{
}

/// A blank line ends the frame being built: what follows it starts from an
/// empty frame, whatever the frame before it held.
pub proof fn law_a_blank_line_ends_the_frame(st: SseView)
    ensures
        process(st, Seq::empty()).0.data.len() == 0,
        process(st, Seq::empty()).0.event is None,
        process(st, Seq::empty()).0.id is None,
        process(st, Seq::empty()).0.retry is None,
{
}

/// The state after pulling every frame the buffered bytes complete, the
/// frames in order, and the first line that is not UTF-8, if pulling stopped
/// at one. A pulled frame always consumes a line (`lemma_pull_shrinks`), so
/// the recursion's guard always holds.
pub open spec fn pull_all(st: SseView) -> (SseView, Seq<FrameView>, Option<Seq<u8>>)
    decreases st.buffer.len(),
{
    let (next, pulled) = pull(st, false);
    match pulled {
        Pulled::NoFrame => (next, Seq::empty(), None),
        Pulled::Invalid(raw) => (next, Seq::empty(), Some(raw)),
        Pulled::Frame(f) => if next.buffer.len() < st.buffer.len() {
            let (end, frames, bad) = pull_all(next);
            (end, seq![f] + frames, bad)
        } else {
            (next, seq![f], None)
        },
    }
}

/// Applying a line leaves the unread bytes alone.
pub proof fn lemma_process_keeps_buffer(st: SseView, line: Seq<u8>)
    ensures
        process(st, line).0.buffer == st.buffer,
{
}

/// A pulled frame consumed at least one line.
pub proof fn lemma_pull_shrinks(st: SseView, eof: bool)
    ensures
        pull(st, eof).1 is Frame ==> pull(st, eof).0.buffer.len() < st.buffer.len(),
        pull(st, eof).0.buffer.len() <= st.buffer.len(),
    decreases st.buffer.len(),
{
    lemma_split_line_shrinks(st.buffer, eof);
    let (next, step) = take_line(st, eof);
    match step {
        LineStep::Line(line) => {
            lemma_process_keeps_buffer(next, line);
            let (after, frame) = process(next, line);
            if frame is None {
                lemma_pull_shrinks(after, eof);
            }
        },
        _ => {},
    }
}

/// The error a line that is not UTF-8 is reported with.
pub open spec fn not_utf8_text(raw: Seq<u8>) -> Seq<char> {
    "stream is not UTF-8: "@ + utf8_error_text(raw)
}

/// The error an oversized frame is reported with.
pub open spec fn too_large_text(max: usize) -> Seq<char> {
    "frame exceeded the "@ + decimal_text(max as nat) + " byte limit before a line break"@
}

/// The position of the first line break does not move when bytes arrive
/// after it.
pub proof fn lemma_break_from_extend(buf: Seq<u8>, more: Seq<u8>, i: int)
    requires
        0 <= i,
        break_from(buf, i) < buf.len(),
    ensures
        break_from(buf + more, i) == break_from(buf, i),
    decreases buf.len() - i,
{
    if i < buf.len() {
        assert((buf + more)[i] == buf[i]);
        if !is_line_break(buf[i]) {
            lemma_break_from_extend(buf, more, i + 1);
        }
    }
}

/// A line the decoder takes before the end of the stream is the same line,
/// followed by the same bytes, whatever arrives after them: a `\r` at the
/// very end is held back precisely so that this holds.
pub proof fn lemma_split_line_extend(buf: Seq<u8>, more: Seq<u8>)
    requires
        split_line(buf, false) is Some,
    ensures
        split_line(buf + more, false) == match split_line(buf, false) {
            Some((line, rest)) => Some((line, rest + more)),
            None => None,
        },
{
    lemma_break_from_bounds(buf, 0);
    let p = break_from(buf, 0);
    lemma_break_from_extend(buf, more, 0);
    let ext = buf + more;
    assert(ext[p] == buf[p]);
    if buf[p] == 13 {
        assert(ext[p + 1] == buf[p + 1]);
    }
    let width = if buf[p] == 13 && p + 1 < buf.len() && buf[p + 1] == 10 { 2int } else { 1int };
    assert(ext.subrange(0, p) =~= buf.subrange(0, p));
    assert(ext.subrange(p + width, ext.len() as int) =~= buf.subrange(p + width, buf.len() as int) + more);
}

/// `st` with `more` bytes received.
pub open spec fn received(st: SseView, more: Seq<u8>) -> SseView {
    SseView { buffer: st.buffer + more, ..st }
}

/// Chunking is invisible: when the bytes received so far hold a complete
/// frame (or a line that is not UTF-8), receiving more bytes before pulling
/// gives the same frame, and leaves the decoder where it would have been had
/// the bytes arrived after the pull.
pub proof fn law_more_bytes_do_not_change_a_pulled_frame(st: SseView, more: Seq<u8>)
    requires
        !(pull(st, false).1 is NoFrame),
    ensures
        pull(received(st, more), false).1 == pull(st, false).1,
        pull(received(st, more), false).0 == received(pull(st, false).0, more),
    decreases st.buffer.len(),
{
    let (next, step) = take_line(st, false);
    assert(split_line(st.buffer, false) is Some);
    lemma_split_line_extend(st.buffer, more);
    lemma_split_line_shrinks(st.buffer, false);
    let ext = received(st, more);
    assert(take_line(ext, false).0 == received(next, more));
    match step {
        LineStep::Line(line) => {
            let (after, frame) = process(next, line);
            assert(process(received(next, more), line).0 == received(after, more));
            assert(process(received(next, more), line).1 == frame);
            if frame is None {
                law_more_bytes_do_not_change_a_pulled_frame(after, more);
            }
        },
        _ => {},
    }
}

/// `std::str::from_utf8`: whether `bytes` are UTF-8, and if they are not,
/// the text of the error.
#[verifier::external_body]
fn check_utf8(bytes: &[u8]) -> (checked: Result<(), String>)
    ensures
        checked is Ok <==> valid_utf8(bytes@),
        checked matches Err(m) ==> m@ == utf8_error_text(bytes@),
{
    match std::str::from_utf8(bytes) {
        Ok(_) => Ok(()),
        Err(error) => Err(error.to_string()),
    }
}

/// `String::from_utf8`, with the error dropped: the text UTF-8 bytes spell.
#[verifier::external_body]
fn utf8_string(bytes: Vec<u8>) -> (text: Option<String>)
    ensures
        text is Some <==> valid_utf8(bytes@),
        text matches Some(t) ==> t@ == decode_utf8(bytes@),
{
    String::from_utf8(bytes).ok()
}

/// The ASCII digit for `d`, as text.
fn digit_str(d: usize) -> (digit: &'static str)
    requires
        d < 10,
    ensures
        digit@ == seq![digit_char(d as nat)],
{
    proof {
        reveal_strlit("0");
        reveal_strlit("1");
        reveal_strlit("2");
        reveal_strlit("3");
        reveal_strlit("4");
        reveal_strlit("5");
        reveal_strlit("6");
        reveal_strlit("7");
        reveal_strlit("8");
        reveal_strlit("9");
    }
    if d == 0 { "0" } else if d == 1 { "1" } else if d == 2 { "2" } else if d == 3 { "3" }
    else if d == 4 { "4" } else if d == 5 { "5" } else if d == 6 { "6" } else if d == 7 { "7" }
    else if d == 8 { "8" } else { "9" }
}

/// `n` in decimal.
pub fn decimal(n: usize) -> (text: String)
    ensures
        text@ == decimal_text(n as nat),
    decreases n,
{
    if n < 10 {
        let d = digit_str(n);
        d.to_owned()
    } else {
        let head = decimal(n / 10);
        cat(head, digit_str(n % 10))
    }
}

/// The bytes before an ASCII byte of a UTF-8 sequence, and those after it,
/// are UTF-8 on their own.
proof fn lemma_split_at_ascii(bytes: Seq<u8>, c: int)
    requires
        valid_utf8(bytes),
        0 <= c < bytes.len(),
        bytes[c] <= 0x7f,
    ensures
        valid_utf8(bytes.subrange(0, c)),
        valid_utf8(bytes.subrange(c + 1, bytes.len() as int)),
{
    is_char_boundary_iff_is_leading_byte(bytes, c);
    assert(is_leading_byte_width_1(bytes[c]));
    valid_utf8_split(bytes, c);
    let tail = bytes.subrange(c, bytes.len() as int);
    assert(tail[0] == bytes[c]);
    assert(length_of_first_scalar(tail) == 1);
    assert(pop_first_scalar(tail) =~= bytes.subrange(c + 1, bytes.len() as int));
}

/// What follows a byte-order mark at the start of UTF-8 bytes is UTF-8.
proof fn lemma_after_bom(bytes: Seq<u8>)
    requires
        valid_utf8(bytes),
        starts_with_bom(bytes),
    ensures
        valid_utf8(bytes.subrange(3, bytes.len() as int)),
{
    assert(length_of_first_scalar(bytes) == 3);
}

/// A line break on its own is UTF-8.
proof fn lemma_newline_valid()
    ensures
        valid_utf8(seq![10u8]),
{
    let chars = seq!['\n'];
    assert(is_ascii_chars(chars));
    is_ascii_chars_encode_utf8(chars);
    encode_utf8_valid_utf8(chars);
    assert(encode_utf8(chars) =~= seq![10u8]);
}

/// The bytes of a UTF-8 string.
fn text_bytes(text: &str) -> (bytes: &[u8])
    ensures
        bytes@ == encode_utf8(text@),
{
    text.as_bytes()
}

/// Byte-wise equality.
fn same_bytes(a: &[u8], b: &[u8]) -> (same: bool)
    ensures
        same == (a@ == b@),
{
    if a.len() != b.len() {
        return false;
    }
    let mut i: usize = 0;
    while i < a.len()
        invariant
            a@.len() == b@.len(),
            i <= a@.len(),
            forall|j: int| 0 <= j < i ==> a@[j] == b@[j],
        decreases a@.len() - i,
    {
        if a[i] != b[i] {
            return false;
        }
        i = i + 1;
    }
    assert(a@ =~= b@);
    true
}

/// The position of the first line break, or the length.
fn find_break(buf: &Vec<u8>) -> (p: usize)
    ensures
        p == break_from(buf@, 0),
{
    let mut i: usize = 0;
    while i < buf.len()
        invariant
            i <= buf@.len(),
            break_from(buf@, 0) == break_from(buf@, i as int),
        decreases buf@.len() - i,
    {
        if buf[i] == 10 || buf[i] == 13 {
            return i;
        }
        i = i + 1;
    }
    i
}

/// The position of the first colon, or the length.
fn find_colon(line: &Vec<u8>) -> (c: usize)
    ensures
        c == colon_from(line@, 0),
{
    let mut i: usize = 0;
    while i < line.len()
        invariant
            i <= line@.len(),
            colon_from(line@, 0) == colon_from(line@, i as int),
        decreases line@.len() - i,
    {
        if line[i] == 58 {
            return i;
        }
        i = i + 1;
    }
    i
}

/// The number of a prefix is at most that of the whole.
proof fn lemma_decimal_prefix(digits: Seq<u8>, i: int)
    requires
        0 <= i <= digits.len(),
        all_digits(digits),
    ensures
        decimal_value(digits.take(i)) <= decimal_value(digits),
    decreases digits.len() - i,
{
    if i < digits.len() {
        lemma_decimal_prefix(digits, i + 1);
        let longer = digits.take(i + 1);
        assert(longer.drop_last() =~= digits.take(i));
        assert(longer.last() == digits[i]);
        assert(48 <= digits[i] <= 57);
    } else {
        assert(digits.take(i) =~= digits);
    }
}

/// `u64::from_str` on ASCII bytes: an optional `+` and decimal digits that
/// fit.
fn parse_retry(value: &Vec<u8>) -> (n: Option<u64>)
    ensures
        n == parse_u64(value@),
{
    let start: usize = if value.len() > 0 && value[0] == 43 { 1 } else { 0 };
    let ghost digits = if value@.len() > 0 && value@[0] == 43 {
        value@.subrange(1, value@.len() as int)
    } else {
        value@
    };
    assert(digits =~= value@.subrange(start as int, value@.len() as int));
    if start >= value.len() {
        assert(digits.len() == 0);
        return None;
    }
    let mut i: usize = start;
    while i < value.len()
        invariant
            start <= i <= value@.len(),
            digits =~= value@.subrange(start as int, value@.len() as int),
            digits == (if value@.len() > 0 && value@[0] == 43 {
                value@.subrange(1, value@.len() as int)
            } else {
                value@
            }),
            forall|j: int| 0 <= j < i - start ==> 48 <= #[trigger] digits[j] <= 57,
        decreases value@.len() - i,
    {
        if value[i] < 48 || value[i] > 57 {
            assert(!all_digits(digits)) by {
                assert(digits[i - start] == value@[i as int]);
            }
            return None;
        }
        i = i + 1;
    }
    assert(all_digits(digits));
    let mut total: u64 = 0;
    let mut k: usize = start;
    while k < value.len()
        invariant
            start <= k <= value@.len(),
            digits =~= value@.subrange(start as int, value@.len() as int),
            digits == (if value@.len() > 0 && value@[0] == 43 {
                value@.subrange(1, value@.len() as int)
            } else {
                value@
            }),
            digits.len() > 0,
            all_digits(digits),
            total == decimal_value(digits.take(k - start)),
        decreases value@.len() - k,
    {
        assert(digits[k - start] == value@[k as int]);
        let d = (value[k] - 48) as u64;
        proof {
            let next = digits.take(k - start + 1);
            assert(next.drop_last() =~= digits.take(k - start));
            assert(next.last() == value@[k as int]);
            assert(decimal_value(next) == total * 10 + d);
        }
        match total.checked_mul(10) {
            Some(t) => match t.checked_add(d) {
                Some(u) => {
                    total = u;
                },
                None => {
                    proof {
                        lemma_decimal_prefix(digits, k - start + 1);
                    }
                    return None;
                },
            },
            None => {
                proof {
                    lemma_decimal_prefix(digits, k - start + 1);
                }
                return None;
            },
        }
        k = k + 1;
    }
    assert(digits.take(digits.len() as int) =~= digits);
    Some(total)
}

/// One decoded `text/event-stream` frame.
#[derive(Clone, Debug, Default, PartialEq, Eq)]
pub struct SseFrame {
    /// The `event:` field, if the server sent one. AG-UI does not use it.
    pub event: Option<String>,
    /// The `data:` field, with the trailing newline removed and multiple
    /// `data:` lines rejoined with `\n`.
    pub data: String,
    /// The `id:` field, if the server sent one.
    pub id: Option<String>,
    /// The `retry:` field, in milliseconds, if the server sent one.
    pub retry: Option<u64>,
}

impl SseFrame {
    /// Whether this frame holds the text of `frame`.
    pub open spec fn shows(&self, frame: FrameView) -> bool {
        &&& opt_text(self.event) == frame.event
        &&& self.data@ == frame.data
        &&& opt_text(self.id) == frame.id
        &&& self.retry == frame.retry
    }
}

/// The bytes of an optional field.
pub open spec fn opt_bytes(v: Option<Vec<u8>>) -> Option<Seq<u8>> {
    match v {
        Some(b) => Some(b@),
        None => None,
    }
}

/// An incremental `text/event-stream` decoder: push bytes, pull frames.
#[derive(Clone, Debug)]
pub struct SseDecoder {
    buffer: Vec<u8>,
    data: Vec<u8>,
    event: Option<Vec<u8>>,
    id: Option<Vec<u8>>,
    retry: Option<u64>,
    max_frame_size: usize,
    at_start: bool,
}

impl View for SseDecoder {
    type V = SseView;

    closed spec fn view(&self) -> SseView {
        SseView {
            buffer: self.buffer@,
            data: self.data@,
            event: opt_bytes(self.event),
            id: opt_bytes(self.id),
            retry: self.retry,
            max_frame_size: self.max_frame_size,
            at_start: self.at_start,
        }
    }
}

/// The decoder before any byte.
pub open spec fn fresh_decoder() -> SseView {
    SseView {
        buffer: Seq::empty(),
        data: Seq::empty(),
        event: None,
        id: None,
        retry: None,
        max_frame_size: DEFAULT_MAX_FRAME_SIZE,
        at_start: true,
    }
}

impl Default for SseDecoder {
    fn default() -> (decoder: Self)
        ensures
            decoder@ == fresh_decoder(),
            decoder.wf(),
    {
        SseDecoder::new()
    }
}

impl SseDecoder {
    /// The decoder's invariant: what it has gathered of the frame is UTF-8,
    /// and the gathered data ends with the newline after its last line.
    pub closed spec fn wf(&self) -> bool {
        &&& valid_utf8(self.data@)
        &&& self.data@.len() > 0 ==> self.data@.last() == 10
        &&& self.event matches Some(e) ==> valid_utf8(e@)
        &&& self.id matches Some(i) ==> valid_utf8(i@)
    }

    /// A decoder with the default frame size cap.
    pub fn new() -> (decoder: Self)
        ensures
            decoder@ == fresh_decoder(),
            decoder.wf(),
    {
        SseDecoder {
            buffer: Vec::new(),
            data: Vec::new(),
            event: None,
            id: None,
            retry: None,
            max_frame_size: DEFAULT_MAX_FRAME_SIZE,
            at_start: true,
        }
    }

    /// Sets the cap on a single frame.
    pub fn with_max_frame_size(self, bytes: usize) -> (decoder: Self)
        requires
            self.wf(),
        ensures
            decoder@ == (SseView { max_frame_size: bytes, ..self@ }),
            decoder.wf(),
    {
        let mut decoder = self;
        decoder.max_frame_size = bytes;
        decoder
    }

    /// The cap on a single frame, in bytes.
    pub fn max_frame_size(&self) -> (bytes: usize)
        ensures
            bytes == self@.max_frame_size,
    {
        self.max_frame_size
    }

    /// Feeds the decoder a chunk of the response body.
    ///
    /// Refused, with nothing taken, when the buffered frame would exceed the
    /// cap: a server that never sends a line break would otherwise grow the
    /// buffer without bound.
    pub fn push(&mut self, bytes: &[u8]) -> (pushed: Result<(), Error>)
        requires
            old(self).wf(),
        ensures
            final(self).wf(),
            old(self)@.buffer.len() + old(self)@.data.len() + bytes@.len() > old(self)@.max_frame_size ==> {
                &&& pushed matches Err(Error::Decode(m))
                &&& m@ == too_large_text(old(self)@.max_frame_size)
                &&& final(self)@ == old(self)@
            },
            old(self)@.buffer.len() + old(self)@.data.len() + bytes@.len() <= old(self)@.max_frame_size ==> {
                &&& pushed is Ok
                &&& final(self)@ == (SseView { buffer: old(self)@.buffer + bytes@, ..old(self)@ })
            },
    {
        let size: u128 = self.buffer.len() as u128 + self.data.len() as u128 + bytes.len() as u128;
        if size > self.max_frame_size as u128 {
            let text = cat(cat("frame exceeded the ".to_owned(), decimal(self.max_frame_size).as_str()), " byte limit before a line break");
            return Err(Error::decode(text));
        }
        let ghost before = self.buffer@;
        let mut i: usize = 0;
        while i < bytes.len()
            invariant
                i <= bytes@.len(),
                self.buffer@ == before + bytes@.subrange(0, i as int),
                self@ == (SseView { buffer: self.buffer@, ..old(self)@ }),
                self.wf(),
            decreases bytes@.len() - i,
        {
            self.buffer.push(bytes[i]);
            assert(self.buffer@ =~= before + bytes@.subrange(0, i as int + 1));
            i = i + 1;
        }
        assert(bytes@.subrange(0, bytes@.len() as int) =~= bytes@);
        Ok(())
    }

    /// Takes the next line, minus its terminator, checked to be UTF-8 and
    /// with a leading byte-order mark removed.
    fn take_line(&mut self, eof: bool) -> (taken: Result<Option<Vec<u8>>, Error>)
        requires
            old(self).wf(),
        ensures
            final(self).wf(),
            final(self)@ == take_line(old(self)@, eof).0,
            match take_line(old(self)@, eof).1 {
                LineStep::Nothing => taken matches Ok(None),
                LineStep::Line(line) => taken matches Ok(Some(v)) && v@ == line && valid_utf8(line),
                LineStep::Invalid(raw) => taken matches Err(Error::Decode(m)) && m@ == not_utf8_text(raw),
            },
    {
        let p = find_break(&self.buffer);
        proof {
            lemma_break_from_bounds(self.buffer@, 0);
        }
        let mut line: Vec<u8>;
        if p >= self.buffer.len() {
            if !(eof && self.buffer.len() > 0) {
                return Ok(None);
            }
            line = self.buffer.split_off(0);
            assert(line@ =~= old(self)@.buffer);
            assert(self.buffer@ =~= Seq::<u8>::empty());
        } else {
            let is_cr = self.buffer[p] == 13;
            if is_cr && p + 1 == self.buffer.len() && !eof {
                return Ok(None);
            }
            let width: usize = if is_cr && p + 1 < self.buffer.len() && self.buffer[p + 1] == 10 { 2 } else { 1 };
            let rest = self.buffer.split_off(p + width);
            line = rest;
            std::mem::swap(&mut line, &mut self.buffer);
            line.truncate(p);
            assert(line@ =~= old(self)@.buffer.subrange(0, p as int));
        }
        match check_utf8(line.as_slice()) {
            Err(m) => {
                return Err(Error::decode(cat("stream is not UTF-8: ".to_owned(), m.as_str())));
            },
            Ok(()) => {},
        }
        if self.at_start {
            self.at_start = false;
            if line.len() >= 3 && line[0] == 0xef && line[1] == 0xbb && line[2] == 0xbf {
                proof {
                    lemma_after_bom(line@);
                }
                line = line.split_off(3);
            }
        }
        Ok(Some(line))
    }

    /// Emits the frame being built, if it has a payload.
    fn dispatch(&mut self) -> (frame: Option<SseFrame>)
        requires
            old(self).wf(),
        ensures
            final(self).wf(),
            final(self)@ == dispatch(old(self)@).0,
            match dispatch(old(self)@).1 {
                Some(f) => frame matches Some(fr) && fr.shows(f),
                None => frame is None,
            },
    {
        let mut event: Option<Vec<u8>> = None;
        std::mem::swap(&mut event, &mut self.event);
        let mut id: Option<Vec<u8>> = None;
        std::mem::swap(&mut id, &mut self.id);
        let retry = self.retry;
        self.retry = None;
        let mut data: Vec<u8> = Vec::new();
        std::mem::swap(&mut data, &mut self.data);
        assert(self.data@ =~= Seq::<u8>::empty());
        if data.len() == 0 {
            return None;
        }
        proof {
            lemma_split_at_ascii(data@, data@.len() - 1);
            assert(data@.subrange(0, data@.len() - 1) =~= data@.drop_last());
        }
        data.pop();
        let text = utf8_string(data).unwrap();
        let event_text = match event {
            Some(e) => Some(utf8_string(e).unwrap()),
            None => None,
        };
        let id_text = match id {
            Some(i) => Some(utf8_string(i).unwrap()),
            None => None,
        };
        Some(SseFrame { event: event_text, data: text, id: id_text, retry })
    }

    /// Applies one line to the frame being built, dispatching on a blank
    /// line.
    fn process(&mut self, line: Vec<u8>) -> (frame: Option<SseFrame>)
        requires
            old(self).wf(),
            valid_utf8(line@),
        ensures
            final(self).wf(),
            final(self)@ == process(old(self)@, line@).0,
            match process(old(self)@, line@).1 {
                Some(f) => frame matches Some(fr) && fr.shows(f),
                None => frame is None,
            },
    {
        if line.len() == 0 {
            return self.dispatch();
        }
        if line[0] == 58 {
            return None;
        }
        let ghost whole = line@;
        let c = find_colon(&line);
        proof {
            lemma_colon_from_bounds(whole, 0);
        }
        let mut field = line;
        let mut value: Vec<u8>;
        if c < field.len() {
            proof {
                lemma_split_at_ascii(whole, c as int);
            }
            let mut tail = field.split_off(c);
            value = tail.split_off(1);
            assert(value@ =~= whole.subrange(c + 1, whole.len() as int));
            if value.len() > 0 && value[0] == 32 {
                proof {
                    lemma_split_at_ascii(value@, 0);
                }
                value = value.split_off(1);
            }
        } else {
            value = Vec::new();
        }
        assert(field@ =~= field_of(whole));
        assert(value@ =~= value_of(whole));
        if same_bytes(field.as_slice(), text_bytes("data")) {
            let ghost before = self.data@;
            proof {
                lemma_newline_valid();
                valid_utf8_concat(before, value@);
                valid_utf8_concat(before + value@, seq![10u8]);
            }
            self.data.append(&mut value);
            self.data.push(10);
            assert(self.data@ =~= before + value_of(whole) + seq![10u8]);
        } else if same_bytes(field.as_slice(), text_bytes("event")) {
            self.event = Some(value);
        } else if same_bytes(field.as_slice(), text_bytes("id")) {
            self.id = Some(value);
        } else if same_bytes(field.as_slice(), text_bytes("retry")) {
            match parse_retry(&value) {
                Some(n) => {
                    self.retry = Some(n);
                },
                None => {},
            }
        }
        None
    }

    /// Pulls the next complete frame, if the bytes pushed so far hold one.
    /// A line that is not UTF-8 is an error.
    pub fn next_frame(&mut self) -> (pulled: Result<Option<SseFrame>, Error>)
        requires
            old(self).wf(),
        ensures
            final(self).wf(),
            final(self)@ == pull(old(self)@, false).0,
            match pull(old(self)@, false).1 {
                Pulled::Frame(f) => pulled matches Ok(Some(fr)) && fr.shows(f),
                Pulled::NoFrame => pulled matches Ok(None),
                Pulled::Invalid(raw) => pulled matches Err(Error::Decode(m)) && m@ == not_utf8_text(raw),
            },
    {
        loop
            invariant
                self.wf(),
                pull(self@, false) == pull(old(self)@, false),
            decreases self@.buffer.len(),
        {
            let ghost before = self@;
            proof {
                lemma_split_line_shrinks(before.buffer, false);
            }
            match self.take_line(false) {
                Err(e) => {
                    return Err(e);
                },
                Ok(None) => {
                    return Ok(None);
                },
                Ok(Some(line)) => {
                    match self.process(line) {
                        Some(frame) => {
                            return Ok(Some(frame));
                        },
                        None => {},
                    }
                },
            }
        }
    }

    /// Drains the decoder at the end of the stream: every remaining line is
    /// applied, and the frame still being built is dispatched rather than
    /// dropped.
    pub fn finish(&mut self) -> (frames: Result<Vec<SseFrame>, Error>)
        requires
            old(self).wf(),
        ensures
            final(self).wf(),
            final(self)@ == drain(old(self)@).0,
            match drain(old(self)@).1 {
                Ok(fs) => frames matches Ok(v) && v@.len() == fs.len()
                    && forall|i: int| 0 <= i < fs.len() ==> (#[trigger] v@[i]).shows(fs[i]),
                Err(raw) => frames matches Err(Error::Decode(m)) && m@ == not_utf8_text(raw),
            },
    {
        let mut frames: Vec<SseFrame> = Vec::new();
        let ghost mut got: Seq<FrameView> = Seq::empty();
        loop
            invariant
                self.wf(),
                frames@.len() == got.len(),
                forall|i: int| 0 <= i < got.len() ==> (#[trigger] frames@[i]).shows(got[i]),
                drain(old(self)@).0 == drain(self@).0,
                drain(old(self)@).1 == match drain(self@).1 {
                    Ok(fs) => Ok(got + fs),
                    Err(raw) => Err::<Seq<FrameView>, Seq<u8>>(raw),
                },
            ensures
                take_line(self@, true).1 is Nothing,
            decreases self@.buffer.len(),
        {
            let ghost before = self@;
            proof {
                lemma_split_line_shrinks(before.buffer, true);
            }
            match self.take_line(true) {
                Err(e) => {
                    return Err(e);
                },
                Ok(None) => {
                    break;
                },
                Ok(Some(line)) => {
                    let ghost mid = self@;
                    match self.process(line) {
                        Some(frame) => {
                            proof {
                                let f = process(mid, line@).1->Some_0;
                                assert(got.push(f) + drain(self@).1->Ok_0 =~= got + (seq![f] + drain(self@).1->Ok_0)) by {
                                    if drain(self@).1 is Ok {
                                        assert(got.push(f) + drain(self@).1->Ok_0 =~= got + (seq![f] + drain(self@).1->Ok_0));
                                    }
                                }
                                got = got.push(f);
                            }
                            frames.push(frame);
                        },
                        None => {},
                    }
                },
            }
        }
        let ghost last = self@;
        match self.dispatch() {
            Some(frame) => {
                proof {
                    got = got.push(dispatch(last).1->Some_0);
                }
                frames.push(frame);
            },
            None => {},
        }
        proof {
            assert(got =~= drain(old(self)@).1->Ok_0);
        }
        Ok(frames)
    }

    /// Pulls every frame the buffered bytes complete, stopping at the first
    /// line that is not UTF-8.
    fn pull_frames(&mut self) -> (out: (Vec<SseFrame>, Option<Error>))
        requires
            old(self).wf(),
        ensures
            final(self).wf(),
            final(self)@ == pull_all(old(self)@).0,
            out.0@.len() == pull_all(old(self)@).1.len(),
            forall|i: int| 0 <= i < out.0@.len() ==> (#[trigger] out.0@[i]).shows(pull_all(old(self)@).1[i]),
            match pull_all(old(self)@).2 {
                None => out.1 is None,
                Some(raw) => out.1 matches Some(Error::Decode(m)) && m@ == not_utf8_text(raw),
            },
    {
        let mut frames: Vec<SseFrame> = Vec::new();
        let ghost mut got: Seq<FrameView> = Seq::empty();
        loop
            invariant
                self.wf(),
                frames@.len() == got.len(),
                forall|i: int| 0 <= i < got.len() ==> (#[trigger] frames@[i]).shows(got[i]),
                pull_all(old(self)@).0 == pull_all(self@).0,
                pull_all(old(self)@).1 == got + pull_all(self@).1,
                pull_all(old(self)@).2 == pull_all(self@).2,
            decreases self@.buffer.len(),
        {
            let ghost before = self@;
            proof {
                lemma_pull_shrinks(before, false);
            }
            match self.next_frame() {
                Ok(Some(frame)) => {
                    proof {
                        let f = pull(before, false).1->Frame_0;
                        assert(got.push(f) + pull_all(self@).1 =~= got + (seq![f] + pull_all(self@).1));
                        got = got.push(f);
                    }
                    frames.push(frame);
                },
                Ok(None) => {
                    proof {
                        assert(got + pull_all(before).1 =~= got);
                    }
                    return (frames, None);
                },
                Err(e) => {
                    proof {
                        assert(got + pull_all(before).1 =~= got);
                    }
                    return (frames, Some(e));
                },
            }
        }
    }

    /// Takes what the body of a response delivered next: the frames it
    /// completes, in order, and the error that ends the stream, if one came.
    ///
    /// A chunk over the size cap, a failed connection and a line that is not
    /// UTF-8 end the stream; so does the end of the body, after the frames
    /// still buffered go out. A frame whose payload later fails to parse ends
    /// nothing here: that is the reader's concern.
    pub fn take(&mut self, delivery: Delivery) -> (out: Decoded)
        requires
            old(self).wf(),
        ensures
            final(self).wf(),
            match delivery {
                Delivery::Chunk(bytes) => {
                    let st = old(self)@;
                    if st.buffer.len() + st.data.len() + bytes@.len() > st.max_frame_size {
                        &&& final(self)@ == st
                        &&& out.frames@.len() == 0
                        &&& out.error matches Some(Error::Decode(m))
                        &&& m@ == too_large_text(st.max_frame_size)
                        &&& out.done
                    } else {
                        let (end, fs, bad) = pull_all(SseView { buffer: st.buffer + bytes@, ..st });
                        &&& final(self)@ == end
                        &&& out.frames@.len() == fs.len()
                        &&& forall|i: int| 0 <= i < fs.len() ==> (#[trigger] out.frames@[i]).shows(fs[i])
                        &&& match bad {
                            None => out.error is None && !out.done,
                            Some(raw) => out.error matches Some(Error::Decode(m))
                                && m@ == not_utf8_text(raw) && out.done,
                        }
                    }
                },
                Delivery::Failed(text) => {
                    &&& final(self)@ == old(self)@
                    &&& out.frames@.len() == 0
                    &&& out.error matches Some(Error::Transport(m))
                    &&& m@ == text@
                    &&& out.done
                },
                Delivery::Ended => {
                    &&& final(self)@ == drain(old(self)@).0
                    &&& out.done
                    &&& match drain(old(self)@).1 {
                        Ok(fs) => out.error is None && out.frames@.len() == fs.len()
                            && forall|i: int| 0 <= i < fs.len() ==> (#[trigger] out.frames@[i]).shows(fs[i]),
                        Err(raw) => out.error matches Some(Error::Decode(m))
                            && m@ == not_utf8_text(raw) && out.frames@.len() == 0,
                    }
                },
            },
    {
        match delivery {
            Delivery::Chunk(bytes) => {
                match self.push(bytes.as_slice()) {
                    Err(e) => Decoded { frames: Vec::new(), error: Some(e), done: true },
                    Ok(()) => {
                        let (frames, error) = self.pull_frames();
                        let done = error.is_some();
                        Decoded { frames, error, done }
                    },
                }
            },
            Delivery::Failed(text) => {
                Decoded { frames: Vec::new(), error: Some(Error::Transport(text)), done: true }
            },
            Delivery::Ended => {
                match self.finish() {
                    Ok(frames) => Decoded { frames, error: None, done: true },
                    Err(e) => Decoded { frames: Vec::new(), error: Some(e), done: true },
                }
            },
        }
    }
}

/// What the body of a response hands the decoder next.
pub enum Delivery {
    /// A chunk of bytes.
    Chunk(Vec<u8>),
    /// The connection failed; the transport's words.
    Failed(String),
    /// The body ended.
    Ended,
}

/// What one delivery yields.
pub struct Decoded {
    /// The frames it completed, in order.
    pub frames: Vec<SseFrame>,
    /// The error that ends the stream, if one came.
    pub error: Option<Error>,
    /// Whether the stream is over: nothing more is to be decoded.
    pub done: bool,
}

} // verus!
