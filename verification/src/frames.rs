//! The blocks a model endpoint's event stream is cut into, and the `data:`
//! payload each one carries.
//!
//! Endpoints end their frames with different blank lines (`\r\n\r\n` on one
//! vendor's native stream, `\n\n` on its OpenAI-compatible one), so a block
//! ends at the first blank line of any of the three kinds SSE allows.

use vstd::prelude::*;

use vstd::utf8::{decode_utf8, valid_utf8};

use crate::text::{trim, trimmed};

verus! {

/// The length of the blank line that starts at `i`: 4 for `\r\n\r\n`, 2 for
/// `\n\n` or `\r\r`, and 0 where none starts.
pub open spec fn blank_line_at(bytes: Seq<u8>, i: int) -> int {
    if 0 <= i && i + 4 <= bytes.len() && bytes[i] == 13 && bytes[i + 1] == 10 && bytes[i + 2] == 13
        && bytes[i + 3] == 10 {
        4
    } else if 0 <= i && i + 2 <= bytes.len() && ((bytes[i] == 10 && bytes[i + 1] == 10) || (
    bytes[i] == 13 && bytes[i + 1] == 13)) {
        2
    } else {
        0
    }
}

/// Whether the first blank line starts at `i`.
pub open spec fn is_first_blank_line(bytes: Seq<u8>, i: int) -> bool {
    &&& 0 <= i < bytes.len()
    &&& blank_line_at(bytes, i) > 0
    &&& forall|j: int| 0 <= j < i ==> blank_line_at(bytes, j) == 0
}

/// Where the first blank line starts, if there is one.
pub open spec fn first_blank_line(bytes: Seq<u8>) -> Option<int> {
    if exists|i: int| is_first_blank_line(bytes, i) {
        Some(choose|i: int| is_first_blank_line(bytes, i))
    } else {
        None
    }
}

/// The blank line that ends a block, where it is.
fn find_blank_line(buffer: &Vec<u8>) -> (found: Option<(usize, usize)>)
    ensures
        match found {
            Some((end, len)) => first_blank_line(buffer@) == Some(end as int) && len == blank_line_at(
                buffer@,
                end as int,
            ) && end + len <= buffer@.len(),
            None => first_blank_line(buffer@) is None,
        },
{
    let n = buffer.len();
    let mut i: usize = 0;
    while i < n
        invariant
            n == buffer@.len(),
            i <= n,
            forall|j: int| 0 <= j < i ==> blank_line_at(buffer@, j) == 0,
        decreases n - i,
    {
        let len: usize = if n - i >= 4 && buffer[i] == 13 && buffer[i + 1] == 10 && buffer[i + 2] == 13
            && buffer[i + 3] == 10 {
            4
        } else if n - i >= 2 && ((buffer[i] == 10 && buffer[i + 1] == 10) || (buffer[i] == 13
            && buffer[i + 1] == 13)) {
            2
        } else {
            0
        };
        if len > 0 {
            assert(is_first_blank_line(buffer@, i as int));
            let ghost c = choose|c: int| is_first_blank_line(buffer@, c);
            assert(c == i) by {
                if c < i {
                    assert(blank_line_at(buffer@, c) == 0);
                } else if c > i {
                    assert(blank_line_at(buffer@, i as int) > 0);
                }
            }
            return Some((i, len));
        }
        i = i + 1;
    }
    assert(!exists|c: int| is_first_blank_line(buffer@, c));
    None
}

/// Splits off the bytes up to the first blank line, if there is one: the
/// block is what came before the blank line, and the buffer keeps what came
/// after it.
pub fn take_block(buffer: &mut Vec<u8>) -> (block: Option<Vec<u8>>)
    ensures
        match first_blank_line(old(buffer)@) {
            Some(end) => block matches Some(b) && b@ == old(buffer)@.take(end) && final(buffer)@
                == old(buffer)@.skip(end + blank_line_at(old(buffer)@, end)),
            None => block is None && final(buffer)@ == old(buffer)@,
        },
{
    let found = find_blank_line(buffer);
    match found {
        None => None,
        Some((end, len)) => {
            let ghost before = buffer@;
            let total = buffer.len();
            assert(end + len <= total);
            let mut block = buffer.split_off(end + len);
            std::mem::swap(&mut block, buffer);
            block.truncate(end);
            assert(block@ =~= before.take(end as int));
            assert(buffer@ =~= before.skip(end + len));
            Some(block)
        },
    }
}

/// Bytes that arrive after a complete block do not change it: the same
/// block is split off, and what follows it is kept with them.
pub proof fn law_a_complete_block_ignores_later_bytes(bytes: Seq<u8>, more: Seq<u8>)
    requires
        first_blank_line(bytes) is Some,
    ensures
        first_blank_line(bytes + more) == first_blank_line(bytes),
        blank_line_at(bytes + more, first_blank_line(bytes)->Some_0) == blank_line_at(
            bytes,
            first_blank_line(bytes)->Some_0,
        ),
        (bytes + more).take(first_blank_line(bytes)->Some_0) == bytes.take(
            first_blank_line(bytes)->Some_0,
        ),
        (bytes + more).skip(
            first_blank_line(bytes)->Some_0 + blank_line_at(bytes, first_blank_line(bytes)->Some_0),
        ) == bytes.skip(first_blank_line(bytes)->Some_0 + blank_line_at(bytes, first_blank_line(bytes)->Some_0))
            + more,
{
    let all = bytes + more;
    let e = first_blank_line(bytes)->Some_0;
    assert(is_first_blank_line(bytes, e));
    assert(blank_line_at(all, e) == blank_line_at(bytes, e));
    assert forall|j: int| 0 <= j < e implies blank_line_at(all, j) == 0 by {
        lemma_no_blank_line_gained(bytes, more, j, e);
    }
    assert(is_first_blank_line(all, e));
    let c = choose|c: int| is_first_blank_line(all, c);
    assert(c == e) by {
        if c < e {
            assert(blank_line_at(all, c) == 0);
        } else if c > e {
            assert(blank_line_at(all, e) > 0);
        }
    }
    assert(all.take(e) =~= bytes.take(e));
    let k = e + blank_line_at(bytes, e);
    assert(all.skip(k) =~= bytes.skip(k) + more);
}

/// Before the first blank line of `bytes`, more bytes start no blank line.
proof fn lemma_no_blank_line_gained(bytes: Seq<u8>, more: Seq<u8>, j: int, e: int)
    requires
        0 <= j < e,
        is_first_blank_line(bytes, e),
    ensures
        blank_line_at(bytes + more, j) == 0,
{
    let all = bytes + more;
    assert(blank_line_at(bytes, j) == 0);
    assert(e + 2 <= bytes.len());
    assert(all[j] == bytes[j]);
    assert(all[j + 1] == bytes[j + 1]);
    assert(all[j + 2] == bytes[j + 2]);
    if j + 4 <= bytes.len() {
        assert(all[j + 3] == bytes[j + 3]);
    } else {
        assert(e == j + 1);
    }
}

/// `String::from_utf8_lossy`: `bytes` as text, with each sequence that is not
/// UTF-8 replaced by U+FFFD. A function of `bytes` alone.
pub uninterp spec fn lossy_decoded(bytes: Seq<u8>) -> Seq<char>;

/// `String::from_utf8_lossy`, owned. Bytes that are UTF-8 throughout come
/// back as the text they spell, nothing replaced.
#[verifier::external_body]
fn lossy_text(bytes: &[u8]) -> (text: String)
    ensures
        text@ == lossy_decoded(bytes@),
        valid_utf8(bytes@) ==> text@ == decode_utf8(bytes@),
{
    String::from_utf8_lossy(bytes).into_owned()
}

/// `s` split at every `\n`: the pieces between, one more than there are
/// line feeds.
pub open spec fn split_at_newlines(s: Seq<char>) -> Seq<Seq<char>>
    decreases s.len(),
{
    if s.len() == 0 {
        seq![Seq::empty()]
    } else {
        let before = split_at_newlines(s.drop_last());
        if s.last() == '\n' {
            before.push(Seq::empty())
        } else {
            before.update(before.len() - 1, before.last().push(s.last()))
        }
    }
}

/// There is always at least one piece.
proof fn lemma_split_len(s: Seq<char>)
    ensures
        split_at_newlines(s).len() >= 1,
    decreases s.len(),
{
    if s.len() > 0 {
        lemma_split_len(s.drop_last());
    }
}

/// A line that ended in `\r\n`, without its `\r`.
pub open spec fn without_cr(line: Seq<char>) -> Seq<char> {
    if line.len() > 0 && line.last() == '\r' {
        line.drop_last()
    } else {
        line
    }
}

/// The lines of `text` as `str::lines` gives them: split after each `\n`,
/// the `\n` dropped and a `\r` right before it too, with no empty line after
/// a final `\n`.
pub open spec fn text_lines(text: Seq<char>) -> Seq<Seq<char>> {
    let pieces = split_at_newlines(text);
    let ended = pieces.drop_last().map_values(|line: Seq<char>| without_cr(line));
    if pieces.last().len() == 0 {
        ended
    } else {
        ended.push(pieces.last())
    }
}

/// What a `data:` line carries: the rest of the line, without the one space
/// that may follow the colon.
pub open spec fn data_value(line: Seq<char>) -> Option<Seq<char>> {
    if line.len() >= 5 && line[0] == 'd' && line[1] == 'a' && line[2] == 't' && line[3] == 'a'
        && line[4] == ':' {
        let rest = line.skip(5);
        Some(
            if rest.len() > 0 && rest[0] == ' ' {
                rest.skip(1)
            } else {
                rest
            },
        )
    } else {
        None
    }
}

/// `data` with `value` joined on: after a line feed where `data` is not
/// empty.
pub open spec fn joined_on(data: Seq<char>, value: Seq<char>) -> Seq<char> {
    if data.len() == 0 {
        value
    } else {
        data + seq!['\n'] + value
    }
}

/// The values of the `data:` lines among `lines`, joined.
pub open spec fn joined_data(lines: Seq<Seq<char>>) -> Seq<char>
    decreases lines.len(),
{
    if lines.len() == 0 {
        Seq::empty()
    } else {
        let data = joined_data(lines.drop_last());
        match data_value(lines.last()) {
            Some(value) => joined_on(data, value),
            None => data,
        }
    }
}

/// What one block carries: its `data:` lines joined, unless that is only
/// white space.
pub open spec fn block_payload(block: Seq<u8>) -> Option<Seq<char>> {
    let data = joined_data(text_lines(lossy_decoded(block)));
    if trimmed(data).len() > 0 {
        Some(data)
    } else {
        None
    }
}

/// What a `data:` line carries, if it is one.
fn data_of(line: &str) -> (value: Option<&str>)
    ensures
        match data_value(line@) {
            Some(v) => value matches Some(x) && x@ == v,
            None => value is None,
        },
{
    let n = line.unicode_len();
    if n >= 5 && line.get_char(0) == 'd' && line.get_char(1) == 'a' && line.get_char(2) == 't'
        && line.get_char(3) == 'a' && line.get_char(4) == ':' {
        if n > 5 && line.get_char(5) == ' ' {
            let rest = line.substring_char(6, n);
            assert(rest@ =~= line@.skip(5).skip(1));
            Some(rest)
        } else {
            let rest = line.substring_char(5, n);
            assert(rest@ =~= line@.skip(5));
            Some(rest)
        }
    } else {
        None
    }
}

/// `data` with the value of `line` joined on, if `line` is a `data:` line.
fn add_line(data: String, line: &str) -> (joined: String)
    ensures
        joined@ == match data_value(line@) {
            Some(value) => joined_on(data@, value),
            None => data@,
        },
{
    match data_of(line) {
        None => data,
        Some(value) => {
            let mut data = data;
            if data.as_str().is_empty() {
                data.append(value);
                assert(data@ =~= value@);
            } else {
                data.append("\n");
                proof {
                    reveal_strlit("\n");
                }
                data.append(value);
            }
            data
        },
    }
}

/// The `data:` lines of one block, joined as SSE asks, or `None` where they
/// hold nothing but white space.
pub fn payload(block: &[u8]) -> (data: Option<String>)
    ensures
        match block_payload(block@) {
            Some(d) => data matches Some(x) && x@ == d,
            None => data is None,
        },
{
    let text = lossy_text(block);
    let n = text.as_str().unicode_len();
    let mut data = String::new();
    let mut start: usize = 0;
    let mut i: usize = 0;
    let ghost mut pieces: Seq<Seq<char>> = Seq::empty();
    assert(text@.take(0) =~= Seq::<char>::empty());
    while i < n
        invariant
            n == text@.len(),
            start <= i <= n,
            split_at_newlines(text@.take(i as int)) == pieces.push(text@.subrange(start as int, i as int)),
            data@ == joined_data(pieces.map_values(|line: Seq<char>| without_cr(line))),
        decreases n - i,
    {
        let c = text.as_str().get_char(i);
        let ghost upto = text@.take(i + 1);
        assert(upto.drop_last() =~= text@.take(i as int));
        assert(upto.last() == c);
        if c == '\n' {
            let piece = text.as_str().substring_char(start, i);
            let len = piece.unicode_len();
            let line = if len > 0 && piece.get_char(len - 1) == '\r' {
                piece.substring_char(0, len - 1)
            } else {
                piece
            };
            assert(line@ =~= without_cr(piece@));
            data = add_line(data, line);
            proof {
                let old_lines = pieces.map_values(|l: Seq<char>| without_cr(l));
                pieces = pieces.push(piece@);
                let new_lines = pieces.map_values(|l: Seq<char>| without_cr(l));
                assert(new_lines.drop_last() =~= old_lines);
                assert(text@.subrange(i + 1, i + 1) =~= Seq::<char>::empty());
            }
            start = i + 1;
        } else {
            proof {
                let before = pieces.push(text@.subrange(start as int, i as int));
                assert(text@.subrange(start as int, i as int).push(c) =~= text@.subrange(start as int, i + 1));
                assert(before.update(before.len() - 1, before.last().push(c)) =~= pieces.push(
                    text@.subrange(start as int, i + 1),
                ));
            }
        }
        i = i + 1;
    }
    let last = text.as_str().substring_char(start, n);
    proof {
        assert(text@.take(n as int) =~= text@);
        lemma_split_len(text@);
        let all = pieces.push(last@);
        assert(all.drop_last() =~= pieces);
    }
    if !last.is_empty() {
        data = add_line(data, last);
        proof {
            let lines = pieces.map_values(|l: Seq<char>| without_cr(l)).push(last@);
            assert(lines.drop_last() =~= pieces.map_values(|l: Seq<char>| without_cr(l)));
        }
    }
    if trim(data.as_str()).is_empty() {
        None
    } else {
        Some(data)
    }
}

/// A signature worth sending back: present, and not the empty string.
pub fn signature(value: Option<&str>) -> (kept: Option<&str>)
    ensures
        match value {
            Some(s) => if s@.len() > 0 {
                kept == Some(s)
            } else {
                kept is None
            },
            None => kept is None,
        },
{
    match value {
        Some(s) => if s.is_empty() {
            None
        } else {
            Some(s)
        },
        None => None,
    }
}

} // verus!
