//! A surface's data model and the `updateDataModel` upsert: a JSON value,
//! a JSON Pointer into it, and the rules by which a value is written there.

use vstd::prelude::*;

use crate::sse::{decimal, decimal_text};
use crate::text::{cat, debug_quoted, quoted, trim, trimmed};

verus! {

/// A JSON value, as contracts speak of it.
#[verifier::ext_equal]
pub enum Json {
    Null,
    Bool(bool),
    /// A number, by its JSON text.
    Number(Seq<char>),
    Text(Seq<char>),
    Array(Seq<Json>),
    /// The members of an object, in order.
    Object(Seq<(Seq<char>, Json)>),
}

/// A JSON value, as a surface's data model holds it.
///
/// Objects keep their members in a list; a model read from the wire never
/// has two members with one key.
#[derive(Debug, PartialEq)]
pub enum JsonTree {
    Null,
    Bool(bool),
    /// A number, by its JSON text.
    Number(String),
    Text(String),
    Array(Vec<JsonTree>),
    /// The members of an object, in order.
    Object(Vec<(String, JsonTree)>),
}

impl JsonTree {
    /// The value this tree holds.
    pub open spec fn model(self) -> Json
        decreases self,
    {
        match self {
            JsonTree::Null => Json::Null,
            JsonTree::Bool(b) => Json::Bool(b),
            JsonTree::Number(n) => Json::Number(n@),
            JsonTree::Text(t) => Json::Text(t@),
            JsonTree::Array(items) => Json::Array(
                Seq::new(
                    items@.len(),
                    |i: int|
                        if 0 <= i < items@.len() {
                            items@[i].model()
                        } else {
                            Json::Null
                        },
                ),
            ),
            JsonTree::Object(members) => Json::Object(
                Seq::new(
                    members@.len(),
                    |i: int|
                        if 0 <= i < members@.len() {
                            (members@[i].0@, members@[i].1.model())
                        } else {
                            (Seq::empty(), Json::Null)
                        },
                ),
            ),
        }
    }
}

impl View for JsonTree {
    type V = Json;

    open spec fn view(&self) -> Json {
        self.model()
    }
}

/// The values of a list of trees.
pub open spec fn items_model(items: Seq<JsonTree>) -> Seq<Json> {
    Seq::new(items.len(), |i: int| items[i].model())
}

/// The members of an object, by value.
pub open spec fn members_model(members: Seq<(String, JsonTree)>) -> Seq<(Seq<char>, Json)> {
    Seq::new(members.len(), |i: int| (members[i].0@, members[i].1.model()))
}

/// What an array tree holds is the values of its items.
pub proof fn lemma_array_model(items: Vec<JsonTree>)
    ensures
        JsonTree::Array(items)@ == Json::Array(items_model(items@)),
{
    assert(JsonTree::Array(items)@->Array_0 =~= items_model(items@));
}

/// What an object tree holds is its members by value.
pub proof fn lemma_object_model(members: Vec<(String, JsonTree)>)
    ensures
        JsonTree::Object(members)@ == Json::Object(members_model(members@)),
{
    assert(JsonTree::Object(members)@->Object_0 =~= members_model(members@));
}

impl JsonTree {
    /// A copy of this tree.
    pub fn duplicate(&self) -> (copy: JsonTree)
        ensures
            copy@ == self@,
        decreases self,
    {
        match self {
            JsonTree::Null => JsonTree::Null,
            JsonTree::Bool(b) => JsonTree::Bool(*b),
            JsonTree::Number(n) => JsonTree::Number(n.clone()),
            JsonTree::Text(t) => JsonTree::Text(t.clone()),
            JsonTree::Array(items) => {
                let mut copied: Vec<JsonTree> = Vec::new();
                let mut i: usize = 0;
                while i < items.len()
                    invariant
                        i <= items@.len(),
                        copied@.len() == i,
                        forall|j: int| 0 <= j < i ==> (#[trigger] copied@[j])@ == items@[j]@,
                        *self == JsonTree::Array(*items),
                    decreases items@.len() - i,
                {
                    assert(decreases_to!(*self => items@[i as int])) by {
                        assert(decreases_to!(*self => (*self)->Array_0));
                        assert(decreases_to!(*items => items@));
                        assert(decreases_to!(items@ => items@[i as int]));
                    }
                    let item = items[i].duplicate();
                    copied.push(item);
                    i = i + 1;
                }
                proof {
                    lemma_array_model(copied);
                    lemma_array_model(*items);
                    assert(items_model(copied@) =~= items_model(items@));
                }
                JsonTree::Array(copied)
            },
            JsonTree::Object(members) => {
                let mut copied: Vec<(String, JsonTree)> = Vec::new();
                let mut i: usize = 0;
                while i < members.len()
                    invariant
                        i <= members@.len(),
                        copied@.len() == i,
                        forall|j: int|
                            0 <= j < i ==> (#[trigger] copied@[j]).0@ == members@[j].0@
                                && copied@[j].1@ == members@[j].1@,
                        *self == JsonTree::Object(*members),
                    decreases members@.len() - i,
                {
                    assert(decreases_to!(*self => members@[i as int].1)) by {
                        assert(decreases_to!(*self => (*self)->Object_0));
                        assert(decreases_to!(*members => members@));
                        assert(decreases_to!(members@ => members@[i as int]));
                        assert(decreases_to!(members@[i as int] => members@[i as int].1));
                    }
                    let value = members[i].1.duplicate();
                    copied.push((members[i].0.clone(), value));
                    i = i + 1;
                }
                proof {
                    lemma_object_model(copied);
                    lemma_object_model(*members);
                    assert(members_model(copied@) =~= members_model(members@));
                }
                JsonTree::Object(copied)
            },
        }
    }
}

/// `s` split at every `/`: the pieces between the slashes, one more than
/// there are slashes.
pub open spec fn segments(s: Seq<char>) -> Seq<Seq<char>>
    decreases s.len(),
{
    if s.len() == 0 {
        seq![Seq::empty()]
    } else {
        let before = segments(s.drop_last());
        if s.last() == '/' {
            before.push(Seq::empty())
        } else {
            before.update(before.len() - 1, before.last().push(s.last()))
        }
    }
}

/// There is always at least one piece.
pub proof fn lemma_segments_len(s: Seq<char>)
    ensures
        segments(s).len() >= 1,
    decreases s.len(),
{
    if s.len() > 0 {
        lemma_segments_len(s.drop_last());
    }
}

/// A reference token with its escapes undone: `~1` is `/` and `~0` is `~`.
pub open spec fn unescaped(token: Seq<char>) -> Seq<char>
    decreases token.len(),
{
    if token.len() == 0 {
        Seq::empty()
    } else if token.len() >= 2 && token[0] == '~' && token[1] == '1' {
        seq!['/'] + unescaped(token.skip(2))
    } else if token.len() >= 2 && token[0] == '~' && token[1] == '0' {
        seq!['~'] + unescaped(token.skip(2))
    } else {
        seq![token[0]] + unescaped(token.skip(1))
    }
}

/// A reference token with `~` written `~0` and `/` written `~1`, as a JSON
/// Pointer must carry it.
pub open spec fn escaped(token: Seq<char>) -> Seq<char>
    decreases token.len(),
{
    if token.len() == 0 {
        Seq::empty()
    } else {
        let head = if token[0] == '~' {
            seq!['~', '0']
        } else if token[0] == '/' {
            seq!['~', '1']
        } else {
            seq![token[0]]
        };
        head + escaped(token.skip(1))
    }
}

/// Unescaping undoes escaping: any key, escaped into a pointer, is read
/// back as itself.
pub proof fn law_unescaping_undoes_escaping(token: Seq<char>)
    ensures
        unescaped(escaped(token)) == token,
    decreases token.len(),
{
    if token.len() > 0 {
        law_unescaping_undoes_escaping(token.skip(1));
        let e = escaped(token);
        let rest = escaped(token.skip(1));
        if token[0] == '~' || token[0] == '/' {
            assert(e.skip(2) =~= rest);
            assert(e[0] == '~');
        } else {
            assert(e.skip(1) =~= rest);
            assert(e[0] == token[0]);
        }
        assert(unescaped(e) =~= token);
    }
}

/// Pieces joined with `/` between them.
pub open spec fn slash_joined(pieces: Seq<Seq<char>>) -> Seq<char>
    decreases pieces.len(),
{
    if pieces.len() == 0 {
        Seq::empty()
    } else if pieces.len() == 1 {
        pieces[0]
    } else {
        slash_joined(pieces.drop_last()) + seq!['/'] + pieces.last()
    }
}

/// Splitting at every `/` loses nothing and keeps no slash: no piece holds
/// a `/`, and joining the pieces with `/` gives the text back.
pub proof fn law_segments_rejoin(s: Seq<char>)
    ensures
        forall|k: int, i: int| 0 <= k < segments(s).len() && 0 <= i < segments(s)[k].len() ==> #[trigger] segments(s)[k][i] != '/',
        slash_joined(segments(s)) == s,
    decreases s.len(),
{
    if s.len() > 0 {
        let front = s.drop_last();
        law_segments_rejoin(front);
        lemma_segments_len(front);
        let before = segments(front);
        let n = before.len();
        let segs = segments(s);
        if s.last() == '/' {
            assert(segs == before.push(Seq::empty()));
            assert(segs.drop_last() =~= before);
            assert(slash_joined(segs) =~= s);
        } else {
            let grown = before.last().push(s.last());
            assert(segs == before.update(n - 1, grown));
            assert forall|k: int, i: int| 0 <= k < segs.len() && 0 <= i < segs[k].len() implies #[trigger] segs[k][i] != '/' by {
                if k == n - 1 {
                    if i < before.last().len() {
                        assert(segs[k][i] == before[n - 1][i]);
                    }
                } else {
                    assert(segs[k] == before[k]);
                }
            }
            if n == 1 {
                assert(slash_joined(segs) == grown);
                assert(slash_joined(before) == before[0]);
                assert(s =~= front.push(s.last()));
            } else {
                assert(segs.drop_last() =~= before.drop_last());
                assert(slash_joined(segs) == slash_joined(before.drop_last()) + seq!['/'] + grown);
                assert(slash_joined(before) == slash_joined(before.drop_last()) + seq!['/'] + before.last());
                assert(s =~= front.push(s.last()));
                assert(front == slash_joined(before));
                assert(slash_joined(before.drop_last()) + seq!['/'] + grown =~= (slash_joined(before.drop_last())
                    + seq!['/'] + before.last()).push(s.last()));
                assert(slash_joined(segs) =~= s);
            }
        }
    }
}

/// The reference tokens of a JSON Pointer that starts with `/` (RFC 6901):
/// the pieces after the first slash, each unescaped.
pub open spec fn pointer_tokens(pointer: Seq<char>) -> Seq<Seq<char>> {
    segments(pointer.skip(1)).map_values(|piece: Seq<char>| unescaped(piece))
}

/// One reference token, unescaped.
pub fn unescape(token: &str) -> (text: String)
    ensures
        text@ == unescaped(token@),
{
    let n = token.unicode_len();
    let mut text = String::new();
    let mut i: usize = 0;
    assert(token@.skip(0) =~= token@);
    while i < n
        invariant
            n == token@.len(),
            i <= n,
            unescaped(token@) == text@ + unescaped(token@.skip(i as int)),
        decreases n - i,
    {
        let rest = Ghost(token@.skip(i as int));
        let ghost before = text@;
        let c = token.get_char(i);
        if c == '~' && i + 1 < n && token.get_char(i + 1) == '1' {
            assert(rest@.skip(2) =~= token@.skip(i + 2));
            text.append("/");
            proof {
                reveal_strlit("/");
            }
            assert(before + (seq!['/'] + unescaped(rest@.skip(2))) =~= text@ + unescaped(rest@.skip(2)));
            i = i + 2;
        } else if c == '~' && i + 1 < n && token.get_char(i + 1) == '0' {
            assert(rest@.skip(2) =~= token@.skip(i + 2));
            text.append("~");
            proof {
                reveal_strlit("~");
            }
            assert(before + (seq!['~'] + unescaped(rest@.skip(2))) =~= text@ + unescaped(rest@.skip(2)));
            i = i + 2;
        } else {
            assert(rest@.skip(1) =~= token@.skip(i + 1));
            let piece = token.substring_char(i, i + 1);
            assert(piece@ =~= seq![c]);
            text.append(piece);
            assert(before + (seq![c] + unescaped(rest@.skip(1))) =~= text@ + unescaped(rest@.skip(1)));
            i = i + 1;
        }
    }
    assert(token@.skip(n as int) =~= Seq::<char>::empty());
    assert(text@ + Seq::<char>::empty() =~= text@);
    text
}

/// The reference tokens of `pointer`, which starts with `/`.
pub fn tokens_of(pointer: &str) -> (tokens: Vec<String>)
    requires
        pointer@.len() > 0,
        pointer@[0] == '/',
    ensures
        tokens@.len() == pointer_tokens(pointer@).len(),
        forall|i: int| 0 <= i < tokens@.len() ==> (#[trigger] tokens@[i])@ == pointer_tokens(pointer@)[i],
{
    let n = pointer.unicode_len();
    let mut tokens: Vec<String> = Vec::new();
    let ghost mut pieces: Seq<Seq<char>> = Seq::empty();
    let mut start: usize = 1;
    let mut i: usize = 1;
    assert(pointer@.subrange(1, 1) =~= Seq::<char>::empty());
    assert(pointer@.subrange(1, 1).len() == 0);
    while i < n
        invariant
            n == pointer@.len(),
            1 <= start <= i <= n,
            segments(pointer@.subrange(1, i as int)) == pieces.push(pointer@.subrange(start as int, i as int)),
            tokens@.len() == pieces.len(),
            forall|j: int| 0 <= j < pieces.len() ==> (#[trigger] tokens@[j])@ == unescaped(pieces[j]),
        decreases n - i,
    {
        let c = pointer.get_char(i);
        let ghost upto = pointer@.subrange(1, i + 1);
        assert(upto.drop_last() =~= pointer@.subrange(1, i as int));
        assert(upto.last() == c);
        if c == '/' {
            let piece = pointer.substring_char(start, i);
            let token = unescape(piece);
            tokens.push(token);
            proof {
                pieces = pieces.push(pointer@.subrange(start as int, i as int));
                assert(pointer@.subrange(i + 1, i + 1) =~= Seq::<char>::empty());
            }
            start = i + 1;
        } else {
            proof {
                let before = pieces.push(pointer@.subrange(start as int, i as int));
                assert(pointer@.subrange(start as int, i as int).push(c) =~= pointer@.subrange(start as int, i + 1));
                assert(before.update(before.len() - 1, before.last().push(c)) =~= pieces.push(
                    pointer@.subrange(start as int, i + 1),
                ));
            }
        }
        i = i + 1;
    }
    let piece = pointer.substring_char(start, n);
    let token = unescape(piece);
    tokens.push(token);
    proof {
        assert(pointer@.subrange(1, n as int) =~= pointer@.skip(1));
        let whole = pieces.push(pointer@.subrange(start as int, n as int));
        assert forall|i: int| 0 <= i < tokens@.len() implies (#[trigger] tokens@[i])@ == pointer_tokens(pointer@)[i] by {
            assert(pointer_tokens(pointer@) == whole.map_values(|piece: Seq<char>| unescaped(piece)));
        }
    }
    tokens
}

/// Whether `c` is an ASCII decimal digit.
pub open spec fn is_digit(c: char) -> bool {
    '0' <= c && c <= '9'
}

/// The number a string of decimal digits spells.
pub open spec fn digits_value(digits: Seq<char>) -> nat
    decreases digits.len(),
{
    if digits.len() == 0 {
        0
    } else {
        digits_value(digits.drop_last()) * 10 + ((digits.last() as int) - 48) as nat
    }
}

/// `token` without the one `+` it may start with.
pub open spec fn unsigned(token: Seq<char>) -> Seq<char> {
    if token.len() > 0 && token[0] == '+' {
        token.skip(1)
    } else {
        token
    }
}

/// Whether every character is a decimal digit.
pub open spec fn all_digits(s: Seq<char>) -> bool {
    forall|i: int| 0 <= i < s.len() ==> is_digit(#[trigger] s[i])
}

/// What `usize::from_str` makes of `token`: an optional `+` and at least one
/// decimal digit, with nothing else, whose number fits in a `usize`.
pub open spec fn index_value(token: Seq<char>) -> Option<usize> {
    let digits = unsigned(token);
    if digits.len() > 0 && all_digits(digits) && digits_value(digits) <= usize::MAX {
        Some(digits_value(digits) as usize)
    } else {
        None
    }
}

/// The number of a prefix of digits is at most that of the whole.
proof fn lemma_digits_prefix(digits: Seq<char>, i: int)
    requires
        0 <= i <= digits.len(),
        all_digits(digits),
    ensures
        digits_value(digits.take(i)) <= digits_value(digits),
    decreases digits.len() - i,
{
    if i < digits.len() {
        lemma_digits_prefix(digits, i + 1);
        let longer = digits.take(i + 1);
        assert(longer.drop_last() =~= digits.take(i));
        assert(longer.last() == digits[i]);
        assert(is_digit(digits[i]));
    } else {
        assert(digits.take(i) =~= digits);
    }
}

/// `token` read as an array index, as `usize::from_str` reads it.
pub fn parse_index(token: &str) -> (index: Option<usize>)
    ensures
        index == index_value(token@),
{
    let n = token.unicode_len();
    let start: usize = if n > 0 && token.get_char(0) == '+' { 1 } else { 0 };
    let ghost digits = unsigned(token@);
    assert(digits =~= token@.subrange(start as int, n as int));
    if start >= n {
        return None;
    }
    let mut value: usize = 0;
    let mut k: usize = start;
    assert(digits.take(0) =~= Seq::<char>::empty());
    while k < n
        invariant
            n == token@.len(),
            start <= k <= n,
            digits == token@.subrange(start as int, n as int),
            digits == unsigned(token@),
            forall|j: int| 0 <= j < k - start ==> is_digit(#[trigger] digits[j]),
            value == digits_value(digits.take(k - start)),
        decreases n - k,
    {
        let c = token.get_char(k);
        if !('0' <= c && c <= '9') {
            assert(!is_digit(digits[k - start]));
            return None;
        }
        let d = (c as u32 - 48) as usize;
        let ghost next = digits.take(k - start + 1);
        assert(next.drop_last() =~= digits.take(k - start));
        assert(next.last() == c);
        match value.checked_mul(10) {
            None => {
                proof {
                    if all_digits(digits) {
                        lemma_digits_prefix(digits, k - start + 1);
                    }
                }
                return None;
            },
            Some(tens) => match tens.checked_add(d) {
                None => {
                    proof {
                        if all_digits(digits) {
                            lemma_digits_prefix(digits, k - start + 1);
                        }
                    }
                    return None;
                },
                Some(v) => {
                    value = v;
                },
            },
        }
        k = k + 1;
    }
    assert(digits.take(n - start) =~= digits);
    Some(value)
}

/// Whether `i` is where the first member named `key` stands.
pub open spec fn is_first_key(members: Seq<(Seq<char>, Json)>, key: Seq<char>, i: int) -> bool {
    &&& 0 <= i < members.len()
    &&& members[i].0 == key
    &&& forall|j: int| 0 <= j < i ==> members[j].0 != key
}

/// Where the first member named `key` stands, if there is one.
pub open spec fn key_position(members: Seq<(Seq<char>, Json)>, key: Seq<char>) -> Option<int> {
    if exists|i: int| is_first_key(members, key, i) {
        Some(choose|i: int| is_first_key(members, key, i))
    } else {
        None
    }
}

/// `members` with `key` set to `value`: in place where the key is present,
/// added at the end where it is not.
pub open spec fn with_member(members: Seq<(Seq<char>, Json)>, key: Seq<char>, value: Json) -> Seq<(Seq<char>, Json)> {
    match key_position(members, key) {
        Some(i) => members.update(i, (key, value)),
        None => members.push((key, value)),
    }
}

/// `members` without the member named `key`.
pub open spec fn without_member(members: Seq<(Seq<char>, Json)>, key: Seq<char>) -> Seq<(Seq<char>, Json)> {
    match key_position(members, key) {
        Some(i) => members.remove(i),
        None => members,
    }
}

/// Why a pointer that meets a number, a string or a boolean before its end
/// cannot be followed.
pub open spec fn scalar_reason() -> Seq<char> {
    "path walks through a scalar value"@
}

/// Why a token that names no index cannot select from an array.
pub open spec fn not_index_reason(token: Seq<char>) -> Seq<char> {
    "expected an array index, found segment "@ + debug_quoted(token)
}

/// Why an index past the end of an array cannot be written.
pub open spec fn out_of_bounds_reason(index: nat, len: nat) -> Seq<char> {
    "array index "@ + decimal_text(index) + " is out of bounds (len "@ + decimal_text(len) + ")"@
}

/// Why a path that does not start with `/` is refused.
pub open spec fn relative_reason() -> Seq<char> {
    "updateDataModel path must be an absolute JSON Pointer starting with '/'"@
}

/// `value` written under the last token, into `cursor`: an object gains,
/// replaces or (for `null`) loses the member; an array has the slot replaced
/// or, one past its end, a slot added; `null` becomes an object.
pub open spec fn placed(cursor: Json, last: Seq<char>, value: Json) -> Result<Json, Seq<char>> {
    match cursor {
        Json::Object(members) => Ok(Json::Object(
            if value is Null {
                without_member(members, last)
            } else {
                with_member(members, last, value)
            },
        )),
        Json::Array(items) => match index_value(last) {
            None => Err(not_index_reason(last)),
            Some(index) => if index < items.len() {
                Ok(Json::Array(items.update(index as int, value)))
            } else if index == items.len() {
                Ok(Json::Array(items.push(value)))
            } else {
                Err(out_of_bounds_reason(index as nat, items.len()))
            },
        },
        Json::Null => Ok(Json::Object(
            if value is Null {
                Seq::empty()
            } else {
                seq![(last, value)]
            },
        )),
        _ => Err(scalar_reason()),
    }
}

/// `value` written at `tokens` below `cursor`, creating what is missing on
/// the way: `null` becomes an object, an absent member is added, and an
/// index one past the end of an array adds a slot.
pub open spec fn written(cursor: Json, tokens: Seq<Seq<char>>, value: Json) -> Result<Json, Seq<char>>
    decreases tokens.len(),
{
    if tokens.len() <= 1 {
        placed(cursor, tokens[0], value)
    } else {
        let token = tokens[0];
        let rest = tokens.skip(1);
        let cursor = if cursor is Null {
            Json::Object(Seq::empty())
        } else {
            cursor
        };
        match cursor {
            Json::Object(members) => match key_position(members, token) {
                Some(i) => match written(members[i].1, rest, value) {
                    Ok(child) => Ok(Json::Object(members.update(i, (token, child)))),
                    Err(reason) => Err(reason),
                },
                None => match written(Json::Null, rest, value) {
                    Ok(child) => Ok(Json::Object(members.push((token, child)))),
                    Err(reason) => Err(reason),
                },
            },
            Json::Array(items) => match index_value(token) {
                None => Err(not_index_reason(token)),
                Some(index) => if index < items.len() {
                    match written(items[index as int], rest, value) {
                        Ok(child) => Ok(Json::Array(items.update(index as int, child))),
                        Err(reason) => Err(reason),
                    }
                } else if index == items.len() {
                    match written(Json::Null, rest, value) {
                        Ok(child) => Ok(Json::Array(items.push(child))),
                        Err(reason) => Err(reason),
                    }
                } else {
                    Err(out_of_bounds_reason(index as nat, items.len()))
                },
            },
            _ => Err(scalar_reason()),
        }
    }
}

/// What an `updateDataModel` with `path` and `value` makes of `model`, or
/// why it cannot: `/` (or nothing) replaces the whole model, and any other
/// path must be a JSON Pointer.
pub open spec fn data_model_updated(model: Json, path: Seq<char>, value: Json) -> Result<Json, Seq<char>> {
    let path = trimmed(path);
    if path.len() == 0 || path == seq!['/'] {
        Ok(value)
    } else if path[0] != '/' {
        Err(relative_reason())
    } else {
        written(model, pointer_tokens(path), value)
    }
}

/// A path that could not be followed into a data model, and why.
#[derive(Debug, Clone, PartialEq, Eq)]
pub struct PointerError {
    /// The path, trimmed.
    pub path: String,
    /// What stopped it.
    pub reason: String,
}

/// The text of each token.
pub open spec fn token_texts(tokens: Seq<String>) -> Seq<Seq<char>> {
    tokens.map_values(|token: String| token@)
}

/// Where the first member named `key` stands.
pub(crate) fn find_member(members: &Vec<(String, JsonTree)>, key: &String) -> (found: Option<usize>)
    ensures
        match found {
            Some(i) => key_position(members_model(members@), key@) == Some(i as int),
            None => key_position(members_model(members@), key@) is None,
        },
{
    let ghost model = members_model(members@);
    let mut i: usize = 0;
    while i < members.len()
        invariant
            i <= members@.len(),
            model == members_model(members@),
            forall|j: int| 0 <= j < i ==> model[j].0 != key@,
        decreases members@.len() - i,
    {
        if members[i].0 == *key {
            assert(is_first_key(model, key@, i as int));
            let ghost c = choose|c: int| is_first_key(model, key@, c);
            assert(c == i) by {
                if c < i {
                    assert(model[c].0 != key@);
                } else if c > i {
                    assert(model[i as int].0 == key@);
                }
            }
            return Some(i);
        }
        i = i + 1;
    }
    assert(!exists|c: int| is_first_key(model, key@, c));
    None
}

/// Why an index cannot select from an array of `len` items.
fn out_of_bounds(index: usize, len: usize) -> (reason: String)
    ensures
        reason@ == out_of_bounds_reason(index as nat, len as nat),
{
    let reason = cat("array index ".to_owned(), decimal(index).as_str());
    let reason = cat(reason, " is out of bounds (len ");
    let reason = cat(reason, decimal(len).as_str());
    cat(reason, ")")
}

/// Why `token` cannot select from an array.
fn not_index(token: &str) -> (reason: String)
    ensures
        reason@ == not_index_reason(token@),
{
    cat("expected an array index, found segment ".to_owned(), quoted(token).as_str())
}

/// `value` written under `last` into `cursor`; on failure, `cursor` back
/// as it was, with the reason.
fn place(cursor: JsonTree, last: &String, value: &JsonTree) -> (outcome: Result<JsonTree, (JsonTree, String)>)
    ensures
        match placed(cursor@, last@, value@) {
            Ok(after) => outcome matches Ok(tree) && tree@ == after,
            Err(reason) => outcome matches Err((back, why)) && back@ == cursor@ && why@ == reason,
        },
{
    match cursor {
        JsonTree::Object(members) => {
            let mut members = members;
            proof {
                lemma_object_model(members);
            }
            let ghost before = members_model(members@);
            let found = find_member(&members, last);
            if value.is_null() {
                if let Some(i) = found {
                    let _removed = members.remove(i);
                    assert(members_model(members@) =~= before.remove(i as int));
                }
            } else {
                match found {
                    Some(i) => {
                        let _replaced = members.remove(i);
                        members.insert(i, (last.clone(), value.duplicate()));
                        assert(members_model(members@) =~= before.update(i as int, (last@, value@)));
                    },
                    None => {
                        members.push((last.clone(), value.duplicate()));
                        assert(members_model(members@) =~= before.push((last@, value@)));
                    },
                }
            }
            proof {
                lemma_object_model(members);
                assert(cursor@ == Json::Object(before));
                if value@ is Null {
                    assert(members_model(members@) == without_member(before, last@));
                } else {
                    assert(members_model(members@) == with_member(before, last@, value@));
                }
            }
            Ok(JsonTree::Object(members))
        },
        JsonTree::Array(items) => {
            let mut items = items;
            proof {
                lemma_array_model(items);
            }
            let ghost before = items_model(items@);
            match parse_index(last.as_str()) {
                None => Err((JsonTree::Array(items), not_index(last.as_str()))),
                Some(index) => {
                    let len = items.len();
                    if index < len {
                        let _replaced = items.remove(index);
                        items.insert(index, value.duplicate());
                        assert(items_model(items@) =~= before.update(index as int, value@));
                        proof {
                            lemma_array_model(items);
                        }
                        Ok(JsonTree::Array(items))
                    } else if index == len {
                        items.push(value.duplicate());
                        assert(items_model(items@) =~= before.push(value@));
                        proof {
                            lemma_array_model(items);
                        }
                        Ok(JsonTree::Array(items))
                    } else {
                        Err((JsonTree::Array(items), out_of_bounds(index, len)))
                    }
                },
            }
        },
        JsonTree::Null => {
            let mut members: Vec<(String, JsonTree)> = Vec::new();
            if !value.is_null() {
                members.push((last.clone(), value.duplicate()));
            }
            proof {
                lemma_object_model(members);
                if value@ is Null {
                    assert(members_model(members@) =~= Seq::<(Seq<char>, Json)>::empty());
                } else {
                    assert(members_model(members@) =~= seq![(last@, value@)]);
                }
            }
            Ok(JsonTree::Object(members))
        },
        other => Err((other, "path walks through a scalar value".to_owned())),
    }
}

impl Clone for JsonTree {
    fn clone(&self) -> (copy: Self)
        ensures
            copy@ == self@,
    {
        self.duplicate()
    }
}

impl JsonTree {
    /// Whether this is `null`.
    pub fn is_null(&self) -> (null: bool)
        ensures
            null == (self@ is Null),
    {
        match self {
            JsonTree::Null => true,
            _ => false,
        }
    }
}

/// `value` written at `tokens[k..]` below `cursor`; on failure, `cursor`
/// back as it was, with the reason.
fn write(cursor: JsonTree, tokens: &Vec<String>, k: usize, value: &JsonTree) -> (outcome: Result<JsonTree, (JsonTree, String)>)
    requires
        k < tokens@.len(),
    ensures
        match written(cursor@, token_texts(tokens@).skip(k as int), value@) {
            Ok(after) => outcome matches Ok(tree) && tree@ == after,
            Err(reason) => outcome matches Err((back, why)) && back@ == cursor@ && why@ == reason,
        },
    decreases tokens@.len() - k,
{
    let ghost path = token_texts(tokens@).skip(k as int);
    assert(path[0] == tokens@[k as int]@);
    if k == tokens.len() - 1 {
        return place(cursor, &tokens[k], value);
    }
    let token = &tokens[k];
    assert(path.skip(1) =~= token_texts(tokens@).skip(k + 1));
    match cursor {
        JsonTree::Null => {
            match write(JsonTree::Null, tokens, k + 1, value) {
                Ok(child) => {
                    let mut members: Vec<(String, JsonTree)> = Vec::new();
                    members.push((token.clone(), child));
                    proof {
                        lemma_object_model(members);
                        assert(members_model(members@) =~= Seq::<(Seq<char>, Json)>::empty().push((token@, child@)));
                        assert(key_position(Seq::<(Seq<char>, Json)>::empty(), token@) is None);
                    }
                    Ok(JsonTree::Object(members))
                },
                Err((_, why)) => {
                    assert(key_position(Seq::<(Seq<char>, Json)>::empty(), token@) is None);
                    Err((JsonTree::Null, why))
                },
            }
        },
        JsonTree::Object(members) => {
            let mut members = members;
            proof {
                lemma_object_model(members);
            }
            let ghost before = members_model(members@);
            match find_member(&members, token) {
                Some(i) => {
                    let (key, child) = members.remove(i);
                    assert(before[i as int].1 == child@);
                    assert(key@ == token@);
                    match write(child, tokens, k + 1, value) {
                        Ok(updated) => {
                            let ghost updated_model = updated@;
                            members.insert(i, (key, updated));
                            assert(members_model(members@) =~= before.update(i as int, (token@, updated_model)));
                            proof {
                                lemma_object_model(members);
                            }
                            Ok(JsonTree::Object(members))
                        },
                        Err((back, why)) => {
                            members.insert(i, (key, back));
                            assert(members_model(members@) =~= before);
                            proof {
                                lemma_object_model(members);
                            }
                            Err((JsonTree::Object(members), why))
                        },
                    }
                },
                None => {
                    match write(JsonTree::Null, tokens, k + 1, value) {
                        Ok(child) => {
                            let ghost child_model = child@;
                            members.push((token.clone(), child));
                            assert(members_model(members@) =~= before.push((token@, child_model)));
                            proof {
                                lemma_object_model(members);
                            }
                            Ok(JsonTree::Object(members))
                        },
                        Err((_, why)) => {
                            proof {
                                lemma_object_model(members);
                            }
                            Err((JsonTree::Object(members), why))
                        },
                    }
                },
            }
        },
        JsonTree::Array(items) => {
            let mut items = items;
            proof {
                lemma_array_model(items);
            }
            let ghost before = items_model(items@);
            match parse_index(token.as_str()) {
                None => Err((JsonTree::Array(items), not_index(token.as_str()))),
                Some(index) => {
                    let len = items.len();
                    if index < len {
                        let child = items.remove(index);
                        assert(before[index as int] == child@);
                        match write(child, tokens, k + 1, value) {
                            Ok(updated) => {
                                let ghost updated_model = updated@;
                                items.insert(index, updated);
                                assert(items_model(items@) =~= before.update(index as int, updated_model));
                                proof {
                                    lemma_array_model(items);
                                }
                                Ok(JsonTree::Array(items))
                            },
                            Err((back, why)) => {
                                items.insert(index, back);
                                assert(items_model(items@) =~= before);
                                proof {
                                    lemma_array_model(items);
                                }
                                Err((JsonTree::Array(items), why))
                            },
                        }
                    } else if index == len {
                        match write(JsonTree::Null, tokens, k + 1, value) {
                            Ok(child) => {
                                let ghost child_model = child@;
                                items.push(child);
                                assert(items_model(items@) =~= before.push(child_model));
                                proof {
                                    lemma_array_model(items);
                                }
                                Ok(JsonTree::Array(items))
                            },
                            Err((_, why)) => Err((JsonTree::Array(items), why)),
                        }
                    } else {
                        Err((JsonTree::Array(items), out_of_bounds(index, len)))
                    }
                },
            }
        },
        other => Err((other, "path walks through a scalar value".to_owned())),
    }
}

/// Applies one `updateDataModel` operation to `model`.
///
/// `path` of `/` or `""` replaces the whole model (or clears it to `null`);
/// missing intermediate objects are created; a `null` value removes the key
/// (or, in an array, sets the slot to `null` so the array keeps its length).
/// A path that cannot be followed is an error, and leaves `model` as it was.
pub fn apply_data_model_update(model: &mut JsonTree, path: &str, value: &JsonTree) -> (result: Result<(), PointerError>)
    ensures
        match data_model_updated(old(model)@, path@, value@) {
            Ok(after) => result is Ok && final(model)@ == after,
            Err(reason) => result matches Err(e) && e.path@ == trimmed(path@) && e.reason@ == reason
                && final(model)@ == old(model)@,
        },
{
    let pointer = trim(path);
    let n = pointer.unicode_len();
    if n == 0 || (n == 1 && pointer.get_char(0) == '/') {
        assert(n == 1 ==> pointer@ =~= seq!['/']);
        *model = value.duplicate();
        return Ok(());
    }
    assert(pointer@ != seq!['/']);
    if pointer.get_char(0) != '/' {
        return Err(PointerError { path: pointer.to_owned(), reason: "updateDataModel path must be an absolute JSON Pointer starting with '/'".to_owned() });
    }
    let tokens = tokens_of(pointer);
    proof {
        lemma_segments_len(pointer@.skip(1));
        assert(token_texts(tokens@).skip(0) =~= pointer_tokens(pointer@));
    }
    let mut current = JsonTree::Null;
    std::mem::swap(&mut current, model);
    match write(current, &tokens, 0, value) {
        Ok(tree) => {
            *model = tree;
            Ok(())
        },
        Err((back, why)) => {
            *model = back;
            Err(PointerError { path: pointer.to_owned(), reason: why })
        },
    }
}

/// The value at `tokens` below `model`, if the pointer leads anywhere.
pub open spec fn read_at(model: Json, tokens: Seq<Seq<char>>) -> Option<Json>
    decreases tokens.len(),
{
    if tokens.len() == 0 {
        Some(model)
    } else {
        match model {
            Json::Object(members) => match key_position(members, tokens[0]) {
                Some(i) => read_at(members[i].1, tokens.skip(1)),
                None => None,
            },
            Json::Array(items) => match index_value(tokens[0]) {
                Some(index) => if index < items.len() {
                    read_at(items[index as int], tokens.skip(1))
                } else {
                    None
                },
                None => None,
            },
            _ => None,
        }
    }
}

/// After a member is set where `key` first stood, `key` still first
/// stands there.
proof fn lemma_key_kept(members: Seq<(Seq<char>, Json)>, key: Seq<char>, i: int, child: Json)
    requires
        key_position(members, key) == Some(i),
    ensures
        key_position(members.update(i, (key, child)), key) == Some(i),
{
    let updated = members.update(i, (key, child));
    assert(is_first_key(members, key, i));
    assert(is_first_key(updated, key, i));
    let c = choose|c: int| is_first_key(updated, key, c);
    assert(c == i) by {
        if c < i {
            assert(updated[c] == members[c]);
        } else if c > i {
            assert(updated[i].0 == key);
        }
    }
}

/// After a member named `key` is added where none was, `key` first stands
/// at the end.
proof fn lemma_key_added(members: Seq<(Seq<char>, Json)>, key: Seq<char>, child: Json)
    requires
        key_position(members, key) is None,
    ensures
        key_position(members.push((key, child)), key) == Some(members.len() as int),
{
    let pushed = members.push((key, child));
    let n = members.len() as int;
    assert forall|j: int| 0 <= j < n implies pushed[j].0 != key by {
        assert(pushed[j] == members[j]);
        if members[j].0 == key {
            if forall|k: int| 0 <= k < j ==> members[k].0 != key {
                assert(is_first_key(members, key, j));
            } else {
                let k = choose|k: int| 0 <= k < j && members[k].0 == key;
                lemma_some_first(members, key, k);
            }
        }
    }
    assert(is_first_key(pushed, key, n));
    let c = choose|c: int| is_first_key(pushed, key, c);
    assert(c == n) by {
        if c < n {
            assert(pushed[c].0 != key);
        }
    }
}

/// A member named `key` means there is a first one.
proof fn lemma_some_first(members: Seq<(Seq<char>, Json)>, key: Seq<char>, k: int)
    requires
        0 <= k < members.len(),
        members[k].0 == key,
    ensures
        key_position(members, key) is Some,
    decreases k,
{
    if forall|j: int| 0 <= j < k ==> members[j].0 != key {
        assert(is_first_key(members, key, k));
    } else {
        let j = choose|j: int| 0 <= j < k && members[j].0 == key;
        lemma_some_first(members, key, j);
    }
}

/// Writing below `null` never fails: every missing step is created.
pub proof fn law_missing_steps_are_created(tokens: Seq<Seq<char>>, value: Json)
    requires
        tokens.len() >= 1,
    ensures
        written(Json::Null, tokens, value) is Ok,
    decreases tokens.len(),
{
    if tokens.len() > 1 {
        law_missing_steps_are_created(tokens.skip(1), value);
        assert(key_position(Seq::<(Seq<char>, Json)>::empty(), tokens[0]) is None);
    }
}

/// A value other than `null`, once written at a pointer, is what reading
/// that pointer gives back.
pub proof fn law_a_written_value_reads_back(model: Json, tokens: Seq<Seq<char>>, value: Json)
    requires
        tokens.len() >= 1,
        !(value is Null),
        written(model, tokens, value) is Ok,
    ensures
        read_at(written(model, tokens, value)->Ok_0, tokens) == Some(value),
    decreases tokens.len(),
{
    let token = tokens[0];
    let after = written(model, tokens, value)->Ok_0;
    if tokens.len() == 1 {
        assert(tokens.skip(1).len() == 0);
        assert(read_at(value, tokens.skip(1)) == Some(value));
        match model {
            Json::Object(members) => {
                match key_position(members, token) {
                    Some(i) => lemma_key_kept(members, token, i, value),
                    None => lemma_key_added(members, token, value),
                }
                assert(read_at(after, tokens) == Some(value));
            },
            Json::Array(items) => {
                assert(read_at(after, tokens) == Some(value));
            },
            Json::Null => {
                lemma_key_added(Seq::empty(), token, value);
                assert(Seq::<(Seq<char>, Json)>::empty().push((token, value)) =~= seq![(token, value)]);
            },
            _ => {},
        }
    } else {
        let rest = tokens.skip(1);
        let cursor = if model is Null { Json::Object(Seq::empty()) } else { model };
        match cursor {
            Json::Object(members) => {
                match key_position(members, token) {
                    Some(i) => {
                        law_a_written_value_reads_back(members[i].1, rest, value);
                        let child = written(members[i].1, rest, value)->Ok_0;
                        lemma_key_kept(members, token, i, child);
                        assert(after == Json::Object(members.update(i, (token, child))));
                        assert(read_at(after, tokens) == read_at(child, rest));
                    },
                    None => {
                        law_a_written_value_reads_back(Json::Null, rest, value);
                        let child = written(Json::Null, rest, value)->Ok_0;
                        lemma_key_added(members, token, child);
                        assert(after == Json::Object(members.push((token, child))));
                        assert(read_at(after, tokens) == read_at(child, rest));
                    },
                }
            },
            Json::Array(items) => {
                let index = index_value(token)->Some_0;
                if index < items.len() {
                    law_a_written_value_reads_back(items[index as int], rest, value);
                    let child = written(items[index as int], rest, value)->Ok_0;
                    assert(after == Json::Array(items.update(index as int, child)));
                    assert(read_at(after, tokens) == read_at(child, rest));
                } else {
                    law_a_written_value_reads_back(Json::Null, rest, value);
                    let child = written(Json::Null, rest, value)->Ok_0;
                    assert(after == Json::Array(items.push(child)));
                    assert(read_at(after, tokens) == read_at(child, rest));
                }
            },
            _ => {},
        }
    }
}

/// The value of the member named `key`, where there is one (the first,
/// where there are several).
pub open spec fn member_value(members: Seq<(Seq<char>, Json)>, key: Seq<char>) -> Option<Json> {
    match key_position(members, key) {
        Some(i) => Some(members[i].1),
        None => None,
    }
}

/// Only one index is where a key first stands.
proof fn lemma_first_unique(members: Seq<(Seq<char>, Json)>, key: Seq<char>, i: int, j: int)
    requires
        is_first_key(members, key, i),
        is_first_key(members, key, j),
    ensures
        i == j,
{
}

/// Where a key first stands is its position.
proof fn lemma_position_at(members: Seq<(Seq<char>, Json)>, key: Seq<char>, i: int)
    requires
        is_first_key(members, key, i),
    ensures
        key_position(members, key) == Some(i),
{
    let c = choose|c: int| is_first_key(members, key, c);
    lemma_first_unique(members, key, i, c);
}

/// A key with no position names no member.
proof fn lemma_no_member(members: Seq<(Seq<char>, Json)>, key: Seq<char>)
    requires
        key_position(members, key) is None,
    ensures
        forall|j: int| 0 <= j < members.len() ==> members[j].0 != key,
{
    assert forall|j: int| 0 <= j < members.len() implies members[j].0 != key by {
        if members[j].0 == key {
            lemma_some_first(members, key, j);
        }
    }
}

/// Setting a member gives it the value set and leaves every other member
/// as it was.
pub proof fn law_setting_a_member(members: Seq<(Seq<char>, Json)>, key: Seq<char>, value: Json, other: Seq<char>)
    ensures
        member_value(with_member(members, key, value), key) == Some(value),
        other != key ==> member_value(with_member(members, key, value), other) == member_value(members, other),
{
    match key_position(members, key) {
        Some(i) => {
            lemma_key_kept(members, key, i, value);
            let u = members.update(i, (key, value));
            assert(is_first_key(members, key, i));
            if other != key {
                match key_position(members, other) {
                    Some(j) => {
                        assert(is_first_key(members, other, j));
                        assert(j != i);
                        assert(is_first_key(u, other, j));
                        lemma_position_at(u, other, j);
                    },
                    None => {
                        lemma_no_member(members, other);
                        assert(!exists|c: int| is_first_key(u, other, c));
                    },
                }
            }
        },
        None => {
            lemma_key_added(members, key, value);
            let p = members.push((key, value));
            if other != key {
                match key_position(members, other) {
                    Some(j) => {
                        assert(is_first_key(members, other, j));
                        assert(is_first_key(p, other, j));
                        lemma_position_at(p, other, j);
                    },
                    None => {
                        lemma_no_member(members, other);
                        assert(!exists|c: int| is_first_key(p, other, c));
                    },
                }
            }
        },
    }
}

/// Removing a member leaves every member of another name as it was.
pub proof fn law_removing_a_member(members: Seq<(Seq<char>, Json)>, key: Seq<char>, other: Seq<char>)
    requires
        other != key,
    ensures
        member_value(without_member(members, key), other) == member_value(members, other),
{
    match key_position(members, key) {
        Some(i) => {
            assert(is_first_key(members, key, i));
            let r = members.remove(i);
            match key_position(members, other) {
                Some(j) => {
                    assert(is_first_key(members, other, j));
                    assert(j != i);
                    if j < i {
                        assert(is_first_key(r, other, j));
                        lemma_position_at(r, other, j);
                    } else {
                        assert forall|t: int| 0 <= t < j - 1 implies r[t].0 != other by {
                            if t < i {
                                assert(r[t] == members[t]);
                            } else {
                                assert(r[t] == members[t + 1]);
                            }
                        }
                        assert(r[j - 1] == members[j]);
                        assert(is_first_key(r, other, j - 1));
                        lemma_position_at(r, other, j - 1);
                    }
                },
                None => {
                    lemma_no_member(members, other);
                    assert forall|t: int| 0 <= t < r.len() implies r[t].0 != other by {
                        if t < i {
                            assert(r[t] == members[t]);
                        } else {
                            assert(r[t] == members[t + 1]);
                        }
                    }
                    assert(!exists|c: int| is_first_key(r, other, c));
                },
            }
        },
        None => {},
    }
}

/// Reading one step past `prefix` reads that step from what `prefix` reads.
pub proof fn lemma_read_one_more(model: Json, prefix: Seq<Seq<char>>, key: Seq<char>)
    ensures
        read_at(model, prefix.push(key)) == match read_at(model, prefix) {
            Some(c) => read_at(c, seq![key]),
            None => None,
        },
    decreases prefix.len(),
{
    let tokens = prefix.push(key);
    if prefix.len() == 0 {
        assert(tokens =~= seq![key]);
    } else {
        assert(tokens[0] == prefix[0]);
        assert(tokens.skip(1) =~= prefix.skip(1).push(key));
        match model {
            Json::Object(members) => match key_position(members, prefix[0]) {
                Some(i) => lemma_read_one_more(members[i].1, prefix.skip(1), key),
                None => {},
            },
            Json::Array(items) => match index_value(prefix[0]) {
                Some(index) => if index < items.len() {
                    lemma_read_one_more(items[index as int], prefix.skip(1), key);
                },
                None => {},
            },
            _ => {},
        }
    }
}

/// Reading a member of an object reads the member's value.
pub proof fn lemma_read_member(members: Seq<(Seq<char>, Json)>, key: Seq<char>)
    ensures
        read_at(Json::Object(members), seq![key]) == member_value(members, key),
{
    let tokens = seq![key];
    assert(tokens[0] == key);
    assert(tokens.skip(1) =~= Seq::<Seq<char>>::empty());
    match key_position(members, key) {
        Some(i) => {
            assert(read_at(members[i].1, tokens.skip(1)) == Some(members[i].1));
        },
        None => {},
    }
}

/// Where `prefix` leads somewhere, a write at `prefix` and one more token
/// changes what `prefix` leads to by placing the value there.
proof fn lemma_written_at_prefix(model: Json, prefix: Seq<Seq<char>>, last: Seq<char>, value: Json, cursor: Json)
    requires
        read_at(model, prefix) == Some(cursor),
        written(model, prefix.push(last), value) is Ok,
    ensures
        placed(cursor, last, value) is Ok,
        read_at(written(model, prefix.push(last), value)->Ok_0, prefix) == Some(placed(cursor, last, value)->Ok_0),
    decreases prefix.len(),
{
    let tokens = prefix.push(last);
    if prefix.len() == 0 {
        assert(tokens =~= seq![last]);
        assert(model == cursor);
    } else {
        let token = prefix[0];
        assert(tokens[0] == token);
        assert(tokens.skip(1) =~= prefix.skip(1).push(last));
        let rest = tokens.skip(1);
        let after = written(model, tokens, value)->Ok_0;
        match model {
            Json::Object(members) => {
                let i = key_position(members, token)->Some_0;
                lemma_written_at_prefix(members[i].1, prefix.skip(1), last, value, cursor);
                let child = written(members[i].1, rest, value)->Ok_0;
                lemma_key_kept(members, token, i, child);
                assert(after == Json::Object(members.update(i, (token, child))));
            },
            Json::Array(items) => {
                let index = index_value(token)->Some_0;
                lemma_written_at_prefix(items[index as int], prefix.skip(1), last, value, cursor);
                let child = written(items[index as int], rest, value)->Ok_0;
                assert(after == Json::Array(items.update(index as int, child)));
            },
            _ => {},
        }
    }
}

/// A write at a pointer into an object leaves every other member of that
/// object as it was: the siblings of what is written are untouched.
pub proof fn law_a_write_leaves_the_siblings(
    model: Json,
    prefix: Seq<Seq<char>>,
    last: Seq<char>,
    value: Json,
    members: Seq<(Seq<char>, Json)>,
    other: Seq<char>,
)
    requires
        read_at(model, prefix) == Some(Json::Object(members)),
        written(model, prefix.push(last), value) is Ok,
        other != last,
    ensures
        read_at(written(model, prefix.push(last), value)->Ok_0, prefix.push(other)) == read_at(model, prefix.push(other)),
{
    let after = written(model, prefix.push(last), value)->Ok_0;
    lemma_written_at_prefix(model, prefix, last, value, Json::Object(members));
    lemma_read_one_more(after, prefix, other);
    lemma_read_one_more(model, prefix, other);
    lemma_read_member(members, other);
    if value is Null {
        law_removing_a_member(members, last, other);
        lemma_read_member(without_member(members, last), other);
    } else {
        law_setting_a_member(members, last, value, other);
        lemma_read_member(with_member(members, last, value), other);
    }
}

/// Reading an index of an array reads the item there.
proof fn lemma_read_item(items: Seq<Json>, token: Seq<char>)
    ensures
        read_at(Json::Array(items), seq![token]) == match index_value(token) {
            Some(index) => if index < items.len() {
                Some(items[index as int])
            } else {
                None
            },
            None => None,
        },
{
    let tokens = seq![token];
    assert(tokens[0] == token);
    assert(tokens.skip(1) =~= Seq::<Seq<char>>::empty());
    match index_value(token) {
        Some(index) => if index < items.len() {
            assert(read_at(items[index as int], tokens.skip(1)) == Some(items[index as int]));
        },
        None => {},
    }
}

/// A write at an index of an array leaves every other item it had as it was.
pub proof fn law_a_write_leaves_the_other_items(
    model: Json,
    prefix: Seq<Seq<char>>,
    last: Seq<char>,
    value: Json,
    items: Seq<Json>,
    other: Seq<char>,
)
    requires
        read_at(model, prefix) == Some(Json::Array(items)),
        written(model, prefix.push(last), value) is Ok,
        index_value(other) matches Some(j) && j < items.len() && index_value(last) != Some(j),
    ensures
        read_at(written(model, prefix.push(last), value)->Ok_0, prefix.push(other)) == read_at(model, prefix.push(other)),
{
    let after = written(model, prefix.push(last), value)->Ok_0;
    lemma_written_at_prefix(model, prefix, last, value, Json::Array(items));
    lemma_read_one_more(after, prefix, other);
    lemma_read_one_more(model, prefix, other);
    lemma_read_item(items, other);
    let placed_items = placed(Json::Array(items), last, value)->Ok_0->Array_0;
    lemma_read_item(placed_items, other);
}

} // verus!
