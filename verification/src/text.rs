//! Building the human-readable text of errors.

use vstd::prelude::*;

verus! {

/// The text `format!("{:?}", text)` produces for a string: the string in
/// double quotes, with the characters Rust's `Debug` escapes escaped. A
/// function of `text` alone.
pub uninterp spec fn debug_quoted(text: Seq<char>) -> Seq<char>;

/// Whether every character of `text` is printable ASCII other than a double
/// quote or a backslash: the characters `Debug` leaves as they are.
pub open spec fn plain_ascii(text: Seq<char>) -> bool {
    forall|i: int| 0 <= i < text.len() ==> {
        let n = #[trigger] text[i] as int;
        0x20 <= n <= 0x7E && n != 0x22 && n != 0x5C
    }
}

/// `<str as Debug>::fmt` through `format!`: `text` quoted as Rust prints it.
/// Text of plain ASCII comes back between double quotes, unchanged.
#[verifier::external_body]
pub(crate) fn quoted(text: &str) -> (shown: String)
    ensures
        shown@ == debug_quoted(text@),
        plain_ascii(text@) ==> shown@ == seq!['"'] + text@ + seq!['"'],
{
    format!("{text:?}")
}

/// `prefix` followed by `suffix`.
pub fn cat(prefix: String, suffix: &str) -> (joined: String)
    ensures
        joined@ == prefix@ + suffix@,
{
    let mut joined = prefix;
    joined.append(suffix);
    joined
}

/// Whether `c` is white space in Unicode's sense: one of the 25 code points
/// with the White_Space property, which is what `char::is_whitespace` and
/// the trimming functions of `str` go by.
pub open spec fn unicode_white_space(c: char) -> bool {
    let n = c as int;
    ||| 0x09 <= n <= 0x0D
    ||| n == 0x20
    ||| n == 0x85
    ||| n == 0xA0
    ||| n == 0x1680
    ||| 0x2000 <= n <= 0x200A
    ||| n == 0x2028
    ||| n == 0x2029
    ||| n == 0x202F
    ||| n == 0x205F
    ||| n == 0x3000
}

/// `str::trim_end`: `text` without its trailing white space.
#[verifier::external_body]
pub(crate) fn trim_end(text: &str) -> (trimmed: &str)
    ensures
        trimmed@.len() <= text@.len(),
        trimmed@ == text@.subrange(0, trimmed@.len() as int),
        forall|i: int| trimmed@.len() <= i < text@.len() ==> unicode_white_space(#[trigger] text@[i]),
        trimmed@.len() == 0 || !unicode_white_space(trimmed@.last()),
        trimmed@ == strip_trailing(text@),
{
    text.trim_end()
}

/// `text` without the white space it starts with.
pub open spec fn strip_leading(text: Seq<char>) -> Seq<char>
    decreases text.len(),
{
    if text.len() > 0 && unicode_white_space(text[0]) {
        strip_leading(text.skip(1))
    } else {
        text
    }
}

/// `text` without the white space it ends with.
pub open spec fn strip_trailing(text: Seq<char>) -> Seq<char>
    decreases text.len(),
{
    if text.len() > 0 && unicode_white_space(text.last()) {
        strip_trailing(text.drop_last())
    } else {
        text
    }
}

/// `text` without the white space at either end.
pub open spec fn trimmed(text: Seq<char>) -> Seq<char> {
    strip_trailing(strip_leading(text))
}

/// `str::trim`: `text` with its leading and trailing white space removed,
/// white space in the sense of Unicode's White_Space property.
#[verifier::external_body]
pub(crate) fn trim(text: &str) -> (result: &str)
    ensures
        result@ == trimmed(text@),
{
    text.trim()
}

/// What `str::to_uppercase` makes of `text`: each character replaced by its
/// Unicode uppercase mapping. A function of `text` alone.
pub uninterp spec fn upper_cased(text: Seq<char>) -> Seq<char>;

/// `c` with an ASCII lowercase letter made uppercase.
pub open spec fn ascii_upper(c: char) -> char {
    if 'a' <= c && c <= 'z' {
        ((c as int) - 32) as char
    } else {
        c
    }
}

/// `str::to_uppercase`. On ASCII text it uppercases the letters `a` to `z`
/// and leaves every other character as it is.
#[verifier::external_body]
pub(crate) fn to_uppercase(text: &str) -> (upper: String)
    ensures
        upper@ == upper_cased(text@),
        (forall|i: int| 0 <= i < text@.len() ==> (#[trigger] text@[i] as int) < 0x80) ==> upper@
            == text@.map_values(|c: char| ascii_upper(c)),
{
    text.to_uppercase()
}

} // verus!
