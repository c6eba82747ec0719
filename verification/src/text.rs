//! Small operations on text: separators, decimal numerals, lower case.

use vstd::prelude::*;
use vstd::string::*;

verus! {

/// The separator between the segments of a path.
pub open spec fn separator() -> char {
    '/'
}

/// Whether `s` is non-empty and its last character is the path separator.
pub open spec fn ends_with_separator(s: Seq<char>) -> bool {
    s.len() > 0 && s.last() == separator()
}

/// Whether `s` is non-empty and its first character is the path separator.
pub open spec fn starts_with_separator(s: Seq<char>) -> bool {
    s.len() > 0 && s.first() == separator()
}

/// The character that stands for the digit `d`, for `d` below ten.
pub open spec fn digit_char(d: nat) -> char {
    if d == 0 {
        '0'
    } else if d == 1 {
        '1'
    } else if d == 2 {
        '2'
    } else if d == 3 {
        '3'
    } else if d == 4 {
        '4'
    } else if d == 5 {
        '5'
    } else if d == 6 {
        '6'
    } else if d == 7 {
        '7'
    } else if d == 8 {
        '8'
    } else {
        '9'
    }
}

/// The decimal numeral of `n`: no sign, no leading zero, `"0"` for zero.
pub open spec fn decimal(n: nat) -> Seq<char>
    decreases n,
{
    if n < 10 {
        seq![digit_char(n)]
    } else {
        decimal(n / 10).push(digit_char(n % 10))
    }
}

/// Tells whether the text ends with the path separator.
pub fn has_trailing_separator(s: &str) -> (b: bool)
    ensures
        b == ends_with_separator(s@),
{
    let n: usize = s.unicode_len();
    if n == 0 {
        false
    } else {
        s.get_char(n - 1) == '/'
    }
}

/// The one-character text of a digit.
fn digit_text(d: u64) -> (t: &'static str)
    requires
        d < 10,
    ensures
        t@ == seq![digit_char(d as nat)],
{
    proof {
        reveal_strlit("0");
        reveal_strlit("1");
        reveal_strlit("2");
        reveal_strlit("3");
        reveal_strlit("4");
        reveal_strlit("5");
        reveal_strlit("6");
        reveal_strlit("7");
        reveal_strlit("8");
        reveal_strlit("9");
    }
    let t: &'static str = if d == 0 {
        "0"
    } else if d == 1 {
        "1"
    } else if d == 2 {
        "2"
    } else if d == 3 {
        "3"
    } else if d == 4 {
        "4"
    } else if d == 5 {
        "5"
    } else if d == 6 {
        "6"
    } else if d == 7 {
        "7"
    } else if d == 8 {
        "8"
    } else {
        "9"
    };
    t
}

/// Writes `n` as a decimal numeral.
pub fn decimal_text(n: u64) -> (t: String)
    ensures
        t@ == decimal(n as nat),
    decreases n,
{
    if n < 10 {
        String::from_str(digit_text(n))
    } else {
        let mut t: String = decimal_text(n / 10);
        t.append(digit_text(n % 10));
        t
    }
}

/// The text made of `left`, one separator and `right`.
pub open spec fn joined(left: Seq<char>, right: Seq<char>) -> Seq<char> {
    left.push(separator()) + right
}

/// The text without the separators at its end.
pub open spec fn without_trailing_separators(s: Seq<char>) -> Seq<char>
    decreases s.len(),
{
    if ends_with_separator(s) {
        without_trailing_separators(s.drop_last())
    } else {
        s
    }
}

/// The text without the separators at its start.
pub open spec fn without_leading_separators(s: Seq<char>) -> Seq<char>
    decreases s.len(),
{
    if starts_with_separator(s) {
        without_leading_separators(s.drop_first())
    } else {
        s
    }
}

/// The two texts with exactly one separator between them: what `left` holds
/// before the separators at its end, one separator, and what `right` holds
/// after the separators at its start.
pub open spec fn joined_by_one(left: Seq<char>, right: Seq<char>) -> Seq<char> {
    joined(without_trailing_separators(left), without_leading_separators(right))
}

/// Joins a directory and a path below it with one separator between them.
pub fn join_path(left: &str, right: &str) -> (t: String)
    ensures
        t@ == joined(left@, right@),
{
    proof {
        reveal_strlit("/");
    }
    let mut t: String = String::from_str(left);
    t.append("/");
    t.append(right);
    t
}

/// The lower-case form of a text, as the standard library computes it.
pub uninterp spec fn lowercase_of(s: Seq<char>) -> Seq<char>;

/// `str::to_lowercase` of the standard library. The contract gives its result
/// the name `lowercase_of`: the same text always has the same lower-case form.
#[verifier::external_body]
pub(crate) fn lowercase(s: &str) -> (t: String)
    ensures
        t@ == lowercase_of(s@),
{
    s.to_lowercase()
}

} // verus!
