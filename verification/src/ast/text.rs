//! Text and characters: what the library asks of the standard library.

use vstd::prelude::*;

verus! {

/// What `char::is_whitespace` returns of a character beyond ASCII: whether
/// the character has the Unicode property White_Space.
pub uninterp spec fn unicode_whitespace(c: char) -> bool;

/// What `char::is_alphabetic` returns of a character beyond ASCII: whether the
/// character has the Unicode property Alphabetic.
pub uninterp spec fn unicode_alphabetic(c: char) -> bool;

/// What `char::is_numeric` returns of a character beyond ASCII: whether the
/// character is in one of the Unicode categories of numbers.
pub uninterp spec fn unicode_numeric(c: char) -> bool;

/// Whether a character is one of the 128 characters of ASCII.
pub open spec fn ascii(c: char) -> bool {
    (c as u32) < 128
}

/// Whether a character is whitespace. In ASCII these are the space and the
/// five characters from the tabulator to the carriage return.
pub open spec fn whitespace(c: char) -> bool {
    if ascii(c) {
        c == ' ' || ('\t' <= c && c <= '\r')
    } else {
        unicode_whitespace(c)
    }
}

/// Whether a character is alphabetic. In ASCII these are the letters.
pub open spec fn alphabetic(c: char) -> bool {
    if ascii(c) {
        ('a' <= c && c <= 'z') || ('A' <= c && c <= 'Z')
    } else {
        unicode_alphabetic(c)
    }
}

/// Whether a character is numeric. In ASCII these are the ten digits.
pub open spec fn numeric(c: char) -> bool {
    if ascii(c) {
        '0' <= c && c <= '9'
    } else {
        unicode_numeric(c)
    }
}

/// Whether a character is alphabetic or numeric.
pub open spec fn alphanumeric(c: char) -> bool {
    alphabetic(c) || numeric(c)
}

/// `char::is_whitespace`: true of the characters that have the Unicode
/// property White_Space. Of ASCII the clause says which these are; beyond
/// ASCII the result is a function of the character alone, named by
/// [`unicode_whitespace`].
pub assume_specification[ char::is_whitespace ](c: char) -> (r: bool)
    ensures
        r == (if (c as u32) < 128 {
            c == ' ' || ('\t' <= c && c <= '\r')
        } else {
            unicode_whitespace(c)
        }),
;

/// `char::is_alphabetic`: true of the characters that have the Unicode
/// property Alphabetic. Of ASCII the clause says which these are, the
/// letters; beyond ASCII the result is a function of the character alone,
/// named by [`unicode_alphabetic`].
pub assume_specification[ char::is_alphabetic ](c: char) -> (r: bool)
    ensures
        r == (if (c as u32) < 128 {
            ('a' <= c && c <= 'z') || ('A' <= c && c <= 'Z')
        } else {
            unicode_alphabetic(c)
        }),
;

/// `char::is_alphanumeric`: true of the characters of which
/// `char::is_alphabetic` or `char::is_numeric` is true, as its documentation
/// says. In ASCII these are the letters and the digits.
pub assume_specification[ char::is_alphanumeric ](c: char) -> (r: bool)
    ensures
        r == (if (c as u32) < 128 {
            ('a' <= c && c <= 'z') || ('A' <= c && c <= 'Z') || ('0' <= c && c <= '9')
        } else {
            unicode_alphabetic(c) || unicode_numeric(c)
        }),
;

/// `String::push`: appends one character to the end of the text.
pub assume_specification[ std::string::String::push ](s: &mut std::string::String, c: char)
    ensures
        final(s)@ == old(s)@.push(c),
;

/// `str::eq`, the `==` of texts: true when both hold the same characters in
/// the same order.
#[verifier::external_body]
pub(crate) fn same_text(a: &str, b: &str) -> (r: bool)
    ensures
        r == (a@ == b@),
{
    a == b
}

/// The character of a decimal digit.
pub open spec fn digit_char(d: int) -> char {
    ((d + 48) as u8) as char
}

/// Decimal digits of a natural number, without leading zeros.
pub open spec fn natural_text(n: nat) -> Seq<char>
    decreases n,
{
    if n < 10 {
        seq![digit_char(n as int)]
    } else {
        natural_text(n / 10).push(digit_char((n % 10) as int))
    }
}

/// Decimal text of an integer: a minus sign for a negative one, then its digits.
pub open spec fn decimal_text(i: int) -> Seq<char> {
    if i < 0 {
        seq!['-'] + natural_text((-i) as nat)
    } else {
        natural_text(i as nat)
    }
}

/// `i64::to_string`: the decimal text of the integer, with a minus sign
/// before the digits of a negative one and no leading zeros.
#[verifier::external_body]
pub(crate) fn integer_text(value: i64) -> (r: String)
    ensures
        r@ == decimal_text(value as int),
{
    value.to_string()
}

/// Text of a truth value.
pub open spec fn boolean_text(b: bool) -> Seq<char> {
    if b {
        "true"@
    } else {
        "false"@
    }
}

/// Renders a truth value as `true` or `false`.
pub fn render_boolean(b: bool) -> (r: String)
    ensures
        r@ == boolean_text(b),
{
    if b {
        String::from_str("true")
    } else {
        String::from_str("false")
    }
}

} // verus!
