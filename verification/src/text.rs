//! Character classification and small string helpers used by the scanner.
//!
//! The scanner works on decoded characters.  The two classification
//! predicates that depend on Unicode tables (`char::is_whitespace` and
//! `char::is_alphanumeric`) are reached through trusted wrappers; everything
//! else is defined and verified here.

use vstd::prelude::*;
use vstd::string::StrSliceExecFns;

verus! {

/// The Unicode `White_Space` code points, which is exactly the set of
/// characters for which `char::is_whitespace` returns true.
pub open spec fn spec_whitespace(c: char) -> bool {
    let u = c as u32;
    ||| 0x09 <= u <= 0x0D
    ||| u == 0x20
    ||| u == 0x85
    ||| u == 0xA0
    ||| u == 0x1680
    ||| 0x2000 <= u <= 0x200A
    ||| u == 0x2028
    ||| u == 0x2029
    ||| u == 0x202F
    ||| u == 0x205F
    ||| u == 0x3000
}

/// Relies on `char::is_whitespace`: true exactly on the code points with the
/// Unicode `White_Space` property, the set written out in `spec_whitespace`.
#[verifier::external_body]
pub fn whitespace_char(c: char) -> (r: bool)
    ensures
        r == spec_whitespace(c),
{
    c.is_whitespace()
}

/// Whether `char::is_alphanumeric` holds of a character beyond ASCII; it
/// depends on the character alone.
pub uninterp spec fn nonascii_alphanumeric(c: char) -> bool;

pub open spec fn spec_ascii_digit(c: char) -> bool {
    0x30 <= c as u32 <= 0x39
}

pub open spec fn spec_ascii_letter(c: char) -> bool {
    let u = c as u32;
    (0x41 <= u <= 0x5A) || (0x61 <= u <= 0x7A)
}

/// What `char::is_alphanumeric` returns: on ASCII exactly the letters and
/// digits, beyond ASCII a function of the character alone.
pub open spec fn spec_alphanumeric(c: char) -> bool {
    if (c as u32) < 0x80 {
        spec_ascii_digit(c) || spec_ascii_letter(c)
    } else {
        nonascii_alphanumeric(c)
    }
}

/// Relies on `char::is_alphanumeric`: on ASCII it is documented to hold
/// exactly for letters and digits; beyond ASCII its value is a fixed
/// function of the character.
#[verifier::external_body]
pub fn alphanumeric_char(c: char) -> (r: bool)
    ensures
        r == spec_alphanumeric(c),
        c as u32 >= 0x80 ==> r == nonascii_alphanumeric(c),
{
    c.is_alphanumeric()
}

/// Relies on `String::push`: appends exactly the given character.
#[verifier::external_body]
pub fn push_char(s: &mut String, c: char)
    ensures
        final(s)@ == old(s)@.push(c),
{
    s.push(c);
}

pub fn ascii_digit_char(c: char) -> (r: bool)
    ensures
        r == spec_ascii_digit(c),
{
    let u = c as u32;
    0x30 <= u && u <= 0x39
}

pub fn ascii_letter_char(c: char) -> (r: bool)
    ensures
        r == spec_ascii_letter(c),
{
    let u = c as u32;
    (0x41 <= u && u <= 0x5A) || (0x61 <= u && u <= 0x7A)
}

/// Character-by-character string equality, so that keyword recognition does
/// not depend on any unspecified comparison.
pub fn str_eq(a: &str, b: &str) -> (r: bool)
    ensures
        r == (a@ == b@),
{
    let n = a.unicode_len();
    if n != b.unicode_len() {
        return false;
    }
    let mut i: usize = 0;
    while i < n
        invariant
            i <= n,
            n == a@.len(),
            n == b@.len(),
            forall|k: int| 0 <= k < i ==> a@[k] == b@[k],
        decreases n - i,
    {
        if a.get_char(i) != b.get_char(i) {
            return false;
        }
        i = i + 1;
    }
    proof {
        assert(a@ =~= b@);
    }
    true
}

} // verus!
