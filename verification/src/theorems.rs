//! Laws of the scanner, stated over the spec-level scanner
//! [`crate::lexer::spec_tokenize`] and proved once and for all.

use vstd::prelude::*;
use crate::lexer::{
    spec_compound_leader, spec_next_token, spec_num_end, spec_scan, spec_skip_ws, spec_tokenize,
    spec_two_char_token,
};
use crate::text::{spec_ascii_digit, spec_whitespace};
use crate::token::{spec_base_function, spec_classify_word, spec_var_type, NumericView, TokenView};

verus! {

proof fn lemma_skip_ws_all(s: Seq<char>, pos: int)
    requires
        0 <= pos <= s.len(),
        forall|i: int| 0 <= i < s.len() ==> spec_whitespace(s[i]),
    ensures
        spec_skip_ws(s, pos) == s.len(),
    decreases s.len() - pos,
{
    if pos < s.len() {
        lemma_skip_ws_all(s, pos + 1);
    }
}

/// Law: an input consisting solely of whitespace scans to no tokens at all.
pub proof fn lemma_whitespace_only_scans_empty(s: Seq<char>)
    requires
        forall|i: int| 0 <= i < s.len() ==> spec_whitespace(s[i]),
    ensures
        spec_tokenize(s) == Seq::<TokenView>::empty(),
{
    if s.len() > 0 {
        lemma_skip_ws_all(s, 0);
        assert(spec_scan(s, s.len() as int) =~= Seq::<TokenView>::empty());
        assert(spec_next_token(s, s.len() as int) == (None::<TokenView>, s.len() as int));
    }
}

/// Law (maximal munch): the exact text of any two-character operator scans
/// to that single operator token, never to two one-character tokens.
pub proof fn lemma_two_char_operator(l: char, f: char)
    requires
        spec_two_char_token(l, f) is Some,
    ensures
        spec_tokenize(seq![l, f]) == seq![spec_two_char_token(l, f)->0],
{
    let s = seq![l, f];
    assert(spec_compound_leader(l));
    assert(!spec_whitespace(l));
    assert(spec_skip_ws(s, 0) == 0);
    assert(spec_scan(s, 2) =~= Seq::<TokenView>::empty());
    assert(spec_tokenize(s) =~= seq![spec_two_char_token(l, f)->0]);
}

/// The character for one decimal digit.
pub open spec fn spec_digit_char(d: int) -> char {
    if d == 0 {
        '0'
    } else if d == 1 {
        '1'
    } else if d == 2 {
        '2'
    } else if d == 3 {
        '3'
    } else if d == 4 {
        '4'
    } else if d == 5 {
        '5'
    } else if d == 6 {
        '6'
    } else if d == 7 {
        '7'
    } else if d == 8 {
        '8'
    } else {
        '9'
    }
}

/// The decimal text of a nonnegative integer.
pub open spec fn spec_dec_text(n: int) -> Seq<char>
    decreases n
        when n >= 0
{
    if n <= 9 {
        seq![spec_digit_char(n)]
    } else {
        spec_dec_text(n / 10).push(spec_digit_char(n % 10))
    }
}

proof fn lemma_dec_text_digits(n: int)
    requires
        n >= 0,
    ensures
        spec_dec_text(n).len() >= 1,
        forall|k: int| 0 <= k < spec_dec_text(n).len() ==> spec_ascii_digit(#[trigger] spec_dec_text(n)[k]),
    decreases n,
{
    if n > 9 {
        lemma_dec_text_digits(n / 10);
    }
}

proof fn lemma_dec_text_val(n: int)
    requires
        n >= 0,
    ensures
        crate::lexer::spec_digits_val(spec_dec_text(n)) == n,
    decreases n,
{
    if n <= 9 {
        let w = seq![spec_digit_char(n)];
        assert(w.last() == spec_digit_char(n));
        assert(w.drop_last() =~= Seq::<char>::empty());
        assert(crate::lexer::spec_digits_val(Seq::<char>::empty()) == 0);
        assert(crate::lexer::spec_digit_val(spec_digit_char(n)) == n);
        assert(crate::lexer::spec_digits_val(w) == n);
    } else {
        lemma_dec_text_val(n / 10);
        assert(spec_dec_text(n).drop_last() =~= spec_dec_text(n / 10));
        assert(spec_dec_text(n).last() == spec_digit_char(n % 10));
        assert(crate::lexer::spec_digit_val(spec_digit_char(n % 10)) == n % 10);
        assert(crate::lexer::spec_digits_val(spec_dec_text(n)) == (n / 10) * 10 + n % 10);
        assert((n / 10) * 10 + n % 10 == n);
    }
}

/// Scanning a numeric span over a stretch of digits passes over all of them
/// without changing whether a decimal point was seen.
proof fn lemma_num_end_digit_stretch(s: Seq<char>, pos: int, q: int, has_dot: bool)
    requires
        0 <= pos <= q <= s.len(),
        forall|k: int| pos <= k < q ==> spec_ascii_digit(s[k]),
    ensures
        spec_num_end(s, pos, has_dot) == spec_num_end(s, q, has_dot),
    decreases q - pos,
{
    if pos < q {
        lemma_num_end_digit_stretch(s, pos + 1, q, has_dot);
    }
}

/// Law: the decimal text of any nonnegative 64-bit signed integer scans to
/// exactly one integer literal token carrying that value.  The text of a
/// negative integer scans to a `Minus` token followed by the literal of its
/// magnitude, so the law is stated for the nonnegative range.
pub proof fn lemma_int_literal_round_trip(n: i64)
    requires
        n >= 0,
    ensures
        spec_tokenize(spec_dec_text(n as int)) == seq![
            TokenView::NumberLiteral(NumericView::Int(n as int)),
        ],
{
    let s = spec_dec_text(n as int);
    lemma_dec_text_digits(n as int);
    lemma_dec_text_val(n as int);
    assert(spec_ascii_digit(s[0]));
    assert(!spec_whitespace(s[0]));
    assert(spec_skip_ws(s, 0) == 0);
    lemma_num_end_digit_stretch(s, 0, s.len() as int, false);
    assert(spec_num_end(s, s.len() as int, false) == (s.len() as int, false));
    assert(s.subrange(0, s.len() as int) =~= s);
    assert(spec_scan(s, s.len() as int) =~= Seq::<TokenView>::empty());
    assert(spec_tokenize(s) =~= seq![TokenView::NumberLiteral(NumericView::Int(n as int))]);
}

/// Law: a span of digits, one decimal point, and more digits scans to
/// exactly one floating-point literal token carrying that exact span; its
/// numeric value is whatever the span denotes and is computed outside the
/// scanner.
pub proof fn lemma_float_literal_span(ip: Seq<char>, fp: Seq<char>)
    requires
        ip.len() > 0,
        fp.len() > 0,
        forall|k: int| 0 <= k < ip.len() ==> spec_ascii_digit(ip[k]),
        forall|k: int| 0 <= k < fp.len() ==> spec_ascii_digit(fp[k]),
    ensures
        spec_tokenize(ip + seq!['.'] + fp) == seq![
            TokenView::NumberLiteral(NumericView::Float(ip + seq!['.'] + fp)),
        ],
{
    let s = ip + seq!['.'] + fp;
    let ilen = ip.len() as int;
    assert(s[0] == ip[0]);
    assert(spec_ascii_digit(s[0]));
    assert(!spec_whitespace(s[0]));
    assert(spec_skip_ws(s, 0) == 0);
    assert(forall|k: int| 0 <= k < ilen ==> s[k] == ip[k]);
    lemma_num_end_digit_stretch(s, 0, ilen, false);
    assert(s[ilen] == '.');
    assert(!spec_ascii_digit('.'));
    assert(spec_num_end(s, ilen, false) == spec_num_end(s, ilen + 1, true));
    assert(forall|k: int| ilen + 1 <= k < s.len() ==> s[k] == fp[k - ilen - 1]);
    assert(forall|k: int| ilen + 1 <= k < s.len() ==> spec_ascii_digit(s[k]));
    lemma_num_end_digit_stretch(s, ilen + 1, s.len() as int, true);
    assert(spec_num_end(s, s.len() as int, true) == (s.len() as int, true));
    assert(s.subrange(0, s.len() as int) =~= s);
    assert(spec_scan(s, s.len() as int) =~= Seq::<TokenView>::empty());
    assert(spec_tokenize(s) =~= seq![TokenView::NumberLiteral(NumericView::Float(s))]);
}

/// Law (reserved-word precedence): a word that a keyword table accepts is
/// classified by that table, the builtin table first, and such a word is
/// never an identifier.
pub proof fn lemma_reserved_word_precedence(w: Seq<char>)
    ensures
        spec_base_function(w) is Some ==> spec_classify_word(w) == TokenView::BaseFunctions(
            spec_base_function(w)->0,
        ),
        spec_base_function(w) is None && spec_var_type(w) is Some ==> spec_classify_word(w)
            == TokenView::BaseVariables(spec_var_type(w)->0),
        spec_base_function(w) is Some || spec_var_type(w) is Some ==> !(spec_classify_word(
            w,
        ) is Identifier),
{
}

} // verus!
