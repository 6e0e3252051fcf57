//! The scanner: a cursor over decoded characters that drains the whole input
//! into a token sequence.
//!
//! The behaviour of every scanning step is defined by the spec functions in
//! this module ([`spec_tokenize`] at the top), and each executable routine is
//! proved to follow them exactly.

use vstd::prelude::*;
use vstd::std_specs::iter::IteratorSpec;
use crate::text::{
    alphanumeric_char, ascii_digit_char, ascii_letter_char, push_char, spec_alphanumeric,
    spec_ascii_digit, spec_ascii_letter, spec_whitespace, str_eq, whitespace_char,
};
use crate::token::{
    spec_classify_word, spec_false_word, spec_true_word, BaseFunctions, Numeric, NumericView,
    TokenView, Tokens, VarType,
};

verus! {

broadcast use vstd::string::group_string_axioms;

/// A character that may continue an identifier.
pub open spec fn spec_id_char(c: char) -> bool {
    spec_alphanumeric(c) || c == '_'
}

/// A character that may start an identifier: an ASCII letter or underscore.
pub open spec fn spec_id_start(c: char) -> bool {
    spec_ascii_letter(c) || c == '_'
}

/// The first position at or after `pos` that does not hold whitespace.
pub open spec fn spec_skip_ws(s: Seq<char>, pos: int) -> int
    decreases s.len() - pos
        when 0 <= pos <= s.len()
{
    if pos < s.len() && spec_whitespace(s[pos]) {
        spec_skip_ws(s, pos + 1)
    } else {
        pos
    }
}

/// What a character denotes after a backslash in a string literal: `n`, `t`
/// and `r` name control characters, every other character stands for itself.
pub open spec fn spec_escape(c: char) -> char {
    if c == 'n' {
        '\n'
    } else if c == 't' {
        '\t'
    } else if c == 'r' {
        '\r'
    } else {
        c
    }
}

/// The body of a string literal from `pos` (the position after the opening
/// quote), with `acc` the text decoded so far.  Returns the decoded text and
/// the position after the literal.  A literal that runs off the end of the
/// input keeps whatever was accumulated.
pub open spec fn spec_string_body(s: Seq<char>, pos: int, acc: Seq<char>) -> (Seq<char>, int)
    decreases s.len() - pos
        when 0 <= pos <= s.len()
{
    if pos >= s.len() {
        (acc, pos)
    } else if s[pos] == '"' {
        (acc, pos + 1)
    } else if s[pos] == '\\' {
        if pos + 1 >= s.len() {
            (acc, pos + 1)
        } else {
            spec_string_body(s, pos + 2, acc.push(spec_escape(s[pos + 1])))
        }
    } else {
        spec_string_body(s, pos + 1, acc.push(s[pos]))
    }
}

/// A string literal at `pos` (the opening quote).
pub open spec fn spec_string_literal(s: Seq<char>, pos: int) -> (Option<TokenView>, int) {
    let (body, end) = spec_string_body(s, pos + 1, Seq::empty());
    (Some(TokenView::StringLiteral(body)), end)
}

/// A character literal at `pos` (the opening quote): exactly one character
/// between two quotes.  A malformed literal yields no token and leaves the
/// cursor where the mismatch was found, without rewinding.
pub open spec fn spec_char_literal(s: Seq<char>, pos: int) -> (Option<TokenView>, int) {
    if pos + 1 >= s.len() {
        (None, pos + 1)
    } else if pos + 2 >= s.len() {
        (None, pos + 2)
    } else if s[pos + 2] == '\'' {
        (Some(TokenView::CharLiteral(s[pos + 1])), pos + 3)
    } else {
        (None, pos + 2)
    }
}

/// The numeric value of a decimal digit character.
pub open spec fn spec_digit_val(c: char) -> int {
    c as u32 - 0x30
}

/// The numeric value of a sequence of decimal digit characters.
pub open spec fn spec_digits_val(s: Seq<char>) -> int
    decreases s.len(),
{
    if s.len() == 0 {
        0
    } else {
        spec_digits_val(s.drop_last()) * 10 + spec_digit_val(s.last())
    }
}

/// The end of a numeric span that started at or before `pos`: digits, and at
/// most one decimal point, are consumed; a second decimal point ends the
/// span.  Returns the end position and whether a decimal point was seen.
pub open spec fn spec_num_end(s: Seq<char>, pos: int, has_dot: bool) -> (int, bool)
    decreases s.len() - pos
        when 0 <= pos <= s.len()
{
    if pos >= s.len() {
        (pos, has_dot)
    } else if spec_ascii_digit(s[pos]) {
        spec_num_end(s, pos + 1, has_dot)
    } else if s[pos] == '.' && !has_dot {
        spec_num_end(s, pos + 1, true)
    } else {
        (pos, has_dot)
    }
}

/// A numeric literal at `pos` (a digit).  A span with a decimal point always
/// yields a `Float` carrying the exact span; a span of digits yields an
/// `Int` exactly when its value fits in a 64-bit signed integer, and no
/// token otherwise.
pub open spec fn spec_number_literal(s: Seq<char>, pos: int) -> (Option<TokenView>, int) {
    let (end, has_dot) = spec_num_end(s, pos, false);
    let span = s.subrange(pos, end);
    if has_dot {
        (Some(TokenView::NumberLiteral(NumericView::Float(span))), end)
    } else if spec_digits_val(span) <= i64::MAX {
        (Some(TokenView::NumberLiteral(NumericView::Int(spec_digits_val(span)))), end)
    } else {
        (None, end)
    }
}

/// The end of the maximal identifier-shaped word starting at `pos`.
pub open spec fn spec_word_end(s: Seq<char>, pos: int) -> int
    decreases s.len() - pos
        when 0 <= pos <= s.len()
{
    if pos < s.len() && spec_id_char(s[pos]) {
        spec_word_end(s, pos + 1)
    } else {
        pos
    }
}

/// An identifier-shaped word at `pos`, classified by the reserved-word
/// tables.
pub open spec fn spec_word(s: Seq<char>, pos: int) -> (Option<TokenView>, int) {
    let end = spec_word_end(s, pos);
    (Some(spec_classify_word(s.subrange(pos, end))), end)
}

/// The characters that may lead a two-character operator.
pub open spec fn spec_compound_leader(c: char) -> bool {
    c == '=' || c == '+' || c == '-' || c == '*' || c == '/' || c == '!' || c == '>' || c == '<'
        || c == '&' || c == '|'
}

/// The closed table of two-character operators, keyed by leader and
/// follower.  `*=` maps to the same token as `=*`, and `/=` to the same
/// token as `=/`.
pub open spec fn spec_two_char_token(l: char, f: char) -> Option<TokenView> {
    if l == '=' {
        if f == '=' {
            Some(TokenView::EqualEqual)
        } else if f == '+' {
            Some(TokenView::EqualPlus)
        } else if f == '-' {
            Some(TokenView::EqualMinus)
        } else if f == '*' {
            Some(TokenView::EqualStar)
        } else if f == '/' {
            Some(TokenView::EqualForwardSlash)
        } else {
            None
        }
    } else if l == '+' {
        if f == '=' {
            Some(TokenView::PlusEqual)
        } else if f == '+' {
            Some(TokenView::PlusPlus)
        } else {
            None
        }
    } else if l == '-' {
        if f == '=' {
            Some(TokenView::MinusEqual)
        } else if f == '-' {
            Some(TokenView::MinusMinus)
        } else {
            None
        }
    } else if l == '*' {
        if f == '=' {
            Some(TokenView::EqualStar)
        } else {
            None
        }
    } else if l == '/' {
        if f == '=' {
            Some(TokenView::EqualForwardSlash)
        } else {
            None
        }
    } else if l == '!' {
        if f == '=' {
            Some(TokenView::NotEqual)
        } else {
            None
        }
    } else if l == '>' {
        if f == '=' {
            Some(TokenView::GreaterEqual)
        } else {
            None
        }
    } else if l == '<' {
        if f == '=' {
            Some(TokenView::LessEqual)
        } else {
            None
        }
    } else if l == '&' {
        if f == '&' {
            Some(TokenView::AndAnd)
        } else {
            None
        }
    } else if l == '|' {
        if f == '|' {
            Some(TokenView::Or)
        } else {
            None
        }
    } else {
        None
    }
}

/// The single-character tokens, including what each compound leader yields
/// when no two-character operator follows.
pub open spec fn spec_single_char_token(c: char) -> Option<TokenView> {
    if c == ':' {
        Some(TokenView::Colon)
    } else if c == ';' {
        Some(TokenView::SemiColon)
    } else if c == '.' {
        Some(TokenView::Period)
    } else if c == '=' {
        Some(TokenView::Equals)
    } else if c == '+' {
        Some(TokenView::Plus)
    } else if c == '-' {
        Some(TokenView::Minus)
    } else if c == '*' {
        Some(TokenView::Star)
    } else if c == '/' {
        Some(TokenView::ForwardSlash)
    } else if c == '%' {
        Some(TokenView::Percent)
    } else if c == '\\' {
        Some(TokenView::BackSlash)
    } else if c == '!' {
        Some(TokenView::Bang)
    } else if c == '>' {
        Some(TokenView::Greater)
    } else if c == '<' {
        Some(TokenView::Less)
    } else if c == '&' {
        Some(TokenView::Ampersand)
    } else if c == '|' {
        Some(TokenView::Pipe)
    } else if c == '(' {
        Some(TokenView::LParentheses)
    } else if c == ')' {
        Some(TokenView::RParentheses)
    } else if c == '{' {
        Some(TokenView::LBrace)
    } else if c == '}' {
        Some(TokenView::RBrace)
    } else if c == '[' {
        Some(TokenView::LSquareBracket)
    } else if c == ']' {
        Some(TokenView::RSquareBracket)
    } else if c == ',' {
        Some(TokenView::Comma)
    } else if c == '$' {
        Some(TokenView::Dollor)
    } else if c == '@' {
        Some(TokenView::At)
    } else if c == '#' {
        Some(TokenView::Hash)
    } else if c == '^' {
        Some(TokenView::Caret)
    } else {
        None
    }
}

/// One token extraction at `pos`: the token produced, if any, and the
/// position after it.  At the end of the input nothing happens; an
/// unrecognized character is passed over without a token.
pub open spec fn spec_next_token(s: Seq<char>, pos: int) -> (Option<TokenView>, int) {
    if pos >= s.len() {
        (None, pos)
    } else {
        let c = s[pos];
        if spec_compound_leader(c) {
            if pos + 1 < s.len() && spec_two_char_token(c, s[pos + 1]) is Some {
                (spec_two_char_token(c, s[pos + 1]), pos + 2)
            } else {
                (spec_single_char_token(c), pos + 1)
            }
        } else if spec_single_char_token(c) is Some {
            (spec_single_char_token(c), pos + 1)
        } else if c == '"' {
            spec_string_literal(s, pos)
        } else if c == '\'' {
            spec_char_literal(s, pos)
        } else if spec_ascii_digit(c) {
            spec_number_literal(s, pos)
        } else if spec_id_start(c) {
            spec_word(s, pos)
        } else {
            (None, pos + 1)
        }
    }
}

pub proof fn lemma_skip_ws_bounds(s: Seq<char>, pos: int)
    requires
        0 <= pos <= s.len(),
    ensures
        pos <= spec_skip_ws(s, pos) <= s.len(),
    decreases s.len() - pos,
{
    if pos < s.len() && spec_whitespace(s[pos]) {
        lemma_skip_ws_bounds(s, pos + 1);
    }
}

pub proof fn lemma_string_body_bounds(s: Seq<char>, pos: int, acc: Seq<char>)
    requires
        0 <= pos <= s.len(),
    ensures
        pos <= spec_string_body(s, pos, acc).1 <= s.len(),
    decreases s.len() - pos,
{
    if pos >= s.len() {
    } else if s[pos] == '"' {
    } else if s[pos] == '\\' {
        if pos + 1 < s.len() {
            lemma_string_body_bounds(s, pos + 2, acc.push(spec_escape(s[pos + 1])));
        }
    } else {
        lemma_string_body_bounds(s, pos + 1, acc.push(s[pos]));
    }
}

pub proof fn lemma_num_end_bounds(s: Seq<char>, pos: int, has_dot: bool)
    requires
        0 <= pos <= s.len(),
    ensures
        pos <= spec_num_end(s, pos, has_dot).0 <= s.len(),
    decreases s.len() - pos,
{
    if pos < s.len() {
        if spec_ascii_digit(s[pos]) {
            lemma_num_end_bounds(s, pos + 1, has_dot);
        } else if s[pos] == '.' && !has_dot {
            lemma_num_end_bounds(s, pos + 1, true);
        }
    }
}

/// Once a decimal point has been seen, it stays seen.
pub proof fn lemma_num_end_dot_stays(s: Seq<char>, pos: int)
    requires
        0 <= pos <= s.len(),
    ensures
        spec_num_end(s, pos, true).1 == true,
    decreases s.len() - pos,
{
    if pos < s.len() && spec_ascii_digit(s[pos]) {
        lemma_num_end_dot_stays(s, pos + 1);
    }
}

/// A numeric span scanned without meeting a decimal point consists of
/// decimal digits only.
pub proof fn lemma_num_end_digits(s: Seq<char>, pos: int)
    requires
        0 <= pos <= s.len(),
        spec_num_end(s, pos, false).1 == false,
    ensures
        forall|k: int| pos <= k < spec_num_end(s, pos, false).0 ==> spec_ascii_digit(s[k]),
    decreases s.len() - pos,
{
    if pos < s.len() {
        if spec_ascii_digit(s[pos]) {
            lemma_num_end_digits(s, pos + 1);
        } else if s[pos] == '.' {
            lemma_num_end_dot_stays(s, pos + 1);
        }
    }
}

pub proof fn lemma_word_end_bounds(s: Seq<char>, pos: int)
    requires
        0 <= pos <= s.len(),
    ensures
        pos <= spec_word_end(s, pos) <= s.len(),
    decreases s.len() - pos,
{
    if pos < s.len() && spec_id_char(s[pos]) {
        lemma_word_end_bounds(s, pos + 1);
    }
}

/// A token extraction below the end of the input always advances the
/// cursor, and never past the end.
pub proof fn lemma_next_token_bounds(s: Seq<char>, pos: int)
    requires
        0 <= pos <= s.len(),
    ensures
        pos <= spec_next_token(s, pos).1 <= s.len(),
        pos < s.len() ==> pos < spec_next_token(s, pos).1,
{
    if pos < s.len() {
        let c = s[pos];
        if spec_compound_leader(c) || spec_single_char_token(c) is Some {
        } else if c == '"' {
            lemma_string_body_bounds(s, pos + 1, Seq::empty());
        } else if c == '\'' {
        } else if spec_ascii_digit(c) {
            lemma_num_end_bounds(s, pos + 1, false);
        } else if spec_id_start(c) {
            assert(spec_id_char(c));
            lemma_word_end_bounds(s, pos + 1);
        } else {
        }
    }
}

/// The token sequence scanned from `pos` to the end of the input: skip
/// whitespace, extract at most one token, repeat.
pub open spec fn spec_scan(s: Seq<char>, pos: int) -> Seq<TokenView>
    decreases s.len() - pos
        when 0 <= pos <= s.len()
        via spec_scan_decreases
{
    if pos >= s.len() {
        Seq::empty()
    } else {
        let p1 = spec_skip_ws(s, pos);
        let (tok, p2) = spec_next_token(s, p1);
        let rest = spec_scan(s, p2);
        match tok {
            Some(t) => seq![t] + rest,
            None => rest,
        }
    }
}

#[via_fn]
proof fn spec_scan_decreases(s: Seq<char>, pos: int) {
    if 0 <= pos < s.len() {
        lemma_skip_ws_bounds(s, pos);
        lemma_next_token_bounds(s, spec_skip_ws(s, pos));
    }
}

/// The token sequence of a whole input text.
pub open spec fn spec_tokenize(s: Seq<char>) -> Seq<TokenView> {
    spec_scan(s, 0)
}

/// The executable form of [`spec_escape`].
fn escape_char(c: char) -> (r: char)
    ensures
        r == spec_escape(c),
{
    if c == 'n' {
        '\n'
    } else if c == 't' {
        '\t'
    } else if c == 'r' {
        '\r'
    } else {
        c
    }
}

/// The scanner: the input text as decoded characters, and a cursor that
/// only moves forward.  It is created on one text, drained once by
/// [`Lexer::tokenize`], and then discarded.
pub struct Lexer {
    input: Vec<char>,
    pos: usize,
}

impl Lexer {
    /// The input text.
    pub closed spec fn src(&self) -> Seq<char> {
        self.input@
    }

    /// The cursor: a character index into the input.
    pub closed spec fn cursor(&self) -> int {
        self.pos as int
    }

    /// The cursor always sits between characters, never past the end.
    pub open spec fn wf(&self) -> bool {
        0 <= self.cursor() <= self.src().len()
    }

    /// Creates a scanner over a complete source text.
    pub fn new(script: &str) -> (lexer: Lexer)
        ensures
            lexer.src() == script@,
            lexer.cursor() == 0,
            lexer.wf(),
    {
        let mut input: Vec<char> = Vec::new();
        let mut it = script.chars();
        proof {
            assert(input@ + it.remaining() =~= script@);
        }
        loop
            invariant
                it.obeys_prophetic_iter_laws(),
                input@ + it.remaining() == script@,
            ensures
                input@ == script@,
            decreases script@.len() - input@.len(),
        {
            match it.next() {
                Some(c) => {
                    input.push(c);
                    proof {
                        assert(input@ + it.remaining() =~= script@);
                    }
                },
                None => {
                    proof {
                        assert(input@ =~= script@);
                    }
                    break ;
                },
            }
        }
        Lexer { input, pos: 0 }
    }

    /// Moves the cursor past any whitespace under it.
    pub fn skip_whitespace(&mut self)
        requires
            old(self).wf(),
        ensures
            final(self).src() == old(self).src(),
            final(self).cursor() == spec_skip_ws(old(self).src(), old(self).cursor()),
            final(self).wf(),
    {
        let ghost s = old(self).src();
        let ghost p0 = old(self).cursor();
        loop
            invariant
                self.wf(),
                self.src() == s,
                spec_skip_ws(s, p0) == spec_skip_ws(s, self.cursor()),
            ensures
                self.src() == s,
                self.wf(),
                self.cursor() == spec_skip_ws(s, p0),
            decreases s.len() - self.cursor(),
        {
            if self.pos >= self.input.len() {
                break ;
            }
            let c = self.input[self.pos];
            if !whitespace_char(c) {
                break ;
            }
            self.pos = self.pos + 1;
        }
    }

    /// Whether a character may continue an identifier.
    pub fn is_identifier_char(&self, c: char) -> (r: bool)
        ensures
            r == spec_id_char(c),
    {
        alphanumeric_char(c) || c == '_'
    }

    /// The characters between two cursor positions, as owned text.
    fn span_text(&self, from: usize, to: usize) -> (r: String)
        requires
            self.wf(),
            from <= to <= self.src().len(),
        ensures
            r@ == self.src().subrange(from as int, to as int),
    {
        let mut out = String::new();
        let mut i: usize = from;
        while i < to
            invariant
                self.wf(),
                from <= i <= to <= self.src().len(),
                out@ == self.src().subrange(from as int, i as int),
            decreases to - i,
        {
            push_char(&mut out, self.input[i]);
            i = i + 1;
            proof {
                assert(self.src().subrange(from as int, i as int) =~= self.src().subrange(
                    from as int,
                    i - 1,
                ).push(self.src()[i - 1]));
            }
        }
        out
    }

    /// Scans a string literal whose opening quote is under the cursor:
    /// decodes escape sequences until an unescaped closing quote, or until
    /// the input runs out.
    fn tokenize_string_literal(&mut self) -> (r: Option<Tokens>)
        requires
            old(self).wf(),
            old(self).cursor() < old(self).src().len(),
        ensures
            final(self).src() == old(self).src(),
            final(self).wf(),
            r.deep_view() == spec_string_literal(old(self).src(), old(self).cursor()).0,
            final(self).cursor() == spec_string_literal(old(self).src(), old(self).cursor()).1,
    {
        let ghost s = old(self).src();
        let n = self.input.len();
        self.pos = self.pos + 1;
        let ghost p1 = self.cursor();
        let mut literal = String::new();
        loop
            invariant_except_break
                spec_string_body(s, p1, Seq::empty()) == spec_string_body(
                    s,
                    self.cursor(),
                    literal@,
                ),
            invariant
                self.wf(),
                self.src() == s,
                n == s.len(),
            ensures
                self.src() == s,
                self.wf(),
                (literal@, self.cursor() as int) == spec_string_body(s, p1, Seq::empty()),
            decreases s.len() - self.cursor(),
        {
            if self.pos >= n {
                break ;
            }
            let c = self.input[self.pos];
            if c == '"' {
                self.pos = self.pos + 1;
                break ;
            } else if c == '\\' {
                self.pos = self.pos + 1;
                if self.pos >= n {
                    break ;
                }
                let e = self.input[self.pos];
                push_char(&mut literal, escape_char(e));
                self.pos = self.pos + 1;
            } else {
                push_char(&mut literal, c);
                self.pos = self.pos + 1;
            }
        }
        Some(Tokens::StringLiteral(literal))
    }

    /// Scans a character literal whose opening quote is under the cursor:
    /// exactly one character between two quotes.  A malformed literal yields
    /// no token, and what was consumed stays consumed.
    fn tokenize_char_literal(&mut self) -> (r: Option<Tokens>)
        requires
            old(self).wf(),
            old(self).cursor() < old(self).src().len(),
        ensures
            final(self).src() == old(self).src(),
            final(self).wf(),
            r.deep_view() == spec_char_literal(old(self).src(), old(self).cursor()).0,
            final(self).cursor() == spec_char_literal(old(self).src(), old(self).cursor()).1,
    {
        let n = self.input.len();
        self.pos = self.pos + 1;
        if self.pos >= n {
            return None;
        }
        let ch = self.input[self.pos];
        self.pos = self.pos + 1;
        if self.pos >= n {
            return None;
        }
        if self.input[self.pos] == '\'' {
            self.pos = self.pos + 1;
            Some(Tokens::CharLiteral(ch))
        } else {
            None
        }
    }

    /// Scans a numeric literal starting at the digit under the cursor:
    /// digits and at most one decimal point.  A span with a point becomes a
    /// `Float` carrying its exact text; a span of digits becomes an `Int`
    /// when its value fits in 64 signed bits, and no token otherwise.
    fn tokenize_number_literal(&mut self) -> (r: Option<Tokens>)
        requires
            old(self).wf(),
        ensures
            final(self).src() == old(self).src(),
            final(self).wf(),
            r.deep_view() == spec_number_literal(old(self).src(), old(self).cursor()).0,
            final(self).cursor() == spec_number_literal(old(self).src(), old(self).cursor()).1,
    {
        let ghost s = old(self).src();
        let ghost p0 = old(self).cursor();
        let start = self.pos;
        let mut has_decimal_point = false;
        loop
            invariant
                self.wf(),
                self.src() == s,
                p0 == start as int,
                start as int <= self.cursor(),
                spec_num_end(s, p0, false) == spec_num_end(s, self.cursor(), has_decimal_point),
            ensures
                self.src() == s,
                self.wf(),
                start as int <= self.cursor(),
                (self.cursor() as int, has_decimal_point) == spec_num_end(s, p0, false),
            decreases s.len() - self.cursor(),
        {
            if self.pos >= self.input.len() {
                break ;
            }
            let c = self.input[self.pos];
            if ascii_digit_char(c) {
                self.pos = self.pos + 1;
            } else if c == '.' && !has_decimal_point {
                has_decimal_point = true;
                self.pos = self.pos + 1;
            } else {
                break ;
            }
        }
        let end = self.pos;
        if has_decimal_point {
            let span = self.span_text(start, end);
            Some(Tokens::NumberLiteral(Numeric::Float(span)))
        } else {
            proof {
                lemma_num_end_digits(s, p0);
            }
            let mut value: i64 = 0;
            let mut too_big = false;
            let mut i = start;
            while i < end
                invariant
                    self.wf(),
                    self.src() == s,
                    p0 == start as int,
                    start <= i <= end,
                    end as int <= s.len(),
                    forall|k: int| p0 <= k < end ==> spec_ascii_digit(s[k]),
                    !too_big ==> 0 <= value == spec_digits_val(s.subrange(p0, i as int)),
                    too_big ==> spec_digits_val(s.subrange(p0, i as int)) > i64::MAX,
                decreases end - i,
            {
                let c = self.input[i];
                let d = ((c as u32) - 0x30) as i64;
                proof {
                    assert(s.subrange(p0, i + 1).drop_last() =~= s.subrange(p0, i as int));
                    assert(s.subrange(p0, i + 1).last() == s[i as int]);
                }
                if !too_big {
                    if value > 922337203685477580i64 || (value == 922337203685477580i64 && d > 7) {
                        too_big = true;
                    } else {
                        value = value * 10 + d;
                    }
                }
                i = i + 1;
            }
            if too_big {
                None
            } else {
                Some(Tokens::NumberLiteral(Numeric::Int(value)))
            }
        }
    }

    /// Scans the maximal identifier-shaped word starting under the cursor
    /// and classifies it: builtin keyword, type name, boolean literal, or
    /// identifier, in that order.
    fn tokenize_identifier_or_keyword(&mut self) -> (r: Option<Tokens>)
        requires
            old(self).wf(),
        ensures
            final(self).src() == old(self).src(),
            final(self).wf(),
            r.deep_view() == spec_word(old(self).src(), old(self).cursor()).0,
            final(self).cursor() == spec_word(old(self).src(), old(self).cursor()).1,
    {
        let ghost s = old(self).src();
        let ghost p0 = old(self).cursor();
        let start = self.pos;
        loop
            invariant
                self.wf(),
                self.src() == s,
                p0 == start as int,
                start as int <= self.cursor(),
                spec_word_end(s, p0) == spec_word_end(s, self.cursor()),
            ensures
                self.src() == s,
                self.wf(),
                start as int <= self.cursor(),
                self.cursor() == spec_word_end(s, p0),
            decreases s.len() - self.cursor(),
        {
            if self.pos >= self.input.len() {
                break ;
            }
            let c = self.input[self.pos];
            if !self.is_identifier_char(c) {
                break ;
            }
            self.pos = self.pos + 1;
        }
        let word = self.span_text(start, self.pos);
        proof {
            reveal_strlit("true");
            reveal_strlit("false");
            assert("true"@ =~= spec_true_word());
            assert("false"@ =~= spec_false_word());
        }
        if let Some(k) = BaseFunctions::from_str(word.as_str()) {
            Some(Tokens::BaseFunctions(k))
        } else if let Some(v) = VarType::from_str(word.as_str()) {
            Some(Tokens::BaseVariables(v))
        } else if str_eq(word.as_str(), "true") {
            Some(Tokens::BoolLiteral(true))
        } else if str_eq(word.as_str(), "false") {
            Some(Tokens::BoolLiteral(false))
        } else {
            Some(Tokens::Identifier(word))
        }
    }

    /// One token extraction: reads the character under the cursor, picks
    /// the production it leads, and advances the cursor.  Compound-operator
    /// leaders look one character ahead and take the two-character lexeme
    /// when the table has it.  An unrecognized character is passed over with
    /// no token.
    fn next_token(&mut self) -> (r: Option<Tokens>)
        requires
            old(self).wf(),
        ensures
            final(self).src() == old(self).src(),
            final(self).wf(),
            r.deep_view() == spec_next_token(old(self).src(), old(self).cursor()).0,
            final(self).cursor() == spec_next_token(old(self).src(), old(self).cursor()).1,
    {
        let n = self.input.len();
        if self.pos >= n {
            return None;
        }
        let c = self.input[self.pos];
        if c == ':' {
            self.pos = self.pos + 1;
            Some(Tokens::Colon)
        } else if c == ';' {
            self.pos = self.pos + 1;
            Some(Tokens::SemiColon)
        } else if c == '.' {
            self.pos = self.pos + 1;
            Some(Tokens::Period)
        } else if c == '=' {
            if self.pos + 1 < n {
                let f = self.input[self.pos + 1];
                if f == '=' {
                    self.pos = self.pos + 2;
                    return Some(Tokens::EqualEqual);
                }
                if f == '+' {
                    self.pos = self.pos + 2;
                    return Some(Tokens::EqualPlus);
                }
                if f == '-' {
                    self.pos = self.pos + 2;
                    return Some(Tokens::EqualMinus);
                }
                if f == '*' {
                    self.pos = self.pos + 2;
                    return Some(Tokens::EqualStar);
                }
                if f == '/' {
                    self.pos = self.pos + 2;
                    return Some(Tokens::EqualForwardSlash);
                }
            }
            self.pos = self.pos + 1;
            Some(Tokens::Equals)
        } else if c == '+' {
            if self.pos + 1 < n {
                let f = self.input[self.pos + 1];
                if f == '=' {
                    self.pos = self.pos + 2;
                    return Some(Tokens::PlusEqual);
                }
                if f == '+' {
                    self.pos = self.pos + 2;
                    return Some(Tokens::PlusPlus);
                }
            }
            self.pos = self.pos + 1;
            Some(Tokens::Plus)
        } else if c == '-' {
            if self.pos + 1 < n {
                let f = self.input[self.pos + 1];
                if f == '=' {
                    self.pos = self.pos + 2;
                    return Some(Tokens::MinusEqual);
                }
                if f == '-' {
                    self.pos = self.pos + 2;
                    return Some(Tokens::MinusMinus);
                }
            }
            self.pos = self.pos + 1;
            Some(Tokens::Minus)
        } else if c == '*' {
            if self.pos + 1 < n {
                let f = self.input[self.pos + 1];
                if f == '=' {
                    self.pos = self.pos + 2;
                    return Some(Tokens::EqualStar);
                }
            }
            self.pos = self.pos + 1;
            Some(Tokens::Star)
        } else if c == '/' {
            if self.pos + 1 < n {
                let f = self.input[self.pos + 1];
                if f == '=' {
                    self.pos = self.pos + 2;
                    return Some(Tokens::EqualForwardSlash);
                }
            }
            self.pos = self.pos + 1;
            Some(Tokens::ForwardSlash)
        } else if c == '%' {
            self.pos = self.pos + 1;
            Some(Tokens::Percent)
        } else if c == '\\' {
            self.pos = self.pos + 1;
            Some(Tokens::BackSlash)
        } else if c == '!' {
            if self.pos + 1 < n {
                let f = self.input[self.pos + 1];
                if f == '=' {
                    self.pos = self.pos + 2;
                    return Some(Tokens::NotEqual);
                }
            }
            self.pos = self.pos + 1;
            Some(Tokens::Bang)
        } else if c == '>' {
            if self.pos + 1 < n {
                let f = self.input[self.pos + 1];
                if f == '=' {
                    self.pos = self.pos + 2;
                    return Some(Tokens::GreaterEqual);
                }
            }
            self.pos = self.pos + 1;
            Some(Tokens::Greater)
        } else if c == '<' {
            if self.pos + 1 < n {
                let f = self.input[self.pos + 1];
                if f == '=' {
                    self.pos = self.pos + 2;
                    return Some(Tokens::LessEqual);
                }
            }
            self.pos = self.pos + 1;
            Some(Tokens::Less)
        } else if c == '&' {
            if self.pos + 1 < n {
                let f = self.input[self.pos + 1];
                if f == '&' {
                    self.pos = self.pos + 2;
                    return Some(Tokens::AndAnd);
                }
            }
            self.pos = self.pos + 1;
            Some(Tokens::Ampersand)
        } else if c == '|' {
            if self.pos + 1 < n {
                let f = self.input[self.pos + 1];
                if f == '|' {
                    self.pos = self.pos + 2;
                    return Some(Tokens::Or);
                }
            }
            self.pos = self.pos + 1;
            Some(Tokens::Pipe)
        } else if c == '(' {
            self.pos = self.pos + 1;
            Some(Tokens::LParentheses)
        } else if c == ')' {
            self.pos = self.pos + 1;
            Some(Tokens::RParentheses)
        } else if c == '{' {
            self.pos = self.pos + 1;
            Some(Tokens::LBrace)
        } else if c == '}' {
            self.pos = self.pos + 1;
            Some(Tokens::RBrace)
        } else if c == '[' {
            self.pos = self.pos + 1;
            Some(Tokens::LSquareBracket)
        } else if c == ']' {
            self.pos = self.pos + 1;
            Some(Tokens::RSquareBracket)
        } else if c == ',' {
            self.pos = self.pos + 1;
            Some(Tokens::Comma)
        } else if c == '$' {
            self.pos = self.pos + 1;
            Some(Tokens::Dollor)
        } else if c == '@' {
            self.pos = self.pos + 1;
            Some(Tokens::At)
        } else if c == '#' {
            self.pos = self.pos + 1;
            Some(Tokens::Hash)
        } else if c == '^' {
            self.pos = self.pos + 1;
            Some(Tokens::Caret)
        } else if c == '"' {
            self.tokenize_string_literal()
        } else if c == '\'' {
            self.tokenize_char_literal()
        } else if ascii_digit_char(c) {
            self.tokenize_number_literal()
        } else if ascii_letter_char(c) || c == '_' {
            self.tokenize_identifier_or_keyword()
        } else {
            self.pos = self.pos + 1;
            None
        }
    }

    /// Drains the whole input: skips whitespace, extracts tokens one at a
    /// time, and returns them in source order.  It never fails; malformed
    /// or unrecognized input contributes no token.
    pub fn tokenize(&mut self) -> (tokens: Vec<Tokens>)
        requires
            old(self).wf(),
        ensures
            final(self).src() == old(self).src(),
            final(self).wf(),
            final(self).cursor() == final(self).src().len(),
            tokens.deep_view() == spec_scan(old(self).src(), old(self).cursor()),
    {
        let ghost s = old(self).src();
        let mut tokens: Vec<Tokens> = Vec::new();
        while self.pos < self.input.len()
            invariant
                self.wf(),
                self.src() == s,
                spec_scan(s, old(self).cursor()) == tokens.deep_view() + spec_scan(
                    s,
                    self.cursor(),
                ),
            decreases s.len() - self.cursor(),
        {
            let ghost p_iter = self.cursor();
            let ghost tokens0 = tokens.deep_view();
            self.skip_whitespace();
            proof {
                lemma_skip_ws_bounds(s, p_iter);
                lemma_next_token_bounds(s, self.cursor());
            }
            let tok = self.next_token();
            let ghost stepped = spec_next_token(s, spec_skip_ws(s, p_iter));
            match tok {
                Some(t) => {
                    let ghost tv = t.deep_view();
                    tokens.push(t);
                    proof {
                        assert(tokens.deep_view() =~= tokens0.push(tv));
                        assert(tokens0 + (seq![tv] + spec_scan(s, stepped.1)) =~= tokens.deep_view()
                            + spec_scan(s, stepped.1));
                    }
                },
                None => {},
            }
        }
        proof {
            assert(tokens.deep_view() + spec_scan(s, self.cursor()) =~= tokens.deep_view());
        }
        tokens
    }

    /// The next `num` characters under the cursor, if that many remain.
    pub fn peek_char(&self, num: usize) -> (r: Option<String>)
        requires
            self.wf(),
        ensures
            match r {
                Some(text) => self.cursor() + num <= self.src().len() && text@ == self.src()
                    .subrange(self.cursor(), self.cursor() + num),
                None => self.cursor() + num > self.src().len(),
            },
    {
        let n = self.input.len();
        if num <= n && self.pos <= n - num {
            let mut out = String::new();
            let mut i: usize = 0;
            while i < num
                invariant
                    self.wf(),
                    i <= num,
                    n == self.src().len(),
                    self.pos + num <= n,
                    out@ == self.src().subrange(self.cursor(), self.cursor() + i),
                decreases num - i,
            {
                push_char(&mut out, self.input[self.pos + i]);
                i = i + 1;
                proof {
                    assert(self.src().subrange(self.cursor(), self.cursor() + i) =~= self.src()
                        .subrange(self.cursor(), self.cursor() + i - 1).push(
                        self.src()[self.cursor() + i - 1],
                    ));
                }
            }
            Some(out)
        } else {
            None
        }
    }
}

} // verus!
