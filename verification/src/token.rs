//! The output alphabet of the scanner: tokens, numeric literals, and the two
//! reserved-word vocabularies, together with their spec-level views.

use vstd::prelude::*;
use crate::text::str_eq;

verus! {

/// The primitive type-name keywords of the language.  `Node` and `Object`
/// are part of the vocabulary but are not produced by scanning: no source
/// word maps to them.
#[derive(Debug, Clone, PartialEq)]
pub enum VarType {
    Node,
    Int,
    Float,
    String,
    Bool,
    Char,
    Byte,
    Array,
    Object,
    Null,
}

/// The control-flow and built-in-function keywords of the language.
#[derive(Debug, Clone, PartialEq)]
pub enum BaseFunctions {
    If,
    Else,
    For,
    While,
    Switch,
    Case,
    Function,
    WriteLn,
    ConvertTo,
}

/// A numeric literal.  A span with a decimal point keeps its exact source
/// text; its floating-point value is whatever that text denotes and is left
/// to the caller to compute.
#[derive(Debug, Clone, PartialEq)]
pub enum Numeric {
    Int(i64),
    Float(String),
}

/// One lexical unit.  Value-carrying variants hold decoded text; the fixed
/// variants stand for one concrete lexeme each.  `StarEqual` and
/// `ForwardSlashEqual` belong to the vocabulary but are never produced:
/// `*=` scans to `EqualStar` and `/=` to `EqualForwardSlash`.
#[derive(Debug, Clone, PartialEq)]
pub enum Tokens {
    Identifier(String),
    StringLiteral(String),
    NumberLiteral(Numeric),
    BoolLiteral(bool),
    CharLiteral(char),
    Colon,
    SemiColon,
    Period,
    Equals,
    EqualEqual,
    EqualPlus,
    EqualMinus,
    EqualStar,
    EqualForwardSlash,
    Plus,
    PlusPlus,
    PlusEqual,
    Minus,
    MinusMinus,
    MinusEqual,
    Bang,
    NotEqual,
    Star,
    StarEqual,
    ForwardSlash,
    ForwardSlashEqual,
    BackSlash,
    Percent,
    Dollor,
    At,
    Hash,
    Caret,
    LParentheses,
    RParentheses,
    LBrace,
    RBrace,
    LSquareBracket,
    RSquareBracket,
    Comma,
    Greater,
    GreaterEqual,
    Less,
    LessEqual,
    Ampersand,
    AndAnd,
    Pipe,
    Or,
    BaseVariables(VarType),
    BaseFunctions(BaseFunctions),
}

/// The mathematical value of a `Numeric`: the integer itself, or the exact
/// character span of a literal with a decimal point.
pub enum NumericView {
    Int(int),
    Float(Seq<char>),
}

/// The mathematical value of a `Tokens`: the same variants, with decoded
/// text as a sequence of characters.
pub enum TokenView {
    Identifier(Seq<char>),
    StringLiteral(Seq<char>),
    NumberLiteral(NumericView),
    BoolLiteral(bool),
    CharLiteral(char),
    Colon,
    SemiColon,
    Period,
    Equals,
    EqualEqual,
    EqualPlus,
    EqualMinus,
    EqualStar,
    EqualForwardSlash,
    Plus,
    PlusPlus,
    PlusEqual,
    Minus,
    MinusMinus,
    MinusEqual,
    Bang,
    NotEqual,
    Star,
    StarEqual,
    ForwardSlash,
    ForwardSlashEqual,
    BackSlash,
    Percent,
    Dollor,
    At,
    Hash,
    Caret,
    LParentheses,
    RParentheses,
    LBrace,
    RBrace,
    LSquareBracket,
    RSquareBracket,
    Comma,
    Greater,
    GreaterEqual,
    Less,
    LessEqual,
    Ampersand,
    AndAnd,
    Pipe,
    Or,
    BaseVariables(VarType),
    BaseFunctions(BaseFunctions),
}

impl View for Numeric {
    type V = NumericView;

    open spec fn view(&self) -> NumericView {
        match self {
            Numeric::Int(i) => NumericView::Int(*i as int),
            Numeric::Float(s) => NumericView::Float(s@),
        }
    }
}

impl DeepView for Numeric {
    type V = NumericView;

    open spec fn deep_view(&self) -> NumericView {
        self.view()
    }
}

impl View for Tokens {
    type V = TokenView;

    open spec fn view(&self) -> TokenView {
        match self {
            Tokens::Identifier(s) => TokenView::Identifier(s@),
            Tokens::StringLiteral(s) => TokenView::StringLiteral(s@),
            Tokens::NumberLiteral(n) => TokenView::NumberLiteral(n@),
            Tokens::BoolLiteral(b) => TokenView::BoolLiteral(*b),
            Tokens::CharLiteral(c) => TokenView::CharLiteral(*c),
            Tokens::Colon => TokenView::Colon,
            Tokens::SemiColon => TokenView::SemiColon,
            Tokens::Period => TokenView::Period,
            Tokens::Equals => TokenView::Equals,
            Tokens::EqualEqual => TokenView::EqualEqual,
            Tokens::EqualPlus => TokenView::EqualPlus,
            Tokens::EqualMinus => TokenView::EqualMinus,
            Tokens::EqualStar => TokenView::EqualStar,
            Tokens::EqualForwardSlash => TokenView::EqualForwardSlash,
            Tokens::Plus => TokenView::Plus,
            Tokens::PlusPlus => TokenView::PlusPlus,
            Tokens::PlusEqual => TokenView::PlusEqual,
            Tokens::Minus => TokenView::Minus,
            Tokens::MinusMinus => TokenView::MinusMinus,
            Tokens::MinusEqual => TokenView::MinusEqual,
            Tokens::Bang => TokenView::Bang,
            Tokens::NotEqual => TokenView::NotEqual,
            Tokens::Star => TokenView::Star,
            Tokens::StarEqual => TokenView::StarEqual,
            Tokens::ForwardSlash => TokenView::ForwardSlash,
            Tokens::ForwardSlashEqual => TokenView::ForwardSlashEqual,
            Tokens::BackSlash => TokenView::BackSlash,
            Tokens::Percent => TokenView::Percent,
            Tokens::Dollor => TokenView::Dollor,
            Tokens::At => TokenView::At,
            Tokens::Hash => TokenView::Hash,
            Tokens::Caret => TokenView::Caret,
            Tokens::LParentheses => TokenView::LParentheses,
            Tokens::RParentheses => TokenView::RParentheses,
            Tokens::LBrace => TokenView::LBrace,
            Tokens::RBrace => TokenView::RBrace,
            Tokens::LSquareBracket => TokenView::LSquareBracket,
            Tokens::RSquareBracket => TokenView::RSquareBracket,
            Tokens::Comma => TokenView::Comma,
            Tokens::Greater => TokenView::Greater,
            Tokens::GreaterEqual => TokenView::GreaterEqual,
            Tokens::Less => TokenView::Less,
            Tokens::LessEqual => TokenView::LessEqual,
            Tokens::Ampersand => TokenView::Ampersand,
            Tokens::AndAnd => TokenView::AndAnd,
            Tokens::Pipe => TokenView::Pipe,
            Tokens::Or => TokenView::Or,
            Tokens::BaseVariables(v) => TokenView::BaseVariables(*v),
            Tokens::BaseFunctions(f) => TokenView::BaseFunctions(*f),
        }
    }
}

impl DeepView for Tokens {
    type V = TokenView;

    open spec fn deep_view(&self) -> TokenView {
        self.view()
    }
}

/// The builtin-keyword table: which words name a `BaseFunctions` keyword.
pub open spec fn spec_base_function(w: Seq<char>) -> Option<BaseFunctions> {
    if w == seq!['i', 'f'] {
        Some(BaseFunctions::If)
    } else if w == seq!['e', 'l', 's', 'e'] {
        Some(BaseFunctions::Else)
    } else if w == seq!['f', 'o', 'r'] {
        Some(BaseFunctions::For)
    } else if w == seq!['w', 'h', 'i', 'l', 'e'] {
        Some(BaseFunctions::While)
    } else if w == seq!['s', 'w', 'i', 't', 'c', 'h'] {
        Some(BaseFunctions::Switch)
    } else if w == seq!['c', 'a', 's', 'e'] {
        Some(BaseFunctions::Case)
    } else if w == seq!['f', 'n'] {
        Some(BaseFunctions::Function)
    } else if w == seq!['w', 'r', 'i', 't', 'e', 'L', 'n'] {
        Some(BaseFunctions::WriteLn)
    } else if w == seq!['c', 'o', 'n', 'v', 'e', 'r', 't', 'T', 'o'] {
        Some(BaseFunctions::ConvertTo)
    } else {
        None
    }
}

/// The type-name keyword table: which words name a `VarType`.  No word maps
/// to `Object` or `Node`.
pub open spec fn spec_var_type(w: Seq<char>) -> Option<VarType> {
    if w == seq!['i', 'n', 't'] {
        Some(VarType::Int)
    } else if w == seq!['f', 'l', 'o', 'a', 't'] {
        Some(VarType::Float)
    } else if w == seq!['s', 't', 'r', 'i', 'n', 'g'] {
        Some(VarType::String)
    } else if w == seq!['b', 'o', 'o', 'l'] {
        Some(VarType::Bool)
    } else if w == seq!['c', 'h', 'a', 'r'] {
        Some(VarType::Char)
    } else if w == seq!['b', 'y', 't', 'e'] {
        Some(VarType::Byte)
    } else if w == seq!['a', 'r', 'r', 'a', 'y'] {
        Some(VarType::Array)
    } else if w == seq!['n', 'u', 'l', 'l'] {
        Some(VarType::Null)
    } else {
        None
    }
}

impl BaseFunctions {
    /// Looks a word up in the builtin-keyword table.
    pub fn from_str(s: &str) -> (r: Option<BaseFunctions>)
        ensures
            r == spec_base_function(s@),
    {
        proof {
            reveal_strlit("if");
            reveal_strlit("else");
            reveal_strlit("for");
            reveal_strlit("while");
            reveal_strlit("switch");
            reveal_strlit("case");
            reveal_strlit("fn");
            reveal_strlit("writeLn");
            reveal_strlit("convertTo");
            assert("if"@ =~= seq!['i', 'f']);
            assert("else"@ =~= seq!['e', 'l', 's', 'e']);
            assert("for"@ =~= seq!['f', 'o', 'r']);
            assert("while"@ =~= seq!['w', 'h', 'i', 'l', 'e']);
            assert("switch"@ =~= seq!['s', 'w', 'i', 't', 'c', 'h']);
            assert("case"@ =~= seq!['c', 'a', 's', 'e']);
            assert("fn"@ =~= seq!['f', 'n']);
            assert("writeLn"@ =~= seq!['w', 'r', 'i', 't', 'e', 'L', 'n']);
            assert("convertTo"@ =~= seq!['c', 'o', 'n', 'v', 'e', 'r', 't', 'T', 'o']);
        }
        if str_eq(s, "if") {
            Some(BaseFunctions::If)
        } else if str_eq(s, "else") {
            Some(BaseFunctions::Else)
        } else if str_eq(s, "for") {
            Some(BaseFunctions::For)
        } else if str_eq(s, "while") {
            Some(BaseFunctions::While)
        } else if str_eq(s, "switch") {
            Some(BaseFunctions::Switch)
        } else if str_eq(s, "case") {
            Some(BaseFunctions::Case)
        } else if str_eq(s, "fn") {
            Some(BaseFunctions::Function)
        } else if str_eq(s, "writeLn") {
            Some(BaseFunctions::WriteLn)
        } else if str_eq(s, "convertTo") {
            Some(BaseFunctions::ConvertTo)
        } else {
            None
        }
    }
}

impl VarType {
    /// Looks a word up in the type-name keyword table.
    pub fn from_str(s: &str) -> (r: Option<VarType>)
        ensures
            r == spec_var_type(s@),
    {
        proof {
            reveal_strlit("int");
            reveal_strlit("float");
            reveal_strlit("string");
            reveal_strlit("bool");
            reveal_strlit("char");
            reveal_strlit("byte");
            reveal_strlit("array");
            reveal_strlit("null");
            assert("int"@ =~= seq!['i', 'n', 't']);
            assert("float"@ =~= seq!['f', 'l', 'o', 'a', 't']);
            assert("string"@ =~= seq!['s', 't', 'r', 'i', 'n', 'g']);
            assert("bool"@ =~= seq!['b', 'o', 'o', 'l']);
            assert("char"@ =~= seq!['c', 'h', 'a', 'r']);
            assert("byte"@ =~= seq!['b', 'y', 't', 'e']);
            assert("array"@ =~= seq!['a', 'r', 'r', 'a', 'y']);
            assert("null"@ =~= seq!['n', 'u', 'l', 'l']);
        }
        if str_eq(s, "int") {
            Some(VarType::Int)
        } else if str_eq(s, "float") {
            Some(VarType::Float)
        } else if str_eq(s, "string") {
            Some(VarType::String)
        } else if str_eq(s, "bool") {
            Some(VarType::Bool)
        } else if str_eq(s, "char") {
            Some(VarType::Char)
        } else if str_eq(s, "byte") {
            Some(VarType::Byte)
        } else if str_eq(s, "array") {
            Some(VarType::Array)
        } else if str_eq(s, "null") {
            Some(VarType::Null)
        } else {
            None
        }
    }
}

/// The word `true`.
pub open spec fn spec_true_word() -> Seq<char> {
    seq!['t', 'r', 'u', 'e']
}

/// The word `false`.
pub open spec fn spec_false_word() -> Seq<char> {
    seq!['f', 'a', 'l', 's', 'e']
}

/// How a maximal identifier-shaped word is classified: builtin keywords
/// first, then type names, then the boolean literals, and only then a plain
/// identifier.  The order makes every reserved word unusable as an
/// identifier.
pub open spec fn spec_classify_word(w: Seq<char>) -> TokenView {
    match spec_base_function(w) {
        Some(k) => TokenView::BaseFunctions(k),
        None => match spec_var_type(w) {
            Some(v) => TokenView::BaseVariables(v),
            None => if w == spec_true_word() {
                TokenView::BoolLiteral(true)
            } else if w == spec_false_word() {
                TokenView::BoolLiteral(false)
            } else {
                TokenView::Identifier(w)
            },
        },
    }
}

} // verus!
