//! Lexical tokens as the parser consumes them.

use vstd::prelude::*;

verus! {

/// A numeric literal as the tokenizer hands it over. The parser never
/// computes with the number itself: it carries `bits` (the IEEE-754 encoding
/// of the value, for whatever consumes the finished tree) through to the
/// literal expression, and reads `whole` (the value truncated to an integer)
/// where a number stands for an operator precedence in a prototype.
#[derive(Clone, Copy, PartialEq, Eq, Structural, Debug)]
pub struct NumberValue {
    pub bits: u64,
    pub whole: i32,
}

/// The number one: the default loop step and the default initializer of a
/// `let` binding. Its `bits` field is the IEEE-754 encoding of 1.0.
pub open spec fn one_value() -> NumberValue {
    NumberValue { bits: 0x3FF0000000000000u64, whole: 1i32 }
}

/// Executable counterpart of [`one_value`].
pub fn number_one() -> (n: NumberValue)
    ensures
        n == one_value(),
{
    NumberValue { bits: 0x3FF0000000000000, whole: 1 }
}

/// One lexical token.
#[derive(PartialEq, Debug)]
pub enum Tokens {
    Function,
    Extern,
    If,
    Then,
    Else,
    For,
    In,
    Let,
    Binary,
    Unary,
    Delimiter,
    OpeningParenthesis,
    ClosingParenthesis,
    OpeningBrackets,
    ClosingBrackets,
    Comma,
    Ident(String),
    Number(NumberValue),
    Operator(String),
}

/// The mathematical value of a token: identifier and operator names become
/// character sequences.
#[verifier::ext_equal]
pub enum TokenView {
    Function,
    Extern,
    If,
    Then,
    Else,
    For,
    In,
    Let,
    Binary,
    Unary,
    Delimiter,
    OpeningParenthesis,
    ClosingParenthesis,
    OpeningBrackets,
    ClosingBrackets,
    Comma,
    Ident(Seq<char>),
    Number(NumberValue),
    Operator(Seq<char>),
}

impl View for Tokens {
    type V = TokenView;

    open spec fn view(&self) -> TokenView {
        match self {
            Tokens::Function => TokenView::Function,
            Tokens::Extern => TokenView::Extern,
            Tokens::If => TokenView::If,
            Tokens::Then => TokenView::Then,
            Tokens::Else => TokenView::Else,
            Tokens::For => TokenView::For,
            Tokens::In => TokenView::In,
            Tokens::Let => TokenView::Let,
            Tokens::Binary => TokenView::Binary,
            Tokens::Unary => TokenView::Unary,
            Tokens::Delimiter => TokenView::Delimiter,
            Tokens::OpeningParenthesis => TokenView::OpeningParenthesis,
            Tokens::ClosingParenthesis => TokenView::ClosingParenthesis,
            Tokens::OpeningBrackets => TokenView::OpeningBrackets,
            Tokens::ClosingBrackets => TokenView::ClosingBrackets,
            Tokens::Comma => TokenView::Comma,
            Tokens::Ident(name) => TokenView::Ident(name@),
            Tokens::Number(value) => TokenView::Number(*value),
            Tokens::Operator(symbol) => TokenView::Operator(symbol@),
        }
    }
}

/// The values of a whole token sequence.
pub open spec fn toks_view(ts: Seq<Tokens>) -> Seq<TokenView> {
    Seq::new(ts.len(), |i: int| ts[i]@)
}

impl Clone for Tokens {
    /// A token clones to a token with the same value.
    fn clone(&self) -> (res: Self)
        ensures
            res@ == self@,
    {
        match self {
            Tokens::Function => Tokens::Function,
            Tokens::Extern => Tokens::Extern,
            Tokens::If => Tokens::If,
            Tokens::Then => Tokens::Then,
            Tokens::Else => Tokens::Else,
            Tokens::For => Tokens::For,
            Tokens::In => Tokens::In,
            Tokens::Let => Tokens::Let,
            Tokens::Binary => Tokens::Binary,
            Tokens::Unary => Tokens::Unary,
            Tokens::Delimiter => Tokens::Delimiter,
            Tokens::OpeningParenthesis => Tokens::OpeningParenthesis,
            Tokens::ClosingParenthesis => Tokens::ClosingParenthesis,
            Tokens::OpeningBrackets => Tokens::OpeningBrackets,
            Tokens::ClosingBrackets => Tokens::ClosingBrackets,
            Tokens::Comma => Tokens::Comma,
            Tokens::Ident(name) => Tokens::Ident(name.clone()),
            Tokens::Number(value) => Tokens::Number(*value),
            Tokens::Operator(symbol) => Tokens::Operator(symbol.clone()),
        }
    }
}

} // verus!
