//! The token alphabet of the assembler's surface syntax, as produced by the
//! external scanner, and source spans for diagnostics.

use vstd::prelude::*;

verus! {

/// A half-open byte range in the source text.
#[derive(Clone, Copy, Debug, PartialEq, Eq, Hash, Structural)]
pub struct Span {
    pub start: usize,
    pub end: usize,
}

/// One lexical token. `String` is any word (letters then alphanumerics);
/// numeric tokens carry the already-decoded 16-bit value; `Chars` carries the
/// two characters of a character-pair literal; `Error` stands for source text
/// the scanner could not classify.
#[derive(Debug, PartialEq, Eq, Hash)]
pub enum Token {
    String(String),
    Decimal(u16),
    NoPrefixHexadecimal(u16),
    Hexadecimal(u16),
    Octal(u16),
    Binary(u16),
    Lparen,
    Rparen,
    Star,
    Chars(String),
    Plus,
    Minus,
    Comma,
    Colon,
    Eol,
    Error,
}

impl Clone for Token {
    fn clone(&self) -> (res: Self)
        ensures
            res == *self,
    {
        match self {
            Token::String(s) => Token::String(s.clone()),
            Token::Decimal(d) => Token::Decimal(*d),
            Token::NoPrefixHexadecimal(h) => Token::NoPrefixHexadecimal(*h),
            Token::Hexadecimal(h) => Token::Hexadecimal(*h),
            Token::Octal(o) => Token::Octal(*o),
            Token::Binary(b) => Token::Binary(*b),
            Token::Lparen => Token::Lparen,
            Token::Rparen => Token::Rparen,
            Token::Star => Token::Star,
            Token::Chars(s) => Token::Chars(s.clone()),
            Token::Plus => Token::Plus,
            Token::Minus => Token::Minus,
            Token::Comma => Token::Comma,
            Token::Colon => Token::Colon,
            Token::Eol => Token::Eol,
            Token::Error => Token::Error,
        }
    }
}

} // verus!
