//! Punctuators: `{ } [ ] : ,`.

use vstd::prelude::*;

use crate::lex::LexT;
use crate::location::{Span, Spanned};
use crate::result::LexError;
use crate::stream::SourceStream;

verus! {

/// Whether `c` is one of the punctuators `{ } [ ] : ,`.
pub open spec fn is_punctuator_char(c: char) -> bool {
    c == '{' || c == '}' || c == '[' || c == ']' || c == ':' || c == ','
}

/// One of `{ } [ ] : ,`.
#[derive(Debug, Clone, Copy)]
pub enum Punctuator {
    /// `{`
    OpenBrace(Span),
    /// `}`
    CloseBrace(Span),
    /// `[`
    OpenBracket(Span),
    /// `]`
    CloseBracket(Span),
    /// `:`
    Colon(Span),
    /// `,`
    Comma(Span),
}

impl Punctuator {
    /// The character this punctuator stands for.
    pub open spec fn spec_char(self) -> char {
        match self {
            Punctuator::OpenBrace(_) => '{',
            Punctuator::CloseBrace(_) => '}',
            Punctuator::OpenBracket(_) => '[',
            Punctuator::CloseBracket(_) => ']',
            Punctuator::Colon(_) => ':',
            Punctuator::Comma(_) => ',',
        }
    }

    /// The character this punctuator stands for.
    pub fn as_char(&self) -> (r: char)
        ensures
            r == self.spec_char(),
    {
        match self {
            Punctuator::OpenBrace(_) => '{',
            Punctuator::CloseBrace(_) => '}',
            Punctuator::OpenBracket(_) => '[',
            Punctuator::CloseBracket(_) => ']',
            Punctuator::Colon(_) => ':',
            Punctuator::Comma(_) => ',',
        }
    }
}

impl Spanned for Punctuator {
    open spec fn spec_span(&self) -> Span {
        match self {
            Punctuator::OpenBrace(s) => *s,
            Punctuator::CloseBrace(s) => *s,
            Punctuator::OpenBracket(s) => *s,
            Punctuator::CloseBracket(s) => *s,
            Punctuator::Colon(s) => *s,
            Punctuator::Comma(s) => *s,
        }
    }

    fn span(&self) -> (r: Span) {
        match self {
            Punctuator::OpenBrace(s) => *s,
            Punctuator::CloseBrace(s) => *s,
            Punctuator::OpenBracket(s) => *s,
            Punctuator::CloseBracket(s) => *s,
            Punctuator::Colon(s) => *s,
            Punctuator::Comma(s) => *s,
        }
    }
}

impl LexT for Punctuator {
    open spec fn spec_peek(chars: Seq<char>, pos: int) -> bool {
        0 <= pos < chars.len() && is_punctuator_char(chars[pos])
    }

    open spec fn spec_errs(chars: Seq<char>, pos: int) -> bool {
        false
    }

    open spec fn spec_lexed(chars: Seq<char>, pos: int, end: int, tok: Self) -> bool {
        end == pos + 1 && tok.spec_char() == chars[pos]
    }

    fn peek(input: &SourceStream) -> (r: bool) {
        match input.peek() {
            Some(c) => c == '{' || c == '}' || c == '[' || c == ']' || c == ':' || c == ',',
            None => false,
        }
    }

    /// Consumes the punctuator character.
    fn lex(input: &mut SourceStream) -> (r: Result<Self, LexError>)
        ensures
            final(input).pos() == old(input).pos() + 1,
            r matches Ok(p) && p.spec_char() == old(input).chars()[old(input).pos()],
    {
        let start = input.index();
        let c = match input.take() {
            Some((_, c)) => c,
            None => ',',
        };
        let span = Span::new(start, start + 1);
        if c == '{' {
            Ok(Punctuator::OpenBrace(span))
        } else if c == '}' {
            Ok(Punctuator::CloseBrace(span))
        } else if c == '[' {
            Ok(Punctuator::OpenBracket(span))
        } else if c == ']' {
            Ok(Punctuator::CloseBracket(span))
        } else if c == ':' {
            Ok(Punctuator::Colon(span))
        } else {
            Ok(Punctuator::Comma(span))
        }
    }
}

} // verus!
