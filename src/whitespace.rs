//! White space.

use vstd::prelude::*;

use crate::chars::{is_whitespace, is_whitespace_char};
use crate::lex::LexT;
use crate::location::{Span, Spanned};
use crate::result::LexError;
use crate::stream::SourceStream;

verus! {

/// A run of white space characters.
#[derive(Debug, Clone, Copy)]
pub struct WhiteSpace {
    span: Span,
}

impl Spanned for WhiteSpace {
    closed spec fn spec_span(&self) -> Span {
        self.span
    }

    fn span(&self) -> (r: Span) {
        self.span
    }
}

impl LexT for WhiteSpace {
    open spec fn spec_peek(chars: Seq<char>, pos: int) -> bool {
        0 <= pos < chars.len() && is_whitespace_char(chars[pos])
    }

    open spec fn spec_errs(chars: Seq<char>, pos: int) -> bool {
        false
    }

    open spec fn spec_lexed(chars: Seq<char>, pos: int, end: int, tok: Self) -> bool {
        (forall|k: int| pos <= k < end ==> is_whitespace_char(#[trigger] chars[k])) && (end < chars.len() ==> !is_whitespace_char(chars[end]))
    }

    fn peek(input: &SourceStream) -> (r: bool) {
        match input.peek() {
            Some(c) => is_whitespace(c),
            None => false,
        }
    }

    /// Consumes the longest run of white space.
    fn lex(input: &mut SourceStream) -> (r: Result<Self, LexError>)
        ensures
            r is Ok,
            forall|k: int|
                old(input).pos() <= k < final(input).pos() ==> is_whitespace_char(
                    #[trigger] old(input).chars()[k],
                ),
            final(input).pos() < final(input).chars().len() ==> !is_whitespace_char(
                final(input).chars()[final(input).pos()],
            ),
    {
        let start = input.index();
        let _ = input.take_while(is_whitespace);
        Ok(WhiteSpace { span: Span::new(start, input.index()) })
    }
}

} // verus!
