//! Comments, single-line (`// ...`) and multi-line (`/* ... */`).

use vstd::prelude::*;

use crate::chars::is_line_terminator_char;
use crate::lex::{LexT, Verbatim};
use crate::line_terminator::LineTerminator;
use crate::location::{span_of, Span, Spanned};
use crate::result::{LexError, LexResult};
use crate::stream::{upcoming_at, SourceStream};

verus! {

/// Whether a line terminator is at `pos` of `chars`.
pub open spec fn line_terminator_at(chars: Seq<char>, pos: int) -> bool {
    0 <= pos < chars.len() && is_line_terminator_char(chars[pos])
}

/// Whether `*/` begins at `pos` of `chars`.
pub open spec fn closes_comment_at(chars: Seq<char>, pos: int) -> bool {
    upcoming_at(chars, pos, seq!['*', '/'])
}

/// Whether a line terminator comes next in `s`.
fn line_terminator_next(s: &SourceStream) -> (b: bool)
    requires
        s.wf(),
    ensures
        b == line_terminator_at(s.chars(), s.pos()),
{
    <LineTerminator as LexT>::peek(s)
}

/// Whether `*/` comes next in `s`.
fn comment_end_next(s: &SourceStream) -> (b: bool)
    requires
        s.wf(),
    ensures
        b == closes_comment_at(s.chars(), s.pos()),
{
    let lit = vec!['*', '/'];
    s.upcoming_chars(lit.as_slice())
}

/// `// ...` up to, not including, the next line terminator.
#[derive(Debug, Clone, Copy)]
pub struct SingleLineComment {
    span: Span,
    inner: Span,
}

/// `/* ... */`.
#[derive(Debug, Clone, Copy)]
pub struct MultiLineComment {
    span: Span,
    inner: Span,
}

/// A comment of either kind.
#[derive(Debug, Clone, Copy)]
pub enum Comment {
    /// `// ...`
    Single(SingleLineComment),
    /// `/* ... */`
    Multi(MultiLineComment),
}

impl SingleLineComment {
    /// The span of the comment's text, without the `//`.
    pub closed spec fn spec_inner(&self) -> Span {
        self.inner
    }

    /// The span of the comment's text, without the `//`.
    pub fn inner(&self) -> (r: Span)
        ensures
            r == self.spec_inner(),
    {
        self.inner
    }
}

impl MultiLineComment {
    /// The span of the comment's text, without the delimiters.
    pub closed spec fn spec_inner(&self) -> Span {
        self.inner
    }

    /// The span of the comment's text, without the delimiters.
    pub fn inner(&self) -> (r: Span)
        ensures
            r == self.spec_inner(),
    {
        self.inner
    }
}

impl Comment {
    /// The span of the comment's text, without its delimiters.
    pub open spec fn spec_inner(&self) -> Span {
        match self {
            Comment::Single(c) => c.spec_inner(),
            Comment::Multi(c) => c.spec_inner(),
        }
    }

    /// The span of the comment's text, without its delimiters.
    pub fn inner(&self) -> (r: Span)
        ensures
            r == self.spec_inner(),
    {
        match self {
            Comment::Single(single) => single.inner,
            Comment::Multi(multi) => multi.inner,
        }
    }
}

impl Spanned for SingleLineComment {
    closed spec fn spec_span(&self) -> Span {
        self.span
    }

    fn span(&self) -> (r: Span) {
        self.span
    }
}

impl Spanned for MultiLineComment {
    closed spec fn spec_span(&self) -> Span {
        self.span
    }

    fn span(&self) -> (r: Span) {
        self.span
    }
}

impl Spanned for Comment {
    open spec fn spec_span(&self) -> Span {
        match self {
            Comment::Single(c) => c.spec_span(),
            Comment::Multi(c) => c.spec_span(),
        }
    }

    fn span(&self) -> (r: Span) {
        match self {
            Comment::Single(c) => c.span(),
            Comment::Multi(c) => c.span(),
        }
    }
}

impl LexT for SingleLineComment {
    open spec fn spec_peek(chars: Seq<char>, pos: int) -> bool {
        upcoming_at(chars, pos, seq!['/', '/'])
    }

    open spec fn spec_errs(chars: Seq<char>, pos: int) -> bool {
        false
    }

    open spec fn spec_lexed(chars: Seq<char>, pos: int, end: int, tok: Self) -> bool {
        tok.spec_inner() == span_of(pos + 2, end) && (forall|k: int| pos + 2 <= k < end ==> !is_line_terminator_char(#[trigger] chars[k])) && (end < chars.len() ==> is_line_terminator_char(chars[end]))
    }

    fn peek(input: &SourceStream) -> (r: bool) {
        let lit = vec!['/', '/'];
        input.upcoming_chars(lit.as_slice())
    }

    /// Consumes `//` and everything up to the next line terminator or the end of the input.
    fn lex(input: &mut SourceStream) -> (r: Result<Self, LexError>)
        ensures
            r matches Ok(c) && c.spec_inner() == span_of(old(input).pos() + 2, final(input).pos()),
            forall|k: int|
                old(input).pos() + 2 <= k < final(input).pos() ==> !is_line_terminator_char(
                    #[trigger] old(input).chars()[k],
                ),
            final(input).pos() < final(input).chars().len() ==> is_line_terminator_char(
                final(input).chars()[final(input).pos()],
            ),
    {
        let start = input.index();
        input.advance(2);
        let from = input.index();
        let ghost mid = *input;
        let _ = input.take_until(line_terminator_next);
        proof {
            assert forall|k: int| from <= k < input.pos() implies !is_line_terminator_char(
                #[trigger] old(input).chars()[k],
            ) by {
                mid.lemma_at(k);
            }
        }
        Ok(SingleLineComment { span: Span::new(start, input.index()), inner: Span::new(from, input.index()) })
    }
}

impl LexT for MultiLineComment {
    open spec fn spec_peek(chars: Seq<char>, pos: int) -> bool {
        upcoming_at(chars, pos, seq!['/', '*'])
    }

    open spec fn spec_errs(chars: Seq<char>, pos: int) -> bool {
        !exists|k: int| pos + 2 <= k && #[trigger] closes_comment_at(chars, k)
    }

    open spec fn spec_lexed(chars: Seq<char>, pos: int, end: int, tok: Self) -> bool {
        tok.spec_inner() == span_of(pos + 2, end - 2) && closes_comment_at(chars, end - 2) && forall|k: int|
            pos + 2 <= k < end - 2 ==> !#[trigger] closes_comment_at(chars, k)
    }

    fn peek(input: &SourceStream) -> (r: bool) {
        let lit = vec!['/', '*'];
        input.upcoming_chars(lit.as_slice())
    }

    /// Consumes `/*`, everything up to the next `*/`, and the `*/`; an error when no `*/`
    /// follows.
    fn lex(input: &mut SourceStream) -> (r: Result<Self, LexError>)
        ensures
            r matches Ok(c) ==> c.spec_inner() == span_of(old(input).pos() + 2, final(input).pos() - 2)
                && closes_comment_at(old(input).chars(), final(input).pos() - 2),
            r is Ok <==> exists|k: int|
                old(input).pos() + 2 <= k && #[trigger] closes_comment_at(old(input).chars(), k),
    {
        let start = input.index();
        input.advance(2);
        let from = input.index();
        let ghost mid = *input;
        let _ = input.take_until(comment_end_next);
        let to = input.index();
        proof {
            assert forall|k: int| from <= k < to implies !closes_comment_at(old(input).chars(), k) by {
                mid.lemma_at(k);
            }
        }
        match Verbatim::lex(input, "*/") {
            LexResult::Lexed(_) => {
                proof {
                    reveal_strlit("*/");
                    assert("*/"@ =~= seq!['*', '/']);
                }
                Ok(MultiLineComment { span: Span::new(start, input.index()), inner: Span::new(from, to) })
            },
            _ => {
                proof {
                    reveal_strlit("*/");
                    assert("*/"@ =~= seq!['*', '/']);
                    assert(!closes_comment_at(old(input).chars(), to as int));
                    assert(to == old(input).chars().len());
                    assert forall|k: int| from <= k implies !#[trigger] closes_comment_at(
                        old(input).chars(),
                        k,
                    ) by {
                        if k >= to {
                            assert(k + 2 > old(input).chars().len());
                        }
                    }
                }
                Err(LexError::new(Span::new(start, input.index()), "Unterminated multi-line comment: expected `*/`."))
            },
        }
    }
}

impl LexT for Comment {
    open spec fn spec_peek(chars: Seq<char>, pos: int) -> bool {
        SingleLineComment::spec_peek(chars, pos) || MultiLineComment::spec_peek(chars, pos)
    }

    open spec fn spec_errs(chars: Seq<char>, pos: int) -> bool {
        !SingleLineComment::spec_peek(chars, pos) && MultiLineComment::spec_errs(chars, pos)
    }

    open spec fn spec_lexed(chars: Seq<char>, pos: int, end: int, tok: Self) -> bool {
        (tok is Single <==> SingleLineComment::spec_peek(chars, pos)) && match tok {
            Comment::Single(c) => SingleLineComment::spec_lexed(chars, pos, end, c),
            Comment::Multi(c) => MultiLineComment::spec_lexed(chars, pos, end, c),
        }
    }

    fn peek(input: &SourceStream) -> (r: bool) {
        <SingleLineComment as LexT>::peek(input) || <MultiLineComment as LexT>::peek(input)
    }

    /// Consumes a single-line comment when `//` comes next, a multi-line one otherwise.
    fn lex(input: &mut SourceStream) -> (r: Result<Self, LexError>)
        ensures
            r matches Ok(c) ==> (c is Single <==> SingleLineComment::spec_peek(
                old(input).chars(),
                old(input).pos(),
            )),
            SingleLineComment::spec_peek(old(input).chars(), old(input).pos()) ==> r is Ok,
    {
        if <SingleLineComment as LexT>::peek(input) {
            match <SingleLineComment as LexT>::lex(input) {
                Ok(c) => Ok(Comment::Single(c)),
                Err(e) => Err(e),
            }
        } else {
            match <MultiLineComment as LexT>::lex(input) {
                Ok(c) => Ok(Comment::Multi(c)),
                Err(e) => Err(e),
            }
        }
    }
}

} // verus!
