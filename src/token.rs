//! Token dispatch: the tokens of JSON5, and the input elements around them.

use vstd::prelude::*;

use crate::comment::Comment;
use crate::identifier::Identifier;
use crate::lex::{all_lexed, LexT};
use crate::line_terminator::LineTerminator;
use crate::location::{Span, Spanned};
use crate::numeric::Number;
use crate::punctuator::Punctuator;
use crate::result::{LexError, LexResult};
use crate::stream::SourceStream;
use crate::string::LString;
use crate::whitespace::WhiteSpace;

verus! {

/// A token: what the syntax of JSON5 is built from.
#[derive(Debug, Clone)]
pub enum Token {
    /// An identifier (including `true`, `false`, `null`, `Infinity` and `NaN`).
    Identifier(Identifier),
    /// `{ } [ ] : ,`
    Punctuator(Punctuator),
    /// A string literal.
    String(LString),
    /// A number.
    Number(Number),
}

/// An input element: a token, or something between tokens.
#[derive(Debug, Clone)]
pub enum InputElement {
    /// A line terminator.
    LineTerminator(LineTerminator),
    /// White space.
    WhiteSpace(WhiteSpace),
    /// A comment.
    Comment(Comment),
    /// A token.
    Token(Token),
}

impl Spanned for Token {
    open spec fn spec_span(&self) -> Span {
        match self {
            Token::Identifier(t) => t.spec_span(),
            Token::Punctuator(t) => t.spec_span(),
            Token::String(t) => t.spec_span(),
            Token::Number(t) => t.spec_span(),
        }
    }

    fn span(&self) -> (r: Span) {
        match self {
            Token::Identifier(t) => t.span(),
            Token::Punctuator(t) => t.span(),
            Token::String(t) => t.span(),
            Token::Number(t) => t.span(),
        }
    }
}

impl Spanned for InputElement {
    open spec fn spec_span(&self) -> Span {
        match self {
            InputElement::LineTerminator(t) => t.spec_span(),
            InputElement::WhiteSpace(t) => t.spec_span(),
            InputElement::Comment(t) => t.spec_span(),
            InputElement::Token(t) => t.spec_span(),
        }
    }

    fn span(&self) -> (r: Span) {
        match self {
            InputElement::LineTerminator(t) => t.span(),
            InputElement::WhiteSpace(t) => t.span(),
            InputElement::Comment(t) => t.span(),
            InputElement::Token(t) => t.span(),
        }
    }
}

impl LexT for Token {
    open spec fn spec_peek(chars: Seq<char>, pos: int) -> bool {
        Identifier::spec_peek(chars, pos) || Punctuator::spec_peek(chars, pos) || LString::spec_peek(
            chars,
            pos,
        ) || Number::spec_peek(chars, pos)
    }

    open spec fn spec_errs(chars: Seq<char>, pos: int) -> bool {
        if Identifier::spec_peek(chars, pos) {
            Identifier::spec_errs(chars, pos)
        } else if Punctuator::spec_peek(chars, pos) {
            false
        } else if LString::spec_peek(chars, pos) {
            LString::spec_errs(chars, pos)
        } else {
            Number::spec_errs(chars, pos)
        }
    }

    open spec fn spec_lexed(chars: Seq<char>, pos: int, end: int, tok: Self) -> bool {
        &&& tok is Identifier <==> Identifier::spec_peek(chars, pos)
        &&& tok is Punctuator <==> !Identifier::spec_peek(chars, pos) && Punctuator::spec_peek(chars, pos)
        &&& tok is String <==> !Identifier::spec_peek(chars, pos) && !Punctuator::spec_peek(chars, pos)
            && LString::spec_peek(chars, pos)
        &&& match tok {
            Token::Identifier(t) => Identifier::spec_lexed(chars, pos, end, t),
            Token::Punctuator(t) => Punctuator::spec_lexed(chars, pos, end, t),
            Token::String(t) => LString::spec_lexed(chars, pos, end, t),
            Token::Number(t) => Number::spec_lexed(chars, pos, end, t),
        }
    }

    fn peek(input: &SourceStream) -> (r: bool) {
        <Identifier as LexT>::peek(input) || <Punctuator as LexT>::peek(input)
            || <LString as LexT>::peek(input) || <Number as LexT>::peek(input)
    }

    /// Tries, in order, an identifier, a punctuator, a string and a number.
    fn lex(input: &mut SourceStream) -> (r: Result<Self, LexError>)
        ensures
            r matches Ok(t) ==> {
                let (chars, pos) = (old(input).chars(), old(input).pos());
                &&& t is Identifier <==> Identifier::spec_peek(chars, pos)
                &&& t is Punctuator <==> !Identifier::spec_peek(chars, pos) && Punctuator::spec_peek(
                    chars,
                    pos,
                )
                &&& t is String <==> !Identifier::spec_peek(chars, pos) && !Punctuator::spec_peek(
                    chars,
                    pos,
                ) && LString::spec_peek(chars, pos)
            },
    {
        if <Identifier as LexT>::peek(input) {
            match <Identifier as LexT>::lex(input) {
                Ok(t) => Ok(Token::Identifier(t)),
                Err(e) => Err(e),
            }
        } else if <Punctuator as LexT>::peek(input) {
            match <Punctuator as LexT>::lex(input) {
                Ok(t) => Ok(Token::Punctuator(t)),
                Err(e) => Err(e),
            }
        } else if <LString as LexT>::peek(input) {
            match <LString as LexT>::lex(input) {
                Ok(t) => Ok(Token::String(t)),
                Err(e) => Err(e),
            }
        } else {
            match <Number as LexT>::lex(input) {
                Ok(t) => Ok(Token::Number(t)),
                Err(e) => Err(e),
            }
        }
    }
}

impl LexT for InputElement {
    open spec fn spec_peek(chars: Seq<char>, pos: int) -> bool {
        LineTerminator::spec_peek(chars, pos) || WhiteSpace::spec_peek(chars, pos)
            || Comment::spec_peek(chars, pos) || Token::spec_peek(chars, pos)
    }

    open spec fn spec_errs(chars: Seq<char>, pos: int) -> bool {
        if LineTerminator::spec_peek(chars, pos) || WhiteSpace::spec_peek(chars, pos) {
            false
        } else if Comment::spec_peek(chars, pos) {
            Comment::spec_errs(chars, pos)
        } else {
            Token::spec_errs(chars, pos)
        }
    }

    open spec fn spec_lexed(chars: Seq<char>, pos: int, end: int, tok: Self) -> bool {
        &&& tok is LineTerminator <==> LineTerminator::spec_peek(chars, pos)
        &&& tok is WhiteSpace <==> !LineTerminator::spec_peek(chars, pos) && WhiteSpace::spec_peek(chars, pos)
        &&& tok is Comment <==> !LineTerminator::spec_peek(chars, pos) && !WhiteSpace::spec_peek(chars, pos)
            && Comment::spec_peek(chars, pos)
        &&& match tok {
            InputElement::LineTerminator(t) => LineTerminator::spec_lexed(chars, pos, end, t),
            InputElement::WhiteSpace(t) => WhiteSpace::spec_lexed(chars, pos, end, t),
            InputElement::Comment(t) => Comment::spec_lexed(chars, pos, end, t),
            InputElement::Token(t) => Token::spec_lexed(chars, pos, end, t),
        }
    }

    fn peek(input: &SourceStream) -> (r: bool) {
        <LineTerminator as LexT>::peek(input) || <WhiteSpace as LexT>::peek(input)
            || <Comment as LexT>::peek(input) || <Token as LexT>::peek(input)
    }

    /// Tries, in order, a line terminator, white space, a comment and a token.
    fn lex(input: &mut SourceStream) -> (r: Result<Self, LexError>)
        ensures
            r matches Ok(e) ==> {
                let (chars, pos) = (old(input).chars(), old(input).pos());
                &&& e is LineTerminator <==> LineTerminator::spec_peek(chars, pos)
                &&& e is WhiteSpace <==> !LineTerminator::spec_peek(chars, pos) && WhiteSpace::spec_peek(
                    chars,
                    pos,
                )
                &&& e is Comment <==> !LineTerminator::spec_peek(chars, pos) && !WhiteSpace::spec_peek(
                    chars,
                    pos,
                ) && Comment::spec_peek(chars, pos)
            },
    {
        if <LineTerminator as LexT>::peek(input) {
            match <LineTerminator as LexT>::lex(input) {
                Ok(t) => Ok(InputElement::LineTerminator(t)),
                Err(e) => Err(e),
            }
        } else if <WhiteSpace as LexT>::peek(input) {
            match <WhiteSpace as LexT>::lex(input) {
                Ok(t) => Ok(InputElement::WhiteSpace(t)),
                Err(e) => Err(e),
            }
        } else if <Comment as LexT>::peek(input) {
            match <Comment as LexT>::lex(input) {
                Ok(t) => Ok(InputElement::Comment(t)),
                Err(e) => Err(e),
            }
        } else {
            match <Token as LexT>::lex(input) {
                Ok(t) => Ok(InputElement::Token(t)),
                Err(e) => Err(e),
            }
        }
    }
}

/// `toks` come one after another, in source order, within `[from, to)`.
pub open spec fn in_order<T: Spanned>(toks: Seq<T>, from: int, to: int) -> bool {
    &&& forall|i: int|
        0 <= i < toks.len() ==> from <= (#[trigger] toks[i].spec_span()).start.0
            < toks[i].spec_span().end.0 <= to
    &&& forall|i: int|
        0 <= i < toks.len() - 1 ==> (#[trigger] toks[i].spec_span()).end.0 <= toks[i
            + 1].spec_span().start.0
}

/// Lexes the rest of the input into tokens, skipping white space, line terminators and
/// comments; the first error ends lexing, as does a character that begins no input element.
/// On an error the stream is left at the start of the element that failed.
pub fn tokenize(input: &mut SourceStream) -> (r: Result<Vec<Token>, LexError>)
    requires
        old(input).wf(),
    ensures
        final(input).wf(),
        final(input).same_source(old(input)),
        r matches Ok(toks) ==> final(input).pos() == final(input).chars().len() && in_order(
            toks@,
            old(input).pos(),
            final(input).pos(),
        ) && all_lexed(old(input).chars(), toks@),
        r is Err ==> final(input).pos() < final(input).chars().len() && (!InputElement::spec_peek(
            final(input).chars(),
            final(input).pos(),
        ) || InputElement::spec_errs(final(input).chars(), final(input).pos())),
{
    let mut toks: Vec<Token> = Vec::new();
    loop
        invariant
            input.wf(),
            input.same_source(old(input)),
            old(input).pos() <= input.pos(),
            in_order(toks@, old(input).pos(), input.pos()),
            all_lexed(old(input).chars(), toks@),
        decreases input.chars().len() - input.pos(),
    {
        let before = *input;
        match input.lex::<InputElement>() {
            LexResult::Lexed(InputElement::Token(t)) => {
                let ghost prev = toks@;
                toks.push(t);
                assert forall|i: int| 0 <= i < toks@.len() implies Token::spec_lexed(
                    old(input).chars(),
                    toks@[i].spec_span().start.0 as int,
                    toks@[i].spec_span().end.0 as int,
                    #[trigger] toks@[i],
                ) by {
                    if i < prev.len() {
                        assert(toks@[i] == prev[i]);
                    }
                }
                assert forall|i: int| 0 <= i < toks@.len() - 1 implies (#[trigger] toks@[i].spec_span()).end.0
                    <= toks@[i + 1].spec_span().start.0 by {
                    if i < toks@.len() - 2 {
                        assert(toks@[i] == prev[i] && toks@[i + 1] == prev[i + 1]);
                    } else {
                        assert(toks@[i] == prev[i]);
                    }
                }
                assert forall|i: int| 0 <= i < toks@.len() implies old(input).pos() <= (
                #[trigger] toks@[i].spec_span()).start.0 < toks@[i].spec_span().end.0
                    <= input.pos() by {
                    if i < toks@.len() - 1 {
                        assert(toks@[i] == prev[i]);
                    }
                }
            },
            LexResult::Lexed(_) => {},
            LexResult::Errant(e) => {
                // Report the stream at the start of the element that failed.
                input.advance_to(&before);
                return Err(e);
            },
            LexResult::Nothing => {
                if !input.at_end() {
                    return Err(input.error("Unexpected character: no token begins here."));
                }
                return Ok(toks);
            },
        }
    }
}

} // verus!
