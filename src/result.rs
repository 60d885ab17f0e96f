//! The three-way outcome of lexing, and lexing errors.

use vstd::prelude::*;

use crate::location::Span;
use crate::stream::SourceStream;

verus! {

/// A grammar violation, located in the source.
#[derive(Debug, Clone)]
pub struct LexError {
    /// Where the violation was found.
    pub span: Span,
    /// What went wrong.
    pub message: String,
}

impl LexError {
    /// An error at `span` saying `message`.
    pub fn new(span: Span, message: &str) -> (r: LexError)
        ensures
            r.span == span,
            r.message@ == message@,
    {
        LexError { span, message: String::from_str(message) }
    }

    /// Where the violation was found.
    pub fn span(&self) -> (r: Span)
        ensures
            r == self.span,
    {
        self.span
    }

    /// What went wrong.
    pub fn message(&self) -> (r: &str)
        ensures
            r@ == self.message@,
    {
        self.message.as_str()
    }
}

/// The outcome of trying to lex an `L` token.
#[derive(Debug)]
pub enum LexResult<L> {
    /// The token was recognised and consumed.
    Lexed(L),
    /// The input looked like the token but broke its grammar; lexing cannot go on.
    Errant(LexError),
    /// The token is not there; nothing was consumed.
    Nothing,
}

impl<L> LexResult<L> {
    /// The token, for a result known to be [LexResult::Lexed].
    pub fn expect(self, msg: &str) -> (r: L)
        requires
            self is Lexed,
        ensures
            r == self->Lexed_0,
    {
        match self {
            LexResult::Lexed(lexed) => lexed,
            _ => {
                let none: Option<L> = None;
                none.unwrap()
            },
        }
    }

    /// The token, for a result known to be [LexResult::Lexed].
    pub fn unwrap(self) -> (r: L)
        requires
            self is Lexed,
        ensures
            r == self->Lexed_0,
    {
        match self {
            LexResult::Lexed(lexed) => lexed,
            _ => {
                let none: Option<L> = None;
                none.unwrap()
            },
        }
    }

    /// The error, for a result known to be [LexResult::Errant].
    pub fn unwrap_err(self) -> (r: LexError)
        requires
            self is Errant,
        ensures
            r == self->Errant_0,
    {
        match self {
            LexResult::Errant(errant) => errant,
            _ => {
                let none: Option<LexError> = None;
                none.unwrap()
            },
        }
    }

    /// The result as an ordinary [Result], for a result known not to be [LexResult::Nothing].
    pub fn unwrap_as_result(self) -> (r: Result<L, LexError>)
        requires
            !(self is Nothing),
        ensures
            self matches LexResult::Lexed(t) ==> r == Ok::<L, LexError>(t),
            self matches LexResult::Errant(e) ==> r == Err::<L, LexError>(e),
    {
        match self {
            LexResult::Lexed(lexed) => Ok(lexed),
            LexResult::Errant(errant) => Err(errant),
            LexResult::Nothing => {
                let none: Option<Result<L, LexError>> = None;
                none.unwrap()
            },
        }
    }

    /// Whether this is [LexResult::Errant].
    pub fn is_errant(&self) -> (r: bool)
        ensures
            r == (self is Errant),
    {
        match self {
            LexResult::Errant(_) => true,
            _ => false,
        }
    }

    /// Whether this is [LexResult::Lexed].
    pub fn is_lexed(&self) -> (r: bool)
        ensures
            r == (self is Lexed),
    {
        match self {
            LexResult::Lexed(_) => true,
            _ => false,
        }
    }

    /// Whether this is [LexResult::Nothing].
    pub fn is_nothing(&self) -> (r: bool)
        ensures
            r == (self is Nothing),
    {
        match self {
            LexResult::Nothing => true,
            _ => false,
        }
    }

    /// Applies `mapper` to a lexed token; errors and absence pass through.
    pub fn map<T, F: FnOnce(L) -> T>(self, mapper: F) -> (r: LexResult<T>)
        requires
            self matches LexResult::Lexed(t) ==> mapper.requires((t,)),
        ensures
            self matches LexResult::Lexed(t) ==> r is Lexed && mapper.ensures((t,), r->Lexed_0),
            self matches LexResult::Errant(e) ==> r == LexResult::<T>::Errant(e),
            self is Nothing ==> r is Nothing,
    {
        match self {
            LexResult::Lexed(lexed) => LexResult::Lexed(mapper(lexed)),
            LexResult::Errant(errant) => LexResult::Errant(errant),
            LexResult::Nothing => LexResult::Nothing,
        }
    }

    /// On [LexResult::Nothing], the result of `alternative`; otherwise this result unchanged,
    /// so that errors cut the chain of alternatives short.
    pub fn or<F: FnOnce() -> LexResult<L>>(self, alternative: F) -> (r: LexResult<L>)
        requires
            self is Nothing ==> alternative.requires(()),
        ensures
            self is Nothing ==> alternative.ensures((), r),
            !(self is Nothing) ==> r == self,
    {
        match self {
            LexResult::Nothing => alternative(),
            other => other,
        }
    }

    /// Chains `next` after a lexed token; errors and absence pass through.
    pub fn and<T, F: FnOnce(L) -> LexResult<T>>(self, next: F) -> (r: LexResult<T>)
        requires
            self matches LexResult::Lexed(t) ==> next.requires((t,)),
        ensures
            self matches LexResult::Lexed(t) ==> next.ensures((t,), r),
            self matches LexResult::Errant(e) ==> r == LexResult::<T>::Errant(e),
            self is Nothing ==> r is Nothing,
    {
        match self {
            LexResult::Lexed(lexed) => next(lexed),
            LexResult::Errant(errant) => LexResult::Errant(errant),
            LexResult::Nothing => LexResult::Nothing,
        }
    }

    /// Turns [LexResult::Nothing] into an error at the cursor of `input` saying
    /// `Expected a token here.`: the token was required here.
    pub fn expected(self, input: &SourceStream) -> (r: LexResult<L>)
        requires
            input.wf(),
        ensures
            self is Nothing ==> (r matches LexResult::Errant(e) && e.span == input.spec_cursor_span()
                && e.message@ == "Expected a token here."@),
            !(self is Nothing) ==> r == self,
    {
        self.expected_msg(input, "Expected a token here.")
    }

    /// Turns [LexResult::Nothing] into an error at the cursor of `input` saying `msg`.
    pub fn expected_msg(self, input: &SourceStream, msg: &str) -> (r: LexResult<L>)
        requires
            input.wf(),
        ensures
            self is Nothing ==> (r matches LexResult::Errant(e) && e.span == input.spec_cursor_span()
                && e.message@ == msg@),
            !(self is Nothing) ==> r == self,
    {
        match self {
            LexResult::Nothing => LexResult::Errant(input.error(msg)),
            other => other,
        }
    }
}

} // verus!
