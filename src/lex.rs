//! The lexing protocol (peek, then lex) and the combinators built on it.

use vstd::prelude::*;

use crate::location::{span_of, Span, Spanned};
use crate::result::{LexError, LexResult};
use crate::source::chars_of;
use crate::stream::{upcoming_at, CharacterRange, SourceStream};
use crate::unicode::{
    major_category, major_category_of, major_listed, minor_category, minor_category_of,
    minor_listed, MajorCategory, MinorCategory,
};

verus! {

/// A lexical token: something that can say whether it may begin at the cursor (`peek`), and
/// then consume itself from the stream (`lex`).
///
/// Every token consumes at least one character, and its span is exactly the characters it
/// consumed.
pub trait LexT: Sized + Spanned {
    /// Whether a token of this type may begin at index `pos` of `chars`.
    spec fn spec_peek(chars: Seq<char>, pos: int) -> bool;

    /// When lexing from `pos` of `chars` (where a token may begin) ends in an error.
    spec fn spec_errs(chars: Seq<char>, pos: int) -> bool;

    /// What a token `tok`, lexed from the characters `[pos, end)` of `chars`, says of them.
    spec fn spec_lexed(chars: Seq<char>, pos: int, end: int, tok: Self) -> bool;

    /// Whether a token of this type may begin at the cursor; the stream is left as it is.
    fn peek(input: &SourceStream) -> (r: bool)
        requires
            input.wf(),
        ensures
            r == Self::spec_peek(input.chars(), input.pos()),
    ;

    /// Consumes a token, once `peek` has said one may begin here; an error when the input
    /// breaks the token's grammar after it began.
    fn lex(input: &mut SourceStream) -> (r: Result<Self, LexError>)
        requires
            old(input).wf(),
            Self::spec_peek(old(input).chars(), old(input).pos()),
        ensures
            final(input).wf(),
            final(input).same_source(old(input)),
            old(input).pos() <= final(input).pos(),
            r is Err <==> Self::spec_errs(old(input).chars(), old(input).pos()),
            r matches Ok(t) ==> t.spec_span() == span_of(old(input).pos(), final(input).pos())
                && old(input).pos() < final(input).pos() && Self::spec_lexed(
                old(input).chars(),
                old(input).pos(),
                final(input).pos(),
                t,
            ),
    ;
}

/// Each of `toks` says of the characters it covers what `L` says of its tokens.
pub open spec fn all_lexed<L: LexT>(chars: Seq<char>, toks: Seq<L>) -> bool {
    forall|i: int|
        0 <= i < toks.len() ==> L::spec_lexed(
            chars,
            toks[i].spec_span().start.0 as int,
            toks[i].spec_span().end.0 as int,
            #[trigger] toks[i],
        )
}

/// The outcome of a peek: the token may be there, or it is absent.
pub enum Peek<T> {
    /// The token may begin here.
    Possible(core::marker::PhantomData<T>),
    /// The token cannot begin here.
    Absent,
}

impl<L: LexT> Peek<L> {
    /// Peeks for an `L` at the cursor.
    pub fn at(input: &SourceStream) -> (r: Peek<L>)
        requires
            input.wf(),
        ensures
            r is Possible <==> L::spec_peek(input.chars(), input.pos()),
    {
        if L::peek(input) {
            Peek::Possible(core::marker::PhantomData)
        } else {
            Peek::Absent
        }
    }

    /// Lexes an `L` if this peek said one may be there; [LexResult::Nothing] otherwise.
    pub fn then_lex(self, input: &mut SourceStream) -> (r: LexResult<L>)
        requires
            old(input).wf(),
            self is Possible ==> L::spec_peek(old(input).chars(), old(input).pos()),
        ensures
            final(input).wf(),
            final(input).same_source(old(input)),
            old(input).pos() <= final(input).pos(),
            self is Absent ==> r is Nothing && *final(input) == *old(input),
            self is Possible ==> !(r is Nothing) && (r is Errant <==> L::spec_errs(
                old(input).chars(),
                old(input).pos(),
            )),
            r matches LexResult::Lexed(t) ==> t.spec_span() == span_of(
                old(input).pos(),
                final(input).pos(),
            ) && old(input).pos() < final(input).pos() && L::spec_lexed(
                old(input).chars(),
                old(input).pos(),
                final(input).pos(),
                t,
            ),
    {
        match self {
            Peek::Possible(_) => match L::lex(input) {
                Ok(lexed) => LexResult::Lexed(lexed),
                Err(errant) => LexResult::Errant(errant),
            },
            Peek::Absent => LexResult::Nothing,
        }
    }
}

impl<'a> SourceStream<'a> {
    /// Attempts to lex an `L` at the cursor.
    ///
    /// A lexed token covers exactly the characters consumed, which lie within the source;
    /// the cursor advanced by exactly the token's length. When `L` cannot begin here the
    /// result is [LexResult::Nothing] and the stream is unchanged.
    pub fn lex<L: LexT>(&mut self) -> (r: LexResult<L>)
        requires
            old(self).wf(),
        ensures
            final(self).wf(),
            final(self).same_source(old(self)),
            !L::spec_peek(old(self).chars(), old(self).pos()) <==> r is Nothing,
            r is Nothing ==> *final(self) == *old(self),
            r matches LexResult::Lexed(t) ==> {
                &&& t.spec_span() == span_of(old(self).pos(), final(self).pos())
                &&& 0 <= t.spec_span().start.0 < t.spec_span().end.0 <= old(self).chars().len()
                &&& final(self).pos() - old(self).pos() == t.spec_span().spec_len()
                &&& old(self).chars().subrange(t.spec_span().start.0 as int, t.spec_span().end.0 as int)
                    == old(self).chars().subrange(old(self).pos(), final(self).pos())
                &&& L::spec_lexed(old(self).chars(), old(self).pos(), final(self).pos(), t)
            },
            r is Errant ==> old(self).pos() <= final(self).pos(),
            L::spec_peek(old(self).chars(), old(self).pos()) ==> (r is Errant <==> L::spec_errs(
                old(self).chars(),
                old(self).pos(),
            )),
    {
        Peek::<L>::at(self).then_lex(self)
    }
}

/// `toks` lie side by side, each non-empty, covering exactly `[from, to)`.
pub open spec fn tiles<L: Spanned>(toks: Seq<L>, from: int, to: int) -> bool {
    &&& toks.len() == 0 ==> from == to
    &&& toks.len() > 0 ==> toks[0].spec_span().start.0 == from && toks.last().spec_span().end.0
        == to
    &&& forall|i: int|
        0 <= i < toks.len() ==> (#[trigger] toks[i].spec_span()).start.0 < toks[i].spec_span().end.0
    &&& forall|i: int|
        0 <= i < toks.len() - 1 ==> (#[trigger] toks[i].spec_span()).end == toks[i
            + 1].spec_span().start
}

/// A run of `L` covers `[from, p)`, and at `p` (at or before `to`) an `L` begins whose lexing
/// fails: how a run of `L` ends in an error.
pub open spec fn failed_after_run<L: LexT>(chars: Seq<char>, from: int, to: int) -> bool {
    exists|p: int, v: Seq<L>|
        #![trigger tiles(v, from, p), L::spec_errs(chars, p)]
        from <= p <= to && tiles(v, from, p) && all_lexed(chars, v) && L::spec_peek(chars, p)
            && L::spec_errs(chars, p)
}

/// Zero or more of a token.
pub type Many<L> = Vec<L>;

/// Lexes as many `L` as follow one another: the longest run, stopping where no further `L`
/// may begin. Never [LexResult::Nothing]; an error in any element is the error of the whole.
pub fn lex_many<L: LexT>(input: &mut SourceStream) -> (r: LexResult<Vec<L>>)
    requires
        old(input).wf(),
    ensures
        final(input).wf(),
        final(input).same_source(old(input)),
        old(input).pos() <= final(input).pos(),
        !(r is Nothing),
        r matches LexResult::Lexed(v) ==> tiles(v@, old(input).pos(), final(input).pos())
            && !L::spec_peek(final(input).chars(), final(input).pos()) && all_lexed(
            old(input).chars(),
            v@,
        ),
        r is Errant ==> failed_after_run::<L>(old(input).chars(), old(input).pos(), final(input).pos()),
{
    let mut v: Vec<L> = Vec::new();
    loop
        invariant
            input.wf(),
            input.same_source(old(input)),
            old(input).pos() <= input.pos(),
            tiles(v@, old(input).pos(), input.pos()),
            all_lexed(old(input).chars(), v@),
        decreases input.chars().len() - input.pos(),
    {
        let ghost before = *input;
        let ghost run = v@;
        match input.lex::<L>() {
            LexResult::Lexed(lexed) => {
                let ghost prev = v@;
                v.push(lexed);
                assert(v@.drop_last() == prev);
                assert forall|i: int| 0 <= i < v@.len() - 1 implies (#[trigger] v@[i].spec_span()).end
                    == v@[i + 1].spec_span().start by {
                    if i == v@.len() - 2 {
                        assert(prev.last() == v@[i]);
                    }
                }
                assert forall|i: int| 0 <= i < v@.len() implies L::spec_lexed(
                    old(input).chars(),
                    v@[i].spec_span().start.0 as int,
                    v@[i].spec_span().end.0 as int,
                    #[trigger] v@[i],
                ) by {
                    if i < prev.len() {
                        assert(v@[i] == prev[i]);
                    }
                }
            },
            LexResult::Errant(errant) => {
                assert(tiles(run, old(input).pos(), before.pos()) && all_lexed(
                    old(input).chars(),
                    run,
                ));
                return LexResult::Errant(errant);
            },
            LexResult::Nothing => return LexResult::Lexed(v),
        }
    }
}

/// At least `N` of a token, side by side.
#[derive(Debug)]
pub struct AtLeast<const N: usize, L> {
    items: Vec<L>,
    span: Span,
}

impl<const N: usize, L> AtLeast<N, L> {
    /// The tokens.
    pub closed spec fn spec_items(&self) -> Seq<L> {
        self.items@
    }

    /// The tokens.
    pub fn items(&self) -> (r: &Vec<L>)
        ensures
            r@ == self.spec_items(),
    {
        &self.items
    }

    /// How many tokens there are.
    pub fn len(&self) -> (r: usize)
        ensures
            r == self.spec_items().len(),
    {
        self.items.len()
    }
}

impl<const N: usize, L> Spanned for AtLeast<N, L> {
    closed spec fn spec_span(&self) -> Span {
        self.span
    }

    fn span(&self) -> (r: Span) {
        self.span
    }
}

impl<const N: usize, L: LexT> AtLeast<N, L> {
    /// Whether at least `N` tokens may follow: always, when `N` is `0`.
    pub fn peek(input: &SourceStream) -> (r: bool)
        requires
            input.wf(),
        ensures
            r == (N == 0 || L::spec_peek(input.chars(), input.pos())),
    {
        N == 0 || L::peek(input)
    }

    /// Lexes the longest run of `L`; an error when it holds fewer than `N`.
    pub fn lex(input: &mut SourceStream) -> (r: LexResult<Self>)
        requires
            old(input).wf(),
        ensures
            final(input).wf(),
            final(input).same_source(old(input)),
            old(input).pos() <= final(input).pos(),
            !(r is Nothing),
            r matches LexResult::Lexed(a) ==> a.spec_items().len() >= N && tiles(
                a.spec_items(),
                old(input).pos(),
                final(input).pos(),
            ) && a.spec_span() == span_of(old(input).pos(), final(input).pos()) && !L::spec_peek(
                final(input).chars(),
                final(input).pos(),
            ) && all_lexed(old(input).chars(), a.spec_items()),
            r is Errant ==> failed_after_run::<L>(old(input).chars(), old(input).pos(), final(input).pos())
                || exists|v: Seq<L>|
                #![trigger tiles(v, old(input).pos(), final(input).pos())]
                tiles(v, old(input).pos(), final(input).pos()) && all_lexed(old(input).chars(), v)
                    && !L::spec_peek(final(input).chars(), final(input).pos()) && v.len() < N,
    {
        let start = input.index();
        match lex_many::<L>(input) {
            LexResult::Lexed(many) => {
                if many.len() < N {
                    LexResult::Errant(input.error("Expected more tokens here."))
                } else {
                    LexResult::Lexed(AtLeast { items: many, span: Span::new(start, input.index()) })
                }
            },
            LexResult::Errant(e) => LexResult::Errant(e),
            LexResult::Nothing => LexResult::Nothing,
        }
    }
}

/// Exactly `N` of a token, side by side.
#[derive(Debug)]
pub struct Exactly<const N: usize, L> {
    items: Vec<L>,
    span: Span,
}

impl<const N: usize, L> Exactly<N, L> {
    /// The tokens.
    pub closed spec fn spec_items(&self) -> Seq<L> {
        self.items@
    }

    /// The tokens.
    pub fn items(&self) -> (r: &Vec<L>)
        ensures
            r@ == self.spec_items(),
    {
        &self.items
    }
}

impl<const N: usize, L> Spanned for Exactly<N, L> {
    closed spec fn spec_span(&self) -> Span {
        self.span
    }

    fn span(&self) -> (r: Span) {
        self.span
    }
}

impl<const N: usize, L: LexT> Exactly<N, L> {
    /// Whether `N` tokens may follow: always, when `N` is `0`.
    pub fn peek(input: &SourceStream) -> (r: bool)
        requires
            input.wf(),
        ensures
            r == (N == 0 || L::spec_peek(input.chars(), input.pos())),
    {
        N == 0 || L::peek(input)
    }

    /// Lexes the longest run of `L`; an error when it does not hold exactly `N`.
    pub fn lex(input: &mut SourceStream) -> (r: LexResult<Self>)
        requires
            old(input).wf(),
        ensures
            final(input).wf(),
            final(input).same_source(old(input)),
            old(input).pos() <= final(input).pos(),
            !(r is Nothing),
            r matches LexResult::Lexed(a) ==> a.spec_items().len() == N && tiles(
                a.spec_items(),
                old(input).pos(),
                final(input).pos(),
            ) && a.spec_span() == span_of(old(input).pos(), final(input).pos()) && !L::spec_peek(
                final(input).chars(),
                final(input).pos(),
            ) && all_lexed(old(input).chars(), a.spec_items()),
            r is Errant ==> failed_after_run::<L>(old(input).chars(), old(input).pos(), final(input).pos())
                || exists|v: Seq<L>|
                #![trigger tiles(v, old(input).pos(), final(input).pos())]
                tiles(v, old(input).pos(), final(input).pos()) && all_lexed(old(input).chars(), v)
                    && !L::spec_peek(final(input).chars(), final(input).pos()) && v.len() != N,
    {
        let start = input.index();
        match lex_many::<L>(input) {
            LexResult::Lexed(many) => {
                if many.len() != N {
                    LexResult::Errant(input.error("Expected a different number of tokens here."))
                } else {
                    LexResult::Lexed(Exactly { items: many, span: Span::new(start, input.index()) })
                }
            },
            LexResult::Errant(e) => LexResult::Errant(e),
            LexResult::Nothing => LexResult::Nothing,
        }
    }
}

/// A fixed sequence of characters, matched exactly.
#[derive(Debug, Clone, Copy)]
pub struct Verbatim {
    span: Span,
}

impl Spanned for Verbatim {
    closed spec fn spec_span(&self) -> Span {
        self.span
    }

    fn span(&self) -> (r: Span) {
        self.span
    }
}

impl Verbatim {
    /// Whether `literal` comes next.
    pub fn peek(input: &SourceStream, literal: &str) -> (r: bool)
        requires
            input.wf(),
        ensures
            r == upcoming_at(input.chars(), input.pos(), literal@),
    {
        input.upcoming(literal)
    }

    /// Consumes `literal` if it comes next.
    pub fn lex(input: &mut SourceStream, literal: &str) -> (r: LexResult<Verbatim>)
        requires
            old(input).wf(),
        ensures
            final(input).wf(),
            final(input).same_source(old(input)),
            upcoming_at(old(input).chars(), old(input).pos(), literal@) ==> (r matches LexResult::Lexed(v)
                && v.spec_span() == span_of(old(input).pos(), final(input).pos())
                && final(input).pos() == old(input).pos() + literal@.len()),
            !upcoming_at(old(input).chars(), old(input).pos(), literal@) ==> r is Nothing
                && *final(input) == *old(input),
    {
        let want = chars_of(literal);
        if !input.upcoming_chars(want.as_slice()) {
            return LexResult::Nothing;
        }
        let start = input.index();
        input.advance(want.len());
        LexResult::Lexed(Verbatim { span: Span::new(start, input.index()) })
    }
}

/// A single character within a range.
#[derive(Debug, Clone, Copy)]
pub struct CharPattern {
    raw: char,
    span: Span,
}

impl Spanned for CharPattern {
    closed spec fn spec_span(&self) -> Span {
        self.span
    }

    fn span(&self) -> (r: Span) {
        self.span
    }
}

impl CharPattern {
    /// The character matched.
    pub closed spec fn spec_raw(&self) -> char {
        self.raw
    }

    /// The character matched.
    pub fn raw(&self) -> (r: char)
        ensures
            r == self.spec_raw(),
    {
        self.raw
    }

    /// Whether the next character lies in `range`.
    pub fn peek(input: &SourceStream, range: &CharacterRange) -> (r: bool)
        requires
            input.wf(),
        ensures
            r == (input.pos() < input.chars().len() && range.spec_contains(
                input.chars()[input.pos()],
            )),
    {
        input.upcoming_range(range)
    }

    /// Consumes the next character if it lies in `range`.
    pub fn lex(input: &mut SourceStream, range: &CharacterRange) -> (r: LexResult<CharPattern>)
        requires
            old(input).wf(),
        ensures
            final(input).wf(),
            final(input).same_source(old(input)),
            old(input).pos() < old(input).chars().len() && range.spec_contains(
                old(input).chars()[old(input).pos()],
            ) ==> (r matches LexResult::Lexed(p) && p.spec_raw() == old(input).chars()[old(
                input,
            ).pos()] && p.spec_span() == span_of(old(input).pos(), old(input).pos() + 1)
                && final(input).pos() == old(input).pos() + 1),
            !(old(input).pos() < old(input).chars().len() && range.spec_contains(
                old(input).chars()[old(input).pos()],
            )) ==> r is Nothing && *final(input) == *old(input),
    {
        if !input.upcoming_range(range) {
            return LexResult::Nothing;
        }
        match input.take() {
            Some((loc, raw)) => LexResult::Lexed(CharPattern { raw, span: Span::new(loc.0, loc.0 + 1) }),
            None => LexResult::Nothing,
        }
    }

    /// Consumes the longest run of characters within `range`.
    pub fn lex_many(input: &mut SourceStream, range: &CharacterRange) -> (r: Vec<CharPattern>)
        requires
            old(input).wf(),
        ensures
            final(input).wf(),
            final(input).same_source(old(input)),
            tiles(r@, old(input).pos(), final(input).pos()),
            forall|i: int| 0 <= i < r@.len() ==> range.spec_contains(#[trigger] r@[i].spec_raw()),
            !(final(input).pos() < final(input).chars().len() && range.spec_contains(
                final(input).chars()[final(input).pos()],
            )),
    {
        let mut v: Vec<CharPattern> = Vec::new();
        loop
            invariant
                input.wf(),
                input.same_source(old(input)),
                old(input).pos() <= input.pos(),
                tiles(v@, old(input).pos(), input.pos()),
                forall|i: int| 0 <= i < v@.len() ==> range.spec_contains(#[trigger] v@[i].spec_raw()),
            decreases input.chars().len() - input.pos(),
        {
            match CharPattern::lex(input, range) {
                LexResult::Lexed(p) => {
                    let ghost prev = v@;
                    v.push(p);
                    assert forall|i: int| 0 <= i < v@.len() - 1 implies (#[trigger] v@[i].spec_span()).end
                        == v@[i + 1].spec_span().start by {
                        if i == v@.len() - 2 {
                            assert(prev.last() == v@[i]);
                        }
                    }
                },
                _ => return v,
            }
        }
    }
}

} // verus!

verus! {

/// A single character whose Unicode minor category is one of a given list.
#[derive(Debug, Clone, Copy)]
pub struct MatchMinorCategory {
    span: Span,
    raw: char,
}

/// A single character whose Unicode major category is one of a given list.
#[derive(Debug, Clone, Copy)]
pub struct MatchMajorCategory {
    span: Span,
    raw: char,
}

impl Spanned for MatchMinorCategory {
    closed spec fn spec_span(&self) -> Span {
        self.span
    }

    fn span(&self) -> (r: Span) {
        self.span
    }
}

impl Spanned for MatchMajorCategory {
    closed spec fn spec_span(&self) -> Span {
        self.span
    }

    fn span(&self) -> (r: Span) {
        self.span
    }
}

/// Whether the character at `pos` of `chars` has one of the minor categories `cats`.
pub open spec fn minor_at(chars: Seq<char>, pos: int, cats: Seq<MinorCategory>) -> bool {
    0 <= pos < chars.len() && cats.contains(minor_category(chars[pos]))
}

/// Whether the character at `pos` of `chars` has one of the major categories `cats`.
pub open spec fn major_at(chars: Seq<char>, pos: int, cats: Seq<MajorCategory>) -> bool {
    0 <= pos < chars.len() && cats.contains(major_category(chars[pos]))
}

impl MatchMinorCategory {
    /// The character matched.
    pub closed spec fn spec_raw(&self) -> char {
        self.raw
    }

    /// The character matched.
    pub fn raw(&self) -> (r: char)
        ensures
            r == self.spec_raw(),
    {
        self.raw
    }

    /// Whether the next character has one of the minor categories `cats`.
    pub fn peek(input: &SourceStream, cats: &[MinorCategory]) -> (r: bool)
        requires
            input.wf(),
        ensures
            r == minor_at(input.chars(), input.pos(), cats@),
    {
        match input.peek() {
            Some(c) => minor_listed(cats, minor_category_of(c)),
            None => false,
        }
    }

    /// Consumes the next character if it has one of the minor categories `cats`.
    pub fn lex(input: &mut SourceStream, cats: &[MinorCategory]) -> (r: LexResult<MatchMinorCategory>)
        requires
            old(input).wf(),
        ensures
            final(input).wf(),
            final(input).same_source(old(input)),
            minor_at(old(input).chars(), old(input).pos(), cats@) ==> (r matches LexResult::Lexed(m)
                && m.spec_raw() == old(input).chars()[old(input).pos()] && m.spec_span() == span_of(
                old(input).pos(),
                old(input).pos() + 1,
            ) && final(input).pos() == old(input).pos() + 1),
            !minor_at(old(input).chars(), old(input).pos(), cats@) ==> r is Nothing && *final(input)
                == *old(input),
    {
        if !Self::peek(input, cats) {
            return LexResult::Nothing;
        }
        let start = input.index();
        match input.take() {
            Some((_, raw)) => LexResult::Lexed(MatchMinorCategory { span: Span::new(start, start + 1), raw }),
            None => LexResult::Nothing,
        }
    }

    /// Consumes the longest run of characters with one of the minor categories `cats`.
    pub fn lex_many(input: &mut SourceStream, cats: &[MinorCategory]) -> (r: Vec<MatchMinorCategory>)
        requires
            old(input).wf(),
        ensures
            final(input).wf(),
            final(input).same_source(old(input)),
            tiles(r@, old(input).pos(), final(input).pos()),
            forall|i: int|
                0 <= i < r@.len() ==> cats@.contains(minor_category(#[trigger] r@[i].spec_raw())),
            !minor_at(final(input).chars(), final(input).pos(), cats@),
    {
        let mut v: Vec<MatchMinorCategory> = Vec::new();
        loop
            invariant
                input.wf(),
                input.same_source(old(input)),
                old(input).pos() <= input.pos(),
                tiles(v@, old(input).pos(), input.pos()),
                forall|i: int|
                    0 <= i < v@.len() ==> cats@.contains(minor_category(#[trigger] v@[i].spec_raw())),
            decreases input.chars().len() - input.pos(),
        {
            match Self::lex(input, cats) {
                LexResult::Lexed(m) => {
                    let ghost prev = v@;
                    v.push(m);
                    assert forall|i: int| 0 <= i < v@.len() - 1 implies (#[trigger] v@[i].spec_span()).end
                        == v@[i + 1].spec_span().start by {
                        if i == v@.len() - 2 {
                            assert(prev.last() == v@[i]);
                        }
                    }
                },
                _ => return v,
            }
        }
    }
}

impl MatchMajorCategory {
    /// The character matched.
    pub closed spec fn spec_raw(&self) -> char {
        self.raw
    }

    /// The character matched.
    pub fn raw(&self) -> (r: char)
        ensures
            r == self.spec_raw(),
    {
        self.raw
    }

    /// Whether the next character has one of the major categories `cats`.
    pub fn peek(input: &SourceStream, cats: &[MajorCategory]) -> (r: bool)
        requires
            input.wf(),
        ensures
            r == major_at(input.chars(), input.pos(), cats@),
    {
        match input.peek() {
            Some(c) => major_listed(cats, major_category_of(c)),
            None => false,
        }
    }

    /// Consumes the next character if it has one of the major categories `cats`.
    pub fn lex(input: &mut SourceStream, cats: &[MajorCategory]) -> (r: LexResult<MatchMajorCategory>)
        requires
            old(input).wf(),
        ensures
            final(input).wf(),
            final(input).same_source(old(input)),
            major_at(old(input).chars(), old(input).pos(), cats@) ==> (r matches LexResult::Lexed(m)
                && m.spec_raw() == old(input).chars()[old(input).pos()] && m.spec_span() == span_of(
                old(input).pos(),
                old(input).pos() + 1,
            ) && final(input).pos() == old(input).pos() + 1),
            !major_at(old(input).chars(), old(input).pos(), cats@) ==> r is Nothing && *final(input)
                == *old(input),
    {
        if !Self::peek(input, cats) {
            return LexResult::Nothing;
        }
        let start = input.index();
        match input.take() {
            Some((_, raw)) => LexResult::Lexed(MatchMajorCategory { span: Span::new(start, start + 1), raw }),
            None => LexResult::Nothing,
        }
    }
}

} // verus!
