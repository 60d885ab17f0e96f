//! A cursor over a source file's characters.

use vstd::prelude::*;

use crate::location::{span_of, Loc, Span};
use crate::result::LexError;
use crate::source::{chars_of, string_from_chars, SourceFile};

verus! {

/// Whether `lit` occurs in `chars` starting at `pos`.
pub open spec fn upcoming_at(chars: Seq<char>, pos: int, lit: Seq<char>) -> bool {
    0 <= pos && pos + lit.len() <= chars.len() && chars.subrange(pos, pos + lit.len()) == lit
}

/// The character at `pos`, if there is one.
pub open spec fn char_at(chars: Seq<char>, pos: int) -> Option<char> {
    if 0 <= pos < chars.len() {
        Some(chars[pos])
    } else {
        None
    }
}

/// A half-open range of characters, `[start, end)`.
#[derive(Debug, Clone, Copy, PartialEq, Eq, Structural)]
pub struct CharacterRange {
    /// Inclusive start.
    pub start: char,
    /// Exclusive end.
    pub end: char,
}

impl CharacterRange {
    /// Whether `c` lies in this range.
    pub open spec fn spec_contains(self, c: char) -> bool {
        self.start <= c && c < self.end
    }

    /// Whether `c` lies in this range.
    pub fn contains(&self, c: char) -> (r: bool)
        ensures
            r == self.spec_contains(c),
    {
        self.start <= c && c < self.end
    }
}

/// A cursor over the characters of a [SourceFile]; cheap to copy, so that a lexer can try
/// something on a copy and adopt the copy's position only if it worked.
#[derive(Debug, Clone, Copy)]
pub struct SourceStream<'a> {
    index: usize,
    source: &'a SourceFile,
}

impl<'a> SourceStream<'a> {
    /// The cursor's position: the index of the next character.
    pub closed spec fn pos(&self) -> int {
        self.index as int
    }

    /// The characters of the underlying source.
    pub closed spec fn chars(&self) -> Seq<char> {
        self.source.spec_chars()
    }

    /// The underlying source.
    pub closed spec fn spec_source(&self) -> SourceFile {
        *self.source
    }

    pub open spec fn wf(&self) -> bool {
        0 <= self.pos() <= self.chars().len() < usize::MAX
    }

    /// Whether `other` runs over the same source as this stream.
    pub open spec fn same_source(&self, other: &SourceStream) -> bool {
        self.spec_source() == other.spec_source() && self.chars() == other.chars()
    }

    /// A stream at the start of `source`.
    pub fn new(source: &'a SourceFile) -> (r: SourceStream<'a>)
        requires
            source.wf(),
        ensures
            r.wf(),
            r.pos() == 0,
            r.spec_source() == *source,
            r.chars() == source.spec_chars(),
    {
        proof {
            source.lemma_wf_len();
        }
        SourceStream { index: 0, source }
    }

    /// The source this stream runs over.
    pub fn source(&self) -> (r: &'a SourceFile)
        ensures
            *r == self.spec_source(),
    {
        self.source
    }

    /// The cursor's position.
    pub fn index(&self) -> (r: usize)
        ensures
            r == self.pos(),
    {
        self.index
    }

    /// Whether the cursor has reached the end of the input.
    pub fn at_end(&self) -> (r: bool)
        requires
            self.wf(),
        ensures
            r == (self.pos() == self.chars().len()),
    {
        self.index >= self.source.characters().len()
    }

    /// Moves the cursor to the position of `other`, a stream over the same source.
    pub fn advance_to(&mut self, other: &SourceStream<'a>)
        requires
            other.wf(),
            other.same_source(old(self)),
        ensures
            final(self).wf(),
            final(self).same_source(old(self)),
            final(self).pos() == other.pos(),
    {
        self.index = other.index;
    }

    /// The upcoming character, without consuming it.
    pub fn peek(&self) -> (r: Option<char>)
        requires
            self.wf(),
        ensures
            r == char_at(self.chars(), self.pos()),
    {
        let chars = self.source.characters();
        if self.index < chars.len() {
            Some(chars[self.index])
        } else {
            None
        }
    }

    /// The character `k` places past the cursor, without consuming anything.
    pub fn peek_n(&self, k: usize) -> (r: Option<char>)
        requires
            self.wf(),
        ensures
            r == char_at(self.chars(), self.pos() + k),
    {
        let chars = self.source.characters();
        if k < chars.len() - self.index {
            Some(chars[self.index + k])
        } else {
            None
        }
    }

    /// Consumes the next character, returning it with its location.
    pub fn take(&mut self) -> (r: Option<(Loc, char)>)
        requires
            old(self).wf(),
        ensures
            final(self).wf(),
            final(self).same_source(old(self)),
            old(self).pos() < old(self).chars().len() ==> r == Some(
                (Loc(old(self).pos() as usize), old(self).chars()[old(self).pos()]),
            ) && final(self).pos() == old(self).pos() + 1,
            old(self).pos() >= old(self).chars().len() ==> r is None && *final(self) == *old(
                self,
            ),
    {
        let chars = self.source.characters();
        if self.index < chars.len() {
            let at = self.index;
            self.index = self.index + 1;
            Some((Loc(at), chars[at]))
        } else {
            None
        }
    }

    /// Consumes characters while they satisfy `pred`: the span and the characters taken, or
    /// `None` (consuming nothing) when the next character does not satisfy it.
    pub fn take_while<F: Fn(char) -> bool>(&mut self, pred: F) -> (r: Option<(Span, Vec<char>)>)
        requires
            old(self).wf(),
            forall|c: char| pred.requires((c,)),
        ensures
            final(self).wf(),
            final(self).same_source(old(self)),
            old(self).pos() <= final(self).pos(),
            forall|k: int|
                old(self).pos() <= k < final(self).pos() ==> pred.ensures(
                    (#[trigger] old(self).chars()[k],),
                    true,
                ),
            final(self).pos() < old(self).chars().len() ==> pred.ensures(
                (old(self).chars()[final(self).pos()],),
                false,
            ),
            r is None <==> final(self).pos() == old(self).pos(),
            r matches Some((span, taken)) ==> span == span_of(old(self).pos(), final(self).pos())
                && taken@ == old(self).chars().subrange(old(self).pos(), final(self).pos()),
    {
        let chars = self.source.characters();
        let total = chars.len();
        let start = self.index;
        let mut taken: Vec<char> = Vec::new();
        let mut done = false;
        while !done && self.index < total
            invariant
                chars@ == self.chars(),
                total == chars@.len(),
                self.wf(),
                self.same_source(old(self)),
                start == old(self).pos(),
                start <= self.pos(),
                forall|c: char| pred.requires((c,)),
                forall|k: int| start <= k < self.pos() ==> pred.ensures(
                    (#[trigger] chars@[k],),
                    true,
                ),
                done ==> self.pos() < total && pred.ensures((chars@[self.pos()],), false),
                taken@ == chars@.subrange(start as int, self.pos()),
            decreases total - self.pos() + (if done { 0int } else { 1int }),
        {
            let ch = chars[self.index];
            if pred(ch) {
                taken.push(ch);
                self.index = self.index + 1;
                assert(taken@ =~= chars@.subrange(start as int, self.pos()));
            } else {
                done = true;
            }
        }
        if taken.len() == 0 {
            None
        } else {
            Some((Span::new(start, self.index), taken))
        }
    }

    /// A stream over the same source, positioned at `k`.
    pub closed spec fn at(&self, k: int) -> SourceStream<'a> {
        SourceStream { index: k as usize, source: self.source }
    }

    /// A stream positioned at `k` runs over the same characters and is at `k`.
    pub proof fn lemma_at(&self, k: int)
        requires
            self.wf(),
            0 <= k <= self.chars().len(),
        ensures
            self.at(k).pos() == k,
            self.at(k).wf(),
            self.at(k).same_source(self),
    {
    }

    /// Consumes characters until `stop` holds of the stream (or the input ends): the span and
    /// the characters taken, or `None` when nothing was taken.
    pub fn take_until<F: Fn(&SourceStream<'a>) -> bool>(&mut self, stop: F) -> (r: Option<(Span, Vec<char>)>)
        requires
            old(self).wf(),
            forall|s: SourceStream<'a>| s.wf() && s.same_source(old(self)) ==> stop.requires((&s,)),
        ensures
            final(self).wf(),
            final(self).same_source(old(self)),
            *final(self) == old(self).at(final(self).pos()),
            old(self).pos() <= final(self).pos(),
            forall|k: int|
                old(self).pos() <= k < final(self).pos() ==> stop.ensures(
                    (&#[trigger] old(self).at(k),),
                    false,
                ),
            final(self).pos() < old(self).chars().len() ==> stop.ensures((&*final(self),), true),
            r is None <==> final(self).pos() == old(self).pos(),
            r matches Some((span, taken)) ==> span == span_of(old(self).pos(), final(self).pos())
                && taken@ == old(self).chars().subrange(old(self).pos(), final(self).pos()),
    {
        let chars = self.source.characters();
        let total = chars.len();
        let start = self.index;
        let mut taken: Vec<char> = Vec::new();
        let mut done = false;
        while !done && self.index < total
            invariant
                chars@ == self.chars(),
                total == chars@.len(),
                self.wf(),
                self.same_source(old(self)),
                *self == old(self).at(self.pos()),
                start == old(self).pos(),
                start <= self.pos(),
                forall|s: SourceStream<'a>| s.wf() && s.same_source(old(self)) ==> stop.requires((&s,)),
                forall|k: int| start <= k < self.pos() ==> stop.ensures(
                    (&#[trigger] old(self).at(k),),
                    false,
                ),
                done ==> self.pos() < total && stop.ensures((&*self,), true),
                taken@ == chars@.subrange(start as int, self.pos()),
            decreases total - self.pos() + (if done { 0int } else { 1int }),
        {
            let here = *self;
            if stop(&here) {
                done = true;
            } else {
                let ch = chars[self.index];
                taken.push(ch);
                self.index = self.index + 1;
                assert(taken@ =~= chars@.subrange(start as int, self.pos()));
            }
        }
        if taken.len() == 0 {
            None
        } else {
            Some((Span::new(start, self.index), taken))
        }
    }

    /// Moves the cursor `n` characters forward.
    pub fn advance(&mut self, n: usize)
        requires
            old(self).wf(),
            old(self).pos() + n <= old(self).chars().len(),
        ensures
            final(self).wf(),
            final(self).same_source(old(self)),
            final(self).pos() == old(self).pos() + n,
    {
        self.index = self.index + n;
    }

    /// Whether the characters of `lit` come next.
    pub fn upcoming(&self, lit: &str) -> (r: bool)
        requires
            self.wf(),
        ensures
            r == upcoming_at(self.chars(), self.pos(), lit@),
    {
        let want = chars_of(lit);
        self.upcoming_chars(want.as_slice())
    }

    /// Whether the characters of `lit` come next.
    pub fn upcoming_chars(&self, lit: &[char]) -> (r: bool)
        requires
            self.wf(),
        ensures
            r == upcoming_at(self.chars(), self.pos(), lit@),
    {
        let chars = self.source.characters();
        let total = chars.len();
        if lit.len() > total - self.index {
            return false;
        }
        let mut k: usize = 0;
        while k < lit.len()
            invariant
                chars@ == self.chars(),
                total == chars@.len(),
                self.wf(),
                lit@.len() <= chars@.len() - self.pos(),
                k <= lit@.len(),
                forall|j: int| 0 <= j < k ==> chars@[self.pos() + j] == lit@[j],
            decreases lit@.len() - k,
        {
            if chars[self.index + k] != lit[k] {
                assert(chars@.subrange(self.pos(), self.pos() + lit@.len())[k as int] != lit@[k as int]);
                return false;
            }
            k += 1;
        }
        assert(chars@.subrange(self.pos(), self.pos() + lit@.len()) =~= lit@);
        true
    }

    /// Whether the next character lies in `range`.
    pub fn upcoming_range(&self, range: &CharacterRange) -> (r: bool)
        requires
            self.wf(),
        ensures
            r == (self.pos() < self.chars().len() && range.spec_contains(self.chars()[self.pos()])),
    {
        match self.peek() {
            Some(c) => range.contains(c),
            None => false,
        }
    }

    /// The text from the cursor to the end of the source.
    pub fn left(&self) -> (r: Option<String>)
        requires
            self.wf(),
        ensures
            r matches Some(s) && s@ == self.chars().subrange(self.pos(), self.chars().len() as int),
    {
        let chars = self.source.characters();
        Some(string_from_chars(&chars[self.index..chars.len()]))
    }

    /// The one-character span at the cursor, where errors found there are reported.
    pub fn span(&self) -> (r: Span)
        requires
            self.wf(),
        ensures
            r == self.spec_cursor_span(),
    {
        Span::new(self.index, self.index + 1)
    }

    /// The one-character span at the cursor (just past the input at its end).
    pub open spec fn spec_cursor_span(&self) -> Span {
        span_of(self.pos(), self.pos() + 1)
    }

    /// An error with `message`, located at the cursor.
    pub fn error(&self, message: &str) -> (r: LexError)
        requires
            self.wf(),
        ensures
            r.span == self.spec_cursor_span(),
            r.message@ == message@,
    {
        LexError::new(self.span(), message)
    }
}

} // verus!

verus! {

impl SourceFile {
    /// A stream at the start of this file.
    pub fn stream(&self) -> (r: SourceStream<'_>)
        requires
            self.wf(),
        ensures
            r.wf(),
            r.pos() == 0,
            r.spec_source() == *self,
            r.chars() == self.spec_chars(),
    {
        SourceStream::new(self)
    }
}

} // verus!
