//! Character positions and half-open ranges of them.

use vstd::prelude::*;

verus! {

/// The index of a character in a source's character array.
#[derive(Debug, Clone, Copy, PartialEq, Eq, Structural, PartialOrd, Ord, Hash)]
pub struct Loc(pub usize);

/// A half-open range `[start, end)` of character indices.
///
/// Well-formed spans have `start <= end`.
#[derive(Debug, Clone, Copy, PartialEq, Eq, Structural, PartialOrd, Ord, Hash)]
pub struct Span {
    /// Inclusive lower bound.
    pub start: Loc,
    /// Exclusive upper bound.
    pub end: Loc,
}

/// The span `[start, end)`.
pub open spec fn span_of(start: int, end: int) -> Span {
    Span { start: Loc(start as usize), end: Loc(end as usize) }
}

impl Span {
    pub open spec fn wf(self) -> bool {
        self.start.0 <= self.end.0
    }

    /// The number of characters covered.
    pub open spec fn spec_len(self) -> int {
        self.end.0 - self.start.0
    }

    /// What `subspan` returns: the range `[start + a, start + b)` (with `a` defaulting to `0`
    /// and an absent `b` meaning this span's end), provided it is well-formed and does not
    /// run past this span's end.
    pub open spec fn spec_subspan(self, from: Option<usize>, to: Option<usize>) -> Option<Span> {
        let s = self.start.0 + match from {
            Some(a) => a as int,
            None => 0,
        };
        let e = match to {
            Some(b) => self.start.0 + b,
            None => self.end.0 as int,
        };
        if s <= e && e <= self.end.0 {
            Some(span_of(s, e))
        } else {
            None
        }
    }

    /// What `combine` returns.
    pub open spec fn spec_combine(self, others: Seq<Span>) -> Span {
        if others.len() == 0 {
            self
        } else {
            Span { start: self.start, end: others.last().end }
        }
    }

    /// The span `[start, end)`.
    pub fn new(start: usize, end: usize) -> (r: Span)
        requires
            start <= end,
        ensures
            r == span_of(start as int, end as int),
            r.wf(),
    {
        Span { start: Loc(start), end: Loc(end) }
    }

    /// An empty span positioned at `loc`, the identity for combining spans.
    pub fn empty_at(loc: Loc) -> (r: Span)
        ensures
            r.start == loc,
            r.end == loc,
    {
        Span { start: loc, end: loc }
    }

    /// The empty span at the very start of a source.
    pub fn empty() -> (r: Span)
        ensures
            r == span_of(0, 0),
    {
        Span { start: Loc(0), end: Loc(0) }
    }

    /// The span of the single character at `loc`.
    pub fn single_char(loc: Loc) -> (r: Span)
        requires
            loc.0 < usize::MAX,
        ensures
            r.start == loc,
            r.end.0 == loc.0 + 1,
    {
        Span { start: loc, end: Loc(loc.0 + 1) }
    }

    /// The number of characters in this span.
    pub fn len(&self) -> (r: usize)
        requires
            self.wf(),
        ensures
            r == self.spec_len(),
    {
        self.end.0 - self.start.0
    }

    /// Whether this span covers no characters.
    pub fn is_empty(&self) -> (r: bool)
        requires
            self.wf(),
        ensures
            r == (self.spec_len() == 0),
    {
        self.end.0 == self.start.0
    }

    /// The sub-range `[from, to)` given relative to this span's start (`from` defaults to
    /// `0`, an absent `to` means this span's end); `None` when it would end past this span
    /// or start after its own end.
    pub fn subspan(&self, from: Option<usize>, to: Option<usize>) -> (r: Option<Span>)
        requires
            self.wf(),
        ensures
            r == self.spec_subspan(from, to),
    {
        let s: usize = match from {
            Some(a) => match self.start.0.checked_add(a) {
                Some(s) => s,
                None => return None,
            },
            None => self.start.0,
        };
        let e: usize = match to {
            Some(b) => match self.start.0.checked_add(b) {
                Some(e) => e,
                None => return None,
            },
            None => self.end.0,
        };
        if s <= e && e <= self.end.0 {
            Some(Span { start: Loc(s), end: Loc(e) })
        } else {
            None
        }
    }

    /// The span from this span's start to the end of the last of `others`; this span
    /// itself when `others` is empty.
    pub fn combine(self, others: &Vec<Span>) -> (r: Span)
        ensures
            r == self.spec_combine(others@),
    {
        if others.len() == 0 {
            self
        } else {
            Span { start: self.start, end: others[others.len() - 1].end }
        }
    }

    /// The underlying integer range, for indexing.
    pub fn as_range(&self) -> (r: std::ops::Range<usize>)
        ensures
            r.start == self.start.0,
            r.end == self.end.0,
    {
        self.start.0..self.end.0
    }
}

/// What `SpanIter::combine` returns: the first span combined with the rest.
pub open spec fn spec_combine_all(spans: Seq<Span>) -> Option<Span> {
    if spans.len() == 0 {
        None
    } else {
        Some(spans[0].spec_combine(spans.drop_first()))
    }
}

/// Combining a whole sequence of spans.
pub trait SpanIter: Sized {
    /// The span from the first span's start to the last span's end, if there is a first.
    fn combine(self) -> Option<Span>;
}

impl SpanIter for Vec<Span> {
    fn combine(self) -> (r: Option<Span>)
        ensures
            r == spec_combine_all(self@),
    {
        if self.len() == 0 {
            None
        } else if self.len() == 1 {
            Some(self[0])
        } else {
            Some(Span { start: self[0].start, end: self[self.len() - 1].end })
        }
    }
}

/// Something that covers a span of source text.
pub trait Spanned {
    /// The span covered.
    spec fn spec_span(&self) -> Span;

    /// The span covered.
    fn span(&self) -> (r: Span)
        ensures
            r == self.spec_span(),
    ;
}

impl Spanned for Span {
    open spec fn spec_span(&self) -> Span {
        *self
    }

    fn span(&self) -> (r: Span) {
        *self
    }
}

} // verus!
