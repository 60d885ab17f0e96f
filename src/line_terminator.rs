//! Line terminators, and line terminator sequences (which fuse CR LF).

use vstd::prelude::*;

use crate::chars::is_line_terminator_char;
use crate::lex::LexT;
use crate::location::{Span, Spanned};
use crate::result::LexError;
use crate::stream::SourceStream;

verus! {

/// A single line terminator character.
#[derive(Debug, Clone, Copy)]
pub enum LineTerminator {
    /// Line feed, U+000A.
    LF(Span),
    /// Carriage return, U+000D.
    CR(Span),
    /// Line separator, U+2028.
    LS(Span),
    /// Paragraph separator, U+2029.
    PS(Span),
}

/// A line terminator sequence: a line terminator, or CR LF taken together.
#[derive(Debug, Clone, Copy)]
pub enum LineTerminatorSequence {
    /// Carriage return then line feed.
    CRLF(Span),
    /// Line feed, U+000A.
    LF(Span),
    /// Carriage return, U+000D, not followed by a line feed.
    CR(Span),
    /// Line separator, U+2028.
    LS(Span),
    /// Paragraph separator, U+2029.
    PS(Span),
}

/// Where the line terminator sequence that begins at `pos` of `chars` ends: two characters
/// for CR LF, one otherwise.
pub open spec fn lts_end(chars: Seq<char>, pos: int) -> int {
    if chars[pos] == '\r' && pos + 1 < chars.len() && chars[pos + 1] == '\n' {
        pos + 2
    } else {
        pos + 1
    }
}

/// An older name of [LineTerminatorSequence].
pub type LineTerminatorSeq = LineTerminatorSequence;

impl Spanned for LineTerminator {
    open spec fn spec_span(&self) -> Span {
        match self {
            LineTerminator::LF(s) => *s,
            LineTerminator::CR(s) => *s,
            LineTerminator::LS(s) => *s,
            LineTerminator::PS(s) => *s,
        }
    }

    fn span(&self) -> (r: Span) {
        match self {
            LineTerminator::LF(s) => *s,
            LineTerminator::CR(s) => *s,
            LineTerminator::LS(s) => *s,
            LineTerminator::PS(s) => *s,
        }
    }
}

impl Spanned for LineTerminatorSequence {
    open spec fn spec_span(&self) -> Span {
        match self {
            LineTerminatorSequence::CRLF(s) => *s,
            LineTerminatorSequence::LF(s) => *s,
            LineTerminatorSequence::CR(s) => *s,
            LineTerminatorSequence::LS(s) => *s,
            LineTerminatorSequence::PS(s) => *s,
        }
    }

    fn span(&self) -> (r: Span) {
        match self {
            LineTerminatorSequence::CRLF(s) => *s,
            LineTerminatorSequence::LF(s) => *s,
            LineTerminatorSequence::CR(s) => *s,
            LineTerminatorSequence::LS(s) => *s,
            LineTerminatorSequence::PS(s) => *s,
        }
    }
}

impl LexT for LineTerminator {
    open spec fn spec_peek(chars: Seq<char>, pos: int) -> bool {
        0 <= pos < chars.len() && is_line_terminator_char(chars[pos])
    }

    open spec fn spec_errs(chars: Seq<char>, pos: int) -> bool {
        false
    }

    open spec fn spec_lexed(chars: Seq<char>, pos: int, end: int, tok: Self) -> bool {
        end == pos + 1 && match tok {
            LineTerminator::LF(_) => chars[pos] == '\n',
            LineTerminator::CR(_) => chars[pos] == '\r',
            LineTerminator::LS(_) => chars[pos] == '\u{2028}',
            LineTerminator::PS(_) => chars[pos] == '\u{2029}',
        }
    }

    fn peek(input: &SourceStream) -> (r: bool) {
        match input.peek() {
            Some(c) => c == '\n' || c == '\r' || c == '\u{2028}' || c == '\u{2029}',
            None => false,
        }
    }

    /// Consumes exactly one line terminator, naming which it was.
    fn lex(input: &mut SourceStream) -> (r: Result<Self, LexError>)
        ensures
            final(input).pos() == old(input).pos() + 1,
            r matches Ok(t) && match t {
                LineTerminator::LF(_) => old(input).chars()[old(input).pos()] == '\n',
                LineTerminator::CR(_) => old(input).chars()[old(input).pos()] == '\r',
                LineTerminator::LS(_) => old(input).chars()[old(input).pos()] == '\u{2028}',
                LineTerminator::PS(_) => old(input).chars()[old(input).pos()] == '\u{2029}',
            },
    {
        let start = input.index();
        let c = match input.take() {
            Some((_, c)) => c,
            None => ' ',
        };
        let span = Span::new(start, start + 1);
        if c == '\n' {
            Ok(LineTerminator::LF(span))
        } else if c == '\r' {
            Ok(LineTerminator::CR(span))
        } else if c == '\u{2028}' {
            Ok(LineTerminator::LS(span))
        } else {
            Ok(LineTerminator::PS(span))
        }
    }
}

impl LexT for LineTerminatorSequence {
    open spec fn spec_peek(chars: Seq<char>, pos: int) -> bool {
        0 <= pos < chars.len() && is_line_terminator_char(chars[pos])
    }

    open spec fn spec_errs(chars: Seq<char>, pos: int) -> bool {
        false
    }

    open spec fn spec_lexed(chars: Seq<char>, pos: int, end: int, tok: Self) -> bool {
        end == lts_end(chars, pos) && match tok {
            LineTerminatorSequence::CRLF(_) => chars[pos] == '\r' && pos + 1 < chars.len() && chars[pos + 1]
                == '\n' && end == pos + 2,
            LineTerminatorSequence::CR(_) => chars[pos] == '\r' && !(pos + 1 < chars.len() && chars[pos
                + 1] == '\n') && end == pos + 1,
            LineTerminatorSequence::LF(_) => chars[pos] == '\n' && end == pos + 1,
            LineTerminatorSequence::LS(_) => chars[pos] == '\u{2028}' && end == pos + 1,
            LineTerminatorSequence::PS(_) => chars[pos] == '\u{2029}' && end == pos + 1,
        }
    }

    fn peek(input: &SourceStream) -> (r: bool) {
        match input.peek() {
            Some(c) => c == '\n' || c == '\r' || c == '\u{2028}' || c == '\u{2029}',
            None => false,
        }
    }

    /// Consumes one line terminator sequence; CR LF is taken as one sequence before a lone
    /// CR is considered.
    fn lex(input: &mut SourceStream) -> (r: Result<Self, LexError>)
        ensures
            r matches Ok(t) && match t {
                LineTerminatorSequence::CRLF(_) => old(input).chars()[old(input).pos()] == '\r'
                    && old(input).pos() + 1 < old(input).chars().len() && old(input).chars()[old(
                    input,
                ).pos() + 1] == '\n' && final(input).pos() == old(input).pos() + 2,
                LineTerminatorSequence::CR(_) => old(input).chars()[old(input).pos()] == '\r' && !(
                old(input).pos() + 1 < old(input).chars().len() && old(input).chars()[old(
                    input,
                ).pos() + 1] == '\n') && final(input).pos() == old(input).pos() + 1,
                LineTerminatorSequence::LF(_) => old(input).chars()[old(input).pos()] == '\n'
                    && final(input).pos() == old(input).pos() + 1,
                LineTerminatorSequence::LS(_) => old(input).chars()[old(input).pos()] == '\u{2028}'
                    && final(input).pos() == old(input).pos() + 1,
                LineTerminatorSequence::PS(_) => old(input).chars()[old(input).pos()] == '\u{2029}'
                    && final(input).pos() == old(input).pos() + 1,
            },
    {
        let start = input.index();
        let crlf = vec!['\r', '\n'];
        if input.upcoming_chars(crlf.as_slice()) {
            input.advance(2);
            assert(old(input).chars()[old(input).pos() + 1] == old(input).chars().subrange(
                old(input).pos(),
                old(input).pos() + 2,
            )[1]);
            return Ok(LineTerminatorSequence::CRLF(Span::new(start, start + 2)));
        }
        proof {
            if old(input).chars()[old(input).pos()] == '\r' && old(input).pos() + 1 < old(
                input,
            ).chars().len() && old(input).chars()[old(input).pos() + 1] == '\n' {
                assert(old(input).chars().subrange(old(input).pos(), old(input).pos() + 2) =~= seq![
                    '\r',
                    '\n',
                ]);
            }
        }
        let c = match input.take() {
            Some((_, c)) => c,
            None => ' ',
        };
        let span = Span::new(start, start + 1);
        if c == '\n' {
            Ok(LineTerminatorSequence::LF(span))
        } else if c == '\r' {
            Ok(LineTerminatorSequence::CR(span))
        } else if c == '\u{2028}' {
            Ok(LineTerminatorSequence::LS(span))
        } else {
            Ok(LineTerminatorSequence::PS(span))
        }
    }
}

} // verus!
