//! String literals, delimited by `"` or `'`, and their string values.

use vstd::prelude::*;

use crate::chars::{is_line_terminator, is_line_terminator_char};
use crate::escapes::{escape_cv_at, escape_end, EscapeSequence};
use crate::lex::{tiles, LexT};
use crate::line_terminator::{lts_end, LineTerminatorSequence};
use crate::location::{span_of, Span, Spanned};
use crate::result::{LexError, LexResult};
use crate::stream::SourceStream;
use crate::utf16::{
    collect_cv_into_utf16, cv_concat, encode_utf16, utf16_of, utf16_of_all, CharacterValue,
    StringValue,
};

verus! {

/// Whether `c` may stand for itself inside a string delimited by `delim`: anything but the
/// delimiter, a backslash or a line terminator.
pub open spec fn is_string_char(c: char, delim: char) -> bool {
    c != delim && c != '\\' && !is_line_terminator_char(c)
}

/// Whether a part of a string delimited by `delim` may begin at `pos` of `chars`.
pub open spec fn string_part_starts(chars: Seq<char>, pos: int, delim: char) -> bool {
    0 <= pos < chars.len() && (is_string_char(chars[pos], delim) || chars[pos] == '\\' || chars[pos]
        == '\u{2028}' || chars[pos] == '\u{2029}')
}

/// A character of a string literal that stands for itself.
#[derive(Debug, Clone, Copy)]
pub struct StringChar {
    span: Span,
    raw: char,
}

impl StringChar {
    /// The character.
    pub closed spec fn spec_raw(&self) -> char {
        self.raw
    }

    /// The character.
    pub fn raw(&self) -> (r: char)
        ensures
            r == self.spec_raw(),
    {
        self.raw
    }
}

impl Spanned for StringChar {
    closed spec fn spec_span(&self) -> Span {
        self.span
    }

    fn span(&self) -> (r: Span) {
        self.span
    }
}

impl CharacterValue for StringChar {
    closed spec fn spec_cv(&self) -> Seq<u16> {
        utf16_of(self.raw)
    }

    fn cv(&self) -> (r: Vec<u16>) {
        encode_utf16(self.raw)
    }
}

/// A part of a string literal.
#[derive(Debug, Clone, Copy)]
pub enum StringPart {
    /// A character standing for itself.
    Char(StringChar),
    /// A backslash and an escape sequence.
    Escape(Span, EscapeSequence),
    /// A backslash and a line terminator sequence: contributes nothing to the value.
    LineContinuation(Span, LineTerminatorSequence),
    /// U+2028, allowed verbatim.
    LS(Span),
    /// U+2029, allowed verbatim.
    PS(Span),
}

impl Spanned for StringPart {
    open spec fn spec_span(&self) -> Span {
        match self {
            StringPart::Char(c) => c.spec_span(),
            StringPart::Escape(s, _) => *s,
            StringPart::LineContinuation(s, _) => *s,
            StringPart::LS(s) => *s,
            StringPart::PS(s) => *s,
        }
    }

    fn span(&self) -> (r: Span) {
        match self {
            StringPart::Char(c) => c.span(),
            StringPart::Escape(s, _) => *s,
            StringPart::LineContinuation(s, _) => *s,
            StringPart::LS(s) => *s,
            StringPart::PS(s) => *s,
        }
    }
}

impl CharacterValue for StringPart {
    open spec fn spec_cv(&self) -> Seq<u16> {
        match self {
            StringPart::Char(c) => c.spec_cv(),
            StringPart::Escape(_, e) => e.spec_cv(),
            StringPart::LineContinuation(_, _) => Seq::empty(),
            StringPart::LS(_) => seq![0x2028u16],
            StringPart::PS(_) => seq![0x2029u16],
        }
    }

    fn cv(&self) -> (r: Vec<u16>) {
        match self {
            StringPart::Char(c) => c.cv(),
            StringPart::Escape(_, e) => e.cv(),
            StringPart::LineContinuation(_, _) => Vec::new(),
            StringPart::LS(_) => vec![0x2028u16],
            StringPart::PS(_) => vec![0x2029u16],
        }
    }
}

/// Whether lexing a part of a string delimited by `delim` at `pos` fails: a backslash
/// followed by neither a well-formed escape sequence nor a line terminator.
pub open spec fn part_errs(chars: Seq<char>, pos: int, delim: char) -> bool {
    chars[pos] == '\\' && if EscapeSequence::spec_peek(chars, pos + 1) {
        EscapeSequence::spec_errs(chars, pos + 1)
    } else {
        !LineTerminatorSequence::spec_peek(chars, pos + 1)
    }
}

/// Where a part of a string that begins at `pos` ends: one character for a plain character,
/// LS or PS; the backslash and the escape sequence or line terminator sequence after it.
pub open spec fn part_end(chars: Seq<char>, pos: int) -> int {
    if chars[pos] == '\\' {
        if EscapeSequence::spec_peek(chars, pos + 1) {
            escape_end(chars, pos + 1)
        } else {
            lts_end(chars, pos + 1)
        }
    } else {
        pos + 1
    }
}

/// Where the longest run of well-formed parts of a string delimited by `delim`, beginning at
/// `pos`, ends.
pub open spec fn parts_end(chars: Seq<char>, pos: int, delim: char) -> int
    decreases chars.len() - pos,
{
    if string_part_starts(chars, pos, delim) && !part_errs(chars, pos, delim) && part_end(chars, pos)
        > pos {
        parts_end(chars, part_end(chars, pos), delim)
    } else {
        pos
    }
}

/// Whether the run of parts beginning at `pos` ends in a malformed part.
pub open spec fn parts_fail(chars: Seq<char>, pos: int, delim: char) -> bool
    decreases chars.len() - pos,
{
    if string_part_starts(chars, pos, delim) {
        if part_errs(chars, pos, delim) {
            true
        } else if part_end(chars, pos) > pos {
            parts_fail(chars, part_end(chars, pos), delim)
        } else {
            false
        }
    } else {
        false
    }
}

/// What the part lexed at `pos` of `chars`, in a string delimited by `delim`, says of the
/// source: which characters it read, and the code units they stand for.
pub open spec fn part_read_at(p: StringPart, chars: Seq<char>, pos: int, delim: char) -> bool {
    match p {
        StringPart::Char(c) => c.spec_raw() == chars[pos] && is_string_char(chars[pos], delim)
            && c.spec_cv() == utf16_of(chars[pos]),
        StringPart::Escape(_, e) => chars[pos] == '\\' && e.spec_cv() == escape_cv_at(chars, pos + 1),
        StringPart::LineContinuation(_, _) => chars[pos] == '\\' && pos + 1 < chars.len()
            && is_line_terminator_char(chars[pos + 1]),
        StringPart::LS(_) => chars[pos] == '\u{2028}',
        StringPart::PS(_) => chars[pos] == '\u{2029}',
    }
}

impl StringPart {
    /// Whether a part of a string delimited by `delim` may begin at the cursor.
    pub fn peek(input: &SourceStream, delim: char) -> (r: bool)
        requires
            input.wf(),
        ensures
            r == string_part_starts(input.chars(), input.pos(), delim),
    {
        match input.peek() {
            Some(c) => (c != delim && c != '\\' && !is_line_terminator(c)) || c == '\\' || c
                == '\u{2028}' || c == '\u{2029}',
            None => false,
        }
    }

    /// Lexes one part of a string delimited by `delim`. After a backslash, an escape sequence
    /// or a line terminator sequence must follow; anything else is an error.
    pub fn lex(input: &mut SourceStream, delim: char) -> (r: LexResult<StringPart>)
        requires
            old(input).wf(),
        ensures
            final(input).wf(),
            final(input).same_source(old(input)),
            old(input).pos() <= final(input).pos(),
            r is Nothing <==> !string_part_starts(old(input).chars(), old(input).pos(), delim),
            r is Nothing ==> *final(input) == *old(input),
            r is Errant <==> string_part_starts(old(input).chars(), old(input).pos(), delim)
                && part_errs(old(input).chars(), old(input).pos(), delim),
            r matches LexResult::Lexed(p) ==> p.spec_span() == span_of(
                old(input).pos(),
                final(input).pos(),
            ) && old(input).pos() < final(input).pos() && final(input).pos() == part_end(
                old(input).chars(),
                old(input).pos(),
            ) && part_read_at(p, old(input).chars(), old(input).pos(), delim),
    {
        let start = input.index();
        let c = match input.peek() {
            Some(c) => c,
            None => return LexResult::Nothing,
        };
        if c == '\u{2028}' {
            input.advance(1);
            return LexResult::Lexed(StringPart::LS(Span::new(start, start + 1)));
        }
        if c == '\u{2029}' {
            input.advance(1);
            return LexResult::Lexed(StringPart::PS(Span::new(start, start + 1)));
        }
        if c != delim && c != '\\' && !is_line_terminator(c) {
            input.advance(1);
            let ch = StringChar { span: Span::new(start, start + 1), raw: c };
            return LexResult::Lexed(StringPart::Char(ch));
        }
        if c != '\\' {
            return LexResult::Nothing;
        }
        input.advance(1);
        if <EscapeSequence as LexT>::peek(input) {
            match <EscapeSequence as LexT>::lex(input) {
                Ok(e) => LexResult::Lexed(StringPart::Escape(Span::new(start, input.index()), e)),
                Err(e) => LexResult::Errant(e),
            }
        } else if <LineTerminatorSequence as LexT>::peek(input) {
            match <LineTerminatorSequence as LexT>::lex(input) {
                Ok(t) => LexResult::Lexed(
                    StringPart::LineContinuation(Span::new(start, input.index()), t),
                ),
                Err(e) => LexResult::Errant(e),
            }
        } else {
            LexResult::Errant(
                input.error("Expected either an escape code here, or newline; got neither."),
            )
        }
    }
}

/// A string literal.
#[derive(Debug, Clone)]
pub enum LString {
    /// `"..."`
    Double(Span, Vec<StringPart>),
    /// `'...'`
    Single(Span, Vec<StringPart>),
}

impl LString {
    /// The parts between the quotes.
    pub open spec fn spec_parts(&self) -> Seq<StringPart> {
        match self {
            LString::Double(_, parts) => parts@,
            LString::Single(_, parts) => parts@,
        }
    }

    /// The parts between the quotes.
    pub fn parts(&self) -> (r: &Vec<StringPart>)
        ensures
            r@ == self.spec_parts(),
    {
        match self {
            LString::Double(_, parts) => parts,
            LString::Single(_, parts) => parts,
        }
    }
}

impl LString {
    /// A copy of this literal.
    pub fn clone_literal(&self) -> (r: LString)
        ensures
            r.spec_span() == self.spec_span(),
            r is Double <==> self is Double,
    {
        match self {
            LString::Double(s, parts) => LString::Double(*s, parts.clone()),
            LString::Single(s, parts) => LString::Single(*s, parts.clone()),
        }
    }
}

impl Spanned for LString {
    open spec fn spec_span(&self) -> Span {
        match self {
            LString::Double(s, _) => *s,
            LString::Single(s, _) => *s,
        }
    }

    fn span(&self) -> (r: Span) {
        match self {
            LString::Double(s, _) => *s,
            LString::Single(s, _) => *s,
        }
    }
}

impl StringValue for LString {
    open spec fn spec_sv(&self) -> Seq<u16> {
        cv_concat(self.spec_parts())
    }

    fn sv(&self) -> (r: Vec<u16>) {
        collect_cv_into_utf16(self.parts())
    }
}

impl LexT for LString {
    open spec fn spec_peek(chars: Seq<char>, pos: int) -> bool {
        0 <= pos < chars.len() && (chars[pos] == '"' || chars[pos] == '\'')
    }

    open spec fn spec_errs(chars: Seq<char>, pos: int) -> bool {
        parts_fail(chars, pos + 1, chars[pos]) || !(parts_end(chars, pos + 1, chars[pos]) < chars.len()
            && chars[parts_end(chars, pos + 1, chars[pos])] == chars[pos])
    }

    open spec fn spec_lexed(chars: Seq<char>, pos: int, end: int, tok: Self) -> bool {
        end == parts_end(chars, pos + 1, chars[pos]) + 1 && pos + 2 <= end && chars[end - 1] == chars[pos] && (tok is Double <==> chars[pos] == '"')
            && tiles(tok.spec_parts(), pos + 1, end - 1) && forall|i: int|
            0 <= i < tok.spec_parts().len() ==> part_read_at(
                #[trigger] tok.spec_parts()[i],
                chars,
                tok.spec_parts()[i].spec_span().start.0 as int,
                chars[pos],
            )
    }

    fn peek(input: &SourceStream) -> (r: bool) {
        match input.peek() {
            Some(c) => c == '"' || c == '\'',
            None => false,
        }
    }

    /// Consumes the opening quote, the longest run of parts, and the matching closing quote;
    /// an error when a part is malformed or the closing quote does not follow.
    fn lex(input: &mut SourceStream) -> (r: Result<Self, LexError>)
        ensures
            r matches Ok(s) ==> {
                let chars = old(input).chars();
                let from = old(input).pos();
                let to = final(input).pos();
                &&& from + 2 <= to
                &&& chars[to - 1] == chars[from]
                &&& s is Double <==> chars[from] == '"'
                &&& tiles(s.spec_parts(), from + 1, to - 1)
                &&& forall|i: int|
                    0 <= i < s.spec_parts().len() ==> part_read_at(
                        #[trigger] s.spec_parts()[i],
                        chars,
                        s.spec_parts()[i].spec_span().start.0 as int,
                        chars[from],
                    )
            },
    {
        let start = input.index();
        let delim = match input.peek() {
            Some(c) => c,
            None => '"',
        };
        input.advance(1);
        let mut parts: Vec<StringPart> = Vec::new();
        loop
            invariant
                input.wf(),
                input.same_source(old(input)),
                old(input).pos() + 1 <= input.pos(),
                start == old(input).pos(),
                delim == old(input).chars()[start as int],
                tiles(parts@, start + 1, input.pos()),
                forall|i: int|
                    0 <= i < parts@.len() ==> part_read_at(
                        #[trigger] parts@[i],
                        old(input).chars(),
                        parts@[i].spec_span().start.0 as int,
                        delim,
                    ),
                parts_end(old(input).chars(), start + 1, delim) == parts_end(
                    old(input).chars(),
                    input.pos(),
                    delim,
                ),
                parts_fail(old(input).chars(), start + 1, delim) == parts_fail(
                    old(input).chars(),
                    input.pos(),
                    delim,
                ),
            ensures
                parts_end(old(input).chars(), input.pos(), delim) == input.pos(),
                !parts_fail(old(input).chars(), input.pos(), delim),
            decreases input.chars().len() - input.pos(),
        {
            let ghost before = input.pos();
            match StringPart::lex(input, delim) {
                LexResult::Lexed(p) => {
                    assert(parts_end(old(input).chars(), before, delim) == parts_end(
                        old(input).chars(),
                        input.pos(),
                        delim,
                    ));
                    assert(parts_fail(old(input).chars(), before, delim) == parts_fail(
                        old(input).chars(),
                        input.pos(),
                        delim,
                    ));
                    let ghost prev = parts@;
                    parts.push(p);
                    assert forall|i: int| 0 <= i < parts@.len() - 1 implies (
                    #[trigger] parts@[i].spec_span()).end == parts@[i + 1].spec_span().start by {
                        if i == parts@.len() - 2 {
                            assert(prev.last() == parts@[i]);
                        }
                    }
                    assert forall|i: int| 0 <= i < parts@.len() implies part_read_at(
                        #[trigger] parts@[i],
                        old(input).chars(),
                        parts@[i].spec_span().start.0 as int,
                        delim,
                    ) by {
                        if i < prev.len() {
                            assert(parts@[i] == prev[i]);
                        }
                    }
                },
                LexResult::Errant(e) => {
                    assert(parts_fail(old(input).chars(), before, delim));
                    return Err(e);
                },
                LexResult::Nothing => {
                    assert(parts_end(old(input).chars(), before, delim) == before);
                    assert(!parts_fail(old(input).chars(), before, delim));
                    break;
                },
            }
        }
        match input.peek() {
            Some(c) => {
                if c == delim {
                    input.advance(1);
                    let span = Span::new(start, input.index());
                    if delim == '"' {
                        Ok(LString::Double(span, parts))
                    } else {
                        Ok(LString::Single(span, parts))
                    }
                } else {
                    Err(input.error("Expected the closing quote of the string here."))
                }
            },
            None => Err(input.error("Expected the closing quote of the string here.")),
        }
    }
}

/// Without line continuations, a string literal's value is its parts' character values one
/// after the other, each part contributing one or two code units: no part is lost.
pub proof fn lemma_string_value_round_trip(lit: LString)
    requires
        forall|i: int|
            0 <= i < lit.spec_parts().len() ==> !(#[trigger] lit.spec_parts()[i] is LineContinuation),
    ensures
        lit.spec_sv() == cv_concat(lit.spec_parts()),
        forall|i: int|
            0 <= i < lit.spec_parts().len() ==> 1 <= (#[trigger] lit.spec_parts()[i]).spec_cv().len()
                <= 2,
        lit.spec_parts().len() <= lit.spec_sv().len() <= 2 * lit.spec_parts().len(),
{
    let parts = lit.spec_parts();
    assert forall|i: int| 0 <= i < parts.len() implies 1 <= (#[trigger] parts[i]).spec_cv().len()
        <= 2 by {
        match parts[i] {
            StringPart::Escape(_, e) => e.lemma_cv_len(),
            _ => {},
        }
    }
    lemma_cv_concat_len(parts);
}

/// Parts of one or two code units each give a value between one and two units per part.
proof fn lemma_cv_concat_len(parts: Seq<StringPart>)
    requires
        forall|i: int| 0 <= i < parts.len() ==> 1 <= (#[trigger] parts[i]).spec_cv().len() <= 2,
    ensures
        parts.len() <= cv_concat(parts).len() <= 2 * parts.len(),
    decreases parts.len(),
{
    if parts.len() > 0 {
        let rest = parts.drop_last();
        assert forall|i: int| 0 <= i < rest.len() implies 1 <= (#[trigger] rest[i]).spec_cv().len()
            <= 2 by {
            assert(rest[i] == parts[i]);
        }
        lemma_cv_concat_len(rest);
        assert(1 <= parts[parts.len() - 1].spec_cv().len() <= 2);
    }
}

/// A string literal's value is the concatenation of its parts' character values; where every
/// part is a plain character, that is the UTF-16 encoding of those characters.
pub proof fn lemma_plain_string_value(parts: Seq<StringPart>)
    requires
        forall|i: int| 0 <= i < parts.len() ==> #[trigger] parts[i] is Char,
    ensures
        cv_concat(parts) == utf16_of_all(parts.map_values(|p: StringPart| p->Char_0.spec_raw())),
    decreases parts.len(),
{
    let raws = parts.map_values(|p: StringPart| p->Char_0.spec_raw());
    if parts.len() > 0 {
        let rest = parts.drop_last();
        assert forall|i: int| 0 <= i < rest.len() implies #[trigger] rest[i] is Char by {
            assert(rest[i] == parts[i]);
        }
        lemma_plain_string_value(rest);
        assert(rest.map_values(|p: StringPart| p->Char_0.spec_raw()) =~= raws.drop_last());
        assert(parts.last() is Char);
    }
}

} // verus!
