//! Identifiers: a start character followed by any number of part characters, where either
//! may be written as a `\uXXXX` escape that must decode to a character legal at its position.

use vstd::prelude::*;
use vstd::string::StringExecFns;

use crate::escapes::{hex_digits_follow, UnicodeEscapeSequence};
use crate::lex::{tiles, LexT};
use crate::location::{span_of, Span, Spanned};
use crate::number::hex_number;
use crate::result::LexError;
use crate::stream::SourceStream;
use crate::unicode::{
    is_unicode_combining_mark, is_unicode_connector_punctuation, is_unicode_digit,
    is_unicode_letter, unicode_combining_mark, unicode_connector_punctuation, unicode_digit,
    unicode_letter,
};
use crate::utf16::{
    cv_concat, decode_one, encode_utf16, try_as_char, utf16_of, CharacterValue, StringValue,
};

verus! {

/// Characters that may begin an identifier: letters (Lu, Ll, Lt, Lm, Lo, Nl), `$` and `_`.
pub open spec fn is_identifier_start_char(c: char) -> bool {
    is_unicode_letter(c) || c == '$' || c == '_'
}

/// Characters that may continue an identifier: those that may begin one, combining marks
/// (Mn, Mc), digits (Nd), connector punctuation (Pc), ZWNJ and ZWJ.
pub open spec fn is_identifier_part_char(c: char) -> bool {
    is_identifier_start_char(c) || is_unicode_combining_mark(c) || is_unicode_digit(c)
        || is_unicode_connector_punctuation(c) || c == '\u{200C}' || c == '\u{200D}'
}

/// The character that a `\uXXXX` escape beginning at `pos` of `chars` (at the backslash)
/// decodes to, if its four digits encode a character on their own.
pub open spec fn escaped_char_at(chars: Seq<char>, pos: int) -> Option<char> {
    decode_one(seq![hex_number(chars.subrange(pos + 2, pos + 6)) as u16])
}

/// Whether a well-formed `\uXXXX` escape begins at `pos` of `chars`.
pub open spec fn unicode_escape_at(chars: Seq<char>, pos: int) -> bool {
    0 <= pos && pos + 1 < chars.len() && chars[pos] == '\\' && chars[pos + 1] == 'u'
        && hex_digits_follow(chars, pos + 1, 4)
}

/// Which characters a position of an identifier accepts.
pub trait CharacterAcceptor {
    /// Whether `c` is accepted.
    spec fn spec_accepts(c: char) -> bool;

    /// Whether `c` is accepted.
    fn accepts(c: char) -> (r: bool)
        ensures
            r == Self::spec_accepts(c),
    ;
}

/// Relies on `char`'s `ToString`: the string of that one character.
#[verifier::external_body]
fn char_string(c: char) -> (r: String)
    ensures
        r@ == seq![c],
{
    c.to_string()
}

/// The first character of an identifier.
#[derive(Debug, Clone, Copy)]
pub enum IdentifierStart {
    /// A letter.
    Letter(Span, char),
    /// `$`
    Dollar(Span),
    /// `_`
    Underscore(Span),
    /// `\uXXXX`, decoding to a character that may begin an identifier.
    Escape(Span, UnicodeEscapeSequence),
}

/// A character of an identifier after the first.
#[derive(Debug, Clone, Copy)]
pub enum IdentifierPart {
    /// `\uXXXX`, decoding to a character that may continue an identifier.
    Escape(Span, UnicodeEscapeSequence),
    /// Anything that may begin an identifier, but for an escape.
    Start(IdentifierStart),
    /// A combining mark.
    CombiningMark(Span, char),
    /// A Unicode decimal digit.
    Digit(Span, char),
    /// Connector punctuation.
    ConnectorPunctuation(Span, char),
    /// Zero width non-joiner, U+200C.
    ZWNJ(Span),
    /// Zero width joiner, U+200D.
    ZWJ(Span),
}

/// An identifier name: a start and its parts.
#[derive(Debug, Clone)]
pub struct IdentifierName {
    span: Span,
    start: IdentifierStart,
    parts: Vec<IdentifierPart>,
}

/// An identifier.
#[derive(Debug, Clone)]
pub struct Identifier(pub IdentifierName);

impl CharacterAcceptor for IdentifierStart {
    open spec fn spec_accepts(c: char) -> bool {
        is_identifier_start_char(c)
    }

    fn accepts(c: char) -> (r: bool) {
        unicode_letter(c) || c == '$' || c == '_'
    }
}

impl CharacterAcceptor for IdentifierPart {
    open spec fn spec_accepts(c: char) -> bool {
        is_identifier_part_char(c)
    }

    fn accepts(c: char) -> (r: bool) {
        IdentifierStart::accepts(c) || unicode_combining_mark(c) || unicode_digit(c)
            || unicode_connector_punctuation(c) || c == '\u{200C}' || c == '\u{200D}'
    }
}

impl Spanned for IdentifierStart {
    open spec fn spec_span(&self) -> Span {
        match self {
            IdentifierStart::Letter(s, _) => *s,
            IdentifierStart::Dollar(s) => *s,
            IdentifierStart::Underscore(s) => *s,
            IdentifierStart::Escape(s, _) => *s,
        }
    }

    fn span(&self) -> (r: Span) {
        match self {
            IdentifierStart::Letter(s, _) => *s,
            IdentifierStart::Dollar(s) => *s,
            IdentifierStart::Underscore(s) => *s,
            IdentifierStart::Escape(s, _) => *s,
        }
    }
}

impl Spanned for IdentifierPart {
    open spec fn spec_span(&self) -> Span {
        match self {
            IdentifierPart::Escape(s, _) => *s,
            IdentifierPart::Start(s) => s.spec_span(),
            IdentifierPart::CombiningMark(s, _) => *s,
            IdentifierPart::Digit(s, _) => *s,
            IdentifierPart::ConnectorPunctuation(s, _) => *s,
            IdentifierPart::ZWNJ(s) => *s,
            IdentifierPart::ZWJ(s) => *s,
        }
    }

    fn span(&self) -> (r: Span) {
        match self {
            IdentifierPart::Escape(s, _) => *s,
            IdentifierPart::Start(s) => s.span(),
            IdentifierPart::CombiningMark(s, _) => *s,
            IdentifierPart::Digit(s, _) => *s,
            IdentifierPart::ConnectorPunctuation(s, _) => *s,
            IdentifierPart::ZWNJ(s) => *s,
            IdentifierPart::ZWJ(s) => *s,
        }
    }
}

impl Spanned for IdentifierName {
    closed spec fn spec_span(&self) -> Span {
        self.span
    }

    fn span(&self) -> (r: Span) {
        self.span
    }
}

impl Spanned for Identifier {
    open spec fn spec_span(&self) -> Span {
        self.0.spec_span()
    }

    fn span(&self) -> (r: Span) {
        self.0.span()
    }
}

impl CharacterValue for IdentifierStart {
    open spec fn spec_cv(&self) -> Seq<u16> {
        match self {
            IdentifierStart::Letter(_, c) => utf16_of(*c),
            IdentifierStart::Dollar(_) => seq![0x24u16],
            IdentifierStart::Underscore(_) => seq![0x5Fu16],
            IdentifierStart::Escape(_, e) => e.spec_cv(),
        }
    }

    fn cv(&self) -> (r: Vec<u16>) {
        match self {
            IdentifierStart::Letter(_, c) => encode_utf16(*c),
            IdentifierStart::Dollar(_) => vec![0x24u16],
            IdentifierStart::Underscore(_) => vec![0x5Fu16],
            IdentifierStart::Escape(_, e) => e.cv(),
        }
    }
}

impl CharacterValue for IdentifierPart {
    open spec fn spec_cv(&self) -> Seq<u16> {
        match self {
            IdentifierPart::Escape(_, e) => e.spec_cv(),
            IdentifierPart::Start(s) => s.spec_cv(),
            IdentifierPart::CombiningMark(_, c) => utf16_of(*c),
            IdentifierPart::Digit(_, c) => utf16_of(*c),
            IdentifierPart::ConnectorPunctuation(_, c) => utf16_of(*c),
            IdentifierPart::ZWNJ(_) => seq![0x200Cu16],
            IdentifierPart::ZWJ(_) => seq![0x200Du16],
        }
    }

    fn cv(&self) -> (r: Vec<u16>) {
        match self {
            IdentifierPart::Escape(_, e) => e.cv(),
            IdentifierPart::Start(s) => s.cv(),
            IdentifierPart::CombiningMark(_, c) => encode_utf16(*c),
            IdentifierPart::Digit(_, c) => encode_utf16(*c),
            IdentifierPart::ConnectorPunctuation(_, c) => encode_utf16(*c),
            IdentifierPart::ZWNJ(_) => vec![0x200Cu16],
            IdentifierPart::ZWJ(_) => vec![0x200Du16],
        }
    }
}

/// Lexes `\uXXXX` (the cursor at the backslash) and checks that it decodes to a character that
/// `A` accepts: an error at the escape when it does not.
pub fn check_unicode_escape<A: CharacterAcceptor>(input: &mut SourceStream) -> (r: Result<
    (Span, UnicodeEscapeSequence),
    LexError,
>)
    requires
        old(input).wf(),
        old(input).pos() < old(input).chars().len(),
        old(input).chars()[old(input).pos()] == '\\',
    ensures
        final(input).wf(),
        final(input).same_source(old(input)),
        old(input).pos() <= final(input).pos(),
        r is Ok <==> unicode_escape_at(old(input).chars(), old(input).pos()) && (escaped_char_at(
            old(input).chars(),
            old(input).pos(),
        ) matches Some(c) && A::spec_accepts(c)),
        r matches Ok((s, e)) ==> s == span_of(old(input).pos(), final(input).pos())
            && final(input).pos() == old(input).pos() + 6 && decode_one(e.spec_cv())
            == escaped_char_at(old(input).chars(), old(input).pos()),
        unicode_escape_at(old(input).chars(), old(input).pos()) && (escaped_char_at(
            old(input).chars(),
            old(input).pos(),
        ) matches Some(c) && !A::spec_accepts(c)) ==> (r matches Err(e) && e.span == span_of(
            old(input).pos(),
            old(input).pos() + 6,
        ) && e.message@ == invalid_escape_message(
            escaped_char_at(old(input).chars(), old(input).pos())->Some_0,
        )),
{
    let start = input.index();
    input.advance(1);
    if !<UnicodeEscapeSequence as LexT>::peek(input) {
        return Err(input.error("Expected a unicode escape sequence `\\uXXXX` here."));
    }
    let escape = match <UnicodeEscapeSequence as LexT>::lex(input) {
        Ok(e) => e,
        Err(e) => return Err(e),
    };
    let span = Span::new(start, input.index());
    proof {
        escape.lemma_cv_is_mv();
    }
    match try_as_char(&escape) {
        Some(c) => {
            if A::accepts(c) {
                Ok((span, escape))
            } else {
                let mut message = String::from_str("Invalid escaped character in identifier: `");
                message.append(char_string(c).as_str());
                message.append("` is not valid here.");
                Err(LexError { span, message })
            }
        },
        None => Err(
            LexError::new(span, "Invalid escaped character in identifier: a lone surrogate is not valid here."),
        ),
    }
}

impl LexT for IdentifierStart {
    open spec fn spec_peek(chars: Seq<char>, pos: int) -> bool {
        0 <= pos < chars.len() && (is_identifier_start_char(chars[pos]) || chars[pos] == '\\')
    }

    open spec fn spec_errs(chars: Seq<char>, pos: int) -> bool {
        chars[pos] == '\\' && !(unicode_escape_at(chars, pos) && (escaped_char_at(chars, pos) matches Some(c) && is_identifier_start_char(c)))
    }

    open spec fn spec_lexed(chars: Seq<char>, pos: int, end: int, tok: Self) -> bool {
        end == id_char_end(chars, pos) && (chars[pos] == '\\' ==> tok is Escape) && (chars[pos] != '\\' ==> !(tok is Escape) && tok.spec_cv() == utf16_of(chars[pos])) && (
        tok matches IdentifierStart::Escape(_, e) ==> (decode_one(e.spec_cv()) matches Some(c)
            && is_identifier_start_char(c)))
    }

    fn peek(input: &SourceStream) -> (r: bool) {
        match input.peek() {
            Some(c) => IdentifierStart::accepts(c) || c == '\\',
            None => false,
        }
    }

    /// Consumes the start of an identifier. A backslash must begin a `\uXXXX` escape whose
    /// character may begin an identifier.
    fn lex(input: &mut SourceStream) -> (r: Result<Self, LexError>)
        ensures
            old(input).chars()[old(input).pos()] != '\\' ==> (r matches Ok(s) && !(s is Escape)
                && s.spec_cv() == utf16_of(old(input).chars()[old(input).pos()])),
            old(input).chars()[old(input).pos()] == '\\' ==> (r is Ok <==> unicode_escape_at(
                old(input).chars(),
                old(input).pos(),
            ) && (escaped_char_at(old(input).chars(), old(input).pos()) matches Some(c)
                && is_identifier_start_char(c))),
            r matches Ok(IdentifierStart::Escape(_, e)) ==> (decode_one(e.spec_cv()) matches Some(c)
                && is_identifier_start_char(c)),
            old(input).chars()[old(input).pos()] == '\\' && unicode_escape_at(
                old(input).chars(),
                old(input).pos(),
            ) && (escaped_char_at(old(input).chars(), old(input).pos()) matches Some(c)
                && !is_identifier_start_char(c)) ==> (r matches Err(e) && e.span == span_of(
                old(input).pos(),
                old(input).pos() + 6,
            ) && e.message@ == invalid_escape_message(
                escaped_char_at(old(input).chars(), old(input).pos())->Some_0,
            )),
    {
        let start = input.index();
        let c = match input.peek() {
            Some(c) => c,
            None => '\\',
        };
        if c == '\\' {
            return match check_unicode_escape::<IdentifierStart>(input) {
                Ok((span, e)) => Ok(IdentifierStart::Escape(span, e)),
                Err(e) => Err(e),
            };
        }
        input.advance(1);
        let span = Span::new(start, start + 1);
        if c == '$' {
            Ok(IdentifierStart::Dollar(span))
        } else if c == '_' {
            Ok(IdentifierStart::Underscore(span))
        } else {
            Ok(IdentifierStart::Letter(span, c))
        }
    }
}

impl LexT for IdentifierPart {
    open spec fn spec_peek(chars: Seq<char>, pos: int) -> bool {
        0 <= pos < chars.len() && (is_identifier_part_char(chars[pos]) || chars[pos] == '\\')
    }

    open spec fn spec_errs(chars: Seq<char>, pos: int) -> bool {
        chars[pos] == '\\' && !(unicode_escape_at(chars, pos) && (escaped_char_at(chars, pos) matches Some(c) && is_identifier_part_char(c)))
    }

    open spec fn spec_lexed(chars: Seq<char>, pos: int, end: int, tok: Self) -> bool {
        end == id_char_end(chars, pos) && (chars[pos] == '\\' ==> tok is Escape) && (chars[pos] != '\\' ==> !(tok is Escape) && tok.spec_cv() == utf16_of(chars[pos])) && (
        tok matches IdentifierPart::Escape(_, e) ==> (decode_one(e.spec_cv()) matches Some(c)
            && is_identifier_part_char(c)))
    }

    fn peek(input: &SourceStream) -> (r: bool) {
        match input.peek() {
            Some(c) => IdentifierPart::accepts(c) || c == '\\',
            None => false,
        }
    }

    /// Consumes a part of an identifier. A backslash must begin a `\uXXXX` escape whose
    /// character may continue an identifier.
    fn lex(input: &mut SourceStream) -> (r: Result<Self, LexError>)
        ensures
            old(input).chars()[old(input).pos()] != '\\' ==> (r matches Ok(p) && !(p is Escape)
                && p.spec_cv() == utf16_of(old(input).chars()[old(input).pos()])),
            old(input).chars()[old(input).pos()] == '\\' ==> (r is Ok <==> unicode_escape_at(
                old(input).chars(),
                old(input).pos(),
            ) && (escaped_char_at(old(input).chars(), old(input).pos()) matches Some(c)
                && is_identifier_part_char(c))),
            r matches Ok(IdentifierPart::Escape(_, e)) ==> (decode_one(e.spec_cv()) matches Some(c)
                && is_identifier_part_char(c)),
    {
        let start = input.index();
        let c = match input.peek() {
            Some(c) => c,
            None => '\\',
        };
        if c == '\\' {
            return match check_unicode_escape::<IdentifierPart>(input) {
                Ok((span, e)) => Ok(IdentifierPart::Escape(span, e)),
                Err(e) => Err(e),
            };
        }
        if IdentifierStart::accepts(c) {
            return match <IdentifierStart as LexT>::lex(input) {
                Ok(s) => Ok(IdentifierPart::Start(s)),
                Err(e) => Err(e),
            };
        }
        input.advance(1);
        let span = Span::new(start, start + 1);
        if unicode_combining_mark(c) {
            Ok(IdentifierPart::CombiningMark(span, c))
        } else if unicode_digit(c) {
            Ok(IdentifierPart::Digit(span, c))
        } else if unicode_connector_punctuation(c) {
            Ok(IdentifierPart::ConnectorPunctuation(span, c))
        } else if c == '\u{200C}' {
            Ok(IdentifierPart::ZWNJ(span))
        } else {
            Ok(IdentifierPart::ZWJ(span))
        }
    }
}

impl IdentifierName {
    /// The first character.
    pub closed spec fn spec_start(&self) -> IdentifierStart {
        self.start
    }

    /// The characters after the first.
    pub closed spec fn spec_parts(&self) -> Seq<IdentifierPart> {
        self.parts@
    }

    /// The first character.
    pub fn start(&self) -> (r: &IdentifierStart)
        ensures
            *r == self.spec_start(),
    {
        &self.start
    }

    /// The characters after the first.
    pub fn parts(&self) -> (r: &Vec<IdentifierPart>)
        ensures
            r@ == self.spec_parts(),
    {
        &self.parts
    }
}

impl StringValue for IdentifierName {
    open spec fn spec_sv(&self) -> Seq<u16> {
        self.spec_start().spec_cv() + cv_concat(self.spec_parts())
    }

    fn sv(&self) -> (r: Vec<u16>) {
        let mut out = self.start.cv();
        let mut i: usize = 0;
        while i < self.parts.len()
            invariant
                i <= self.parts@.len(),
                out@ == self.start.spec_cv() + cv_concat(self.parts@.subrange(0, i as int)),
            decreases self.parts@.len() - i,
        {
            let mut units = self.parts[i].cv();
            out.append(&mut units);
            proof {
                let next = self.parts@.subrange(0, i + 1);
                assert(next.drop_last() =~= self.parts@.subrange(0, i as int));
                assert(next.last() == self.parts@[i as int]);
                assert(out@ =~= self.start.spec_cv() + cv_concat(next));
            }
            i += 1;
        }
        assert(self.parts@.subrange(0, self.parts@.len() as int) =~= self.parts@);
        out
    }
}

impl Identifier {
    /// A copy of this identifier.
    pub fn clone_identifier(&self) -> (r: Identifier)
        ensures
            r.spec_span() == self.spec_span(),
    {
        Identifier(IdentifierName { span: self.0.span, start: self.0.start, parts: self.0.parts.clone() })
    }
}

impl StringValue for Identifier {
    open spec fn spec_sv(&self) -> Seq<u16> {
        self.0.spec_sv()
    }

    fn sv(&self) -> (r: Vec<u16>) {
        self.0.sv()
    }
}

impl LexT for IdentifierName {
    open spec fn spec_peek(chars: Seq<char>, pos: int) -> bool {
        IdentifierStart::spec_peek(chars, pos)
    }

    open spec fn spec_errs(chars: Seq<char>, pos: int) -> bool {
        IdentifierStart::spec_errs(chars, pos) || id_parts_fail(chars, id_char_end(chars, pos))
    }

    open spec fn spec_lexed(chars: Seq<char>, pos: int, end: int, tok: Self) -> bool {
        end == id_parts_end(chars, id_char_end(chars, pos)) && IdentifierStart::spec_lexed(
            chars,
            pos,
            id_char_end(chars, pos),
            tok.spec_start(),
        ) && parts_lexed(chars, tok.spec_parts()) && tiles(seq![IdentifierPart::Start(tok.spec_start())] + tok.spec_parts(), pos, end) && !IdentifierPart::spec_peek(chars, end)
    }

    fn peek(input: &SourceStream) -> (r: bool) {
        <IdentifierStart as LexT>::peek(input)
    }

    /// Consumes a start and the longest run of parts after it.
    fn lex(input: &mut SourceStream) -> (r: Result<Self, LexError>)
        ensures
            r matches Ok(n) ==> tiles(
                seq![IdentifierPart::Start(n.spec_start())] + n.spec_parts(),
                old(input).pos(),
                final(input).pos(),
            ) && !IdentifierPart::spec_peek(final(input).chars(), final(input).pos()),
            old(input).chars()[old(input).pos()] == '\\' && unicode_escape_at(
                old(input).chars(),
                old(input).pos(),
            ) && (escaped_char_at(old(input).chars(), old(input).pos()) matches Some(c)
                && !is_identifier_start_char(c)) ==> (r matches Err(e) && e.span == span_of(
                old(input).pos(),
                old(input).pos() + 6,
            ) && e.message@ == invalid_escape_message(
                escaped_char_at(old(input).chars(), old(input).pos())->Some_0,
            )),
    {
        let from = input.index();
        let start = match <IdentifierStart as LexT>::lex(input) {
            Ok(s) => s,
            Err(e) => return Err(e),
        };
        let ghost first = seq![IdentifierPart::Start(start)];
        let mut parts: Vec<IdentifierPart> = Vec::new();
        while <IdentifierPart as LexT>::peek(input)
            invariant
                input.wf(),
                input.same_source(old(input)),
                old(input).pos() < input.pos(),
                start.spec_span() == span_of(old(input).pos(), start.spec_span().end.0 as int),
                first == seq![IdentifierPart::Start(start)],
                tiles(first + parts@, old(input).pos(), input.pos()),
                IdentifierStart::spec_lexed(
                    old(input).chars(),
                    old(input).pos(),
                    id_char_end(old(input).chars(), old(input).pos()),
                    start,
                ),
                !IdentifierStart::spec_errs(old(input).chars(), old(input).pos()),
                parts_lexed(old(input).chars(), parts@),
                id_parts_end(old(input).chars(), id_char_end(old(input).chars(), old(input).pos()))
                    == id_parts_end(old(input).chars(), input.pos()),
                id_parts_fail(old(input).chars(), id_char_end(old(input).chars(), old(input).pos()))
                    == id_parts_fail(old(input).chars(), input.pos()),
            decreases input.chars().len() - input.pos(),
        {
            let ghost before = input.pos();
            let ghost prev_parts = parts@;
            let p = match <IdentifierPart as LexT>::lex(input) {
                Ok(p) => p,
                Err(e) => {
                    assert(id_parts_fail(old(input).chars(), before));
                    return Err(e);
                },
            };
            assert(id_parts_end(old(input).chars(), before) == id_parts_end(
                old(input).chars(),
                input.pos(),
            ));
            assert(id_parts_fail(old(input).chars(), before) == id_parts_fail(
                old(input).chars(),
                input.pos(),
            ));
            let ghost prev = first + parts@;
            parts.push(p);
            assert forall|i: int| 0 <= i < parts@.len() implies IdentifierPart::spec_lexed(
                old(input).chars(),
                parts@[i].spec_span().start.0 as int,
                parts@[i].spec_span().end.0 as int,
                #[trigger] parts@[i],
            ) by {
                if i < prev_parts.len() {
                    assert(parts@[i] == prev_parts[i]);
                }
            }
            proof {
                let all = first + parts@;
                assert(all.drop_last() =~= prev);
                assert forall|i: int| 0 <= i < all.len() - 1 implies (#[trigger] all[i].spec_span()).end
                    == all[i + 1].spec_span().start by {
                    if i == all.len() - 2 {
                        assert(prev.last() == all[i]);
                    } else {
                        assert(all[i] == prev[i] && all[i + 1] == prev[i + 1]);
                    }
                }
                assert forall|i: int| 0 <= i < all.len() implies (#[trigger] all[i].spec_span()).start.0
                    < all[i].spec_span().end.0 by {
                    if i < all.len() - 1 {
                        assert(all[i] == prev[i]);
                    }
                }
            }
        }
        Ok(IdentifierName { span: Span::new(from, input.index()), start, parts })
    }
}

impl LexT for Identifier {
    open spec fn spec_peek(chars: Seq<char>, pos: int) -> bool {
        IdentifierStart::spec_peek(chars, pos)
    }

    open spec fn spec_errs(chars: Seq<char>, pos: int) -> bool {
        IdentifierName::spec_errs(chars, pos)
    }

    open spec fn spec_lexed(chars: Seq<char>, pos: int, end: int, tok: Self) -> bool {
        IdentifierName::spec_lexed(chars, pos, end, tok.0)
    }

    fn peek(input: &SourceStream) -> (r: bool) {
        <IdentifierStart as LexT>::peek(input)
    }

    /// Consumes an identifier name.
    fn lex(input: &mut SourceStream) -> (r: Result<Self, LexError>)
        ensures
            r matches Ok(n) ==> !IdentifierPart::spec_peek(final(input).chars(), final(input).pos()),
            old(input).chars()[old(input).pos()] == '\\' && unicode_escape_at(
                old(input).chars(),
                old(input).pos(),
            ) && (escaped_char_at(old(input).chars(), old(input).pos()) matches Some(c)
                && !is_identifier_start_char(c)) ==> (r matches Err(e) && e.span == span_of(
                old(input).pos(),
                old(input).pos() + 6,
            ) && e.message@ == invalid_escape_message(
                escaped_char_at(old(input).chars(), old(input).pos())->Some_0,
            )),
    {
        match <IdentifierName as LexT>::lex(input) {
            Ok(n) => Ok(Identifier(n)),
            Err(e) => Err(e),
        }
    }
}

/// Where the start or part of an identifier that begins at `pos` ends: six characters for a
/// `\uXXXX` escape, one otherwise.
pub open spec fn id_char_end(chars: Seq<char>, pos: int) -> int {
    if chars[pos] == '\\' {
        pos + 6
    } else {
        pos + 1
    }
}

/// Where the longest run of well-formed identifier parts beginning at `pos` ends.
pub open spec fn id_parts_end(chars: Seq<char>, pos: int) -> int
    decreases chars.len() - pos,
{
    if IdentifierPart::spec_peek(chars, pos) && !IdentifierPart::spec_errs(chars, pos) {
        id_parts_end(chars, id_char_end(chars, pos))
    } else {
        pos
    }
}

/// Whether the run of identifier parts beginning at `pos` ends in an illegal escape.
pub open spec fn id_parts_fail(chars: Seq<char>, pos: int) -> bool
    decreases chars.len() - pos,
{
    if IdentifierPart::spec_peek(chars, pos) {
        if IdentifierPart::spec_errs(chars, pos) {
            true
        } else {
            id_parts_fail(chars, id_char_end(chars, pos))
        }
    } else {
        false
    }
}

/// Each of `parts` says of the characters it covers what an identifier part says.
pub open spec fn parts_lexed(chars: Seq<char>, parts: Seq<IdentifierPart>) -> bool {
    forall|i: int|
        0 <= i < parts.len() ==> IdentifierPart::spec_lexed(
            chars,
            parts[i].spec_span().start.0 as int,
            parts[i].spec_span().end.0 as int,
            #[trigger] parts[i],
        )
}

/// The message for an escape that decodes to `c`, a character not allowed where it stands.
pub open spec fn invalid_escape_message(c: char) -> Seq<char> {
    "Invalid escaped character in identifier: `"@ + seq![c] + "` is not valid here."@
}

} // verus!
