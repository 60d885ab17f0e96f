//! Escape sequences, as they appear after a backslash in strings and identifiers.
//!
//! The optional octal escapes of ECMAScript are not supported: `\0` must not be followed by
//! a decimal digit, and other digits do not begin an escape.

use vstd::prelude::*;

use crate::chars::{
    is_decimal_digit, is_decimal_digit_char, is_hex_digit_char, is_line_terminator,
    is_line_terminator_char,
};
use crate::lex::LexT;
use crate::location::{span_of, Span, Spanned};
use crate::number::{hex_number, HexDigit};
use crate::result::LexError;
use crate::stream::SourceStream;
use crate::utf16::{encode_utf16, utf16_of, CharacterValue};

verus! {

/// `' " \ b f n r t v`: the characters that escape to something other than themselves.
pub open spec fn is_single_escape(c: char) -> bool {
    c == '\'' || c == '"' || c == '\\' || c == 'b' || c == 'f' || c == 'n' || c == 'r' || c == 't'
        || c == 'v'
}

/// The characters that begin an escape with a meaning of its own: the single escape
/// characters, decimal digits, `x` and `u`.
pub open spec fn is_escape(c: char) -> bool {
    is_single_escape(c) || is_decimal_digit_char(c) || c == 'x' || c == 'u'
}

/// The code unit that a single escape character stands for.
pub open spec fn single_escape_value(c: char) -> u16 {
    if c == '\'' {
        0x0027
    } else if c == '"' {
        0x0022
    } else if c == '\\' {
        0x005C
    } else if c == 'b' {
        0x0008
    } else if c == 'f' {
        0x000C
    } else if c == 'n' {
        0x000A
    } else if c == 'r' {
        0x000D
    } else if c == 't' {
        0x0009
    } else {
        0x000B
    }
}

/// Whether `c` is a single escape character.
pub fn is_single_escape_char(c: char) -> (r: bool)
    ensures
        r == is_single_escape(c),
{
    c == '\'' || c == '"' || c == '\\' || c == 'b' || c == 'f' || c == 'n' || c == 'r' || c == 't'
        || c == 'v'
}

/// Whether `c` begins an escape with a meaning of its own.
pub fn is_escape_char(c: char) -> (r: bool)
    ensures
        r == is_escape(c),
{
    is_single_escape_char(c) || is_decimal_digit(c) || c == 'x' || c == 'u'
}

/// Consumes the character at the cursor, which the caller knows is there.
fn take_known(input: &mut SourceStream) -> (r: (Span, char))
    requires
        old(input).wf(),
        old(input).pos() < old(input).chars().len(),
    ensures
        final(input).wf(),
        final(input).same_source(old(input)),
        final(input).pos() == old(input).pos() + 1,
        r.0 == span_of(old(input).pos(), old(input).pos() + 1),
        r.1 == old(input).chars()[old(input).pos()],
{
    let start = input.index();
    let c = match input.take() {
        Some((_, c)) => c,
        None => ' ',
    };
    (Span::new(start, start + 1), c)
}

/// An escaped character that stands for another: `\n` for a line feed, and so on.
#[derive(Debug, Clone, Copy)]
pub struct SingleEscapeChar {
    span: Span,
    raw: char,
}

/// An escaped character that stands for itself: `\a` for `a`.
#[derive(Debug, Clone, Copy)]
pub struct NonEscapeChar {
    span: Span,
    raw: char,
}

/// `\0`, standing for U+0000.
#[derive(Debug, Clone, Copy)]
pub struct Null {
    span: Span,
}

/// `\xHH`: one code unit given by two hexadecimal digits.
#[derive(Debug, Clone, Copy)]
pub struct HexEscapeSequence {
    span: Span,
    value: u8,
}

/// `\uHHHH`: one code unit given by four hexadecimal digits.
#[derive(Debug, Clone, Copy)]
pub struct UnicodeEscapeSequence {
    span: Span,
    value: u16,
}

/// A character escape: single or non-escape.
#[derive(Debug, Clone, Copy)]
pub enum CharacterEscapeSequence {
    /// `\n`, `\t`, ...
    Single(SingleEscapeChar),
    /// `\a`, `\!`, ...
    NonEscape(NonEscapeChar),
}

/// Any escape sequence (what follows the backslash).
#[derive(Debug, Clone, Copy)]
pub enum EscapeSequence {
    /// A character escape.
    CharacterEscapeSequence(CharacterEscapeSequence),
    /// `\0`.
    Null(Null),
    /// `\xHH`.
    HexEscapeSequence(HexEscapeSequence),
    /// `\uHHHH`.
    UnicodeEscapeSequence(UnicodeEscapeSequence),
}

impl SingleEscapeChar {
    /// The escaped character.
    pub closed spec fn spec_raw(&self) -> char {
        self.raw
    }

    /// The escaped character.
    pub fn raw(&self) -> (r: char)
        ensures
            r == self.spec_raw(),
    {
        self.raw
    }
}

impl NonEscapeChar {
    /// The escaped character.
    pub closed spec fn spec_raw(&self) -> char {
        self.raw
    }

    /// The escaped character.
    pub fn raw(&self) -> (r: char)
        ensures
            r == self.spec_raw(),
    {
        self.raw
    }
}

impl HexEscapeSequence {
    /// The mathematical value (MV) of the two digits.
    pub closed spec fn spec_mv(&self) -> int {
        self.value as int
    }

    /// The mathematical value (MV) of the two digits.
    pub fn mv(&self) -> (r: u8)
        ensures
            r == self.spec_mv(),
    {
        self.value
    }
}

impl UnicodeEscapeSequence {
    /// The mathematical value (MV) of the four digits.
    pub closed spec fn spec_mv(&self) -> int {
        self.value as int
    }

    /// The character value of the escape is the one code unit given by its digits.
    pub proof fn lemma_cv_is_mv(&self)
        ensures
            0 <= self.spec_mv() < 0x10000,
            self.spec_cv() == seq![self.spec_mv() as u16],
    {
    }

    /// The mathematical value (MV) of the four digits.
    pub fn mv(&self) -> (r: u16)
        ensures
            r == self.spec_mv(),
    {
        self.value
    }
}

impl Spanned for SingleEscapeChar {
    closed spec fn spec_span(&self) -> Span {
        self.span
    }

    fn span(&self) -> (r: Span) {
        self.span
    }
}

impl Spanned for NonEscapeChar {
    closed spec fn spec_span(&self) -> Span {
        self.span
    }

    fn span(&self) -> (r: Span) {
        self.span
    }
}

impl Spanned for Null {
    closed spec fn spec_span(&self) -> Span {
        self.span
    }

    fn span(&self) -> (r: Span) {
        self.span
    }
}

impl Spanned for HexEscapeSequence {
    closed spec fn spec_span(&self) -> Span {
        self.span
    }

    fn span(&self) -> (r: Span) {
        self.span
    }
}

impl Spanned for UnicodeEscapeSequence {
    closed spec fn spec_span(&self) -> Span {
        self.span
    }

    fn span(&self) -> (r: Span) {
        self.span
    }
}

impl Spanned for CharacterEscapeSequence {
    open spec fn spec_span(&self) -> Span {
        match self {
            CharacterEscapeSequence::Single(e) => e.spec_span(),
            CharacterEscapeSequence::NonEscape(e) => e.spec_span(),
        }
    }

    fn span(&self) -> (r: Span) {
        match self {
            CharacterEscapeSequence::Single(e) => e.span(),
            CharacterEscapeSequence::NonEscape(e) => e.span(),
        }
    }
}

impl Spanned for EscapeSequence {
    open spec fn spec_span(&self) -> Span {
        match self {
            EscapeSequence::CharacterEscapeSequence(e) => e.spec_span(),
            EscapeSequence::Null(e) => e.spec_span(),
            EscapeSequence::HexEscapeSequence(e) => e.spec_span(),
            EscapeSequence::UnicodeEscapeSequence(e) => e.spec_span(),
        }
    }

    fn span(&self) -> (r: Span) {
        match self {
            EscapeSequence::CharacterEscapeSequence(e) => e.span(),
            EscapeSequence::Null(e) => e.span(),
            EscapeSequence::HexEscapeSequence(e) => e.span(),
            EscapeSequence::UnicodeEscapeSequence(e) => e.span(),
        }
    }
}

impl LexT for SingleEscapeChar {
    open spec fn spec_peek(chars: Seq<char>, pos: int) -> bool {
        0 <= pos < chars.len() && is_single_escape(chars[pos])
    }

    open spec fn spec_errs(chars: Seq<char>, pos: int) -> bool {
        false
    }

    open spec fn spec_lexed(chars: Seq<char>, pos: int, end: int, tok: Self) -> bool {
        end == pos + 1 && tok.spec_raw() == chars[pos]
    }

    fn peek(input: &SourceStream) -> (r: bool) {
        match input.peek() {
            Some(c) => is_single_escape_char(c),
            None => false,
        }
    }

    /// Consumes the escaped character.
    fn lex(input: &mut SourceStream) -> (r: Result<Self, LexError>)
        ensures
            final(input).pos() == old(input).pos() + 1,
            r matches Ok(e) && e.spec_raw() == old(input).chars()[old(input).pos()],
    {
        let (span, raw) = take_known(input);
        Ok(SingleEscapeChar { span, raw })
    }
}

impl LexT for NonEscapeChar {
    open spec fn spec_peek(chars: Seq<char>, pos: int) -> bool {
        0 <= pos < chars.len() && !(is_line_terminator_char(chars[pos]) || is_escape(chars[pos]))
    }

    open spec fn spec_errs(chars: Seq<char>, pos: int) -> bool {
        false
    }

    open spec fn spec_lexed(chars: Seq<char>, pos: int, end: int, tok: Self) -> bool {
        end == pos + 1 && tok.spec_raw() == chars[pos]
    }

    fn peek(input: &SourceStream) -> (r: bool) {
        match input.peek() {
            Some(c) => !(is_line_terminator(c) || is_escape_char(c)),
            None => false,
        }
    }

    /// Consumes the escaped character.
    fn lex(input: &mut SourceStream) -> (r: Result<Self, LexError>)
        ensures
            final(input).pos() == old(input).pos() + 1,
            r matches Ok(e) && e.spec_raw() == old(input).chars()[old(input).pos()],
    {
        let (span, raw) = take_known(input);
        Ok(NonEscapeChar { span, raw })
    }
}

impl LexT for Null {
    open spec fn spec_peek(chars: Seq<char>, pos: int) -> bool {
        0 <= pos < chars.len() && chars[pos] == '0' && !(pos + 1 < chars.len()
            && is_decimal_digit_char(chars[pos + 1]))
    }

    open spec fn spec_errs(chars: Seq<char>, pos: int) -> bool {
        false
    }

    open spec fn spec_lexed(chars: Seq<char>, pos: int, end: int, tok: Self) -> bool {
        end == pos + 1
    }

    fn peek(input: &SourceStream) -> (r: bool) {
        match input.peek() {
            Some(c) => c == '0' && match input.peek_n(1) {
                Some(d) => !is_decimal_digit(d),
                None => true,
            },
            None => false,
        }
    }

    /// Consumes the `0`.
    fn lex(input: &mut SourceStream) -> (r: Result<Self, LexError>)
        ensures
            r is Ok,
            final(input).pos() == old(input).pos() + 1,
    {
        let (span, _) = take_known(input);
        Ok(Null { span })
    }
}

/// Whether `count` hexadecimal digits follow index `pos` of `chars` (from `pos + 1` on).
pub open spec fn hex_digits_follow(chars: Seq<char>, pos: int, count: int) -> bool {
    pos + 1 + count <= chars.len() && forall|k: int|
        pos + 1 <= k < pos + 1 + count ==> is_hex_digit_char(#[trigger] chars[k])
}

/// Consumes exactly `count` hexadecimal digits, returning their value; an error at the first
/// character that is not one.
fn lex_hex_digits(input: &mut SourceStream, count: usize) -> (r: Result<u16, LexError>)
    requires
        old(input).wf(),
        1 <= count <= 4,
    ensures
        final(input).wf(),
        final(input).same_source(old(input)),
        old(input).pos() <= final(input).pos(),
        r is Ok <==> hex_digits_follow(old(input).chars(), old(input).pos() - 1, count as int),
        r matches Ok(v) ==> final(input).pos() == old(input).pos() + count && v == hex_number(
            old(input).chars().subrange(old(input).pos(), old(input).pos() + count),
        ) && v < pow16(count as nat),
{
    let start = input.index();
    let mut value: u16 = 0;
    let mut i: usize = 0;
    while i < count
        invariant
            input.wf(),
            input.same_source(old(input)),
            start == old(input).pos(),
            input.pos() == start + i,
            i <= count <= 4,
            forall|k: int| start <= k < start + i ==> is_hex_digit_char(#[trigger] input.chars()[k]),
            value == hex_number(input.chars().subrange(start as int, start + i)),
            value < pow16(i as nat),
        decreases count - i,
    {
        if !<HexDigit as LexT>::peek(input) {
            proof {
                assert(!hex_digits_follow(old(input).chars(), start - 1, count as int)) by {
                    if input.pos() < input.chars().len() {
                        assert(!is_hex_digit_char(input.chars()[start + i]));
                    }
                }
            }
            return Err(input.error("Expected a hexadecimal digit here."));
        }
        let d = match <HexDigit as LexT>::lex(input) {
            Ok(d) => d,
            Err(e) => return Err(e),
        };
        let v = d.mv();
        let ghost prev = input.chars().subrange(start as int, start + i);
        let ghost next = input.chars().subrange(start as int, start + i + 1);
        proof {
            assert(next.drop_last() =~= prev);
            assert(next.last() == d.spec_raw());
            lemma_pow16_step(i as nat);
            assert(value * 16 + v < pow16((i + 1) as nat)) by (nonlinear_arith)
                requires
                    value < pow16(i as nat),
                    v < 16,
                    pow16((i + 1) as nat) == pow16(i as nat) * 16,
            ;
            lemma_pow16_bound(i as nat);
        }
        value = value * 16 + v as u16;
        i += 1;
    }
    Ok(value)
}

/// `16` to the power `n`.
pub open spec fn pow16(n: nat) -> int
    decreases n,
{
    if n == 0 {
        1
    } else {
        16 * pow16((n - 1) as nat)
    }
}

proof fn lemma_pow16_step(n: nat)
    ensures
        pow16(n + 1) == pow16(n) * 16,
{
    assert(pow16(n + 1) == 16 * pow16(n));
}

proof fn lemma_pow16_bound(n: nat)
    requires
        n <= 3,
    ensures
        pow16(n + 1) <= 0x10000,
{
    assert(pow16(0) == 1);
    assert(pow16(1) == 16);
    assert(pow16(2) == 256);
    assert(pow16(3) == 4096);
    assert(pow16(4) == 65536);
}

impl LexT for HexEscapeSequence {
    open spec fn spec_peek(chars: Seq<char>, pos: int) -> bool {
        0 <= pos < chars.len() && chars[pos] == 'x'
    }

    open spec fn spec_errs(chars: Seq<char>, pos: int) -> bool {
        !hex_digits_follow(chars, pos, 2)
    }

    open spec fn spec_lexed(chars: Seq<char>, pos: int, end: int, tok: Self) -> bool {
        end == pos + 3 && tok.spec_mv() == hex_number(chars.subrange(pos + 1, pos + 3))
    }

    fn peek(input: &SourceStream) -> (r: bool) {
        match input.peek() {
            Some(c) => c == 'x',
            None => false,
        }
    }

    /// Consumes `x` and exactly two hexadecimal digits; an error when they are not there.
    fn lex(input: &mut SourceStream) -> (r: Result<Self, LexError>)
        ensures
            r is Ok <==> hex_digits_follow(old(input).chars(), old(input).pos(), 2),
            r matches Ok(h) ==> final(input).pos() == old(input).pos() + 3 && h.spec_mv()
                == hex_number(old(input).chars().subrange(old(input).pos() + 1, old(input).pos() + 3)),
    {
        let start = input.index();
        input.advance(1);
        match lex_hex_digits(input, 2) {
            Ok(v) => {
                proof {
                    assert(pow16(0) == 1);
                    assert(pow16(1) == 16);
                    assert(pow16(2) == 256);
                }
                Ok(HexEscapeSequence { span: Span::new(start, input.index()), value: v as u8 })
            },
            Err(e) => Err(e),
        }
    }
}

impl LexT for UnicodeEscapeSequence {
    open spec fn spec_peek(chars: Seq<char>, pos: int) -> bool {
        0 <= pos < chars.len() && chars[pos] == 'u'
    }

    open spec fn spec_errs(chars: Seq<char>, pos: int) -> bool {
        !hex_digits_follow(chars, pos, 4)
    }

    open spec fn spec_lexed(chars: Seq<char>, pos: int, end: int, tok: Self) -> bool {
        end == pos + 5 && tok.spec_mv() == hex_number(chars.subrange(pos + 1, pos + 5))
    }

    fn peek(input: &SourceStream) -> (r: bool) {
        match input.peek() {
            Some(c) => c == 'u',
            None => false,
        }
    }

    /// Consumes `u` and exactly four hexadecimal digits; an error when they are not there.
    fn lex(input: &mut SourceStream) -> (r: Result<Self, LexError>)
        ensures
            r is Ok <==> hex_digits_follow(old(input).chars(), old(input).pos(), 4),
            r matches Ok(u) ==> final(input).pos() == old(input).pos() + 5 && u.spec_mv()
                == hex_number(old(input).chars().subrange(old(input).pos() + 1, old(input).pos() + 5)),
    {
        let start = input.index();
        input.advance(1);
        match lex_hex_digits(input, 4) {
            Ok(v) => Ok(UnicodeEscapeSequence { span: Span::new(start, input.index()), value: v }),
            Err(e) => Err(e),
        }
    }
}

impl LexT for CharacterEscapeSequence {
    open spec fn spec_peek(chars: Seq<char>, pos: int) -> bool {
        SingleEscapeChar::spec_peek(chars, pos) || NonEscapeChar::spec_peek(chars, pos)
    }

    open spec fn spec_errs(chars: Seq<char>, pos: int) -> bool {
        false
    }

    open spec fn spec_lexed(chars: Seq<char>, pos: int, end: int, tok: Self) -> bool {
        end == pos + 1 && match tok {
            CharacterEscapeSequence::Single(s) => is_single_escape(s.spec_raw()) && s.spec_raw() == chars[pos],
            CharacterEscapeSequence::NonEscape(n) => !is_escape(n.spec_raw()) && n.spec_raw() == chars[pos],
        }
    }

    fn peek(input: &SourceStream) -> (r: bool) {
        <SingleEscapeChar as LexT>::peek(input) || <NonEscapeChar as LexT>::peek(input)
    }

    /// Consumes the escaped character.
    fn lex(input: &mut SourceStream) -> (r: Result<Self, LexError>)
        ensures
            r matches Ok(e) && match e {
                CharacterEscapeSequence::Single(s) => is_single_escape(s.spec_raw()) && s.spec_raw()
                    == old(input).chars()[old(input).pos()],
                CharacterEscapeSequence::NonEscape(n) => !is_escape(n.spec_raw()) && n.spec_raw()
                    == old(input).chars()[old(input).pos()],
            },
            final(input).pos() == old(input).pos() + 1,
    {
        if <SingleEscapeChar as LexT>::peek(input) {
            match <SingleEscapeChar as LexT>::lex(input) {
                Ok(s) => Ok(CharacterEscapeSequence::Single(s)),
                Err(e) => Err(e),
            }
        } else {
            match <NonEscapeChar as LexT>::lex(input) {
                Ok(n) => Ok(CharacterEscapeSequence::NonEscape(n)),
                Err(e) => Err(e),
            }
        }
    }
}

impl LexT for EscapeSequence {
    open spec fn spec_peek(chars: Seq<char>, pos: int) -> bool {
        CharacterEscapeSequence::spec_peek(chars, pos) || Null::spec_peek(chars, pos)
            || HexEscapeSequence::spec_peek(chars, pos) || UnicodeEscapeSequence::spec_peek(
            chars,
            pos,
        )
    }

    open spec fn spec_errs(chars: Seq<char>, pos: int) -> bool {
        (chars[pos] == 'x' && !hex_digits_follow(chars, pos, 2)) || (chars[pos] == 'u' && !hex_digits_follow(chars, pos, 4))
    }

    open spec fn spec_lexed(chars: Seq<char>, pos: int, end: int, tok: Self) -> bool {
        tok.spec_cv() == escape_cv_at(chars, pos) && end == escape_end(chars, pos)
    }

    fn peek(input: &SourceStream) -> (r: bool) {
        <CharacterEscapeSequence as LexT>::peek(input) || <Null as LexT>::peek(input)
            || <HexEscapeSequence as LexT>::peek(input) || <UnicodeEscapeSequence as LexT>::peek(
            input,
        )
    }

    /// Consumes an escape: a character escape, `0`, `xHH` or `uHHHH`, tried in that order.
    fn lex(input: &mut SourceStream) -> (r: Result<Self, LexError>)
        ensures
            r matches Ok(e) ==> e.spec_cv() == escape_cv_at(old(input).chars(), old(input).pos()),
    {
        if <CharacterEscapeSequence as LexT>::peek(input) {
            match <CharacterEscapeSequence as LexT>::lex(input) {
                Ok(c) => Ok(EscapeSequence::CharacterEscapeSequence(c)),
                Err(e) => Err(e),
            }
        } else if <Null as LexT>::peek(input) {
            match <Null as LexT>::lex(input) {
                Ok(n) => Ok(EscapeSequence::Null(n)),
                Err(e) => Err(e),
            }
        } else if <HexEscapeSequence as LexT>::peek(input) {
            match <HexEscapeSequence as LexT>::lex(input) {
                Ok(h) => Ok(EscapeSequence::HexEscapeSequence(h)),
                Err(e) => Err(e),
            }
        } else {
            match <UnicodeEscapeSequence as LexT>::lex(input) {
                Ok(u) => Ok(EscapeSequence::UnicodeEscapeSequence(u)),
                Err(e) => Err(e),
            }
        }
    }
}

/// Where the escape that begins at `pos` of `chars` (just after the backslash) ends.
pub open spec fn escape_end(chars: Seq<char>, pos: int) -> int {
    if chars[pos] == 'x' {
        pos + 3
    } else if chars[pos] == 'u' {
        pos + 5
    } else {
        pos + 1
    }
}

/// The character value of the escape that begins at `pos` of `chars` (just after the
/// backslash), once it lexes.
pub open spec fn escape_cv_at(chars: Seq<char>, pos: int) -> Seq<u16> {
    let c = chars[pos];
    if is_single_escape(c) {
        seq![single_escape_value(c)]
    } else if !is_escape(c) && !is_line_terminator_char(c) {
        utf16_of(c)
    } else if c == '0' {
        seq![0u16]
    } else if c == 'x' {
        seq![hex_number(chars.subrange(pos + 1, pos + 3)) as u16]
    } else {
        seq![hex_number(chars.subrange(pos + 1, pos + 5)) as u16]
    }
}

impl CharacterValue for SingleEscapeChar {
    open spec fn spec_cv(&self) -> Seq<u16> {
        seq![single_escape_value(self.spec_raw())]
    }

    fn cv(&self) -> (r: Vec<u16>) {
        let c = self.raw;
        let u: u16 = if c == '\'' {
            0x0027
        } else if c == '"' {
            0x0022
        } else if c == '\\' {
            0x005C
        } else if c == 'b' {
            0x0008
        } else if c == 'f' {
            0x000C
        } else if c == 'n' {
            0x000A
        } else if c == 'r' {
            0x000D
        } else if c == 't' {
            0x0009
        } else {
            0x000B
        };
        vec![u]
    }
}

impl CharacterValue for NonEscapeChar {
    open spec fn spec_cv(&self) -> Seq<u16> {
        utf16_of(self.spec_raw())
    }

    fn cv(&self) -> (r: Vec<u16>) {
        encode_utf16(self.raw)
    }
}

impl CharacterValue for Null {
    open spec fn spec_cv(&self) -> Seq<u16> {
        seq![0u16]
    }

    fn cv(&self) -> (r: Vec<u16>) {
        vec![0u16]
    }
}

impl CharacterValue for HexEscapeSequence {
    open spec fn spec_cv(&self) -> Seq<u16> {
        seq![self.spec_mv() as u16]
    }

    fn cv(&self) -> (r: Vec<u16>) {
        vec![self.value as u16]
    }
}

impl CharacterValue for UnicodeEscapeSequence {
    open spec fn spec_cv(&self) -> Seq<u16> {
        seq![self.spec_mv() as u16]
    }

    fn cv(&self) -> (r: Vec<u16>) {
        vec![self.value]
    }
}

impl CharacterValue for CharacterEscapeSequence {
    open spec fn spec_cv(&self) -> Seq<u16> {
        match self {
            CharacterEscapeSequence::Single(e) => e.spec_cv(),
            CharacterEscapeSequence::NonEscape(e) => e.spec_cv(),
        }
    }

    fn cv(&self) -> (r: Vec<u16>) {
        match self {
            CharacterEscapeSequence::Single(e) => e.cv(),
            CharacterEscapeSequence::NonEscape(e) => e.cv(),
        }
    }
}

impl EscapeSequence {
    /// An escape stands for one code unit, or two for a non-escape character outside the
    /// Basic Multilingual Plane.
    pub proof fn lemma_cv_len(&self)
        ensures
            1 <= self.spec_cv().len() <= 2,
    {
    }
}

impl CharacterValue for EscapeSequence {
    open spec fn spec_cv(&self) -> Seq<u16> {
        match self {
            EscapeSequence::CharacterEscapeSequence(e) => e.spec_cv(),
            EscapeSequence::Null(e) => e.spec_cv(),
            EscapeSequence::HexEscapeSequence(e) => e.spec_cv(),
            EscapeSequence::UnicodeEscapeSequence(e) => e.spec_cv(),
        }
    }

    fn cv(&self) -> (r: Vec<u16>) {
        match self {
            EscapeSequence::CharacterEscapeSequence(e) => e.cv(),
            EscapeSequence::Null(e) => e.cv(),
            EscapeSequence::HexEscapeSequence(e) => e.cv(),
            EscapeSequence::UnicodeEscapeSequence(e) => e.cv(),
        }
    }
}

} // verus!
