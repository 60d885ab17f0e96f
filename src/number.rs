//! Numeric literals: digits, hexadecimal and decimal forms, signs, `Infinity` and `NaN`.

use vstd::prelude::*;

use crate::chars::{is_decimal_digit, is_decimal_digit_char, is_hex_digit, is_hex_digit_char};
use crate::lex::LexT;
use crate::location::{span_of, Span, Spanned};
use crate::result::LexError;
use crate::stream::{char_at, upcoming_at, SourceStream};

verus! {

/// The value of a hexadecimal digit.
pub open spec fn hex_value(c: char) -> int {
    if '0' <= c <= '9' {
        c as int - '0' as int
    } else if 'a' <= c <= 'f' {
        c as int - 'a' as int + 10
    } else {
        c as int - 'A' as int + 10
    }
}

/// The value of a sequence of hexadecimal digits, most significant first.
pub open spec fn hex_number(digits: Seq<char>) -> int
    decreases digits.len(),
{
    if digits.len() == 0 {
        0
    } else {
        hex_number(digits.drop_last()) * 16 + hex_value(digits.last())
    }
}

/// A single hexadecimal digit.
#[derive(Debug, Clone, Copy)]
pub struct HexDigit {
    span: Span,
    raw: char,
}

impl HexDigit {
    /// The digit character.
    pub closed spec fn spec_raw(&self) -> char {
        self.raw
    }

    /// The digit character.
    pub fn raw(&self) -> (r: char)
        ensures
            r == self.spec_raw(),
    {
        self.raw
    }

    /// The digit's mathematical value (MV).
    pub fn mv(&self) -> (r: u8)
        requires
            is_hex_digit_char(self.spec_raw()),
        ensures
            r == hex_value(self.spec_raw()),
            r < 16,
    {
        let c = self.raw;
        if '0' <= c && c <= '9' {
            (c as u32 - '0' as u32) as u8
        } else if 'a' <= c && c <= 'f' {
            (c as u32 - 'a' as u32 + 10) as u8
        } else {
            (c as u32 - 'A' as u32 + 10) as u8
        }
    }
}

impl Spanned for HexDigit {
    closed spec fn spec_span(&self) -> Span {
        self.span
    }

    fn span(&self) -> (r: Span) {
        self.span
    }
}

impl LexT for HexDigit {
    open spec fn spec_peek(chars: Seq<char>, pos: int) -> bool {
        0 <= pos < chars.len() && is_hex_digit_char(chars[pos])
    }

    open spec fn spec_errs(chars: Seq<char>, pos: int) -> bool {
        false
    }

    open spec fn spec_lexed(chars: Seq<char>, pos: int, end: int, tok: Self) -> bool {
        end == pos + 1 && tok.spec_raw() == chars[pos]
    }

    fn peek(input: &SourceStream) -> (r: bool) {
        match input.peek() {
            Some(c) => is_hex_digit(c),
            None => false,
        }
    }

    /// Consumes the digit.
    fn lex(input: &mut SourceStream) -> (r: Result<Self, LexError>)
        ensures
            final(input).pos() == old(input).pos() + 1,
            r matches Ok(d) && d.spec_raw() == old(input).chars()[old(input).pos()],
    {
        let start = input.index();
        let raw = match input.take() {
            Some((_, c)) => c,
            None => '0',
        };
        Ok(HexDigit { span: Span::new(start, start + 1), raw })
    }
}

} // verus!

verus! {

/// `+`
#[derive(Debug, Clone, Copy)]
pub struct Plus {
    span: Span,
}

impl Spanned for Plus {
    closed spec fn spec_span(&self) -> Span {
        self.span
    }

    fn span(&self) -> (r: Span) {
        self.span
    }
}

impl LexT for Plus {
    open spec fn spec_peek(chars: Seq<char>, pos: int) -> bool {
        0 <= pos < chars.len() && {
            let c = chars[pos];
            c == '+'
        }
    }

    open spec fn spec_errs(chars: Seq<char>, pos: int) -> bool {
        false
    }

    open spec fn spec_lexed(chars: Seq<char>, pos: int, end: int, tok: Self) -> bool {
        end == pos + 1
    }

    fn peek(input: &SourceStream) -> (r: bool) {
        match input.peek() {
            Some(c) => c == '+',
            None => false,
        }
    }

    fn lex(input: &mut SourceStream) -> (r: Result<Self, LexError>)
        ensures
            r is Ok,
            final(input).pos() == old(input).pos() + 1,
    {
        let start = input.index();
        input.advance(1);
        Ok(Plus { span: Span::new(start, start + 1) })
    }
}

/// `-`
#[derive(Debug, Clone, Copy)]
pub struct Minus {
    span: Span,
}

impl Spanned for Minus {
    closed spec fn spec_span(&self) -> Span {
        self.span
    }

    fn span(&self) -> (r: Span) {
        self.span
    }
}

impl LexT for Minus {
    open spec fn spec_peek(chars: Seq<char>, pos: int) -> bool {
        0 <= pos < chars.len() && {
            let c = chars[pos];
            c == '-'
        }
    }

    open spec fn spec_errs(chars: Seq<char>, pos: int) -> bool {
        false
    }

    open spec fn spec_lexed(chars: Seq<char>, pos: int, end: int, tok: Self) -> bool {
        end == pos + 1
    }

    fn peek(input: &SourceStream) -> (r: bool) {
        match input.peek() {
            Some(c) => c == '-',
            None => false,
        }
    }

    fn lex(input: &mut SourceStream) -> (r: Result<Self, LexError>)
        ensures
            r is Ok,
            final(input).pos() == old(input).pos() + 1,
    {
        let start = input.index();
        input.advance(1);
        Ok(Minus { span: Span::new(start, start + 1) })
    }
}

/// `.`
#[derive(Debug, Clone, Copy)]
pub struct Dot {
    span: Span,
}

impl Spanned for Dot {
    closed spec fn spec_span(&self) -> Span {
        self.span
    }

    fn span(&self) -> (r: Span) {
        self.span
    }
}

impl LexT for Dot {
    open spec fn spec_peek(chars: Seq<char>, pos: int) -> bool {
        0 <= pos < chars.len() && {
            let c = chars[pos];
            c == '.'
        }
    }

    open spec fn spec_errs(chars: Seq<char>, pos: int) -> bool {
        false
    }

    open spec fn spec_lexed(chars: Seq<char>, pos: int, end: int, tok: Self) -> bool {
        end == pos + 1
    }

    fn peek(input: &SourceStream) -> (r: bool) {
        match input.peek() {
            Some(c) => c == '.',
            None => false,
        }
    }

    fn lex(input: &mut SourceStream) -> (r: Result<Self, LexError>)
        ensures
            r is Ok,
            final(input).pos() == old(input).pos() + 1,
    {
        let start = input.index();
        input.advance(1);
        Ok(Dot { span: Span::new(start, start + 1) })
    }
}

/// The digit `0`.
#[derive(Debug, Clone, Copy)]
pub struct Zero {
    span: Span,
}

impl Spanned for Zero {
    closed spec fn spec_span(&self) -> Span {
        self.span
    }

    fn span(&self) -> (r: Span) {
        self.span
    }
}

impl LexT for Zero {
    open spec fn spec_peek(chars: Seq<char>, pos: int) -> bool {
        0 <= pos < chars.len() && {
            let c = chars[pos];
            c == '0'
        }
    }

    open spec fn spec_errs(chars: Seq<char>, pos: int) -> bool {
        false
    }

    open spec fn spec_lexed(chars: Seq<char>, pos: int, end: int, tok: Self) -> bool {
        end == pos + 1
    }

    fn peek(input: &SourceStream) -> (r: bool) {
        match input.peek() {
            Some(c) => c == '0',
            None => false,
        }
    }

    fn lex(input: &mut SourceStream) -> (r: Result<Self, LexError>)
        ensures
            r is Ok,
            final(input).pos() == old(input).pos() + 1,
    {
        let start = input.index();
        input.advance(1);
        Ok(Zero { span: Span::new(start, start + 1) })
    }
}

/// A digit from `1` to `9`.
#[derive(Debug, Clone, Copy)]
pub struct NonZero {
    span: Span,
}

impl Spanned for NonZero {
    closed spec fn spec_span(&self) -> Span {
        self.span
    }

    fn span(&self) -> (r: Span) {
        self.span
    }
}

impl LexT for NonZero {
    open spec fn spec_peek(chars: Seq<char>, pos: int) -> bool {
        0 <= pos < chars.len() && {
            let c = chars[pos];
            '1' <= c <= '9'
        }
    }

    open spec fn spec_errs(chars: Seq<char>, pos: int) -> bool {
        false
    }

    open spec fn spec_lexed(chars: Seq<char>, pos: int, end: int, tok: Self) -> bool {
        end == pos + 1
    }

    fn peek(input: &SourceStream) -> (r: bool) {
        match input.peek() {
            Some(c) => '1' <= c && c <= '9',
            None => false,
        }
    }

    fn lex(input: &mut SourceStream) -> (r: Result<Self, LexError>)
        ensures
            r is Ok,
            final(input).pos() == old(input).pos() + 1,
    {
        let start = input.index();
        input.advance(1);
        Ok(NonZero { span: Span::new(start, start + 1) })
    }
}

/// `E`, introducing an exponent.
#[derive(Debug, Clone, Copy)]
pub struct E {
    span: Span,
}

impl Spanned for E {
    closed spec fn spec_span(&self) -> Span {
        self.span
    }

    fn span(&self) -> (r: Span) {
        self.span
    }
}

impl LexT for E {
    open spec fn spec_peek(chars: Seq<char>, pos: int) -> bool {
        0 <= pos < chars.len() && {
            let c = chars[pos];
            c == 'E'
        }
    }

    open spec fn spec_errs(chars: Seq<char>, pos: int) -> bool {
        false
    }

    open spec fn spec_lexed(chars: Seq<char>, pos: int, end: int, tok: Self) -> bool {
        end == pos + 1
    }

    fn peek(input: &SourceStream) -> (r: bool) {
        match input.peek() {
            Some(c) => c == 'E',
            None => false,
        }
    }

    fn lex(input: &mut SourceStream) -> (r: Result<Self, LexError>)
        ensures
            r is Ok,
            final(input).pos() == old(input).pos() + 1,
    {
        let start = input.index();
        input.advance(1);
        Ok(E { span: Span::new(start, start + 1) })
    }
}

/// `e`, introducing an exponent.
#[derive(Debug, Clone, Copy)]
#[allow(non_camel_case_types)]
pub struct e {
    span: Span,
}

impl Spanned for e {
    closed spec fn spec_span(&self) -> Span {
        self.span
    }

    fn span(&self) -> (r: Span) {
        self.span
    }
}

impl LexT for e {
    open spec fn spec_peek(chars: Seq<char>, pos: int) -> bool {
        0 <= pos < chars.len() && {
            let c = chars[pos];
            c == 'e'
        }
    }

    open spec fn spec_errs(chars: Seq<char>, pos: int) -> bool {
        false
    }

    open spec fn spec_lexed(chars: Seq<char>, pos: int, end: int, tok: Self) -> bool {
        end == pos + 1
    }

    fn peek(input: &SourceStream) -> (r: bool) {
        match input.peek() {
            Some(c) => c == 'e',
            None => false,
        }
    }

    fn lex(input: &mut SourceStream) -> (r: Result<Self, LexError>)
        ensures
            r is Ok,
            final(input).pos() == old(input).pos() + 1,
    {
        let start = input.index();
        input.advance(1);
        Ok(e { span: Span::new(start, start + 1) })
    }
}

/// The keyword `Infinity`.
#[derive(Debug, Clone, Copy)]
pub struct Infinity {
    span: Span,
}

impl Spanned for Infinity {
    closed spec fn spec_span(&self) -> Span {
        self.span
    }

    fn span(&self) -> (r: Span) {
        self.span
    }
}

impl LexT for Infinity {
    open spec fn spec_peek(chars: Seq<char>, pos: int) -> bool {
        upcoming_at(chars, pos, seq!['I', 'n', 'f', 'i', 'n', 'i', 't', 'y'])
    }

    open spec fn spec_errs(chars: Seq<char>, pos: int) -> bool {
        false
    }

    open spec fn spec_lexed(chars: Seq<char>, pos: int, end: int, tok: Self) -> bool {
        end == pos + 8
    }

    fn peek(input: &SourceStream) -> (r: bool) {
        let lit = vec!['I', 'n', 'f', 'i', 'n', 'i', 't', 'y'];
        input.upcoming_chars(lit.as_slice())
    }

    fn lex(input: &mut SourceStream) -> (r: Result<Self, LexError>)
        ensures
            r is Ok,
            final(input).pos() == old(input).pos() + 8,
    {
        let start = input.index();
        input.advance(8);
        Ok(Infinity { span: Span::new(start, start + 8) })
    }
}

/// The keyword `NaN`.
#[derive(Debug, Clone, Copy)]
pub struct NaN {
    span: Span,
}

impl Spanned for NaN {
    closed spec fn spec_span(&self) -> Span {
        self.span
    }

    fn span(&self) -> (r: Span) {
        self.span
    }
}

impl LexT for NaN {
    open spec fn spec_peek(chars: Seq<char>, pos: int) -> bool {
        upcoming_at(chars, pos, seq!['N', 'a', 'N'])
    }

    open spec fn spec_errs(chars: Seq<char>, pos: int) -> bool {
        false
    }

    open spec fn spec_lexed(chars: Seq<char>, pos: int, end: int, tok: Self) -> bool {
        end == pos + 3
    }

    fn peek(input: &SourceStream) -> (r: bool) {
        let lit = vec!['N', 'a', 'N'];
        input.upcoming_chars(lit.as_slice())
    }

    fn lex(input: &mut SourceStream) -> (r: Result<Self, LexError>)
        ensures
            r is Ok,
            final(input).pos() == old(input).pos() + 3,
    {
        let start = input.index();
        input.advance(3);
        Ok(NaN { span: Span::new(start, start + 3) })
    }
}

/// `0x`
#[derive(Debug, Clone, Copy)]
pub struct LowercaseHexPrefix {
    span: Span,
}

impl Spanned for LowercaseHexPrefix {
    closed spec fn spec_span(&self) -> Span {
        self.span
    }

    fn span(&self) -> (r: Span) {
        self.span
    }
}

impl LexT for LowercaseHexPrefix {
    open spec fn spec_peek(chars: Seq<char>, pos: int) -> bool {
        upcoming_at(chars, pos, seq!['0', 'x'])
    }

    open spec fn spec_errs(chars: Seq<char>, pos: int) -> bool {
        false
    }

    open spec fn spec_lexed(chars: Seq<char>, pos: int, end: int, tok: Self) -> bool {
        end == pos + 2
    }

    fn peek(input: &SourceStream) -> (r: bool) {
        let lit = vec!['0', 'x'];
        input.upcoming_chars(lit.as_slice())
    }

    fn lex(input: &mut SourceStream) -> (r: Result<Self, LexError>)
        ensures
            r is Ok,
            final(input).pos() == old(input).pos() + 2,
    {
        let start = input.index();
        input.advance(2);
        Ok(LowercaseHexPrefix { span: Span::new(start, start + 2) })
    }
}

/// `0X`
#[derive(Debug, Clone, Copy)]
pub struct UppercaseHexPrefix {
    span: Span,
}

impl Spanned for UppercaseHexPrefix {
    closed spec fn spec_span(&self) -> Span {
        self.span
    }

    fn span(&self) -> (r: Span) {
        self.span
    }
}

impl LexT for UppercaseHexPrefix {
    open spec fn spec_peek(chars: Seq<char>, pos: int) -> bool {
        upcoming_at(chars, pos, seq!['0', 'X'])
    }

    open spec fn spec_errs(chars: Seq<char>, pos: int) -> bool {
        false
    }

    open spec fn spec_lexed(chars: Seq<char>, pos: int, end: int, tok: Self) -> bool {
        end == pos + 2
    }

    fn peek(input: &SourceStream) -> (r: bool) {
        let lit = vec!['0', 'X'];
        input.upcoming_chars(lit.as_slice())
    }

    fn lex(input: &mut SourceStream) -> (r: Result<Self, LexError>)
        ensures
            r is Ok,
            final(input).pos() == old(input).pos() + 2,
    {
        let start = input.index();
        input.advance(2);
        Ok(UppercaseHexPrefix { span: Span::new(start, start + 2) })
    }
}

} // verus!

verus! {

/// The end of the run of ASCII decimal digits that begins at `pos` of `chars`.
pub open spec fn digit_run_end(chars: Seq<char>, pos: int) -> int
    decreases chars.len() - pos,
{
    if 0 <= pos < chars.len() && is_decimal_digit_char(chars[pos]) {
        digit_run_end(chars, pos + 1)
    } else {
        pos
    }
}

/// The end of the run of hexadecimal digits that begins at `pos` of `chars`.
pub open spec fn hex_run_end(chars: Seq<char>, pos: int) -> int
    decreases chars.len() - pos,
{
    if 0 <= pos < chars.len() && is_hex_digit_char(chars[pos]) {
        hex_run_end(chars, pos + 1)
    } else {
        pos
    }
}

/// A run of digits `[a, b)` that nothing extends is the run beginning at `a`.
proof fn lemma_digit_run(chars: Seq<char>, a: int, b: int)
    requires
        0 <= a <= b <= chars.len(),
        forall|k: int| a <= k < b ==> is_decimal_digit_char(#[trigger] chars[k]),
        b == chars.len() || !is_decimal_digit_char(chars[b]),
    ensures
        digit_run_end(chars, a) == b,
    decreases b - a,
{
    if a < b {
        lemma_digit_run(chars, a + 1, b);
    }
}

/// A run of hexadecimal digits `[a, b)` that nothing extends is the run beginning at `a`.
pub proof fn lemma_hex_run(chars: Seq<char>, a: int, b: int)
    requires
        0 <= a <= b <= chars.len(),
        forall|k: int| a <= k < b ==> is_hex_digit_char(#[trigger] chars[k]),
        b == chars.len() || !is_hex_digit_char(chars[b]),
    ensures
        hex_run_end(chars, a) == b,
    decreases b - a,
{
    if a < b {
        lemma_hex_run(chars, a + 1, b);
    }
}

/// Whether an ASCII decimal digit is at `pos` of `chars`.
pub open spec fn digit_at(chars: Seq<char>, pos: int) -> bool {
    0 <= pos < chars.len() && is_decimal_digit_char(chars[pos])
}

/// Where a decimal integer literal that begins at `pos` ends: just after a leading `0`, which
/// takes no further digits, or at the end of the run of digits.
pub open spec fn int_lit_end(chars: Seq<char>, pos: int) -> int {
    if chars[pos] == '0' {
        pos + 1
    } else {
        digit_run_end(chars, pos)
    }
}

/// Where the digits of a signed integer that begins at `pos` begin.
pub open spec fn signed_digits_start(chars: Seq<char>, pos: int) -> int {
    if chars[pos] == '+' || chars[pos] == '-' {
        pos + 1
    } else {
        pos
    }
}

/// Whether an exponent part that begins at `pos` (at its `e` or `E`) is well-formed.
pub open spec fn exponent_ok(chars: Seq<char>, pos: int) -> bool {
    pos + 1 < chars.len() && digit_at(chars, signed_digits_start(chars, pos + 1))
}

/// Where an exponent part that begins at `pos` ends.
pub open spec fn exponent_end(chars: Seq<char>, pos: int) -> int {
    digit_run_end(chars, signed_digits_start(chars, pos + 1))
}

/// Whether an exponent part begins at `pos`.
pub open spec fn exponent_at(chars: Seq<char>, pos: int) -> bool {
    0 <= pos < chars.len() && (chars[pos] == 'e' || chars[pos] == 'E')
}

/// A run of ASCII decimal digits.
#[derive(Debug, Clone, Copy)]
pub struct DecimalDigits {
    span: Span,
}

impl Spanned for DecimalDigits {
    closed spec fn spec_span(&self) -> Span {
        self.span
    }

    fn span(&self) -> (r: Span) {
        self.span
    }
}

impl LexT for DecimalDigits {
    open spec fn spec_peek(chars: Seq<char>, pos: int) -> bool {
        digit_at(chars, pos)
    }

    open spec fn spec_errs(chars: Seq<char>, pos: int) -> bool {
        false
    }

    open spec fn spec_lexed(chars: Seq<char>, pos: int, end: int, tok: Self) -> bool {
        end == digit_run_end(chars, pos)
    }

    fn peek(input: &SourceStream) -> (r: bool) {
        match input.peek() {
            Some(c) => is_decimal_digit(c),
            None => false,
        }
    }

    /// Consumes the longest run of digits.
    fn lex(input: &mut SourceStream) -> (r: Result<Self, LexError>)
        ensures
            r is Ok,
            final(input).pos() == digit_run_end(old(input).chars(), old(input).pos()),
    {
        let start = input.index();
        let _ = input.take_while(is_decimal_digit);
        proof {
            lemma_digit_run(old(input).chars(), old(input).pos(), input.pos());
        }
        Ok(DecimalDigits { span: Span::new(start, input.index()) })
    }
}

/// A decimal integer literal: `0` alone, or a non-zero digit and any digits after it.
#[derive(Debug, Clone, Copy)]
pub enum DecimalIntegerLiteral {
    /// `0`
    Zero(Zero),
    /// `1`..`9`, then digits.
    NonZero(NonZero, Option<DecimalDigits>),
}

impl Spanned for DecimalIntegerLiteral {
    open spec fn spec_span(&self) -> Span {
        match self {
            DecimalIntegerLiteral::Zero(z) => z.spec_span(),
            DecimalIntegerLiteral::NonZero(n, None) => n.spec_span(),
            DecimalIntegerLiteral::NonZero(n, Some(d)) => Span {
                start: n.spec_span().start,
                end: d.spec_span().end,
            },
        }
    }

    fn span(&self) -> (r: Span) {
        match self {
            DecimalIntegerLiteral::Zero(z) => z.span(),
            DecimalIntegerLiteral::NonZero(n, None) => n.span(),
            DecimalIntegerLiteral::NonZero(n, Some(d)) => Span { start: n.span().start, end: d.span().end },
        }
    }
}

impl LexT for DecimalIntegerLiteral {
    open spec fn spec_peek(chars: Seq<char>, pos: int) -> bool {
        digit_at(chars, pos)
    }

    open spec fn spec_errs(chars: Seq<char>, pos: int) -> bool {
        false
    }

    open spec fn spec_lexed(chars: Seq<char>, pos: int, end: int, tok: Self) -> bool {
        end == int_lit_end(chars, pos)
    }

    fn peek(input: &SourceStream) -> (r: bool) {
        match input.peek() {
            Some(c) => is_decimal_digit(c),
            None => false,
        }
    }

    /// Consumes `0` alone, or a non-zero digit and the digits after it.
    fn lex(input: &mut SourceStream) -> (r: Result<Self, LexError>)
        ensures
            r is Ok,
            final(input).pos() == int_lit_end(old(input).chars(), old(input).pos()),
    {
        if <Zero as LexT>::peek(input) {
            return match <Zero as LexT>::lex(input) {
                Ok(z) => Ok(DecimalIntegerLiteral::Zero(z)),
                Err(e) => Err(e),
            };
        }
        let n = match <NonZero as LexT>::lex(input) {
            Ok(n) => n,
            Err(e) => return Err(e),
        };
        proof {
            let chars = old(input).chars();
            let p = old(input).pos();
            assert(digit_run_end(chars, p) == digit_run_end(chars, p + 1));
            assert(!digit_at(chars, p + 1) ==> digit_run_end(chars, p + 1) == p + 1);
        }
        if <DecimalDigits as LexT>::peek(input) {
            match <DecimalDigits as LexT>::lex(input) {
                Ok(d) => Ok(DecimalIntegerLiteral::NonZero(n, Some(d))),
                Err(e) => Err(e),
            }
        } else {
            Ok(DecimalIntegerLiteral::NonZero(n, None))
        }
    }
}

/// `+` or `-`.
#[derive(Debug, Clone, Copy)]
pub enum Sign {
    /// `+`
    Positive(Plus),
    /// `-`
    Negative(Minus),
}

impl Spanned for Sign {
    open spec fn spec_span(&self) -> Span {
        match self {
            Sign::Positive(p) => p.spec_span(),
            Sign::Negative(m) => m.spec_span(),
        }
    }

    fn span(&self) -> (r: Span) {
        match self {
            Sign::Positive(p) => p.span(),
            Sign::Negative(m) => m.span(),
        }
    }
}

impl LexT for Sign {
    open spec fn spec_peek(chars: Seq<char>, pos: int) -> bool {
        0 <= pos < chars.len() && (chars[pos] == '+' || chars[pos] == '-')
    }

    open spec fn spec_errs(chars: Seq<char>, pos: int) -> bool {
        false
    }

    open spec fn spec_lexed(chars: Seq<char>, pos: int, end: int, tok: Self) -> bool {
        end == pos + 1 && (tok is Negative <==> chars[pos] == '-')
    }

    fn peek(input: &SourceStream) -> (r: bool) {
        <Plus as LexT>::peek(input) || <Minus as LexT>::peek(input)
    }

    /// Consumes the sign.
    fn lex(input: &mut SourceStream) -> (r: Result<Self, LexError>)
        ensures
            final(input).pos() == old(input).pos() + 1,
            r matches Ok(s) && (s is Negative <==> old(input).chars()[old(input).pos()] == '-'),
    {
        if <Plus as LexT>::peek(input) {
            match <Plus as LexT>::lex(input) {
                Ok(p) => Ok(Sign::Positive(p)),
                Err(e) => Err(e),
            }
        } else {
            match <Minus as LexT>::lex(input) {
                Ok(m) => Ok(Sign::Negative(m)),
                Err(e) => Err(e),
            }
        }
    }
}

/// Digits with an optional sign, as in an exponent.
#[derive(Debug, Clone, Copy)]
pub enum SignedInteger {
    /// No sign.
    Unsigned(DecimalDigits),
    /// `+` and digits.
    Positive(Plus, DecimalDigits),
    /// `-` and digits.
    Negative(Minus, DecimalDigits),
}

impl Spanned for SignedInteger {
    open spec fn spec_span(&self) -> Span {
        match self {
            SignedInteger::Unsigned(d) => d.spec_span(),
            SignedInteger::Positive(p, d) => Span { start: p.spec_span().start, end: d.spec_span().end },
            SignedInteger::Negative(m, d) => Span { start: m.spec_span().start, end: d.spec_span().end },
        }
    }

    fn span(&self) -> (r: Span) {
        match self {
            SignedInteger::Unsigned(d) => d.span(),
            SignedInteger::Positive(p, d) => Span { start: p.span().start, end: d.span().end },
            SignedInteger::Negative(m, d) => Span { start: m.span().start, end: d.span().end },
        }
    }
}

impl LexT for SignedInteger {
    open spec fn spec_peek(chars: Seq<char>, pos: int) -> bool {
        0 <= pos < chars.len() && (is_decimal_digit_char(chars[pos]) || chars[pos] == '+'
            || chars[pos] == '-')
    }

    open spec fn spec_errs(chars: Seq<char>, pos: int) -> bool {
        !digit_at(chars, signed_digits_start(chars, pos))
    }

    open spec fn spec_lexed(chars: Seq<char>, pos: int, end: int, tok: Self) -> bool {
        end == digit_run_end(chars, signed_digits_start(chars, pos))
    }

    fn peek(input: &SourceStream) -> (r: bool) {
        <DecimalDigits as LexT>::peek(input) || <Plus as LexT>::peek(input) || <Minus as LexT>::peek(
            input,
        )
    }

    /// Consumes an optional sign and the digits after it; an error when no digit follows the
    /// sign.
    fn lex(input: &mut SourceStream) -> (r: Result<Self, LexError>)
        ensures
            r is Ok <==> digit_at(
                old(input).chars(),
                signed_digits_start(old(input).chars(), old(input).pos()),
            ),
            r is Ok ==> final(input).pos() == digit_run_end(
                old(input).chars(),
                signed_digits_start(old(input).chars(), old(input).pos()),
            ),
    {
        if <DecimalDigits as LexT>::peek(input) {
            return match <DecimalDigits as LexT>::lex(input) {
                Ok(d) => Ok(SignedInteger::Unsigned(d)),
                Err(e) => Err(e),
            };
        }
        let positive = <Plus as LexT>::peek(input);
        let s = input.span();
        input.advance(1);
        if !<DecimalDigits as LexT>::peek(input) {
            return Err(input.error("Expected decimal digits after the sign."));
        }
        let d = match <DecimalDigits as LexT>::lex(input) {
            Ok(d) => d,
            Err(e) => return Err(e),
        };
        if positive {
            Ok(SignedInteger::Positive(Plus { span: s }, d))
        } else {
            Ok(SignedInteger::Negative(Minus { span: s }, d))
        }
    }
}

/// `E` or `e`.
#[derive(Debug, Clone, Copy)]
pub enum ExponentIdicator {
    /// `E`
    Uppercase(E),
    /// `e`
    Lowercase(e),
}

impl Spanned for ExponentIdicator {
    open spec fn spec_span(&self) -> Span {
        match self {
            ExponentIdicator::Uppercase(x) => x.spec_span(),
            ExponentIdicator::Lowercase(x) => x.spec_span(),
        }
    }

    fn span(&self) -> (r: Span) {
        match self {
            ExponentIdicator::Uppercase(x) => x.span(),
            ExponentIdicator::Lowercase(x) => x.span(),
        }
    }
}

/// An exponent: `e` or `E`, then a signed integer.
#[derive(Debug, Clone, Copy)]
pub struct ExponentPart {
    span: Span,
    indicator: ExponentIdicator,
    value: SignedInteger,
}

impl ExponentPart {
    /// `e` or `E`.
    pub closed spec fn spec_indicator(&self) -> ExponentIdicator {
        self.indicator
    }

    /// `e` or `E`.
    pub fn indicator(&self) -> (r: ExponentIdicator)
        ensures
            r == self.spec_indicator(),
    {
        self.indicator
    }

    /// The signed integer after the indicator.
    pub closed spec fn spec_value(&self) -> SignedInteger {
        self.value
    }

    /// The signed integer after the indicator.
    pub fn value(&self) -> (r: SignedInteger)
        ensures
            r == self.spec_value(),
    {
        self.value
    }
}

impl Spanned for ExponentPart {
    closed spec fn spec_span(&self) -> Span {
        self.span
    }

    fn span(&self) -> (r: Span) {
        self.span
    }
}

impl LexT for ExponentPart {
    open spec fn spec_peek(chars: Seq<char>, pos: int) -> bool {
        exponent_at(chars, pos)
    }

    open spec fn spec_errs(chars: Seq<char>, pos: int) -> bool {
        !exponent_ok(chars, pos)
    }

    open spec fn spec_lexed(chars: Seq<char>, pos: int, end: int, tok: Self) -> bool {
        end == exponent_end(chars, pos)
    }

    fn peek(input: &SourceStream) -> (r: bool) {
        <E as LexT>::peek(input) || <e as LexT>::peek(input)
    }

    /// Consumes the indicator and a signed integer; an error when the integer is missing.
    fn lex(input: &mut SourceStream) -> (r: Result<Self, LexError>)
        ensures
            r is Ok <==> exponent_ok(old(input).chars(), old(input).pos()),
            r is Ok ==> final(input).pos() == exponent_end(old(input).chars(), old(input).pos()),
    {
        let start = input.index();
        let indicator = if <E as LexT>::peek(input) {
            match <E as LexT>::lex(input) {
                Ok(x) => ExponentIdicator::Uppercase(x),
                Err(err) => return Err(err),
            }
        } else {
            match <e as LexT>::lex(input) {
                Ok(x) => ExponentIdicator::Lowercase(x),
                Err(err) => return Err(err),
            }
        };
        if !<SignedInteger as LexT>::peek(input) {
            return Err(input.error("Expected a signed integer (e.g. +1, -2, 4) in the exponent."));
        }
        match <SignedInteger as LexT>::lex(input) {
            Ok(value) => Ok(ExponentPart { span: Span::new(start, input.index()), indicator, value }),
            Err(err) => Err(err),
        }
    }
}

/// Lexes an exponent part if one begins at the cursor.
fn lex_optional_exponent(input: &mut SourceStream) -> (r: Result<Option<ExponentPart>, LexError>)
    requires
        old(input).wf(),
    ensures
        final(input).wf(),
        final(input).same_source(old(input)),
        old(input).pos() <= final(input).pos(),
        !exponent_at(old(input).chars(), old(input).pos()) ==> (r matches Ok(None) && *final(input)
            == *old(input)),
        exponent_at(old(input).chars(), old(input).pos()) ==> (r is Ok <==> exponent_ok(
            old(input).chars(),
            old(input).pos(),
        )),
        exponent_at(old(input).chars(), old(input).pos()) && r is Ok ==> (r matches Ok(Some(x))
            && x.spec_span() == span_of(old(input).pos(), final(input).pos()) && final(input).pos()
            == exponent_end(old(input).chars(), old(input).pos())),
{
    if <ExponentPart as LexT>::peek(input) {
        match <ExponentPart as LexT>::lex(input) {
            Ok(x) => Ok(Some(x)),
            Err(err) => Err(err),
        }
    } else {
        Ok(None)
    }
}

/// Where an optional exponent part that may begin at `pos` ends.
pub open spec fn opt_exponent_end(chars: Seq<char>, pos: int) -> int {
    if exponent_at(chars, pos) {
        exponent_end(chars, pos)
    } else {
        pos
    }
}

/// Whether an optional exponent part that may begin at `pos` is well-formed.
pub open spec fn opt_exponent_ok(chars: Seq<char>, pos: int) -> bool {
    exponent_at(chars, pos) ==> exponent_ok(chars, pos)
}

/// `1.`, `1.5`, `1.5e3`: an integer, a dot, optional digits and an optional exponent.
#[derive(Debug, Clone, Copy)]
pub struct IntegralDecimalMantissa {
    span: Span,
    integer: DecimalIntegerLiteral,
    fraction: Option<DecimalDigits>,
    exponent: Option<ExponentPart>,
}

/// `.5`, `.5e3`: a dot, digits and an optional exponent.
#[derive(Debug, Clone, Copy)]
pub struct DecimalMantissa {
    span: Span,
    fraction: DecimalDigits,
    exponent: Option<ExponentPart>,
}

/// `15`, `15e3`: an integer and an optional exponent.
#[derive(Debug, Clone, Copy)]
pub struct Integer {
    span: Span,
    integer: DecimalIntegerLiteral,
    exponent: Option<ExponentPart>,
}

impl IntegralDecimalMantissa {
    /// The digits after the dot, if any.
    pub closed spec fn spec_fraction(&self) -> Option<DecimalDigits> {
        self.fraction
    }

    /// The digits after the dot, if any.
    pub fn fraction(&self) -> (r: Option<DecimalDigits>)
        ensures
            r == self.spec_fraction(),
    {
        self.fraction
    }

    /// The exponent, if any.
    pub closed spec fn spec_exponent(&self) -> Option<ExponentPart> {
        self.exponent
    }

    /// The exponent, if any.
    pub fn exponent(&self) -> (r: Option<ExponentPart>)
        ensures
            r == self.spec_exponent(),
    {
        self.exponent
    }
}

impl DecimalMantissa {
    /// The exponent, if any.
    pub closed spec fn spec_exponent(&self) -> Option<ExponentPart> {
        self.exponent
    }

    /// The exponent, if any.
    pub fn exponent(&self) -> (r: Option<ExponentPart>)
        ensures
            r == self.spec_exponent(),
    {
        self.exponent
    }
}

impl Integer {
    /// The exponent, if any.
    pub closed spec fn spec_exponent(&self) -> Option<ExponentPart> {
        self.exponent
    }

    /// The exponent, if any.
    pub fn exponent(&self) -> (r: Option<ExponentPart>)
        ensures
            r == self.spec_exponent(),
    {
        self.exponent
    }
}

impl Spanned for IntegralDecimalMantissa {
    closed spec fn spec_span(&self) -> Span {
        self.span
    }

    fn span(&self) -> (r: Span) {
        self.span
    }
}

impl Spanned for DecimalMantissa {
    closed spec fn spec_span(&self) -> Span {
        self.span
    }

    fn span(&self) -> (r: Span) {
        self.span
    }
}

impl Spanned for Integer {
    closed spec fn spec_span(&self) -> Span {
        self.span
    }

    fn span(&self) -> (r: Span) {
        self.span
    }
}

impl LexT for IntegralDecimalMantissa {
    open spec fn spec_peek(chars: Seq<char>, pos: int) -> bool {
        digit_at(chars, pos) && char_at(chars, int_lit_end(chars, pos)) == Some('.')
    }

    open spec fn spec_errs(chars: Seq<char>, pos: int) -> bool {
        !opt_exponent_ok(chars, after_fraction(chars, pos))
    }

    open spec fn spec_lexed(chars: Seq<char>, pos: int, end: int, tok: Self) -> bool {
        end == opt_exponent_end(chars, after_fraction(chars, pos))
    }

    /// Looks past the integer, on a copy of the stream, for the dot.
    fn peek(input: &SourceStream) -> (r: bool) {
        if !<DecimalIntegerLiteral as LexT>::peek(input) {
            return false;
        }
        let mut fork = *input;
        let _ = <DecimalIntegerLiteral as LexT>::lex(&mut fork);
        <Dot as LexT>::peek(&fork)
    }

    /// Consumes the integer, the dot, any digits, and an optional exponent.
    fn lex(input: &mut SourceStream) -> (r: Result<Self, LexError>)
        ensures
            r is Ok <==> opt_exponent_ok(old(input).chars(), after_fraction(old(input).chars(), old(input).pos())),
            r is Ok ==> final(input).pos() == opt_exponent_end(
                old(input).chars(),
                after_fraction(old(input).chars(), old(input).pos()),
            ),
    {
        let start = input.index();
        let integer = match <DecimalIntegerLiteral as LexT>::lex(input) {
            Ok(i) => i,
            Err(err) => return Err(err),
        };
        input.advance(1);
        let fraction = if <DecimalDigits as LexT>::peek(input) {
            match <DecimalDigits as LexT>::lex(input) {
                Ok(d) => Some(d),
                Err(err) => return Err(err),
            }
        } else {
            None
        };
        let exponent = match lex_optional_exponent(input) {
            Ok(x) => x,
            Err(err) => return Err(err),
        };
        Ok(IntegralDecimalMantissa { span: Span::new(start, input.index()), integer, fraction, exponent })
    }
}

/// Where the digits after the dot of an integral decimal mantissa beginning at `pos` end.
pub open spec fn after_fraction(chars: Seq<char>, pos: int) -> int {
    digit_run_end(chars, int_lit_end(chars, pos) + 1)
}

impl LexT for DecimalMantissa {
    open spec fn spec_peek(chars: Seq<char>, pos: int) -> bool {
        0 <= pos < chars.len() && chars[pos] == '.'
    }

    open spec fn spec_errs(chars: Seq<char>, pos: int) -> bool {
        !(digit_at(chars, pos + 1) && opt_exponent_ok(chars, digit_run_end(chars, pos + 1)))
    }

    open spec fn spec_lexed(chars: Seq<char>, pos: int, end: int, tok: Self) -> bool {
        end == opt_exponent_end(chars, digit_run_end(chars, pos + 1))
    }

    fn peek(input: &SourceStream) -> (r: bool) {
        <Dot as LexT>::peek(input)
    }

    /// Consumes the dot, the digits (an error when there are none), and an optional exponent.
    fn lex(input: &mut SourceStream) -> (r: Result<Self, LexError>)
        ensures
            r is Ok <==> digit_at(old(input).chars(), old(input).pos() + 1) && opt_exponent_ok(
                old(input).chars(),
                digit_run_end(old(input).chars(), old(input).pos() + 1),
            ),
            r is Ok ==> final(input).pos() == opt_exponent_end(
                old(input).chars(),
                digit_run_end(old(input).chars(), old(input).pos() + 1),
            ),
    {
        let start = input.index();
        input.advance(1);
        if !<DecimalDigits as LexT>::peek(input) {
            return Err(input.error("Expected decimal digits [0-9] after the dot."));
        }
        let fraction = match <DecimalDigits as LexT>::lex(input) {
            Ok(d) => d,
            Err(err) => return Err(err),
        };
        let exponent = match lex_optional_exponent(input) {
            Ok(x) => x,
            Err(err) => return Err(err),
        };
        Ok(DecimalMantissa { span: Span::new(start, input.index()), fraction, exponent })
    }
}

impl LexT for Integer {
    open spec fn spec_peek(chars: Seq<char>, pos: int) -> bool {
        digit_at(chars, pos)
    }

    open spec fn spec_errs(chars: Seq<char>, pos: int) -> bool {
        !opt_exponent_ok(chars, int_lit_end(chars, pos))
    }

    open spec fn spec_lexed(chars: Seq<char>, pos: int, end: int, tok: Self) -> bool {
        end == opt_exponent_end(chars, int_lit_end(chars, pos))
    }

    fn peek(input: &SourceStream) -> (r: bool) {
        <DecimalIntegerLiteral as LexT>::peek(input)
    }

    /// Consumes the integer and an optional exponent.
    fn lex(input: &mut SourceStream) -> (r: Result<Self, LexError>)
        ensures
            r is Ok <==> opt_exponent_ok(old(input).chars(), int_lit_end(old(input).chars(), old(input).pos())),
            r is Ok ==> final(input).pos() == opt_exponent_end(
                old(input).chars(),
                int_lit_end(old(input).chars(), old(input).pos()),
            ),
    {
        let start = input.index();
        let integer = match <DecimalIntegerLiteral as LexT>::lex(input) {
            Ok(i) => i,
            Err(err) => return Err(err),
        };
        let exponent = match lex_optional_exponent(input) {
            Ok(x) => x,
            Err(err) => return Err(err),
        };
        Ok(Integer { span: Span::new(start, input.index()), integer, exponent })
    }
}

} // verus!
