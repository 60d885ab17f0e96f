//! Numeric values: decimal and hexadecimal literals, `Infinity` and `NaN`, with an optional
//! sign, and the check on the character that follows them.

use vstd::prelude::*;

use crate::chars::is_hex_digit_char;
use crate::identifier::IdentifierStart;
use crate::lex::LexT;
use crate::location::{Span, Spanned};
use crate::number::{
    after_fraction, digit_at, digit_run_end, hex_number, hex_run_end, int_lit_end, lemma_hex_run, opt_exponent_end,
    opt_exponent_ok, signed_digits_start, DecimalDigits, DecimalIntegerLiteral, DecimalMantissa,
    Dot, HexDigit, Infinity, Integer, IntegralDecimalMantissa, LowercaseHexPrefix, NaN, Sign,
    UppercaseHexPrefix,
};
use crate::result::LexError;
use crate::stream::SourceStream;

verus! {

/// Whether the character at `pos` of `chars` is allowed right after a numeric literal: it
/// must not begin an identifier nor be a decimal digit.
pub open spec fn after_check_ok(chars: Seq<char>, pos: int) -> bool {
    !(IdentifierStart::spec_peek(chars, pos) || digit_at(chars, pos))
}

/// Where a decimal literal that begins at `pos` ends: digits-dot first, then dot-digits,
/// then a plain integer.
pub open spec fn decimal_end(chars: Seq<char>, pos: int) -> int {
    if IntegralDecimalMantissa::spec_peek(chars, pos) {
        opt_exponent_end(chars, after_fraction(chars, pos))
    } else if 0 <= pos < chars.len() && chars[pos] == '.' {
        opt_exponent_end(chars, digit_run_end(chars, pos + 1))
    } else {
        opt_exponent_end(chars, int_lit_end(chars, pos))
    }
}

/// Whether lexing a decimal literal that begins at `pos` fails.
pub open spec fn decimal_errs(chars: Seq<char>, pos: int) -> bool {
    if IntegralDecimalMantissa::spec_peek(chars, pos) {
        IntegralDecimalMantissa::spec_errs(chars, pos)
    } else if 0 <= pos < chars.len() && chars[pos] == '.' {
        DecimalMantissa::spec_errs(chars, pos)
    } else {
        Integer::spec_errs(chars, pos)
    }
}

/// Where the body of a numeric literal that begins at `pos` ends.
pub open spec fn literal_end(chars: Seq<char>, pos: int) -> int {
    if hex_prefix_at(chars, pos) {
        hex_run_end(chars, pos + 2)
    } else {
        decimal_end(chars, pos)
    }
}

/// Where a numeric value (`Infinity`, `NaN` or a literal) that begins at `pos` ends.
pub open spec fn numeric_end(chars: Seq<char>, pos: int) -> int {
    if Infinity::spec_peek(chars, pos) {
        pos + 8
    } else if NaN::spec_peek(chars, pos) {
        pos + 3
    } else {
        literal_end(chars, pos)
    }
}

/// A decimal literal, in one of its three forms.
#[derive(Debug, Clone, Copy)]
pub enum DecimalLiteral {
    /// `1.`, `1.5`, `1.5e3`
    IntegralDecimalMantissa(IntegralDecimalMantissa),
    /// `.5`, `.5e3`
    DecimalMantissa(DecimalMantissa),
    /// `15`, `15e3`
    Integer(Integer),
}

impl Spanned for DecimalLiteral {
    open spec fn spec_span(&self) -> Span {
        match self {
            DecimalLiteral::IntegralDecimalMantissa(x) => x.spec_span(),
            DecimalLiteral::DecimalMantissa(x) => x.spec_span(),
            DecimalLiteral::Integer(x) => x.spec_span(),
        }
    }

    fn span(&self) -> (r: Span) {
        match self {
            DecimalLiteral::IntegralDecimalMantissa(x) => x.span(),
            DecimalLiteral::DecimalMantissa(x) => x.span(),
            DecimalLiteral::Integer(x) => x.span(),
        }
    }
}

impl LexT for DecimalLiteral {
    open spec fn spec_peek(chars: Seq<char>, pos: int) -> bool {
        digit_at(chars, pos) || (0 <= pos < chars.len() && chars[pos] == '.')
    }

    open spec fn spec_errs(chars: Seq<char>, pos: int) -> bool {
        decimal_errs(chars, pos)
    }

    open spec fn spec_lexed(chars: Seq<char>, pos: int, end: int, tok: Self) -> bool {
        end == decimal_end(chars, pos)
    }

    fn peek(input: &SourceStream) -> (r: bool) {
        <DecimalIntegerLiteral as LexT>::peek(input) || <Dot as LexT>::peek(input)
    }

    /// Tries digits-dot first, then dot-digits, then a plain integer.
    fn lex(input: &mut SourceStream) -> (r: Result<Self, LexError>)
        ensures
            IntegralDecimalMantissa::spec_peek(old(input).chars(), old(input).pos()) ==> (r is Ok
                ==> final(input).pos() == opt_exponent_end(
                old(input).chars(),
                after_fraction(old(input).chars(), old(input).pos()),
            )),
            !IntegralDecimalMantissa::spec_peek(old(input).chars(), old(input).pos()) && digit_at(
                old(input).chars(),
                old(input).pos(),
            ) ==> (r is Ok <==> opt_exponent_ok(
                old(input).chars(),
                int_lit_end(old(input).chars(), old(input).pos()),
            )) && (r is Ok ==> final(input).pos() == opt_exponent_end(
                old(input).chars(),
                int_lit_end(old(input).chars(), old(input).pos()),
            )),
    {
        if <IntegralDecimalMantissa as LexT>::peek(input) {
            match <IntegralDecimalMantissa as LexT>::lex(input) {
                Ok(x) => Ok(DecimalLiteral::IntegralDecimalMantissa(x)),
                Err(err) => Err(err),
            }
        } else if <DecimalMantissa as LexT>::peek(input) {
            match <DecimalMantissa as LexT>::lex(input) {
                Ok(x) => Ok(DecimalLiteral::DecimalMantissa(x)),
                Err(err) => Err(err),
            }
        } else {
            match <Integer as LexT>::lex(input) {
                Ok(x) => Ok(DecimalLiteral::Integer(x)),
                Err(err) => Err(err),
            }
        }
    }
}

/// `0x` or `0X`.
#[derive(Debug, Clone, Copy)]
pub enum HexPrefix {
    /// `0x`
    Lowercase(LowercaseHexPrefix),
    /// `0X`
    Uppercase(UppercaseHexPrefix),
}

impl Spanned for HexPrefix {
    open spec fn spec_span(&self) -> Span {
        match self {
            HexPrefix::Lowercase(x) => x.spec_span(),
            HexPrefix::Uppercase(x) => x.spec_span(),
        }
    }

    fn span(&self) -> (r: Span) {
        match self {
            HexPrefix::Lowercase(x) => x.span(),
            HexPrefix::Uppercase(x) => x.span(),
        }
    }
}

/// Whether `0x` or `0X` begins at `pos` of `chars`.
pub open spec fn hex_prefix_at(chars: Seq<char>, pos: int) -> bool {
    LowercaseHexPrefix::spec_peek(chars, pos) || UppercaseHexPrefix::spec_peek(chars, pos)
}

/// A hexadecimal integer: `0x` or `0X`, then one or more hexadecimal digits.
#[derive(Debug, Clone)]
pub struct HexIntegerLiteral {
    span: Span,
    prefix: HexPrefix,
    digits: Vec<HexDigit>,
}

/// The characters of a sequence of hexadecimal digits.
pub open spec fn digit_raws(ds: Seq<HexDigit>) -> Seq<char> {
    ds.map_values(|d: HexDigit| d.spec_raw())
}

/// Extending a run of hexadecimal digits never lowers its value.
proof fn lemma_hex_number_grows(s: Seq<char>, i: int, j: int)
    requires
        0 <= i <= j <= s.len(),
        forall|k: int| 0 <= k < s.len() ==> is_hex_digit_char(#[trigger] s[k]),
    ensures
        hex_number(s.subrange(0, i)) <= hex_number(s.subrange(0, j)),
    decreases j - i,
{
    if i < j {
        lemma_hex_number_grows(s, i, j - 1);
        let t = s.subrange(0, j);
        assert(t.drop_last() =~= s.subrange(0, j - 1));
        assert(is_hex_digit_char(t.last()));
        assert(hex_number(s.subrange(0, j - 1)) >= 0) by {
            lemma_hex_number_nonneg(s.subrange(0, j - 1));
        }
    }
}

/// The value of hexadecimal digits is never negative.
proof fn lemma_hex_number_nonneg(s: Seq<char>)
    requires
        forall|k: int| 0 <= k < s.len() ==> is_hex_digit_char(#[trigger] s[k]),
    ensures
        hex_number(s) >= 0,
    decreases s.len(),
{
    if s.len() > 0 {
        lemma_hex_number_nonneg(s.drop_last());
        assert(is_hex_digit_char(s.last()));
    }
}

impl HexIntegerLiteral {
    /// The digit characters, most significant first.
    pub closed spec fn spec_digits(&self) -> Seq<char> {
        digit_raws(self.digits@)
    }

    /// The digits are all hexadecimal digits.
    pub open spec fn wf(&self) -> bool {
        forall|k: int|
            0 <= k < self.spec_digits().len() ==> is_hex_digit_char(#[trigger] self.spec_digits()[k])
    }

    /// The literal's mathematical value (MV): `None` when it does not fit in a `u64`.
    pub fn mv(&self) -> (r: Option<u64>)
        requires
            self.wf(),
        ensures
            r is Some <==> hex_number(self.spec_digits()) <= u64::MAX,
            r matches Some(v) ==> v == hex_number(self.spec_digits()),
    {
        let ghost ds = self.spec_digits();
        let mut value: u64 = 0;
        let mut i: usize = 0;
        while i < self.digits.len()
            invariant
                ds == self.spec_digits(),
                ds.len() == self.digits@.len(),
                self.wf(),
                i <= ds.len(),
                value == hex_number(ds.subrange(0, i as int)),
            decreases ds.len() - i,
        {
            assert(self.digits@[i as int].spec_raw() == ds[i as int]);
            let d = self.digits[i].mv();
            let ghost next = ds.subrange(0, i + 1);
            proof {
                assert(next.drop_last() =~= ds.subrange(0, i as int));
                assert(next.last() == ds[i as int]);
            }
            if value > (u64::MAX - d as u64) / 16 {
                proof {
                    assert(value * 16 + d > u64::MAX) by (nonlinear_arith)
                        requires
                            value > (u64::MAX - d as u64) / 16,
                            d < 16,
                    ;
                    lemma_hex_number_grows(ds, i + 1, ds.len() as int);
                    assert(ds.subrange(0, ds.len() as int) =~= ds);
                }
                return None;
            }
            proof {
                assert(value * 16 + d <= u64::MAX) by (nonlinear_arith)
                    requires
                        value <= (u64::MAX - d as u64) / 16,
                        d < 16,
                ;
            }
            value = value * 16 + d as u64;
            i += 1;
        }
        assert(ds.subrange(0, ds.len() as int) =~= ds);
        Some(value)
    }

    /// The prefix.
    pub closed spec fn spec_prefix(&self) -> HexPrefix {
        self.prefix
    }

    /// The prefix.
    pub fn prefix(&self) -> (r: HexPrefix)
        ensures
            r == self.spec_prefix(),
    {
        self.prefix
    }

    /// The digits.
    pub fn digits(&self) -> (r: &Vec<HexDigit>)
        ensures
            digit_raws(r@) == self.spec_digits(),
    {
        &self.digits
    }
}

impl Spanned for HexIntegerLiteral {
    closed spec fn spec_span(&self) -> Span {
        self.span
    }

    fn span(&self) -> (r: Span) {
        self.span
    }
}

impl LexT for HexIntegerLiteral {
    open spec fn spec_peek(chars: Seq<char>, pos: int) -> bool {
        hex_prefix_at(chars, pos)
    }

    open spec fn spec_errs(chars: Seq<char>, pos: int) -> bool {
        !(0 <= pos + 2 < chars.len() && is_hex_digit_char(chars[pos + 2]))
    }

    open spec fn spec_lexed(chars: Seq<char>, pos: int, end: int, tok: Self) -> bool {
        end == hex_run_end(chars, pos + 2) && tok.wf() && tok.spec_digits() == chars.subrange(pos + 2, end)
    }

    fn peek(input: &SourceStream) -> (r: bool) {
        <LowercaseHexPrefix as LexT>::peek(input) || <UppercaseHexPrefix as LexT>::peek(input)
    }

    /// Consumes the prefix and the longest run of hexadecimal digits; an error when there is
    /// no digit.
    fn lex(input: &mut SourceStream) -> (r: Result<Self, LexError>)
        ensures
            r is Ok <==> 0 <= old(input).pos() + 2 < old(input).chars().len() && is_hex_digit_char(
                old(input).chars()[old(input).pos() + 2],
            ),
            r is Ok ==> final(input).pos() == hex_run_end(old(input).chars(), old(input).pos() + 2),
            r matches Ok(h) ==> h.wf() && h.spec_digits() == old(input).chars().subrange(
                old(input).pos() + 2,
                final(input).pos(),
            ),
    {
        let start = input.index();
        let prefix = if <LowercaseHexPrefix as LexT>::peek(input) {
            match <LowercaseHexPrefix as LexT>::lex(input) {
                Ok(x) => HexPrefix::Lowercase(x),
                Err(err) => return Err(err),
            }
        } else {
            match <UppercaseHexPrefix as LexT>::lex(input) {
                Ok(x) => HexPrefix::Uppercase(x),
                Err(err) => return Err(err),
            }
        };
        if !<HexDigit as LexT>::peek(input) {
            return Err(input.error("Expected a hexadecimal digit here."));
        }
        let from = input.index();
        let mut digits: Vec<HexDigit> = Vec::new();
        while <HexDigit as LexT>::peek(input)
            invariant
                input.wf(),
                input.same_source(old(input)),
                from == old(input).pos() + 2,
                from <= input.pos(),
                forall|k: int| from <= k < input.pos() ==> is_hex_digit_char(
                    #[trigger] input.chars()[k],
                ),
                digit_raws(digits@) == input.chars().subrange(
                    from as int,
                    input.pos(),
                ),
            decreases input.chars().len() - input.pos(),
        {
            let ghost p0 = input.pos();
            match <HexDigit as LexT>::lex(input) {
                Ok(d) => {
                    let ghost prev = digits@;
                    let ghost prev_raws = digit_raws(prev);
                    digits.push(d);
                    let ghost raws = digit_raws(digits@);
                    let ghost sub = input.chars().subrange(from as int, input.pos());
                    assert(input.pos() == p0 + 1);
                    assert(prev_raws == input.chars().subrange(from as int, p0));
                    assert forall|k: int| 0 <= k < raws.len() implies raws[k] == sub[k] by {
                        if k < prev.len() {
                            assert(digits@[k] == prev[k]);
                            assert(prev_raws[k] == input.chars()[from + k]);
                        } else {
                            assert(digits@[k] == d);
                        }
                    }
                    assert(raws =~= sub);
                },
                Err(err) => return Err(err),
            }
        }
        proof {
            lemma_hex_run(old(input).chars(), from as int, input.pos());
        }
        Ok(HexIntegerLiteral { span: Span::new(start, input.index()), prefix, digits })
    }
}

/// A numeric literal: hexadecimal or decimal.
#[derive(Debug, Clone)]
pub enum NumericLiteral {
    /// A decimal literal.
    Decimal(DecimalLiteral),
    /// A hexadecimal integer.
    Hex(HexIntegerLiteral),
}

impl Spanned for NumericLiteral {
    open spec fn spec_span(&self) -> Span {
        match self {
            NumericLiteral::Decimal(x) => x.spec_span(),
            NumericLiteral::Hex(x) => x.spec_span(),
        }
    }

    fn span(&self) -> (r: Span) {
        match self {
            NumericLiteral::Decimal(x) => x.span(),
            NumericLiteral::Hex(x) => x.span(),
        }
    }
}

impl NumericLiteral {
    /// Whether the character at the cursor may follow a numeric literal: it must not begin an
    /// identifier nor be a decimal digit.
    pub fn after_check(input: &SourceStream) -> (r: bool)
        requires
            input.wf(),
        ensures
            r == after_check_ok(input.chars(), input.pos()),
    {
        !(<IdentifierStart as LexT>::peek(input) || <DecimalDigits as LexT>::peek(input))
    }
}

impl LexT for NumericLiteral {
    open spec fn spec_peek(chars: Seq<char>, pos: int) -> bool {
        hex_prefix_at(chars, pos) || DecimalLiteral::spec_peek(chars, pos)
    }

    open spec fn spec_errs(chars: Seq<char>, pos: int) -> bool {
        (if hex_prefix_at(chars, pos) {
            HexIntegerLiteral::spec_errs(chars, pos)
        } else {
            decimal_errs(chars, pos)
        }) || !after_check_ok(chars, literal_end(chars, pos))
    }

    open spec fn spec_lexed(chars: Seq<char>, pos: int, end: int, tok: Self) -> bool {
        end == literal_end(chars, pos) && after_check_ok(chars, end) && (tok is Hex <==> hex_prefix_at(chars, pos))
    }

    fn peek(input: &SourceStream) -> (r: bool) {
        <HexIntegerLiteral as LexT>::peek(input) || <DecimalLiteral as LexT>::peek(input)
    }

    /// Consumes a hexadecimal literal when `0x` or `0X` comes next, a decimal one otherwise;
    /// then an error if the next character begins an identifier or is a decimal digit.
    fn lex(input: &mut SourceStream) -> (r: Result<Self, LexError>)
        ensures
            r is Ok ==> after_check_ok(final(input).chars(), final(input).pos()),
            old(input).chars()[old(input).pos()] == '0' && digit_at(
                old(input).chars(),
                old(input).pos() + 1,
            ) ==> r is Err,
    {
        let lit = if <HexIntegerLiteral as LexT>::peek(input) {
            match <HexIntegerLiteral as LexT>::lex(input) {
                Ok(x) => NumericLiteral::Hex(x),
                Err(err) => return Err(err),
            }
        } else {
            match <DecimalLiteral as LexT>::lex(input) {
                Ok(x) => NumericLiteral::Decimal(x),
                Err(err) => return Err(err),
            }
        };
        if !NumericLiteral::after_check(input) {
            return Err(
                input.error(
                    "Unexpected character right after a number: expected neither a decimal digit nor the start of an identifier.",
                ),
            );
        }
        Ok(lit)
    }
}

/// A numeric value: `Infinity`, `NaN`, or a numeric literal.
#[derive(Debug, Clone)]
pub enum Numeric {
    /// `Infinity`
    Infinity(Infinity),
    /// `NaN`
    NaN(NaN),
    /// A numeric literal.
    Lit(NumericLiteral),
}

impl Spanned for Numeric {
    open spec fn spec_span(&self) -> Span {
        match self {
            Numeric::Infinity(x) => x.spec_span(),
            Numeric::NaN(x) => x.spec_span(),
            Numeric::Lit(x) => x.spec_span(),
        }
    }

    fn span(&self) -> (r: Span) {
        match self {
            Numeric::Infinity(x) => x.span(),
            Numeric::NaN(x) => x.span(),
            Numeric::Lit(x) => x.span(),
        }
    }
}

impl LexT for Numeric {
    open spec fn spec_peek(chars: Seq<char>, pos: int) -> bool {
        Infinity::spec_peek(chars, pos) || NaN::spec_peek(chars, pos) || NumericLiteral::spec_peek(
            chars,
            pos,
        )
    }

    open spec fn spec_errs(chars: Seq<char>, pos: int) -> bool {
        !Infinity::spec_peek(chars, pos) && !NaN::spec_peek(chars, pos) && NumericLiteral::spec_errs(chars, pos)
    }

    open spec fn spec_lexed(chars: Seq<char>, pos: int, end: int, tok: Self) -> bool {
        end == numeric_end(chars, pos) && (tok is Infinity <==> Infinity::spec_peek(chars, pos)) && (
            tok is NaN <==> !Infinity::spec_peek(chars, pos) && NaN::spec_peek(chars, pos))
    }

    fn peek(input: &SourceStream) -> (r: bool) {
        <Infinity as LexT>::peek(input) || <NaN as LexT>::peek(input) || <NumericLiteral as LexT>::peek(
            input,
        )
    }

    /// Consumes `Infinity`, `NaN`, or a numeric literal.
    fn lex(input: &mut SourceStream) -> (r: Result<Self, LexError>)
        ensures
            old(input).chars()[old(input).pos()] == '0' && digit_at(
                old(input).chars(),
                old(input).pos() + 1,
            ) ==> r is Err,
    {
        if <Infinity as LexT>::peek(input) {
            match <Infinity as LexT>::lex(input) {
                Ok(x) => Ok(Numeric::Infinity(x)),
                Err(err) => Err(err),
            }
        } else if <NaN as LexT>::peek(input) {
            match <NaN as LexT>::lex(input) {
                Ok(x) => Ok(Numeric::NaN(x)),
                Err(err) => Err(err),
            }
        } else {
            match <NumericLiteral as LexT>::lex(input) {
                Ok(x) => Ok(Numeric::Lit(x)),
                Err(err) => Err(err),
            }
        }
    }
}

/// A JSON5 number: an optional sign, then `Infinity`, `NaN`, or a numeric literal.
#[derive(Debug, Clone)]
pub struct Number {
    span: Span,
    sign: Option<Sign>,
    numeric: Numeric,
}

impl Number {
    /// A copy of this number.
    pub fn clone_number(&self) -> (r: Number)
        ensures
            r.spec_span() == self.spec_span(),
    {
        Number { span: self.span, sign: self.sign, numeric: self.numeric.clone() }
    }

    /// The sign, if any.
    pub closed spec fn spec_sign(&self) -> Option<Sign> {
        self.sign
    }

    /// The sign, if any.
    pub fn sign(&self) -> (r: Option<Sign>)
        ensures
            r == self.spec_sign(),
    {
        self.sign
    }

    /// What follows the sign.
    pub closed spec fn spec_numeric(&self) -> Numeric {
        self.numeric
    }

    /// What follows the sign.
    pub fn numeric(&self) -> (r: &Numeric)
        ensures
            *r == self.spec_numeric(),
    {
        &self.numeric
    }
}

impl Spanned for Number {
    closed spec fn spec_span(&self) -> Span {
        self.span
    }

    fn span(&self) -> (r: Span) {
        self.span
    }
}

impl LexT for Number {
    open spec fn spec_peek(chars: Seq<char>, pos: int) -> bool {
        Sign::spec_peek(chars, pos) || Numeric::spec_peek(chars, pos)
    }

    open spec fn spec_errs(chars: Seq<char>, pos: int) -> bool {
        !Numeric::spec_peek(chars, signed_digits_start(chars, pos)) || Numeric::spec_errs(
            chars,
            signed_digits_start(chars, pos),
        ) || !after_check_ok(chars, numeric_end(chars, signed_digits_start(chars, pos)))
    }

    open spec fn spec_lexed(chars: Seq<char>, pos: int, end: int, tok: Self) -> bool {
        end == numeric_end(chars, signed_digits_start(chars, pos)) && after_check_ok(chars, end) && (
            tok.spec_sign() is Some <==> signed_digits_start(chars, pos) == pos + 1)
    }

    fn peek(input: &SourceStream) -> (r: bool) {
        <Sign as LexT>::peek(input) || <Numeric as LexT>::peek(input)
    }

    /// Consumes an optional sign and a numeric value (an error when none follows the sign);
    /// then an error if the next character begins an identifier or is a decimal digit.
    fn lex(input: &mut SourceStream) -> (r: Result<Self, LexError>)
        ensures
            r is Ok ==> after_check_ok(final(input).chars(), final(input).pos()),
            ({
                let d = signed_digits_start(old(input).chars(), old(input).pos());
                0 <= d < old(input).chars().len() && old(input).chars()[d] == '0' && digit_at(
                    old(input).chars(),
                    d + 1,
                )
            }) ==> r is Err,
    {
        let start = input.index();
        let sign = if <Sign as LexT>::peek(input) {
            match <Sign as LexT>::lex(input) {
                Ok(s) => Some(s),
                Err(err) => return Err(err),
            }
        } else {
            None
        };
        if !<Numeric as LexT>::peek(input) {
            return Err(input.error("Expected a numeric literal, `Infinity` or `NaN` here."));
        }
        let numeric = match <Numeric as LexT>::lex(input) {
            Ok(n) => n,
            Err(err) => return Err(err),
        };
        if !NumericLiteral::after_check(input) {
            return Err(
                input.error(
                    "Unexpected character right after a number: expected neither a decimal digit nor the start of an identifier.",
                ),
            );
        }
        Ok(Number { span: Span::new(start, input.index()), sign, numeric })
    }
}

} // verus!
