use avjason::Spanned;
use avjason::number::{DecimalDigits, ExponentIdicator, SignedInteger};
use avjason::numeric::{DecimalLiteral, HexPrefix, NumericLiteral};
use avjason::{LexResult, Number, Numeric, SourceFile};

fn test_lex(src: &'static str) -> LexResult<Number> {
    let source = SourceFile::dummy_file(src);
    let input = &mut source.stream();
    input.lex()
}

/// The shape of a lexed number, in the terms of the grammar.
#[derive(Debug, PartialEq)]
enum Shape {
    IntDotMantExp { fraction: bool, exponent: Option<(bool, char)> },
    DotMantExp { exponent: Option<(bool, char)> },
    IntExp { exponent: Option<(bool, char)> },
    Hex { lowercase: bool },
    Infinity,
    NaN,
}

/// Whether the indicator is `E`, and the sign of the exponent (`' '` when there is none).
fn exponent_shape(x: Option<avjason::number::ExponentPart>) -> Option<(bool, char)> {
    x.map(|x| {
        let upper = matches!(x.indicator(), ExponentIdicator::Uppercase(_));
        let sign = match x.value() {
            SignedInteger::Unsigned(_) => ' ',
            SignedInteger::Positive(_, _) => '+',
            SignedInteger::Negative(_, _) => '-',
        };
        (upper, sign)
    })
}

/// The sign (`' '` when there is none) and the shape of a lexed number.
fn shape(src: &'static str) -> Option<(char, Shape)> {
    let n = match test_lex(src) {
        LexResult::Lexed(n) => n,
        _ => return None,
    };
    let sign = match n.sign() {
        None => ' ',
        Some(avjason::number::Sign::Positive(_)) => '+',
        Some(avjason::number::Sign::Negative(_)) => '-',
    };
    let s = match n.numeric() {
        Numeric::Infinity(_) => Shape::Infinity,
        Numeric::NaN(_) => Shape::NaN,
        Numeric::Lit(NumericLiteral::Hex(h)) => Shape::Hex {
            lowercase: matches!(h.prefix(), HexPrefix::Lowercase(_)),
        },
        Numeric::Lit(NumericLiteral::Decimal(DecimalLiteral::IntegralDecimalMantissa(m))) => {
            Shape::IntDotMantExp {
                fraction: m.fraction().is_some(),
                exponent: exponent_shape(m.exponent()),
            }
        }
        Numeric::Lit(NumericLiteral::Decimal(DecimalLiteral::DecimalMantissa(m))) => {
            Shape::DotMantExp { exponent: exponent_shape(m.exponent()) }
        }
        Numeric::Lit(NumericLiteral::Decimal(DecimalLiteral::Integer(m))) => {
            Shape::IntExp { exponent: exponent_shape(m.exponent()) }
        }
    };
    Some((sign, s))
}

fn idm(sign: char, fraction: bool, exponent: Option<(bool, char)>) -> Option<(char, Shape)> {
    Some((sign, Shape::IntDotMantExp { fraction, exponent }))
}

fn dm(sign: char, exponent: Option<(bool, char)>) -> Option<(char, Shape)> {
    Some((sign, Shape::DotMantExp { exponent }))
}

fn ie(sign: char, exponent: Option<(bool, char)>) -> Option<(char, Shape)> {
    Some((sign, Shape::IntExp { exponent }))
}

fn hex(sign: char, lowercase: bool) -> Option<(char, Shape)> {
    Some((sign, Shape::Hex { lowercase }))
}

#[test]
fn no_sign() {
    assert!(!matches!(test_lex("02."), LexResult::Lexed(_)));

    assert_eq!(shape("1."), idm(' ', false, None));
    assert_eq!(shape("123."), idm(' ', false, None));
    assert_eq!(shape("1.2"), idm(' ', true, None));
    assert_eq!(shape("13.2"), idm(' ', true, None));
    assert_eq!(shape("1.e-5"), idm(' ', false, Some((false, '-'))));
    assert_eq!(shape("134.2e-5"), idm(' ', true, Some((false, '-'))));

    assert_eq!(shape(".1234"), dm(' ', None));
    assert_eq!(shape(".1234e-5"), dm(' ', Some((false, '-'))));

    assert_eq!(shape("1234"), ie(' ', None));

    assert_eq!(shape("467832674328438e2"), ie(' ', Some((false, ' '))));
    assert_eq!(shape("467832674328438E2"), ie(' ', Some((true, ' '))));
    assert_eq!(shape("467832674328438e+2"), ie(' ', Some((false, '+'))));
    assert_eq!(shape("467832674328438E+2"), ie(' ', Some((true, '+'))));
    assert_eq!(shape("467832674328438e-2"), ie(' ', Some((false, '-'))));
    assert_eq!(shape("467832674328438E-2"), ie(' ', Some((true, '-'))));

    assert_eq!(shape("0x6432ABA3"), hex(' ', true));
    assert_eq!(shape("0x6432aba3"), hex(' ', true));
    assert_eq!(shape("0X6432ABA3"), hex(' ', false));
    assert_eq!(shape("0X6432ABA3"), hex(' ', false));
}

#[test]
fn positive() {
    assert_eq!(shape("+1."), idm('+', false, None));
    assert_eq!(shape("+123."), idm('+', false, None));
    assert_eq!(shape("+1.2"), idm('+', true, None));
    assert_eq!(shape("+13.2"), idm('+', true, None));
    assert_eq!(shape("+1.e-5"), idm('+', false, Some((false, '-'))));
    assert_eq!(shape("+134.2e-5"), idm('+', true, Some((false, '-'))));
    assert_eq!(shape("+.1234"), dm('+', None));
    assert_eq!(shape("+.1234e-5"), dm('+', Some((false, '-'))));
    assert_eq!(shape("+1234"), ie('+', None));
    assert_eq!(shape("+467832674328438e2"), ie('+', Some((false, ' '))));
    assert_eq!(shape("+467832674328438E2"), ie('+', Some((true, ' '))));
    assert_eq!(shape("+467832674328438e+2"), ie('+', Some((false, '+'))));
    assert_eq!(shape("+467832674328438E+2"), ie('+', Some((true, '+'))));
    assert_eq!(shape("+467832674328438e-2"), ie('+', Some((false, '-'))));
    assert_eq!(shape("+467832674328438E-2"), ie('+', Some((true, '-'))));
    assert_eq!(shape("+0x6432ABA3"), hex('+', true));
    assert_eq!(shape("+0x6432aba3"), hex('+', true));
    assert_eq!(shape("+0X6432ABA3"), hex('+', false));
}

#[test]
fn negative() {
    assert_eq!(shape("-1."), idm('-', false, None));
    assert_eq!(shape("-123."), idm('-', false, None));
    assert_eq!(shape("-1.2"), idm('-', true, None));
    assert_eq!(shape("-13.2"), idm('-', true, None));
    assert_eq!(shape("-1.e-5"), idm('-', false, Some((false, '-'))));
    assert_eq!(shape("-134.2e-5"), idm('-', true, Some((false, '-'))));
    assert_eq!(shape("-.1234"), dm('-', None));
    assert_eq!(shape("-.1234e-5"), dm('-', Some((false, '-'))));
    assert_eq!(shape("-1234"), ie('-', None));
    assert_eq!(shape("-467832674328438e2"), ie('-', Some((false, ' '))));
    assert_eq!(shape("-467832674328438E2"), ie('-', Some((true, ' '))));
    assert_eq!(shape("-467832674328438e+2"), ie('-', Some((false, '+'))));
    assert_eq!(shape("-467832674328438E+2"), ie('-', Some((true, '+'))));
    assert_eq!(shape("-467832674328438e-2"), ie('-', Some((false, '-'))));
    assert_eq!(shape("-467832674328438E-2"), ie('-', Some((true, '-'))));
    assert_eq!(shape("-0x6432ABA3"), hex('-', true));
    assert_eq!(shape("-0x6432aba3"), hex('-', true));
    assert_eq!(shape("-0X6432ABA3"), hex('-', false));
}

#[test]
fn idents() {
    assert_eq!(shape("Infinity"), Some((' ', Shape::Infinity)));
    assert_eq!(shape("+Infinity"), Some(('+', Shape::Infinity)));
    assert_eq!(shape("-Infinity"), Some(('-', Shape::Infinity)));

    assert!(test_lex("-Ifty").is_errant());
    assert!(test_lex("+Inf").is_errant());
    assert!(test_lex("Infinty").is_nothing());
    assert!(test_lex("Idfhfdsbhjfdsvbaysj").is_nothing());

    assert_eq!(shape("NaN"), Some((' ', Shape::NaN)));
    assert_eq!(shape("+NaN"), Some(('+', Shape::NaN)));
    assert_eq!(shape("-NaN"), Some(('-', Shape::NaN)));

    assert!(test_lex("-NAN").is_errant());
    assert!(test_lex("nAN").is_nothing());
    assert!(test_lex("+nAn").is_errant());
    assert!(test_lex("-NAn").is_errant());
}

#[test]
fn numeric_after_check() {
    assert!(test_lex("123abc").is_errant());
    let source = SourceFile::dummy_file("123 abc");
    let input = &mut source.stream();
    let n: Number = input.lex().expect("Valid parse");
    assert_eq!(n.span(), avjason::Span::new(0, 3));
    assert_eq!(input.index(), 3);
    assert!(test_lex("0x1g").is_errant());
    assert!(test_lex("1.5$").is_errant());
    assert!(test_lex("12,").is_lexed());
}

#[test]
fn leading_zero_rejection() {
    assert!(test_lex("02.5").is_errant());
    assert!(test_lex("-00").is_errant());
    assert!(test_lex("0.5").is_lexed());
    assert!(test_lex("0").is_lexed());
}

#[test]
fn malformed_parts() {
    assert!(test_lex("1e").is_errant());
    assert!(test_lex("1e+").is_errant());
    assert!(test_lex(".e1").is_errant());
    assert!(test_lex("0x").is_errant());
    assert!(test_lex("-").is_errant());
}

#[test]
fn decimal_digits_run() {
    let source = SourceFile::dummy_file("0123x");
    let input = &mut source.stream();
    let _: DecimalDigits = input.lex().unwrap();
    assert_eq!(input.index(), 4);
}

#[test]
fn hex_literal_value() {
    let source = SourceFile::dummy_file("0x6432ABA3");
    let input = &mut source.stream();
    let h: avjason::numeric::HexIntegerLiteral = input.lex().unwrap();
    assert_eq!(h.mv(), Some(0x6432ABA3));
    let source = SourceFile::dummy_file("0xFFFFFFFFFFFFFFFF");
    let h: avjason::numeric::HexIntegerLiteral = source.stream().lex().unwrap();
    assert_eq!(h.mv(), Some(u64::MAX));
    let source = SourceFile::dummy_file("0x10000000000000000");
    let h: avjason::numeric::HexIntegerLiteral = source.stream().lex().unwrap();
    assert_eq!(h.mv(), None);
}

#[test]
fn hex_digit_values() {
    let source = SourceFile::dummy_file("0aF");
    let input = &mut source.stream();
    let a: avjason::HexDigit = input.lex().unwrap();
    let b: avjason::HexDigit = input.lex().unwrap();
    let c: avjason::HexDigit = input.lex().unwrap();
    assert_eq!((a.mv(), b.mv(), c.mv()), (0, 10, 15));
}
