use avjason::lex::lex_many;
use avjason::{
    AtLeast, CharPattern, CharacterRange, Exactly, LexError, LexResult, MatchMinorCategory,
    MinorCategory, Punctuator, SourceFile, Span, Spanned, Verbatim, WhiteSpace,
};

#[test]
fn lex_result() {
    fn dummy_lexer(input: usize) -> LexResult<usize> {
        match input % 3 {
            0 => LexResult::Lexed(input),
            1 => LexResult::Nothing,
            2 => LexResult::Errant(LexError::new(Span::new(0, 0), "number that is {0, 1} mod 3")),
            _ => unreachable!(),
        }
    }

    fn dummy(input: [usize; 3]) -> LexResult<[usize; 3]> {
        dummy_lexer(input[0]).and(|first| {
            dummy_lexer(input[1])
                .and(|second| dummy_lexer(input[2]).map(|third| [first, second, third]))
        })
    }

    assert!(dummy([1, 2, 3]).is_nothing()); // Stops on 3n + 1
    assert!(matches!(dummy([0, 2, 3]), LexResult::Errant(_))); // Error on 3n + 2
    assert!(matches!(dummy([0, 3, 6]), LexResult::Lexed([0, 3, 6])));
}

#[test]
fn verbatim() {
    let source = SourceFile::dummy_file(",.");
    let input = &mut source.stream();
    let _: Verbatim = Verbatim::lex(input, ",").expect("Valid parse");
}

#[test]
fn ranged() {
    const DIGIT: CharacterRange = CharacterRange { start: '0', end: ':' };

    let source = SourceFile::dummy_file("126439012363421890");
    let input = &mut source.stream();
    let digits = CharPattern::lex_many(input, &DIGIT);
    assert_eq!(digits.len(), 18);
}

#[test]
fn verbatim_macro_test() {
    const DIGIT: CharacterRange = CharacterRange { start: '0', end: ':' };

    {
        let source = SourceFile::dummy_file(",");
        let input = &mut source.stream();
        let _: Verbatim = Verbatim::lex(input, ",").expect("Valid parse");
    }

    {
        let source = SourceFile::dummy_file("::");
        let input = &mut source.stream();
        let _: Verbatim = Verbatim::lex(input, "::").expect("Valid parse");
    }

    {
        let source = SourceFile::dummy_file("126439012363421890");
        let input = &mut source.stream();
        let _: Vec<CharPattern> = CharPattern::lex_many(input, &DIGIT);
        assert!(input.at_end());
    }
}

#[test]
fn test_lex() {
    let letter = [MinorCategory::Lu, MinorCategory::Ll];
    let source = SourceFile::dummy_file("Apples");
    let input = &mut source.stream();
    let letters = MatchMinorCategory::lex_many(input, &letter);
    assert_eq!(letters.len(), 6);
}

#[test]
fn verbatim_spans_and_absence() {
    let source = SourceFile::dummy_file("::x");
    let input = &mut source.stream();
    let v = Verbatim::lex(input, "::").unwrap();
    assert_eq!(v.span(), Span::new(0, 2));
    assert_eq!(input.index(), 2);
    assert!(Verbatim::lex(input, "::").is_nothing());
    assert_eq!(input.index(), 2);
}

#[test]
fn many_is_maximal_and_never_nothing() {
    let source = SourceFile::dummy_file("{}[]x");
    let input = &mut source.stream();
    match lex_many::<Punctuator>(input) {
        LexResult::Lexed(v) => assert_eq!(v.len(), 4),
        _ => panic!("expected four punctuators"),
    }
    assert_eq!(input.index(), 4);
    match lex_many::<Punctuator>(input) {
        LexResult::Lexed(v) => assert!(v.is_empty()),
        _ => panic!("expected an empty run"),
    }
}

#[test]
fn at_least_and_exactly_counts() {
    let source = SourceFile::dummy_file("{}[");
    let ok = AtLeast::<2, Punctuator>::lex(&mut source.stream()).unwrap();
    assert_eq!(ok.len(), 3);
    assert!(AtLeast::<4, Punctuator>::lex(&mut source.stream()).is_errant());
    let three = Exactly::<3, Punctuator>::lex(&mut source.stream()).unwrap();
    assert_eq!(three.items().len(), 3);
    assert_eq!(three.span(), Span::new(0, 3));
    assert!(Exactly::<2, Punctuator>::lex(&mut source.stream()).is_errant());
    let zero = Exactly::<0, WhiteSpace>::lex(&mut source.stream()).unwrap();
    assert!(zero.items().is_empty());
}

#[test]
fn result_combinators() {
    let source = SourceFile::dummy_file("x");
    let input = source.stream();
    let r: LexResult<u8> = LexResult::Nothing;
    let e = r.expected_msg(&input, "needed");
    assert!(e.is_errant());
    let err = e.unwrap_err();
    assert_eq!(err.message(), "needed");
    assert_eq!(err.span(), Span::new(0, 1));
    let r: LexResult<u8> = LexResult::Nothing;
    assert!(r.or(|| LexResult::Lexed(3)).is_lexed());
    let r: LexResult<u8> = LexResult::Lexed(1);
    assert_eq!(r.or(|| LexResult::Lexed(3)).unwrap(), 1);
    let r: LexResult<u8> = LexResult::Lexed(1);
    assert_eq!(r.unwrap_as_result().ok(), Some(1));
    let r: LexResult<u8> = LexResult::Nothing;
    let err = r.expected(&input).unwrap_err();
    assert_eq!(err.message(), "Expected a token here.");
    let at_end = SourceFile::dummy_file("");
    let err = at_end.stream().error("end");
    assert_eq!(err.span(), Span::new(0, 1));
}
