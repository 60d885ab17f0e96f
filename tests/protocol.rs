use avjason::{
    Identifier, LString, LexT, Number, Punctuator, SourceFile, Spanned, Token, WhiteSpace,
};

#[test]
fn lexed_span_is_the_consumed_text() {
    let source = SourceFile::dummy_file("  'héllo' rest");
    let input = &mut source.stream();
    let _: WhiteSpace = input.lex().unwrap();
    let before = input.index();
    let s: LString = input.lex().unwrap();
    let after = input.index();
    let span = s.span();
    assert_eq!((span.start.0, span.end.0), (before, after));
    assert_eq!(source.source_at(span), Some("'héllo'".to_string()));
    assert!(span.end.0 <= source.bounds());
}

#[test]
fn cursor_moves_by_the_span_length_or_not_at_all() {
    let source = SourceFile::dummy_file("abc123 ,");
    let input = &mut source.stream();
    let id: Identifier = input.lex().unwrap();
    assert_eq!(input.index(), id.span().len());
    let at = input.index();
    assert!(input.lex::<Number>().is_nothing());
    assert_eq!(input.index(), at);
    let _: WhiteSpace = input.lex().unwrap();
    let p: Punctuator = input.lex().unwrap();
    assert_eq!(p.span().len(), 1);
    assert!(input.at_end());
}

#[test]
fn peek_leaves_the_stream_alone() {
    let source = SourceFile::dummy_file("[1]");
    let input = source.stream();
    let copy = input;
    assert!(<Punctuator as LexT>::peek(&input));
    assert!(!<Number as LexT>::peek(&input));
    assert!(<Token as LexT>::peek(&input));
    assert_eq!(input.index(), copy.index());
}

#[test]
fn failed_peek_means_nothing() {
    let source = SourceFile::dummy_file("@");
    let input = &mut source.stream();
    assert!(!<Token as LexT>::peek(input));
    assert!(input.lex::<Token>().is_nothing());
    assert!(input.lex::<Identifier>().is_nothing());
    assert_eq!(input.index(), 0);
}
