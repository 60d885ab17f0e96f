use avjason::location::SpanIter;
use avjason::location::Span;
use avjason::source::{line_starts, SourceFile};

fn chars(s: &str) -> Vec<char> {
    s.chars().collect()
}

#[test]
fn lines() {
    assert!(matches!(&line_starts(&chars("ba\nb\nc"))[..], &[0, 3, 5]));

    assert!(matches!(
        &line_starts(&chars(
            "babs\r\nbaaa\r__\u{2028}asagsgas\u{2029}a\nc\n"
        ))[..],
        &[0, 6, 11, 14, 23, 25,]
    ))
}

#[test]
fn line_col() {
    let f = SourceFile::dummy_file("PEN\nPINEAPPLE\nAPPLE\nPEN");
    let ananas = Span::new(4, 13);
    assert_eq!(f.source_at(ananas), Some("PINEAPPLE".to_string()));
    let lc = f.locate(ananas).expect("in bounds");
    assert_eq!(lc.line, 1);
    assert_eq!(lc.column, 0);
}

#[test]
fn subspan() {
    let span = Span::new(0, 9);

    // Valid
    assert_eq!(span.subspan(Some(1), None).map(|s| s.as_range()), Some(1..9));
    assert_eq!(span.subspan(Some(1), Some(2)).map(|s| s.as_range()), Some(1..2));
    assert_eq!(span.subspan(None, Some(5)).map(|s| s.as_range()), Some(0..5));
    assert_eq!(span.subspan(None, None).map(|s| s.as_range()), Some(0..9));

    // Invalid
    assert_eq!(span.subspan(None, Some(17)).map(|s| s.as_range()), None);
    assert_eq!(span.subspan(Some(144), Some(1343)).map(|s| s.as_range()), None);
}

#[test]
fn source_at() {
    let source = SourceFile::dummy_file("testthing.");
    let span = Span::new(0, 9);

    assert_eq!(
        span.subspan(None, Some(4)).and_then(|s| source.source_at(s)),
        Some("test".to_string())
    );

    assert_eq!(
        span.subspan(Some(4), None).and_then(|s| source.source_at(s)),
        Some("thing".to_string())
    );

    assert_eq!(
        span.subspan(None, Some(4)).and_then(|s| source.source_at(s)),
        Some("test".to_string())
    );

    assert_eq!(span.subspan(Some(49), None).and_then(|s| source.source_at(s)), None);
}

#[test]
fn source_file() {
    let src = SourceFile::new("example.txt", "I am a\ngood file!\n\nGimme a pet!");
    println!("{src:?}");

    println!("{:?}", src.source_at(Span::new(7, 11)));
    assert_eq!(src.source_at(Span::new(7, 11)), Some("good".to_string()));
}

#[test]
fn line_starts_empty_and_trailing() {
    assert!(line_starts(&chars("")).is_empty());
    assert_eq!(line_starts(&chars("a\n")), vec![0]);
    assert_eq!(line_starts(&chars("\r\n\r")), vec![0, 2]);
    assert_eq!(line_starts(&chars("a\rb")), vec![0, 2]);
}

#[test]
fn locate_lines_and_columns() {
    let f = SourceFile::new("f.json5", "ab\r\ncd\u{2028}e");
    let lc = f.locate(Span::new(5, 6)).unwrap();
    assert_eq!((lc.line, lc.column, lc.file.as_str()), (1, 1, "f.json5"));
    let lc = f.locate(Span::new(7, 8)).unwrap();
    assert_eq!((lc.line, lc.column), (2, 0));
    assert!(f.locate(Span::new(8, 8)).is_none());
    assert!(f.locate(Span::new(0, 9)).is_none());
    assert_eq!(f.line_col(avjason::location::Loc(1)), Some((0, 1)));
}

#[test]
fn span_arithmetic() {
    let s = Span::new(3, 7);
    assert_eq!(s.len(), 4);
    assert!(!s.is_empty());
    assert!(Span::empty().is_empty());
    assert_eq!(Span::single_char(avjason::location::Loc(5)).as_range(), 5..6);
    assert_eq!(s.combine(&vec![]).as_range(), 3..7);
    assert_eq!(s.combine(&vec![Span::new(8, 9), Span::new(10, 12)]).as_range(), 3..12);
    assert_eq!(s.subspan(Some(1), Some(4)).map(|s| s.as_range()), Some(4..7));
    assert_eq!(s.subspan(Some(3), Some(2)), None);
    assert_eq!(s.subspan(None, Some(usize::MAX)), None);
    assert_eq!(vec![Span::new(1, 2), Span::new(4, 6)].combine(), Some(Span::new(1, 6)));
    assert_eq!(Vec::<Span>::new().combine(), None);
}

#[test]
fn file_line_column_is_one_based() {
    let f = SourceFile::new("data.json5", "PEN\nPINEAPPLE");
    assert_eq!(f.file_line_column(&avjason::Loc(5)), Some("data.json5:2:2".to_string()));
    assert_eq!(f.file_line_column(&avjason::Loc(0)), Some("data.json5:1:1".to_string()));
    assert_eq!(f.file_line_column(&avjason::Loc(13)), None);
    let lc = f.locate(Span::new(4, 5)).unwrap();
    assert_eq!(lc.to_display_string(), "data.json5:2:1");
}
