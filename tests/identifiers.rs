use avjason::{Identifier, IdentifierPart, IdentifierStart, LexResult, SourceFile, StringValue};

fn test_identifier(st: &'static str) -> LexResult<Identifier> {
    let source = SourceFile::dummy_file(st);
    let input = &mut source.stream();
    input.lex()
}

fn test_start(st: &'static str) -> LexResult<IdentifierStart> {
    let source = SourceFile::dummy_file(st);
    let input = &mut source.stream();
    input.lex()
}

fn test_middle(st: &'static str) -> LexResult<IdentifierPart> {
    let source = SourceFile::dummy_file(st);
    let input = &mut source.stream();
    input.lex()
}

#[test]
fn start() {
    // Ll
    test_identifier("a").expect("Valid parse!");
    test_identifier("ʘ").expect("Valid parse!");
    test_identifier("ξ").expect("Valid parse!");
    test_identifier("с").expect("Valid parse!");
    test_identifier("ᴓ").expect("Valid parse!");
    test_identifier("ⱅ").expect("Valid parse!");
    test_identifier("ꮇ").expect("Valid parse!");
    test_identifier("ｖ").expect("Valid parse!");
    test_identifier("𐳭").expect("Valid parse!");
    test_identifier("𐐨").expect("Valid parse!");
    test_identifier("𝕘").expect("Valid parse!");
    test_identifier("𝐛").expect("Valid parse!");
    test_identifier("𞥃").expect("Valid parse!");

    // Lm
    test_identifier("ˑ").expect("Valid parse!");
    test_identifier("ˬ").expect("Valid parse!");
    test_identifier("ᶾ").expect("Valid parse!");
    test_identifier("〲").expect("Valid parse!");
    test_identifier("ꫝ").expect("Valid parse!");
    test_identifier("𖿡").expect("Valid parse!");

    // Lo
    test_identifier("ڧ").expect("Valid parse!");
    test_identifier("ݦ").expect("Valid parse!");
    test_identifier("ࠊ").expect("Valid parse!");
    test_identifier("ओ").expect("Valid parse!");
    test_identifier("ੴ").expect("Valid parse!");
    test_identifier("ࣅ").expect("Valid parse!");
    test_identifier("എ").expect("Valid parse!");
    test_identifier("ᆿ").expect("Valid parse!");
    test_identifier("ሥ").expect("Valid parse!");
    test_identifier("ၚ").expect("Valid parse!");
    test_identifier("ᑺ").expect("Valid parse!");
    test_identifier("ၔ").expect("Valid parse!");
    test_identifier("ᖲ").expect("Valid parse!");
    test_identifier("ᚙ").expect("Valid parse!");
    test_identifier("ᛦ").expect("Valid parse!");
    test_identifier("ᠩ").expect("Valid parse!");
    test_identifier("ᐩ").expect("Valid parse!");
    test_identifier("ᮯ").expect("Valid parse!");
    test_identifier("ⶦ").expect("Valid parse!");
    test_identifier("ツ").expect("Valid parse!");
    test_identifier("ㆈ").expect("Valid parse!");
    test_identifier("は").expect("Valid parse!");
    test_identifier("㔇").expect("Valid parse!");
    test_identifier("㠓").expect("Valid parse!");
    test_identifier("と").expect("Valid parse!");

    // Lt
    test_identifier("ᾫ").expect("Valid parse!");
    test_identifier("ᾍ").expect("Valid parse!");
    test_identifier("ǅ").expect("Valid parse!");

    // Lu
    test_identifier("A").expect("Valid parse!");
    test_identifier("Ǡ").expect("Valid parse!");
    test_identifier("Έ").expect("Valid parse!");
    test_identifier("Щ").expect("Valid parse!");
    test_identifier("Ꭿ").expect("Valid parse!");
    test_identifier("Å").expect("Valid parse!");
    test_identifier("ℜ").expect("Valid parse!");
    test_identifier("Ᵽ").expect("Valid parse!");
    test_identifier("Ｔ").expect("Valid parse!");
    test_identifier("𐲱").expect("Valid parse!");
    test_identifier("𝓨").expect("Valid parse!");
    test_identifier("𝗨").expect("Valid parse!");
    test_identifier("𝝫").expect("Valid parse!");
    test_identifier("𐐤").expect("Valid parse!");

    // Nl
    test_identifier("Ⅲ").expect("Valid parse!");
    test_identifier("ↈ").expect("Valid parse!");
    test_identifier("𐅰").expect("Valid parse!");
    test_identifier("𒐒").expect("Valid parse!");
    test_identifier("𒐪").expect("Valid parse!");
    test_identifier("𒑚").expect("Valid parse!");
    test_identifier("𒑮").expect("Valid parse!");

    test_identifier("_").expect("Valid parse!");
    test_identifier("$").expect("Valid parse!");
    test_identifier(r"\u0041").expect("Valid parse"); // `A`

    // Invalid Starting unicode escape code `@`
    test_identifier(r"\u0040").unwrap_err();

    // Middle-only characters
    // Mn
    assert!(!test_start("◌̣").is_lexed());
    assert!(!test_start("◌ַ").is_lexed());
    assert!(!test_start("◌ܶ").is_lexed());
    assert!(!test_start("◌ࣟ").is_lexed());
    assert!(!test_start("◌ై").is_lexed());
    assert!(!test_start("◌ླྀ").is_lexed());
    assert!(!test_start("◌ᬼ").is_lexed());
    assert!(!test_start("◌ⷻ").is_lexed());
    assert!(!test_start("◌ꦸ").is_lexed());
    assert!(!test_start("◌𝨰").is_lexed());
    assert!(!test_start("◌𝪩").is_lexed());
    assert!(!test_start("◌󠇬").is_lexed());

    // Mc
    assert!(!test_start("ா").is_lexed());
    assert!(!test_start("ௌ").is_lexed());
    assert!(!test_start("ෛ").is_lexed());
    assert!(!test_start("ြ").is_lexed());
    assert!(!test_start("ᬽ").is_lexed());
    assert!(!test_start("ꦾ").is_lexed());
    assert!(!test_start("𑍣").is_lexed());
    assert!(!test_start("𑲩").is_lexed());
    assert!(!test_start("𝅲").is_lexed());
    assert!(!test_start("𝅦").is_lexed());

    // Nd
    assert!(!test_start("1").is_lexed());
    assert!(!test_start("9").is_lexed());
    assert!(!test_start("٢").is_lexed());
    assert!(!test_start("٤").is_lexed());
    assert!(!test_start("৩").is_lexed());
    assert!(!test_start("੦").is_lexed());
    assert!(!test_start("௫").is_lexed());
    assert!(!test_start("൫").is_lexed());
    assert!(!test_start("໙").is_lexed());
    assert!(!test_start("႒").is_lexed());
    assert!(!test_start("᭑").is_lexed());
    assert!(!test_start("꧓").is_lexed());
    assert!(!test_start("꩘").is_lexed());
    assert!(!test_start("𝟯").is_lexed());
    assert!(!test_start("🯷").is_lexed());

    // Pc
    assert!(!test_start("‿").is_lexed());
    assert!(!test_start("⁀").is_lexed());
    assert!(!test_start("⁔").is_lexed());
    assert!(!test_start("︳").is_lexed());
    assert!(!test_start("︴").is_lexed());
    assert!(!test_start("﹍").is_lexed());
    assert!(!test_start("﹎").is_lexed());
    assert!(!test_start("﹏").is_lexed());
    assert!(!test_start("＿").is_lexed());
}

#[test]
fn middle() {
    // Ll
    test_identifier("_a").expect("Valid parse!");
    test_identifier("_ʘ").expect("Valid parse!");
    test_identifier("_ξ").expect("Valid parse!");
    test_identifier("_с").expect("Valid parse!");
    test_identifier("_ᴓ").expect("Valid parse!");
    test_identifier("_ⱅ").expect("Valid parse!");
    test_identifier("_ꮇ").expect("Valid parse!");
    test_identifier("_ｖ").expect("Valid parse!");
    test_identifier("_𐳭").expect("Valid parse!");
    test_identifier("_𐐨").expect("Valid parse!");
    test_identifier("_𝕘").expect("Valid parse!");
    test_identifier("_𝐛").expect("Valid parse!");
    test_identifier("_𞥃").expect("Valid parse!");

    // Lm
    test_identifier("_ˑ").expect("Valid parse!");
    test_identifier("_ˬ").expect("Valid parse!");
    test_identifier("_ᶾ").expect("Valid parse!");
    test_identifier("_〲").expect("Valid parse!");
    test_identifier("_ꫝ").expect("Valid parse!");
    test_identifier("_𖿡").expect("Valid parse!");

    // Lo
    test_identifier("_ڧ").expect("Valid parse!");
    test_identifier("_ݦ").expect("Valid parse!");
    test_identifier("_ࠊ").expect("Valid parse!");
    test_identifier("_ओ").expect("Valid parse!");
    test_identifier("_ੴ").expect("Valid parse!");
    test_identifier("_ࣅ").expect("Valid parse!");
    test_identifier("_എ").expect("Valid parse!");
    test_identifier("_ᆿ").expect("Valid parse!");
    test_identifier("_ሥ").expect("Valid parse!");
    test_identifier("_ၚ").expect("Valid parse!");
    test_identifier("_ᑺ").expect("Valid parse!");
    test_identifier("_ၔ").expect("Valid parse!");
    test_identifier("_ᖲ").expect("Valid parse!");
    test_identifier("_ᚙ").expect("Valid parse!");
    test_identifier("_ᛦ").expect("Valid parse!");
    test_identifier("_ᠩ").expect("Valid parse!");
    test_identifier("_ᐩ").expect("Valid parse!");
    test_identifier("_ᮯ").expect("Valid parse!");
    test_identifier("_ⶦ").expect("Valid parse!");
    test_identifier("_ツ").expect("Valid parse!");
    test_identifier("_ㆈ").expect("Valid parse!");
    test_identifier("_は").expect("Valid parse!");
    test_identifier("_㔇").expect("Valid parse!");
    test_identifier("_㠓").expect("Valid parse!");
    test_identifier("_と").expect("Valid parse!");

    // Lt
    test_identifier("_ᾫ").expect("Valid parse!");
    test_identifier("_ᾍ").expect("Valid parse!");
    test_identifier("_ǅ").expect("Valid parse!");

    // Lu
    test_identifier("_A").expect("Valid parse!");
    test_identifier("_Ǡ").expect("Valid parse!");
    test_identifier("_Έ").expect("Valid parse!");
    test_identifier("_Щ").expect("Valid parse!");
    test_identifier("_Ꭿ").expect("Valid parse!");
    test_identifier("_Å").expect("Valid parse!");
    test_identifier("_ℜ").expect("Valid parse!");
    test_identifier("_Ᵽ").expect("Valid parse!");
    test_identifier("_Ｔ").expect("Valid parse!");
    test_identifier("_𐲱").expect("Valid parse!");
    test_identifier("_𝓨").expect("Valid parse!");
    test_identifier("_𝗨").expect("Valid parse!");
    test_identifier("_𝝫").expect("Valid parse!");
    test_identifier("_𐐤").expect("Valid parse!");

    // Nl
    test_identifier("_Ⅲ").expect("Valid parse!");
    test_identifier("_ↈ").expect("Valid parse!");
    test_identifier("_𐅰").expect("Valid parse!");
    test_identifier("_𒐒").expect("Valid parse!");
    test_identifier("_𒐪").expect("Valid parse!");
    test_identifier("_𒑚").expect("Valid parse!");
    test_identifier("_𒑮").expect("Valid parse!");

    // Mn
    test_identifier("_◌̣").expect("Valid parse!");
    test_identifier("_◌ַ").expect("Valid parse!");
    test_identifier("_◌ܶ").expect("Valid parse!");
    test_identifier("_◌ࣟ").expect("Valid parse!");
    test_identifier("_◌ై").expect("Valid parse!");
    test_identifier("_◌ླྀ").expect("Valid parse!");
    test_identifier("_◌ᬼ").expect("Valid parse!");
    test_identifier("_◌ⷻ").expect("Valid parse!");
    test_identifier("_◌ꦸ").expect("Valid parse!");
    test_identifier("_◌𝨰").expect("Valid parse!");
    test_identifier("_◌𝪩").expect("Valid parse!");
    test_identifier("_◌󠇬").expect("Valid parse!");

    // Mc
    test_identifier("_ா").expect("Valid parse!");
    test_identifier("_ௌ").expect("Valid parse!");
    test_identifier("_ෛ").expect("Valid parse!");
    test_identifier("_ြ").expect("Valid parse!");
    test_identifier("_ᬽ").expect("Valid parse!");
    test_identifier("_ꦾ").expect("Valid parse!");
    test_identifier("_𑍣").expect("Valid parse!");
    test_identifier("_𑲩").expect("Valid parse!");
    test_identifier("_𝅲").expect("Valid parse!");
    test_identifier("_𝅦").expect("Valid parse!");

    // Nd
    test_identifier("_1").expect("Valid parse!");
    test_identifier("_9").expect("Valid parse!");
    test_identifier("_٢").expect("Valid parse!");
    test_identifier("_٤").expect("Valid parse!");
    test_identifier("_৩").expect("Valid parse!");
    test_identifier("_੦").expect("Valid parse!");
    test_identifier("_௫").expect("Valid parse!");
    test_identifier("_൫").expect("Valid parse!");
    test_identifier("_໙").expect("Valid parse!");
    test_identifier("_႒").expect("Valid parse!");
    test_identifier("_᭑").expect("Valid parse!");
    test_identifier("_꧓").expect("Valid parse!");
    test_identifier("_꩘").expect("Valid parse!");
    test_identifier("_𝟯").expect("Valid parse!");
    test_identifier("_🯷").expect("Valid parse!");

    // Pc
    test_identifier("_‿").expect("Valid parse!");
    test_identifier("_⁀").expect("Valid parse!");
    test_identifier("_⁔").expect("Valid parse!");
    test_identifier("_︳").expect("Valid parse!");
    test_identifier("_︴").expect("Valid parse!");
    test_identifier("_﹍").expect("Valid parse!");
    test_identifier("_﹎").expect("Valid parse!");
    test_identifier("_﹏").expect("Valid parse!");
    test_identifier("_＿").expect("Valid parse!");

    test_identifier("__").expect("Valid parse!");
    test_identifier("_$").expect("Valid parse!");
    test_identifier(r"_\u0041").expect("Valid parse"); // `A`

    test_identifier(r"_\u0040").unwrap_err();
}

#[test]
fn invalid() {
    // Sm
    assert!(!test_start(r"÷").is_lexed());
    assert!(!test_start(r"⅀").is_lexed());
    assert!(!test_start(r"∃").is_lexed());
    assert!(!test_start(r"∉").is_lexed());
    assert!(!test_start(r"∁").is_lexed());
    assert!(!test_start(r"∜").is_lexed());
    assert!(!test_start(r"⌠").is_lexed());
    assert!(!test_start(r"⌡").is_lexed());
    assert!(!test_start(r"⟜").is_lexed());
    assert!(!test_start(r"⨜").is_lexed());
    assert!(!test_start(r"⨷").is_lexed());
    assert!(!test_start(r"⪔").is_lexed());
    assert!(!test_start(r"𞻱").is_lexed());

    assert!(!test_middle(r"÷").is_lexed());
    assert!(!test_middle(r"⅀").is_lexed());
    assert!(!test_middle(r"∃").is_lexed());
    assert!(!test_middle(r"∉").is_lexed());
    assert!(!test_middle(r"∍").is_lexed());
    assert!(!test_middle(r"∜").is_lexed());
    assert!(!test_middle(r"⌠").is_lexed());
    assert!(!test_middle(r"⌡").is_lexed());
    assert!(!test_middle(r"⟜").is_lexed());
    assert!(!test_middle(r"⨜").is_lexed());
    assert!(!test_middle(r"⨷").is_lexed());
    assert!(!test_middle(r"⪔").is_lexed());
    assert!(!test_middle(r"𞻱").is_lexed());
}

#[test]
fn escape_codes() {
    // Valid Start tests
    test_start(r"\u0061").expect("Valid parse!");
    test_start(r"\u0298").expect("Valid parse!");
    test_start(r"\u03be").expect("Valid parse!");
    test_start(r"\u044f").expect("Valid parse!");
    test_start(r"\u1d13").expect("Valid parse!");
    test_start(r"\u2c45").expect("Valid parse!");
    test_start(r"\uab87").expect("Valid parse!");
    test_start(r"\uff56").expect("Valid parse!");

    test_start(r"\u02d1").expect("Valid parse!");
    test_start(r"\u02ec").expect("Valid parse!");
    test_start(r"\u1dbe").expect("Valid parse!");
    test_start(r"\u3032").expect("Valid parse!");
    test_start(r"\uaadd").expect("Valid parse!");
    test_start(r"\u06a7").expect("Valid parse!");
    test_start(r"\u0766").expect("Valid parse!");
    test_start(r"\u080a").expect("Valid parse!");
    test_start(r"\u0913").expect("Valid parse!");
    test_start(r"\u0a74").expect("Valid parse!");
    test_start(r"\u08c5").expect("Valid parse!");
    test_start(r"\u0d10").expect("Valid parse!");
    test_start(r"\u11bf").expect("Valid parse!");
    test_start(r"\u1225").expect("Valid parse!");
    test_start(r"\u141a").expect("Valid parse!");
    test_start(r"\u147a").expect("Valid parse!");
    test_start(r"\u1510").expect("Valid parse!");
    test_start(r"\u15b2").expect("Valid parse!");
    test_start(r"\u1699").expect("Valid parse!");
    test_start(r"\u16e6").expect("Valid parse!");
    test_start(r"\u1829").expect("Valid parse!");
    test_start(r"\u1a50").expect("Valid parse!");
    test_start(r"\u1baf").expect("Valid parse!");
    test_start(r"\u2da6").expect("Valid parse!");
    test_start(r"\u30c4").expect("Valid parse!");
    test_start(r"\u3188").expect("Valid parse!");
    test_start(r"\u342f").expect("Valid parse!");
    test_start(r"\u3507").expect("Valid parse!");
    test_start(r"\u3813").expect("Valid parse!");
    test_start(r"\u3a1d").expect("Valid parse!");
    test_start(r"\u1fab").expect("Valid parse!");
    test_start(r"\u1f9d").expect("Valid parse!");
    test_start(r"\u01c5").expect("Valid parse!");
    test_start(r"\u0041").expect("Valid parse!");
    test_start(r"\u01e0").expect("Valid parse!");
    test_start(r"\u0388").expect("Valid parse!");
    test_start(r"\u0429").expect("Valid parse!");
    test_start(r"\u13ef").expect("Valid parse!");
    test_start(r"\u212b").expect("Valid parse!");
    test_start(r"\u211c").expect("Valid parse!");
    test_start(r"\u2c63").expect("Valid parse!");
    test_start(r"\uff34").expect("Valid parse!");
    test_start(r"\u2162").expect("Valid parse!");
    test_start(r"\u2188").expect("Valid parse!");
    test_start(r"\u005f").expect("Valid parse!");
    test_start(r"\u0024").expect("Valid parse!");

    // Invalid start character tests
    assert!(!test_start(r"\u0031").is_lexed());
    assert!(!test_start(r"\u0039").is_lexed());
    assert!(!test_start(r"\u0662").is_lexed());
    assert!(!test_start(r"\u0664").is_lexed());
    assert!(!test_start(r"\u09e9").is_lexed());
    assert!(!test_start(r"\u0a66").is_lexed());
    assert!(!test_start(r"\u0beb").is_lexed());
    assert!(!test_start(r"\u0d6b").is_lexed());
    assert!(!test_start(r"\u0ed9").is_lexed());
    assert!(!test_start(r"\u1092").is_lexed());
    assert!(!test_start(r"\u1b51").is_lexed());
    assert!(!test_start(r"\ua9d3").is_lexed());
    assert!(!test_start(r"\uaa58").is_lexed());
    assert!(!test_start(r"\u203f").is_lexed());
    assert!(!test_start(r"\u2040").is_lexed());
    assert!(!test_start(r"\u2054").is_lexed());
    assert!(!test_start(r"\ufe33").is_lexed());
    assert!(!test_start(r"\ufe34").is_lexed());
    assert!(!test_start(r"\ufe4d").is_lexed());
    assert!(!test_start(r"\ufe4e").is_lexed());
    assert!(!test_start(r"\ufe4f").is_lexed());
    assert!(!test_start(r"\uff3f").is_lexed());

    // Valid middle character tests
    assert!(test_middle(r"\u0031").is_lexed());
    assert!(test_middle(r"\u0039").is_lexed());
    assert!(test_middle(r"\u0662").is_lexed());
    assert!(test_middle(r"\u0664").is_lexed());
    assert!(test_middle(r"\u09e9").is_lexed());
    assert!(test_middle(r"\u0a66").is_lexed());
    assert!(test_middle(r"\u0beb").is_lexed());
    assert!(test_middle(r"\u0d6b").is_lexed());
    assert!(test_middle(r"\u0ed9").is_lexed());
    assert!(test_middle(r"\u1092").is_lexed());
    assert!(test_middle(r"\u1b51").is_lexed());
    assert!(test_middle(r"\ua9d3").is_lexed());
    assert!(test_middle(r"\uaa58").is_lexed());
    assert!(test_middle(r"\u203f").is_lexed());
    assert!(test_middle(r"\u2040").is_lexed());
    assert!(test_middle(r"\u2054").is_lexed());
    assert!(test_middle(r"\ufe33").is_lexed());
    assert!(test_middle(r"\ufe34").is_lexed());
    assert!(test_middle(r"\ufe4d").is_lexed());
    assert!(test_middle(r"\ufe4e").is_lexed());
    assert!(test_middle(r"\ufe4f").is_lexed());
    assert!(test_middle(r"\uff3f").is_lexed());
    assert!(test_middle(r"\u005f").is_lexed());
    assert!(test_middle(r"\u0024").is_lexed());
}

#[test]
fn illegal_identifier_escape() {
    let err = test_identifier(r"\u0040").unwrap_err();
    assert_eq!(err.message(), "Invalid escaped character in identifier: `@` is not valid here.");
    assert_eq!(err.span(), avjason::Span::new(0, 6));
}

#[test]
fn unicode_identifier() {
    let text = "𝓗𝓮𝓵𝓵𝓸";
    let source = SourceFile::dummy_file(text);
    let input = &mut source.stream();
    let ident: Identifier = input.lex().expect("Valid parse");
    assert!(input.at_end());
    let expected: Vec<u16> = text.encode_utf16().collect();
    assert_eq!(expected.len(), 10);
    assert_eq!(ident.sv(), expected);
}

#[test]
fn escaped_identifier_value() {
    let ident = test_identifier(r"a\u0062$_").expect("Valid parse");
    assert_eq!(ident.sv(), vec!['a' as u16, 'b' as u16, '$' as u16, '_' as u16]);
}
