//! Unicode general categories of characters.

use vstd::prelude::*;

verus! {

/// A Unicode major category.
#[derive(Debug, Clone, Copy, PartialEq, Eq, Structural)]
pub enum MajorCategory {
    /// Letter
    L,
    /// Mark
    M,
    /// Number
    N,
    /// Punctuation
    P,
    /// Symbol
    S,
    /// Separator
    Z,
    /// Other character
    C,
}

/// A Unicode minor (general) category.
#[derive(Debug, Clone, Copy, PartialEq, Eq, Structural)]
pub enum MinorCategory {
    /// Uppercase letter
    Lu,
    /// Lowercase letter
    Ll,
    /// Titlecase letter
    Lt,
    /// Modifier letter
    Lm,
    /// Other letter
    Lo,
    /// Non-spacing mark
    Mn,
    /// Spacing mark
    Mc,
    /// Enclosing mark
    Me,
    /// Decimal number
    Nd,
    /// Letterlike number
    Nl,
    /// Other number
    No,
    /// Connector punctuation
    Pc,
    /// Dash punctuation
    Pd,
    /// Opening punctuation
    Ps,
    /// Closing punctuation
    Pe,
    /// Initial punctuation
    Pi,
    /// Final punctuation
    Pf,
    /// Other punctuation
    Po,
    /// Math symbol
    Sm,
    /// Modifier symbol
    Sk,
    /// Currency symbol
    Sc,
    /// Other symbol
    So,
    /// Space separator
    Zs,
    /// Line separator
    Zl,
    /// Paragraph separator
    Zp,
    /// Control character
    Cc,
    /// Format character
    Cf,
    /// Private use character
    Co,
    /// Unassigned character
    Cn,
}

/// The position, in the Unicode Character Database's list of minor categories
/// (`Lu, Ll, Lt, Lm, Lo, Mn, Mc, Me, Nd, Nl, No, Pc, Pd, Ps, Pe, Pi, Pf, Po, Sm, Sk, Sc, So,
/// Zs, Zl, Zp, Cc, Cf, Co, Cn`), of the category of `c`.
pub uninterp spec fn minor_category_index(c: char) -> u8;

/// The position, in the list `L, M, N, P, S, Z, C`, of the major category of `c`.
pub uninterp spec fn major_category_index(c: char) -> u8;

/// Relies on finl_unicode's `CharacterCategories::get_minor_category`, a table lookup on the
/// character alone. Its `MinorCategory` enum has no fields and no explicit discriminants, and
/// declares its 29 variants in the order listed at `minor_category_index`, so the cast gives
/// that position.
#[verifier::external_body]
fn minor_index_of(c: char) -> (r: u8)
    ensures
        r == minor_category_index(c),
        r < 29,
{
    finl_unicode::categories::CharacterCategories::get_minor_category(c) as u8
}

/// Relies on finl_unicode's `CharacterCategories::get_major_category`, a table lookup on the
/// character alone. Its `MajorCategory` enum has no fields and no explicit discriminants, and
/// declares its 7 variants in the order `L, M, N, P, S, Z, C`.
#[verifier::external_body]
fn major_index_of(c: char) -> (r: u8)
    ensures
        r == major_category_index(c),
        r < 7,
{
    finl_unicode::categories::CharacterCategories::get_major_category(c) as u8
}

impl MinorCategory {
    /// The category at position `i` of the database's list.
    pub open spec fn spec_from_index(i: u8) -> MinorCategory {
        if i == 0 { MinorCategory::Lu }
        else if i == 1 { MinorCategory::Ll }
        else if i == 2 { MinorCategory::Lt }
        else if i == 3 { MinorCategory::Lm }
        else if i == 4 { MinorCategory::Lo }
        else if i == 5 { MinorCategory::Mn }
        else if i == 6 { MinorCategory::Mc }
        else if i == 7 { MinorCategory::Me }
        else if i == 8 { MinorCategory::Nd }
        else if i == 9 { MinorCategory::Nl }
        else if i == 10 { MinorCategory::No }
        else if i == 11 { MinorCategory::Pc }
        else if i == 12 { MinorCategory::Pd }
        else if i == 13 { MinorCategory::Ps }
        else if i == 14 { MinorCategory::Pe }
        else if i == 15 { MinorCategory::Pi }
        else if i == 16 { MinorCategory::Pf }
        else if i == 17 { MinorCategory::Po }
        else if i == 18 { MinorCategory::Sm }
        else if i == 19 { MinorCategory::Sk }
        else if i == 20 { MinorCategory::Sc }
        else if i == 21 { MinorCategory::So }
        else if i == 22 { MinorCategory::Zs }
        else if i == 23 { MinorCategory::Zl }
        else if i == 24 { MinorCategory::Zp }
        else if i == 25 { MinorCategory::Cc }
        else if i == 26 { MinorCategory::Cf }
        else if i == 27 { MinorCategory::Co }
        else { MinorCategory::Cn }
    }

    /// The category at position `i` of the database's list.
    pub fn from_index(i: u8) -> (r: MinorCategory)
        ensures
            r == Self::spec_from_index(i),
    {
        if i == 0 { MinorCategory::Lu }
        else if i == 1 { MinorCategory::Ll }
        else if i == 2 { MinorCategory::Lt }
        else if i == 3 { MinorCategory::Lm }
        else if i == 4 { MinorCategory::Lo }
        else if i == 5 { MinorCategory::Mn }
        else if i == 6 { MinorCategory::Mc }
        else if i == 7 { MinorCategory::Me }
        else if i == 8 { MinorCategory::Nd }
        else if i == 9 { MinorCategory::Nl }
        else if i == 10 { MinorCategory::No }
        else if i == 11 { MinorCategory::Pc }
        else if i == 12 { MinorCategory::Pd }
        else if i == 13 { MinorCategory::Ps }
        else if i == 14 { MinorCategory::Pe }
        else if i == 15 { MinorCategory::Pi }
        else if i == 16 { MinorCategory::Pf }
        else if i == 17 { MinorCategory::Po }
        else if i == 18 { MinorCategory::Sm }
        else if i == 19 { MinorCategory::Sk }
        else if i == 20 { MinorCategory::Sc }
        else if i == 21 { MinorCategory::So }
        else if i == 22 { MinorCategory::Zs }
        else if i == 23 { MinorCategory::Zl }
        else if i == 24 { MinorCategory::Zp }
        else if i == 25 { MinorCategory::Cc }
        else if i == 26 { MinorCategory::Cf }
        else if i == 27 { MinorCategory::Co }
        else { MinorCategory::Cn }
    }
}

impl MajorCategory {
    /// The category at position `i` of the list `L, M, N, P, S, Z, C`.
    pub open spec fn spec_from_index(i: u8) -> MajorCategory {
        if i == 0 { MajorCategory::L }
        else if i == 1 { MajorCategory::M }
        else if i == 2 { MajorCategory::N }
        else if i == 3 { MajorCategory::P }
        else if i == 4 { MajorCategory::S }
        else if i == 5 { MajorCategory::Z }
        else { MajorCategory::C }
    }

    /// The category at position `i` of the list `L, M, N, P, S, Z, C`.
    pub fn from_index(i: u8) -> (r: MajorCategory)
        ensures
            r == Self::spec_from_index(i),
    {
        if i == 0 { MajorCategory::L }
        else if i == 1 { MajorCategory::M }
        else if i == 2 { MajorCategory::N }
        else if i == 3 { MajorCategory::P }
        else if i == 4 { MajorCategory::S }
        else if i == 5 { MajorCategory::Z }
        else { MajorCategory::C }
    }
}

/// The minor category of `c`, per the Unicode Character Database.
pub open spec fn minor_category(c: char) -> MinorCategory {
    MinorCategory::spec_from_index(minor_category_index(c))
}

/// The major category of `c`, per the Unicode Character Database.
pub open spec fn major_category(c: char) -> MajorCategory {
    MajorCategory::spec_from_index(major_category_index(c))
}

/// The minor category of `c`.
pub fn minor_category_of(c: char) -> (r: MinorCategory)
    ensures
        r == minor_category(c),
{
    MinorCategory::from_index(minor_index_of(c))
}

/// The major category of `c`.
pub fn major_category_of(c: char) -> (r: MajorCategory)
    ensures
        r == major_category(c),
{
    MajorCategory::from_index(major_index_of(c))
}

/// Whether `cats` lists `cat`.
pub fn minor_listed(cats: &[MinorCategory], cat: MinorCategory) -> (r: bool)
    ensures
        r == cats@.contains(cat),
{
    let mut i: usize = 0;
    while i < cats.len()
        invariant
            i <= cats@.len(),
            forall|k: int| 0 <= k < i ==> cats@[k] != cat,
        decreases cats@.len() - i,
    {
        if cats[i] == cat {
            assert(cats@[i as int] == cat);
            return true;
        }
        i += 1;
    }
    false
}

/// Whether `cats` lists `cat`.
pub fn major_listed(cats: &[MajorCategory], cat: MajorCategory) -> (r: bool)
    ensures
        r == cats@.contains(cat),
{
    let mut i: usize = 0;
    while i < cats.len()
        invariant
            i <= cats@.len(),
            forall|k: int| 0 <= k < i ==> cats@[k] != cat,
        decreases cats@.len() - i,
    {
        if cats[i] == cat {
            assert(cats@[i as int] == cat);
            return true;
        }
        i += 1;
    }
    false
}

/// Letters as identifiers know them: categories Lu, Ll, Lt, Lm, Lo and Nl.
pub open spec fn is_unicode_letter(c: char) -> bool {
    let cat = minor_category(c);
    cat == MinorCategory::Lu || cat == MinorCategory::Ll || cat == MinorCategory::Lt
        || cat == MinorCategory::Lm || cat == MinorCategory::Lo || cat == MinorCategory::Nl
}

/// Combining marks: categories Mn and Mc.
pub open spec fn is_unicode_combining_mark(c: char) -> bool {
    minor_category(c) == MinorCategory::Mn || minor_category(c) == MinorCategory::Mc
}

/// Decimal digits in the Unicode sense: category Nd.
pub open spec fn is_unicode_digit(c: char) -> bool {
    minor_category(c) == MinorCategory::Nd
}

/// Connector punctuation: category Pc.
pub open spec fn is_unicode_connector_punctuation(c: char) -> bool {
    minor_category(c) == MinorCategory::Pc
}

/// Whether `c` is a letter in the identifier sense.
pub fn unicode_letter(c: char) -> (r: bool)
    ensures
        r == is_unicode_letter(c),
{
    let cat = minor_category_of(c);
    cat == MinorCategory::Lu || cat == MinorCategory::Ll || cat == MinorCategory::Lt
        || cat == MinorCategory::Lm || cat == MinorCategory::Lo || cat == MinorCategory::Nl
}

/// Whether `c` is a combining mark.
pub fn unicode_combining_mark(c: char) -> (r: bool)
    ensures
        r == is_unicode_combining_mark(c),
{
    let cat = minor_category_of(c);
    cat == MinorCategory::Mn || cat == MinorCategory::Mc
}

/// Whether `c` is a Unicode decimal digit.
pub fn unicode_digit(c: char) -> (r: bool)
    ensures
        r == is_unicode_digit(c),
{
    minor_category_of(c) == MinorCategory::Nd
}

/// Whether `c` is connector punctuation.
pub fn unicode_connector_punctuation(c: char) -> (r: bool)
    ensures
        r == is_unicode_connector_punctuation(c),
{
    minor_category_of(c) == MinorCategory::Pc
}

} // verus!
