//! UTF-16 code units: encoding characters, and decoding a character back.

use vstd::prelude::*;

verus! {

/// Whether `u` is a surrogate half.
pub open spec fn is_surrogate(u: int) -> bool {
    0xD800 <= u <= 0xDFFF
}

/// The UTF-16 encoding of `c`: one code unit inside the Basic Multilingual Plane, a surrogate
/// pair outside it.
pub open spec fn utf16_of(c: char) -> Seq<u16> {
    let v = c as int;
    if v < 0x10000 {
        seq![v as u16]
    } else {
        seq![(0xD800 + (v - 0x10000) / 0x400) as u16, (0xDC00 + (v - 0x10000) % 0x400) as u16]
    }
}

/// The UTF-16 encoding of a sequence of characters.
pub open spec fn utf16_of_all(cs: Seq<char>) -> Seq<u16>
    decreases cs.len(),
{
    if cs.len() == 0 {
        Seq::empty()
    } else {
        utf16_of_all(cs.drop_last()) + utf16_of(cs.last())
    }
}

/// The character that `units` encode, when they encode exactly one.
pub open spec fn decode_one(units: Seq<u16>) -> Option<char> {
    if units.len() == 1 && !is_surrogate(units[0] as int) {
        Some((units[0] as u32) as char)
    } else if units.len() == 2 && 0xD800 <= units[0] <= 0xDBFF && 0xDC00 <= units[1] <= 0xDFFF {
        Some((0x10000 + (units[0] - 0xD800) * 0x400 + (units[1] - 0xDC00)) as u32 as char)
    } else {
        None
    }
}

/// Relies on `char::from_u32`: `Some` exactly when `n` is a Unicode scalar value (at most
/// U+10FFFF and not a surrogate), holding the character whose value is `n`.
#[verifier::external_body]
fn char_from_u32(n: u32) -> (r: Option<char>)
    ensures
        r is Some <==> (n <= 0x10FFFF && !is_surrogate(n as int)),
        r matches Some(c) ==> c as u32 == n,
{
    char::from_u32(n)
}

/// The UTF-16 encoding of `c`.
pub fn encode_utf16(c: char) -> (r: Vec<u16>)
    ensures
        r@ == utf16_of(c),
{
    let v = c as u32;
    if v < 0x10000 {
        vec![v as u16]
    } else {
        let w = v - 0x10000;
        vec![(0xD800 + w / 0x400) as u16, (0xDC00 + w % 0x400) as u16]
    }
}

/// The character that `units` encode, when they encode exactly one.
pub fn decode_utf16_one(units: &Vec<u16>) -> (r: Option<char>)
    ensures
        r == decode_one(units@),
{
    if units.len() == 1 && !(0xD800 <= units[0] && units[0] <= 0xDFFF) {
        let r = char_from_u32(units[0] as u32);
        proof {
            let c = r->Some_0;
            vstd::utf8::char_u32_cast(c, units@[0] as u32);
        }
        r
    } else if units.len() == 2 && 0xD800 <= units[0] && units[0] <= 0xDBFF && 0xDC00 <= units[1]
        && units[1] <= 0xDFFF {
        let n: u32 = 0x10000 + (units[0] as u32 - 0xD800) * 0x400 + (units[1] as u32 - 0xDC00);
        let r = char_from_u32(n);
        proof {
            let c = r->Some_0;
            vstd::utf8::char_u32_cast(c, n);
        }
        r
    } else {
        None
    }
}

} // verus!

verus! {

/// The character value (CV) of a part of a string literal or identifier: the UTF-16 code
/// units it stands for.
pub trait CharacterValue {
    /// The code units this part stands for.
    spec fn spec_cv(&self) -> Seq<u16>;

    /// The code units this part stands for (none, one or two).
    fn cv(&self) -> (r: Vec<u16>)
        ensures
            r@ == self.spec_cv(),
    ;
}

/// The character that a part's code units encode, when they encode exactly one.
pub fn try_as_char<C: CharacterValue>(part: &C) -> (r: Option<char>)
    ensures
        r == decode_one(part.spec_cv()),
{
    decode_utf16_one(&part.cv())
}

} // verus!

verus! {

/// The concatenation of the character values of `parts`, in order.
pub open spec fn cv_concat<C: CharacterValue>(parts: Seq<C>) -> Seq<u16>
    decreases parts.len(),
{
    if parts.len() == 0 {
        Seq::empty()
    } else {
        cv_concat(parts.drop_last()) + parts.last().spec_cv()
    }
}

/// The string value (SV) of a literal: the UTF-16 code units it denotes.
pub trait StringValue {
    /// The code units denoted.
    spec fn spec_sv(&self) -> Seq<u16>;

    /// The code units denoted.
    fn sv(&self) -> (r: Vec<u16>)
        ensures
            r@ == self.spec_sv(),
    ;
}

/// Concatenates the character values of `parts` into one UTF-16 string.
pub fn collect_cv_into_utf16<C: CharacterValue>(parts: &Vec<C>) -> (r: Vec<u16>)
    ensures
        r@ == cv_concat(parts@),
{
    let mut out: Vec<u16> = Vec::new();
    let mut i: usize = 0;
    while i < parts.len()
        invariant
            i <= parts@.len(),
            out@ == cv_concat(parts@.subrange(0, i as int)),
        decreases parts@.len() - i,
    {
        let mut units = parts[i].cv();
        out.append(&mut units);
        proof {
            let next = parts@.subrange(0, i + 1);
            assert(next.drop_last() =~= parts@.subrange(0, i as int));
            assert(next.last() == parts@[i as int]);
        }
        i += 1;
    }
    assert(parts@.subrange(0, parts@.len() as int) =~= parts@);
    out
}

} // verus!
