//! JSON5 values, built from the token sequence: a thin recursive-descent driver over the lexer.

use vstd::prelude::*;

use crate::identifier::Identifier;
use crate::location::{Span, Spanned};
use crate::numeric::Number;
use crate::punctuator::Punctuator;
use crate::result::LexError;
use crate::source::SourceFile;
use crate::string::LString;
use crate::token::{in_order, tokenize, Token};
use crate::utf16::StringValue;

verus! {

/// An error found while building values from tokens.
#[derive(Debug, Clone)]
pub struct ParseError {
    /// Where the problem is.
    pub span: Span,
    /// What the problem is.
    pub message: String,
}

impl ParseError {
    /// An error at `span` saying `message`.
    pub fn new(span: Span, message: &str) -> (r: ParseError)
        ensures
            r.span == span,
            r.message@ == message@,
    {
        ParseError { span, message: String::from_str(message) }
    }
}

/// `true` or `false`.
#[derive(Debug, Clone, Copy)]
pub enum Boolean {
    /// `true`
    True(Span),
    /// `false`
    False(Span),
}

/// The name of an object member.
#[derive(Debug)]
pub enum MemberName {
    /// An identifier.
    Identifier(Identifier),
    /// A string literal.
    String(LString),
}

/// A member of an object: a name and a value.
#[derive(Debug)]
pub struct Member {
    /// The name.
    pub name: MemberName,
    /// The value.
    pub value: Value,
}

/// An object: `{ member, ... }`, with an optional trailing comma.
#[derive(Debug)]
pub struct Object {
    /// From `{` to `}`.
    pub span: Span,
    /// The members, in order.
    pub members: Vec<Member>,
}

/// An array: `[ value, ... ]`, with an optional trailing comma.
#[derive(Debug)]
pub struct Array {
    /// From `[` to `]`.
    pub span: Span,
    /// The elements, in order.
    pub elements: Vec<Value>,
}

/// A JSON5 value.
#[derive(Debug)]
pub enum Value {
    /// `null`
    Null(Span),
    /// `true` or `false`
    Boolean(Boolean),
    /// A string.
    String(LString),
    /// A number.
    Number(Number),
    /// An object.
    Object(Object),
    /// An array.
    Array(Array),
}

impl Spanned for Value {
    open spec fn spec_span(&self) -> Span {
        match self {
            Value::Null(s) => *s,
            Value::Boolean(Boolean::True(s)) => *s,
            Value::Boolean(Boolean::False(s)) => *s,
            Value::String(l) => l.spec_span(),
            Value::Number(n) => n.spec_span(),
            Value::Object(o) => o.span,
            Value::Array(a) => a.span,
        }
    }

    fn span(&self) -> (r: Span) {
        match self {
            Value::Null(s) => *s,
            Value::Boolean(Boolean::True(s)) => *s,
            Value::Boolean(Boolean::False(s)) => *s,
            Value::String(l) => l.span(),
            Value::Number(n) => n.span(),
            Value::Object(o) => o.span,
            Value::Array(a) => a.span,
        }
    }
}

/// Whether `t` is the punctuator `c`.
pub open spec fn is_punct(t: Token, c: char) -> bool {
    t matches Token::Punctuator(p) && p.spec_char() == c
}

/// The UTF-16 code units of `true`.
pub open spec fn true_units() -> Seq<u16> {
    seq![116u16, 114, 117, 101]
}

/// The UTF-16 code units of `false`.
pub open spec fn false_units() -> Seq<u16> {
    seq![102u16, 97, 108, 115, 101]
}

/// The UTF-16 code units of `null`.
pub open spec fn null_units() -> Seq<u16> {
    seq![110u16, 117, 108, 108]
}

/// Whether `units` spell the ASCII word `word`.
fn spells(units: &Vec<u16>, word: &[u16]) -> (r: bool)
    ensures
        r == (units@ == word@),
{
    if units.len() != word.len() {
        return false;
    }
    let mut i: usize = 0;
    while i < word.len()
        invariant
            units@.len() == word@.len(),
            i <= word@.len(),
            forall|k: int| 0 <= k < i ==> units@[k] == word@[k],
        decreases word@.len() - i,
    {
        if units[i] != word[i] {
            return false;
        }
        i += 1;
    }
    assert(units@ =~= word@);
    true
}

/// The span from the start of `first` to the end of `last`.
pub open spec fn spec_cover(first: Span, last: Span) -> Span {
    Span { start: first.start, end: last.end }
}

/// What a value parsed from `tokens[pos..next]` says of those tokens: it covers them, and its
/// kind is the kind its first token announces.
pub open spec fn value_from(tokens: Seq<Token>, pos: int, next: int, v: Value) -> bool {
    &&& pos < next <= tokens.len()
    &&& v.spec_span() == spec_cover(tokens[pos].spec_span(), tokens[next - 1].spec_span())
    &&& (v is Array <==> tokens[pos] matches Token::Punctuator(Punctuator::OpenBracket(_)))
    &&& (v is Object <==> tokens[pos] matches Token::Punctuator(Punctuator::OpenBrace(_)))
    &&& (v is String <==> tokens[pos] is String)
    &&& (v is Number <==> tokens[pos] is Number)
    &&& (v is Null || v is Boolean ==> tokens[pos] is Identifier && next == pos + 1)
}

/// The error reported when the tokens end too early: at the last token, if any.
fn end_error(tokens: &Vec<Token>, message: &str) -> (r: ParseError) {
    if tokens.len() == 0 {
        ParseError::new(Span::empty(), message)
    } else {
        ParseError::new(tokens[tokens.len() - 1].span(), message)
    }
}

/// Parses a value starting at `tokens[pos]`, returning it and the index of the token after it.
pub fn parse_value(tokens: &Vec<Token>, pos: usize) -> (r: Result<(Value, usize), ParseError>)
    ensures
        r matches Ok((v, next)) ==> value_from(tokens@, pos as int, next as int, v),
        pos >= tokens@.len() ==> r is Err,
        pos < tokens@.len() && (tokens@[pos as int] is String || tokens@[pos as int] is Number) ==> (
        r matches Ok((_, next)) && next == pos + 1),
        pos < tokens@.len() ==> (tokens@[pos as int] matches Token::Identifier(id) ==> {
            &&& id.spec_sv() == true_units() ==> (r matches Ok((Value::Boolean(Boolean::True(_)), n))
                && n == pos + 1)
            &&& id.spec_sv() == false_units() ==> (r matches Ok((Value::Boolean(Boolean::False(_)), n))
                && n == pos + 1)
            &&& id.spec_sv() == null_units() ==> (r matches Ok((Value::Null(_), n)) && n == pos + 1)
            &&& !(id.spec_sv() == true_units() || id.spec_sv() == false_units() || id.spec_sv()
                == null_units()) ==> r is Err
        }),
        pos < tokens@.len() ==> (tokens@[pos as int] matches Token::Punctuator(p) ==> (!(
        p is OpenBracket || p is OpenBrace) ==> r is Err)),
        pos + 1 < tokens@.len() && is_punct(tokens@[pos as int], '[') && is_punct(
            tokens@[pos + 1],
            ']',
        ) ==> (
        r matches Ok((Value::Array(a), n)) && n == pos + 2 && a.elements@.len() == 0),
        pos + 1 < tokens@.len() && is_punct(tokens@[pos as int], '{') && is_punct(
            tokens@[pos + 1],
            '}',
        ) ==> (
        r matches Ok((Value::Object(o), n)) && n == pos + 2 && o.members@.len() == 0),
    decreases tokens@.len() - pos, 1int,
{
    if pos >= tokens.len() {
        return Err(end_error(tokens, "Expected a value here."));
    }
    match &tokens[pos] {
        Token::Punctuator(Punctuator::OpenBracket(_)) => match parse_array(tokens, pos) {
            Ok((a, next)) => Ok((Value::Array(a), next)),
            Err(e) => Err(e),
        },
        Token::Punctuator(Punctuator::OpenBrace(_)) => match parse_object(tokens, pos) {
            Ok((o, next)) => Ok((Value::Object(o), next)),
            Err(e) => Err(e),
        },
        Token::String(s) => Ok((Value::String(s.clone_literal()), pos + 1)),
        Token::Number(n) => Ok((Value::Number(n.clone_number()), pos + 1)),
        Token::Identifier(ident) => {
            let span = ident.span();
            let units = ident.sv();
            let true_units: Vec<u16> = vec![116, 114, 117, 101];
            let false_units: Vec<u16> = vec![102, 97, 108, 115, 101];
            let null_units: Vec<u16> = vec![110, 117, 108, 108];
            if spells(&units, true_units.as_slice()) {
                Ok((Value::Boolean(Boolean::True(span)), pos + 1))
            } else if spells(&units, false_units.as_slice()) {
                Ok((Value::Boolean(Boolean::False(span)), pos + 1))
            } else if spells(&units, null_units.as_slice()) {
                Ok((Value::Null(span), pos + 1))
            } else {
                Err(ParseError::new(span, "Expected a value (`null`, a boolean, a string, a number, an object or an array) here."))
            }
        },
        Token::Punctuator(p) => Err(
            ParseError::new(p.span(), "Expected a value (`null`, a boolean, a string, a number, an object or an array) here."),
        ),
    }
}

/// Parses `[ value, ... ]` starting at the `[` at `tokens[pos]`.
pub fn parse_array(tokens: &Vec<Token>, pos: usize) -> (r: Result<(Array, usize), ParseError>)
    requires
        pos < tokens@.len(),
        tokens@[pos as int] matches Token::Punctuator(Punctuator::OpenBracket(_)),
    ensures
        r matches Ok((a, next)) ==> pos < next <= tokens@.len() && a.span == spec_cover(
            tokens@[pos as int].spec_span(),
            tokens@[next - 1].spec_span(),
        ),
        pos + 1 < tokens@.len() && is_punct(tokens@[pos + 1], ']') ==> (r matches Ok((a, n)) && n == pos + 2 && a.elements@.len() == 0),
    decreases tokens@.len() - pos, 0int,
{
    let open = tokens[pos].span();
    let mut elements: Vec<Value> = Vec::new();
    let n = tokens.len();
    assert(pos < n);
    let mut i: usize = pos + 1;
    loop
        invariant
            pos < i <= tokens@.len(),
            open == tokens@[pos as int].spec_span(),
            pos + 1 < tokens@.len() && is_punct(tokens@[pos + 1], ']') ==> i == pos + 1
                && elements@.len() == 0,
        decreases tokens@.len() - i,
    {
        if i >= tokens.len() {
            return Err(end_error(tokens, "Expected `]` to close the array."));
        }
        if let Token::Punctuator(Punctuator::CloseBracket(close)) = &tokens[i] {
            return Ok((Array { span: Span { start: open.start, end: close.end }, elements }, i + 1));
        }
        let (v, next) = match parse_value(tokens, i) {
            Ok(found) => found,
            Err(e) => return Err(e),
        };
        elements.push(v);
        i = next;
        if i >= tokens.len() {
            return Err(end_error(tokens, "Expected `,` or `]` after an array element."));
        }
        match &tokens[i] {
            Token::Punctuator(Punctuator::Comma(_)) => {
                i = i + 1;
            },
            Token::Punctuator(Punctuator::CloseBracket(close)) => {
                return Ok((Array { span: Span { start: open.start, end: close.end }, elements }, i + 1));
            },
            other => {
                return Err(ParseError::new(other.span(), "Expected `,` or `]` after an array element."));
            },
        }
    }
}

/// Parses `{ name: value, ... }` starting at the `{` at `tokens[pos]`.
pub fn parse_object(tokens: &Vec<Token>, pos: usize) -> (r: Result<(Object, usize), ParseError>)
    requires
        pos < tokens@.len(),
        tokens@[pos as int] matches Token::Punctuator(Punctuator::OpenBrace(_)),
    ensures
        r matches Ok((o, next)) ==> pos < next <= tokens@.len() && o.span == spec_cover(
            tokens@[pos as int].spec_span(),
            tokens@[next - 1].spec_span(),
        ),
        pos + 1 < tokens@.len() && is_punct(tokens@[pos + 1], '}') ==> (r matches Ok((a, n)) && n == pos + 2 && a.members@.len() == 0),
    decreases tokens@.len() - pos, 0int,
{
    let open = tokens[pos].span();
    let mut members: Vec<Member> = Vec::new();
    let n = tokens.len();
    assert(pos < n);
    let mut i: usize = pos + 1;
    loop
        invariant
            pos < i <= tokens@.len(),
            open == tokens@[pos as int].spec_span(),
            pos + 1 < tokens@.len() && is_punct(tokens@[pos + 1], '}') ==> i == pos + 1
                && members@.len() == 0,
        decreases tokens@.len() - i,
    {
        if i >= tokens.len() {
            return Err(end_error(tokens, "Expected `}` to close the object."));
        }
        let name = match &tokens[i] {
            Token::Punctuator(Punctuator::CloseBrace(close)) => {
                return Ok((Object { span: Span { start: open.start, end: close.end }, members }, i + 1));
            },
            Token::Identifier(ident) => MemberName::Identifier(ident.clone_identifier()),
            Token::String(s) => MemberName::String(s.clone_literal()),
            other => {
                return Err(ParseError::new(other.span(), "Expected a member name (an identifier or a string) here."));
            },
        };
        i = i + 1;
        if i >= tokens.len() {
            return Err(end_error(tokens, "Expected `:` after the member name."));
        }
        match &tokens[i] {
            Token::Punctuator(Punctuator::Colon(_)) => {},
            other => {
                return Err(ParseError::new(other.span(), "Expected `:` after the member name."));
            },
        }
        let (value, next) = match parse_value(tokens, i + 1) {
            Ok(found) => found,
            Err(e) => return Err(e),
        };
        members.push(Member { name, value });
        i = next;
        if i >= tokens.len() {
            return Err(end_error(tokens, "Expected `,` or `}` after an object member."));
        }
        match &tokens[i] {
            Token::Punctuator(Punctuator::Comma(_)) => {
                i = i + 1;
            },
            Token::Punctuator(Punctuator::CloseBrace(close)) => {
                return Ok((Object { span: Span { start: open.start, end: close.end }, members }, i + 1));
            },
            other => {
                return Err(ParseError::new(other.span(), "Expected `,` or `}` after an object member."));
            },
        }
    }
}

/// A lexing error, as a parse error at the same place.
pub fn lex_error_to_parse_error(e: LexError) -> (r: ParseError)
    ensures
        r.span == e.span,
        r.message@ == e.message@,
{
    ParseError { span: e.span, message: e.message }
}

impl SourceFile {
    /// Lexes the whole file and parses it as a single JSON5 value: an error when lexing
    /// fails, when the tokens do not form a value, or when tokens follow the value.
    pub fn parse(&self) -> (r: Result<Value, ParseError>)
        requires
            self.wf(),
        ensures
            self.spec_chars().len() == 0 ==> r is Err,
            r matches Ok(v) ==> exists|toks: Seq<Token>|
                #[trigger] in_order(toks, 0, self.spec_chars().len() as int) && value_from(
                    toks,
                    0,
                    toks.len() as int,
                    v,
                ),
    {
        let mut input = self.stream();
        let tokens = match tokenize(&mut input) {
            Ok(t) => t,
            Err(e) => return Err(lex_error_to_parse_error(e)),
        };
        match parse_value(&tokens, 0) {
            Ok((v, next)) => {
                if next < tokens.len() {
                    Err(ParseError::new(tokens[next].span(), "Unexpected token after the value."))
                } else {
                    assert(in_order(tokens@, 0, self.spec_chars().len() as int));
                    Ok(v)
                }
            },
            Err(e) => Err(e),
        }
    }
}

} // verus!
