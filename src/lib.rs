//! A JSON5 lexer that keeps every token traceable to the characters it came from.
//!
//! The core is a two-phase protocol over a character stream: a token type first
//! *peeks* (a pure test of the upcoming characters), then *lexes*, with a three-way
//! outcome: the token was recognised and consumed, nothing was there, or the input
//! looked like the token but broke its grammar.

pub mod location;
pub mod unicode;
pub mod source;
pub mod result;
pub mod stream;
pub mod lex;
pub mod chars;
pub mod whitespace;
pub mod line_terminator;
pub mod punctuator;
pub mod comment;
pub mod utf16;
pub mod number;
pub mod escapes;
pub mod string;
pub mod identifier;
pub mod numeric;
pub mod token;
pub mod syntax;

pub use comment::{Comment, MultiLineComment, SingleLineComment};
pub use escapes::{
    CharacterEscapeSequence, EscapeSequence, HexEscapeSequence, NonEscapeChar, Null,
    SingleEscapeChar, UnicodeEscapeSequence,
};
pub use identifier::{CharacterAcceptor, Identifier, IdentifierName, IdentifierPart, IdentifierStart};
pub use lex::{lex_many, AtLeast, CharPattern, Exactly, LexT, MatchMajorCategory, MatchMinorCategory, Many, Peek, Verbatim};
pub use line_terminator::{LineTerminator, LineTerminatorSeq, LineTerminatorSequence};
pub use location::{Loc, Span, SpanIter, Spanned};
pub use number::HexDigit;
pub use numeric::{Number, Numeric, NumericLiteral};
pub use punctuator::Punctuator;
pub use result::{LexError, LexResult};
pub use source::{LineColumn, SourceFile};
pub use stream::{CharacterRange, SourceStream};
pub use string::{LString, StringChar, StringPart};
pub use token::{tokenize, InputElement, Token};
pub use unicode::{MajorCategory, MinorCategory};
pub use utf16::{collect_cv_into_utf16, try_as_char, CharacterValue, StringValue};
pub use whitespace::WhiteSpace;
pub use syntax::{Array, Boolean, Member, MemberName, Object, ParseError, Value};
