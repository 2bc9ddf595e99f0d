//! A decoder for the text format of PHP's `serialize()`: a tokenizer over the
//! bytes, with one token of lookahead, and the dispatch rules by which a
//! consumer of typed values is driven from the token stream.

pub mod bstr;
pub mod bytes;
pub mod de;
pub mod errors;
pub mod grammar;
pub mod laws;
pub mod message;
pub mod parser;
pub mod scalar;
pub mod token;

pub use bstr::{PhpBstr, PhpVisibility};
pub use de::{PhpDeserializer, PhpShape, PhpVisit, VisitView};
pub use errors::{Error, ErrorKind};
pub use parser::{ParserView, PhpParser};
pub use token::{PhpToken, PhpTokenKind, TokenView};
