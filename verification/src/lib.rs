//! A parser-combinator engine over byte sources.
//!
//! One abstraction, [`Parse`], says what a parser is: a value that attempts a
//! match at a position of a byte source and reports either [`Outcome::Fail`] or
//! [`Outcome::Success`] with the cursor behind the consumed input and a typed
//! value. One primitive, [`readchar`], consumes a single byte, and five
//! combinators compose parsers: [`concat`] (sequence), [`oneof`] (ordered
//! choice), [`require`] (filter), [`process`] (transform) and [`star`]
//! (repetition).
//!
//! Every parser carries a specification of its possible outcomes,
//! [`Parse::outcome`], and every `parse` is proved to return one of them.
pub mod alternation;
pub mod filter;
pub mod laws;
pub mod outcome;
pub mod parser;
pub mod primitive;
pub mod repetition;
pub mod sequence;
pub mod transform;

pub use alternation::{oneof, OrParser};
pub use filter::{require, FilterParser};
pub use outcome::Outcome;
pub use parser::{Create, Parse, Parser};
pub use primitive::{readchar, CharParser};
pub use repetition::{star, StarParser};
pub use crate::sequence::concat;
pub use crate::sequence::AndParser;
pub use transform::{process, MapParser};
