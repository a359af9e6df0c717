use crate::outcome::Outcome;
use crate::parser::{Create, Parse, Parser};
use std::sync::Arc;
use vstd::prelude::*;

verus! {

/// Reading one byte: success with the byte at `position` and the cursor one
/// further, exactly when there is a byte at `position`.
pub open spec fn byte_read(position: int, source: Seq<u8>, r: Outcome<u8>) -> bool {
    match r {
        Outcome::Fail => !(0 <= position < source.len()),
        Outcome::Success(next, byte) => {
            &&& 0 <= position < source.len()
            &&& next == position + 1
            &&& byte == source[position]
        },
    }
}

/// `parser` behaves as the primitive parser does.
pub open spec fn is_byte_reader(parser: Parser<u8>) -> bool {
    forall|position: int, source: Seq<u8>, r: Outcome<u8>|
        #[trigger] parser.outcome(position, source, r) <==> byte_read(position, source, r)
}

/// The primitive parser: consumes exactly one byte if there is one.
pub struct CharParser {}

impl Parse<u8> for CharParser {
    open spec fn wf(&self) -> bool {
        true
    }

    open spec fn outcome(&self, position: int, source: Seq<u8>, r: Outcome<u8>) -> bool {
        byte_read(position, source, r)
    }

    fn parse(&self, position: usize, source: &[u8]) -> (r: Outcome<u8>) {
        if position < source.len() {
            Outcome::Success(position + 1, source[position])
        } else {
            Outcome::Fail
        }
    }
}

impl Create<u8> for CharParser {
    fn create(&self) -> (p: Parser<u8>) {
        Parser { inner: Arc::new(Box::new(CharParser {})) }
    }
}

/// A parser that reads one byte.
pub fn readchar() -> (p: Parser<u8>)
    ensures
        p.wf(),
        is_byte_reader(p),
{
    CharParser {}.create()
}

} // verus!
