use crate::outcome::Outcome;
use crate::parser::{all_wf, Create, Parse, Parser};
use std::sync::Arc;
use vstd::prelude::*;

verus! {

/// Each of the first `count` parsers fails at `position`.
pub open spec fn all_fail<T>(
    parsers: Seq<Parser<T>>,
    count: int,
    position: int,
    source: Seq<u8>,
) -> bool {
    forall|j: int|
        0 <= j < count ==> (#[trigger] parsers[j]).outcome(position, source, Outcome::Fail)
}

/// Ordered choice. Success: the result of some parser of the list, run at
/// `position`, all the parsers before it having failed there. Failure: every
/// parser of the list fails at `position`.
pub open spec fn alternated<T>(
    parsers: Seq<Parser<T>>,
    position: int,
    source: Seq<u8>,
    r: Outcome<T>,
) -> bool {
    match r {
        Outcome::Success(_, _) => exists|k: int|
            {
                &&& 0 <= k < parsers.len()
                &&& all_fail(parsers, k, position, source)
                &&& (#[trigger] parsers[k]).outcome(position, source, r)
            },
        Outcome::Fail => all_fail(parsers, parsers.len() as int, position, source),
    }
}

/// `p` behaves as the ordered choice among `parsers` does.
pub open spec fn is_alternation<T>(p: Parser<T>, parsers: Seq<Parser<T>>) -> bool {
    forall|position: int, source: Seq<u8>, r: Outcome<T>|
        #[trigger] p.outcome(position, source, r) <==> alternated(parsers, position, source, r)
}

/// Tries its parsers in order and gives the first success.
#[verifier::reject_recursive_types(T)]
pub struct OrParser<T> {
    pub parsers: Vec<Parser<T>>,
}

impl<T: 'static> Parse<T> for OrParser<T> {
    open spec fn wf(&self) -> bool {
        all_wf(self.parsers@)
    }

    open spec fn outcome(&self, position: int, source: Seq<u8>, r: Outcome<T>) -> bool {
        alternated(self.parsers@, position, source, r)
    }

    fn parse(&self, position: usize, source: &[u8]) -> (r: Outcome<T>) {
        let mut i: usize = 0;
        while i < self.parsers.len()
            invariant
                all_wf(self.parsers@),
                i <= self.parsers.len(),
                position <= source@.len(),
                all_fail(self.parsers@, i as int, position as int, source@),
            decreases self.parsers.len() - i,
        {
            match self.parsers[i].parse(position, source) {
                Outcome::Fail => (),
                Outcome::Success(next, value) => {
                    return Outcome::Success(next, value);
                },
            }
            i += 1;
        }
        Outcome::Fail
    }
}

impl<T: 'static> Create<T> for OrParser<T> {
    fn create(&self) -> (p: Parser<T>) {
        let parsers = self.parsers.clone();
        assert(parsers@ =~= self.parsers@);
        Parser { inner: Arc::new(Box::new(OrParser { parsers })) }
    }
}

/// A parser that tries `parsers` in order, each at the same position, and
/// gives the first success.
pub fn oneof<T: 'static>(parsers: Vec<Parser<T>>) -> (p: Parser<T>)
    ensures
        p.wf() <==> all_wf(parsers@),
        is_alternation(p, parsers@),
{
    OrParser { parsers }.create()
}

} // verus!
