use crate::outcome::Outcome;
use crate::parser::{Create, Parse, Parser};
use std::sync::Arc;
use vstd::prelude::*;

verus! {

/// The predicate may be called on every value that `parser` can produce.
pub open spec fn can_test<T, F: Fn(&T) -> bool>(parser: Parser<T>, filter: F) -> bool {
    forall|position: int, source: Seq<u8>, next: usize, value: T|
        0 <= position <= source.len() && #[trigger] parser.outcome(
            position,
            source,
            Outcome::Success(next, value),
        ) ==> call_requires(filter, (&value,))
}

/// Filtering: a success of `parser` is kept, position and value unchanged, when
/// the predicate holds of its value; it becomes a failure when the predicate
/// does not; a failure of `parser` stays a failure.
pub open spec fn filtered<T, F: Fn(&T) -> bool>(
    parser: Parser<T>,
    filter: F,
    position: int,
    source: Seq<u8>,
    r: Outcome<T>,
) -> bool {
    match r {
        Outcome::Success(_, value) => {
            &&& parser.outcome(position, source, r)
            &&& call_ensures(filter, (&value,), true)
        },
        Outcome::Fail => {
            ||| parser.outcome(position, source, Outcome::Fail)
            ||| exists|next: usize, value: T|
                #[trigger] parser.outcome(position, source, Outcome::Success(next, value))
                    && call_ensures(filter, (&value,), false)
        },
    }
}

/// `p` behaves as `parser` filtered by `filter` does.
pub open spec fn is_filter<T, F: Fn(&T) -> bool>(p: Parser<T>, parser: Parser<T>, filter: F) -> bool {
    forall|position: int, source: Seq<u8>, r: Outcome<T>|
        #[trigger] p.outcome(position, source, r) <==> filtered(
            parser,
            filter,
            position,
            source,
            r,
        )
}

/// Accepts what the wrapped parser accepts and the predicate approves.
#[verifier::reject_recursive_types(T)]
pub struct FilterParser<T, F> {
    pub parser: Parser<T>,
    pub filter: F,
}

impl<T: 'static, F: Fn(&T) -> bool + Copy + Send + Sync + 'static> Parse<T> for FilterParser<T, F> {
    open spec fn wf(&self) -> bool {
        self.parser.wf() && can_test(self.parser, self.filter)
    }

    open spec fn outcome(&self, position: int, source: Seq<u8>, r: Outcome<T>) -> bool {
        filtered(self.parser, self.filter, position, source, r)
    }

    fn parse(&self, position: usize, source: &[u8]) -> (r: Outcome<T>) {
        match self.parser.parse(position, source) {
            Outcome::Fail => Outcome::Fail,
            Outcome::Success(next, value) => {
                if (self.filter)(&value) {
                    Outcome::Success(next, value)
                } else {
                    Outcome::Fail
                }
            },
        }
    }
}

impl<T: 'static, F: Fn(&T) -> bool + Copy + Send + Sync + 'static> Create<T> for FilterParser<T, F> {
    fn create(&self) -> (p: Parser<T>) {
        Parser {
            inner: Arc::new(
                Box::new(FilterParser { parser: self.parser.clone(), filter: self.filter }),
            ),
        }
    }
}

/// A parser that accepts only the results of `p` of which `f` holds.
pub fn require<T: 'static, F: Fn(&T) -> bool + Copy + Send + Sync + 'static>(
    f: F,
    p: Parser<T>,
) -> (q: Parser<T>)
    ensures
        q.wf() <==> p.wf() && can_test(p, f),
        is_filter(q, p, f),
{
    FilterParser { parser: p, filter: f }.create()
}

} // verus!
