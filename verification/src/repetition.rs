use crate::outcome::Outcome;
use crate::parser::{Create, Parse, Parser};
use std::sync::Arc;
use vstd::prelude::*;

verus! {

/// Whenever the parser succeeds, it has moved the cursor forward.
pub open spec fn advances<T>(parser: Parser<T>) -> bool {
    forall|position: int, source: Seq<u8>, next: usize, value: T|
        0 <= position <= source.len() && #[trigger] parser.outcome(
            position,
            source,
            Outcome::Success(next, value),
        ) ==> position < next
}

/// A run of `values.len()` successes of one parser: attempt `i` started at
/// `cursors[i]`, stopped at `cursors[i + 1]` and produced `values[i]`.
pub open spec fn repeats<T>(
    parser: Parser<T>,
    source: Seq<u8>,
    cursors: Seq<usize>,
    values: Seq<T>,
) -> bool {
    &&& cursors.len() == values.len() + 1
    &&& forall|i: int|
        0 <= i < values.len() ==> parser.outcome(
            cursors[i] as int,
            source,
            Outcome::Success(cursors[i + 1], #[trigger] values[i]),
        )
}

/// Repetition. It always succeeds: the parser succeeded some number of times
/// in a row, possibly zero, each attempt starting where the one before it
/// stopped, and then failed; the result is where the last success stopped, with
/// the values in order.
pub open spec fn repeated<T>(
    parser: Parser<T>,
    position: int,
    source: Seq<u8>,
    r: Outcome<Vec<T>>,
) -> bool {
    r matches Outcome::Success(next, values) && exists|cursors: Seq<usize>|
        {
            &&& #[trigger] repeats(parser, source, cursors, values@)
            &&& cursors[0] == position
            &&& cursors.last() == next
            &&& parser.outcome(next as int, source, Outcome::Fail)
        }
}

/// `p` behaves as the repetition of `parser` does.
pub open spec fn is_repetition<T>(p: Parser<Vec<T>>, parser: Parser<T>) -> bool {
    forall|position: int, source: Seq<u8>, r: Outcome<Vec<T>>|
        #[trigger] p.outcome(position, source, r) <==> repeated(parser, position, source, r)
}

/// Applies its parser as often as it succeeds.
#[verifier::reject_recursive_types(T)]
pub struct StarParser<T> {
    pub parser: Parser<T>,
}

impl<T: 'static> Parse<Vec<T>> for StarParser<T> {
    /// The repeated parser must move the cursor whenever it succeeds: one that
    /// could succeed on the spot would be repeated without end.
    open spec fn wf(&self) -> bool {
        self.parser.wf() && advances(self.parser)
    }

    open spec fn outcome(&self, position: int, source: Seq<u8>, r: Outcome<Vec<T>>) -> bool {
        repeated(self.parser, position, source, r)
    }

    fn parse(&self, position: usize, source: &[u8]) -> (r: Outcome<Vec<T>>) {
        let mut cursor = position;
        let mut results: Vec<T> = Vec::new();
        let ghost mut cursors: Seq<usize> = seq![position];
        loop
            invariant
                self.parser.wf(),
                advances(self.parser),
                repeats(self.parser, source@, cursors, results@),
                cursors[0] == position,
                cursors.last() == cursor,
                position <= cursor <= source@.len(),
            ensures
                self.parser.outcome(cursor as int, source@, Outcome::Fail),
            decreases source@.len() - cursor,
        {
            match self.parser.parse(cursor, source) {
                Outcome::Fail => {
                    break ;
                },
                Outcome::Success(next, value) => {
                    results.push(value);
                    proof {
                        cursors = cursors.push(next);
                    }
                    cursor = next;
                },
            }
        }
        let r = Outcome::Success(cursor, results);
        proof {
            // `cursors` is the run behind `r`.
            assert(r matches Outcome::Success(_, values) && repeats(
                self.parser,
                source@,
                cursors,
                values@,
            ));
        }
        r
    }
}

impl<T: 'static> Create<Vec<T>> for StarParser<T> {
    fn create(&self) -> (p: Parser<Vec<T>>) {
        Parser { inner: Arc::new(Box::new(StarParser { parser: self.parser.clone() })) }
    }
}

/// A parser that applies `parser` as often as it succeeds and gives all the
/// values; it never fails.
pub fn star<T: 'static>(parser: Parser<T>) -> (p: Parser<Vec<T>>)
    ensures
        p.wf() <==> parser.wf() && advances(parser),
        is_repetition(p, parser),
{
    StarParser { parser }.create()
}

} // verus!
