use crate::outcome::Outcome;
use crate::parser::{all_wf, Create, Parse, Parser};
use std::sync::Arc;
use vstd::prelude::*;

verus! {

/// A run of the first `values.len()` parsers, in their order, in which each
/// one succeeded: parser `i` started at `cursors[i]`, stopped at
/// `cursors[i + 1]` and produced `values[i]`.
pub open spec fn threads<T>(
    parsers: Seq<Parser<T>>,
    source: Seq<u8>,
    cursors: Seq<usize>,
    values: Seq<T>,
) -> bool {
    &&& values.len() <= parsers.len()
    &&& cursors.len() == values.len() + 1
    &&& forall|i: int|
        0 <= i < values.len() ==> (#[trigger] parsers[i]).outcome(
            cursors[i] as int,
            source,
            Outcome::Success(cursors[i + 1], values[i]),
        )
}

/// Sequencing. Success: every parser succeeded in turn, each starting where
/// the one before it stopped; the result is where the last one stopped, with
/// all the values in order. Failure: after some parsers succeeded in turn, the
/// next one failed; nothing of the progress made so far is reported.
pub open spec fn sequenced<T>(
    parsers: Seq<Parser<T>>,
    position: int,
    source: Seq<u8>,
    r: Outcome<Vec<T>>,
) -> bool {
    match r {
        Outcome::Success(next, values) => exists|cursors: Seq<usize>|
            {
                &&& #[trigger] threads(parsers, source, cursors, values@)
                &&& values@.len() == parsers.len()
                &&& cursors[0] == position
                &&& cursors.last() == next
            },
        Outcome::Fail => exists|cursors: Seq<usize>, values: Seq<T>|
            {
                &&& #[trigger] threads(parsers, source, cursors, values)
                &&& values.len() < parsers.len()
                &&& cursors[0] == position
                &&& parsers[values.len() as int].outcome(
                    cursors.last() as int,
                    source,
                    Outcome::Fail,
                )
            },
    }
}

/// `p` behaves as the sequence of `parsers` does.
pub open spec fn is_sequence<T>(p: Parser<Vec<T>>, parsers: Seq<Parser<T>>) -> bool {
    forall|position: int, source: Seq<u8>, r: Outcome<Vec<T>>|
        #[trigger] p.outcome(position, source, r) <==> sequenced(parsers, position, source, r)
}

/// Runs its parsers in order and collects their values.
#[verifier::reject_recursive_types(T)]
pub struct AndParser<T> {
    pub parsers: Vec<Parser<T>>,
}

impl<T: 'static> Parse<Vec<T>> for AndParser<T> {
    open spec fn wf(&self) -> bool {
        all_wf(self.parsers@)
    }

    open spec fn outcome(&self, position: int, source: Seq<u8>, r: Outcome<Vec<T>>) -> bool {
        sequenced(self.parsers@, position, source, r)
    }

    fn parse(&self, position: usize, source: &[u8]) -> (r: Outcome<Vec<T>>) {
        let mut cursor = position;
        let mut parsed: Vec<T> = Vec::new();
        let ghost mut cursors: Seq<usize> = seq![position];
        let mut i: usize = 0;
        while i < self.parsers.len()
            invariant
                all_wf(self.parsers@),
                i <= self.parsers.len(),
                parsed@.len() == i,
                threads(self.parsers@, source@, cursors, parsed@),
                cursors[0] == position,
                cursors.last() == cursor,
                position <= cursor <= source@.len(),
            decreases self.parsers.len() - i,
        {
            match self.parsers[i].parse(cursor, source) {
                Outcome::Fail => {
                    return Outcome::Fail;
                },
                Outcome::Success(next, value) => {
                    parsed.push(value);
                    proof {
                        cursors = cursors.push(next);
                    }
                    cursor = next;
                },
            }
            i += 1;
        }
        let r = Outcome::Success(cursor, parsed);
        proof {
            // `cursors` is the run behind `r`.
            assert(r matches Outcome::Success(_, values) && threads(
                self.parsers@,
                source@,
                cursors,
                values@,
            ));
        }
        r
    }
}

impl<T: 'static> Create<Vec<T>> for AndParser<T> {
    fn create(&self) -> (p: Parser<Vec<T>>) {
        let parsers = self.parsers.clone();
        assert(parsers@ =~= self.parsers@);
        Parser { inner: Arc::new(Box::new(AndParser { parsers })) }
    }
}

/// A parser that runs `parsers` in order, each where the one before it
/// stopped, and succeeds with all their values when all of them succeed.
pub fn concat<T: 'static>(parsers: Vec<Parser<T>>) -> (p: Parser<Vec<T>>)
    ensures
        p.wf() <==> all_wf(parsers@),
        is_sequence(p, parsers@),
{
    AndParser { parsers }.create()
}

} // verus!
