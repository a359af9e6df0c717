use crate::outcome::Outcome;
use std::sync::Arc;
use vstd::prelude::*;

verus! {

/// A parser over a byte source with results of type `T`.
///
/// A parser is immutable once built. Its behaviour is the relation
/// [`Parse::outcome`]: `outcome(position, source, r)` holds when `r` is a result
/// that an attempt at `position` of `source` may report. For a parser built
/// from deterministic parts the relation admits exactly one `r`.
pub trait Parse<T>: Send + Sync {
    /// The parser can be run: whatever it needs of its parts holds.
    spec fn wf(&self) -> bool;

    /// `r` is a possible result of an attempt at `position` of `source`.
    spec fn outcome(&self, position: int, source: Seq<u8>, r: Outcome<T>) -> bool;

    /// Attempts a match at `position` of `source`.
    ///
    /// The cursor never moves backwards and never leaves the source.
    fn parse(&self, position: usize, source: &[u8]) -> (r: Outcome<T>)
        requires
            self.wf(),
            position <= source@.len(),
        ensures
            self.outcome(position as int, source@, r),
            r matches Outcome::Success(next, _) ==> position <= next <= source@.len(),
    ;
}

/// Two parsers with the same possible results everywhere.
pub open spec fn same_outcomes<T, P: Parse<T>, Q: Parse<T>>(p: P, q: Q) -> bool {
    forall|position: int, source: Seq<u8>, r: Outcome<T>|
        #![trigger p.outcome(position, source, r)]
        #![trigger q.outcome(position, source, r)]
        p.outcome(position, source, r) <==> q.outcome(position, source, r)
}

/// Two parsers that cannot be told apart: each can be run where the other
/// can, with the same possible results.
pub open spec fn same_behavior<T, P: Parse<T>, Q: Parse<T>>(p: P, q: Q) -> bool {
    &&& p.wf() <==> q.wf()
    &&& same_outcomes(p, q)
}

/// An owning handle on any parser of result type `T`.
///
/// The handle shares the immutable parser behind it, so a clone is cheap and
/// equal to the original.
#[verifier::reject_recursive_types(T)]
pub struct Parser<T> {
    pub inner: Arc<Box<dyn Parse<T>>>,
}

impl<T> Parse<T> for Parser<T> {
    open spec fn wf(&self) -> bool {
        self.inner.wf()
    }

    open spec fn outcome(&self, position: int, source: Seq<u8>, r: Outcome<T>) -> bool {
        self.inner.outcome(position, source, r)
    }

    fn parse(&self, position: usize, source: &[u8]) -> (r: Outcome<T>) {
        self.inner.parse(position, source)
    }
}

impl<T> Clone for Parser<T> {
    fn clone(&self) -> (p: Self)
        ensures
            p == *self,
    {
        Parser { inner: self.inner.clone() }
    }
}

/// Every parser of the list can be run.
pub open spec fn all_wf<T>(parsers: Seq<Parser<T>>) -> bool {
    forall|i: int| 0 <= i < parsers.len() ==> (#[trigger] parsers[i]).wf()
}

/// A parser that can hand out a handle on a duplicate of itself.
pub trait Create<T>: Parse<T> + Sized {
    /// A handle on a parser that behaves as `self` does.
    fn create(&self) -> (p: Parser<T>)
        ensures
            same_behavior(p, *self),
    ;
}

impl<T> Create<T> for Parser<T> {
    fn create(&self) -> (p: Parser<T>) {
        self.clone()
    }
}

} // verus!
