use crate::outcome::Outcome;
use crate::parser::{Create, Parse, Parser};
use std::sync::Arc;
use vstd::prelude::*;

verus! {

/// The function may be called on every value that `parser` can produce.
pub open spec fn can_map<T, U, F: Fn(T) -> U>(parser: Parser<T>, f: F) -> bool {
    forall|position: int, source: Seq<u8>, next: usize, value: T|
        0 <= position <= source.len() && #[trigger] parser.outcome(
            position,
            source,
            Outcome::Success(next, value),
        ) ==> call_requires(f, (value,))
}

/// Transforming: a success of `parser` stays a success at the same position,
/// with a value that the function gives for the value of `parser`; a failure
/// of `parser` stays a failure.
pub open spec fn transformed<T, U, F: Fn(T) -> U>(
    parser: Parser<T>,
    f: F,
    position: int,
    source: Seq<u8>,
    r: Outcome<U>,
) -> bool {
    match r {
        Outcome::Success(next, mapped) => exists|value: T|
            #[trigger] parser.outcome(position, source, Outcome::Success(next, value))
                && call_ensures(f, (value,), mapped),
        Outcome::Fail => parser.outcome(position, source, Outcome::Fail),
    }
}

/// `p` behaves as `parser` transformed by `f` does.
pub open spec fn is_transform<T, U, F: Fn(T) -> U>(p: Parser<U>, parser: Parser<T>, f: F) -> bool {
    forall|position: int, source: Seq<u8>, r: Outcome<U>|
        #[trigger] p.outcome(position, source, r) <==> transformed(
            parser,
            f,
            position,
            source,
            r,
        )
}

/// Applies a function to the value of a successful parse.
#[verifier::reject_recursive_types(T)]
pub struct MapParser<T, F> {
    pub parser: Parser<T>,
    pub f: F,
}

impl<T: 'static, U: 'static, F: Fn(T) -> U + Copy + Send + Sync + 'static> Parse<U> for MapParser<
    T,
    F,
> {
    open spec fn wf(&self) -> bool {
        self.parser.wf() && can_map(self.parser, self.f)
    }

    open spec fn outcome(&self, position: int, source: Seq<u8>, r: Outcome<U>) -> bool {
        transformed(self.parser, self.f, position, source, r)
    }

    fn parse(&self, position: usize, source: &[u8]) -> (r: Outcome<U>) {
        let result = self.parser.parse(position, source);
        match result {
            Outcome::Fail => Outcome::Fail,
            Outcome::Success(next, value) => {
                assert(self.parser.outcome(
                    position as int,
                    source@,
                    Outcome::Success(next, value),
                ));
                let r = Outcome::Success(next, (self.f)(value));
                proof {
                    // `value` is what the value of `r` was made from.
                    assert(r matches Outcome::Success(at, mapped) && self.parser.outcome(
                        position as int,
                        source@,
                        Outcome::Success(at, value),
                    ) && call_ensures(self.f, (value,), mapped));
                }
                r
            },
        }
    }
}

impl<T: 'static, U: 'static, F: Fn(T) -> U + Copy + Send + Sync + 'static> Create<U> for MapParser<
    T,
    F,
> {
    fn create(&self) -> (p: Parser<U>) {
        Parser { inner: Arc::new(Box::new(MapParser { parser: self.parser.clone(), f: self.f })) }
    }
}

/// A parser that gives `f` of what `parser` gives.
pub fn process<T: 'static, U: 'static, F: Fn(T) -> U + Copy + Send + Sync + 'static>(
    f: F,
    parser: Parser<T>,
) -> (p: Parser<U>)
    ensures
        p.wf() <==> parser.wf() && can_map(parser, f),
        is_transform(p, parser, f),
{
    MapParser { parser, f }.create()
}

} // verus!
