use vstd::prelude::*;

verus! {

/// What one attempt to parse reports.
///
/// `Fail` carries nothing: no position, no cause, no partial progress.
/// `Success(next, value)` carries the cursor immediately behind the consumed
/// input and the value that was recognised.
#[derive(Eq, PartialEq, Debug)]
pub enum Outcome<T> {
    Fail,
    Success(usize, T),
}

} // verus!
