//! What follows from the contracts of the parsers, proved once for all inputs.
use crate::alternation::{all_fail, alternated};
use crate::filter::filtered;
use crate::outcome::Outcome;
use crate::parser::{same_outcomes, Parse, Parser};
use crate::primitive::{byte_read, is_byte_reader};
use crate::repetition::{is_repetition, repeated, repeats};
use crate::sequence::{sequenced, threads};
use crate::transform::transformed;
use vstd::prelude::*;

verus! {

/// A run of successful reads of one byte each.
spec fn byte_steps(source: Seq<u8>, cursors: Seq<usize>, values: Seq<u8>) -> bool {
    &&& cursors.len() == values.len() + 1
    &&& forall|i: int|
        0 <= i < values.len() ==> byte_read(
            cursors[i] as int,
            source,
            Outcome::Success(cursors[i + 1], #[trigger] values[i]),
        )
}

/// After `i` reads of one byte each the cursor has moved by `i`, stayed
/// inside the source, and the values are the bytes passed over.
proof fn lemma_byte_steps(source: Seq<u8>, cursors: Seq<usize>, values: Seq<u8>, i: int)
    requires
        byte_steps(source, cursors, values),
        0 <= i <= values.len(),
    ensures
        cursors[i] == cursors[0] + i,
        i > 0 ==> cursors[0] + i <= source.len(),
        forall|j: int| 0 <= j < i ==> #[trigger] values[j] == source[cursors[0] + j],
    decreases i,
{
    if i > 0 {
        lemma_byte_steps(source, cursors, values, i - 1);
        assert(byte_read(
            cursors[i - 1] as int,
            source,
            Outcome::Success(cursors[i], values[i - 1]),
        ));
    }
}

/// The primitive parser: at a position with a byte it succeeds with that
/// byte, one position further; at the end of the source it fails. Nothing else
/// is a possible result.
pub proof fn byte_reader_reads_one_byte(
    reader: Parser<u8>,
    position: int,
    source: Seq<u8>,
    r: Outcome<u8>,
)
    requires
        is_byte_reader(reader),
        0 <= position <= source.len(),
        reader.outcome(position, source, r),
    ensures
        r is Success <==> position < source.len(),
        r matches Outcome::Success(next, byte) ==> next == position + 1 && byte
            == source[position],
{
}

/// Grouping does not matter to a sequence: a full run of `front` followed by
/// `back` is a full run of `front` and, from where that stopped, a full run of
/// `back`, and the other way round.
pub proof fn sequence_splits<T>(
    front: Seq<Parser<T>>,
    back: Seq<Parser<T>>,
    source: Seq<u8>,
    cursors: Seq<usize>,
    values: Seq<T>,
)
    requires
        values.len() == front.len() + back.len(),
        cursors.len() == values.len() + 1,
    ensures
        threads(front + back, source, cursors, values) <==> {
            &&& threads(
                front,
                source,
                cursors.take(front.len() as int + 1),
                values.take(front.len() as int),
            )
            &&& threads(
                back,
                source,
                cursors.skip(front.len() as int),
                values.skip(front.len() as int),
            )
        },
{
    let all = front + back;
    let n = front.len() as int;
    let front_cursors = cursors.take(n + 1);
    let front_values = values.take(n);
    let back_cursors = cursors.skip(n);
    let back_values = values.skip(n);
    if threads(all, source, cursors, values) {
        assert forall|i: int| 0 <= i < front_values.len() implies (#[trigger] front[i]).outcome(
            front_cursors[i] as int,
            source,
            Outcome::Success(front_cursors[i + 1], front_values[i]),
        ) by {
            assert(all[i] == front[i]);
        }
        assert forall|i: int| 0 <= i < back_values.len() implies (#[trigger] back[i]).outcome(
            back_cursors[i] as int,
            source,
            Outcome::Success(back_cursors[i + 1], back_values[i]),
        ) by {
            assert(all[n + i] == back[i]);
        }
    }
    if threads(front, source, front_cursors, front_values) && threads(
        back,
        source,
        back_cursors,
        back_values,
    ) {
        assert forall|i: int| 0 <= i < values.len() implies (#[trigger] all[i]).outcome(
            cursors[i] as int,
            source,
            Outcome::Success(cursors[i + 1], values[i]),
        ) by {
            if i < n {
                assert(front[i].outcome(
                    front_cursors[i] as int,
                    source,
                    Outcome::Success(front_cursors[i + 1], front_values[i]),
                ));
            } else {
                assert(back[i - n].outcome(
                    back_cursors[i - n] as int,
                    source,
                    Outcome::Success(back_cursors[i - n + 1], back_values[i - n]),
                ));
            }
        }
    }
}

/// Sequences compose: where the sequence `front` succeeds and the sequence
/// `back` succeeds from where it stopped, the sequence of all their parsers
/// succeeds where `back` stopped, with the values of `front` followed by those
/// of `back`.
pub proof fn sequence_composes<T>(
    front: Seq<Parser<T>>,
    back: Seq<Parser<T>>,
    position: int,
    source: Seq<u8>,
    middle: usize,
    next: usize,
    front_values: Vec<T>,
    back_values: Vec<T>,
    values: Vec<T>,
)
    requires
        sequenced(front, position, source, Outcome::Success(middle, front_values)),
        sequenced(back, middle as int, source, Outcome::Success(next, back_values)),
        values@ == front_values@ + back_values@,
    ensures
        sequenced(front + back, position, source, Outcome::Success(next, values)),
{
    let front_cursors = choose|cursors: Seq<usize>|
        {
            &&& #[trigger] threads(front, source, cursors, front_values@)
            &&& front_values@.len() == front.len()
            &&& cursors[0] == position
            &&& cursors.last() == middle
        };
    let back_cursors = choose|cursors: Seq<usize>|
        {
            &&& #[trigger] threads(back, source, cursors, back_values@)
            &&& back_values@.len() == back.len()
            &&& cursors[0] == middle
            &&& cursors.last() == next
        };
    let cursors = front_cursors + back_cursors.skip(1);
    let n = front.len() as int;
    assert(cursors.take(n + 1) =~= front_cursors);
    assert(cursors.skip(n) =~= back_cursors);
    assert(values@.take(n) =~= front_values@);
    assert(values@.skip(n) =~= back_values@);
    sequence_splits(front, back, source, cursors, values@);
    assert(cursors.last() == back_cursors.last());
    // `cursors` is the run behind the success of the whole.
    let r = Outcome::Success(next, values);
    assert(r matches Outcome::Success(_, all) && threads(front + back, source, cursors, all@));
}

/// Ordered choice, first match wins: a success of a list of alternatives is
/// still the result when further alternatives are appended, whatever those
/// would have matched.
pub proof fn alternation_ignores_later<T>(
    front: Seq<Parser<T>>,
    back: Seq<Parser<T>>,
    position: int,
    source: Seq<u8>,
    r: Outcome<T>,
)
    requires
        r is Success,
        alternated(front, position, source, r),
    ensures
        alternated(front + back, position, source, r),
{
    let all = front + back;
    let k = choose|k: int|
        {
            &&& 0 <= k < front.len()
            &&& all_fail(front, k, position, source)
            &&& (#[trigger] front[k]).outcome(position, source, r)
        };
    assert forall|j: int| 0 <= j < k implies (#[trigger] all[j]).outcome(
        position,
        source,
        Outcome::Fail,
    ) by {
        assert(all[j] == front[j]);
    }
    assert(all[k] == front[k]);
}

/// Ordered choice among copies of one parser is that parser: with every
/// alternative behaving as `parser` does, and at least one of them, the
/// possible results are exactly those of `parser`.
pub proof fn alternation_of_copies<T>(
    parsers: Seq<Parser<T>>,
    parser: Parser<T>,
    position: int,
    source: Seq<u8>,
    r: Outcome<T>,
)
    requires
        parsers.len() > 0,
        forall|i: int| 0 <= i < parsers.len() ==> same_outcomes(#[trigger] parsers[i], parser),
    ensures
        alternated(parsers, position, source, r) <==> parser.outcome(position, source, r),
{
    if parser.outcome(position, source, r) {
        if r is Success {
            assert(all_fail(parsers, 0, position, source));
            assert(parsers[0].outcome(position, source, r));
        }
    }
    if alternated(parsers, position, source, r) {
        if r is Fail {
            assert(parsers[0].outcome(position, source, Outcome::Fail));
        }
    }
}

/// A sequence of `n` byte readers, started at `position`, succeeds exactly
/// when `n` bytes are left; it then stops `n` further with those bytes in
/// order. With fewer bytes left it fails as a whole.
pub proof fn sequence_of_byte_readers(
    parsers: Seq<Parser<u8>>,
    position: int,
    source: Seq<u8>,
    r: Outcome<Vec<u8>>,
)
    requires
        forall|i: int| 0 <= i < parsers.len() ==> is_byte_reader(#[trigger] parsers[i]),
        0 <= position <= source.len(),
        sequenced(parsers, position, source, r),
    ensures
        position + parsers.len() <= source.len() ==> (r matches Outcome::Success(next, values)
            && next == position + parsers.len() && values@ == source.subrange(
            position,
            position + parsers.len(),
        )),
        position + parsers.len() > source.len() ==> r is Fail,
{
    match r {
        Outcome::Success(next, values) => {
            let cursors = choose|cursors: Seq<usize>|
                {
                    &&& #[trigger] threads(parsers, source, cursors, values@)
                    &&& values@.len() == parsers.len()
                    &&& cursors[0] == position
                    &&& cursors.last() == next
                };
            assert forall|i: int| 0 <= i < values@.len() implies byte_read(
                cursors[i] as int,
                source,
                Outcome::Success(cursors[i + 1], #[trigger] values@[i]),
            ) by {
                assert(is_byte_reader(parsers[i]));
            }
            lemma_byte_steps(source, cursors, values@, values@.len() as int);
            assert(values@ =~= source.subrange(position, position + parsers.len()));
        },
        Outcome::Fail => {
            let (cursors, values) = choose|cursors: Seq<usize>, values: Seq<u8>|
                {
                    &&& #[trigger] threads(parsers, source, cursors, values)
                    &&& values.len() < parsers.len()
                    &&& cursors[0] == position
                    &&& parsers[values.len() as int].outcome(
                        cursors.last() as int,
                        source,
                        Outcome::Fail,
                    )
                };
            assert forall|i: int| 0 <= i < values.len() implies byte_read(
                cursors[i] as int,
                source,
                Outcome::Success(cursors[i + 1], #[trigger] values[i]),
            ) by {
                assert(is_byte_reader(parsers[i]));
            }
            lemma_byte_steps(source, cursors, values, values.len() as int);
            assert(is_byte_reader(parsers[values.len() as int]));
        },
    }
}

/// A filter is all or nothing: its result is a failure, or it is a result of
/// the filtered parser, position and value untouched, of whose value the
/// predicate holds.
pub proof fn filter_is_all_or_nothing<T, F: Fn(&T) -> bool>(
    parser: Parser<T>,
    filter: F,
    position: int,
    source: Seq<u8>,
    r: Outcome<T>,
)
    requires
        filtered(parser, filter, position, source, r),
    ensures
        r matches Outcome::Success(_, value) ==> parser.outcome(position, source, r)
            && call_ensures(filter, (&value,), true),
{
}

/// A transform keeps the position: it fails exactly where its parser may
/// fail, and a success stands where a success of its parser stands, with a
/// value that the function made from the value of that success.
pub proof fn transform_keeps_position<T, U, F: Fn(T) -> U>(
    parser: Parser<T>,
    f: F,
    position: int,
    source: Seq<u8>,
    r: Outcome<U>,
)
    requires
        transformed(parser, f, position, source, r),
    ensures
        r is Fail ==> parser.outcome(position, source, Outcome::Fail),
        r matches Outcome::Success(next, mapped) ==> exists|value: T|
            #[trigger] parser.outcome(position, source, Outcome::Success(next, value))
                && call_ensures(f, (value,), mapped),
{
}

/// A repetition never fails.
pub proof fn repetition_never_fails<T>(
    parser: Parser<T>,
    position: int,
    source: Seq<u8>,
    r: Outcome<Vec<T>>,
)
    requires
        repeated(parser, position, source, r),
    ensures
        r is Success,
{
}

/// Repetition where nothing matches: at a position at which `parser` cannot
/// succeed, its repetition succeeds on the spot with no values.
pub proof fn repetition_where_nothing_matches<T>(
    parser: Parser<T>,
    position: int,
    source: Seq<u8>,
    r: Outcome<Vec<T>>,
)
    requires
        forall|next: usize, value: T|
            !#[trigger] parser.outcome(position, source, Outcome::Success(next, value)),
        repeated(parser, position, source, r),
    ensures
        r matches Outcome::Success(next, values) && next == position && values@.len() == 0,
{
    match r {
        Outcome::Success(next, values) => {
            let cursors = choose|cursors: Seq<usize>|
                {
                    &&& #[trigger] repeats(parser, source, cursors, values@)
                    &&& cursors[0] == position
                    &&& cursors.last() == next
                    &&& parser.outcome(next as int, source, Outcome::Fail)
                };
            if values@.len() > 0 {
                assert(parser.outcome(
                    cursors[0] as int,
                    source,
                    Outcome::Success(cursors[1], values@[0]),
                ));
            }
        },
        Outcome::Fail => {},
    }
}

/// The repetition of a byte reader reads to the end: started at `position`
/// it stops at the end of the source with all the bytes from `position` on.
/// At the end of the source it gives no bytes and stays there.
pub proof fn repetition_of_byte_reader(
    reader: Parser<u8>,
    position: int,
    source: Seq<u8>,
    r: Outcome<Vec<u8>>,
)
    requires
        is_byte_reader(reader),
        0 <= position <= source.len(),
        repeated(reader, position, source, r),
    ensures
        r matches Outcome::Success(next, values) && next == source.len() && values@
            == source.subrange(position, source.len() as int),
{
    match r {
        Outcome::Success(next, values) => {
            let cursors = choose|cursors: Seq<usize>|
                {
                    &&& #[trigger] repeats(reader, source, cursors, values@)
                    &&& cursors[0] == position
                    &&& cursors.last() == next
                    &&& reader.outcome(next as int, source, Outcome::Fail)
                };
            lemma_byte_steps(source, cursors, values@, values@.len() as int);
            assert(values@ =~= source.subrange(position, source.len() as int));
        },
        Outcome::Fail => {},
    }
}

/// Round trip: where `decode` undoes `encode`, one byte for each item, the
/// repetition of a byte reader transformed by a function that computes
/// `decode`, run from the start of `encode(text)`, succeeds at the length of
/// `text` with `text` as its value.
pub proof fn round_trip<C, U: View<V = Seq<C>>, F: Fn(Vec<u8>) -> U>(
    reader: Parser<u8>,
    readers: Parser<Vec<u8>>,
    f: F,
    encode: spec_fn(Seq<C>) -> Seq<u8>,
    decode: spec_fn(Seq<u8>) -> Seq<C>,
    text: Seq<C>,
    r: Outcome<U>,
)
    requires
        is_byte_reader(reader),
        is_repetition(readers, reader),
        forall|bytes: Vec<u8>, value: U| #[trigger]
            call_ensures(f, (bytes,), value) ==> value@ == decode(bytes@),
        encode(text).len() == text.len(),
        decode(encode(text)) == text,
        transformed(readers, f, 0, encode(text), r),
    ensures
        r matches Outcome::Success(next, value) && next == text.len() && value@ == text,
{
    let source = encode(text);
    match r {
        Outcome::Success(next, value) => {
            let bytes = choose|bytes: Vec<u8>|
                #[trigger] readers.outcome(0, source, Outcome::Success(next, bytes))
                    && call_ensures(f, (bytes,), value);
            repetition_of_byte_reader(reader, 0, source, Outcome::Success(next, bytes));
            assert(bytes@ =~= source);
        },
        Outcome::Fail => {
            assert(repeated(reader, 0, source, Outcome::Fail));
        },
    }
}

} // verus!
