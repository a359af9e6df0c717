use parser_combinators::Outcome::{Fail, Success};
use parser_combinators::{oneof, process, readchar, require, star};
use parser_combinators::{CharParser, Create, Parse, Parser};

fn is_digit(c: &u8) -> bool {
    c.is_ascii_digit()
}

fn is_letter(c: &u8) -> bool {
    c.is_ascii_alphabetic()
}

fn decode(bytes: Vec<u8>) -> String {
    bytes.iter().map(|b| char::from(*b)).collect()
}

fn encode(text: &str) -> Vec<u8> {
    text.chars().map(|c| c as u8).collect()
}

#[test]
fn readchar_reads_the_byte_at_each_position() {
    let source = "test".as_bytes();
    let p = readchar();
    assert_eq!(p.parse(0, source), Success(1, b't'));
    assert_eq!(p.parse(1, source), Success(2, b'e'));
    assert_eq!(p.parse(2, source), Success(3, b's'));
    assert_eq!(p.parse(3, source), Success(4, b't'));
}

#[test]
fn readchar_fails_at_the_end() {
    let p = readchar();
    assert_eq!(p.parse(4, "test".as_bytes()), Fail);
    assert_eq!(p.parse(0, "".as_bytes()), Fail);
}

#[test]
fn readchar_does_not_care_what_the_byte_is() {
    let source: [u8; 3] = [0, 255, 128];
    let p = readchar();
    assert_eq!(p.parse(0, &source), Success(1, 0));
    assert_eq!(p.parse(1, &source), Success(2, 255));
    assert_eq!(p.parse(2, &source), Success(3, 128));
}

#[test]
fn concat_of_nothing_succeeds_on_the_spot() {
    let p = parser_combinators::concat(Vec::<Parser<u8>>::new());
    assert_eq!(p.parse(0, "test".as_bytes()), Success(0, vec![]));
    assert_eq!(p.parse(3, "test".as_bytes()), Success(3, vec![]));
    assert_eq!(p.parse(0, "".as_bytes()), Success(0, vec![]));
}

#[test]
fn concat_threads_the_cursor() {
    let p = parser_combinators::concat(vec![readchar(), readchar()]);
    assert_eq!(p.parse(0, "abcd".as_bytes()), Success(2, vec![b'a', b'b']));
    assert_eq!(p.parse(1, "abcd".as_bytes()), Success(3, vec![b'b', b'c']));
    assert_eq!(p.parse(2, "abcd".as_bytes()), Success(4, vec![b'c', b'd']));
}

#[test]
fn concat_fails_as_a_whole() {
    let p = parser_combinators::concat(vec![readchar(), readchar()]);
    assert_eq!(p.parse(3, "abcd".as_bytes()), Fail);
    assert_eq!(p.parse(4, "abcd".as_bytes()), Fail);
}

#[test]
fn concat_is_order_sensitive() {
    let digit_then_letter =
        parser_combinators::concat(vec![require(is_digit, readchar()), require(is_letter, readchar())]);
    let letter_then_digit =
        parser_combinators::concat(vec![require(is_letter, readchar()), require(is_digit, readchar())]);
    assert_eq!(digit_then_letter.parse(0, "1a".as_bytes()), Success(2, vec![b'1', b'a']));
    assert_eq!(letter_then_digit.parse(0, "1a".as_bytes()), Fail);
    assert_eq!(digit_then_letter.parse(0, "a1".as_bytes()), Fail);
    assert_eq!(letter_then_digit.parse(0, "a1".as_bytes()), Success(2, vec![b'a', b'1']));
}

#[test]
fn concat_splits_into_front_and_back() {
    let source = "abcdef".as_bytes();
    let whole = parser_combinators::concat(vec![readchar(), readchar(), readchar()]);
    let front = parser_combinators::concat(vec![readchar()]);
    let back = parser_combinators::concat(vec![readchar(), readchar()]);
    let all = whole.parse(1, source);
    assert_eq!(all, Success(4, vec![b'b', b'c', b'd']));
    if let Success(mid, mut values) = front.parse(1, source) {
        if let Success(next, rest) = back.parse(mid, source) {
            values.extend(rest);
            assert_eq!(all, Success(next, values));
            return;
        }
    }
    panic!("front or back failed");
}

#[test]
fn oneof_of_nothing_fails() {
    let p = oneof(Vec::<Parser<u8>>::new());
    assert_eq!(p.parse(0, "test".as_bytes()), Fail);
    assert_eq!(p.parse(0, "".as_bytes()), Fail);
}

#[test]
fn oneof_fails_when_all_fail() {
    let p = oneof(vec![require(is_digit, readchar()), require(|c| *c == b'x', readchar())]);
    assert_eq!(p.parse(0, "test".as_bytes()), Fail);
    assert_eq!(p.parse(4, "test".as_bytes()), Fail);
}

#[test]
fn oneof_takes_the_first_success() {
    let one = process(|_c: u8| 1u32, readchar());
    let two = process(|_c: u8| 2u32, readchar());
    assert_eq!(oneof(vec![one.clone(), two.clone()]).parse(0, "test".as_bytes()), Success(1, 1));
    assert_eq!(oneof(vec![two, one]).parse(0, "test".as_bytes()), Success(1, 2));
}

#[test]
fn oneof_is_not_longest_match() {
    let short = process(|c: u8| vec![c], readchar());
    let long = parser_combinators::concat(vec![readchar(), readchar()]);
    let p = oneof(vec![short, long]);
    assert_eq!(p.parse(0, "test".as_bytes()), Success(1, vec![b't']));
}

#[test]
fn oneof_skips_failing_alternatives() {
    let p = oneof(vec![
        require(is_digit, readchar()),
        require(is_letter, readchar()),
        readchar(),
    ]);
    assert_eq!(p.parse(0, "a1-".as_bytes()), Success(1, b'a'));
    assert_eq!(p.parse(1, "a1-".as_bytes()), Success(2, b'1'));
    assert_eq!(p.parse(2, "a1-".as_bytes()), Success(3, b'-'));
    assert_eq!(p.parse(3, "a1-".as_bytes()), Fail);
}

#[test]
fn oneof_tries_every_alternative_at_the_same_position() {
    let two_digits =
        parser_combinators::concat(vec![require(is_digit, readchar()), require(is_digit, readchar())]);
    let one_byte = parser_combinators::concat(vec![readchar()]);
    let p = oneof(vec![two_digits, one_byte]);
    // the first alternative reads '1' and then fails on 'a': the second starts over at 0
    assert_eq!(p.parse(0, "1a".as_bytes()), Success(1, vec![b'1']));
}

#[test]
fn oneof_ignores_later_alternatives() {
    let source = "test".as_bytes();
    let front = oneof(vec![require(is_digit, readchar()), readchar()]);
    let more = oneof(vec![
        require(is_digit, readchar()),
        readchar(),
        process(|_c: u8| b'?', readchar()),
    ]);
    assert_eq!(front.parse(0, source), Success(1, b't'));
    assert_eq!(more.parse(0, source), front.parse(0, source));
}

#[test]
fn require_keeps_or_drops_the_whole_result() {
    let p = require(is_digit, readchar());
    assert_eq!(p.parse(0, "7x".as_bytes()), Success(1, b'7'));
    assert_eq!(p.parse(1, "7x".as_bytes()), Fail);
}

#[test]
fn require_fails_where_its_parser_fails() {
    let p = require(|_c: &u8| true, readchar());
    assert_eq!(p.parse(2, "7x".as_bytes()), Fail);
    assert_eq!(p.parse(0, "".as_bytes()), Fail);
}

#[test]
fn require_over_a_sequence_reports_no_progress() {
    let pair = parser_combinators::concat(vec![readchar(), readchar()]);
    let same = require(|v: &Vec<u8>| v[0] == v[1], pair);
    assert_eq!(same.parse(0, "aab".as_bytes()), Success(2, vec![b'a', b'a']));
    assert_eq!(same.parse(1, "aab".as_bytes()), Fail);
}

#[test]
fn process_keeps_the_position() {
    let source = "test".as_bytes();
    let plain = parser_combinators::concat(vec![readchar(), readchar(), readchar()]);
    let mapped = process(decode, plain.clone());
    assert_eq!(plain.parse(0, source), Success(3, vec![b't', b'e', b's']));
    assert_eq!(mapped.parse(0, source), Success(3, String::from("tes")));
    assert_eq!(plain.parse(1, source), Success(4, vec![b'e', b's', b't']));
    assert_eq!(mapped.parse(1, source), Success(4, String::from("est")));
}

#[test]
fn process_fails_where_its_parser_fails() {
    let mapped = process(|c: u8| u32::from(c) + 1, readchar());
    assert_eq!(mapped.parse(0, "a".as_bytes()), Success(1, 98));
    assert_eq!(mapped.parse(1, "a".as_bytes()), Fail);
}

#[test]
fn process_changes_the_type() {
    let length = process(|v: Vec<u8>| v.len(), star(readchar()));
    assert_eq!(length.parse(0, "test".as_bytes()), Success(4, 4));
    assert_eq!(length.parse(3, "test".as_bytes()), Success(4, 1));
    assert_eq!(length.parse(4, "test".as_bytes()), Success(4, 0));
}

#[test]
fn star_reads_to_the_end() {
    let p = star(readchar());
    assert_eq!(p.parse(0, "test".as_bytes()), Success(4, vec![b't', b'e', b's', b't']));
    assert_eq!(p.parse(2, "test".as_bytes()), Success(4, vec![b's', b't']));
}

#[test]
fn star_over_an_empty_source() {
    let p = star(readchar());
    assert_eq!(p.parse(0, "".as_bytes()), Success(0, vec![]));
}

#[test]
fn star_at_the_end_gives_nothing() {
    let p = star(readchar());
    assert_eq!(p.parse(4, "test".as_bytes()), Success(4, vec![]));
    // and once more from where it stopped
    if let Success(next, _) = p.parse(0, "test".as_bytes()) {
        assert_eq!(p.parse(next, "test".as_bytes()), Success(4, vec![]));
    } else {
        panic!("star failed");
    }
}

#[test]
fn star_stops_at_the_first_failure() {
    let digits = star(require(is_digit, readchar()));
    assert_eq!(digits.parse(0, "123abc456".as_bytes()), Success(3, vec![b'1', b'2', b'3']));
    assert_eq!(digits.parse(3, "123abc456".as_bytes()), Success(3, vec![]));
    assert_eq!(digits.parse(6, "123abc456".as_bytes()), Success(9, vec![b'4', b'5', b'6']));
}

#[test]
fn star_of_a_sequence() {
    let pair = parser_combinators::concat(vec![readchar(), readchar()]);
    let pairs = star(pair);
    assert_eq!(
        pairs.parse(0, "abcde".as_bytes()),
        Success(4, vec![vec![b'a', b'b'], vec![b'c', b'd']])
    );
}

#[test]
fn round_trip() {
    for text in ["", "t", "test", "hello world", "caf\u{e9}", "\u{0}\u{ff}"] {
        let p = process(decode, star(readchar()));
        let bytes = encode(text);
        assert_eq!(bytes.len(), text.chars().count());
        assert_eq!(p.parse(0, &bytes), Success(text.chars().count(), String::from(text)));
    }
}

#[test]
fn round_trip_of_bytes() {
    let p = process(|bytes: Vec<u8>| bytes, star(readchar()));
    let all: Vec<u8> = (0..=255).collect();
    assert_eq!(p.parse(0, &all), Success(256, all.clone()));
}

#[test]
fn cursor_never_moves_backwards() {
    let source = "a1b2".as_bytes();
    let parsers: Vec<Parser<Vec<u8>>> = vec![
        star(readchar()),
        star(require(is_digit, readchar())),
        parser_combinators::concat(vec![readchar(), readchar()]),
        parser_combinators::concat(vec![]),
        oneof(vec![
            parser_combinators::concat(vec![require(is_digit, readchar())]),
            star(require(is_letter, readchar())),
        ]),
    ];
    for p in parsers.iter() {
        for position in 0..=source.len() {
            if let Success(next, _) = p.parse(position, source) {
                assert!(position <= next && next <= source.len());
            }
        }
    }
}

#[test]
fn clone_behaves_as_the_original() {
    let source = "12ab".as_bytes();
    let p = star(require(is_digit, readchar()));
    let q = p.clone();
    for position in 0..=source.len() {
        assert_eq!(p.parse(position, source), q.parse(position, source));
    }
    drop(p);
    assert_eq!(q.parse(0, source), Success(2, vec![b'1', b'2']));
}

#[test]
fn create_behaves_as_the_original() {
    let source = "12ab".as_bytes();
    let p = CharParser {};
    let q = p.create();
    let again = q.create();
    for position in 0..=source.len() {
        assert_eq!(p.parse(position, source), q.parse(position, source));
        assert_eq!(p.parse(position, source), again.parse(position, source));
    }
}

#[test]
fn one_parser_in_several_places() {
    let digit = require(is_digit, readchar());
    let two = parser_combinators::concat(vec![digit.clone(), digit.clone()]);
    let either = oneof(vec![process(|c: u8| vec![c], digit.clone()), two.clone()]);
    assert_eq!(two.parse(0, "42".as_bytes()), Success(2, vec![b'4', b'2']));
    assert_eq!(either.parse(0, "42".as_bytes()), Success(1, vec![b'4']));
    assert_eq!(digit.parse(1, "42".as_bytes()), Success(2, b'2'));
}

#[test]
fn parsers_of_different_kinds_in_one_list() {
    let p: Vec<Parser<u8>> = vec![
        require(is_digit, readchar()),
        process(|c: u8| c.to_ascii_uppercase(), require(is_letter, readchar())),
        oneof(vec![require(|c| *c == b' ', readchar())]),
    ];
    let all = parser_combinators::concat(p);
    assert_eq!(all.parse(0, "1a b".as_bytes()), Success(3, vec![b'1', b'A', b' ']));
    assert_eq!(all.parse(0, "a1 b".as_bytes()), Fail);
}

fn shareable<P: Send + Sync>(p: P) -> P {
    p
}

#[test]
fn parsers_are_send_and_sync() {
    let p = shareable(star(require(is_letter, readchar())));
    assert_eq!(p.parse(0, "ab1".as_bytes()), Success(2, vec![b'a', b'b']));
}
