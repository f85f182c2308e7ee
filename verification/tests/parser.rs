use wasm_rt::parser::internal::{ErrorKind, ParseError, Parser};

fn short(expected: usize, found: usize, offset: usize) -> ParseError {
    ParseError { kind: ErrorKind::NotEnoughBytes { expected, found }, offset }
}

#[test]
fn new_parser_starts_at_offset_zero() {
    let data = [1u8, 2, 3];
    let p = Parser::new(&data);
    assert_eq!(p.get_bytes(), &[1, 2, 3]);
    assert_eq!(p.get_cursor(), 0);
    assert!(!p.all_consumed());
    assert!(Parser::new(&[]).all_consumed());
}

#[test]
fn consume_returns_the_bytes_and_moves_on() {
    let data = [1u8, 2, 3, 4, 5];
    let mut p = Parser::new(&data);
    assert_eq!(p.consume(2), Ok(&[1u8, 2][..]));
    assert_eq!(p.get_cursor(), 2);
    assert_eq!(p.get_bytes(), &[3, 4, 5]);
    assert_eq!(p.consume(0), Ok(&[][..]));
    assert_eq!(p.get_cursor(), 2);
    assert_eq!(p.consume(3), Ok(&[3u8, 4, 5][..]));
    assert_eq!(p.get_cursor(), 5);
    assert!(p.all_consumed());
}

#[test]
fn consume_of_more_than_is_left_fails_and_consumes_nothing() {
    let data = [1u8, 2, 3];
    let mut p = Parser::new(&data);
    assert_eq!(p.consume(1), Ok(&[1u8][..]));
    assert_eq!(p.consume(3), Err(short(3, 2, 1)));
    assert_eq!(p.get_cursor(), 1);
    assert_eq!(p.get_bytes(), &[2, 3]);
    assert_eq!(p.consume(usize::MAX), Err(short(usize::MAX, 2, 1)));
}

#[test]
fn skip_moves_on_without_a_result() {
    let data = [1u8, 2, 3];
    let mut p = Parser::new(&data);
    assert_eq!(p.skip(2), Ok(()));
    assert_eq!(p.get_cursor(), 2);
    assert_eq!(p.skip(2), Err(short(2, 1, 2)));
    assert_eq!(p.get_bytes(), &[3]);
}

#[test]
fn fork_gives_a_parser_over_the_consumed_bytes_at_the_same_offset() {
    let data = [9u8, 1, 2, 3, 4];
    let mut p = Parser::new(&data);
    assert_eq!(p.consume_byte(), Ok(9));
    let mut sub = p.fork(3).unwrap();
    assert_eq!(sub.get_cursor(), 1);
    assert_eq!(sub.get_bytes(), &[1, 2, 3]);
    assert_eq!(p.get_cursor(), 4);
    assert_eq!(p.get_bytes(), &[4]);

    assert_eq!(sub.consume_byte(), Ok(1));
    assert_eq!(sub.get_cursor(), 2);
    assert_eq!(sub.consume(3), Err(short(3, 2, 2)));
    assert_eq!(sub.skip(2), Ok(()));
    assert!(sub.all_consumed());
    assert_eq!(sub.get_cursor(), 4);

    assert_eq!(p.fork(2).unwrap_err(), short(2, 1, 4));
    assert_eq!(p.get_cursor(), 4);
}

#[test]
fn byte_peeks_and_consume_byte_takes() {
    let data = [7u8, 8];
    let mut p = Parser::new(&data);
    assert_eq!(p.byte(), Ok(7));
    assert_eq!(p.byte(), Ok(7));
    assert_eq!(p.get_cursor(), 0);
    assert_eq!(p.consume_byte(), Ok(7));
    assert_eq!(p.byte(), Ok(8));
    assert_eq!(p.consume_byte(), Ok(8));
    assert_eq!(p.byte(), Err(short(1, 0, 2)));
    assert_eq!(p.consume_byte(), Err(short(1, 0, 2)));
    assert_eq!(p.get_cursor(), 2);
}

#[test]
fn consume_const_accepts_the_expected_bytes() {
    let data = [0x00u8, 0x61, 0x73, 0x6d, 0x01];
    let mut p = Parser::new(&data);
    assert_eq!(p.consume_const(&[0x00, 0x61, 0x73, 0x6d]), Ok(()));
    assert_eq!(p.get_cursor(), 4);
    assert_eq!(p.consume_const(&[]), Ok(()));
    assert_eq!(p.get_cursor(), 4);
    assert_eq!(p.get_bytes(), &[1]);
}

#[test]
fn consume_const_reports_other_bytes_and_has_consumed_them() {
    let data = [5u8, 1, 2, 3, 4];
    let mut p = Parser::new(&data);
    assert_eq!(p.consume_byte(), Ok(5));
    assert_eq!(
        p.consume_const(&[1, 2, 9]),
        Err(ParseError {
            kind: ErrorKind::UnexpectedConst { expected: vec![1, 2, 9], found: vec![1, 2, 3] },
            offset: 1,
        })
    );
    assert_eq!(p.get_cursor(), 4);
    assert_eq!(p.get_bytes(), &[4]);
}

#[test]
fn consume_const_on_short_input_consumes_nothing() {
    let data = [1u8, 2];
    let mut p = Parser::new(&data);
    assert_eq!(p.consume_const(&[1, 2, 3]), Err(short(3, 2, 0)));
    assert_eq!(p.get_cursor(), 0);
    assert_eq!(p.get_bytes(), &[1, 2]);
}

fn uleb(data: &[u8]) -> (Result<u64, ParseError>, usize) {
    let mut p = Parser::new(data);
    let r = p.consume_uleb128();
    (r, p.get_cursor())
}

fn sleb(data: &[u8]) -> (Result<i64, ParseError>, usize) {
    let mut p = Parser::new(data);
    let r = p.consume_sleb128();
    (r, p.get_cursor())
}

#[test]
fn uleb128_decodes_the_groups_lowest_first() {
    assert_eq!(uleb(&[0x00]), (Ok(0), 1));
    assert_eq!(uleb(&[0x01, 0xff]), (Ok(1), 1));
    assert_eq!(uleb(&[0x7f]), (Ok(127), 1));
    assert_eq!(uleb(&[0x80, 0x01]), (Ok(128), 2));
    assert_eq!(uleb(&[0xe5, 0x8e, 0x26]), (Ok(624485), 3));
    assert_eq!(uleb(&[0xff, 0xff, 0xff, 0xff, 0x0f, 0x55]), (Ok(0xffff_ffff), 5));
    // leading zero groups are allowed
    assert_eq!(uleb(&[0x83, 0x80, 0x00]), (Ok(3), 3));
}

#[test]
fn uleb128_fills_all_64_bits_and_drops_what_is_above() {
    let max = [0xff, 0xff, 0xff, 0xff, 0xff, 0xff, 0xff, 0xff, 0xff, 0x01];
    assert_eq!(uleb(&max), (Ok(u64::MAX), 10));
    let top = [0x80, 0x80, 0x80, 0x80, 0x80, 0x80, 0x80, 0x80, 0x80, 0x01];
    assert_eq!(uleb(&top), (Ok(1 << 63), 10));
    // the tenth byte has room for one bit only
    let over = [0x80, 0x80, 0x80, 0x80, 0x80, 0x80, 0x80, 0x80, 0x80, 0x7e];
    assert_eq!(uleb(&over), (Ok(0), 10));
    // bytes from the eleventh on add nothing
    let long = [0x81, 0x80, 0x80, 0x80, 0x80, 0x80, 0x80, 0x80, 0x80, 0x80, 0xff, 0xff, 0x7f, 9];
    assert_eq!(uleb(&long), (Ok(1), 13));
}

#[test]
fn uleb128_on_input_without_a_last_byte_fails_at_the_end() {
    assert_eq!(uleb(&[]), (Err(short(1, 0, 0)), 0));
    assert_eq!(uleb(&[0x80]), (Err(short(1, 0, 1)), 1));
    assert_eq!(uleb(&[0xff, 0x80, 0x80]), (Err(short(1, 0, 3)), 3));
}

#[test]
fn uleb128_counts_offsets_from_the_parsers_own() {
    let data = [0u8, 0, 0x80, 0x80];
    let mut p = Parser::new(&data);
    assert_eq!(p.skip(2), Ok(()));
    assert_eq!(p.consume_uleb128(), Err(short(1, 0, 4)));
    assert!(p.all_consumed());
}

#[test]
fn sleb128_of_a_number_that_is_not_negative() {
    assert_eq!(sleb(&[0x00]), (Ok(0), 1));
    assert_eq!(sleb(&[0x02]), (Ok(2), 1));
    assert_eq!(sleb(&[0x3f, 0x7f]), (Ok(63), 1));
    assert_eq!(sleb(&[0x80, 0x01]), (Ok(128), 2));
    assert_eq!(sleb(&[0xff, 0x00]), (Ok(127), 2));
    assert_eq!(sleb(&[0xe5, 0x8e, 0x26]), (Ok(624485), 3));
    assert_eq!(sleb(&[0xff, 0xff, 0xff, 0xff, 0x07]), (Ok(i32::MAX as i64), 5));
}

#[test]
fn sleb128_of_a_negative_number() {
    assert_eq!(sleb(&[0x7f]), (Ok(-1), 1));
    assert_eq!(sleb(&[0x7e]), (Ok(-2), 1));
    assert_eq!(sleb(&[0x40]), (Ok(-64), 1));
    assert_eq!(sleb(&[0xbf, 0x7f]), (Ok(-65), 2));
    assert_eq!(sleb(&[0x80, 0x7f]), (Ok(-128), 2));
    assert_eq!(sleb(&[0xff, 0x7e]), (Ok(-129), 2));
    assert_eq!(sleb(&[0xc0, 0xbb, 0x78]), (Ok(-123456), 3));
    assert_eq!(sleb(&[0x80, 0x80, 0x80, 0x80, 0x78]), (Ok(i32::MIN as i64), 5));
    // the sign bit of the last byte counts, whatever comes before
    assert_eq!(sleb(&[0xc0, 0x00]), (Ok(64), 2));
    assert_eq!(sleb(&[0x80, 0x40]), (Ok(-8192), 2));
}

#[test]
fn sleb128_extends_the_sign_over_all_64_bits() {
    assert_eq!(sleb(&[0x80, 0x80, 0x80, 0x80, 0x80, 0x40]), (Ok(-(1i64 << 41)), 6));
    assert_eq!(sleb(&[0xff, 0xff, 0xff, 0xff, 0xff, 0x7f]), (Ok(-1), 6));
    assert_eq!(sleb(&[0xff, 0xff, 0xff, 0xff, 0xff, 0x3f]), (Ok((1i64 << 41) - 1), 6));
    let min = [0x80, 0x80, 0x80, 0x80, 0x80, 0x80, 0x80, 0x80, 0x80, 0x7f];
    assert_eq!(sleb(&min), (Ok(i64::MIN), 10));
    let max = [0xff, 0xff, 0xff, 0xff, 0xff, 0xff, 0xff, 0xff, 0xff, 0x00];
    assert_eq!(sleb(&max), (Ok(i64::MAX), 10));
    // nine bytes: the sign is bit 62, and bit 63 follows it
    let nine = [0x80, 0x80, 0x80, 0x80, 0x80, 0x80, 0x80, 0x80, 0x40];
    assert_eq!(sleb(&nine), (Ok(-(1i64 << 62)), 9));
    let nine_up = [0x80, 0x80, 0x80, 0x80, 0x80, 0x80, 0x80, 0x80, 0x3f];
    assert_eq!(sleb(&nine_up), (Ok(63i64 << 56), 9));
}

#[test]
fn sleb128_drops_what_is_above_64_bits() {
    // the tenth byte has room for one bit only, and no sign is extended
    let all = [0xff, 0xff, 0xff, 0xff, 0xff, 0xff, 0xff, 0xff, 0xff, 0x01];
    assert_eq!(sleb(&all), (Ok(-1), 10));
    let top = [0x80, 0x80, 0x80, 0x80, 0x80, 0x80, 0x80, 0x80, 0x80, 0x01];
    assert_eq!(sleb(&top), (Ok(i64::MIN), 10));
    let over = [0x80, 0x80, 0x80, 0x80, 0x80, 0x80, 0x80, 0x80, 0x80, 0x7e];
    assert_eq!(sleb(&over), (Ok(0), 10));
    // bytes from the eleventh on add nothing
    let long = [0x85, 0x80, 0x80, 0x80, 0x80, 0x80, 0x80, 0x80, 0x80, 0x80, 0xff, 0x7f];
    assert_eq!(sleb(&long), (Ok(5), 12));
}

#[test]
fn sleb128_on_input_without_a_last_byte_fails_at_the_end() {
    assert_eq!(sleb(&[]), (Err(short(1, 0, 0)), 0));
    assert_eq!(sleb(&[0xc0]), (Err(short(1, 0, 1)), 1));
    assert_eq!(sleb(&[0xff, 0xff]), (Err(short(1, 0, 2)), 2));
}

#[test]
fn sleb128_consumes_exactly_its_encoding() {
    let data = [0xc0u8, 0xbb, 0x78];
    let mut p = Parser::new(&data);
    assert_eq!(p.consume_sleb128(), Ok(-123456));
    assert_eq!(p.get_cursor(), 3);
    assert!(p.all_consumed());
}

#[test]
fn decoders_leave_the_rest_of_the_input() {
    let data = [0xe5u8, 0x8e, 0x26, 0x7f, 0x2a];
    let mut p = Parser::new(&data);
    assert_eq!(p.consume_uleb128(), Ok(624485));
    assert_eq!(p.get_bytes(), &[0x7f, 0x2a]);
    assert_eq!(p.consume_sleb128(), Ok(-1));
    assert_eq!(p.get_cursor(), 4);
    assert_eq!(p.consume_byte(), Ok(0x2a));
    assert!(p.all_consumed());
}
