use kalosm_sample::{
    parse, ArrayParser, HasParser, I128Parser, I8Parser, IntegerParser, IntegerState, LiteralParser,
    Numeral, ParseError, U128Parser, U64Parser,
    ParseResult, Parser, RepeatParser, SeparatedParser, SequenceParser, StringParser, U8Parser,
    VecParser,
};

fn finished<S, O>(r: Result<ParseResult<S, O>, ParseError>) -> (O, Vec<u8>) {
    match r {
        Ok(ParseResult::Finished(o, rest)) => (o, rest),
        Ok(ParseResult::Incomplete(_)) => panic!("expected a finished value, got an incomplete parse"),
        Err(e) => panic!("expected a finished value, got {:?}", e),
    }
}

fn incomplete<S, O>(r: Result<ParseResult<S, O>, ParseError>) -> S {
    match r {
        Ok(ParseResult::Incomplete(s)) => s,
        Ok(ParseResult::Finished(_, _)) => panic!("expected an incomplete parse, got a finished one"),
        Err(e) => panic!("expected an incomplete parse, got {:?}", e),
    }
}

fn failed<S, O>(r: Result<ParseResult<S, O>, ParseError>) -> ParseError {
    match r {
        Err(e) => e,
        Ok(_) => panic!("expected a rejection"),
    }
}

#[test]
fn literal_matches_and_leaves_the_rest() {
    let p = LiteralParser::new("foo");
    let st = p.create_parser_state();
    let (o, rest) = finished(parse(&p, &st, b"foobar"));
    assert_eq!(o, ());
    assert_eq!(rest, b"bar".to_vec());
}

#[test]
fn literal_prefix_is_incomplete() {
    let p = LiteralParser::new("foo");
    let st = p.create_parser_state();
    let st2 = incomplete(parse(&p, &st, b"fo"));
    let (_, rest) = finished(parse(&p, &st2, b"o"));
    assert!(rest.is_empty());
}

#[test]
fn literal_mismatch_names_the_bytes() {
    let p = LiteralParser::new("foo");
    let st = p.create_parser_state();
    assert_eq!(
        failed(parse(&p, &st, b"bar")),
        ParseError::LiteralMismatch { expected: b'f', found: b'b' }
    );
}

#[test]
fn u8_rejects_out_of_range() {
    let p = U8Parser::new();
    let st = p.create_parser_state();
    assert_eq!(failed(parse(&p, &st, b"256")), ParseError::OutOfRange);
    // "99" already leaves no room for a third digit, so it completes and the
    // last "9" is left over; inside a list that byte is rejected.
    let (v, rest) = finished(parse(&p, &st, b"999"));
    assert_eq!(v, 99u8);
    assert_eq!(rest, b"9".to_vec());
    let l = VecParser::<u8>::new();
    let ls = l.create_parser_state();
    assert_eq!(
        failed(parse(&l, &ls, b"[999]")),
        ParseError::LiteralMismatch { expected: b']', found: b'9' }
    );
}

#[test]
fn u8_accepts_bounds() {
    let p = U8Parser::new();
    let st = p.create_parser_state();
    let (v, rest) = finished(parse(&p, &st, b"255"));
    assert_eq!(v, 255u8);
    assert!(rest.is_empty());
    let st25 = incomplete(parse(&p, &st, b"25"));
    let (v, rest) = finished(parse(&p, &st25, b"5"));
    assert_eq!(v, 255u8);
    assert!(rest.is_empty());
    let st0 = incomplete(parse(&p, &st, b"0"));
    let (v, rest) = finished(parse(&p, &st0, b""));
    assert_eq!(v, 0u8);
    assert!(rest.is_empty());
}

#[test]
fn integer_stops_at_non_digit() {
    let p = U8Parser::new();
    let st = p.create_parser_state();
    let (v, rest) = finished(parse(&p, &st, b"12, 3"));
    assert_eq!(v, 12u8);
    assert_eq!(rest, b", 3".to_vec());
}

#[test]
fn integer_rejects_non_digit_start() {
    let p = U8Parser::new();
    let st = p.create_parser_state();
    assert_eq!(failed(parse(&p, &st, b"x")), ParseError::UnexpectedByte { found: b'x' });
    assert_eq!(failed(parse(&p, &st, b"-1")), ParseError::UnexpectedByte { found: b'-' });
}

#[test]
fn signed_integer_accepts_minus() {
    let p = I8Parser::new();
    let st = p.create_parser_state();
    let (v, rest) = finished(parse(&p, &st, b"-128 "));
    assert_eq!(v, -128i8);
    assert_eq!(rest, b" ".to_vec());
    assert_eq!(failed(parse(&p, &st, b"-129")), ParseError::OutOfRange);
    let (v, rest) = finished(parse(&p, &st, b"-128"));
    assert_eq!(v, -128i8);
    assert!(rest.is_empty());
    let (v, _) = finished(parse(&p, &st, b"-5]"));
    assert_eq!(v, -5i8);
}

#[test]
fn integer_below_min_at_end_is_rejected() {
    let p = IntegerParser::new(10, 15);
    let st = p.create_parser_state();
    assert_eq!(failed(parse(&p, &st, b"2")), ParseError::OutOfRange);
    let st1 = incomplete(parse(&p, &st, b"1"));
    assert_eq!(failed(parse(&p, &st1, b"")), ParseError::OutOfRange);
    assert_eq!(failed(parse(&p, &st, b"16")), ParseError::OutOfRange);
    let (v, _) = finished(parse(&p, &st, b"12;"));
    assert_eq!(v, Numeral { negative: false, magnitude: 12 });
}

#[test]
fn empty_chunk_without_digits_stays_incomplete() {
    let p = U8Parser::new();
    let st = p.create_parser_state();
    let st2 = incomplete(parse(&p, &st, b""));
    assert_eq!(st2, IntegerState { negative: false, has_digit: false, magnitude: 0 });
}

#[test]
fn sequence_forwards_leftover() {
    let p = SequenceParser::new(U8Parser::new(), LiteralParser::new("!"));
    let st = p.create_parser_state();
    let ((v, ()), rest) = finished(parse(&p, &st, b"42!?"));
    assert_eq!(v, 42u8);
    assert_eq!(rest, b"?".to_vec());
}

#[test]
fn separator_minimum_unmet_is_an_error() {
    let p = SeparatedParser::new(U8Parser::new(), LiteralParser::new(", "), 2, 5);
    let st = p.create_parser_state();
    assert_eq!(
        failed(parse(&p, &st, b"7;")),
        ParseError::TooFewItems { min: 2, found: 1 }
    );
}

#[test]
fn separator_minimum_met_finishes() {
    let p = SeparatedParser::new(U8Parser::new(), LiteralParser::new(", "), 2, 5);
    let st = p.create_parser_state();
    let (items, rest) = finished(parse(&p, &st, b"7, 8;"));
    assert_eq!(items, vec![7u8, 8]);
    assert_eq!(rest, b";".to_vec());
}

#[test]
fn separator_maximum_stops_repetition() {
    let p = SeparatedParser::new(U8Parser::new(), LiteralParser::new(", "), 0, 2);
    let st = p.create_parser_state();
    let (items, rest) = finished(parse(&p, &st, b"1, 2, 3"));
    assert_eq!(items, vec![1u8, 2]);
    assert_eq!(rest, b", 3".to_vec());
}

#[test]
fn vec_round_trip() {
    let p = VecParser::<u8>::new();
    let st = p.create_parser_state();
    let (items, rest) = finished(parse(&p, &st, b"[1, 2, 3]"));
    assert_eq!(items, vec![1u8, 2, 3]);
    assert!(rest.is_empty());
    let (items, rest) = finished(parse(&p, &st, b"[]"));
    assert!(items.is_empty());
    assert!(rest.is_empty());
}

#[test]
fn vec_leaves_bytes_after_bracket() {
    let p = VecParser::<u8>::new();
    let st = p.create_parser_state();
    let (items, rest) = finished(parse(&p, &st, b"[4], x"));
    assert_eq!(items, vec![4u8]);
    assert_eq!(rest, b", x".to_vec());
}

#[test]
fn vec_incremental_matches_single_call() {
    let p = VecParser::<u8>::new();
    let st = p.create_parser_state();
    let whole = parse(&p, &st, b"[1,2, 3]");
    let first = parse(&p, &st, b"[1,2");
    assert_eq!(first, whole);
    assert_eq!(failed(whole), ParseError::LiteralMismatch { expected: b' ', found: b'2' });

    let st2 = incomplete(parse(&p, &st, b"[1, 2"));
    let split = parse(&p, &st2, b", 3]");
    assert_eq!(split, parse(&p, &st, b"[1, 2, 3]"));
    let (items, rest) = finished(split);
    assert_eq!(items, vec![1u8, 2, 3]);
    assert!(rest.is_empty());
}

#[test]
fn nested_vec() {
    let p = VecParser::<Vec<u8>>::new();
    let st = p.create_parser_state();
    let (items, _) = finished(parse(&p, &st, b"[[1], [], [2, 3]]"));
    assert_eq!(items, vec![vec![1u8], vec![], vec![2, 3]]);
}

#[test]
fn array_arity_error() {
    let p = ArrayParser::<3, u8>::new();
    let st = p.create_parser_state();
    assert_eq!(
        failed(parse(&p, &st, b"[1, 2]")),
        ParseError::ArityMismatch { expected: 3, found: 2 }
    );
}

#[test]
fn array_exact_count() {
    let p = ArrayParser::<3, u8>::new();
    let st = p.create_parser_state();
    let (a, rest) = finished(parse(&p, &st, b"[1, 2, 3]"));
    assert_eq!(a, [1u8, 2, 3]);
    assert!(rest.is_empty());
}

#[test]
fn array_too_many_items() {
    let p = ArrayParser::<2, u8>::new();
    let st = p.create_parser_state();
    assert_eq!(
        failed(parse(&p, &st, b"[1, 2, 3]")),
        ParseError::LiteralMismatch { expected: b']', found: b',' }
    );
}

#[test]
fn parse_is_pure() {
    let p = VecParser::<u8>::new();
    let st = incomplete(parse(&p, &p.create_parser_state(), b"[1, "));
    let before = st.clone();
    let a = parse(&p, &st, b"2]");
    let b = parse(&p, &st, b"2]");
    assert_eq!(a, b);
    assert_eq!(st, before);
}

#[test]
fn duplicated_states_are_independent() {
    let p = VecParser::<u8>::new();
    let st = incomplete(parse(&p, &p.create_parser_state(), b"[1"));
    let before = st.clone();
    let copy = p.duplicate_state(&st);
    assert_eq!(copy, st);
    let (x, _) = finished(parse(&p, &copy, b"]"));
    let y = incomplete(parse(&p, &st, b"0, "));
    assert_eq!(x, vec![1u8]);
    assert_ne!(y, before);
    assert_eq!(st, before);
    assert_eq!(copy, before);
    let (z, _) = finished(parse(&p, &y, b"5]"));
    assert_eq!(z, vec![10u8, 5]);
}

#[test]
fn prefix_consistency_on_every_split() {
    let p = VecParser::<u8>::new();
    let st = p.create_parser_state();
    let s: &[u8] = b"[12, 255, 0]tail";
    let whole = parse(&p, &st, s);
    for i in 1..s.len() {
        match parse(&p, &st, &s[..i]) {
            Ok(ParseResult::Incomplete(st2)) => assert_eq!(parse(&p, &st2, &s[i..]), whole),
            Ok(ParseResult::Finished(o, rest)) => {
                let mut all = rest.clone();
                all.extend_from_slice(&s[i..]);
                assert_eq!(Ok(ParseResult::Finished(o, all)), whole);
            }
            Err(e) => assert_eq!(Err(e), whole),
        }
    }
}

#[test]
fn has_parser_gives_canonical_parsers() {
    let p = <Vec<u8> as HasParser>::new_parser();
    let st = <Vec<u8> as HasParser>::create_parser_state();
    assert_eq!(st, p.create_parser_state());
    let (items, _) = finished(parse(&p, &st, b"[9]"));
    assert_eq!(items, vec![9u8]);
    let q = <[i32; 2] as HasParser>::new_parser();
    let qs = <[i32; 2] as HasParser>::create_parser_state();
    let (a, _) = finished(parse(&q, &qs, b"[-1, 2]"));
    assert_eq!(a, [-1i32, 2]);
    let r = <u16 as HasParser>::new_parser();
    let rs = <u16 as HasParser>::create_parser_state();
    assert_eq!(failed(parse(&r, &rs, b"65536")), ParseError::OutOfRange);
    let (v, _) = finished(parse(&r, &rs, b"65535]"));
    assert_eq!(v, 65535u16);
}

#[test]
fn string_stops_at_control_character() {
    let p = StringParser::new(0, 100);
    let st = p.create_parser_state();
    let (text, rest) = finished(parse(&p, &st, "héllo wörld\nnext".as_bytes()));
    assert_eq!(text, "héllo wörld".to_string());
    assert_eq!(rest, b"\nnext".to_vec());
}

#[test]
fn string_stops_at_max_length() {
    let p = StringParser::new(0, 3);
    let st = p.create_parser_state();
    let (text, rest) = finished(parse(&p, &st, "a€bcd".as_bytes()));
    assert_eq!(text, "a€b".to_string());
    assert_eq!(rest, b"cd".to_vec());
}

#[test]
fn string_multibyte_across_chunks() {
    let p = StringParser::new(0, 10);
    let st = p.create_parser_state();
    let bytes = "€".as_bytes();
    let st1 = incomplete(parse(&p, &st, &bytes[..1]));
    let st2 = incomplete(parse(&p, &st1, &bytes[1..]));
    let (text, rest) = finished(parse(&p, &st2, b""));
    assert_eq!(text, "€".to_string());
    assert!(rest.is_empty());
}

#[test]
fn string_too_short_at_end_of_input() {
    let p = StringParser::new(3, 10);
    let st = p.create_parser_state();
    let st1 = incomplete(parse(&p, &st, b"ab"));
    assert_eq!(failed(parse(&p, &st1, b"")), ParseError::TextTooShort { min: 3, found: 2 });
    assert_eq!(failed(parse(&p, &st, b"ab\n")), ParseError::TextTooShort { min: 3, found: 2 });
}

#[test]
fn string_rejects_invalid_utf8() {
    let p = StringParser::new(0, 10);
    let st = p.create_parser_state();
    assert_eq!(failed(parse(&p, &st, &[0xff])), ParseError::UnexpectedByte { found: 0xff });
    assert_eq!(failed(parse(&p, &st, &[0xe0, 0x80, 0x80])), ParseError::UnexpectedByte { found: 0x80 });
    assert_eq!(failed(parse(&p, &st, &[0xed, 0xa0, 0x80])), ParseError::UnexpectedByte { found: 0x80 });
    assert_eq!(failed(parse(&p, &st, &[0xc3, 0x41])), ParseError::UnexpectedByte { found: 0x41 });
}

#[test]
fn string_has_parser_is_unbounded() {
    let p = <String as HasParser>::new_parser();
    let st = <String as HasParser>::create_parser_state();
    let st1 = incomplete(parse(&p, &st, b"any text"));
    let (text, _) = finished(parse(&p, &st1, b""));
    assert_eq!(text, "any text".to_string());
}

#[test]
fn repeat_back_to_back_items() {
    let p = RepeatParser::new(LiteralParser::new("ab"), 1, 10);
    let st = p.create_parser_state();
    let (items, rest) = finished(parse(&p, &st, b"ababx"));
    assert_eq!(items, vec![(), ()]);
    assert_eq!(rest, b"x".to_vec());
}

#[test]
fn repeat_minimum_unmet() {
    let p = RepeatParser::new(LiteralParser::new("ab"), 3, 10);
    let st = p.create_parser_state();
    assert_eq!(failed(parse(&p, &st, b"ababx")), ParseError::TooFewItems { min: 3, found: 2 });
}

#[test]
fn repeat_maximum_and_inner_error() {
    let p = RepeatParser::new(LiteralParser::new("ab"), 0, 2);
    let st = p.create_parser_state();
    let (items, rest) = finished(parse(&p, &st, b"ababab"));
    assert_eq!(items.len(), 2);
    assert_eq!(rest, b"ab".to_vec());
    assert_eq!(
        failed(parse(&p, &st, b"ax")),
        ParseError::LiteralMismatch { expected: b'b', found: b'x' }
    );
}

#[test]
fn repeat_of_integers_ends_at_end_of_input() {
    let p = RepeatParser::new(SequenceParser::new(U8Parser::new(), LiteralParser::new(";")), 0, 10);
    let st = p.create_parser_state();
    let st1 = incomplete(parse(&p, &st, b"1;22;"));
    let (items, _) = finished(parse(&p, &st1, b""));
    assert_eq!(items, vec![(1u8, ()), (22u8, ())]);
}

#[test]
fn empty_separator_makes_no_progress() {
    let p = SeparatedParser::new(U8Parser::new(), LiteralParser::new(""), 0, 5);
    let st = p.create_parser_state();
    assert_eq!(failed(parse(&p, &st, b"1 2")), ParseError::NoProgress);
}

#[test]
fn empty_repeated_item_makes_no_progress() {
    let p = RepeatParser::new(LiteralParser::new(""), 0, 3);
    let st = p.create_parser_state();
    assert_eq!(failed(parse(&p, &st, b"x")), ParseError::NoProgress);
}

#[test]
fn default_parsers_are_canonical() {
    let p: VecParser<u8> = Default::default();
    let st = p.create_parser_state();
    let (items, _) = finished(parse(&p, &st, b"[7, 8]"));
    assert_eq!(items, vec![7u8, 8]);
    let q: ArrayParser<1, u8> = Default::default();
    let qs = q.create_parser_state();
    let (a, _) = finished(parse(&q, &qs, b"[7]"));
    assert_eq!(a, [7u8]);
}

#[test]
fn array_arity_error_at_end_of_input() {
    let p = ArrayParser::<3, u8>::new();
    let st = p.create_parser_state();
    let st1 = incomplete(parse(&p, &st, b"[1, 2"));
    assert_eq!(
        failed(parse(&p, &st1, b"")),
        ParseError::ArityMismatch { expected: 3, found: 2 }
    );
}

#[test]
fn wide_integers_reach_their_bounds() {
    let p = U64Parser::new();
    let st = p.create_parser_state();
    let (v, rest) = finished(parse(&p, &st, b"18446744073709551615"));
    assert_eq!(v, u64::MAX);
    assert!(rest.is_empty());
    assert_eq!(failed(parse(&p, &st, b"18446744073709551616")), ParseError::OutOfRange);

    let q = U128Parser::new();
    let qs = q.create_parser_state();
    let (v, _) = finished(parse(&q, &qs, b"340282366920938463463374607431768211455"));
    assert_eq!(v, u128::MAX);
    assert_eq!(
        failed(parse(&q, &qs, b"340282366920938463463374607431768211456")),
        ParseError::OutOfRange
    );
    let (v, rest) = finished(parse(&q, &qs, b"3402823669209384634633746074317682114550"));
    assert_eq!(v, u128::MAX);
    assert_eq!(rest, b"0".to_vec());

    let r = I128Parser::new();
    let rs = r.create_parser_state();
    let (v, _) = finished(parse(&r, &rs, b"-170141183460469231731687303715884105728"));
    assert_eq!(v, i128::MIN);
    let (v, _) = finished(parse(&r, &rs, b"170141183460469231731687303715884105727"));
    assert_eq!(v, i128::MAX);
    assert_eq!(
        failed(parse(&r, &rs, b"-170141183460469231731687303715884105729")),
        ParseError::OutOfRange
    );
    let (v, _) = finished(parse(&r, &rs, b"-42;"));
    assert_eq!(v, -42i128);
}

#[test]
fn integer_parser_reports_sign_and_magnitude() {
    let p = IntegerParser::new(-1000, 1000);
    let st = p.create_parser_state();
    let (v, rest) = finished(parse(&p, &st, b"-17,"));
    assert_eq!(v, Numeral { negative: true, magnitude: 17 });
    assert_eq!(rest, b",".to_vec());
}
