use std::str::FromStr;

use parsec::{whitespace, Chop, Combinators, Located, Location, Number, Parser, Succeed, TextParser, TextState, Token};

fn str_err<T>(str: &str, start_location: Location, end_location: Location) -> Result<T, Located<String>> {
    Err(start_location.locate(end_location, String::from(str)))
}

#[derive(Clone, Debug, Eq, PartialEq)]
struct Add {
    lhs: i64,
    rhs: i64,
}

#[derive(Clone, Debug, Eq, PartialEq)]
enum ParsError {
    ExpectedInteger,
    ExpectedToken(String),
}

#[test]
fn simple_addition() {
    let number = Number::new(
        |_| Err(ParsError::ExpectedInteger),
        |int_res| int_res.map_err(|_| ParsError::ExpectedInteger),
        ParsError::ExpectedInteger,
    );
    let plus = Token::new(String::from("+"), ParsError::ExpectedToken(String::from("+")));
    let add_parser = Succeed::with(|lhs: i64| move |rhs: i64| Add { lhs, rhs })
        .keep(number.clone())
        .ignore(whitespace())
        .ignore(plus)
        .ignore(whitespace())
        .keep(number.clone());
    assert_eq!(Ok(Add { lhs: 2, rhs: 4 }), add_parser.pars("2 + 4"));
    assert_eq!(Ok(Add { lhs: 34, rhs: 35 }), add_parser.pars("34 + 35"));

    let loc = Location::new(4, 5, 1);
    assert_eq!(Err(loc.clone().locate(loc, ParsError::ExpectedInteger)), add_parser.pars("34 +"));
}

fn integer_parser() -> Number<
    impl Fn(String) -> Result<i64, String> + Clone,
    impl Fn(Result<i64, std::num::ParseIntError>) -> Result<i64, String> + Clone,
    i64,
    String,
> {
    Number::new(
        |_| Err(String::from("Found float, expected integer")),
        |int_res: Result<i64, std::num::ParseIntError>| int_res.map_err(|e| format!("{}", e)),
        String::from("Expected integer"),
    )
}

fn float_parser() -> Number<
    impl Fn(String) -> Result<f64, String> + Clone,
    impl Fn(Result<i64, std::num::ParseIntError>) -> Result<f64, String> + Clone,
    f64,
    String,
> {
    Number::new(
        |text: String| f64::from_str(&text).map_err(|e| format!("{}", e)),
        |_| Err(String::from("Found integer, expected float")),
        String::from("Expected float"),
    )
}

#[test]
fn pars_integer() {
    let integer = integer_parser();
    assert_eq!(4i64, integer.pars(&String::from("4")).expect("Correct input"));
    assert_eq!(42424242i64, integer.pars(&String::from("42424242")).expect("Correct input"));

    assert_eq!(str_err("Expected integer", Location::start(), Location::start()), integer.pars(&String::from("Abc")));
    assert_eq!(
        str_err("Found float, expected integer", Location::start(), Location::new(3, 4, 1)),
        integer.pars(&String::from("42F"))
    );
    assert_eq!(
        str_err("Found float, expected integer", Location::start(), Location::new(5, 6, 1)),
        integer.pars(&String::from("42.42"))
    );
}

#[test]
fn pars_float() {
    let float = float_parser();
    assert_eq!(
        str_err("Found integer, expected float", Location::start(), Location::new(1, 2, 1)),
        float.pars(&String::from("4"))
    );
    assert_eq!(
        str_err("Found integer, expected float", Location::start(), Location::new(8, 9, 1)),
        float.pars(&String::from("42424242"))
    );
    assert_eq!(str_err("Expected float", Location::start(), Location::start()), float.pars(&String::from("Abc")));

    assert_eq!(Ok(42f64), float.pars(&String::from("42F")));
    assert_eq!(Ok(42.42f64), float.pars(&String::from("42.42")));
}

#[test]
fn number_leaves_trailing_dot_unread() {
    let integer = integer_parser().map2(Chop::while_con(|_c: char| true), |n: i64, rest: String| (n, rest));
    let float = float_parser();
    // the dot is stripped but the literal counts as a float
    assert_eq!(
        str_err("Found float, expected integer", Location::start(), Location::new(2, 3, 1)),
        integer_parser().pars("12.")
    );
    assert_eq!(Ok(12f64), float.pars("12."));
    assert_eq!(Ok((7i64, String::from("x"))), integer.pars("7x"));
}

#[test]
fn number_stops_at_second_dot() {
    let float = float_parser().map2(Chop::while_con(|_c: char| true), |n: f64, rest: String| (n, rest));
    assert_eq!(Ok((1.5f64, String::from(".7"))), float.pars("1.5.7"));
}

#[test]
fn number_reports_integer_overflow() {
    let integer = integer_parser();
    assert_eq!(Ok(i64::MAX), integer.pars("9223372036854775807"));
    assert_eq!(
        str_err(
            "number too large to fit in target type",
            Location::start(),
            Location::new(19, 20, 1)
        ),
        integer.pars("9223372036854775808")
    );
}

#[test]
fn number_on_empty_input_fails_at_start() {
    assert_eq!(str_err("Expected integer", Location::start(), Location::start()), integer_parser().pars(""));
}

#[test]
fn token_matches_exactly() {
    let plus = Token::new(String::from("+"), String::from("E"));
    assert_eq!(Ok(String::from("+")), plus.pars("+"));
    assert_eq!(str_err("E", Location::start(), Location::start()).map(|()| String::new()), plus.pars("").map(|_| String::new()));
    let minus_err: Result<String, Located<String>> = str_err("E", Location::start(), Location::start());
    assert_eq!(minus_err, plus.pars("-"));
}

#[test]
fn token_error_covers_the_matched_part() {
    let arrow = Token::new(String::from("=>"), 7u8);
    assert_eq!(Err(Location::start().locate(Location::new(1, 2, 1), 7u8)), arrow.pars("=x"));
    assert_eq!(Err(Location::start().locate(Location::start(), 7u8)), arrow.pars("x=>"));
    assert_eq!(Err(Location::start().locate(Location::new(1, 2, 1), 7u8)), arrow.pars("="));
    assert_eq!(Ok(String::from("=>")), arrow.pars("=>rest"));
}

#[test]
fn token_at_end_of_input_fails_with_empty_range() {
    let plus = Token::new(String::from("+"), String::from("E"));
    let expected: Result<String, Located<String>> = str_err("E", Location::start(), Location::start());
    assert_eq!(expected, plus.pars(""));
}

#[test]
fn chop_never_fails_and_reads_all_it_accepts() {
    let digits = Chop::<_, Located<String>>::while_con(|c: char| c.is_ascii_digit());
    assert_eq!(Ok(String::from("12345")), digits.pars("12345"));
    assert_eq!(Ok(String::from("")), digits.pars("abc"));
    assert_eq!(Ok(String::from("")), digits.pars(""));
    let state = TextState::new("123");
    let (rest, value) = digits.do_pars(state).expect("a chop does not fail");
    assert_eq!(String::from("123"), value);
    assert_eq!(None, rest.peek());
    assert_eq!(Location::new(3, 4, 1), *rest.location());
}

#[test]
fn whitespace_includes_unicode_spaces() {
    let ws = whitespace::<Located<String>>();
    assert_eq!(Ok(String::from(" \t\n\u{a0}\u{3000}")), ws.pars(" \t\n\u{a0}\u{3000}x"));
    assert_eq!(Ok(String::new()), ws.pars("x "));
}

#[test]
fn advance_tracks_rows_columns_and_bytes() {
    let mut state = TextState::new("a\né");
    assert_eq!(Location::start(), *state.location());
    assert_eq!(Some('a'), state.next());
    assert_eq!(Location::new(1, 2, 1), *state.location());
    assert_eq!(Some('\n'), state.peek());
    state.advance();
    assert_eq!(Location::new(2, 1, 2), *state.location());
    state.advance();
    assert_eq!(Location::new(4, 2, 2), *state.location());
    state.advance();
    assert_eq!(Location::new(4, 2, 2), *state.location());
    assert_eq!(None, state.next());
}

#[test]
fn byte_offset_never_decreases() {
    let mut state = TextState::new("x\u{1F600}\ny");
    let mut last = state.location().byte_offset();
    for _ in 0..8 {
        let at_end = state.peek().is_none();
        state.advance();
        let now = state.location().byte_offset();
        if at_end {
            assert_eq!(last, now);
        } else {
            assert!(now > last);
        }
        last = now;
    }
    assert_eq!(7, last);
}

#[test]
fn locate_builds_ranges() {
    let mut state = TextState::new("ab");
    let start = *state.location();
    state.advance();
    let l = state.locate(start, 'z');
    assert_eq!(Location::start(), l.source_range().start);
    assert_eq!(Location::new(1, 2, 1), l.source_range().end);
    assert_eq!('z', *l.target());
    let here = state.locate_at_exactly(1u8);
    assert_eq!(here.source_range().start, here.source_range().end);
}

#[test]
fn location_steps() {
    let l = Location::new(3, 4, 2);
    assert_eq!(Location::new(5, 1, 3), l.new_line(2));
    assert_eq!(Location::new(6, 5, 2), l.increment(3));
    assert_eq!(3, l.byte_offset());
    assert_eq!(4, l.column());
    assert_eq!(2, l.row());
    assert_eq!(Location::start(), Location::default());
    assert!(Location::start() < l);
    assert!(!(l < Location::new(3, 1, 9)));
    assert_eq!(Some(std::cmp::Ordering::Equal), l.partial_cmp(&Location::new(3, 1, 9)));
    assert_eq!(Some(std::cmp::Ordering::Greater), l.partial_cmp(&Location::start()));
}

#[test]
fn cloned_state_moves_on_its_own() {
    let mut state = TextState::new("xy");
    let snapshot = state.clone();
    assert_eq!(Some('x'), state.next());
    assert_eq!(Some('x'), snapshot.peek());
    assert_eq!(Location::start(), *snapshot.location());
    assert_eq!(Location::new(1, 2, 1), *state.location());
}
