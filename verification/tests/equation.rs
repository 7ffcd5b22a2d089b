use graphing_engine::equation::{
    collect_coefficients, parse_decimal, parse_equation, parse_with, read_term, read_terms,
    strip_whitespace, to_chars, ParseError, Term, TERM_PATTERN,
};

fn terms(equation: &str) -> Result<Vec<(String, u32)>, ParseError> {
    parse_equation(equation)
        .map(|terms| terms.into_iter().map(|term| (term.coefficient, term.power)).collect())
}

fn pairs(expected: &[(&str, u32)]) -> Result<Vec<(String, u32)>, ParseError> {
    Ok(expected.iter().map(|(text, power)| (text.to_string(), *power)).collect())
}

fn decimal(text: &str) -> Option<u32> {
    parse_decimal(&text.chars().collect(), 0)
}

#[test]
fn white_space_is_taken_out() {
    assert_eq!(strip_whitespace(""), "");
    assert_eq!(strip_whitespace("   "), "");
    assert_eq!(strip_whitespace(" 3x ^2\t-\n x + 4 "), "3x^2-x+4");
    assert_eq!(strip_whitespace("a\u{00A0}b\u{2003}c\u{3000}d"), "abcd");
    assert_eq!(strip_whitespace("x²+1"), "x²+1");
}

#[test]
fn white_space_agrees_with_the_standard_library() {
    let text: String = (0..0x3100_u32).filter_map(char::from_u32).collect();
    let expected: String = text.split_whitespace().collect();
    assert_eq!(strip_whitespace(&text), expected);
}

#[test]
fn characters_one_by_one() {
    assert_eq!(to_chars(""), Vec::<char>::new());
    assert_eq!(to_chars("3x²"), vec!['3', 'x', '²']);
}

#[test]
fn decimal_numbers() {
    assert_eq!(decimal("0"), Some(0));
    assert_eq!(decimal("2"), Some(2));
    assert_eq!(decimal("007"), Some(7));
    assert_eq!(decimal("+12"), Some(12));
    assert_eq!(decimal("4294967295"), Some(u32::MAX));
    assert_eq!(decimal("4294967296"), None);
    assert_eq!(decimal("99999999999999999999999999"), None);
    assert_eq!(decimal(""), None);
    assert_eq!(decimal("+"), None);
    assert_eq!(decimal("-"), None);
    assert_eq!(decimal("-1"), None);
    assert_eq!(decimal("++1"), None);
    assert_eq!(decimal("1+"), None);
    assert_eq!(decimal("12a"), None);
    assert_eq!(decimal("1 2"), None);
    assert_eq!(decimal("٣"), None);
    assert_eq!(decimal("99999999999x"), None);
}

#[test]
fn decimal_agrees_with_the_standard_library() {
    for text in [
        "0", "1", "42", "+42", "-42", "", "+", "-", "4294967295", "4294967296", "00000000000001",
        "1e3", "0x10", " 1", "1 ", "１２", "1_000", "+-1", "+0", "9999999999",
    ] {
        assert_eq!(decimal(text), text.parse::<u32>().ok(), "{text:?}");
    }
}

#[test]
fn decimal_from_the_middle() {
    let chars: Vec<char> = "x^12".chars().collect();
    assert_eq!(parse_decimal(&chars, 2), Some(12));
    assert_eq!(parse_decimal(&chars, 3), Some(2));
    assert_eq!(parse_decimal(&chars, 4), None);
    assert_eq!(parse_decimal(&chars, 1), None);
}

fn term(text: &str) -> Option<(String, u32)> {
    read_term(text).map(|term| (term.coefficient, term.power))
}

#[test]
fn terms_one_at_a_time() {
    assert_eq!(term("4"), Some(("4".to_string(), 0)));
    assert_eq!(term("-4.5"), Some(("-4.5".to_string(), 0)));
    assert_eq!(term(""), Some((String::new(), 0)));
    assert_eq!(term("x"), Some((String::new(), 1)));
    assert_eq!(term("3x"), Some(("3".to_string(), 1)));
    assert_eq!(term("-x"), Some(("-".to_string(), 1)));
    assert_eq!(term("+2x^3"), Some(("+2".to_string(), 3)));
    assert_eq!(term("x^0"), Some((String::new(), 0)));
    assert_eq!(term("x^4294967295"), Some((String::new(), u32::MAX)));
    // any one character of ASCII serves as the mark
    assert_eq!(term("2x*5"), Some(("2".to_string(), 5)));
    assert_eq!(term("2x25"), Some(("2".to_string(), 5)));
    // the coefficient ends at the first x, the power starts after the last
    assert_eq!(term("2xx^3"), Some(("2".to_string(), 3)));
    assert_eq!(term("xx"), Some((String::new(), 1)));
    assert_eq!(term("éx^2"), Some(("é".to_string(), 2)));
}

#[test]
fn terms_with_a_malformed_power() {
    assert_eq!(term("x^"), None);
    assert_eq!(term("x2"), None);
    assert_eq!(term("x^a"), None);
    assert_eq!(term("x^2.5"), None);
    assert_eq!(term("x^4294967296"), None);
    assert_eq!(term("3x^2y"), None);
    // a mark that is not of ASCII
    assert_eq!(term("x²"), None);
    assert_eq!(term("x²2"), None);
}

#[test]
fn reads_a_polynomial() {
    assert_eq!(TERM_PATTERN, "([+-]?[^+-]+)");
    assert_eq!(terms("3x^2 - x + 4"), pairs(&[("3", 2), ("-", 1), ("+4", 0)]));
    assert_eq!(terms("x^3+3x^2+4x-1"), pairs(&[("", 3), ("+3", 2), ("+4", 1), ("-1", 0)]));
    assert_eq!(terms("-1 + 3x + 4x^2 + x^3"), pairs(&[("-1", 0), ("+3", 1), ("+4", 2), ("+", 3)]));
    assert_eq!(terms("x"), pairs(&[("", 1)]));
    assert_eq!(terms("2.5"), pairs(&[("2.5", 0)]));
}

#[test]
fn reads_nothing_from_nothing() {
    assert_eq!(terms(""), pairs(&[]));
    assert_eq!(terms("   "), pairs(&[]));
    assert_eq!(terms("+"), pairs(&[]));
    assert_eq!(terms("+-+"), pairs(&[]));
}

#[test]
fn signs_in_a_row_keep_the_last() {
    assert_eq!(terms("2x--3"), pairs(&[("2", 1), ("-3", 0)]));
    assert_eq!(terms("1+-x^2"), pairs(&[("1", 0), ("-", 2)]));
    assert_eq!(terms("4-"), pairs(&[("4", 0)]));
}

#[test]
fn repeated_powers_stay_apart() {
    assert_eq!(terms("x + x + 2x^2 + x"), pairs(&[("", 1), ("+", 1), ("+2", 2), ("+", 1)]));
}

#[test]
fn a_malformed_power_fails_the_whole_equation() {
    assert_eq!(terms("3x^2 + x^ + 1"), Err(ParseError::Power));
    assert_eq!(terms("x^y"), Err(ParseError::Power));
    assert_eq!(terms("1 + x²"), Err(ParseError::Power));
    assert_eq!(terms("x^99999999999"), Err(ParseError::Power));
}

#[test]
fn reads_terms_already_cut() {
    let found = vec!["3x^2".to_string(), "-x".to_string(), "+4".to_string()];
    let read: Vec<(String, u32)> = read_terms(&found)
        .unwrap()
        .into_iter()
        .map(|Term { coefficient, power }| (coefficient, power))
        .collect();
    assert_eq!(Ok(read), pairs(&[("3", 2), ("-", 1), ("+4", 0)]));
    assert!(read_terms(&Vec::new()).unwrap().is_empty());
    let found = vec!["3x^2".to_string(), "x^".to_string()];
    assert_eq!(read_terms(&found).err(), Some(ParseError::Power));
}

#[test]
fn coefficients_stand_at_their_powers() {
    let sum = |a: i64, b: i64| a + b;
    assert_eq!(collect_coefficients(&vec![], 0, sum), Vec::<i64>::new());
    assert_eq!(collect_coefficients(&vec![(0, 7)], 0, sum), vec![7]);
    assert_eq!(collect_coefficients(&vec![(2, 3), (1, -1), (0, 4)], 0, sum), vec![4, -1, 3]);
    assert_eq!(collect_coefficients(&vec![(0, 4), (1, -1), (2, 3)], 0, sum), vec![4, -1, 3]);
    assert_eq!(collect_coefficients(&vec![(3, 1)], 0, sum), vec![0, 0, 0, 1]);
}

#[test]
fn coefficients_of_one_power_add_up() {
    let sum = |a: i64, b: i64| a + b;
    assert_eq!(collect_coefficients(&vec![(1, 1), (1, 1), (2, 2), (1, 1)], 0, sum), vec![0, 3, 2]);
    assert_eq!(collect_coefficients(&vec![(0, 5), (0, -5)], 0, sum), vec![0]);
    // in the order in which the terms come
    let terms = vec![(1_u32, 2_u64), (0, 3), (1, 4), (1, 5)];
    let digits = collect_coefficients(&terms, 0, |a: u64, b: u64| a * 10 + b);
    assert_eq!(digits, vec![3, 245]);
}

#[test]
fn coefficients_of_a_written_polynomial() {
    // -1 + 3x + 4x^2 + 1x^3, which is 29 at x = 2
    let read = parse_equation("-1 + 3x + 4x^2 + 1x^3").unwrap();
    let values: Vec<(u32, f32)> =
        read.iter().map(|term| (term.power, term.coefficient.parse::<f32>().unwrap())).collect();
    let coeffs = collect_coefficients(&values, 0.0, |a: f32, b: f32| a + b);
    assert_eq!(coeffs, vec![-1.0, 3.0, 4.0, 1.0]);
    let y: f32 = coeffs.iter().enumerate().map(|(i, c)| c * 2.0_f32.powi(i as i32)).sum();
    assert_eq!(y, 29.0);
}

#[test]
fn zero_fill_is_added_to() {
    // the place of x^0 is filled with zero first and then added to
    let coeffs = collect_coefficients(&vec![(1, 5.0), (0, -0.0)], 0.0, |a: f32, b: f32| a + b);
    assert_eq!(coeffs.len(), 2);
    assert_eq!(coeffs[0].to_bits(), 0.0_f32.to_bits());
    // taken in first, the value stands as it is
    let coeffs = collect_coefficients(&vec![(0, -0.0), (1, 5.0)], 0.0, |a: f32, b: f32| a + b);
    assert_eq!(coeffs[0].to_bits(), (-0.0_f32).to_bits());
}

#[test]
fn a_malformed_pattern_is_turned_down() {
    assert_eq!(parse_with("(", "3x^2 - x + 4").err(), Some(ParseError::Pattern));
    assert_eq!(parse_with("[+-", "").err(), Some(ParseError::Pattern));
}

#[test]
fn another_pattern_cuts_other_terms() {
    let read: Vec<(String, u32)> = parse_with("[0-9]+x?", "3x 4 x7")
        .unwrap()
        .into_iter()
        .map(|term| (term.coefficient, term.power))
        .collect();
    assert_eq!(Ok(read), pairs(&[("3", 1), ("4", 1), ("7", 0)]));
}

#[test]
fn white_space_of_ascii_is_the_space_and_tab_to_carriage_return() {
    for code in 0..128_u32 {
        let c = char::from_u32(code).unwrap();
        let listed = c == ' ' || ('\t' <= c && c <= '\r');
        assert_eq!(c.is_whitespace(), listed, "{code:#x}");
        let kept = strip_whitespace(&c.to_string());
        assert_eq!(kept.is_empty(), listed, "{code:#x}");
    }
    assert_eq!(strip_whitespace(" \t\n\u{b}\u{c}\r"), "");
    assert_eq!(strip_whitespace("\u{8}\u{e}\u{1c}\u{1f}!~"), "\u{8}\u{e}\u{1c}\u{1f}!~");
}

#[test]
fn the_term_pattern_is_always_accepted() {
    for equation in ["", " ", "x", "3x^2 - x + 4", "+-+", "((((", "[+-", "\\", "x²", "1e5x^3"] {
        assert_ne!(parse_equation(equation).err(), Some(ParseError::Pattern), "{equation:?}");
        assert_ne!(parse_with(TERM_PATTERN, equation).err(), Some(ParseError::Pattern));
    }
}
