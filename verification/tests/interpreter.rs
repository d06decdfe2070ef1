use translator_interp::error::InterpError;
use translator_interp::numeral::int_to_decimal;
use translator_interp::translator::is_addop;
use translator_interp::translator::Translator;

fn interp(s: &str) -> Translator {
    Translator::init(s.as_bytes().to_vec()).expect("non-empty input")
}

#[test]
fn init_empty_fails() {
    let r = Translator::init(Vec::new());
    assert!(matches!(r, Err(InterpError::UnexpectedEndOfInput)));
}

#[test]
fn init_primes_lookahead() {
    let t = interp("3+4");
    assert_eq!(t.look(), b'3');
}

#[test]
fn get_num_reads_digit_run() {
    let mut t = interp("123+");
    assert_eq!(t.get_num(), Ok(123));
    assert_eq!(t.look(), b'+');
}

#[test]
fn get_num_rejects_non_digit() {
    let mut t = interp("x1");
    assert_eq!(t.get_num(), Err(InterpError::ExpectedInteger));
}

#[test]
fn get_num_overflow_faults() {
    let mut t = interp("99999999999999999999\n");
    assert_eq!(t.get_num(), Err(InterpError::ArithmeticFault));
}

#[test]
fn get_num_exhausted_stream_fails() {
    let mut t = interp("5");
    assert_eq!(t.get_num(), Err(InterpError::UnexpectedEndOfInput));
}

#[test]
fn get_name_uppercases_and_consumes_one() {
    let mut t = interp("ab ");
    assert_eq!(t.get_name(), Ok(b'A'));
    assert_eq!(t.look(), b'b');
    assert_eq!(t.get_name(), Ok(b'B'));
    assert_eq!(t.look(), b' ');
}

#[test]
fn get_name_rejects_non_alpha() {
    let mut t = interp("1");
    assert_eq!(t.get_name(), Err(InterpError::ExpectedName));
}

#[test]
fn get_name_exhausted_stream_fails() {
    let mut t = interp("A");
    assert_eq!(t.get_name(), Err(InterpError::UnexpectedEndOfInput));
}

#[test]
fn match_mismatch_consumes_nothing() {
    let mut t = interp("+4");
    assert_eq!(t.match_(b'='), Err(InterpError::ExpectedToken(b'=')));
    assert_eq!(t.look(), b'+');
    assert_eq!(t.match_(b'+'), Ok(()));
    assert_eq!(t.look(), b'4');
}

#[test]
fn match_exhausted_stream_fails() {
    let mut t = interp("=");
    assert_eq!(t.match_(b'='), Err(InterpError::UnexpectedEndOfInput));
    assert_eq!(t.look(), b'=');
}

#[test]
fn set_var_then_var_round_trips() {
    let mut t = interp("A");
    t.set_var(b'Q', 7);
    assert_eq!(t.var(b'Q'), 7);
    assert_eq!(t.var(b'A'), 0);
    assert_eq!(t.var(b'Z'), 0);
    t.set_var(b'Q', -3);
    assert_eq!(t.var(b'Q'), -3);
}

#[test]
fn expression_precedence() {
    let mut t = interp("3+4*2\n");
    assert_eq!(t.expression(), Ok(11));
    assert_eq!(t.look(), b'\n');
}

#[test]
fn expression_parens_override_precedence() {
    let mut t = interp("(3+4)*2\n");
    assert_eq!(t.expression(), Ok(14));
    assert_eq!(t.look(), b'\n');
}

#[test]
fn expression_leading_minus() {
    let mut t = interp("-5+3\n");
    assert_eq!(t.expression(), Ok(-2));
}

#[test]
fn expression_leading_plus() {
    let mut t = interp("+5\n");
    assert_eq!(t.expression(), Ok(5));
}

#[test]
fn expression_uses_variables() {
    let mut t = interp("B*B+C\n");
    t.set_var(b'B', 6);
    t.set_var(b'C', 2);
    assert_eq!(t.expression(), Ok(38));
}

#[test]
fn expression_addition_overflow_faults() {
    let mut t = interp("A+B\n");
    t.set_var(b'A', i64::MAX);
    t.set_var(b'B', 1);
    assert_eq!(t.expression(), Err(InterpError::ArithmeticFault));
}

#[test]
fn term_division_by_zero_faults() {
    let mut t = interp("8/0\n");
    assert_eq!(t.term(), Err(InterpError::ArithmeticFault));
}

#[test]
fn term_division_truncates() {
    let mut t = interp("7/2\n");
    assert_eq!(t.term(), Ok(3));
}

#[test]
fn term_division_truncates_towards_zero() {
    let mut t = interp("A/B\n");
    t.set_var(b'A', -7);
    t.set_var(b'B', 2);
    assert_eq!(t.term(), Ok(-3));
}

#[test]
fn term_division_overflow_faults() {
    let mut t = interp("A/B\n");
    t.set_var(b'A', i64::MIN);
    t.set_var(b'B', -1);
    assert_eq!(t.term(), Err(InterpError::ArithmeticFault));
}

#[test]
fn term_multiplication_overflow_faults() {
    let mut t = interp("A*A\n");
    t.set_var(b'A', i64::MAX);
    assert_eq!(t.term(), Err(InterpError::ArithmeticFault));
}

#[test]
fn factor_reads_variable() {
    let mut t = interp("B\n");
    t.set_var(b'B', 9);
    assert_eq!(t.factor(), Ok(9));
    assert_eq!(t.look(), b'\n');
}

#[test]
fn factor_requires_closing_paren() {
    let mut t = interp("(1+2]\n");
    assert_eq!(t.factor(), Err(InterpError::ExpectedToken(b')')));
}

#[test]
fn assignment_stores_value() {
    let mut t = interp("A=5\n");
    assert_eq!(t.assignment(), Ok(()));
    assert_eq!(t.var(b'A'), 5);
}

#[test]
fn assignment_requires_equals() {
    let mut t = interp("A+5\n");
    assert_eq!(t.assignment(), Err(InterpError::ExpectedToken(b'=')));
}

#[test]
fn assignment_evaluates_full_expression() {
    let mut t = interp("X=(2+3)*4\n");
    assert_eq!(t.assignment(), Ok(()));
    assert_eq!(t.var(b'X'), 20);
}

#[test]
fn newline_consumes_crlf() {
    let mut t = interp("\r\nX");
    assert_eq!(t.newline(), Ok(()));
    assert_eq!(t.look(), b'X');
}

#[test]
fn newline_consumes_lf() {
    let mut t = interp("\nX");
    assert_eq!(t.newline(), Ok(()));
    assert_eq!(t.look(), b'X');
}

#[test]
fn newline_tolerates_lone_cr() {
    let mut t = interp("\rX");
    assert_eq!(t.newline(), Ok(()));
    assert_eq!(t.look(), b'X');
}

#[test]
fn newline_leaves_other_lookahead() {
    let mut t = interp("X");
    assert_eq!(t.newline(), Ok(()));
    assert_eq!(t.look(), b'X');
}

#[test]
fn input_statement_captures_raw_byte() {
    let mut t = interp("?A XY");
    assert_eq!(t.input(), Ok(()));
    assert_eq!(t.var(b'A'), b'X' as i64);
    assert_eq!(t.look(), b'Y');
}

#[test]
fn input_statement_requires_query() {
    let mut t = interp("A XY");
    assert_eq!(t.input(), Err(InterpError::ExpectedToken(b'?')));
}

#[test]
fn output_prints_value_and_newline() {
    let mut t = interp("!A\n");
    t.set_var(b'A', 42);
    assert_eq!(t.output(), Ok(b"42\n".to_vec()));
}

#[test]
fn output_prints_negative_value() {
    let mut t = interp("!B\n");
    t.set_var(b'B', -7);
    assert_eq!(t.output(), Ok(b"-7\n".to_vec()));
}

#[test]
fn output_requires_bang() {
    let mut t = interp("A\n");
    assert_eq!(t.output(), Err(InterpError::ExpectedToken(b'!')));
}

#[test]
fn is_addop_recognizes_plus_and_minus() {
    assert!(is_addop(b'+'));
    assert!(is_addop(b'-'));
    assert!(!is_addop(b'*'));
    assert!(!is_addop(b'/'));
    assert!(!is_addop(b'0'));
}

#[test]
fn int_to_decimal_renders_values() {
    assert_eq!(int_to_decimal(0), b"0".to_vec());
    assert_eq!(int_to_decimal(42), b"42".to_vec());
    assert_eq!(int_to_decimal(-5), b"-5".to_vec());
    assert_eq!(int_to_decimal(1000), b"1000".to_vec());
    assert_eq!(int_to_decimal(i64::MAX), b"9223372036854775807".to_vec());
    assert_eq!(int_to_decimal(i64::MIN), b"-9223372036854775808".to_vec());
}

#[test]
fn statements_compose_into_session() {
    let mut t = interp("A=3\nB=A*A\n!B\n");
    assert_eq!(t.assignment(), Ok(()));
    assert_eq!(t.newline(), Ok(()));
    assert_eq!(t.assignment(), Ok(()));
    assert_eq!(t.newline(), Ok(()));
    assert_eq!(t.var(b'B'), 9);
    assert_eq!(t.output(), Ok(b"9\n".to_vec()));
}
