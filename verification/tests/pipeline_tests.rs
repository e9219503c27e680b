use lux::interpreter::Interpreter;
use lux::{run, RunOutcome};

fn run_source(source: &str, interpreter: &mut Interpreter) -> RunOutcome {
    run(source.as_bytes().to_vec(), interpreter)
}

fn output_lines(source: &str) -> Vec<Vec<u8>> {
    let mut interpreter = Interpreter::new();
    let outcome = run_source(source, &mut interpreter);
    assert!(outcome.lex_errors.is_empty());
    assert!(outcome.parse_errors.is_empty());
    assert!(outcome.runtime_error.is_none());
    outcome.output
}

#[test]
fn precedence_multiplication_binds_tighter() {
    assert_eq!(output_lines("print 1 + 2 * 3;"), vec![b"7".to_vec()]);
}

#[test]
fn precedence_grouping_overrides() {
    assert_eq!(output_lines("print (1 + 2) * 3;"), vec![b"9".to_vec()]);
}

#[test]
fn subtraction_is_left_associative() {
    assert_eq!(output_lines("print 10 - 2 - 3;"), vec![b"5".to_vec()]);
}

#[test]
fn string_concatenation() {
    assert_eq!(output_lines("print \"a\" + \"b\";"), vec![b"ab".to_vec()]);
}

#[test]
fn adding_number_and_string_is_a_type_error() {
    let mut interpreter = Interpreter::new();
    let outcome = run_source("print 1 + \"b\";", &mut interpreter);
    assert!(outcome.parse_errors.is_empty());
    let error = outcome.runtime_error.expect("expected a type error");
    assert_eq!(
        error.message,
        b"operands of '+' must be two numbers or two strings".to_vec()
    );
    assert!(outcome.output.is_empty());
}

#[test]
fn truthiness_of_nil_zero_and_false() {
    assert_eq!(
        output_lines("print !nil; print !0; print !false; print !\"\";"),
        vec![
            b"true".to_vec(),
            b"false".to_vec(),
            b"true".to_vec(),
            b"false".to_vec(),
        ]
    );
}

#[test]
fn equality_is_non_coercive() {
    assert_eq!(output_lines("print 1 == \"1\";"), vec![b"false".to_vec()]);
    assert_eq!(output_lines("print 0 == false;"), vec![b"false".to_vec()]);
    assert_eq!(output_lines("print nil == false;"), vec![b"false".to_vec()]);
    assert_eq!(output_lines("print nil == nil;"), vec![b"true".to_vec()]);
    assert_eq!(output_lines("print \"a\" != \"b\";"), vec![b"true".to_vec()]);
}

#[test]
fn variable_definition_and_lookup() {
    assert_eq!(output_lines("var x = 1; print x;"), vec![b"1".to_vec()]);
}

#[test]
fn undefined_variable_is_a_runtime_error_naming_it() {
    let mut interpreter = Interpreter::new();
    let outcome = run_source("print y;", &mut interpreter);
    let error = outcome.runtime_error.expect("expected a runtime error");
    assert_eq!(error.message, b"undefined variable 'y'".to_vec());
    assert!(outcome.output.is_empty());
}

#[test]
fn redeclaration_overwrites_silently() {
    assert_eq!(
        output_lines("var x = 1; var x = 2; print x;"),
        vec![b"2".to_vec()]
    );
}

#[test]
fn declaration_without_initializer_is_nil() {
    assert_eq!(output_lines("var x; print x;"), vec![b"nil".to_vec()]);
}

#[test]
fn parser_recovers_after_malformed_statement() {
    let mut interpreter = Interpreter::new();
    let outcome = run_source("1 + ; print 2;", &mut interpreter);
    assert_eq!(outcome.parse_errors.len(), 1);
    assert!(outcome.runtime_error.is_none());
    assert_eq!(outcome.output, vec![b"2".to_vec()]);
}

#[test]
fn missing_closing_paren_is_reported() {
    let mut interpreter = Interpreter::new();
    let outcome = run_source("print (1 + 2;", &mut interpreter);
    assert_eq!(outcome.parse_errors.len(), 1);
    assert_eq!(
        outcome.parse_errors[0].message,
        b"Expect ')' after expression.".to_vec()
    );
}

#[test]
fn missing_semicolon_after_declaration_is_reported() {
    let mut interpreter = Interpreter::new();
    let outcome = run_source("var x = 1", &mut interpreter);
    assert_eq!(outcome.parse_errors.len(), 1);
    assert_eq!(
        outcome.parse_errors[0].message,
        b"Expect ';' after variable declaration.".to_vec()
    );
}

#[test]
fn missing_variable_name_is_reported() {
    let mut interpreter = Interpreter::new();
    let outcome = run_source("var 1;", &mut interpreter);
    assert_eq!(outcome.parse_errors.len(), 1);
    assert_eq!(
        outcome.parse_errors[0].message,
        b"Expect variable name.".to_vec()
    );
}

#[test]
fn unexpected_token_is_reported() {
    let mut interpreter = Interpreter::new();
    let outcome = run_source("+ 1;", &mut interpreter);
    assert_eq!(outcome.parse_errors.len(), 1);
    assert_eq!(
        outcome.parse_errors[0].message,
        b"Expect expression.".to_vec()
    );
}

#[test]
fn division_by_zero_yields_infinity_not_an_error() {
    assert_eq!(output_lines("print 1 / 0;"), vec![b"+Inf".to_vec()]);
}

#[test]
fn nan_compares_unequal_to_itself() {
    assert_eq!(output_lines("print 0 / 0 == 0 / 0;"), vec![b"false".to_vec()]);
}

#[test]
fn negative_zero_equals_zero() {
    assert_eq!(output_lines("print 0 == -0;"), vec![b"true".to_vec()]);
}

#[test]
fn comparison_operators_demand_numbers() {
    assert_eq!(
        output_lines("print 1 < 2; print 2 <= 2; print 3 > 4; print 4 >= 4;"),
        vec![
            b"true".to_vec(),
            b"true".to_vec(),
            b"false".to_vec(),
            b"true".to_vec(),
        ]
    );
    let mut interpreter = Interpreter::new();
    let outcome = run_source("print \"a\" < \"b\";", &mut interpreter);
    let error = outcome.runtime_error.expect("expected a type error");
    assert_eq!(error.message, b"operands must be numbers".to_vec());
}

#[test]
fn unary_minus_negates_numbers_only() {
    assert_eq!(output_lines("print -3;"), vec![b"-3".to_vec()]);
    assert_eq!(output_lines("print --3;"), vec![b"3".to_vec()]);
    let mut interpreter = Interpreter::new();
    let outcome = run_source("print -\"a\";", &mut interpreter);
    let error = outcome.runtime_error.expect("expected a type error");
    assert_eq!(
        error.message,
        b"operand of unary '-' must be a number".to_vec()
    );
}

#[test]
fn environment_persists_across_runs() {
    let mut interpreter = Interpreter::new();
    let first = run_source("var x = 1;", &mut interpreter);
    assert!(first.runtime_error.is_none());
    let second = run_source("print x;", &mut interpreter);
    assert!(second.runtime_error.is_none());
    assert_eq!(second.output, vec![b"1".to_vec()]);
}

#[test]
fn first_runtime_error_aborts_but_prior_output_stands() {
    let mut interpreter = Interpreter::new();
    let outcome = run_source("print 1; print y; print 2;", &mut interpreter);
    let error = outcome.runtime_error.expect("expected a runtime error");
    assert_eq!(error.message, b"undefined variable 'y'".to_vec());
    assert_eq!(outcome.output, vec![b"1".to_vec()]);
}

#[test]
fn number_and_string_literals_round_trip() {
    assert_eq!(output_lines("print 42;"), vec![b"42".to_vec()]);
    assert_eq!(output_lines("print 0.5;"), vec![b"0.5".to_vec()]);
    assert_eq!(output_lines("print \"hi\";"), vec![b"hi".to_vec()]);
}

#[test]
fn arithmetic_follows_double_precision() {
    assert_eq!(output_lines("print 6 / 4;"), vec![b"1.5".to_vec()]);
    assert_eq!(output_lines("print 2.5 * 2;"), vec![b"5".to_vec()]);
    assert_eq!(output_lines("print 7 - 0.5;"), vec![b"6.5".to_vec()]);
}

#[test]
fn lex_error_does_not_stop_the_run() {
    let mut interpreter = Interpreter::new();
    let outcome = run_source("print 1; @", &mut interpreter);
    assert_eq!(outcome.lex_errors.len(), 1);
    assert!(outcome.parse_errors.is_empty());
    assert_eq!(outcome.output, vec![b"1".to_vec()]);
}

#[test]
fn each_malformed_statement_reports_one_error() {
    let mut interpreter = Interpreter::new();
    let outcome = run_source("1 + ; 2 + ; print 3;", &mut interpreter);
    assert_eq!(outcome.parse_errors.len(), 2);
    assert!(outcome.runtime_error.is_none());
    assert_eq!(outcome.output, vec![b"3".to_vec()]);
}

#[test]
fn runtime_error_carries_the_line() {
    let mut interpreter = Interpreter::new();
    let outcome = run_source("\n\nprint y;", &mut interpreter);
    let error = outcome.runtime_error.expect("expected a runtime error");
    assert_eq!(error.line, 2);
}

#[test]
fn malformed_only_program_runs_no_statements() {
    let mut interpreter = Interpreter::new();
    let outcome = run_source("1 + ;", &mut interpreter);
    assert_eq!(outcome.parse_errors.len(), 1);
    assert!(outcome.runtime_error.is_none());
    assert!(outcome.output.is_empty());
}
