use tiny::interpreter::memory::Fault;
use tiny::lexical::chars_of;
use tiny::lexical::lexical_analizer::lexical_analysis;
use tiny::lexical::tokens::Token;
use tiny::syntatic::syntatic_analizer::start;
use tiny::syntatic::syntatic_analizer::ParseError;
use tiny::syntatic::syntatic_analizer::RunError;

fn run(src: &str, input: Vec<String>) -> (Vec<i32>, Option<RunError>) {
    let cs = chars_of(src);
    let lexes = lexical_analysis(&cs);
    start(lexes, input, 1_000_000)
}

#[test]
fn program_sum_and_output() {
    let (out, err) = run("program x = 1 + 2 ; output x ; ", Vec::new());
    assert!(err.is_none());
    assert_eq!(out, vec![3]);
}

#[test]
fn program_while_counts() {
    let (out, err) = run(
        "program x = 0 ; while x < 3 do output x ; x = x + 1 ; done ;",
        Vec::new(),
    );
    assert!(err.is_none());
    assert_eq!(out, vec![0, 1, 2]);
}

#[test]
fn program_if_true_branch() {
    let (out, err) = run("program if true then output 1 ; else output 2 ; done ;", Vec::new());
    assert!(err.is_none());
    assert_eq!(out, vec![1]);
}

#[test]
fn program_if_false_branch() {
    let (out, err) = run("program if false then output 1 ; else output 2 ; done ;", Vec::new());
    assert!(err.is_none());
    assert_eq!(out, vec![2]);
}

#[test]
fn unassigned_variable_faults() {
    let (out, err) = run("program output y ;", Vec::new());
    assert!(out.is_empty());
    assert!(matches!(err, Some(RunError::Runtime(Fault::UndefinedVar))));
}

#[test]
fn no_output_after_fault() {
    let (out, err) = run("program output 1 ; output y ; output 2 ;", Vec::new());
    assert_eq!(out, vec![1]);
    assert!(matches!(err, Some(RunError::Runtime(Fault::UndefinedVar))));
}

#[test]
fn chained_arithmetic_rejected() {
    let (out, err) = run("program x = 1 + 2 + 3 ;", Vec::new());
    assert!(out.is_empty());
    match err {
        Some(RunError::Parse(ParseError::Unexpected(lex))) => {
            assert_eq!(lex.token, "+");
            assert_eq!(lex.ttype, Token::Add);
            assert_eq!(lex.line_number, 1);
        },
        _ => panic!("expected a parse error on the extra operator"),
    }
}

#[test]
fn read_consumes_and_trims_input() {
    let (out, err) = run(
        "program x = read ; output x ;",
        vec!["  42  ".to_string()],
    );
    assert!(err.is_none());
    assert_eq!(out, vec![42]);
}

#[test]
fn read_negative_input() {
    let (out, err) = run("program output read ;", vec!["-7".to_string()]);
    assert!(err.is_none());
    assert_eq!(out, vec![-7]);
}

#[test]
fn malformed_input_faults() {
    let (out, err) = run("program output read ;", vec!["abc".to_string()]);
    assert!(out.is_empty());
    assert!(matches!(err, Some(RunError::Runtime(Fault::BadInput))));
}

#[test]
fn exhausted_input_faults() {
    let (out, err) = run("program output read ;", Vec::new());
    assert!(out.is_empty());
    assert!(matches!(err, Some(RunError::Runtime(Fault::BadInput))));
}

#[test]
fn division_truncates_toward_zero() {
    let (out, err) = run("program x = 0 - 7 ; y = x / 2 ; output y ;", Vec::new());
    assert!(err.is_none());
    assert_eq!(out, vec![-3]);
}

#[test]
fn remainder_takes_dividend_sign() {
    let (out, err) = run("program x = 0 - 7 ; y = x % 2 ; output y ;", Vec::new());
    assert!(err.is_none());
    assert_eq!(out, vec![-1]);
}

#[test]
fn division_by_zero_faults() {
    let (out, err) = run("program output 1 / 0 ;", Vec::new());
    assert!(out.is_empty());
    assert!(matches!(err, Some(RunError::Runtime(Fault::DivisionByZero))));
}

#[test]
fn negative_exponent_faults() {
    let (out, err) = run("program x = 0 - 1 ; output 2 ^ x ;", Vec::new());
    assert!(out.is_empty());
    assert!(matches!(err, Some(RunError::Runtime(Fault::NegativeExponent))));
}

#[test]
fn exponentiation() {
    let (out, err) = run("program output 2 ^ 10 ;", Vec::new());
    assert!(err.is_none());
    assert_eq!(out, vec![1024]);
}

#[test]
fn addition_overflow_faults() {
    let (out, err) = run("program x = 2147483647 ; output x + 1 ;", Vec::new());
    assert!(out.is_empty());
    assert!(matches!(err, Some(RunError::Runtime(Fault::Overflow))));
}

#[test]
fn pow_overflow_faults() {
    let (out, err) = run("program output 2 ^ 31 ;", Vec::new());
    assert!(out.is_empty());
    assert!(matches!(err, Some(RunError::Runtime(Fault::Overflow))));
}

#[test]
fn number_outside_range_is_rejected() {
    let (out, err) = run("program x = 9999999999 ;", Vec::new());
    assert!(out.is_empty());
    match err {
        Some(RunError::Parse(ParseError::BadNumber(lex))) => {
            assert_eq!(lex.token, "9999999999");
            assert_eq!(lex.ttype, Token::Number);
        },
        _ => panic!("expected the number to be rejected"),
    }
}

#[test]
fn negated_term_negates_value() {
    let (out, err) = run("program x = 5 ; y = - x ; output y ;", Vec::new());
    assert!(err.is_none());
    assert_eq!(out, vec![-5]);
}

#[test]
fn leading_plus_is_allowed() {
    let (out, err) = run("program x = + 5 ; output x ;", Vec::new());
    assert!(err.is_none());
    assert_eq!(out, vec![5]);
}

#[test]
fn not_flips_boolean_literal() {
    let (out, err) = run(
        "program if not true then output 1 ; else output 2 ; done ;",
        Vec::new(),
    );
    assert!(err.is_none());
    assert_eq!(out, vec![2]);
}

#[test]
fn missing_semicolon_rejected() {
    let (out, err) = run("program output 1", Vec::new());
    assert!(out.is_empty());
    match err {
        Some(RunError::Parse(ParseError::Unexpected(lex))) => {
            assert_eq!(lex.ttype, Token::EndOfFile);
        },
        _ => panic!("expected a parse error at the end of file"),
    }
}

#[test]
fn run_out_of_steps() {
    let cs = chars_of("program x = 0 ; while true do x = x + 1 ; done ;");
    let lexes = lexical_analysis(&cs);
    let (out, err) = start(lexes, Vec::new(), 10);
    assert!(out.is_empty());
    assert!(matches!(err, Some(RunError::Runtime(Fault::OutOfSteps))));
}

#[test]
fn assignment_overwrites() {
    let (out, err) = run("program x = 1 ; x = 2 ; output x ;", Vec::new());
    assert!(err.is_none());
    assert_eq!(out, vec![2]);
}

#[test]
fn nested_loops_and_ifs() {
    let (out, err) = run(
        "program i = 0 ; while i < 2 do j = 0 ; while j < 2 do if i == j then output 1 ; else output 0 ; done ; j = j + 1 ; done ; i = i + 1 ; done ;",
        Vec::new(),
    );
    assert!(err.is_none());
    assert_eq!(out, vec![1, 0, 0, 1]);
}
