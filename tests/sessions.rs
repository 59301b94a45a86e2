use calc::effect::Effect;
use calc::engine::evaluate;
use calc::symbol::Action;

fn number(digits: &[u8]) -> f64 {
    digits.iter().fold(0.0, |v, d| v * 10.0 + (d - b'0') as f64)
}

/// Runs a session and performs its effects on a value stack of doubles,
/// returning the lines it prints.
fn run(input: &str) -> Vec<String> {
    let mut values: Vec<f64> = Vec::new();
    let mut lines = Vec::new();
    for e in evaluate(input.as_bytes()) {
        match e {
            Effect::Operand(d) => values.push(number(&d)),
            Effect::Apply(Action::Negate) => {
                let a = values.pop().unwrap();
                values.push(-a);
            }
            Effect::Apply(Action::PrintResult) => {
                let a = values.pop().unwrap();
                lines.push(format!("result = {}", a));
            }
            Effect::Apply(op) => {
                let b = values.pop().unwrap();
                let a = values.pop().unwrap();
                values.push(match op {
                    Action::Add => a + b,
                    Action::Subtract => a - b,
                    Action::Multiply => a * b,
                    Action::Divide => a / b,
                    _ => panic!("not a binary operator"),
                });
            }
            Effect::SyntaxError => {
                lines.push("syntax error".to_string());
                values.clear();
            }
        }
    }
    lines
}

#[test]
fn multiplication_binds_tighter() {
    assert_eq!(run("3 + 4 * 2\n"), vec!["result = 11"]);
}

#[test]
fn division_binds_tighter() {
    assert_eq!(run("1 + 6 / 3\n"), vec!["result = 3"]);
}

#[test]
fn unary_minus_after_binary_minus() {
    assert_eq!(run("5 - -3\n"), vec!["result = 8"]);
}

#[test]
fn unary_minus_on_parentheses() {
    assert_eq!(run("-(2+3)\n"), vec!["result = -5"]);
}

#[test]
fn double_negation() {
    assert_eq!(run("--4\n"), vec!["result = 4"]);
}

#[test]
fn parentheses_group() {
    assert_eq!(run("(1+2)*(3+4)\n"), vec!["result = 21"]);
}

#[test]
fn subtraction_is_left_associative() {
    assert_eq!(run("20 - 5 - 3\n"), vec!["result = 12"]);
}

#[test]
fn division_is_left_associative() {
    assert_eq!(run("100 / 10 / 5\n"), vec!["result = 2"]);
}

#[test]
fn fractional_quotient() {
    assert_eq!(run("7/2\n"), vec!["result = 3.5"]);
}

#[test]
fn division_by_zero_is_infinite() {
    assert_eq!(run("1/0\n"), vec!["result = inf"]);
}

#[test]
fn two_lines_in_order() {
    assert_eq!(run("1+1\n2+2\n"), vec!["result = 2", "result = 4"]);
}

#[test]
fn malformed_line_then_recovery() {
    assert_eq!(run("1 + + 2\n"), vec!["syntax error"]);
    assert_eq!(run("1 + + 2\n3*3\n"), vec!["syntax error", "result = 9"]);
}

#[test]
fn error_on_the_newline_itself() {
    assert_eq!(run("1 +\n2\n"), vec!["syntax error", "result = 2"]);
}

#[test]
fn unbalanced_parentheses() {
    assert_eq!(run("(1+2\n4\n"), vec!["syntax error", "result = 4"]);
    // The result is printed before the line's newline is checked.
    assert_eq!(run("1+2)\n4\n"), vec!["result = 3", "syntax error", "result = 4"]);
}

#[test]
fn unrecognized_character() {
    assert_eq!(run("2 $ 3\n4\n"), vec!["syntax error", "result = 4"]);
}

#[test]
fn unfinished_last_line() {
    assert_eq!(run("1+1"), vec!["syntax error"]);
    assert_eq!(run("2\n1 +"), vec!["result = 2", "syntax error"]);
}

#[test]
fn error_while_skipping_at_end() {
    assert_eq!(run("1 + ) 2"), vec!["syntax error"]);
}

#[test]
fn empty_line_prints_nothing() {
    assert_eq!(run("\n"), Vec::<String>::new());
    assert_eq!(run("\n\n5\n"), vec!["result = 5"]);
}

#[test]
fn empty_input() {
    assert_eq!(run(""), Vec::<String>::new());
    assert_eq!(run("  \t"), Vec::<String>::new());
}

#[test]
fn blanks_are_ignored() {
    assert_eq!(run("\t 12 *\t3 \n"), vec!["result = 36"]);
}

#[test]
fn effects_in_evaluation_order() {
    assert_eq!(
        evaluate(b"3 + 4 * 2\n"),
        vec![
            Effect::Operand(b"3".to_vec()),
            Effect::Operand(b"4".to_vec()),
            Effect::Operand(b"2".to_vec()),
            Effect::Apply(Action::Multiply),
            Effect::Apply(Action::Add),
            Effect::Apply(Action::PrintResult),
        ]
    );
}
