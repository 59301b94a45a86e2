use calc::effect::Effect;
use calc::engine::Engine;
use calc::grammar::production;
use calc::lexer::{lex, Lexeme};
use calc::symbol::{Action, NonTerminal, Symbol, Terminal};

fn token(t: Terminal) -> Lexeme {
    Lexeme { terminal: Some(t), digits: Vec::new() }
}

fn number(d: &[u8]) -> Lexeme {
    Lexeme { terminal: Some(Terminal::Number), digits: d.to_vec() }
}

#[test]
fn lex_number_after_blanks() {
    let (lx, next) = lex(b" \t123+4", 0);
    assert_eq!(lx, number(b"123"));
    assert_eq!(next, 5);
    let (lx, next) = lex(b" \t123+4", 5);
    assert_eq!(lx, token(Terminal::Plus));
    assert_eq!(next, 6);
}

#[test]
fn lex_single_characters() {
    let input = b"()+-*/\n";
    let expected = [
        Terminal::OpenParen,
        Terminal::CloseParen,
        Terminal::Plus,
        Terminal::Minus,
        Terminal::Times,
        Terminal::Divide,
        Terminal::Newline,
    ];
    let mut pos = 0;
    for t in expected {
        let (lx, next) = lex(input, pos);
        assert_eq!(lx, token(t));
        assert_eq!(next, pos + 1);
        pos = next;
    }
}

#[test]
fn lex_end_of_input_repeats() {
    let (lx, next) = lex(b"7  ", 1);
    assert_eq!(lx, token(Terminal::EndOfInput));
    assert_eq!(next, 3);
    let (lx, again) = lex(b"7  ", next);
    assert_eq!(lx, token(Terminal::EndOfInput));
    assert_eq!(again, 3);
}

#[test]
fn lex_unrecognized_character() {
    let (lx, next) = lex(b"x1", 0);
    assert_eq!(lx, Lexeme { terminal: None, digits: Vec::new() });
    assert_eq!(next, 1);
}

#[test]
fn table_entries() {
    assert_eq!(
        production(Terminal::Number, NonTerminal::Factor),
        Some(vec![Symbol::Terminal(Terminal::Number), Symbol::Action(Action::PushOperand)])
    );
    assert_eq!(
        production(Terminal::Minus, NonTerminal::Factor),
        Some(vec![
            Symbol::Terminal(Terminal::Minus),
            Symbol::NonTerminal(NonTerminal::Factor),
            Symbol::Action(Action::Negate),
        ])
    );
    assert_eq!(production(Terminal::EndOfInput, NonTerminal::Start), Some(vec![]));
    assert_eq!(production(Terminal::Newline, NonTerminal::Line), Some(vec![Symbol::Terminal(Terminal::Newline)]));
    assert_eq!(production(Terminal::Plus, NonTerminal::Start), None);
    assert_eq!(production(Terminal::EndOfInput, NonTerminal::ExprTail), None);
}

#[test]
fn end_of_input_is_idempotent() {
    let mut engine = Engine::new();
    assert!(engine.feed(token(Terminal::EndOfInput)).is_empty());
    assert!(engine.is_halted());
    assert!(engine.feed(token(Terminal::EndOfInput)).is_empty());
    assert!(engine.feed(number(b"5")).is_empty());
    assert!(engine.is_halted());
}

#[test]
fn feed_one_token_at_a_time() {
    let mut engine = Engine::new();
    assert_eq!(engine.feed(number(b"4")), vec![Effect::Operand(b"4".to_vec())]);
    assert_eq!(engine.feed(token(Terminal::Minus)), vec![]);
    assert_eq!(engine.feed(number(b"1")), vec![Effect::Operand(b"1".to_vec())]);
    assert_eq!(
        engine.feed(token(Terminal::Newline)),
        vec![Effect::Apply(Action::Subtract), Effect::Apply(Action::PrintResult)]
    );
    assert!(!engine.is_halted());
    assert_eq!(engine.feed(token(Terminal::EndOfInput)), vec![]);
    assert!(engine.is_halted());
}

#[test]
fn skipping_until_newline() {
    let mut engine = Engine::new();
    assert_eq!(engine.feed(token(Terminal::Times)), vec![Effect::SyntaxError]);
    assert_eq!(engine.feed(number(b"3")), vec![]);
    assert_eq!(engine.feed(token(Terminal::Newline)), vec![]);
    assert_eq!(engine.feed(number(b"8")), vec![Effect::Operand(b"8".to_vec())]);
    assert_eq!(engine.feed(token(Terminal::Newline)), vec![Effect::Apply(Action::PrintResult)]);
}

#[test]
fn end_of_input_in_mid_line() {
    let mut engine = Engine::new();
    assert_eq!(engine.feed(number(b"2")), vec![Effect::Operand(b"2".to_vec())]);
    assert_eq!(engine.feed(token(Terminal::EndOfInput)), vec![Effect::SyntaxError]);
    assert!(engine.is_halted());
}
