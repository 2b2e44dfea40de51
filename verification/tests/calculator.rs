use count::document::evaluate_document;
use count::document::evaluate_line;
use count::interpreter::Environment;
use count::interpreter::Interpreter;
use count::lexer::Lexer;
use count::lexer::Token;
use count::lexer::TokenKind;
use count::parser::Atom;
use count::parser::Expression;
use count::parser::Parser;

fn eval(line: &str, env: &mut Environment) -> String {
    evaluate_line(line.to_string(), env)
}

fn eval_fresh(line: &str) -> String {
    let mut env = Environment::new();
    eval(line, &mut env)
}

#[test]
fn addition() {
    assert_eq!(eval_fresh("2 + 3"), "5");
}

#[test]
fn subtraction_multiplication_division() {
    assert_eq!(eval_fresh("7 - 2"), "5");
    assert_eq!(eval_fresh("6 * 7"), "42");
    assert_eq!(eval_fresh("9 / 2"), "4.5");
    assert_eq!(eval_fresh("7 % 4"), "3");
}

#[test]
fn word_operators_match_symbols() {
    assert_eq!(eval_fresh("2 plus 3"), eval_fresh("2 + 3"));
    assert_eq!(eval_fresh("7 minus 2"), eval_fresh("7 - 2"));
    assert_eq!(eval_fresh("6 times 7"), eval_fresh("6 * 7"));
    assert_eq!(eval_fresh("9 over 2"), eval_fresh("9 / 2"));
    assert_eq!(eval_fresh("7 mod 4"), eval_fresh("7 % 4"));
    assert_eq!(eval_fresh("2 equals 2"), eval_fresh("2 = 2"));
    assert_eq!(eval_fresh("2 plus 3"), "5");
}

#[test]
fn grouping_and_precedence() {
    assert_eq!(eval_fresh("(2 + 3) * 4"), "20");
    assert_eq!(eval_fresh("2 + 3 * 4"), "14");
}

#[test]
fn float_arithmetic_matches_binary64() {
    // 0.1 + 0.2 is not 0.3 in binary64; the sum must hit the exact bit
    // pattern that the literal on the right parses to.
    assert_eq!(eval_fresh("0.1 + 0.2"), eval_fresh("0.30000000000000004"));
    assert_ne!(eval_fresh("0.1 + 0.2"), eval_fresh("0.3"));
    assert_eq!(eval_fresh("1 / 3"), eval_fresh("0.3333333333333333"));
    assert_eq!(eval_fresh("7.5 % 2"), eval_fresh("1.5"));
}

#[test]
fn division_by_zero() {
    assert_eq!(eval_fresh("1 / 0"), "+Inf");
    assert_eq!(eval_fresh("0 - 1 / 0"), "-Inf");
    assert_eq!(eval_fresh("0 / 0"), "NaN");
}

#[test]
fn comparisons() {
    assert_eq!(eval_fresh("2 < 3"), "true");
    assert_eq!(eval_fresh("3 < 2"), "false");
    assert_eq!(eval_fresh("2 <= 2"), "true");
    assert_eq!(eval_fresh("3 > 2"), "true");
    assert_eq!(eval_fresh("2 >= 3"), "false");
    assert_eq!(eval_fresh("2 = 2"), "true");
    assert_eq!(eval_fresh("2 = 3"), "false");
}

#[test]
fn nan_compares_false() {
    assert_eq!(eval_fresh("0 / 0 = 0 / 0"), "false");
    assert_eq!(eval_fresh("0 / 0 < 1"), "false");
    assert_eq!(eval_fresh("0 / 0 >= 1"), "false");
}

#[test]
fn boolean_operand_yields_nothing() {
    assert_eq!(eval_fresh("true < 3"), "");
    assert_eq!(eval_fresh("2 + true"), "");
    assert_eq!(eval_fresh("true + false"), "");
}

#[test]
fn assignment_round_trip() {
    let mut env = Environment::new();
    eval("x: 5", &mut env);
    assert_eq!(eval("x", &mut env), "5");
    // The same name in a fresh environment is unbound.
    assert_eq!(eval_fresh("x"), "");
}

#[test]
fn assignment_displays_bound_value() {
    assert_eq!(eval_fresh("x: 5"), "5");
    assert_eq!(eval_fresh("y: 2 < 1"), "false");
}

#[test]
fn short_circuit() {
    assert_eq!(eval_fresh("false and (1 / 0)"), "false");
    assert_eq!(eval_fresh("true or (1 / 0)"), "true");
}

#[test]
fn idempotent_reevaluation() {
    let mut env = Environment::new();
    eval("x: 41", &mut env);
    let snapshot_one = env.duplicate();
    let snapshot_two = env.duplicate();
    let mut e1 = snapshot_one;
    let mut e2 = snapshot_two;
    assert_eq!(eval("x + 1", &mut e1), eval("x + 1", &mut e2));
    assert_eq!(eval("x + 1", &mut e1), "42");
}

#[test]
fn undefined_name_is_empty() {
    assert_eq!(eval_fresh("foo"), "");
}

#[test]
fn malformed_parenthesis_degrades() {
    // A missing close parenthesis records a diagnostic and parses on.
    let mut lexer = Lexer::new("(2 + 3".to_string());
    let tokens = lexer.tokenize();
    let mut parser = Parser::new(tokens);
    let expressions = parser.parse();
    assert_eq!(expressions.len(), 1);
    assert_eq!(parser.diagnostic_count(), 1);
    // The pipeline still produces the group's value.
    assert_eq!(eval_fresh("(2 + 3"), "5");
}

#[test]
fn invalid_character_degrades() {
    assert_eq!(eval_fresh("@"), "");
}

#[test]
fn unary_minus_is_unevaluated() {
    // The parser builds a unary node for a leading minus, and the evaluator
    // returns it unchanged, so it displays as nothing.
    assert_eq!(eval_fresh("-5"), "");
}

#[test]
fn document_shares_environment_across_lines() {
    let mut env = Environment::new();
    let values = evaluate_document("x: 2\nx + 3".to_string(), &mut env);
    assert_eq!(values, vec!["2".to_string(), "5".to_string()]);
}

#[test]
fn document_trailing_newline_yields_empty_line() {
    let mut env = Environment::new();
    let values = evaluate_document("1\n".to_string(), &mut env);
    assert_eq!(values, vec!["1".to_string(), "".to_string()]);
}

#[test]
fn document_later_lines_do_not_rebind_earlier_passes() {
    // A pass works on the environment it is given; duplicating first keeps
    // the session environment untouched, as the editor's change handler does.
    let mut session = Environment::new();
    eval("x: 1", &mut session);
    let mut pass = session.duplicate();
    let values = evaluate_document("x: 2\nx".to_string(), &mut pass);
    assert_eq!(values, vec!["2".to_string(), "2".to_string()]);
    assert_eq!(eval("x", &mut session), "1");
}

#[test]
fn tokenizer_kinds_and_lexemes() {
    let mut lexer = Lexer::new("count: 1 <= 2\n".to_string());
    let tokens = lexer.tokenize();
    let kinds: Vec<TokenKind> = tokens.iter().map(|t| t.kind()).collect();
    assert!(matches!(kinds[0], TokenKind::Identifier(_)));
    assert!(matches!(kinds[1], TokenKind::Colon));
    assert!(matches!(kinds[2], TokenKind::Number(_)));
    assert!(matches!(kinds[3], TokenKind::LessEqual));
    assert!(matches!(kinds[4], TokenKind::Number(_)));
    assert!(matches!(kinds[5], TokenKind::Newline));
    assert!(matches!(kinds[6], TokenKind::Eof));
    assert_eq!(tokens.len(), 7);
    assert_eq!(tokens[0].lexeme(), b"count".to_vec());
    assert_eq!(tokens[3].lexeme(), b"<=".to_vec());
}

#[test]
fn tokenizer_number_bits() {
    let mut lexer = Lexer::new("2.5".to_string());
    let tokens = lexer.tokenize();
    match tokens[0].kind() {
        TokenKind::Number(bits) => assert_eq!(f64::from_bits(bits), 2.5f64),
        other => panic!("expected a number token, got {:?}", kind_name(&other)),
    }
}

fn kind_name(kind: &TokenKind) -> &'static str {
    match kind {
        TokenKind::Identifier(_) => "Identifier",
        TokenKind::Number(_) => "Number",
        _ => "other",
    }
}

#[test]
fn dot_without_digits_is_not_consumed() {
    // "3." scans as the number 3 followed by a dot token.
    let mut lexer = Lexer::new("3.".to_string());
    let tokens = lexer.tokenize();
    assert!(matches!(tokens[0].kind(), TokenKind::Number(_)));
    assert!(matches!(tokens[1].kind(), TokenKind::Dot));
    assert!(matches!(tokens[2].kind(), TokenKind::Eof));
}

#[test]
fn token_construction() {
    let token = Token::new(TokenKind::Plus, b"+".to_vec());
    assert!(matches!(token.kind(), TokenKind::Plus));
    assert_eq!(token.lexeme(), b"+".to_vec());
}

#[test]
fn atom_number_accessor() {
    let bits = 5f64.to_bits();
    let atom = Atom::Number(bits);
    assert_eq!(atom.number(), Some(bits));
    assert_eq!(Atom::Boolean(true).number(), None);
    assert_eq!(Atom::Name(b"x".to_vec()).number(), None);
}

#[test]
fn interpreter_api_round_trip() {
    let mut interpreter = Interpreter::new();
    let mut env = Environment::new();
    let bits = 7f64.to_bits();
    let expr = Expression::Variable(
        b"n".to_vec(),
        Box::new(Expression::Literal(Atom::Number(bits))),
    );
    let result = interpreter.evaluate(expr, &mut env);
    match interpreter.literal_value(result) {
        Some(Atom::Name(name)) => assert_eq!(name, b"n".to_vec()),
        _ => panic!("assignment should yield the name reference"),
    }
    let read_back = interpreter.evaluate(
        Expression::Literal(Atom::Name(b"n".to_vec())),
        &mut env,
    );
    match interpreter.literal_value(read_back) {
        Some(Atom::Number(read_bits)) => assert_eq!(read_bits, bits),
        _ => panic!("the bound number should be read back"),
    }
}

#[test]
fn environment_get_and_shadowing() {
    let mut env = Environment::new();
    env.insert(b"x".to_vec(), Expression::Literal(Atom::Number(1f64.to_bits())));
    env.insert(b"x".to_vec(), Expression::Literal(Atom::Number(2f64.to_bits())));
    match env.get(&b"x".to_vec()) {
        Some(Expression::Literal(Atom::Number(bits))) => assert_eq!(f64::from_bits(bits), 2.0),
        _ => panic!("the later binding should shadow the earlier one"),
    }
    assert!(env.get(&b"y".to_vec()).is_none());
}

#[test]
fn chained_assignment_statements() {
    let mut env = Environment::new();
    eval("x: y: 5", &mut env);
    assert_eq!(eval("y", &mut env), "5");
}

#[test]
fn logical_truthiness_of_numbers() {
    assert_eq!(eval_fresh("1 and 2"), "2");
    assert_eq!(eval_fresh("true and 3"), "3");
    assert_eq!(eval_fresh("false or 4"), "4");
}
