use lexer::{delimiters_match, Delimiter, Expression, KeyWord, Parser, Primitive};

fn delimiter(d: Delimiter) -> Expression {
    Expression::Delimiter(d)
}

#[test]
fn interleaved_groupings_still_balance() {
    let tokens = vec![
        delimiter(Delimiter::LParen),
        delimiter(Delimiter::LBracket),
        delimiter(Delimiter::RParen),
        delimiter(Delimiter::RBracket),
    ];
    assert!(delimiters_match(&tokens));
}

#[test]
fn closing_before_opening_still_balances() {
    let tokens = vec![delimiter(Delimiter::RBrace), delimiter(Delimiter::LBrace)];
    assert!(delimiters_match(&tokens));
}

#[test]
fn empty_sequence_balances() {
    assert!(delimiters_match(&[]));
}

#[test]
fn each_kind_is_counted_alone() {
    assert!(!delimiters_match(&[delimiter(Delimiter::LParen)]));
    assert!(!delimiters_match(&[delimiter(Delimiter::RParen)]));
    assert!(!delimiters_match(&[delimiter(Delimiter::LBrace)]));
    assert!(!delimiters_match(&[delimiter(Delimiter::RBrace)]));
    assert!(!delimiters_match(&[delimiter(Delimiter::LBracket)]));
    assert!(!delimiters_match(&[delimiter(Delimiter::RBracket)]));
    assert!(!delimiters_match(&[delimiter(Delimiter::LParen), delimiter(Delimiter::RBracket)]));
    assert!(!delimiters_match(&[
        delimiter(Delimiter::LParen),
        delimiter(Delimiter::LParen),
        delimiter(Delimiter::RParen)
    ]));
}

#[test]
fn other_tokens_do_not_count() {
    let tokens = vec![
        Expression::Ident("(".to_string()),
        Expression::Comment(")".to_string()),
        Expression::Primitive(Primitive::String("[".to_string())),
        Expression::Primitive(Primitive::Int(1)),
        Expression::KeyWord(KeyWord::Comma),
    ];
    assert!(delimiters_match(&tokens));
}

#[test]
fn lexed_line_is_checked() {
    assert!(delimiters_match(&Parser::new("(a [b {c} d] e)").parse()));
    assert!(delimiters_match(&Parser::new("([)]").parse()));
    assert!(!delimiters_match(&Parser::new("(a [b)").parse()));
    assert!(delimiters_match(&Parser::new("\"(\" ; (").parse()));
}

#[test]
fn exchanging_two_runs_keeps_the_verdict() {
    let a = Parser::new("( [ x").parse();
    let b = Parser::new("] y )").parse();
    let mut ab = a.clone();
    ab.extend(b.clone());
    let mut ba = b.clone();
    ba.extend(a.clone());
    assert!(delimiters_match(&ab));
    assert!(delimiters_match(&ba));
    assert!(!delimiters_match(&a));
}
