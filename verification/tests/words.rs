use lexer::{
    is_reserved_char, maybe_parse_bool, maybe_parse_int, maybe_parse_primitive, newline,
    Delimiter, Expression, KeyWord, Primitive,
};

#[test]
fn reserved_characters_are_thirteen() {
    for c in "(){}[]\"'`,:;?".chars() {
        assert!(is_reserved_char(c), "{c:?}");
    }
    for c in "a0 +-.\\\n!#<>".chars() {
        assert!(!is_reserved_char(c), "{c:?}");
    }
}

#[test]
fn word_end_is_whitespace_or_reserved() {
    assert!(lexer::scan::is_word_end(' '));
    assert!(lexer::scan::is_word_end('\n'));
    assert!(lexer::scan::is_word_end('\u{2028}'));
    assert!(lexer::scan::is_word_end('?'));
    assert!(!lexer::scan::is_word_end('a'));
    assert!(!lexer::scan::is_word_end('\u{200b}'));
}

#[test]
fn integer_words() {
    assert_eq!(maybe_parse_int("42"), Some(42));
    assert_eq!(maybe_parse_int("-17"), Some(-17));
    assert_eq!(maybe_parse_int("+0"), Some(0));
    assert_eq!(maybe_parse_int(""), None);
    assert_eq!(maybe_parse_int("4 2"), None);
    assert_eq!(maybe_parse_int("4.2"), None);
    assert_eq!(maybe_parse_int("99999999999999999999"), None);
}

#[test]
fn boolean_words() {
    assert_eq!(maybe_parse_bool("true"), Some(true));
    assert_eq!(maybe_parse_bool("false"), Some(false));
    assert_eq!(maybe_parse_bool("True"), None);
    assert_eq!(maybe_parse_bool("FALSE"), None);
    assert_eq!(maybe_parse_bool("tru"), None);
    assert_eq!(maybe_parse_bool("truee"), None);
    assert_eq!(maybe_parse_bool("falsy"), None);
    assert_eq!(maybe_parse_bool(""), None);
}

#[test]
fn literal_words_in_order_of_trial() {
    assert_eq!(maybe_parse_primitive("1"), Some(Expression::Primitive(Primitive::Int(1))));
    assert_eq!(
        maybe_parse_primitive("1.0"),
        Some(Expression::Primitive(Primitive::Float("1.0".to_string())))
    );
    assert_eq!(maybe_parse_primitive("true"), Some(Expression::Primitive(Primitive::Bool(true))));
    assert_eq!(maybe_parse_primitive("maybe"), None);
    assert_eq!(maybe_parse_primitive(""), None);
}

#[test]
fn line_terminator_is_a_line_feed() {
    assert_eq!(newline(), "\n");
}

#[test]
fn characters_spell_keywords_and_delimiters() {
    assert_eq!(KeyWord::from_char('\''), Some(KeyWord::SingleQuote));
    assert_eq!(KeyWord::from_char('`'), Some(KeyWord::BackTick));
    assert_eq!(KeyWord::from_char(','), Some(KeyWord::Comma));
    assert_eq!(KeyWord::from_char(':'), Some(KeyWord::Colon));
    assert_eq!(KeyWord::from_char('('), None);
    assert_eq!(Delimiter::from_char('('), Some(Delimiter::LParen));
    assert_eq!(Delimiter::from_char('x'), None);
    assert_eq!(Delimiter::from('('), Delimiter::LParen);
    assert_eq!(Delimiter::from(')'), Delimiter::RParen);
    assert_eq!(Delimiter::from('{'), Delimiter::LBrace);
    assert_eq!(Delimiter::from('}'), Delimiter::RBrace);
    assert_eq!(Delimiter::from('['), Delimiter::LBracket);
    assert_eq!(Delimiter::from(']'), Delimiter::RBracket);
}

#[test]
fn whitespace_is_what_unicode_calls_white_space() {
    let mut count: u32 = 0;
    for code in 0..=0x10FFFFu32 {
        if let Some(c) = char::from_u32(code) {
            assert_eq!(lexer::is_whitespace(c), c.is_whitespace(), "{code:#x}");
            if c.is_whitespace() {
                count += 1;
            }
        }
    }
    assert_eq!(count, 25);
}

#[test]
fn integer_words_agree_with_the_standard_conversion() {
    let words = [
        "", "+", "-", "0", "-0", "+0", "00", "1", "-1", "+1", "--1", "+-1", "1-", "1+", "12a",
        "a12", " 1", "1 ", "1.0", "1e3", "0x1f", "1_000", "٣", "9223372036854775807",
        "9223372036854775808", "-9223372036854775808", "-9223372036854775809",
        "+9223372036854775807", "0000000000000000000000000000001",
        "-0000000000000000000000000000001", "18446744073709551616",
    ];
    for word in words {
        assert_eq!(maybe_parse_int(word), word.parse::<i64>().ok(), "{word:?}");
    }
}
