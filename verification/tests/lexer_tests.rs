use component::lexer::ends_token;
use component::lexer::is_char_symbol;
use component::lexer::is_char_whitespace;
use component::lexer::is_part_alpha;
use component::lexer::is_part_int_numeric;
use component::lexer::is_part_whitespace;
use component::lexer::is_type;
use component::lexer::Lex;
use component::lexer::Lexer;
use component::lexer::Token;
use component::lexer::TokenTrait;
use component::lexer::TokenType;

#[test]
fn token_default_test() {
    assert_eq!(Token::default().token_type, TokenType::NoType);
}

#[test]
fn tokenize_test() {
    assert_eq!(
        Token::tokenize("1".to_string()).token_type,
        TokenType::NumericIntLiteral
    );

    assert_eq!(Token::tokenize("1".to_string()).value, "1".to_string());

    // "1 " is not a valid token by itself: the lexer cuts a token off before
    // the space, so tokenize never sees one from lexing.
    assert_ne!(
        Token::tokenize("1 ".to_string()).token_type,
        TokenType::NumericIntLiteral
    );
    assert_ne!(Token::tokenize("1 ".to_string()).value, "1".to_string());
}

#[test]
fn lexer_test() {
    let mut lex: Lexer = Lexer::new(vec![]);

    lex.lines = vec!["1 2 *".to_string()];

    assert_eq!(lex.next().value, "1");
    assert_eq!(lex.next().value, "2");
    assert_eq!(lex.next().value, "*");

    lex.reset_line();

    assert_eq!(lex.next().token_type, TokenType::NumericIntLiteral);
    assert_eq!(lex.next().token_type, TokenType::NumericIntLiteral);
    assert_eq!(lex.next().token_type, TokenType::Multiplication);

    lex.reset_line();

    lex.lines = vec!["1 1 +".to_string()];

    assert_eq!(lex.next().value, "1");
    assert_eq!(lex.next().value, "1");
    assert_eq!(lex.next().value, "+");

    lex.reset_line();

    assert_eq!(lex.next().token_type, TokenType::NumericIntLiteral);
    assert_eq!(lex.next().token_type, TokenType::NumericIntLiteral);
    assert_eq!(lex.next().token_type, TokenType::Addition);

    lex.reset_line();

    lex.lines = vec!["2 5 /".to_string()];

    assert_eq!(lex.next().value, "2");
    assert_eq!(lex.next().value, "5");
    assert_eq!(lex.next().value, "/");

    lex.reset_line();

    assert_eq!(lex.next().token_type, TokenType::NumericIntLiteral);
    assert_eq!(lex.next().token_type, TokenType::NumericIntLiteral);
    assert_eq!(lex.next().token_type, TokenType::Division);
}

#[test]
fn is_char_symbol_test() {
    assert!(is_char_symbol('+'));
}

#[test]
fn is_char_whitespace_test() {
    assert!(is_char_whitespace(' '));
}

#[test]
fn is_part_int_numeric_test() {
    assert!(is_part_int_numeric("1"));
    assert!(is_part_int_numeric("0"));
}

#[test]
fn ends_token_test() {
    // "1 " is the `1` token
    assert!(ends_token('1', ' '));

    // "+\n" is the `+` token
    assert!(ends_token('+', '\n'));

    // "myvar " is the `literal` token containing "myvar"
    assert!(ends_token('r', ' '));

    // "+=" is the `sum` token
    assert!(ends_token('+', '='));

    // "ab" is not the end of any token and may continue as a literal
    assert!(!ends_token('a', 'b'));
}

#[test]
fn end_of_line_test() {
    let mut lex: Lexer = Lexer::new(vec!["7".to_string()]);
    assert_eq!(lex.next().token_type, TokenType::NumericIntLiteral);
    assert_eq!(lex.next().token_type, TokenType::EndToken);

    let mut blank: Lexer = Lexer::new(vec!["   ".to_string()]);
    assert_eq!(blank.next().token_type, TokenType::EndToken);
}

#[test]
fn keyword_classification_test() {
    assert_eq!(is_type("int"), TokenType::TypeIntKeyword);
    assert_eq!(is_type("dec"), TokenType::TypeDecKeyword);
    assert_eq!(is_type("bool"), TokenType::TypeBoolKeyword);
    assert_eq!(is_type("sqrt"), TokenType::TypeSqrtKeyword);
    assert_eq!(is_type("number"), TokenType::TypeNumberKeyword);
    assert_eq!(is_type("size"), TokenType::TypeSizeKeyword);
    assert_eq!(is_type("intx"), TokenType::NoType);

    assert_eq!(Token::tokenize("sqrt".to_string()).token_type, TokenType::TypeSqrtKeyword);
    assert_eq!(Token::tokenize("myvar".to_string()).token_type, TokenType::Identifier);
    assert_eq!(Token::tokenize("my1var".to_string()).token_type, TokenType::NoType);
    assert_eq!(Token::tokenize("-5".to_string()).token_type, TokenType::NumericIntLiteral);
    assert_eq!(Token::tokenize("007".to_string()).token_type, TokenType::NoType);
    assert_eq!(Token::tokenize("=".to_string()).token_type, TokenType::Assignment);
    assert_eq!(Token::tokenize("?".to_string()).token_type, TokenType::Question);
}

#[test]
fn is_part_alpha_test() {
    assert!(is_part_alpha("myvar"));
    assert!(!is_part_alpha("my1var"));
    assert!(is_part_whitespace(" \t\n"));
    assert!(!is_part_whitespace(" a "));
}

#[test]
fn symbols_split_tokens_test() {
    // A symbol character always stands alone, so a decimal literal arrives
    // as three tokens: digits, dot, digits.
    let mut lex: Lexer = Lexer::new(vec!["3.14".to_string()]);
    let a = lex.next();
    let b = lex.next();
    let c = lex.next();
    assert_eq!(a.token_type, TokenType::NumericIntLiteral);
    assert_eq!(a.value, "3");
    assert_eq!(b.token_type, TokenType::Dot);
    assert_eq!(c.token_type, TokenType::NumericIntLiteral);
    assert_eq!(c.value, "14");
}
