use fpig::cursor::Cursor;
use fpig::lexer::{is_ident_continue, is_ident_start, is_whitespace, tokenize};
use fpig::location::Location;
use fpig::token::{Token, TokenKind};

/// Scans `input` as the host does: decimal numbers become floats.
fn tokenize_nonloc(input: &str) -> Vec<Token> {
    tokenize(input)
        .into_iter()
        .map(|t| match t.kind {
            TokenKind::Decimal { lexeme } => Token::new(TokenKind::Float {
                value: lexeme.parse::<f64>().unwrap().to_bits(),
            }),
            kind => Token::new(kind),
        })
        .collect()
}

fn tokens(kinds: Vec<TokenKind>) -> Vec<Token> {
    kinds.into_iter().map(Token::new).collect()
}

#[test]
fn test_single_chars() {
    let input = "+-*/,.;(){}";
    let expect = tokens(vec![
        TokenKind::Plus, TokenKind::Minus, TokenKind::Star, TokenKind::Slash, TokenKind::Comma,
        TokenKind::Dot, TokenKind::Semi, TokenKind::OpenParen, TokenKind::CloseParen,
        TokenKind::OpenBrace, TokenKind::CloseBrace,
    ]);
    assert!(tokenize_nonloc(input).eq(&expect));
}

#[test]
fn test_one_or_two_chars() {
    let input = "! != == = > >= < <=";
    let expect = tokens(vec![
        TokenKind::Bang, TokenKind::BangEq, TokenKind::EqEq, TokenKind::Eq, TokenKind::Gt,
        TokenKind::GtE, TokenKind::Lt, TokenKind::LtE,
    ]);
    assert!(tokenize_nonloc(input).eq(&expect));
}

#[test]
fn test_one_or_two_chars_more() {
    let input = "=== !== =!= ==! !!= !=! =!! !!!";
    let expect = tokens(vec![
        TokenKind::EqEq, TokenKind::Eq, TokenKind::BangEq, TokenKind::Eq, TokenKind::Eq,
        TokenKind::BangEq, TokenKind::EqEq, TokenKind::Bang, TokenKind::Bang, TokenKind::BangEq,
        TokenKind::BangEq, TokenKind::Bang, TokenKind::Eq, TokenKind::Bang, TokenKind::Bang,
        TokenKind::Bang, TokenKind::Bang, TokenKind::Bang,
    ]);
    assert!(tokenize_nonloc(input).eq(&expect));
}

#[test]
fn test_literal_str() {
    let input = "\"abc\"";
    let expect = tokens(vec![TokenKind::Str { value: "abc".to_string() }]);
    assert!(tokenize_nonloc(input).eq(&expect));
}

#[test]
fn test_literal_number() {
    let input = "1234567890 01 123 123.4 1. .1";
    let expect = tokens(vec![
        TokenKind::Int { value: 1234567890 }, TokenKind::Int { value: 1 },
        TokenKind::Int { value: 123 }, TokenKind::Float { value: 123.4f64.to_bits() },
        TokenKind::Int { value: 1 }, TokenKind::Dot, TokenKind::Dot, TokenKind::Int { value: 1 },
    ]);
    assert!(tokenize_nonloc(input).eq(&expect));
}

#[test]
fn test_literal_bool_nil() {
    let input = "true false nil";
    let expect = tokens(vec![TokenKind::True, TokenKind::False, TokenKind::Nil]);
    assert!(tokenize_nonloc(input).eq(&expect));
}

#[test]
fn test_ident() {
    let input = "this_is_an_identifier 自定义的标识";
    let expect = tokens(vec![
        TokenKind::Ident { name: "this_is_an_identifier".to_string() },
        TokenKind::Ident { name: "自定义的标识".to_string() },
    ]);
    assert!(tokenize_nonloc(input).eq(&expect));
}

#[test]
fn test_keywords() {
    let input = "let if else for while fn return";
    let expect = tokens(vec![
        TokenKind::Let, TokenKind::If, TokenKind::Else, TokenKind::For, TokenKind::While,
        TokenKind::Fun, TokenKind::Return,
    ]);
    assert!(tokenize_nonloc(input).eq(&expect));
}

#[test]
fn number_too_large_for_32_bits_is_an_error() {
    assert_eq!(tokenize("2147483647"), tokens(vec![TokenKind::Int { value: i32::MAX }]));
    assert_eq!(tokenize("2147483648"), tokens(vec![TokenKind::Error]));
    assert_eq!(
        tokenize("1.25"),
        tokens(vec![TokenKind::Decimal { lexeme: "1.25".to_owned() }])
    );
}

#[test]
fn unterminated_string_and_stray_characters_are_errors() {
    assert_eq!(tokenize("\"abc"), tokens(vec![TokenKind::Error]));
    assert_eq!(tokenize("| &"), tokens(vec![TokenKind::Error, TokenKind::Error]));
    assert_eq!(tokenize("|| &&"), tokens(vec![TokenKind::Or, TokenKind::And]));
    assert_eq!(tokenize("#"), tokens(vec![TokenKind::Error]));
}

#[test]
fn character_classes() {
    assert!(is_whitespace(' ') && is_whitespace('\u{2029}') && !is_whitespace('a'));
    assert!(is_ident_start('_') && is_ident_start('a') && is_ident_start('自'));
    assert!(!is_ident_start('1') && !is_ident_start('-'));
    assert!(is_ident_continue('1') && is_ident_continue('_') && !is_ident_continue(' '));
}

#[test]
fn cursor_reads_and_tracks_location() {
    let mut c = Cursor::new("ab\ncd");
    assert_eq!(c.first(), 'a');
    assert_eq!(c.second(), 'b');
    assert_eq!(c.bump(), 'a');
    assert_eq!(c.location(), Location::new(1, 2));
    c.eat_while(|ch| ch != '\n');
    assert_eq!(c.first(), '\n');
    assert_eq!(c.bump(), '\n');
    assert_eq!(c.location().line(), 2);
    c.eat_while(|_| true);
    assert!(c.is_eof());
    assert_eq!(c.first(), '\0');
    assert_eq!(c.bump(), '\0');
}

#[test]
fn location_moves_and_resets() {
    let mut l = Location::default();
    assert_eq!((l.line(), l.column()), (1, 1));
    l.right();
    l.new_line();
    assert_eq!((l.line(), l.column()), (2, 2));
    l.reset();
    assert_eq!(l, Location::new(1, 1));
    let mut far = Location::new(usize::MAX, usize::MAX);
    far.right();
    far.new_line();
    assert_eq!(far, Location::new(usize::MAX, usize::MAX));
}
