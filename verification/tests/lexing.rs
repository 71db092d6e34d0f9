use toy_rust_db::error::{ErrorClass, LexFault, QueryError};
use toy_rust_db::lexer::{alpha, Lexer, Token, TokenType};
use toy_rust_db::text::{parse_unsigned, same_text};

fn plain(kind: TokenType) -> Token {
    Token { kind, lexemme: None }
}

fn with_text(kind: TokenType, text: &str) -> Token {
    Token { kind, lexemme: Some(text.to_string()) }
}

fn all_items(text: &str) -> Vec<Result<Token, QueryError>> {
    let mut lexer = Lexer::new(text);
    let mut out = Vec::new();
    while let Some(item) = lexer.next() {
        out.push(item);
    }
    out
}

#[test]
fn lexes_a_whole_query() {
    let items = all_items("select id, name from people where age >= 30\n");
    let expected = vec![
        Ok(plain(TokenType::Select)),
        Ok(with_text(TokenType::Identifier, "id")),
        Ok(plain(TokenType::Comma)),
        Ok(with_text(TokenType::Identifier, "name")),
        Ok(plain(TokenType::From)),
        Ok(with_text(TokenType::Identifier, "people")),
        Ok(plain(TokenType::Where)),
        Ok(with_text(TokenType::Identifier, "age")),
        Ok(plain(TokenType::GEQ)),
        Ok(with_text(TokenType::Number, "30")),
    ];
    assert_eq!(items, expected);
}

#[test]
fn last_token_needs_no_line_end() {
    let items = all_items("from people");
    assert_eq!(
        items,
        vec![Ok(plain(TokenType::From)), Ok(with_text(TokenType::Identifier, "people"))]
    );
    let items = all_items("age<18");
    assert_eq!(
        items,
        vec![
            Ok(with_text(TokenType::Identifier, "age")),
            Ok(plain(TokenType::LT)),
            Ok(with_text(TokenType::Number, "18")),
        ]
    );
}

#[test]
fn lexes_every_operator() {
    let items = all_items("< <= > >= == ,");
    let kinds: Vec<TokenType> = items.into_iter().map(|i| i.unwrap().kind).collect();
    assert_eq!(
        kinds,
        vec![
            TokenType::LT,
            TokenType::LEQ,
            TokenType::GT,
            TokenType::GEQ,
            TokenType::EQ,
            TokenType::Comma,
        ]
    );
}

#[test]
fn keywords_are_matched_with_case() {
    let kinds: Vec<TokenType> =
        all_items("select from where and or is").into_iter().map(|i| i.unwrap().kind).collect();
    assert_eq!(
        kinds,
        vec![
            TokenType::Select,
            TokenType::From,
            TokenType::Where,
            TokenType::And,
            TokenType::Or,
            TokenType::Is,
        ]
    );
    assert_eq!(all_items("Select"), vec![Ok(with_text(TokenType::Identifier, "Select"))]);
    assert_eq!(all_items("selects"), vec![Ok(with_text(TokenType::Identifier, "selects"))]);
    assert_eq!(alpha("where"), plain(TokenType::Where));
    assert_eq!(alpha("wher"), with_text(TokenType::Identifier, "wher"));
}

#[test]
fn words_take_digits_underscore_dot_and_star() {
    assert_eq!(all_items("a_b.c*9 x"), vec![
        Ok(with_text(TokenType::Identifier, "a_b.c*9")),
        Ok(with_text(TokenType::Identifier, "x")),
    ]);
}

#[test]
fn numbers_take_digits_only() {
    assert_eq!(all_items("12.5"), vec![
        Ok(with_text(TokenType::Number, "12")),
        Err(QueryError::BadLex(LexFault::InvalidCharacter('.'))),
    ]);
    assert_eq!(all_items("12ab"), vec![
        Ok(with_text(TokenType::Number, "12")),
        Ok(with_text(TokenType::Identifier, "ab")),
    ]);
}

#[test]
fn strings_keep_everything_between_the_quotes() {
    assert_eq!(all_items("\"Bob  the, 2nd\" is"), vec![
        Ok(with_text(TokenType::String, "Bob  the, 2nd")),
        Ok(plain(TokenType::Is)),
    ]);
    assert_eq!(all_items("\"\""), vec![Ok(with_text(TokenType::String, ""))]);
}

#[test]
fn unterminated_string_is_a_fault() {
    let items = all_items("name is \"Bob");
    assert_eq!(items.len(), 3);
    assert_eq!(items[2], Err(QueryError::BadLex(LexFault::UnterminatedString)));
    assert_eq!(items[2].clone().unwrap_err().class(), ErrorClass::Lex);
}

#[test]
fn single_equals_is_a_fault() {
    assert_eq!(all_items("age = 3"), vec![
        Ok(with_text(TokenType::Identifier, "age")),
        Err(QueryError::BadLex(LexFault::SingleEquals)),
    ]);
    assert_eq!(all_items("="), vec![Err(QueryError::BadLex(LexFault::SingleEquals))]);
}

#[test]
fn other_characters_are_faults() {
    assert_eq!(all_items("a # b"), vec![
        Ok(with_text(TokenType::Identifier, "a")),
        Err(QueryError::BadLex(LexFault::InvalidCharacter('#'))),
    ]);
}

#[test]
fn nothing_follows_the_end_or_a_fault() {
    let mut lexer = Lexer::new("a !");
    assert!(matches!(lexer.next(), Some(Ok(_))));
    assert!(matches!(lexer.next(), Some(Err(_))));
    assert_eq!(lexer.next(), None);
    assert_eq!(lexer.next(), None);
    let mut empty = Lexer::new("   \t\n");
    assert_eq!(empty.peek(), None);
    assert_eq!(empty.next(), None);
}

#[test]
fn peek_takes_nothing() {
    let mut lexer = Lexer::new(" , x");
    assert_eq!(lexer.peek(), Some(Ok(plain(TokenType::Comma))));
    assert_eq!(lexer.peek(), Some(Ok(plain(TokenType::Comma))));
    assert_eq!(lexer.next(), Some(Ok(plain(TokenType::Comma))));
    assert_eq!(lexer.peek(), Some(Ok(with_text(TokenType::Identifier, "x"))));
}

#[test]
fn lexing_is_repeatable() {
    let text = "select a,b from t where a is \"x\" and b < 3";
    assert_eq!(all_items(text), all_items(text));
}

#[test]
fn unsigned_numbers() {
    assert_eq!(parse_unsigned("30"), Some(30));
    assert_eq!(parse_unsigned("0"), Some(0));
    assert_eq!(parse_unsigned("007"), Some(7));
    assert_eq!(parse_unsigned("+5"), Some(5));
    assert_eq!(parse_unsigned(""), None);
    assert_eq!(parse_unsigned("+"), None);
    assert_eq!(parse_unsigned("-1"), None);
    assert_eq!(parse_unsigned("1 "), None);
    assert_eq!(parse_unsigned("x"), None);
    assert_eq!(parse_unsigned("1_000"), None);
    assert_eq!(parse_unsigned(&usize::MAX.to_string()), Some(usize::MAX));
    assert_eq!(parse_unsigned("340282366920938463463374607431768211456"), None);
    let above = format!("{}0", usize::MAX);
    assert_eq!(parse_unsigned(&above), None);
}

#[test]
fn unsigned_numbers_agree_with_std() {
    for s in ["1", "+1", "++1", "18446744073709551615", "18446744073709551616", "99x", "\u{663}"] {
        assert_eq!(parse_unsigned(s), s.parse::<usize>().ok());
    }
}

#[test]
fn same_text_compares_characters() {
    assert!(same_text("abc", "abc"));
    assert!(!same_text("abc", "abd"));
    assert!(!same_text("abc", "ab"));
    assert!(same_text("", ""));
}

#[test]
fn letters_digits_and_space_are_those_of_unicode() {
    assert_eq!(all_items("n\u{e4}me\u{a0}\u{3b1}1"), vec![
        Ok(with_text(TokenType::Identifier, "n\u{e4}me")),
        Ok(with_text(TokenType::Identifier, "\u{3b1}1")),
    ]);
    assert_eq!(all_items("\u{663}\u{664} 7"), vec![
        Ok(with_text(TokenType::Number, "\u{663}\u{664}")),
        Ok(with_text(TokenType::Number, "7")),
    ]);
    assert_eq!(all_items("_a"), vec![Err(QueryError::BadLex(LexFault::InvalidCharacter('_')))]);
}
