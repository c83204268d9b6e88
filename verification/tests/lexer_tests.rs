use lepa::token::{KeyWords, Operators, Token, TokenType};

#[test]
fn test_eq_operators() {
    let input = " = == ".to_string();
    let lex = Token::lex(input);

    // Verify that second first token is an Eq
    assert_eq!(lex[0].token_type, TokenType::Operator(Operators::Eq));
    // Verify that the 3 token is an EqEq
    assert_eq!(lex[1].token_type, TokenType::Operator(Operators::EqEq));
}

#[test]
fn test_less() {
    let input = " <  <= ".to_string();
    let lex = Token::lex(input);

    // Verify that the first token is an Less
    assert_eq!(lex[0].token_type, TokenType::Operator(Operators::Less));
    // Verify that trhe second token is an LessEq
    assert_eq!(lex[1].token_type, TokenType::Operator(Operators::LessEq));
}

#[test]
fn test_more() {
    let input = " >  >= ".to_string();
    let lex = Token::lex(input);

    // Verify thath the first token is an More
    assert_eq!(lex[0].token_type, TokenType::Operator(Operators::More));
    // Verify that the second token is an MoreEq
    assert_eq!(lex[1].token_type, TokenType::Operator(Operators::MoreEq));
}

#[test]
fn test_string() {
    let input = "\"Hello World\"".to_string();
    let lex = Token::lex(input);

    // Verify that the first token is a string
    assert_eq!(lex[0].token_type, TokenType::String);
    // Verify that the value of the string is correct
    assert_eq!(lex[0].value, "Hello World")
}

#[test]
fn test_numn() {
    let input = " 10 ".to_string();
    let lex = Token::lex(input);

    // Verify that the first token is a number
    assert_eq!(lex[0].token_type, TokenType::Number);
    // Verify that the value of the number is correct
    assert_eq!(lex[0].value.parse::<f64>().unwrap(), 10.);
}

#[test]
fn test_identifier() {
    let input = " hello world ".to_string();
    let lex = Token::lex(input);

    // Verify that the first token is an identifier
    assert_eq!(lex[0].token_type, TokenType::Identifier);
    // Verify that the value of the identifier is correct
    assert_eq!(lex[0].value, "hello");

    // Verify that the second token is an identifier
    assert_eq!(lex[1].token_type, TokenType::Identifier);
    // Verify that the value of the identifier is correct
    assert_eq!(lex[1].value, "world");
}

#[test]
fn test_if_else() {
    let input = " if  else ".to_string();
    let lex = Token::lex(input);
    assert_eq!(lex[0].token_type, TokenType::Keyword(KeyWords::If));
    assert_eq!(lex[1].token_type, TokenType::Keyword(KeyWords::Else));
}

#[test]
fn test_let() {
    let input = " let ";
    let lex = Token::lex(input.into());
    assert_eq!(lex[0].token_type, TokenType::Keyword(KeyWords::Let));
}

#[test]
fn test_line_numbers() {
    let input = "let a = 1;\nlet b = 2;".to_string();
    let lex = Token::lex(input);
    assert_eq!(lex[0].line, 1);
    assert_eq!(lex[5].value, "let");
    assert_eq!(lex[5].line, 2);
}

#[test]
fn test_comment_token() {
    let input = "// a comment\nlet ".to_string();
    let lex = Token::lex(input);
    assert_eq!(lex[0].token_type, TokenType::Comment);
    assert_eq!(lex[0].value, " a comment");
    assert_eq!(lex[1].token_type, TokenType::Keyword(KeyWords::Let));
}

#[test]
fn test_lone_slash() {
    let input = "/ ".to_string();
    let lex = Token::lex(input);
    assert_eq!(lex[0].token_type, TokenType::Slash);
    assert_eq!(lex[0].value, "/");
}

#[test]
fn test_unterminated_string() {
    let input = "\"never closed".to_string();
    let lex = Token::lex(input);
    assert_eq!(lex[0].token_type, TokenType::Invalid);
    assert_eq!(lex[0].value, "Found a string without a closing quote");
}

#[test]
fn test_invalid_less_operator() {
    let input = " <x ".to_string();
    let lex = Token::lex(input);
    match &lex[0].token_type {
        TokenType::Operator(Operators::Invalid(cs)) => {
            assert_eq!(cs.as_slice(), &['x']);
        }
        other => panic!("expected an invalid operator, found {:?}", other),
    }
}

#[test]
fn test_keywords_table() {
    let input = " while for number string return use const true false ".to_string();
    let lex = Token::lex(input);
    assert_eq!(lex[0].token_type, TokenType::Keyword(KeyWords::While));
    assert_eq!(lex[1].token_type, TokenType::Keyword(KeyWords::For));
    assert_eq!(lex[2].token_type, TokenType::Keyword(KeyWords::Number));
    assert_eq!(lex[3].token_type, TokenType::Keyword(KeyWords::String));
    assert_eq!(lex[4].token_type, TokenType::Keyword(KeyWords::Return));
    assert_eq!(lex[5].token_type, TokenType::Keyword(KeyWords::Use));
    assert_eq!(lex[6].token_type, TokenType::Keyword(KeyWords::Const));
    assert_eq!(lex[7].token_type, TokenType::Keyword(KeyWords::Bool));
    assert_eq!(lex[7].value, "true");
    assert_eq!(lex[8].token_type, TokenType::Keyword(KeyWords::Bool));
    assert_eq!(lex[8].value, "false");
}

#[test]
fn test_punctuation() {
    let input = ", . : ; + - { } ( ) [ ] ".to_string();
    let lex = Token::lex(input);
    assert_eq!(lex[0].token_type, TokenType::Comma);
    assert_eq!(lex[1].token_type, TokenType::Dot);
    assert_eq!(lex[2].token_type, TokenType::Colon);
    assert_eq!(lex[3].token_type, TokenType::SemiColon);
    assert_eq!(lex[4].token_type, TokenType::Plus);
    assert_eq!(lex[5].token_type, TokenType::Min);
    assert_eq!(lex[6].token_type, TokenType::OpenCurlyBracket);
    assert_eq!(lex[7].token_type, TokenType::CloseCurlyBracket);
    assert_eq!(lex[8].token_type, TokenType::OpenBrace);
    assert_eq!(lex[9].token_type, TokenType::CloseBrace);
    assert_eq!(lex[10].token_type, TokenType::OpenBracket);
    assert_eq!(lex[11].token_type, TokenType::CloseBracket);
}
