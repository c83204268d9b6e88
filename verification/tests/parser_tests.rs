use lepa::ast::{ReturnTypes, Type, TypeVar};
use lepa::parser::Parser;
use lepa::token::{KeyWords, Operators, Token, TokenType};

#[test]
fn test_peak_nth_tokens() {
    let input = " if ==  else ".to_string();
    let tokens = Token::lex(input);
    let parse = Parser::new(tokens);
    let tokens = parse.peak_nth(2);

    assert_eq!(
        tokens,
        Some(Token {
            token_type: TokenType::Keyword(KeyWords::Else),
            value: "else".into(),
            line: 1
        })
    )
}

#[test]
fn test_peak_amount_nth_all() {
    let input = " if ==  else ".to_string();
    let tokens = Token::lex(input);
    let parse = Parser::new(tokens);
    let tokens = parse.peak_nth_all(2);

    assert_eq!(
        tokens,
        Some(vec![
            Token {
                token_type: TokenType::Keyword(KeyWords::If),
                value: "if".into(),
                line: 1
            },
            Token {
                token_type: TokenType::Operator(Operators::EqEq),
                value: "==".into(),
                line: 1
            },
        ])
    )
}

#[test]
fn test_up_until_token() {
    let input = " if ==  else ".to_string();
    let tokens = Token::lex(input);
    let mut parse = Parser::new(tokens);
    let parse_until = parse.up_until_token(TokenType::Operator(Operators::EqEq));

    // Check the amount of tokens
    assert_eq!(parse_until.clone().unwrap().len(), 2);
    // Check if tokens are correct
    assert_eq!(
        parse_until.clone().unwrap(),
        vec![
            Token {
                token_type: TokenType::Keyword(KeyWords::If),
                value: "if".into(),
                line: 1
            },
            Token {
                token_type: TokenType::Operator(Operators::EqEq),
                value: "==".into(),
                line: 1
            }
        ]
    );
}

#[test]
fn parsing_vars() {
    let source = "let some = \"Wow this works!\";\nlet wow = 20;\n";
    let lexer = Token::lex(source.to_string());
    let parse = Parser::new(lexer).parse();

    let var_1 = &parse.as_ref().unwrap().body[0];
    assert_eq!(var_1.var_name(), Some("some".into()));
    assert_eq!(
        var_1.var_value(),
        Some(TypeVar::String("Wow this works!".into()))
    );

    let var_2 = &parse.as_ref().unwrap().body[1];
    assert_eq!(var_2.var_name(), Some("wow".into()));
    assert_eq!(var_2.var_value(), Some(TypeVar::Number(20)));
}

#[test]
fn parsing_blocks() {
    let source = "{\n    let hello = \"world\";\n    {\n        let magic_recursion = 10;\n    }\n}\nlet whut = 1;\n";
    let lexer = Token::lex(source.to_string());
    let parse = Parser::new(lexer).parse();

    let block = &parse.as_ref().unwrap().body[0];
    assert_eq!(block.type_, Type::Block);

    let var_in_block = &block.body[0];
    assert_eq!(var_in_block.var_name(), Some("hello".into()));

    let block_in_block = &block.body[1];
    assert_eq!(block_in_block.type_, Type::Block);

    let var_in_block_in_block = &block_in_block.body[0];
    assert_eq!(
        var_in_block_in_block.var_name(),
        Some("magic_recursion".into())
    );

    let outer_var = &parse.as_ref().unwrap().body[1];
    assert_eq!(outer_var.var_name(), Some("whut".into()));
}

#[test]
fn parsing_func_return() {
    let source = "fn one() number {\n    return 1;\n}\nfn two() string {\n    return \"a\";\n}\nfn three() {\n    return;\n}\n";
    let lexer = Token::lex(source.to_string());
    let parse = Parser::new(lexer).parse().unwrap();

    let return_num = &parse.body[0];
    match &return_num.type_ {
        Type::Function(func) => {
            assert_eq!(func.return_type, ReturnTypes::Number);
        }
        token => panic!(
            "Found invalid item in ast, expected a function found {:#?}",
            token
        ),
    }

    let return_str = &parse.body[1];
    match &return_str.type_ {
        Type::Function(func) => {
            assert_eq!(func.return_type, ReturnTypes::String);
        }
        token => panic!(
            "Found invalid item in ast, expected a function found {:#?}",
            token
        ),
    }

    let return_void = &parse.body[2];
    match &return_void.type_ {
        Type::Function(func) => {
            assert_eq!(func.return_type, ReturnTypes::Nothing);
        }
        token => panic!(
            "Found invalid item in ast, expected a function found {:#?}",
            token
        ),
    }
}

#[test]
fn parsing_array_literal() {
    let source = "let arr = [1,2,3];";
    let lexer = Token::lex(source.to_string());
    let parse = Parser::new(lexer).parse().unwrap();
    let value = parse.body[0].var_value().unwrap();
    assert_eq!(
        value,
        TypeVar::Arr {
            values: vec![TypeVar::Number(1), TypeVar::Number(2), TypeVar::Number(3)]
        }
    );
}

#[test]
fn parsing_array_not_closed() {
    let source = "let arr = [1,2,3;";
    let lexer = Token::lex(source.to_string());
    let parse = Parser::new(lexer).parse();
    let err = parse.err().unwrap();
    assert_eq!(err.message_, "Invalid syntax found for array");
    assert_eq!(
        err.helper_.as_deref(),
        Some("consider adding a end to the array ]")
    );
}

#[test]
fn parsing_use_statement() {
    let source = "use \"other.lp\";";
    let lexer = Token::lex(source.to_string());
    let parse = Parser::new(lexer).parse().unwrap();
    match &parse.body[0].type_ {
        Type::Use(u) => assert_eq!(u.0, "other.lp"),
        other => panic!("expected a use statement, found {:?}", other),
    }
}

#[test]
fn parsing_use_without_semicolon() {
    let source = "use \"other.lp\"";
    let lexer = Token::lex(source.to_string());
    let parse = Parser::new(lexer).parse();
    let err = parse.err().unwrap();
    assert_eq!(err.file_name, "Found invalid use statement: use other.lp");
}

#[test]
fn parsing_variable_without_semicolon() {
    let source = "let some = 1";
    let lexer = Token::lex(source.to_string());
    let parse = Parser::new(lexer).parse();
    let err = parse.err().unwrap();
    assert_eq!(
        err.message_,
        "Found a variable without and ending semicolon let"
    );
}

#[test]
fn parsing_function_call() {
    let source = "print(\"hi\", 2, name);";
    let lexer = Token::lex(source.to_string());
    let parse = Parser::new(lexer).parse().unwrap();
    match &parse.body[0].type_ {
        Type::FunctionCall(func) => {
            assert_eq!(func.name, "print");
            assert_eq!(func.args.len(), 3);
            assert_eq!(func.args[0].value, "hi");
            assert_eq!(func.args[1].value, "2");
            assert_eq!(func.args[2].value, "name");
            assert!(func.body.is_none());
        }
        other => panic!("expected a function call, found {:?}", other),
    }
}

#[test]
fn parsing_fn_without_identifier() {
    let source = "fn () {}";
    let lexer = Token::lex(source.to_string());
    let parse = Parser::new(lexer).parse();
    let err = parse.err().unwrap();
    assert_eq!(err.message_, "Found invalid function syntax.");
}

#[test]
fn parsing_if_statement() {
    let source = "fn main() {\n    if 1 == 2 {\n        let a = 1;\n    } else {\n        let b = 2;\n    }\n}\n";
    let lexer = Token::lex(source.to_string());
    let parse = Parser::new(lexer).parse().unwrap();
    match &parse.body[0].type_ {
        Type::Function(func) => {
            let body = func.body.as_ref().unwrap();
            match &body.body[0].type_ {
                Type::Logic(logic) => {
                    assert_eq!(logic.if_.len(), 1);
                    assert_eq!(logic.do_.type_, Type::Block);
                    assert_eq!(logic.do_.body[0].var_name(), Some("a".into()));
                    let else_ = logic.else_.as_ref().unwrap();
                    assert_eq!(else_.body[0].var_name(), Some("b".into()));
                }
                other => panic!("expected a conditional, found {:?}", other),
            }
        }
        other => panic!("expected a function, found {:?}", other),
    }
}

#[test]
fn parsing_if_with_invalid_operator() {
    let source = "fn main() {\n    if 1 = 2 {\n        let a = 1;\n    }\n}\n";
    let lexer = Token::lex(source.to_string());
    let parse = Parser::new(lexer).parse();
    let err = parse.err().unwrap();
    assert_eq!(err.message_, "Found a invalid if statement operator");
}
