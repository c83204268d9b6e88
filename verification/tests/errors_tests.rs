use lepa::ast::{Arg, Case, ReturnTypes, Type, TypeVar, TypesArg};
use lepa::errors::{
    args_no_close, invalid_arr_no_end, invalid_function_body_syntax, invalid_function_call,
    invalid_function_syntax_missing_id, invalid_if_statement_body, invalid_if_statement_operator,
    invalid_return_no_end, invalid_use, invalid_var_syntax_token,
};
use lepa::parser::Parser;
use lepa::token::{Operators, Token, TokenType};

#[test]
fn error_messages_hold_their_fields() {
    let e = invalid_function_syntax_missing_id(7);
    assert_eq!(e.message_, "Found invalid function syntax.");
    assert_eq!(e.line, 7);

    let e = invalid_function_body_syntax("wow".to_string(), 9);
    assert_eq!(
        e.helper_.as_deref(),
        Some("Consider adding a body to the function -> fn wow { <<body>> }")
    );
    assert_eq!(e.line, 9);

    let e = invalid_var_syntax_token(Token::new(TokenType::Dot, ".", 4));
    assert_eq!(e.message_, "Invalid syntax found . while parsing variable");
    assert_eq!(e.line, 4);

    let e = invalid_function_call("say".to_string(), 2);
    assert_eq!(e.message_, "Invalid function call $say");

    let e = invalid_arr_no_end(5);
    assert_eq!(e.message_, "Invalid syntax found for array");

    let e = invalid_return_no_end(6);
    assert_eq!(
        e.helper_.as_deref(),
        Some("consider adding a end to the return statement: ;")
    );

    let e = invalid_if_statement_operator(Operators::Eq);
    assert_eq!(e.helper_.as_deref(), Some("Found: ="));

    let e = invalid_if_statement_body(3);
    assert_eq!(
        e.message_,
        "Found a invalid if statement, the if statement doesn't have a body."
    );

    let e = invalid_use(None, 8);
    assert_eq!(e.file_name, "Found invalid use statement: no filename was found");
    assert_eq!(e.line, 8);

    let e = args_no_close(Some("main.lp".to_string()), 11);
    assert_eq!(e.file_name, "main.lp");
    assert_eq!(
        e.helper_.as_deref(),
        Some("Add a closing brace -> ) <- to the end of the listed arguments")
    );
}

#[test]
fn parsing_returns() {
    let source =
        "fn a() number {\n    return 7;\n}\nfn b() string {\n    return seven;\n}\nfn c() {\n    return;\n}\n";
    let tokens = Token::lex(source.to_string());
    let parse = Parser::new(tokens).parse().unwrap();

    let bodies: Vec<_> = parse
        .body
        .iter()
        .map(|node| match &node.type_ {
            Type::Function(f) => f.body.as_ref().unwrap(),
            other => panic!("expected a function, found {:?}", other),
        })
        .collect();

    match &bodies[0].body[0].type_ {
        Type::Return(ret) => {
            assert_eq!(ret.value, "7");
            assert_eq!(ret.type_, ReturnTypes::Number);
        }
        other => panic!("expected a return, found {:?}", other),
    }
    match &bodies[1].body[0].type_ {
        Type::Return(ret) => {
            assert_eq!(ret.value, "seven");
            assert_eq!(ret.type_, ReturnTypes::Identifier);
        }
        other => panic!("expected a return, found {:?}", other),
    }
    match &bodies[2].body[0].type_ {
        Type::Return(ret) => {
            assert_eq!(ret.value, "void");
            assert_eq!(ret.type_, ReturnTypes::Nothing);
        }
        other => panic!("expected a return, found {:?}", other),
    }
}

#[test]
fn parsing_return_without_semicolon() {
    let source = "fn a() {\n    return 7\n}\n";
    let tokens = Token::lex(source.to_string());
    let err = Parser::new(tokens).parse().err().unwrap();
    assert_eq!(err.message_, "Invalid syntax found for return");
}

#[test]
fn parsing_number_that_overflows() {
    // The value does not fit in a 32-bit integer, so the variable is
    // rejected rather than wrapped.
    let source = "let big = 99999999999;";
    let tokens = Token::lex(source.to_string());
    let err = Parser::new(tokens).parse().err().unwrap();
    assert_eq!(
        err.message_,
        "Invalid syntax found 99999999999 while parsing variable"
    );
}

#[test]
fn parsing_largest_number() {
    let source = "let big = 2147483647;";
    let tokens = Token::lex(source.to_string());
    let parse = Parser::new(tokens).parse().unwrap();
    assert_eq!(
        parse.body[0].var_value(),
        Some(TypeVar::Number(2147483647))
    );
}

#[test]
fn arg_assign_once() {
    let mut arg = Arg::new();
    assert_eq!(arg.type_, TypesArg::Nothing);
    assert!(arg.assign_value("x".to_string()).is_ok());
    assert!(arg.assign_value("y".to_string()).is_err());
    assert_eq!(arg.value, "x");
    assert!(arg.assign_type(TypesArg::Number).is_ok());
    assert!(arg.assign_type(TypesArg::String).is_err());
    assert_eq!(arg.type_, TypesArg::Number);
    arg.clear_value();
    arg.clear_type();
    assert_eq!(arg.value, "");
    assert_eq!(arg.type_, TypesArg::Nothing);
}

#[test]
fn case_from_operator() {
    assert_eq!(
        Case::from_op(Operators::EqEq).unwrap(),
        Case::EqEq(TypeVar::Nothing, TypeVar::Nothing)
    );
    assert_eq!(
        Case::from_op(Operators::MoreEq).unwrap(),
        Case::MoreEq(TypeVar::Nothing, TypeVar::Nothing)
    );
    assert!(Case::from_op(Operators::Eq).is_err());
    assert!(Case::from_op(Operators::Invalid(vec!['?'])).is_err());

    let case = Case::from_op(Operators::Less).unwrap();
    let assigned = case.assign(TypeVar::Number(1), TypeVar::Identifier("x".to_string()));
    assert_eq!(
        assigned,
        Case::Less(TypeVar::Number(1), TypeVar::Identifier("x".to_string()))
    );
}

#[test]
fn if_statement_without_body() {
    let source = "fn main() {\n    if 1 == 2 let a;\n}\n";
    let tokens = Token::lex(source.to_string());
    let err = Parser::new(tokens).parse().err().unwrap();
    assert_eq!(
        err.message_,
        "Found a invalid if statement, the if statement doesn't have a body."
    );
}

#[test]
fn value_uses_names() {
    let arr = TypeVar::Arr {
        values: vec![
            TypeVar::Number(1),
            TypeVar::Identifier("needle".to_string()),
        ],
    };
    assert!(arr.uses("needle"));
    assert!(!arr.uses("other"));
    assert!(TypeVar::Identifier("a".to_string()).uses("a"));
    assert!(!TypeVar::Number(1).uses("1"));
}

#[test]
fn parsing_signed_numbers() {
    assert_eq!(
        TypeVar::parse_number("-5".to_string()),
        TypeVar::Number(-5)
    );
    assert_eq!(
        TypeVar::parse_number("+7".to_string()),
        TypeVar::Number(7)
    );
    assert_eq!(
        TypeVar::parse_number("-2147483648".to_string()),
        TypeVar::Number(i32::MIN)
    );
    assert_eq!(
        TypeVar::parse_number("0".to_string()),
        TypeVar::Number(0)
    );
}
