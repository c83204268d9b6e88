use lepa::analyzer::UnusedValues;
use lepa::ast::{compare_nums, Use, Variable};
use lepa::errors::{non_ending_variable, ErrorBuilder, LogLevels, Logger};
use lepa::parser::Parser;
use lepa::token::Token;
use lepa::ast::{Ast, TypeVar};

fn parse_source(source: &str) -> Ast {
    let tokens = Token::lex(source.to_string());
    Parser::new(tokens).parse().unwrap()
}

fn finding_names(findings: &[UnusedValues]) -> Vec<String> {
    findings
        .iter()
        .map(|f| match f {
            UnusedValues::Variable(v) => format!("var {}", v.name),
            UnusedValues::Function(f) => format!("fn {}", f.name),
            UnusedValues::Argument(a, owner) => format!("arg {} of {}", a.value, owner),
        })
        .collect()
}

#[test]
fn analyzer_reports_unused_variable() {
    let ast = parse_source("fn main() {\n    let used = 1;\n    let dead = 2;\n    print(used);\n}\n");
    let findings = ast.find_unused();
    let names = finding_names(&findings);
    assert!(names.contains(&"var dead".to_string()));
    assert!(!names.contains(&"var used".to_string()));
}

#[test]
fn analyzer_reports_unused_function_and_argument() {
    let ast = parse_source(
        "fn helper(number a, number b) {\n    print(a);\n}\nfn main() {\n    helper(1, 2);\n}\n",
    );
    let findings = ast.find_unused();
    let names = finding_names(&findings);
    // helper is called, so it is not reported; b is never used inside it.
    assert!(!names.contains(&"fn helper".to_string()));
    assert!(names.contains(&"arg b of helper".to_string()));
    assert!(!names.contains(&"arg a of helper".to_string()));
}

#[test]
fn analyzer_reports_uncalled_function() {
    let ast = parse_source("fn lonely() {\n    let a = 1;\n}\nfn main() {\n    let b = 2;\n}\n");
    let findings = ast.find_unused();
    let names = finding_names(&findings);
    assert!(names.contains(&"fn lonely".to_string()));
}

#[test]
fn analyzer_runs_twice_identically() {
    let ast = parse_source(
        "fn helper(number a) {\n    let x = 1;\n}\nfn main() {\n    let y = 2;\n}\n",
    );
    let first = ast.find_unused();
    let second = ast.find_unused();
    assert_eq!(finding_names(&first), finding_names(&second));
    assert_eq!(first.len(), second.len());
}

#[test]
fn analyzer_never_reports_main() {
    // main is never called anywhere, yet it is exempt.
    let ast = parse_source("fn main() {\n    let a = 1;\n}\n");
    let findings = ast.find_unused();
    let names = finding_names(&findings);
    assert!(!names.contains(&"fn main".to_string()));
    assert!(names.contains(&"var a".to_string()));
}

#[test]
fn analyzer_log_lines() {
    let ast = parse_source("fn main() {\n    let dead = 2;\n}\n");
    let findings = ast.find_unused();
    let lines = Ast::log_unused(&findings);
    assert_eq!(lines.len(), 1);
    assert_eq!(lines[0], "Found a unused variable, at line 2, name dead");
}

#[test]
fn builder_double_assignment() {
    let mut var = Variable::new();
    assert!(var.name("first".to_string()).is_ok());
    assert_eq!(var.name, "first");
    // A second name assignment fails and leaves the first intact.
    assert!(var.name("second".to_string()).is_err());
    assert_eq!(var.name, "first");

    assert!(var.type_(TypeVar::Number(1)).is_ok());
    assert_eq!(var.type_, TypeVar::Number(1));
    // A second value assignment fails and leaves the first intact.
    assert!(var.type_(TypeVar::Number(2)).is_err());
    assert_eq!(var.type_, TypeVar::Number(1));
}

#[test]
fn use_extension_validation() {
    assert!(Use::new("main.lp".to_string()).valide_ext());
    assert!(Use::new("dir/other.lp".to_string()).valide_ext());
    assert!(!Use::new("main.rs".to_string()).valide_ext());
    assert!(!Use::new(".lp".to_string()).valide_ext());
    assert!(!Use::new("dir/.lp".to_string()).valide_ext());
    assert!(Use::new("a.b.lp".to_string()).valide_ext());
    assert!(!Use::new("main.lp".to_string()).validate(false));
    assert!(Use::new("main.lp".to_string()).validate(true));
}

#[test]
fn collecting_uses() {
    let ast = parse_source("use \"one.lp\";\nfn main() {\n    use \"two.lp\";\n}\n");
    let uses = Use::get_uses(&ast);
    assert_eq!(uses.len(), 2);
    assert_eq!(uses[0].0, "one.lp");
    assert_eq!(uses[1].0, "two.lp");
}

#[test]
fn comparing_numbers() {
    assert!(compare_nums(2, 1, "more"));
    assert!(!compare_nums(1, 2, "more"));
    assert!(compare_nums(1, 2, "less"));
    assert!(compare_nums(2, 2, "more_eq"));
    assert!(compare_nums(2, 2, "less_eq"));
    assert!(!compare_nums(1, 1, "other"));
}

#[test]
fn logger_levels() {
    let info = Logger::new(LogLevels::Info);
    assert_eq!(info.info("m").as_deref(), Some("[INFO] m"));
    assert_eq!(info.warning("m").as_deref(), Some("[WARNING] m"));
    assert_eq!(info.error("m"), "[Error] m");

    let warn = Logger::new(LogLevels::Warning);
    assert!(warn.info("m").is_none());
    assert_eq!(warn.warning("m").as_deref(), Some("[WARNING] m"));

    let err = Logger::new(LogLevels::Error);
    assert!(err.info("m").is_none());
    assert!(err.warning("m").is_none());
    assert_eq!(err.error("m"), "[Error] m");
}

#[test]
fn error_rendering() {
    let e = non_ending_variable("some".to_string(), 3);
    let rendered = e.build();
    assert_eq!(
        rendered,
        "_________________\n File -> \"\"\n Message -> Found a variable without and ending semicolon some\n Help -> Consider adding a semicolon: let --> ; <-- = var some\n line -> 3\n\n__________________"
    );
}

#[test]
fn error_builder_fields() {
    let e = ErrorBuilder::new()
        .message("the message")
        .file_name("label")
        .helper("the help".to_string())
        .line(42)
        .build_error();
    assert_eq!(e.message_, "the message");
    assert_eq!(e.file_name, "label");
    assert_eq!(e.helper_.as_deref(), Some("the help"));
    assert_eq!(e.line, 42);
    assert_eq!(e.source_line(), 42);
}

#[test]
fn variable_used_through_nested_block() {
    let ast = parse_source(
        "fn main() {\n    let seen = 1;\n    {\n        if seen == 1 {\n            let inner = 2;\n        }\n    }\n}\n",
    );
    let findings = ast.find_unused();
    let names = finding_names(&findings);
    assert!(!names.contains(&"var seen".to_string()));
    assert!(names.contains(&"var inner".to_string()));
}
