//! Structured, position-tagged diagnostics: the error builder shared by
//! the parser and the analyzer, the fixed error messages, and the logger's
//! level rules.

use vstd::prelude::*;

use crate::text::{dec_digits, usize_string};
use crate::token::{Operators, OperatorsView, Token};

verus! {

/// Mathematical model of a diagnostic: the file label, the message, the
/// optional remediation text, and the source line.
#[verifier::ext_equal]
pub struct ErrorView {
    pub file: Seq<char>,
    pub message: Seq<char>,
    pub helper: Option<Seq<char>>,
    pub line: nat,
}

/// A structured diagnostic, built field by field: a file label, a
/// message, optional remediation text, and the source line. Fields left
/// unset default to empty text and line 0.
#[derive(Debug)]
pub struct ErrorBuilder {
    pub file_name: String,
    pub message_: String,
    pub helper_: Option<String>,
    pub line: usize,
}

impl View for ErrorBuilder {
    type V = ErrorView;

    open spec fn view(&self) -> ErrorView {
        ErrorView {
            file: self.file_name@,
            message: self.message_@,
            helper: match self.helper_ {
                Some(ref h) => Some(h@),
                None => None,
            },
            line: self.line as nat,
        }
    }
}

impl Clone for ErrorBuilder {
    /// Clone the diagnostic, keeping every field.
    fn clone(&self) -> (r: Self)
        ensures
            r@ == self@,
    {
        ErrorBuilder {
            file_name: self.file_name.clone(),
            message_: self.message_.clone(),
            helper_: match &self.helper_ {
                Some(h) => Some(h.clone()),
                None => None,
            },
            line: self.line,
        }
    }
}

/// The rendering of a diagnostic: a fixed multi-line block holding the
/// file label, the message, the remediation text if there is one, and the
/// line number.
pub open spec fn render_error(e: ErrorView) -> Seq<char> {
    "_________________\n File -> \""@ + e.file + "\"\n Message -> "@ + e.message + "\n"@ + (
    match e.helper {
        Some(h) => " Help -> "@ + h + "\n"@,
        None => Seq::empty(),
    }) + " line -> "@ + dec_digits(e.line) + "\n\n__________________"@
}

impl ErrorBuilder {
    /// An empty diagnostic: no file label, no message, no remediation
    /// text, line 0.
    pub fn new() -> (r: Self)
        ensures
            r@.file.len() == 0,
            r@.message.len() == 0,
            r@.helper is None,
            r@.line == 0,
    {
        ErrorBuilder {
            file_name: String::new(),
            message_: String::new(),
            helper_: None,
            line: 0,
        }
    }

    /// Set the file label.
    pub fn file_name(self, file_name: &str) -> (r: Self)
        ensures
            r@ == (ErrorView { file: file_name@, ..self@ }),
    {
        ErrorBuilder { file_name: file_name.to_owned(), ..self }
    }

    /// Set the message.
    pub fn message(self, mess: &str) -> (r: Self)
        ensures
            r@ == (ErrorView { message: mess@, ..self@ }),
    {
        ErrorBuilder { message_: mess.to_owned(), ..self }
    }

    /// Set the remediation text.
    pub fn helper(self, help_message: String) -> (r: Self)
        ensures
            r@ == (ErrorView { helper: Some(help_message@), ..self@ }),
    {
        ErrorBuilder { helper_: Some(help_message), ..self }
    }

    /// Set the source line.
    pub fn line(self, line: usize) -> (r: Self)
        ensures
            r@ == (ErrorView { line: line as nat, ..self@ }),
    {
        ErrorBuilder { line, ..self }
    }

    /// Finish building: the diagnostic itself.
    pub fn build_error(self) -> (r: Self)
        ensures
            r@ == self@,
    {
        self
    }

    /// Render the diagnostic as the fixed multi-line human-readable
    /// block.
    pub fn build(&self) -> (r: String)
        ensures
            r@ == render_error(self@),
    {
        let mut out = String::new();
        out.append("_________________\n File -> \"");
        out.append(self.file_name.as_str());
        out.append("\"\n Message -> ");
        out.append(self.message_.as_str());
        out.append("\n");
        match &self.helper_ {
            Some(h) => {
                out.append(" Help -> ");
                out.append(h.as_str());
                out.append("\n");
            },
            None => {},
        }
        out.append(" line -> ");
        let num = usize_string(self.line);
        out.append(num.as_str());
        out.append("\n\n__________________");
        proof {
            assert(out@ =~= render_error(self@));
        }
        out
    }

    /// The source line the diagnostic points at.
    pub fn source_line(&self) -> (r: usize)
        ensures
            r == self@.line,
    {
        self.line
    }
}

/// Glue two pieces of text together.
fn join2(a: &str, b: &str) -> (r: String)
    ensures
        r@ == a@ + b@,
{
    let mut s = String::new();
    s.append(a);
    s.append(b);
    proof {
        assert(s@ =~= a@ + b@);
    }
    s
}

/// Glue three pieces of text together.
fn join3(a: &str, b: &str, c: &str) -> (r: String)
    ensures
        r@ == a@ + b@ + c@,
{
    let mut s = String::new();
    s.append(a);
    s.append(b);
    s.append(c);
    proof {
        assert(s@ =~= a@ + b@ + c@);
    }
    s
}

/// The diagnostic for a variable with no ending semicolon.
pub fn non_ending_variable(var: String, line: usize) -> (r: ErrorBuilder)
    ensures
        r@.file == Seq::<char>::empty(),
        r@.message == "Found a variable without and ending semicolon "@ + var@,
        r@.helper == Some("Consider adding a semicolon: let --> ; <-- = var "@ + var@),
        r@.line == line as nat,
{
    let message = join2("Found a variable without and ending semicolon ", var.as_str());
    let helper = join2("Consider adding a semicolon: let --> ; <-- = var ", var.as_str());
    ErrorBuilder::new().message(message.as_str()).line(line).helper(helper).build_error()
}

/// The diagnostic for a function declaration with no identifier.
pub fn invalid_function_syntax_missing_id(line: usize) -> (r: ErrorBuilder)
    ensures
        r@.file == Seq::<char>::empty(),
        r@.message == "Found invalid function syntax."@,
        r@.helper == Some("Consider adding a identifier to the function: fn hello_world() "@),
        r@.line == line as nat,
{
    let helper = "Consider adding a identifier to the function: fn hello_world() ".to_owned();
    ErrorBuilder::new().message("Found invalid function syntax.").line(line).helper(
        helper,
    ).build_error()
}

/// The diagnostic for a function declaration with no body.
pub fn invalid_function_body_syntax(name: String, line: usize) -> (r: ErrorBuilder)
    ensures
        r@.file == Seq::<char>::empty(),
        r@.message == "Found invalid function syntax."@,
        r@.helper == Some(
            "Consider adding a body to the function -> fn "@ + name@ + " { <<body>> }"@,
        ),
        r@.line == line as nat,
{
    let helper = join3(
        "Consider adding a body to the function -> fn ",
        name.as_str(),
        " { <<body>> }",
    );
    ErrorBuilder::new().message("Found invalid function syntax.").line(line).helper(
        helper,
    ).build_error()
}

/// The diagnostic for an unexpected token while parsing a variable.
pub fn invalid_var_syntax_token(token: Token) -> (r: ErrorBuilder)
    ensures
        r@.file == Seq::<char>::empty(),
        r@.message == "Invalid syntax found "@ + token@.text + " while parsing variable"@,
        r@.helper is None,
        r@.line == token@.line,
{
    let line = token.line;
    let message = join3("Invalid syntax found ", token.value.as_str(), " while parsing variable");
    ErrorBuilder::new().message(message.as_str()).line(line).build_error()
}

/// The diagnostic for a call that is not followed by an opening brace.
pub fn invalid_function_call(name: String, line: usize) -> (r: ErrorBuilder)
    ensures
        r@.file == Seq::<char>::empty(),
        r@.message == "Invalid function call $"@ + name@,
        r@.helper == Some(
            "Found a function call to "@ + name@
                + "  with no leading OpenBrace en CloseBrace consider changing it to "@ + name@
                + "(...)."@,
        ),
        r@.line == line as nat,
{
    let message = join2("Invalid function call $", name.as_str());
    let h1 = join3(
        "Found a function call to ",
        name.as_str(),
        "  with no leading OpenBrace en CloseBrace consider changing it to ",
    );
    let helper = join3(h1.as_str(), name.as_str(), "(...).");
    ErrorBuilder::new().message(message.as_str()).line(line).helper(helper).build_error()
}

/// The diagnostic for an array literal that is never closed.
pub fn invalid_arr_no_end(line: usize) -> (r: ErrorBuilder)
    ensures
        r@.file == Seq::<char>::empty(),
        r@.message == "Invalid syntax found for array"@,
        r@.helper == Some("consider adding a end to the array ]"@),
        r@.line == line as nat,
{
    let helper = "consider adding a end to the array ]".to_owned();
    ErrorBuilder::new().message("Invalid syntax found for array").helper(helper).line(
        line,
    ).build_error()
}

/// The diagnostic for a return statement that is never closed.
pub fn invalid_return_no_end(line: usize) -> (r: ErrorBuilder)
    ensures
        r@.file == Seq::<char>::empty(),
        r@.message == "Invalid syntax found for return"@,
        r@.helper == Some("consider adding a end to the return statement: ;"@),
        r@.line == line as nat,
{
    let helper = "consider adding a end to the return statement: ;".to_owned();
    ErrorBuilder::new().message("Invalid syntax found for return").helper(helper).line(
        line,
    ).build_error()
}

/// The text of an operator: its source spelling, or for an invalid
/// operator the characters that were found.
pub open spec fn op_text(op: OperatorsView) -> Seq<char> {
    match op {
        OperatorsView::EqEq => "=="@,
        OperatorsView::Eq => "="@,
        OperatorsView::Less => "<"@,
        OperatorsView::LessEq => "<="@,
        OperatorsView::More => ">"@,
        OperatorsView::MoreEq => ">="@,
        OperatorsView::Invalid(cs) => cs,
    }
}

/// The diagnostic for a comparison operator that cannot head an if
/// statement.
pub fn invalid_if_statement_operator(token: Operators) -> (r: ErrorBuilder)
    ensures
        r@.file == Seq::<char>::empty(),
        r@.message == "Found a invalid if statement operator"@,
        r@.helper == Some("Found: "@ + op_text(token@)),
        r@.line == 0,
{
    let text: String = match &token {
        Operators::EqEq => "==".to_owned(),
        Operators::Eq => "=".to_owned(),
        Operators::Less => "<".to_owned(),
        Operators::LessEq => "<=".to_owned(),
        Operators::More => ">".to_owned(),
        Operators::MoreEq => ">=".to_owned(),
        Operators::Invalid(cs) => crate::text::chars_string(cs),
    };
    let helper = join2("Found: ", text.as_str());
    ErrorBuilder::new().message("Found a invalid if statement operator").helper(
        helper,
    ).build_error()
}

/// The diagnostic for an if statement with no body. The statement's line
/// is not recorded on this diagnostic.
pub fn invalid_if_statement_body(_line: usize) -> (r: ErrorBuilder)
    ensures
        r@.file == Seq::<char>::empty(),
        r@.message == "Found a invalid if statement, the if statement doesn't have a body."@,
        r@.helper == Some("Consider adding  a body: -> { <<body>> } <-"@),
        r@.line == 0,
{
    let helper = "Consider adding  a body: -> { <<body>> } <-".to_owned();
    ErrorBuilder::new().message(
        "Found a invalid if statement, the if statement doesn't have a body.",
    ).helper(helper).build_error()
}

/// The diagnostic for an invalid use statement: one whose path was found
/// but not closed, or one with no path at all.
pub fn invalid_use(file: Option<String>, line: usize) -> (r: ErrorBuilder)
    ensures
        match file {
            Some(f) => r@.file == "Found invalid use statement: use "@ + f@ && r@.helper == Some(
                "Consider adding and ending semicolon"@,
            ),
            None => r@.file == "Found invalid use statement: no filename was found"@
                && r@.helper == Some("Consider adding a file name: use \"file\""@),
        },
        r@.message == Seq::<char>::empty(),
        r@.line == line as nat,
{
    match file {
        Some(f) => {
            let fname = join2("Found invalid use statement: use ", f.as_str());
            let helper = "Consider adding and ending semicolon".to_owned();
            ErrorBuilder::new().file_name(fname.as_str()).helper(helper).line(line).build_error()
        },
        None => {
            let helper = "Consider adding a file name: use \"file\"".to_owned();
            ErrorBuilder::new().file_name("Found invalid use statement: no filename was found")
                .helper(helper).line(line).build_error()
        },
    }
}

/// The diagnostic for an argument list that is never closed.
pub fn args_no_close(file: Option<String>, line: usize) -> (r: ErrorBuilder)
    ensures
        match file {
            Some(f) => r@.file == f@,
            None => r@.file.len() == 0,
        },
        r@.helper == Some("Add a closing brace -> ) <- to the end of the listed arguments"@),
        r@.line == line as nat,
{
    let helper = "Add a closing brace -> ) <- to the end of the listed arguments".to_owned();
    let b = ErrorBuilder::new();
    let b = match file {
        Some(f) => b.file_name(f.as_str()),
        None => b,
    };
    b.line(line).helper(helper).build_error()
}

/// The levels a logger can be set to: `Info` lets everything through,
/// `Warning` drops informational messages, `Error` keeps only errors.
#[derive(Debug, PartialEq, Eq, Clone, Copy, Structural)]
pub enum LogLevels {
    Info,
    Warning,
    Error,
}

/// A logger: it turns messages into the lines a terminal sink should
/// print, or into nothing when its level filters them out.
pub struct Logger(pub LogLevels);

impl Logger {
    /// A logger at the given level.
    pub fn new(level: LogLevels) -> (r: Self)
        ensures
            r.0 == level,
    {
        Logger(level)
    }

    /// The line to print for an informational message: nothing unless the
    /// level is `Info`.
    pub fn info(&self, input: &str) -> (r: Option<String>)
        ensures
            match self.0 {
                LogLevels::Info => r is Some && r->0@ == "[INFO] "@ + input@,
                _ => r is None,
            },
    {
        match self.0 {
            LogLevels::Info => Some(join2("[INFO] ", input)),
            _ => None,
        }
    }

    /// The line to print for a warning: nothing if the level is `Error`.
    pub fn warning(&self, input: &str) -> (r: Option<String>)
        ensures
            match self.0 {
                LogLevels::Info | LogLevels::Warning => r is Some && r->0@ == "[WARNING] "@
                    + input@,
                _ => r is None,
            },
    {
        match self.0 {
            LogLevels::Info | LogLevels::Warning => Some(join2("[WARNING] ", input)),
            _ => None,
        }
    }

    /// The line to print for an error: errors are never filtered out.
    pub fn error(&self, input: &str) -> (r: String)
        ensures
            r@ == "[Error] "@ + input@,
    {
        join2("[Error] ", input)
    }
}

} // verus!
