//! The recursive-descent parser: it consumes the flat token stream and
//! builds the abstract syntax tree, reporting structured, position-tagged
//! errors. The leaf statement forms (variables, arrays, argument lists,
//! returns, use statements and comparisons) are each specified exactly by
//! a spec function over the token stream; the recursive forms state what
//! they build and which tokens they consume.

use vstd::prelude::*;

use crate::ast::{
    asts_view, Arg, ArgView, Ast, AstView, Case, CaseView, Func, FuncView, Logic, Return,
    ReturnTypes, Type, TypeVar, TypeVarView, TypeView, TypesArg, Use, Variable, VariableView,
};
use crate::errors::{ErrorBuilder, ErrorView};
use crate::lexer::tokens_view;
use crate::token::{
    tt_eq, tt_eqv, KeyWords, Operators, OperatorsView, Token, TokenType, TokenTypeView, TokenView,
};

verus! {

/// The parser: the token stream, the position of the next token, and the
/// token consumed last.
#[derive(Debug)]
pub struct Parser {
    pub current_position: usize,
    pub tokens: Vec<Token>,
    pub prev_token: Option<Token>,
}

/// The views of the parser's tokens.
pub open spec fn toks_of(p: Parser) -> Seq<TokenView> {
    tokens_view(p.tokens@)
}

/// The first position at or after `from` whose token is of kind `t`, or
/// the length of `toks` if there is none.
pub open spec fn find_tt(toks: Seq<TokenView>, from: int, t: TokenTypeView) -> int
    decreases toks.len() - from,
{
    if from < 0 || from >= toks.len() {
        toks.len() as int
    } else if tt_eqv(toks[from].kind, t) {
        from
    } else {
        find_tt(toks, from + 1, t)
    }
}

pub proof fn lemma_find_tt_bounds(toks: Seq<TokenView>, from: int, t: TokenTypeView)
    requires
        0 <= from,
    ensures
        find_tt(toks, from, t) <= toks.len(),
        from <= find_tt(toks, from, t) || from > toks.len(),
    decreases toks.len() - from,
{
    if from < toks.len() && !tt_eqv(toks[from].kind, t) {
        lemma_find_tt_bounds(toks, from + 1, t);
    }
}

impl Parser {
    /// A parser at the start of the given token stream.
    pub fn new(tokens: Vec<Token>) -> (p: Parser)
        ensures
            p.current_position == 0,
            p.tokens == tokens,
            p.prev_token is None,
    {
        Parser { current_position: 0, tokens, prev_token: None }
    }

    /// Consume one token: return the token at the current position,
    /// record it as the previous one, and move one position forward. At
    /// the end of the stream, return nothing and change nothing.
    pub fn next(&mut self) -> (r: Option<Token>)
        ensures
            final(self).tokens == old(self).tokens,
            old(self).current_position < old(self).tokens@.len() ==> {
                &&& r is Some
                &&& r->0@ == toks_of(*old(self))[old(self).current_position as int]
                &&& final(self).current_position == old(self).current_position + 1
                &&& final(self).prev_token is Some
                &&& final(self).prev_token->0@ == r->0@
            },
            old(self).current_position >= old(self).tokens@.len() ==> r is None && *final(self)
                == *old(self),
    {
        if self.current_position < self.tokens.len() {
            let t = self.tokens[self.current_position].clone();
            self.prev_token = Some(t.clone());
            self.current_position = self.current_position + 1;
            Some(t)
        } else {
            None
        }
    }

    /// Look at the token `i` places ahead of the current position,
    /// without consuming anything.
    pub fn peak_nth(&self, i: usize) -> (r: Option<Token>)
        requires
            self.current_position + i <= usize::MAX,
        ensures
            self.current_position + i < self.tokens@.len() ==> r is Some && r->0@ == toks_of(
                *self,
            )[self.current_position + i],
            self.current_position + i >= self.tokens@.len() ==> r is None,
    {
        if i < self.tokens.len() && self.current_position < self.tokens.len() - i {
            Some(self.tokens[self.current_position + i].clone())
        } else {
            None
        }
    }

    /// Look at the `n` tokens from the current position on, without
    /// consuming anything. Returns nothing unless `n` tokens remain.
    pub fn peak_nth_all(&self, n: usize) -> (r: Option<Vec<Token>>)
        requires
            self.current_position + n <= usize::MAX,
        ensures
            self.current_position + n <= self.tokens@.len() ==> r is Some && tokens_view(r->0@)
                == toks_of(*self).subrange(
                self.current_position as int,
                self.current_position + n as int,
            ),
            self.current_position + n > self.tokens@.len() ==> r is None,
    {
        if n <= self.tokens.len() && self.current_position <= self.tokens.len() - n {
            Some(Self::copy_tokens(&self.tokens, self.current_position, self.current_position + n))
        } else {
            None
        }
    }

    /// Move `n` positions back, recording the token now at the current
    /// position as the previous one. The caller must never rewind past
    /// the start, and there must be a token to land on.
    pub fn advance_back(&mut self, n: usize)
        requires
            n <= old(self).current_position,
            old(self).current_position - n < old(self).tokens@.len(),
        ensures
            final(self).tokens == old(self).tokens,
            final(self).current_position == old(self).current_position - n,
            final(self).prev_token is Some,
            final(self).prev_token->0@ == toks_of(*old(self))[old(self).current_position - n],
    {
        self.current_position = self.current_position - n;
        self.prev_token = Some(self.tokens[self.current_position].clone());
    }

    /// Consume tokens up to and including the first one of kind `t`,
    /// returning them. If there is none, every remaining token is
    /// consumed and nothing is returned.
    #[verifier::loop_isolation(false)]
    pub fn up_until_token(&mut self, t: TokenType) -> (r: Option<Vec<Token>>)
        ensures
            final(self).tokens == old(self).tokens,
            ({
                let toks = toks_of(*old(self));
                let j = find_tt(toks, old(self).current_position as int, t@);
                if j < toks.len() {
                    &&& r is Some
                    &&& tokens_view(r->0@) == toks.subrange(old(self).current_position as int, j + 1)
                    &&& final(self).current_position == j + 1
                    &&& final(self).prev_token is Some
                    &&& final(self).prev_token->0@ == toks[j]
                } else {
                    &&& r is None
                    &&& final(self).current_position == toks.len()
                }
            }),
    {
        let ghost toks = toks_of(*old(self));
        let start = self.current_position;
        if start >= self.tokens.len() {
            self.current_position = self.tokens.len();
            proof {
                lemma_find_tt_bounds(toks, start as int, t@);
            }
            return None;
        }
        let mut j = start;
        while j < self.tokens.len() && !tt_eq(&self.tokens[j].token_type, &t)
            invariant
                start <= j <= self.tokens@.len(),
                find_tt(toks, start as int, t@) == find_tt(toks, j as int, t@),
            decreases self.tokens@.len() - j,
        {
            assert(find_tt(toks, j as int, t@) == find_tt(toks, j + 1 as int, t@));
            j = j + 1;
        }
        if j < self.tokens.len() {
            assert(find_tt(toks, j as int, t@) == j);
            let out = Self::copy_tokens(&self.tokens, start, j + 1);
            self.current_position = j + 1;
            self.prev_token = Some(self.tokens[j].clone());
            Some(out)
        } else {
            assert(find_tt(toks, j as int, t@) == toks.len());
            self.current_position = self.tokens.len();
            self.prev_token = match self.tokens.len() {
                0 => None,
                n => Some(self.tokens[n - 1].clone()),
            };
            None
        }
    }

    /// Copy the tokens of `v` from position `a` (inclusive) to `b`
    /// (exclusive) into a fresh vector.
    pub fn copy_tokens(v: &Vec<Token>, a: usize, b: usize) -> (r: Vec<Token>)
        requires
            a <= b <= v@.len(),
        ensures
            tokens_view(r@) == tokens_view(v@).subrange(a as int, b as int),
            r@.len() == b - a,
    {
        let mut out: Vec<Token> = Vec::new();
        let mut i: usize = a;
        while i < b
            invariant
                a <= i <= b <= v@.len(),
                out@.len() == i - a,
                forall|k: int| 0 <= k < out@.len() ==> out@[k]@ == v@[a + k]@,
            decreases b - i,
        {
            out.push(v[i].clone());
            i += 1;
        }
        proof {
            assert(tokens_view(out@) =~= tokens_view(v@).subrange(a as int, b as int));
        }
        out
    }
}


/// Whether a number token's text denotes a value that fits in an `i32`.
pub open spec fn num_ok(s: Seq<char>) -> bool {
    s.len() >= 1 && crate::text::all_digits(s) && crate::text::digits_val(s) <= i32::MAX
}

/// A diagnostic with no file label.
pub open spec fn ev(message: Seq<char>, helper: Option<Seq<char>>, line: nat) -> ErrorView {
    ErrorView { file: Seq::empty(), message, helper, line }
}

/// The diagnostic an unexpected token draws while parsing a variable.
pub open spec fn ev_var_syntax(t: TokenView) -> ErrorView {
    ev("Invalid syntax found "@ + t.text + " while parsing variable"@, None, t.line)
}

/// The diagnostic a comparison operand that is not a number or an
/// identifier draws.
pub open spec fn ev_case_operand(line: nat) -> ErrorView {
    ev(
        "The first value of this if statement is either not supported yet or incorrect."@,
        None,
        line,
    )
}

/// The diagnostic a comparison whose middle token is not an operator
/// draws.
pub open spec fn ev_case_operator(line: nat) -> ErrorView {
    ev("Pleas replace your current case with a valid if case"@, None, line)
}

/// The diagnostic an operator that cannot head a comparison draws.
pub open spec fn ev_if_op(op: OperatorsView) -> ErrorView {
    ev(
        "Found a invalid if statement operator"@,
        Some("Found: "@ + crate::errors::op_text(op)),
        0,
    )
}

/// The diagnostic an if statement without a body draws.
pub open spec fn ev_if_body() -> ErrorView {
    ev(
        "Found a invalid if statement, the if statement doesn't have a body."@,
        Some("Consider adding  a body: -> { <<body>> } <-"@),
        0,
    )
}

/// The diagnostic an unclosed array literal draws.
pub open spec fn ev_arr_no_end(line: nat) -> ErrorView {
    ev(
        "Invalid syntax found for array"@,
        Some("consider adding a end to the array ]"@),
        line,
    )
}

/// The diagnostic an unclosed return statement draws.
pub open spec fn ev_return_no_end(line: nat) -> ErrorView {
    ev(
        "Invalid syntax found for return"@,
        Some("consider adding a end to the return statement: ;"@),
        line,
    )
}

/// The diagnostic a function declaration without an identifier or an
/// unclosed argument list draws.
pub open spec fn ev_missing_id(line: nat) -> ErrorView {
    ev(
        "Found invalid function syntax."@,
        Some("Consider adding a identifier to the function: fn hello_world() "@),
        line,
    )
}

/// The diagnostic a function declaration without a body draws.
pub open spec fn ev_body_syntax(name: Seq<char>, line: nat) -> ErrorView {
    ev(
        "Found invalid function syntax."@,
        Some("Consider adding a body to the function -> fn "@ + name + " { <<body>> }"@),
        line,
    )
}

/// The diagnostic a call without an opening brace draws.
pub open spec fn ev_fn_call(name: Seq<char>, line: nat) -> ErrorView {
    ev(
        "Invalid function call $"@ + name,
        Some(
            "Found a function call to "@ + name
                + "  with no leading OpenBrace en CloseBrace consider changing it to "@ + name
                + "(...)."@,
        ),
        line,
    )
}

/// The diagnostic a statement without its ending semicolon draws.
pub open spec fn ev_non_ending(name: Seq<char>, line: nat) -> ErrorView {
    ev(
        "Found a variable without and ending semicolon "@ + name,
        Some("Consider adding a semicolon: let --> ; <-- = var "@ + name),
        line,
    )
}

/// The diagnostic a second name assignment draws.
pub open spec fn ev_assign_name(name: Seq<char>, line: nat) -> ErrorView {
    ErrorView {
        file: "should_ad_this:)"@,
        message: "Tried assigning a name to and already named variable: "@ + name,
        helper: None,
        line,
    }
}

/// The diagnostic a second value assignment draws.
pub open spec fn ev_assign_value(line: nat) -> ErrorView {
    ErrorView {
        file: "should_ad_this:)"@,
        message: "Tried assigning a value to and already assigned variable value"@,
        helper: None,
        line,
    }
}

/// The diagnostic an invalid use statement draws when its path was found.
pub open spec fn ev_use_some(f: Seq<char>, line: nat) -> ErrorView {
    ErrorView {
        file: "Found invalid use statement: use "@ + f,
        message: Seq::empty(),
        helper: Some("Consider adding and ending semicolon"@),
        line,
    }
}

/// The diagnostic a use statement without a path draws.
pub open spec fn ev_use_none(line: nat) -> ErrorView {
    ErrorView {
        file: "Found invalid use statement: no filename was found"@,
        message: Seq::empty(),
        helper: Some("Consider adding a file name: use \"file\""@),
        line,
    }
}

/// What a comparison operand token denotes: a number or an identifier.
/// A number whose value does not fit is an error; any other token kind
/// cannot be an operand.
pub open spec fn spec_case_val(t: TokenView) -> Result<TypeVarView, ErrorView> {
    match t.kind {
        TokenTypeView::Number => if num_ok(t.text) {
            Ok(TypeVarView::Number(crate::text::digits_val(t.text)))
        } else {
            Err(ev_var_syntax(t))
        },
        TokenTypeView::Identifier => Ok(TypeVarView::Identifier(t.text)),
        _ => Err(ev_case_operand(t.line)),
    }
}

/// The comparison an operator heads, with unset operands; `=` and an
/// invalid operator cannot head one.
pub open spec fn spec_case_of_op(op: OperatorsView) -> Result<CaseView, ErrorView> {
    match op {
        OperatorsView::EqEq => Ok(CaseView::EqEq(TypeVarView::Nothing, TypeVarView::Nothing)),
        OperatorsView::Less => Ok(CaseView::Less(TypeVarView::Nothing, TypeVarView::Nothing)),
        OperatorsView::LessEq => Ok(CaseView::LessEq(TypeVarView::Nothing, TypeVarView::Nothing)),
        OperatorsView::More => Ok(CaseView::More(TypeVarView::Nothing, TypeVarView::Nothing)),
        OperatorsView::MoreEq => Ok(CaseView::MoreEq(TypeVarView::Nothing, TypeVarView::Nothing)),
        _ => Err(ev_if_op(op)),
    }
}

/// A comparison with its operands replaced.
pub open spec fn spec_case_assign(c: CaseView, a: TypeVarView, b: TypeVarView) -> CaseView {
    match c {
        CaseView::EqEq(_, _) => CaseView::EqEq(a, b),
        CaseView::More(_, _) => CaseView::More(a, b),
        CaseView::MoreEq(_, _) => CaseView::MoreEq(a, b),
        CaseView::Less(_, _) => CaseView::Less(a, b),
        CaseView::LessEq(_, _) => CaseView::LessEq(a, b),
        CaseView::Nothing => CaseView::Nothing,
    }
}

/// What reading one comparison from position `pos` yields: an operand, a
/// comparison operator and a second operand, and the position after
/// them; or the diagnostic for the first token that does not fit.
pub open spec fn spec_get_case(toks: Seq<TokenView>, pos: int) -> Result<
    (CaseView, int),
    ErrorView,
> {
    if pos >= toks.len() {
        Err(ev_case_operand(0))
    } else {
        match spec_case_val(toks[pos]) {
            Err(e) => Err(e),
            Ok(v1) => if pos + 1 >= toks.len() {
                Err(ev_case_operator(toks[pos].line))
            } else {
                match toks[pos + 1].kind {
                    TokenTypeView::Operator(op) => match spec_case_of_op(op) {
                        Err(e) => Err(e),
                        Ok(c0) => if pos + 2 >= toks.len() {
                            Err(ev_case_operand(0))
                        } else {
                            match spec_case_val(toks[pos + 2]) {
                                Err(e) => Err(e),
                                Ok(v2) => Ok((spec_case_assign(c0, v1, v2), pos + 3)),
                            }
                        },
                    },
                    _ => Err(ev_case_operator(toks[pos].line)),
                }
            },
        }
    }
}

/// What reading a use statement from position `pos` yields: a path
/// closed by a semicolon and the position after it, or the diagnostic
/// for what is missing. `prev_line` is the line of the `use` keyword.
pub open spec fn spec_parse_use(toks: Seq<TokenView>, pos: int, prev_line: nat) -> Result<
    (Seq<char>, int),
    ErrorView,
> {
    if pos >= toks.len() {
        Err(ev_use_none(prev_line))
    } else {
        let t = toks[pos];
        match t.kind {
            TokenTypeView::String => if pos + 1 >= toks.len() {
                Err(ev_use_some(t.text, t.line))
            } else if (toks[pos + 1].kind matches TokenTypeView::SemiColon) {
                Ok((t.text, pos + 2))
            } else {
                Err(ev_use_some(t.text, t.line))
            },
            _ => Err(ev_use_none(t.line)),
        }
    }
}

/// What reading a return statement from position `pos` yields: the slice
/// up to the next semicolon is cut out, and its first token decides the
/// returned value and kind; a bare semicolon is a void return. With no
/// semicolon in reach, or a first token of any other kind, the statement
/// is not closed. `prev_line` is the line of the `return` keyword.
pub open spec fn spec_parse_return(toks: Seq<TokenView>, pos: int, prev_line: nat) -> Result<
    (crate::ast::ReturnView, int),
    ErrorView,
> {
    let j = find_tt(toks, pos, TokenTypeView::SemiColon);
    if j >= toks.len() {
        Err(ev_return_no_end(prev_line))
    } else {
        let t = toks[pos];
        match t.kind {
            TokenTypeView::Number => Ok(
                (crate::ast::ReturnView { value: t.text, type_: ReturnTypes::Number, line: t.line },
                j + 1),
            ),
            TokenTypeView::String => Ok(
                (crate::ast::ReturnView { value: t.text, type_: ReturnTypes::String, line: t.line },
                j + 1),
            ),
            TokenTypeView::Identifier => Ok(
                (crate::ast::ReturnView {
                    value: t.text,
                    type_: ReturnTypes::Identifier,
                    line: t.line,
                }, j + 1),
            ),
            TokenTypeView::SemiColon => Ok(
                (crate::ast::ReturnView {
                    value: "void"@,
                    type_: ReturnTypes::Nothing,
                    line: t.line,
                }, j + 1),
            ),
            _ => Err(ev_return_no_end(prev_line)),
        }
    }
}

/// The views of a sequence of values.
pub open spec fn tvs_view(s: Seq<TypeVar>) -> Seq<TypeVarView> {
    Seq::new(s.len(), |i: int| s[i]@)
}

/// The views of a sequence of arguments.
pub open spec fn argseq_view(s: Seq<Arg>) -> Seq<ArgView> {
    Seq::new(s.len(), |i: int| s[i]@)
}

/// What reading an array literal from position `k` yields, with the
/// elements read so far, a pending element, and the line seen last:
/// comma-separated number and string literals accumulate until the
/// closing bracket; a semicolon or the end of the tokens means the
/// array was never closed; any other token is a syntax error.
pub open spec fn spec_array_steps(
    toks: Seq<TokenView>,
    k: int,
    values: Seq<TypeVarView>,
    pending: Option<TypeVarView>,
    line: nat,
) -> Result<(TypeVarView, int), ErrorView>
    decreases toks.len() - k,
{
    if k >= toks.len() {
        Err(ev_arr_no_end(line))
    } else {
        let t = toks[k];
        match t.kind {
            TokenTypeView::Comma => match pending {
                Some(v) => spec_array_steps(toks, k + 1, values.push(v), None, t.line),
                None => Err(ev_var_syntax(t)),
            },
            TokenTypeView::Number => if pending is Some {
                Err(ev_var_syntax(t))
            } else if !num_ok(t.text) {
                Err(ev_var_syntax(t))
            } else {
                spec_array_steps(
                    toks,
                    k + 1,
                    values,
                    Some(TypeVarView::Number(crate::text::digits_val(t.text))),
                    t.line,
                )
            },
            TokenTypeView::String => if pending is Some {
                Err(ev_var_syntax(t))
            } else {
                spec_array_steps(toks, k + 1, values, Some(TypeVarView::String(t.text)), t.line)
            },
            TokenTypeView::CloseBracket => Ok(
                (TypeVarView::Arr {
                    values: match pending {
                        Some(v) => values.push(v),
                        None => values,
                    },
                }, k + 1),
            ),
            TokenTypeView::Comment => spec_array_steps(toks, k + 1, values, pending, t.line),
            TokenTypeView::SemiColon => Err(ev_arr_no_end(t.line)),
            _ => Err(ev_var_syntax(t)),
        }
    }
}

pub proof fn lemma_array_steps_bounds(
    toks: Seq<TokenView>,
    k: int,
    values: Seq<TypeVarView>,
    pending: Option<TypeVarView>,
    line: nat,
)
    requires
        0 <= k,
    ensures
        spec_array_steps(toks, k, values, pending, line) matches Ok(r) ==> k < r.1 <= toks.len(),
    decreases toks.len() - k,
{
    if k < toks.len() {
        let t = toks[k];
        match t.kind {
            TokenTypeView::Comma => {
                if pending is Some {
                    lemma_array_steps_bounds(toks, k + 1, values.push(pending->0), None, t.line);
                }
            },
            TokenTypeView::Number => {
                if !(pending is Some) && num_ok(t.text) {
                    lemma_array_steps_bounds(
                        toks,
                        k + 1,
                        values,
                        Some(TypeVarView::Number(crate::text::digits_val(t.text))),
                        t.line,
                    );
                }
            },
            TokenTypeView::String => {
                if !(pending is Some) {
                    lemma_array_steps_bounds(
                        toks,
                        k + 1,
                        values,
                        Some(TypeVarView::String(t.text)),
                        t.line,
                    );
                }
            },
            TokenTypeView::Comment => {
                lemma_array_steps_bounds(toks, k + 1, values, pending, t.line);
            },
            _ => {},
        }
    }
}


/// An array literal that is never closed cannot be read successfully:
/// when no closing bracket occurs among the remaining tokens, reading
/// the array always ends in a structured diagnostic, whatever was read
/// so far — it is the array-not-closed error when the elements before
/// the end are well formed, and an element's own syntax error otherwise.
pub proof fn lemma_unclosed_array_errs(
    toks: Seq<TokenView>,
    k: int,
    values: Seq<TypeVarView>,
    pending: Option<TypeVarView>,
    line: nat,
)
    requires
        0 <= k,
        forall|j: int|
            k <= j < toks.len() ==> !((#[trigger] toks[j]).kind
                matches TokenTypeView::CloseBracket),
    ensures
        spec_array_steps(toks, k, values, pending, line) is Err,
    decreases toks.len() - k,
{
    if k < toks.len() {
        let t = toks[k];
        match t.kind {
            TokenTypeView::Comma => {
                if pending is Some {
                    lemma_unclosed_array_errs(toks, k + 1, values.push(pending->0), None, t.line);
                }
            },
            TokenTypeView::Number => {
                if !(pending is Some) && num_ok(t.text) {
                    lemma_unclosed_array_errs(
                        toks,
                        k + 1,
                        values,
                        Some(TypeVarView::Number(crate::text::digits_val(t.text))),
                        t.line,
                    );
                }
            },
            TokenTypeView::String => {
                if !(pending is Some) {
                    lemma_unclosed_array_errs(
                        toks,
                        k + 1,
                        values,
                        Some(TypeVarView::String(t.text)),
                        t.line,
                    );
                }
            },
            TokenTypeView::Comment => {
                lemma_unclosed_array_errs(toks, k + 1, values, pending, t.line);
            },
            _ => {},
        }
    }
}

impl Parser {
    /// Read one comparison: an operand, a comparison operator and a
    /// second operand, exactly as [`spec_get_case`] describes.
    pub fn get_case(&mut self) -> (r: Result<Case, ErrorBuilder>)
        ensures
            final(self).tokens == old(self).tokens,
            old(self).current_position <= old(self).tokens@.len() ==> old(
                self,
            ).current_position <= final(self).current_position <= old(self).tokens@.len(),
            match spec_get_case(toks_of(*old(self)), old(self).current_position as int) {
                Ok((c, p2)) => r is Ok && r->Ok_0@ == c && final(self).current_position == p2,
                Err(e) => r is Err && r->Err_0@ == e,
            },
    {
        let ghost toks = toks_of(*old(self));
        let ghost pos = old(self).current_position as int;
        let val_1 = match self.next() {
            Some(t) => t,
            None => {
                let e = ErrorBuilder::new().message(
                    "The first value of this if statement is either not supported yet or incorrect.",
                ).build_error();
                proof {
                    assert(e@ =~= ev_case_operand(0));
                }
                return Err(e);
            },
        };
        let type_var_1: TypeVar = match &val_1.token_type {
            TokenType::Number => {
                match crate::text::try_parse_i32(val_1.value.as_str()) {
                    Some(n) => TypeVar::Number(n),
                    None => {
                        let e = crate::errors::invalid_var_syntax_token(val_1);
                        proof {
                            assert(e@ =~= ev_var_syntax(toks[pos]));
                        }
                        return Err(e);
                    },
                }
            },
            TokenType::Identifier => TypeVar::Identifier(val_1.value.clone()),
            _ => {
                let e = ErrorBuilder::new().message(
                    "The first value of this if statement is either not supported yet or incorrect.",
                ).line(val_1.line).build_error();
                proof {
                    assert(e@ =~= ev_case_operand(toks[pos].line));
                }
                return Err(e);
            },
        };
        let case_token = match self.next() {
            Some(t) => t,
            None => {
                let e = ErrorBuilder::new().message(
                    "Pleas replace your current case with a valid if case",
                ).line(val_1.line).build_error();
                proof {
                    assert(e@ =~= ev_case_operator(toks[pos].line));
                }
                return Err(e);
            },
        };
        let case: Case = match case_token.token_type {
            TokenType::Operator(op) => {
                match Case::from_op(op) {
                    Ok(c) => c,
                    Err(e) => {
                        proof {
                            assert(e@ =~= ev_if_op(toks[pos + 1].kind->Operator_0));
                        }
                        return Err(e);
                    },
                }
            },
            _ => {
                let e = ErrorBuilder::new().message(
                    "Pleas replace your current case with a valid if case",
                ).line(val_1.line).build_error();
                proof {
                    assert(e@ =~= ev_case_operator(toks[pos].line));
                }
                return Err(e);
            },
        };
        let val_2 = match self.next() {
            Some(t) => t,
            None => {
                let e = ErrorBuilder::new().message(
                    "The first value of this if statement is either not supported yet or incorrect.",
                ).build_error();
                proof {
                    assert(e@ =~= ev_case_operand(0));
                }
                return Err(e);
            },
        };
        let type_var_2: TypeVar = match &val_2.token_type {
            TokenType::Number => {
                match crate::text::try_parse_i32(val_2.value.as_str()) {
                    Some(n) => TypeVar::Number(n),
                    None => {
                        let e = crate::errors::invalid_var_syntax_token(val_2);
                        proof {
                            assert(e@ =~= ev_var_syntax(toks[pos + 2]));
                        }
                        return Err(e);
                    },
                }
            },
            TokenType::Identifier => TypeVar::Identifier(val_2.value.clone()),
            _ => {
                let e = ErrorBuilder::new().message(
                    "The first value of this if statement is either not supported yet or incorrect.",
                ).line(val_2.line).build_error();
                proof {
                    assert(e@ =~= ev_case_operand(toks[pos + 2].line));
                }
                return Err(e);
            },
        };
        let assign = case.assign(type_var_1, type_var_2);
        Ok(assign)
    }

    /// Read a use statement: a string path closed by a semicolon,
    /// exactly as [`spec_parse_use`] describes.
    pub fn parse_use(&mut self) -> (r: Result<Use, ErrorBuilder>)
        requires
            old(self).prev_token is Some,
        ensures
            final(self).tokens == old(self).tokens,
            old(self).current_position <= old(self).tokens@.len() ==> old(
                self,
            ).current_position <= final(self).current_position <= old(self).tokens@.len(),
            match spec_parse_use(
                toks_of(*old(self)),
                old(self).current_position as int,
                old(self).prev_token->0@.line,
            ) {
                Ok((path, p2)) => r is Ok && r->Ok_0@ == path && final(self).current_position
                    == p2,
                Err(e) => r is Err && r->Err_0@ == e,
            },
    {
        let ghost toks = toks_of(*old(self));
        let ghost pos = old(self).current_position as int;
        let prev_line = match &self.prev_token {
            Some(t) => t.line,
            None => {
                assert(false);
                0
            },
        };
        let file = match self.next() {
            Some(t) => t,
            None => {
                let e = crate::errors::invalid_use(None, prev_line);
                proof {
                    assert(e@ =~= ev_use_none(prev_line as nat));
                }
                return Err(e);
            },
        };
        match &file.token_type {
            TokenType::String => {
                let end_use = match self.next() {
                    Some(t) => t,
                    None => {
                        let e = crate::errors::invalid_use(Some(file.value.clone()), file.line);
                        proof {
                            assert(e@ =~= ev_use_some(toks[pos].text, toks[pos].line));
                        }
                        return Err(e);
                    },
                };
                match end_use.token_type {
                    TokenType::SemiColon => Ok(Use::new(file.value)),
                    _ => {
                        let e = crate::errors::invalid_use(Some(file.value.clone()), file.line);
                        proof {
                            assert(e@ =~= ev_use_some(toks[pos].text, toks[pos].line));
                        }
                        Err(e)
                    },
                }
            },
            _ => {
                let e = crate::errors::invalid_use(None, file.line);
                proof {
                    assert(e@ =~= ev_use_none(toks[pos].line));
                }
                Err(e)
            },
        }
    }

    /// Read a return statement: everything up to the next semicolon is
    /// cut out and its first token decides the returned value and kind,
    /// exactly as [`spec_parse_return`] describes.
    pub fn parse_return(&mut self) -> (r: Result<Return, ErrorBuilder>)
        requires
            old(self).prev_token is Some,
        ensures
            final(self).tokens == old(self).tokens,
            old(self).current_position <= old(self).tokens@.len() ==> old(
                self,
            ).current_position <= final(self).current_position <= old(self).tokens@.len(),
            match spec_parse_return(
                toks_of(*old(self)),
                old(self).current_position as int,
                old(self).prev_token->0@.line,
            ) {
                Ok((ret, p2)) => r is Ok && r->Ok_0@ == ret && final(self).current_position == p2,
                Err(e) => r is Err && r->Err_0@ == e,
            },
    {
        let ghost toks = toks_of(*old(self));
        let ghost pos = old(self).current_position as int;
        let prev_line = match &self.prev_token {
            Some(t) => t.line,
            None => {
                assert(false);
                0
            },
        };
        let ghost j = find_tt(toks, pos, TokenTypeView::SemiColon);
        proof {
            lemma_find_tt_bounds(toks, pos, TokenTypeView::SemiColon);
        }
        let up_until = match self.up_until_token(TokenType::SemiColon) {
            Some(v) => v,
            None => {
                return Err(crate::errors::invalid_return_no_end(prev_line));
            },
        };
        proof {
            assert(tokens_view(up_until@) == toks.subrange(pos, j + 1));
            assert(up_until@.len() == tokens_view(up_until@).len());
            assert(up_until@.len() >= 1);
        }
        let token = &up_until[0];
        assert(token@ == tokens_view(up_until@)[0]);
        assert(token@ == toks[pos]);
        match token.token_type {
            TokenType::Number => Ok(
                Return {
                    value: token.value.clone(),
                    type_: ReturnTypes::Number,
                    line: token.line,
                },
            ),
            TokenType::String => Ok(
                Return {
                    value: token.value.clone(),
                    type_: ReturnTypes::String,
                    line: token.line,
                },
            ),
            TokenType::Identifier => Ok(
                Return {
                    value: token.value.clone(),
                    type_: ReturnTypes::Identifier,
                    line: token.line,
                },
            ),
            TokenType::SemiColon => Ok(
                Return {
                    value: "void".to_owned(),
                    type_: ReturnTypes::Nothing,
                    line: token.line,
                },
            ),
            _ => Err(crate::errors::invalid_return_no_end(prev_line)),
        }
    }

    /// Read an array literal from `start` in `tokens`: comma-separated
    /// number and string literals up to the closing bracket, exactly as
    /// [`spec_array_steps`] describes (starting with nothing read).
    #[verifier::loop_isolation(false)]
    pub fn parse_array(tokens: &Vec<Token>, start: usize) -> (r: Result<
        (TypeVar, usize),
        ErrorBuilder,
    >)
        ensures
            match spec_array_steps(
                tokens_view(tokens@),
                start as int,
                Seq::empty(),
                None,
                0,
            ) {
                Ok((v, k2)) => r is Ok && r->Ok_0.0@ == v && r->Ok_0.1 == k2,
                Err(e) => r is Err && r->Err_0@ == e,
            },
    {
        let ghost toks = tokens_view(tokens@);
        let mut values: Vec<TypeVar> = Vec::new();
        let mut pending: Option<TypeVar> = None;
        let mut line: usize = 0;
        let mut k: usize = start;
        proof {
            assert(tvs_view(values@) =~= Seq::<TypeVarView>::empty());
        }
        loop
            invariant
                start <= k,
                k <= toks.len() || k == start,
                spec_array_steps(toks, start as int, Seq::empty(), None, 0) == spec_array_steps(
                    toks,
                    k as int,
                    tvs_view(values@),
                    match pending {
                        Some(ref p) => Some(p@),
                        None => None,
                    },
                    line as nat,
                ),
            decreases toks.len() - k,
        {
            if k >= tokens.len() {
                return Err(crate::errors::invalid_arr_no_end(line));
            }
            let token = &tokens[k];
            assert(token@ == toks[k as int]);
            let ghost vals0 = tvs_view(values@);
            let ghost pend0: Option<TypeVarView> = match pending {
                Some(ref p) => Some(p@),
                None => None,
            };
            match &token.token_type {
                TokenType::Comma => {
                    match pending {
                        Some(v) => {
                            values.push(v);
                            pending = None;
                            proof {
                                assert(tvs_view(values@) =~= vals0.push(pend0->0));
                            }
                        },
                        None => {
                            return Err(crate::errors::invalid_var_syntax_token(token.clone()));
                        },
                    }
                },
                TokenType::Number => {
                    if pending.is_some() {
                        return Err(crate::errors::invalid_var_syntax_token(token.clone()));
                    }
                    match crate::text::try_parse_i32(token.value.as_str()) {
                        Some(n) => {
                            pending = Some(TypeVar::Number(n));
                        },
                        None => {
                            return Err(crate::errors::invalid_var_syntax_token(token.clone()));
                        },
                    }
                },
                TokenType::String => {
                    if pending.is_some() {
                        return Err(crate::errors::invalid_var_syntax_token(token.clone()));
                    }
                    pending = Some(TypeVar::String(token.value.clone()));
                },
                TokenType::CloseBracket => {
                    let mut vals = values;
                    match pending {
                        Some(v) => {
                            vals.push(v);
                            proof {
                                assert(tvs_view(vals@) =~= vals0.push(pend0->0));
                            }
                        },
                        None => {},
                    }
                    let arr = TypeVar::Arr { values: vals };
                    proof {
                        assert(arr@->values =~= tvs_view(vals@));
                    }
                    return Ok((arr, k + 1));
                },
                TokenType::Comment => {},
                TokenType::SemiColon => {
                    return Err(crate::errors::invalid_arr_no_end(token.line));
                },
                _ => {
                    return Err(crate::errors::invalid_var_syntax_token(token.clone()));
                },
            }
            line = token.line;
            k = k + 1;
        }
    }
}



/// An argument with nothing assigned yet.
pub open spec fn empty_argv() -> ArgView {
    ArgView { value: Seq::empty(), type_: TypesArg::Nothing }
}

/// What reading an argument list slice from position `k` yields, with
/// the arguments read so far and the one in progress: a comma pushes the
/// argument in progress (complete or not) and starts a fresh one; the
/// keywords `number` and `string` set the kind of the one in progress; an
/// identifier, string or number literal sets its text (literals also set
/// its kind); the closing brace pushes the one in progress only if its
/// text is set; assigning a text or kind twice, or any
/// other keyword, is a syntax error; any other token ends the list as
/// invalid.
pub open spec fn spec_args_steps(
    toks: Seq<TokenView>,
    k: int,
    args: Seq<ArgView>,
    cur: ArgView,
    prev_line: nat,
) -> Result<Seq<ArgView>, ErrorView>
    decreases toks.len() - k,
{
    if k < 0 || k >= toks.len() {
        Ok(args)
    } else {
        let t = toks[k];
        match t.kind {
            TokenTypeView::Comma => spec_args_steps(
                toks,
                k + 1,
                args.push(cur),
                empty_argv(),
                prev_line,
            ),
            TokenTypeView::Keyword(kw) => match kw {
                KeyWords::Number => if cur.type_ != TypesArg::Nothing {
                    Err(ev_var_syntax(t))
                } else {
                    spec_args_steps(
                        toks,
                        k + 1,
                        args,
                        ArgView { type_: TypesArg::Number, ..cur },
                        prev_line,
                    )
                },
                KeyWords::String => if cur.type_ != TypesArg::Nothing {
                    Err(ev_var_syntax(t))
                } else {
                    spec_args_steps(
                        toks,
                        k + 1,
                        args,
                        ArgView { type_: TypesArg::String, ..cur },
                        prev_line,
                    )
                },
                _ => Err(ev_var_syntax(t)),
            },
            TokenTypeView::Identifier => if cur.value.len() > 0 {
                Err(ev_var_syntax(t))
            } else {
                spec_args_steps(toks, k + 1, args, ArgView { value: t.text, ..cur }, prev_line)
            },
            TokenTypeView::String => if cur.value.len() > 0 {
                Err(ev_var_syntax(t))
            } else if cur.type_ != TypesArg::Nothing {
                Err(ev_var_syntax(t))
            } else {
                spec_args_steps(
                    toks,
                    k + 1,
                    args,
                    ArgView { value: t.text, type_: TypesArg::String },
                    prev_line,
                )
            },
            TokenTypeView::Number => if cur.value.len() > 0 {
                Err(ev_var_syntax(t))
            } else if cur.type_ != TypesArg::Nothing {
                Err(ev_var_syntax(t))
            } else {
                spec_args_steps(
                    toks,
                    k + 1,
                    args,
                    ArgView { value: t.text, type_: TypesArg::Number },
                    prev_line,
                )
            },
            TokenTypeView::CloseBrace => Ok(
                if cur.value.len() > 0 {
                    args.push(cur)
                } else {
                    args
                },
            ),
            TokenTypeView::OpenBrace => spec_args_steps(toks, k + 1, args, cur, prev_line),
            TokenTypeView::Comment => spec_args_steps(toks, k + 1, args, cur, prev_line),
            _ => Err(ev_missing_id(prev_line)),
        }
    }
}

/// What reading an argument list from position `pos` yields: the slice
/// up to the first closing brace is cut out and read by
/// [`spec_args_steps`]; with no closing brace in reach the list is
/// invalid. `prev_line` is the line the list's opening construct began
/// on.
pub open spec fn spec_parse_args(toks: Seq<TokenView>, pos: int, prev_line: nat) -> Result<
    (Seq<ArgView>, int),
    ErrorView,
> {
    let j = find_tt(toks, pos, TokenTypeView::CloseBrace);
    if j >= toks.len() {
        Err(ev_missing_id(prev_line))
    } else {
        match spec_args_steps(toks.subrange(pos, j + 1), 0, Seq::empty(), empty_argv(), prev_line) {
            Ok(args) => Ok((args, j + 1)),
            Err(e) => Err(e),
        }
    }
}

/// What one step of reading a variable's token slice yields, with the
/// variable built so far: an identifier assigns the name, a string,
/// number or array literal assigns the value (each exactly once — a
/// second assignment is the builder error), `=` is passed over, and the
/// semicolon ends the variable; anything else is a syntax error.
pub open spec fn spec_var_steps(slice: Seq<TokenView>, k: int, v: VariableView) -> Result<
    VariableView,
    ErrorView,
>
    decreases slice.len() - k,
    when k >= 0
    via spec_var_steps_dec
{
    if k < 0 || k >= slice.len() {
        Ok(v)
    } else {
        let t = slice[k];
        match t.kind {
            TokenTypeView::Identifier => if v.name.len() == 0 {
                spec_var_steps(slice, k + 1, VariableView { name: t.text, ..v })
            } else {
                Err(ev_assign_name(t.text, v.line))
            },
            TokenTypeView::String => if (v.type_ matches TypeVarView::Nothing) {
                spec_var_steps(slice, k + 1, VariableView { type_: TypeVarView::String(t.text), ..v })
            } else {
                Err(ev_assign_value(v.line))
            },
            TokenTypeView::Number => if !num_ok(t.text) {
                Err(ev_var_syntax(t))
            } else if (v.type_ matches TypeVarView::Nothing) {
                spec_var_steps(
                    slice,
                    k + 1,
                    VariableView {
                        type_: TypeVarView::Number(crate::text::digits_val(t.text)),
                        ..v
                    },
                )
            } else {
                Err(ev_assign_value(v.line))
            },
            TokenTypeView::OpenBracket => match spec_array_steps(
                slice,
                k + 1,
                Seq::empty(),
                None,
                0,
            ) {
                Err(e) => Err(e),
                Ok((val, k2)) => if (v.type_ matches TypeVarView::Nothing) {
                    spec_var_steps(slice, k2, VariableView { type_: val, ..v })
                } else {
                    Err(ev_assign_value(v.line))
                },
            },
            TokenTypeView::Operator(op) => match op {
                OperatorsView::Eq => spec_var_steps(slice, k + 1, v),
                _ => Err(ev_var_syntax(t)),
            },
            TokenTypeView::SemiColon => Ok(v),
            _ => Err(ev_var_syntax(t)),
        }
    }
}

#[via_fn]
proof fn spec_var_steps_dec(slice: Seq<TokenView>, k: int, v: VariableView) {
    if 0 <= k < slice.len() {
        lemma_array_steps_bounds(slice, k + 1, Seq::empty(), None, 0);
    }
}

/// What reading a variable statement from position `pos` yields: the
/// slice up to the first semicolon is cut out and read by
/// [`spec_var_steps`], starting from a variable with no name and no
/// value on the `let` keyword's line; with no semicolon in reach the
/// variable never ends. `prev` is the `let` token.
pub open spec fn spec_parse_var(toks: Seq<TokenView>, pos: int, prev: TokenView) -> Result<
    (VariableView, int),
    ErrorView,
> {
    let j = find_tt(toks, pos, TokenTypeView::SemiColon);
    if j >= toks.len() {
        Err(ev_non_ending(prev.text, prev.line))
    } else {
        match spec_var_steps(
            toks.subrange(pos, j + 1),
            0,
            VariableView { name: Seq::empty(), type_: TypeVarView::Nothing, line: prev.line },
        ) {
            Ok(v) => Ok((v, j + 1)),
            Err(e) => Err(e),
        }
    }
}

impl Parser {
    /// Read an argument list: everything up to the closing brace, read
    /// exactly as [`spec_parse_args`] describes.
    #[verifier::loop_isolation(false)]
    pub fn parse_args(&mut self) -> (r: Result<Vec<Arg>, ErrorBuilder>)
        requires
            old(self).prev_token is Some,
        ensures
            final(self).tokens == old(self).tokens,
            old(self).current_position <= old(self).tokens@.len() ==> old(
                self,
            ).current_position <= final(self).current_position <= old(self).tokens@.len(),
            match spec_parse_args(
                toks_of(*old(self)),
                old(self).current_position as int,
                old(self).prev_token->0@.line,
            ) {
                Ok((args, p2)) => r is Ok && argseq_view(r->Ok_0@) == args
                    && final(self).current_position == p2,
                Err(e) => r is Err && r->Err_0@ == e,
            },
    {
        let ghost toks = toks_of(*old(self));
        let ghost pos = old(self).current_position as int;
        let prev_line = match &self.prev_token {
            Some(t) => t.line,
            None => {
                assert(false);
                0
            },
        };
        let ghost j = find_tt(toks, pos, TokenTypeView::CloseBrace);
        proof {
            lemma_find_tt_bounds(toks, pos, TokenTypeView::CloseBrace);
        }
        let slice = match self.up_until_token(TokenType::CloseBrace) {
            Some(v) => v,
            None => {
                return Err(crate::errors::invalid_function_syntax_missing_id(prev_line));
            },
        };
        let ghost sv = tokens_view(slice@);
        assert(sv == toks.subrange(pos, j + 1));
        let mut args: Vec<Arg> = Vec::new();
        let mut current_arg = Arg::new();
        let mut k: usize = 0;
        proof {
            assert(argseq_view(args@) =~= Seq::<ArgView>::empty());
            assert(current_arg@ =~= empty_argv());
        }
        while k < slice.len()
            invariant
                k <= slice@.len(),
                spec_args_steps(sv, 0, Seq::empty(), empty_argv(), prev_line as nat)
                    == spec_args_steps(
                    sv,
                    k as int,
                    argseq_view(args@),
                    current_arg@,
                    prev_line as nat,
                ),
            decreases slice@.len() - k,
        {
            let token = &slice[k];
            assert(token@ == sv[k as int]);
            let ghost args0 = argseq_view(args@);
            match &token.token_type {
                TokenType::Comma => {
                    args.push(current_arg);
                    current_arg = Arg::new();
                    proof {
                        assert(argseq_view(args@) =~= args0.push(args@.last()@));
                        assert(current_arg@ =~= empty_argv());
                    }
                },
                TokenType::Keyword(kw) => {
                    match kw {
                        KeyWords::Number => {
                            if current_arg.assign_type(TypesArg::Number).is_err() {
                                let e = crate::errors::invalid_var_syntax_token(token.clone());
                                proof {
                                    assert(e@ =~= ev_var_syntax(sv[k as int]));
                                }
                                return Err(e);
                            }
                        },
                        KeyWords::String => {
                            if current_arg.assign_type(TypesArg::String).is_err() {
                                let e = crate::errors::invalid_var_syntax_token(token.clone());
                                proof {
                                    assert(e@ =~= ev_var_syntax(sv[k as int]));
                                }
                                return Err(e);
                            }
                        },
                        _ => {
                            let e = crate::errors::invalid_var_syntax_token(token.clone());
                            proof {
                                assert(e@ =~= ev_var_syntax(sv[k as int]));
                            }
                            return Err(e);
                        },
                    }
                },
                TokenType::Identifier => {
                    if current_arg.assign_value(token.value.clone()).is_err() {
                        let e = crate::errors::invalid_var_syntax_token(token.clone());
                        proof {
                            assert(e@ =~= ev_var_syntax(sv[k as int]));
                        }
                        return Err(e);
                    }
                },
                TokenType::String => {
                    let ghost cur0 = current_arg@;
                    if current_arg.assign_value(token.value.clone()).is_err() {
                        let e = crate::errors::invalid_var_syntax_token(token.clone());
                        proof {
                            assert(e@ =~= ev_var_syntax(sv[k as int]));
                        }
                        return Err(e);
                    }
                    if current_arg.assign_type(TypesArg::String).is_err() {
                        let e = crate::errors::invalid_var_syntax_token(token.clone());
                        proof {
                            assert(e@ =~= ev_var_syntax(sv[k as int]));
                        }
                        return Err(e);
                    }
                    proof {
                        assert(current_arg@ =~= (ArgView {
                            value: token@.text,
                            type_: TypesArg::String,
                        }));
                    }
                },
                TokenType::Number => {
                    let ghost cur0 = current_arg@;
                    if current_arg.assign_value(token.value.clone()).is_err() {
                        let e = crate::errors::invalid_var_syntax_token(token.clone());
                        proof {
                            assert(e@ =~= ev_var_syntax(sv[k as int]));
                        }
                        return Err(e);
                    }
                    if current_arg.assign_type(TypesArg::Number).is_err() {
                        let e = crate::errors::invalid_var_syntax_token(token.clone());
                        proof {
                            assert(e@ =~= ev_var_syntax(sv[k as int]));
                        }
                        return Err(e);
                    }
                    proof {
                        assert(current_arg@ =~= (ArgView {
                            value: token@.text,
                            type_: TypesArg::Number,
                        }));
                    }
                },
                TokenType::CloseBrace => {
                    let complete = !current_arg.value.as_str().is_empty();
                    if complete {
                        args.push(current_arg);
                        proof {
                            assert(argseq_view(args@) =~= args0.push(args@.last()@));
                        }
                        return Ok(args);
                    }
                    return Ok(args);
                },
                TokenType::OpenBrace => {},
                TokenType::Comment => {},
                _ => {
                    let e = crate::errors::invalid_function_syntax_missing_id(prev_line);
                    proof {
                        assert(e@ =~= ev_missing_id(prev_line as nat));
                    }
                    return Err(e);
                },
            }
            k = k + 1;
        }
        Ok(args)
    }

    /// Read a variable statement: everything up to the semicolon, read
    /// exactly as [`spec_parse_var`] describes.
    #[verifier::loop_isolation(false)]
    pub fn parse_var(&mut self) -> (r: Result<Variable, ErrorBuilder>)
        requires
            old(self).prev_token is Some,
        ensures
            final(self).tokens == old(self).tokens,
            old(self).current_position <= old(self).tokens@.len() ==> old(
                self,
            ).current_position <= final(self).current_position <= old(self).tokens@.len(),
            match spec_parse_var(
                toks_of(*old(self)),
                old(self).current_position as int,
                old(self).prev_token->0@,
            ) {
                Ok((v, p2)) => r is Ok && r->Ok_0@ == v && final(self).current_position == p2,
                Err(e) => r is Err && r->Err_0@ == e,
            },
    {
        let ghost toks = toks_of(*old(self));
        let ghost pos = old(self).current_position as int;
        let prev = match &self.prev_token {
            Some(t) => t.clone(),
            None => {
                assert(false);
                Token::new(TokenType::Invalid, "", 0)
            },
        };
        let mut var = Variable::new();
        var.line(prev.line);
        let ghost j = find_tt(toks, pos, TokenTypeView::SemiColon);
        proof {
            lemma_find_tt_bounds(toks, pos, TokenTypeView::SemiColon);
        }
        let slice = match self.up_until_token(TokenType::SemiColon) {
            Some(v) => v,
            None => {
                return Err(crate::errors::non_ending_variable(prev.value, prev.line));
            },
        };
        let ghost sv = tokens_view(slice@);
        assert(sv == toks.subrange(pos, j + 1));
        let ghost v0 = (VariableView {
            name: Seq::empty(),
            type_: TypeVarView::Nothing,
            line: prev.line as nat,
        });
        proof {
            assert(var@ =~= v0);
        }
        let mut k: usize = 0;
        while k < slice.len()
            invariant
                k <= slice@.len(),
                spec_var_steps(sv, 0, v0) == spec_var_steps(sv, k as int, var@),
            decreases slice@.len() - k,
        {
            let token = &slice[k];
            assert(token@ == sv[k as int]);
            match &token.token_type {
                TokenType::Identifier => {
                    match var.name(token.value.clone()) {
                        Ok(_) => {},
                        Err(e) => {
                            proof {
                                assert(e@ =~= ev_assign_name(token@.text, var@.line));
                            }
                            return Err(e);
                        },
                    }
                },
                TokenType::String => {
                    match var.type_(TypeVar::String(token.value.clone())) {
                        Ok(_) => {},
                        Err(e) => {
                            proof {
                                assert(e@ =~= ev_assign_value(var@.line));
                            }
                            return Err(e);
                        },
                    }
                },
                TokenType::Number => {
                    let n = match crate::text::try_parse_i32(token.value.as_str()) {
                        Some(n) => n,
                        None => {
                            return Err(crate::errors::invalid_var_syntax_token(token.clone()));
                        },
                    };
                    match var.type_(TypeVar::Number(n)) {
                        Ok(_) => {},
                        Err(e) => {
                            proof {
                                assert(e@ =~= ev_assign_value(var@.line));
                            }
                            return Err(e);
                        },
                    }
                },
                TokenType::OpenBracket => {
                    match Self::parse_array(&slice, k + 1) {
                        Ok((val, k2)) => {
                            match var.type_(val) {
                                Ok(_) => {},
                                Err(e) => {
                                    proof {
                                        assert(e@ =~= ev_assign_value(var@.line));
                                    }
                                    return Err(e);
                                },
                            }
                            proof {
                                lemma_array_steps_bounds(sv, k + 1, Seq::empty(), None, 0);
                            }
                            k = k2;
                            continue ;
                        },
                        Err(e) => {
                            return Err(e);
                        },
                    }
                },
                TokenType::Operator(op) => {
                    match op {
                        Operators::Eq => {},
                        _ => {
                            return Err(crate::errors::invalid_var_syntax_token(token.clone()));
                        },
                    }
                },
                TokenType::SemiColon => {
                    return Ok(var);
                },
                _ => {
                    return Err(crate::errors::invalid_var_syntax_token(token.clone()));
                },
            }
            k = k + 1;
        }
        Ok(var)
    }
}



/// What reading a function call from position `pos` yields, after its
/// name has been consumed: an opening brace must follow directly, then
/// an argument list, then the closing semicolon. `prev` is the name
/// token.
pub open spec fn spec_parse_fn_call(toks: Seq<TokenView>, pos: int, prev: TokenView) -> Result<
    (FuncView, int),
    ErrorView,
> {
    if pos >= toks.len() || !(toks[pos].kind matches TokenTypeView::OpenBrace) {
        Err(ev_fn_call(prev.text, prev.line))
    } else {
        match spec_parse_args(toks, pos, prev.line) {
            Err(e) => Err(e),
            Ok((args, p2)) => if p2 >= toks.len() || !(toks[p2].kind
                matches TokenTypeView::SemiColon) {
                Err(ev_non_ending(prev.text, prev.line))
            } else {
                Ok(
                    (FuncView {
                        name: prev.text,
                        args,
                        body: None,
                        return_type: ReturnTypes::Nothing,
                        line: prev.line,
                    }, p2 + 1),
                )
            },
        }
    }
}


pub proof fn lemma_spec_parse_use_bounds(toks: Seq<TokenView>, pos: int, prev_line: nat)
    ensures
        spec_parse_use(toks, pos, prev_line) matches Ok(p) ==> pos < p.1 <= toks.len(),
{
}

pub proof fn lemma_spec_parse_var_bounds(toks: Seq<TokenView>, pos: int, prev: TokenView)
    requires
        0 <= pos,
    ensures
        spec_parse_var(toks, pos, prev) matches Ok(p) ==> pos < p.1 <= toks.len(),
{
    lemma_find_tt_bounds(toks, pos, TokenTypeView::SemiColon);
}

pub proof fn lemma_spec_parse_args_bounds(toks: Seq<TokenView>, pos: int, prev_line: nat)
    requires
        0 <= pos,
    ensures
        spec_parse_args(toks, pos, prev_line) matches Ok(p) ==> pos < p.1 <= toks.len(),
{
    lemma_find_tt_bounds(toks, pos, TokenTypeView::CloseBrace);
}

pub proof fn lemma_spec_parse_return_bounds(toks: Seq<TokenView>, pos: int, prev_line: nat)
    requires
        0 <= pos,
    ensures
        spec_parse_return(toks, pos, prev_line) matches Ok(p) ==> pos < p.1 <= toks.len(),
{
    lemma_find_tt_bounds(toks, pos, TokenTypeView::SemiColon);
}

pub proof fn lemma_spec_parse_fn_call_bounds(toks: Seq<TokenView>, pos: int, prev: TokenView)
    requires
        0 <= pos,
    ensures
        spec_parse_fn_call(toks, pos, prev) matches Ok(p) ==> pos < p.1 <= toks.len(),
{
    lemma_spec_parse_args_bounds(toks, pos, prev.line);
}

pub proof fn lemma_spec_get_case_bounds(toks: Seq<TokenView>, pos: int)
    ensures
        spec_get_case(toks, pos) matches Ok(p) ==> p.1 == pos + 3 && pos + 3 <= toks.len(),
{
}

/// A statement node that owns no children of its own.
pub open spec fn leaf_node(t: TypeView) -> AstView {
    AstView { type_: t, body: Seq::empty() }
}

/// The node a function declaration builds: a function whose body is the
/// given block.
pub open spec fn fn_node(
    name: Seq<char>,
    args: Seq<ArgView>,
    rt: ReturnTypes,
    body: AstView,
    line: nat,
) -> AstView {
    AstView {
        type_: TypeView::Function(
            FuncView { name, args, body: Some(Box::new(body)), return_type: rt, line },
        ),
        body: Seq::empty(),
    }
}

/// Put one parsed statement in front of the statements that follow it,
/// passing an error through.
pub open spec fn cons_stmt(node: AstView, rest: Result<(Seq<AstView>, int), ErrorView>) -> Result<
    (Seq<AstView>, int),
    ErrorView,
> {
    match rest {
        Ok((xs, p)) => Ok((seq![node] + xs, p)),
        Err(e) => Err(e),
    }
}

/// Put already-parsed statements in front of the statements that follow
/// them, passing an error through.
pub open spec fn prepend_stmts(
    xs: Seq<AstView>,
    rest: Result<(Seq<AstView>, int), ErrorView>,
) -> Result<(Seq<AstView>, int), ErrorView> {
    match rest {
        Ok((ys, p)) => Ok((xs + ys, p)),
        Err(e) => Err(e),
    }
}

proof fn lemma_prepend_nil(rest: Result<(Seq<AstView>, int), ErrorView>)
    ensures
        prepend_stmts(Seq::empty(), rest) == rest,
{
    match rest {
        Ok((ys, p)) => {
            assert(Seq::<AstView>::empty() + ys =~= ys);
        },
        Err(_) => {},
    }
}

proof fn lemma_prepend_shift(
    xs: Seq<AstView>,
    n: AstView,
    rest: Result<(Seq<AstView>, int), ErrorView>,
)
    ensures
        prepend_stmts(xs, cons_stmt(n, rest)) == prepend_stmts(xs.push(n), rest),
{
    match rest {
        Ok((ys, p)) => {
            assert(xs + (seq![n] + ys) =~= xs.push(n) + ys);
        },
        Err(_) => {},
    }
}

/// A continuation position clamped into the range a statement can leave
/// the parser at: past the statement's own token and at most the end of
/// the stream. The parser's routines always return such a position, so
/// the clamp changes nothing on real runs; it makes the recursion of the
/// spec functions visibly bounded.
pub open spec fn bump(p: int, q: int, n: int) -> int {
    if q <= p {
        p + 1
    } else if q > n {
        n
    } else {
        q
    }
}

/// What reading statements from position `pos` on yields: the statement
/// nodes in source order and the position after them. Inside a block
/// (`in_block`), a closing curly bracket ends the statements (consumed),
/// return and if statements are read, and running out of tokens is a
/// missing-body error carrying the line seen last; at the top level those
/// three are an unexpected-token error, the end of the stream ends the
/// program, and running out of tokens is success. The first statement
/// that fails stops everything and its diagnostic is passed through
/// unchanged; comments are passed over.
pub open spec fn spec_parse_stmts(toks: Seq<TokenView>, pos: int, in_block: bool, line: nat) -> Result<
    (Seq<AstView>, int),
    ErrorView,
>
    decreases toks.len() - pos, 0int,
    via spec_parse_stmts_dec
{
    if pos < 0 || pos >= toks.len() {
        if in_block {
            Err(ev_body_syntax(Seq::empty(), line))
        } else {
            Ok((Seq::empty(), pos))
        }
    } else {
        let t = toks[pos];
        let l2 = t.line;
        match t.kind {
            TokenTypeView::Comment => spec_parse_stmts(toks, pos + 1, in_block, l2),
            TokenTypeView::Keyword(KeyWords::Use) => match spec_parse_use(toks, pos + 1, l2) {
                Err(e) => Err(e),
                Ok((path, p2)) => cons_stmt(
                    leaf_node(TypeView::Use(path)),
                    spec_parse_stmts(toks, p2, in_block, l2),
                ),
            },
            TokenTypeView::Keyword(KeyWords::Let) => match spec_parse_var(toks, pos + 1, t) {
                Err(e) => Err(e),
                Ok((v, p2)) => cons_stmt(
                    leaf_node(TypeView::Variable(v)),
                    spec_parse_stmts(toks, p2, in_block, l2),
                ),
            },
            TokenTypeView::Keyword(KeyWords::Fn) => match spec_parse_fn(toks, pos + 1, l2) {
                Err(e) => Err(e),
                Ok((node, p2)) => cons_stmt(
                    node,
                    spec_parse_stmts(toks, bump(pos, p2, toks.len() as int), in_block, l2),
                ),
            },
            TokenTypeView::Identifier => match spec_parse_fn_call(toks, pos + 1, t) {
                Err(e) => Err(e),
                Ok((f, p2)) => cons_stmt(
                    leaf_node(TypeView::FunctionCall(f)),
                    spec_parse_stmts(toks, p2, in_block, l2),
                ),
            },
            TokenTypeView::OpenCurlyBracket => match spec_parse_block(toks, pos + 1) {
                Err(e) => Err(e),
                Ok((node, p2)) => cons_stmt(
                    node,
                    spec_parse_stmts(toks, bump(pos, p2, toks.len() as int), in_block, l2),
                ),
            },
            TokenTypeView::Keyword(KeyWords::Return) => if in_block {
                match spec_parse_return(toks, pos + 1, l2) {
                    Err(e) => Err(e),
                    Ok((ret, p2)) => cons_stmt(
                        leaf_node(TypeView::Return(ret)),
                        spec_parse_stmts(toks, p2, in_block, l2),
                    ),
                }
            } else {
                Err(ev_var_syntax(t))
            },
            TokenTypeView::Keyword(KeyWords::If) => if in_block {
                match spec_parse_statement(toks, pos + 1) {
                    Err(e) => Err(e),
                    Ok((lg, p2)) => cons_stmt(
                        leaf_node(TypeView::Logic(lg)),
                        spec_parse_stmts(toks, bump(pos, p2, toks.len() as int), in_block, l2),
                    ),
                }
            } else {
                Err(ev_var_syntax(t))
            },
            TokenTypeView::CloseCurlyBracket => if in_block {
                Ok((Seq::empty(), pos + 1))
            } else {
                Err(ev_var_syntax(t))
            },
            _ => Err(ev_var_syntax(t)),
        }
    }
}

#[via_fn]
proof fn spec_parse_stmts_dec(toks: Seq<TokenView>, pos: int, in_block: bool, line: nat) {
    if 0 <= pos < toks.len() {
        let t = toks[pos];
        lemma_spec_parse_use_bounds(toks, pos + 1, t.line);
        lemma_spec_parse_var_bounds(toks, pos + 1, t);
        lemma_spec_parse_fn_call_bounds(toks, pos + 1, t);
        lemma_spec_parse_return_bounds(toks, pos + 1, t.line);
    }
}

/// What reading a block after its opening curly bracket yields: a block
/// node holding the statements up to the matching closing bracket, and
/// the position after that bracket.
pub open spec fn spec_parse_block(toks: Seq<TokenView>, pos: int) -> Result<
    (AstView, int),
    ErrorView,
>
    decreases toks.len() - pos, 1int,
{
    match spec_parse_stmts(toks, pos, true, 0) {
        Ok((children, p2)) => Ok((AstView { type_: TypeView::Block, body: children }, p2)),
        Err(e) => Err(e),
    }
}

/// What reading a function declaration after the `fn` keyword yields:
/// its name must follow, then its argument list, then either the body's
/// opening bracket directly (a void return) or the keyword `number` or
/// `string` and then the opening bracket, then the block body. The node
/// holds exactly the name, arguments, return kind and body read, on the
/// `fn` keyword's line.
pub open spec fn spec_parse_fn(toks: Seq<TokenView>, pos: int, fn_line: nat) -> Result<
    (AstView, int),
    ErrorView,
>
    decreases toks.len() - pos, 2int,
    via spec_parse_fn_dec
{
    if pos < 0 || pos >= toks.len() || !(toks[pos].kind matches TokenTypeView::Identifier) {
        Err(ev_missing_id(fn_line))
    } else {
        let name_t = toks[pos];
        match spec_parse_args(toks, pos + 1, name_t.line) {
            Err(e) => Err(e),
            Ok((args, p2)) => if p2 >= toks.len() {
                Err(ev_missing_id(fn_line))
            } else {
                match toks[p2].kind {
                    TokenTypeView::OpenCurlyBracket => match spec_parse_block(toks, p2 + 1) {
                        Err(e) => Err(e),
                        Ok((b, p3)) => Ok(
                            (fn_node(name_t.text, args, ReturnTypes::Nothing, b, fn_line), p3),
                        ),
                    },
                    TokenTypeView::Keyword(KeyWords::Number) => if p2 + 1 >= toks.len() || !(
                    toks[p2 + 1].kind matches TokenTypeView::OpenCurlyBracket) {
                        Err(ev_body_syntax(name_t.text, fn_line))
                    } else {
                        match spec_parse_block(toks, p2 + 2) {
                            Err(e) => Err(e),
                            Ok((b, p3)) => Ok(
                                (fn_node(name_t.text, args, ReturnTypes::Number, b, fn_line), p3),
                            ),
                        }
                    },
                    TokenTypeView::Keyword(KeyWords::String) => if p2 + 1 >= toks.len() || !(
                    toks[p2 + 1].kind matches TokenTypeView::OpenCurlyBracket) {
                        Err(ev_body_syntax(name_t.text, fn_line))
                    } else {
                        match spec_parse_block(toks, p2 + 2) {
                            Err(e) => Err(e),
                            Ok((b, p3)) => Ok(
                                (fn_node(name_t.text, args, ReturnTypes::String, b, fn_line), p3),
                            ),
                        }
                    },
                    _ => Err(ev_body_syntax(name_t.text, fn_line)),
                }
            },
        }
    }
}

#[via_fn]
proof fn spec_parse_fn_dec(toks: Seq<TokenView>, pos: int, fn_line: nat) {
    if 0 <= pos < toks.len() {
        lemma_spec_parse_args_bounds(toks, pos + 1, toks[pos].line);
    }
}

/// What reading an if statement after the `if` keyword yields: one
/// comparison, the then block, and optionally `else` and a second block;
/// the token peeked after the then block is left in place when it is not
/// `else`. The conditional holds exactly the comparison and the blocks
/// read.
pub open spec fn spec_parse_statement(toks: Seq<TokenView>, pos: int) -> Result<
    (crate::ast::LogicView, int),
    ErrorView,
>
    decreases toks.len() - pos, 2int,
    via spec_parse_statement_dec
{
    if pos < 0 {
        Err(ev_if_body())
    } else {
        match spec_get_case(toks, pos) {
            Err(e) => Err(e),
            Ok((c, p3)) => if p3 >= toks.len() || !(toks[p3].kind
                matches TokenTypeView::OpenCurlyBracket) {
                Err(ev_if_body())
            } else {
                match spec_parse_block(toks, p3 + 1) {
                    Err(e) => Err(e),
                    Ok((then_b, p4r)) => {
                        let p4 = bump(p3 + 1, p4r, toks.len() as int);
                        if p4 >= toks.len() {
                            Ok(
                                (crate::ast::LogicView {
                                    if_: seq![c],
                                    do_: Box::new(then_b),
                                    else_: None,
                                }, p4),
                            )
                        } else {
                            match toks[p4].kind {
                                TokenTypeView::Keyword(KeyWords::Else) => if p4 + 1 >= toks.len()
                                    || !(toks[p4 + 1].kind
                                    matches TokenTypeView::OpenCurlyBracket) {
                                    Err(ev_if_body())
                                } else {
                                    match spec_parse_block(toks, p4 + 2) {
                                        Err(e) => Err(e),
                                        Ok((else_b, p5)) => Ok(
                                            (crate::ast::LogicView {
                                                if_: seq![c],
                                                do_: Box::new(then_b),
                                                else_: Some(Box::new(else_b)),
                                            }, p5),
                                        ),
                                    }
                                },
                                _ => Ok(
                                    (crate::ast::LogicView {
                                        if_: seq![c],
                                        do_: Box::new(then_b),
                                        else_: None,
                                    }, p4),
                                ),
                            }
                        }
                    },
                }
            },
        }
    }
}

#[via_fn]
proof fn spec_parse_statement_dec(toks: Seq<TokenView>, pos: int) {
    if 0 <= pos {
        lemma_spec_get_case_bounds(toks, pos);
    }
}

/// What reading a whole program yields: a program node holding the
/// top-level statements in source order, read until the token stream is
/// exhausted.
pub open spec fn spec_parse(toks: Seq<TokenView>, pos: int) -> Result<(AstView, int), ErrorView> {
    match spec_parse_stmts(toks, pos, false, 0) {
        Ok((children, p)) => Ok((AstView { type_: TypeView::Program, body: children }, p)),
        Err(e) => Err(e),
    }
}

impl Parser {
    /// Read a function call after its name: an opening brace, the
    /// arguments, and the closing semicolon, exactly as
    /// [`spec_parse_fn_call`] describes.
    pub fn parse_fn_call(&mut self) -> (r: Result<Ast, ErrorBuilder>)
        requires
            old(self).prev_token is Some,
        ensures
            final(self).tokens == old(self).tokens,
            old(self).current_position <= old(self).tokens@.len() ==> old(
                self,
            ).current_position <= final(self).current_position <= old(self).tokens@.len(),
            match spec_parse_fn_call(
                toks_of(*old(self)),
                old(self).current_position as int,
                old(self).prev_token->0@,
            ) {
                Ok((f, p2)) => r is Ok && r->Ok_0@.type_ == TypeView::FunctionCall(f)
                    && r->Ok_0@.body.len() == 0 && final(self).current_position == p2,
                Err(e) => r is Err && r->Err_0@ == e,
            },
    {
        let ghost toks = toks_of(*old(self));
        let ghost pos = old(self).current_position as int;
        let prev = match &self.prev_token {
            Some(t) => t.clone(),
            None => {
                assert(false);
                Token::new(TokenType::Invalid, "", 0)
            },
        };
        let open_ok = match self.peak_nth(0) {
            Some(t) => match t.token_type {
                TokenType::OpenBrace => true,
                _ => false,
            },
            None => false,
        };
        if !open_ok {
            let e = crate::errors::invalid_function_call(prev.value, prev.line);
            proof {
                assert(e@ =~= ev_fn_call(prev@.text, prev@.line));
            }
            return Err(e);
        }
        let args = match self.parse_args() {
            Ok(a) => a,
            Err(e) => {
                return Err(e);
            },
        };
        let ghost p2 = self.current_position as int;
        let close = match self.next() {
            Some(t) => t,
            None => {
                let e = crate::errors::non_ending_variable(prev.value, prev.line);
                proof {
                    assert(e@ =~= ev_non_ending(prev@.text, prev@.line));
                }
                return Err(e);
            },
        };
        match close.token_type {
            TokenType::SemiColon => {},
            _ => {
                let e = crate::errors::non_ending_variable(prev.value, prev.line);
                proof {
                    assert(e@ =~= ev_non_ending(prev@.text, prev@.line));
                }
                return Err(e);
            },
        }
        let func = Func {
            name: prev.value,
            args,
            body: None,
            return_type: ReturnTypes::Nothing,
            line: prev.line,
        };
        proof {
            assert(crate::ast::func_view(func).args =~= argseq_view(func.args@));
        }
        let ast = Ast::new(Type::FunctionCall(func));
        Ok(ast)
    }

    /// Read a function declaration after the `fn` keyword: its name, its
    /// argument list, an optional `number` or `string` return kind, and
    /// its block body, exactly as [`spec_parse_fn`] describes.
    pub fn parse_fn(&mut self) -> (r: Result<Ast, ErrorBuilder>)
        requires
            old(self).prev_token is Some,
            old(self).current_position <= old(self).tokens@.len(),
        ensures
            final(self).tokens == old(self).tokens,
            old(self).current_position <= final(self).current_position <= old(self).tokens@.len(),
            match spec_parse_fn(
                toks_of(*old(self)),
                old(self).current_position as int,
                old(self).prev_token->0@.line,
            ) {
                Ok((node, p2)) => r is Ok && r->Ok_0@ == node && final(self).current_position
                    == p2,
                Err(e) => r is Err && r->Err_0@ == e,
            },
        decreases old(self).tokens@.len() - old(self).current_position,
    {
        let ghost toks = toks_of(*old(self));
        let ghost p = old(self).current_position as int;
        let ghost fnl = old(self).prev_token->0@.line;
        let prev = match &self.prev_token {
            Some(t) => t.clone(),
            None => {
                assert(false);
                Token::new(TokenType::Invalid, "", 0)
            },
        };
        let next = match self.next() {
            Some(t) => t,
            None => {
                let e = crate::errors::invalid_function_syntax_missing_id(prev.line);
                proof {
                    assert(e@ =~= ev_missing_id(fnl));
                }
                return Err(e);
            },
        };
        match next.token_type {
            TokenType::Identifier => {},
            _ => {
                let e = crate::errors::invalid_function_syntax_missing_id(prev.line);
                proof {
                    assert(e@ =~= ev_missing_id(fnl));
                }
                return Err(e);
            },
        }
        let args = match self.parse_args() {
            Ok(a) => a,
            Err(e) => {
                return Err(e);
            },
        };
        let ghost p2 = self.current_position as int;
        let body_tok = match self.next() {
            Some(t) => t,
            None => {
                let e = crate::errors::invalid_function_syntax_missing_id(prev.line);
                proof {
                    assert(e@ =~= ev_missing_id(fnl));
                }
                return Err(e);
            },
        };
        let mut return_type = ReturnTypes::Nothing;
        match body_tok.token_type {
            TokenType::OpenCurlyBracket => {},
            TokenType::Keyword(KeyWords::Number) => {
                return_type = ReturnTypes::Number;
                let open = match self.next() {
                    Some(t) => t,
                    None => {
                        let e = crate::errors::invalid_function_body_syntax(next.value, prev.line);
                        proof {
                            assert(e@ =~= ev_body_syntax(toks[p].text, fnl));
                        }
                        return Err(e);
                    },
                };
                match open.token_type {
                    TokenType::OpenCurlyBracket => {},
                    _ => {
                        let e = crate::errors::invalid_function_body_syntax(next.value, prev.line);
                        proof {
                            assert(e@ =~= ev_body_syntax(toks[p].text, fnl));
                        }
                        return Err(e);
                    },
                }
            },
            TokenType::Keyword(KeyWords::String) => {
                return_type = ReturnTypes::String;
                let open = match self.next() {
                    Some(t) => t,
                    None => {
                        let e = crate::errors::invalid_function_body_syntax(next.value, prev.line);
                        proof {
                            assert(e@ =~= ev_body_syntax(toks[p].text, fnl));
                        }
                        return Err(e);
                    },
                };
                match open.token_type {
                    TokenType::OpenCurlyBracket => {},
                    _ => {
                        let e = crate::errors::invalid_function_body_syntax(next.value, prev.line);
                        proof {
                            assert(e@ =~= ev_body_syntax(toks[p].text, fnl));
                        }
                        return Err(e);
                    },
                }
            },
            _ => {
                let e = crate::errors::invalid_function_body_syntax(next.value, prev.line);
                proof {
                    assert(e@ =~= ev_body_syntax(toks[p].text, fnl));
                }
                return Err(e);
            },
        }
        let body = match self.parse_block() {
            Ok(b) => b,
            Err(e) => {
                return Err(e);
            },
        };
        let func = Func {
            name: next.value,
            args,
            body: Some(Box::new(body)),
            return_type,
            line: prev.line,
        };
        proof {
            assert(crate::ast::func_view(func).args =~= argseq_view(func.args@));
        }
        let ast = Ast::new(Type::Function(func));
        proof {
            assert(ast@.type_ == crate::ast::type_view(ast.type_));
            assert(ast@.body =~= Seq::<AstView>::empty());
            assert(spec_parse_fn(toks, p, fnl) is Ok);
            let pr = spec_parse_fn(toks, p, fnl)->Ok_0;
            assert(ast@ =~~= pr.0);
            assert(pr.1 == self.current_position as int);
        }
        Ok(ast)
    }

    /// Read an if statement after the `if` keyword: one comparison, a
    /// block body, and optionally `else` and a second block, exactly as
    /// [`spec_parse_statement`] describes.
    pub fn parse_statement(&mut self) -> (r: Result<Logic, ErrorBuilder>)
        requires
            old(self).prev_token is Some,
            old(self).current_position <= old(self).tokens@.len(),
        ensures
            final(self).tokens == old(self).tokens,
            old(self).current_position <= final(self).current_position <= old(self).tokens@.len(),
            match spec_parse_statement(toks_of(*old(self)), old(self).current_position as int) {
                Ok((lg, p2)) => r is Ok && r->Ok_0@ == lg && final(self).current_position == p2,
                Err(e) => r is Err && r->Err_0@ == e,
            },
        decreases old(self).tokens@.len() - old(self).current_position,
    {
        let ghost toks = toks_of(*old(self));
        let ghost p = old(self).current_position as int;
        let prev = match &self.prev_token {
            Some(t) => t.clone(),
            None => {
                assert(false);
                Token::new(TokenType::Invalid, "", 0)
            },
        };
        let case = match self.get_case() {
            Ok(c) => c,
            Err(e) => {
                return Err(e);
            },
        };
        let ghost p3 = spec_get_case(toks, p)->Ok_0.1;
        let block = match self.next() {
            Some(t) => t,
            None => {
                let e = crate::errors::invalid_if_statement_body(prev.line);
                proof {
                    assert(e@ =~= ev_if_body());
                }
                return Err(e);
            },
        };
        match block.token_type {
            TokenType::OpenCurlyBracket => {},
            _ => {
                let e = crate::errors::invalid_if_statement_body(prev.line);
                proof {
                    assert(e@ =~= ev_if_body());
                }
                return Err(e);
            },
        }
        let body = match self.parse_block() {
            Ok(b) => b,
            Err(e) => {
                return Err(e);
            },
        };
        let ghost p4 = self.current_position as int;
        proof {
            assert(bump(p3 + 1, p4, toks.len() as int) == p4);
        }
        let mut cases: Vec<Case> = Vec::new();
        cases.push(case);
        let check_else = match self.next() {
            Some(t) => t,
            None => {
                let logic = Logic::new(cases, None, body);
                proof {
                    assert(logic@.if_ =~= seq![spec_get_case(toks, p)->Ok_0.0]);
                    assert(logic@ =~~= spec_parse_statement(toks, p)->Ok_0.0);
                }
                return Ok(logic);
            },
        };
        match check_else.token_type {
            TokenType::Keyword(KeyWords::Else) => {
                let open = match self.next() {
                    Some(t) => t,
                    None => {
                        let e = crate::errors::invalid_if_statement_body(prev.line);
                        proof {
                            assert(e@ =~= ev_if_body());
                        }
                        return Err(e);
                    },
                };
                match open.token_type {
                    TokenType::OpenCurlyBracket => {
                        let else_body = match self.parse_block() {
                            Ok(b) => b,
                            Err(e) => {
                                return Err(e);
                            },
                        };
                        let logic = Logic::new(cases, Some(Box::new(else_body)), body);
                        proof {
                            assert(logic@.if_ =~= seq![spec_get_case(toks, p)->Ok_0.0]);
                            assert(logic@ =~~= spec_parse_statement(toks, p)->Ok_0.0);
                        }
                        Ok(logic)
                    },
                    _ => {
                        let e = crate::errors::invalid_if_statement_body(prev.line);
                        proof {
                            assert(e@ =~= ev_if_body());
                        }
                        Err(e)
                    },
                }
            },
            _ => {
                self.advance_back(1);
                let logic = Logic::new(cases, None, body);
                proof {
                    assert(logic@.if_ =~= seq![spec_get_case(toks, p)->Ok_0.0]);
                    assert(logic@ =~~= spec_parse_statement(toks, p)->Ok_0.0);
                }
                Ok(logic)
            },
        }
    }

    /// Read a block after its opening curly bracket: statements up to
    /// the matching closing curly bracket, which is consumed, exactly as
    /// [`spec_parse_block`] describes.
    #[verifier::loop_isolation(false)]
    #[verifier::rlimit(100)]
    #[verifier::spinoff_prover]
    pub fn parse_block(&mut self) -> (r: Result<Ast, ErrorBuilder>)
        requires
            old(self).current_position <= old(self).tokens@.len(),
        ensures
            final(self).tokens == old(self).tokens,
            old(self).current_position <= final(self).current_position <= old(self).tokens@.len(),
            r is Ok ==> old(self).current_position < final(self).current_position,
            match spec_parse_block(toks_of(*old(self)), old(self).current_position as int) {
                Ok((node, p2)) => r is Ok && r->Ok_0@ == node && final(self).current_position
                    == p2,
                Err(e) => r is Err && r->Err_0@ == e,
            },
        decreases old(self).tokens@.len() - old(self).current_position,
    {
        let ghost toks = toks_of(*old(self));
        let ghost start = old(self).current_position as int;
        let mut ast = Ast::new(Type::Block);
        let mut line: usize = 0;
        proof {
            assert(asts_view(ast.body@) =~= Seq::<AstView>::empty());
            lemma_prepend_nil(spec_parse_stmts(toks, start, true, 0));
        }
        loop
            invariant
                self.tokens == old(self).tokens,
                old(self).current_position <= self.current_position <= self.tokens@.len(),
                ast.type_ == Type::Block,
                spec_parse_stmts(toks, start, true, 0) == prepend_stmts(
                    asts_view(ast.body@),
                    spec_parse_stmts(toks, self.current_position as int, true, line as nat),
                ),
            decreases self.tokens@.len() - self.current_position,
        {
            let ghost p = self.current_position as int;
            let ghost l0 = line as nat;
            let ghost done = ast.body@;
            let token = match self.next() {
                Some(t) => t,
                None => {
                    let e = crate::errors::invalid_function_body_syntax(String::new(), line);
                    proof {
                        assert(e@ =~= ev_body_syntax(Seq::empty(), l0));
                    }
                    return Err(e);
                },
            };
            line = token.line;
            let ghost l2 = token@.line;
            match token.token_type {
                TokenType::Keyword(KeyWords::Use) => {
                    let use_ = match self.parse_use() {
                        Ok(u) => u,
                        Err(e) => {
                            return Err(e);
                        },
                    };
                    let ghost uv = use_@;
                    let node = Ast::new(Type::Use(use_));
                    proof {
                        assert(node@.type_ == crate::ast::type_view(node.type_));
                        assert(node.type_ matches Type::Use(u) && u@ == uv);
                        assert(node@.type_ == TypeView::Use(uv));
                        assert(node@.body =~= Seq::<AstView>::empty());
                        assert(node@ =~~= leaf_node(TypeView::Use(uv)));
                        lemma_prepend_shift(
                            asts_view(done),
                            node@,
                            spec_parse_stmts(toks, self.current_position as int, true, l2),
                        );
                    }
                    ast.body.push(node);
                    proof {
                        assert(asts_view(ast.body@) =~= asts_view(done).push(node@));
                    }
                },
                TokenType::Keyword(KeyWords::Let) => {
                    let var = match self.parse_var() {
                        Ok(v) => v,
                        Err(e) => {
                            return Err(e);
                        },
                    };
                    let ghost vv = var@;
                    let node = Ast::new(Type::Variable(var));
                    proof {
                        assert(node@.type_ == crate::ast::type_view(node.type_));
                        assert(node.type_ matches Type::Variable(u) && u@ == vv);
                        assert(node@.type_ == TypeView::Variable(vv));
                        assert(node@.body =~= Seq::<AstView>::empty());
                        assert(node@ =~~= leaf_node(TypeView::Variable(vv)));
                        lemma_prepend_shift(
                            asts_view(done),
                            node@,
                            spec_parse_stmts(toks, self.current_position as int, true, l2),
                        );
                    }
                    ast.body.push(node);
                    proof {
                        assert(asts_view(ast.body@) =~= asts_view(done).push(node@));
                    }
                },
                TokenType::Keyword(KeyWords::Fn) => {
                    let f = match self.parse_fn() {
                        Ok(f) => f,
                        Err(e) => {
                            return Err(e);
                        },
                    };
                    proof {
                        assert(bump(p, self.current_position as int, toks.len() as int)
                            == self.current_position as int);
                        lemma_prepend_shift(
                            asts_view(done),
                            f@,
                            spec_parse_stmts(toks, self.current_position as int, true, l2),
                        );
                    }
                    ast.body.push(f);
                    proof {
                        assert(asts_view(ast.body@) =~= asts_view(done).push(ast.body@.last()@));
                    }
                },
                TokenType::Identifier => {
                    let c = match self.parse_fn_call() {
                        Ok(c) => c,
                        Err(e) => {
                            return Err(e);
                        },
                    };
                    proof {
                        assert(c@.body =~= Seq::<AstView>::empty());
                        assert(c@ =~~= leaf_node(c@.type_));
                        lemma_prepend_shift(
                            asts_view(done),
                            c@,
                            spec_parse_stmts(toks, self.current_position as int, true, l2),
                        );
                    }
                    ast.body.push(c);
                    proof {
                        assert(asts_view(ast.body@) =~= asts_view(done).push(ast.body@.last()@));
                    }
                },
                TokenType::OpenCurlyBracket => {
                    let b = match self.parse_block() {
                        Ok(b) => b,
                        Err(e) => {
                            return Err(e);
                        },
                    };
                    proof {
                        assert(bump(p, self.current_position as int, toks.len() as int)
                            == self.current_position as int);
                        lemma_prepend_shift(
                            asts_view(done),
                            b@,
                            spec_parse_stmts(toks, self.current_position as int, true, l2),
                        );
                    }
                    ast.body.push(b);
                    proof {
                        assert(asts_view(ast.body@) =~= asts_view(done).push(ast.body@.last()@));
                    }
                },
                TokenType::Keyword(KeyWords::Return) => {
                    let ret = match self.parse_return() {
                        Ok(v) => v,
                        Err(e) => {
                            return Err(e);
                        },
                    };
                    let ghost rv = ret@;
                    let node = Ast::new(Type::Return(ret));
                    proof {
                        assert(node@.type_ == crate::ast::type_view(node.type_));
                        assert(node.type_ matches Type::Return(u) && u@ == rv);
                        assert(node@.type_ == TypeView::Return(rv));
                        assert(node@.body =~= Seq::<AstView>::empty());
                        assert(node@ =~~= leaf_node(TypeView::Return(rv)));
                        lemma_prepend_shift(
                            asts_view(done),
                            node@,
                            spec_parse_stmts(toks, self.current_position as int, true, l2),
                        );
                    }
                    ast.body.push(node);
                    proof {
                        assert(asts_view(ast.body@) =~= asts_view(done).push(node@));
                    }
                },
                TokenType::Keyword(KeyWords::If) => {
                    let logic = match self.parse_statement() {
                        Ok(l) => l,
                        Err(e) => {
                            return Err(e);
                        },
                    };
                    let ghost lv = logic@;
                    let node = Ast::new(Type::Logic(logic));
                    proof {
                        assert(bump(p, self.current_position as int, toks.len() as int)
                            == self.current_position as int);
                        assert(node@.type_ == crate::ast::type_view(node.type_));
                        assert(node.type_ matches Type::Logic(u) && u@ == lv);
                        assert(node@.type_ == TypeView::Logic(lv));
                        assert(node@.body =~= Seq::<AstView>::empty());
                        assert(node@ =~~= leaf_node(TypeView::Logic(lv)));
                        lemma_prepend_shift(
                            asts_view(done),
                            node@,
                            spec_parse_stmts(toks, self.current_position as int, true, l2),
                        );
                    }
                    ast.body.push(node);
                    proof {
                        assert(asts_view(ast.body@) =~= asts_view(done).push(node@));
                    }
                },
                TokenType::CloseCurlyBracket => {
                    proof {
                        assert(ast@.type_ == crate::ast::type_view(ast.type_));
                        crate::ast::lemma_ast_view_body(ast);
                        assert(ast@.body =~= asts_view(ast.body@));
                        assert(asts_view(ast.body@) + Seq::<AstView>::empty() =~= asts_view(
                            ast.body@,
                        ));
                    }
                    return Ok(ast);
                },
                TokenType::Comment => {},
                _ => {
                    let e = crate::errors::invalid_var_syntax_token(token);
                    proof {
                        assert(e@ =~= ev_var_syntax(toks[p]));
                    }
                    return Err(e);
                },
            }
        }
    }

    /// Read a whole program: top-level statements until the token stream
    /// is exhausted, exactly as [`spec_parse`] describes.
    #[verifier::loop_isolation(false)]
    #[verifier::rlimit(100)]
    #[verifier::spinoff_prover]
    pub fn parse(&mut self) -> (r: Result<Ast, ErrorBuilder>)
        ensures
            final(self).tokens == old(self).tokens,
            match spec_parse(toks_of(*old(self)), old(self).current_position as int) {
                Ok((node, p2)) => r is Ok && r->Ok_0@ == node && final(self).current_position
                    == p2,
                Err(e) => r is Err && r->Err_0@ == e,
            },
        decreases old(self).tokens@.len() - old(self).current_position,
    {
        let ghost toks = toks_of(*old(self));
        let ghost start = old(self).current_position as int;
        let ghost mut gl: nat = 0;
        let mut ast = Ast::new(Type::Program);
        proof {
            assert(asts_view(ast.body@) =~= Seq::<AstView>::empty());
            lemma_prepend_nil(spec_parse_stmts(toks, start, false, 0));
        }
        loop
            invariant
                self.tokens == old(self).tokens,
                old(self).current_position <= self.current_position,
                self.current_position <= self.tokens@.len() || self.current_position == old(
                    self,
                ).current_position,
                ast.type_ == Type::Program,
                spec_parse_stmts(toks, start, false, 0) == prepend_stmts(
                    asts_view(ast.body@),
                    spec_parse_stmts(toks, self.current_position as int, false, gl),
                ),
            decreases self.tokens@.len() - self.current_position,
        {
            let ghost p = self.current_position as int;
            let ghost done = ast.body@;
            let token = match self.next() {
                Some(t) => t,
                None => {
                    proof {
                        assert(ast@.type_ == crate::ast::type_view(ast.type_));
                        crate::ast::lemma_ast_view_body(ast);
                        assert(ast@.body =~= asts_view(ast.body@));
                        assert(asts_view(ast.body@) + Seq::<AstView>::empty() =~= asts_view(
                            ast.body@,
                        ));
                    }
                    return Ok(ast);
                },
            };
            proof {
                gl = token@.line;
            }
            let ghost l2 = token@.line;
            match token.token_type {
                TokenType::Keyword(KeyWords::Use) => {
                    let use_ = match self.parse_use() {
                        Ok(u) => u,
                        Err(e) => {
                            return Err(e);
                        },
                    };
                    let ghost uv = use_@;
                    let node = Ast::new(Type::Use(use_));
                    proof {
                        assert(node@.type_ == crate::ast::type_view(node.type_));
                        assert(node.type_ matches Type::Use(u) && u@ == uv);
                        assert(node@.type_ == TypeView::Use(uv));
                        assert(node@.body =~= Seq::<AstView>::empty());
                        assert(node@ =~~= leaf_node(TypeView::Use(uv)));
                        lemma_prepend_shift(
                            asts_view(done),
                            node@,
                            spec_parse_stmts(toks, self.current_position as int, false, l2),
                        );
                    }
                    ast.body.push(node);
                    proof {
                        assert(asts_view(ast.body@) =~= asts_view(done).push(node@));
                    }
                },
                TokenType::Keyword(KeyWords::Let) => {
                    let var = match self.parse_var() {
                        Ok(v) => v,
                        Err(e) => {
                            return Err(e);
                        },
                    };
                    let ghost vv = var@;
                    let node = Ast::new(Type::Variable(var));
                    proof {
                        assert(node@.type_ == crate::ast::type_view(node.type_));
                        assert(node.type_ matches Type::Variable(u) && u@ == vv);
                        assert(node@.type_ == TypeView::Variable(vv));
                        assert(node@.body =~= Seq::<AstView>::empty());
                        assert(node@ =~~= leaf_node(TypeView::Variable(vv)));
                        lemma_prepend_shift(
                            asts_view(done),
                            node@,
                            spec_parse_stmts(toks, self.current_position as int, false, l2),
                        );
                    }
                    ast.body.push(node);
                    proof {
                        assert(asts_view(ast.body@) =~= asts_view(done).push(node@));
                    }
                },
                TokenType::Keyword(KeyWords::Fn) => {
                    let f = match self.parse_fn() {
                        Ok(f) => f,
                        Err(e) => {
                            return Err(e);
                        },
                    };
                    proof {
                        assert(bump(p, self.current_position as int, toks.len() as int)
                            == self.current_position as int);
                        lemma_prepend_shift(
                            asts_view(done),
                            f@,
                            spec_parse_stmts(toks, self.current_position as int, false, l2),
                        );
                    }
                    ast.body.push(f);
                    proof {
                        assert(asts_view(ast.body@) =~= asts_view(done).push(ast.body@.last()@));
                    }
                },
                TokenType::OpenCurlyBracket => {
                    let b = match self.parse_block() {
                        Ok(b) => b,
                        Err(e) => {
                            return Err(e);
                        },
                    };
                    proof {
                        assert(bump(p, self.current_position as int, toks.len() as int)
                            == self.current_position as int);
                        lemma_prepend_shift(
                            asts_view(done),
                            b@,
                            spec_parse_stmts(toks, self.current_position as int, false, l2),
                        );
                    }
                    ast.body.push(b);
                    proof {
                        assert(asts_view(ast.body@) =~= asts_view(done).push(ast.body@.last()@));
                    }
                },
                TokenType::Identifier => {
                    let c = match self.parse_fn_call() {
                        Ok(c) => c,
                        Err(e) => {
                            return Err(e);
                        },
                    };
                    proof {
                        assert(c@.body =~= Seq::<AstView>::empty());
                        assert(c@ =~~= leaf_node(c@.type_));
                        lemma_prepend_shift(
                            asts_view(done),
                            c@,
                            spec_parse_stmts(toks, self.current_position as int, false, l2),
                        );
                    }
                    ast.body.push(c);
                    proof {
                        assert(asts_view(ast.body@) =~= asts_view(done).push(ast.body@.last()@));
                    }
                },
                TokenType::Comment => {},
                _ => {
                    let e = crate::errors::invalid_var_syntax_token(token);
                    proof {
                        assert(e@ =~= ev_var_syntax(toks[p]));
                    }
                    return Err(e);
                },
            }
        }
    }
}

} // verus!
