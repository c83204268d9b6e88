//! The abstract syntax tree: values, variables, arguments, functions,
//! returns, conditionals, use statements, and the universal `Ast` node,
//! together with the mathematical views of each and the assign-once
//! builders that the parser relies on.

use vstd::prelude::*;

use crate::errors::ErrorBuilder;
use crate::text::{all_digits, digits_val, str_eq, try_parse_i32};

verus! {

/// The declared kind of a function argument. `None` marks an untyped
/// (positional identifier) argument and the builder's unset state.
#[derive(Debug, PartialEq, Eq, Clone, Copy, Structural)]
pub enum TypesArg {
    String,
    Number,
    Nothing,
}

/// The declared return kind of a function or return statement. `None`
/// marks a void return and the builder's unset state.
#[derive(Debug, PartialEq, Eq, Clone, Copy, Structural)]
pub enum ReturnTypes {
    Number,
    String,
    Identifier,
    Nothing,
}

/// A function parameter or call argument: its text and its kind.
#[derive(Debug, PartialEq)]
pub struct Arg {
    pub value: String,
    pub type_: TypesArg,
}

/// Mathematical model of an argument.
#[verifier::ext_equal]
pub struct ArgView {
    pub value: Seq<char>,
    pub type_: TypesArg,
}

/// The view of one argument.
pub open spec fn arg_view(a: Arg) -> ArgView {
    ArgView { value: a.value@, type_: a.type_ }
}

/// The views of a sequence of arguments.
pub open spec fn args_view(s: Seq<Arg>) -> Seq<ArgView> {
    Seq::new(s.len(), |i: int| arg_view(s[i]))
}

impl View for Arg {
    type V = ArgView;

    open spec fn view(&self) -> ArgView {
        arg_view(*self)
    }
}

impl Clone for Arg {
    /// Clone the argument, keeping its text and kind.
    fn clone(&self) -> (r: Self)
        ensures
            r@ == self@,
    {
        Arg { value: self.value.clone(), type_: self.type_ }
    }
}

impl Arg {
    /// An argument with no text and no kind yet.
    pub fn new() -> (r: Arg)
        ensures
            r@.value.len() == 0,
            r@.type_ == TypesArg::Nothing,
    {
        Arg { value: String::new(), type_: TypesArg::Nothing }
    }

    /// Assign the argument's text. The text is assigned exactly once: a
    /// second assignment is refused and leaves the first intact.
    pub fn assign_value(&mut self, value: String) -> (r: Result<(), &'static str>)
        ensures
            old(self)@.value.len() == 0 ==> r is Ok && final(self)@ == (ArgView {
                value: value@,
                ..old(self)@
            }),
            old(self)@.value.len() > 0 ==> r is Err && final(self)@ == old(self)@,
    {
        if !self.value.as_str().is_empty() {
            return Err("This argument already has a value");
        }
        self.value = value;
        Ok(())
    }

    /// Assign the argument's kind. The kind is assigned exactly once: a
    /// second assignment is refused and leaves the first intact.
    pub fn assign_type(&mut self, value: TypesArg) -> (r: Result<(), &'static str>)
        ensures
            old(self)@.type_ == TypesArg::Nothing ==> r is Ok && final(self)@ == (ArgView {
                type_: value,
                ..old(self)@
            }),
            old(self)@.type_ != TypesArg::Nothing ==> r is Err && final(self)@ == old(self)@,
    {
        if self.type_ != TypesArg::Nothing {
            return Err("This argument already has a type");
        }
        self.type_ = value;
        Ok(())
    }

    /// Clear the argument's text.
    pub fn clear_value(&mut self)
        ensures
            final(self)@.value.len() == 0,
            final(self)@.type_ == old(self)@.type_,
    {
        self.value = String::new();
    }

    /// Clear the argument's kind.
    pub fn clear_type(&mut self)
        ensures
            final(self)@.type_ == TypesArg::Nothing,
            final(self)@.value == old(self)@.value,
    {
        self.type_ = TypesArg::Nothing;
    }
}

/// A return statement: the returned text, its kind, and its source line.
#[derive(Debug, PartialEq)]
pub struct Return {
    pub value: String,
    pub type_: ReturnTypes,
    pub line: usize,
}

/// Mathematical model of a return statement.
#[verifier::ext_equal]
pub struct ReturnView {
    pub value: Seq<char>,
    pub type_: ReturnTypes,
    pub line: nat,
}

impl View for Return {
    type V = ReturnView;

    open spec fn view(&self) -> ReturnView {
        ReturnView { value: self.value@, type_: self.type_, line: self.line as nat }
    }
}

impl Clone for Return {
    /// Clone the return statement, keeping every field.
    fn clone(&self) -> (r: Self)
        ensures
            r@ == self@,
    {
        Return { value: self.value.clone(), type_: self.type_, line: self.line }
    }
}

/// A use statement: the path of the source file it brings in.
#[derive(Debug, PartialEq)]
pub struct Use(pub String);

impl View for Use {
    type V = Seq<char>;

    open spec fn view(&self) -> Seq<char> {
        self.0@
    }
}

impl Clone for Use {
    /// Clone the use statement, keeping its path.
    fn clone(&self) -> (r: Self)
        ensures
            r@ == self@,
    {
        Use(self.0.clone())
    }
}

/// The position of the last `/` in `s`, or -1 if there is none.
pub open spec fn last_slash(s: Seq<char>) -> int
    decreases s.len(),
{
    if s.len() == 0 {
        -1
    } else if s.last() == '/' {
        s.len() - 1
    } else {
        last_slash(s.drop_last())
    }
}

/// Whether the final component of the path `s` ends in the extension
/// `.lp` with a nonempty stem.
pub open spec fn valid_lp_ext(s: Seq<char>) -> bool {
    let k = last_slash(s);
    let n = s.len() as int;
    &&& n - (k + 1) >= 4
    &&& s[n - 3] == '.'
    &&& s[n - 2] == 'l'
    &&& s[n - 1] == 'p'
}

impl Use {
    /// A use statement for the given path.
    pub fn new(file_name: String) -> (r: Use)
        ensures
            r@ == file_name@,
    {
        Use(file_name)
    }

    /// Whether the path's final component ends in the extension `.lp`
    /// with a nonempty stem.
    pub fn valide_ext(&self) -> (r: bool)
        ensures
            r == valid_lp_ext(self@),
    {
        let cs = crate::text::str_chars(self.0.as_str());
        let ghost s = self@;
        let n = cs.len();
        let mut k: usize = n;
        proof {
            assert(s.subrange(0, n as int) =~= s);
        }
        while k > 0 && cs[k - 1] != '/'
            invariant
                k <= n,
                cs@ == s,
                n == s.len(),
                last_slash(s) == last_slash(s.subrange(0, k as int)),
                forall|j: int| k <= j < n ==> s[j] != '/',
            decreases k,
        {
            proof {
                assert(s.subrange(0, k as int).last() == s[k - 1]);
                assert(s.subrange(0, k as int).drop_last() =~= s.subrange(0, k - 1 as int));
            }
            k = k - 1;
        }
        proof {
            if k == 0 {
                assert(s.subrange(0, 0) =~= Seq::<char>::empty());
                assert(last_slash(s) == -1);
            } else {
                assert(s.subrange(0, k as int).last() == s[k - 1]);
                assert(last_slash(s) == k - 1);
            }
        }
        if n - k < 4 {
            return false;
        }
        cs[n - 3] == '.' && cs[n - 2] == 'l' && cs[n - 1] == 'p'
    }

    /// Whether the use statement refers to a source file that can be
    /// brought in: the caller says whether the file exists, and the path
    /// must carry the `.lp` extension.
    pub fn validate(&self, exists: bool) -> (r: bool)
        ensures
            r == (exists && valid_lp_ext(self@)),
    {
        exists && self.valide_ext()
    }
}

/// The use statements collected from a program.
#[derive(Debug, PartialEq)]
pub struct Used(pub Vec<Use>);

/// A compiled use statement: the file it came from and the compiled
/// contents handed back by the backend.
pub struct UsedCompiled {
    pub file_name: String,
    pub contents: String,
}

impl UsedCompiled {
    /// Pair a file name with its compiled contents.
    pub fn new(file_name: String, contents: String) -> (r: UsedCompiled)
        ensures
            r.file_name@ == file_name@,
            r.contents@ == contents@,
    {
        UsedCompiled { file_name, contents }
    }
}

/// A value appearing in source: a literal, a reference, an array, a call,
/// or the builder's unset state.
#[derive(Debug, PartialEq)]
pub enum TypeVar {
    Arr { values: Vec<TypeVar> },
    Number(i32),
    String(String),
    Identifier(String),
    FunctionCall(Func),
    Nothing,
}

/// A variable: its name, its value and its source line.
#[derive(Debug, PartialEq)]
pub struct Variable {
    pub name: String,
    pub type_: TypeVar,
    pub line: usize,
}

/// A function declaration or call: its name, its arguments, its body (a
/// declaration with no body is a forward declaration; a call carries no
/// body), its return kind and its source line.
#[derive(Debug, PartialEq)]
pub struct Func {
    pub name: String,
    pub args: Vec<Arg>,
    pub body: Option<Box<Ast>>,
    pub return_type: ReturnTypes,
    pub line: usize,
}

/// One comparison of a conditional, carrying its two operands. `None` is
/// the builder's unset state.
#[derive(Debug, PartialEq)]
pub enum Case {
    EqEq(TypeVar, TypeVar),
    More(TypeVar, TypeVar),
    MoreEq(TypeVar, TypeVar),
    Less(TypeVar, TypeVar),
    LessEq(TypeVar, TypeVar),
    Nothing,
}

/// A conditional: its comparisons, its then branch and its optional else
/// branch.
#[derive(Debug, PartialEq)]
pub struct Logic {
    pub if_: Vec<Case>,
    pub do_: Box<Ast>,
    pub else_: Option<Box<Ast>>,
}

/// What an `Ast` node is: the program root, a block, or one of the
/// statement forms.
#[derive(Debug, PartialEq)]
pub enum Type {
    Program,
    ConstVar(Variable),
    Variable(Variable),
    Function(Func),
    FunctionCall(Func),
    Block,
    Return(Return),
    Use(Use),
    Logic(Logic),
}

/// The universal syntax-tree node: what it is, and the nodes it owns.
#[derive(Debug, PartialEq)]
pub struct Ast {
    pub type_: Type,
    pub body: Vec<Ast>,
}

/// Mathematical model of a value.
#[verifier::ext_equal]
pub enum TypeVarView {
    Arr { values: Seq<TypeVarView> },
    Number(int),
    String(Seq<char>),
    Identifier(Seq<char>),
    FunctionCall(FuncView),
    Nothing,
}

/// Mathematical model of a variable.
#[verifier::ext_equal]
pub struct VariableView {
    pub name: Seq<char>,
    pub type_: TypeVarView,
    pub line: nat,
}

/// Mathematical model of a function.
#[verifier::ext_equal]
pub struct FuncView {
    pub name: Seq<char>,
    pub args: Seq<ArgView>,
    pub body: Option<Box<AstView>>,
    pub return_type: ReturnTypes,
    pub line: nat,
}

/// Mathematical model of one comparison.
#[verifier::ext_equal]
pub enum CaseView {
    EqEq(TypeVarView, TypeVarView),
    More(TypeVarView, TypeVarView),
    MoreEq(TypeVarView, TypeVarView),
    Less(TypeVarView, TypeVarView),
    LessEq(TypeVarView, TypeVarView),
    Nothing,
}

/// Mathematical model of a conditional.
#[verifier::ext_equal]
pub struct LogicView {
    pub if_: Seq<CaseView>,
    pub do_: Box<AstView>,
    pub else_: Option<Box<AstView>>,
}

/// Mathematical model of what a node is.
#[verifier::ext_equal]
pub enum TypeView {
    Program,
    ConstVar(VariableView),
    Variable(VariableView),
    Function(FuncView),
    FunctionCall(FuncView),
    Block,
    Return(ReturnView),
    Use(Seq<char>),
    Logic(LogicView),
}

/// Mathematical model of a syntax-tree node.
#[verifier::ext_equal]
pub struct AstView {
    pub type_: TypeView,
    pub body: Seq<AstView>,
}

/// The view of a value.
pub open spec fn typevar_view(v: TypeVar) -> TypeVarView
    decreases v,
{
    match v {
        TypeVar::Arr { values } => TypeVarView::Arr {
            values: Seq::new(
                values@.len(),
                |i: int|
                    if 0 <= i < values@.len() {
                        typevar_view(values@[i])
                    } else {
                        vstd::pervasive::arbitrary()
                    },
            ),
        },
        TypeVar::Number(n) => TypeVarView::Number(n as int),
        TypeVar::String(s) => TypeVarView::String(s@),
        TypeVar::Identifier(s) => TypeVarView::Identifier(s@),
        TypeVar::FunctionCall(f) => TypeVarView::FunctionCall(func_view(f)),
        TypeVar::Nothing => TypeVarView::Nothing,
    }
}

/// The view of a variable.
pub open spec fn variable_view(v: Variable) -> VariableView
    decreases v,
{
    VariableView { name: v.name@, type_: typevar_view(v.type_), line: v.line as nat }
}

/// The view of a function.
pub open spec fn func_view(f: Func) -> FuncView
    decreases f,
{
    FuncView {
        name: f.name@,
        args: args_view(f.args@),
        body: match f.body {
            Some(b) => Some(Box::new(ast_view(*b))),
            None => None,
        },
        return_type: f.return_type,
        line: f.line as nat,
    }
}

/// The view of one comparison.
pub open spec fn case_view(c: Case) -> CaseView
    decreases c,
{
    match c {
        Case::EqEq(a, b) => CaseView::EqEq(typevar_view(a), typevar_view(b)),
        Case::More(a, b) => CaseView::More(typevar_view(a), typevar_view(b)),
        Case::MoreEq(a, b) => CaseView::MoreEq(typevar_view(a), typevar_view(b)),
        Case::Less(a, b) => CaseView::Less(typevar_view(a), typevar_view(b)),
        Case::LessEq(a, b) => CaseView::LessEq(typevar_view(a), typevar_view(b)),
        Case::Nothing => CaseView::Nothing,
    }
}

/// The view of a conditional.
pub open spec fn logic_view(l: Logic) -> LogicView
    decreases l,
{
    LogicView {
        if_: Seq::new(
            l.if_@.len(),
            |i: int|
                if 0 <= i < l.if_@.len() {
                    case_view(l.if_@[i])
                } else {
                    vstd::pervasive::arbitrary()
                },
        ),
        do_: Box::new(ast_view(*l.do_)),
        else_: match l.else_ {
            Some(b) => Some(Box::new(ast_view(*b))),
            None => None,
        },
    }
}

/// The view of what a node is.
pub open spec fn type_view(t: Type) -> TypeView
    decreases t,
{
    match t {
        Type::Program => TypeView::Program,
        Type::ConstVar(v) => TypeView::ConstVar(variable_view(v)),
        Type::Variable(v) => TypeView::Variable(variable_view(v)),
        Type::Function(f) => TypeView::Function(func_view(f)),
        Type::FunctionCall(f) => TypeView::FunctionCall(func_view(f)),
        Type::Block => TypeView::Block,
        Type::Return(r) => TypeView::Return(r@),
        Type::Use(u) => TypeView::Use(u@),
        Type::Logic(l) => TypeView::Logic(logic_view(l)),
    }
}

/// The view of a node.
pub open spec fn ast_view(a: Ast) -> AstView
    decreases a,
{
    AstView {
        type_: type_view(a.type_),
        body: Seq::new(
            a.body@.len(),
            |i: int|
                if 0 <= i < a.body@.len() {
                    ast_view(a.body@[i])
                } else {
                    vstd::pervasive::arbitrary()
                },
        ),
    }
}

impl View for TypeVar {
    type V = TypeVarView;

    open spec fn view(&self) -> TypeVarView {
        typevar_view(*self)
    }
}

impl View for Variable {
    type V = VariableView;

    open spec fn view(&self) -> VariableView {
        variable_view(*self)
    }
}

impl View for Func {
    type V = FuncView;

    open spec fn view(&self) -> FuncView {
        func_view(*self)
    }
}

impl View for Case {
    type V = CaseView;

    open spec fn view(&self) -> CaseView {
        case_view(*self)
    }
}

impl View for Logic {
    type V = LogicView;

    open spec fn view(&self) -> LogicView {
        logic_view(*self)
    }
}

impl View for Type {
    type V = TypeView;

    open spec fn view(&self) -> TypeView {
        type_view(*self)
    }
}

impl View for Ast {
    type V = AstView;

    open spec fn view(&self) -> AstView {
        ast_view(*self)
    }
}

/// The views of a sequence of nodes.
pub open spec fn asts_view(s: Seq<Ast>) -> Seq<AstView> {
    Seq::new(s.len(), |i: int| s[i]@)
}

/// The views of a sequence of comparisons.
pub open spec fn cases_view(s: Seq<Case>) -> Seq<CaseView> {
    Seq::new(s.len(), |i: int| s[i]@)
}

impl Clone for TypeVar {
    /// Clone the value, keeping what it holds.
    #[verifier::loop_isolation(false)]
    fn clone(&self) -> (r: Self)
        ensures
            r@ == self@,
        decreases self,
    {
        match self {
            TypeVar::Arr { values } => {
                let mut out: Vec<TypeVar> = Vec::new();
                let mut i: usize = 0;
                while i < values.len()
                    invariant
                        i <= values@.len(),
                        out@.len() == i,
                        forall|j: int| 0 <= j < i ==> out@[j]@ == values@[j]@,
                    decreases values@.len() - i,
                {
                    proof {
                        assert((*self)->values == *values);
                        assert(decreases_to!(*self => (*self)->values@[i as int]));
                    }
                    out.push(values[i].clone());
                    i += 1;
                }
                let r = TypeVar::Arr { values: out };
                proof {
                    assert(r@->values =~= (*self)@->values);
                    assert(r@ =~= (*self)@);
                }
                r
            },
            TypeVar::Number(n) => TypeVar::Number(*n),
            TypeVar::String(s) => TypeVar::String(s.clone()),
            TypeVar::Identifier(s) => TypeVar::Identifier(s.clone()),
            TypeVar::FunctionCall(f) => TypeVar::FunctionCall(f.clone()),
            TypeVar::Nothing => TypeVar::Nothing,
        }
    }
}

impl Clone for Variable {
    /// Clone the variable, keeping every field.
    fn clone(&self) -> (r: Self)
        ensures
            r@ == self@,
        decreases self,
    {
        Variable { name: self.name.clone(), type_: self.type_.clone(), line: self.line }
    }
}

impl Clone for Func {
    /// Clone the function, keeping every field.
    fn clone(&self) -> (r: Self)
        ensures
            r@ == self@,
        decreases self,
    {
        let mut args: Vec<Arg> = Vec::new();
        let mut i: usize = 0;
        while i < self.args.len()
            invariant
                i <= self.args@.len(),
                args@.len() == i,
                forall|j: int| 0 <= j < i ==> args@[j]@ == self.args@[j]@,
            decreases self.args@.len() - i,
        {
            args.push(self.args[i].clone());
            i += 1;
        }
        let body: Option<Box<Ast>> = match &self.body {
            Some(b) => Some(Box::new((**b).clone())),
            None => None,
        };
        let r = Func {
            name: self.name.clone(),
            args,
            body,
            return_type: self.return_type,
            line: self.line,
        };
        proof {
            assert(r@.args =~= (*self)@.args);
            assert(r@ =~= (*self)@);
        }
        r
    }
}

impl Clone for Case {
    /// Clone the comparison, keeping its operands.
    fn clone(&self) -> (r: Self)
        ensures
            r@ == self@,
        decreases self,
    {
        match self {
            Case::EqEq(a, b) => Case::EqEq(a.clone(), b.clone()),
            Case::More(a, b) => Case::More(a.clone(), b.clone()),
            Case::MoreEq(a, b) => Case::MoreEq(a.clone(), b.clone()),
            Case::Less(a, b) => Case::Less(a.clone(), b.clone()),
            Case::LessEq(a, b) => Case::LessEq(a.clone(), b.clone()),
            Case::Nothing => Case::Nothing,
        }
    }
}

impl Clone for Logic {
    /// Clone the conditional, keeping its comparisons and branches.
    fn clone(&self) -> (r: Self)
        ensures
            r@ == self@,
        decreases self,
    {
        let mut cases: Vec<Case> = Vec::new();
        let mut i: usize = 0;
        while i < self.if_.len()
            invariant
                i <= self.if_@.len(),
                cases@.len() == i,
                forall|j: int| 0 <= j < i ==> cases@[j]@ == self.if_@[j]@,
            decreases self.if_@.len() - i,
        {
            cases.push(self.if_[i].clone());
            i += 1;
        }
        let else_: Option<Box<Ast>> = match &self.else_ {
            Some(b) => Some(Box::new((**b).clone())),
            None => None,
        };
        let r = Logic { if_: cases, do_: Box::new((*self.do_).clone()), else_ };
        proof {
            assert(r@.if_ =~= (*self)@.if_);
            assert(r@ =~= (*self)@);
        }
        r
    }
}

impl Clone for Type {
    /// Clone what the node is, keeping what it holds.
    fn clone(&self) -> (r: Self)
        ensures
            r@ == self@,
        decreases self,
    {
        match self {
            Type::Program => Type::Program,
            Type::ConstVar(v) => Type::ConstVar(v.clone()),
            Type::Variable(v) => Type::Variable(v.clone()),
            Type::Function(f) => Type::Function(f.clone()),
            Type::FunctionCall(f) => Type::FunctionCall(f.clone()),
            Type::Block => Type::Block,
            Type::Return(r) => Type::Return(r.clone()),
            Type::Use(u) => Type::Use(u.clone()),
            Type::Logic(l) => Type::Logic(l.clone()),
        }
    }
}

impl Clone for Ast {
    /// Clone the node and everything it owns.
    fn clone(&self) -> (r: Self)
        ensures
            r@ == self@,
        decreases self,
    {
        let mut body: Vec<Ast> = Vec::new();
        let mut i: usize = 0;
        while i < self.body.len()
            invariant
                i <= self.body@.len(),
                body@.len() == i,
                forall|j: int| 0 <= j < i ==> body@[j]@ == self.body@[j]@,
            decreases self.body@.len() - i,
        {
            body.push(self.body[i].clone());
            i += 1;
        }
        let r = Ast { type_: self.type_.clone(), body };
        proof {
            assert(r@.body =~= (*self)@.body);
            assert(r@ =~= (*self)@);
        }
        r
    }
}

/// Whether some argument of `args` is untyped and holds the text `name`:
/// how a call mentions a plain identifier.
pub open spec fn fargs_use(args: Seq<ArgView>, name: Seq<char>) -> bool {
    exists|i: int|
        0 <= i < args.len() && args[i].type_ == TypesArg::Nothing && args[i].value == name
}

/// Whether the value `v` mentions the name: it is that identifier, an
/// array with an element that mentions it, or a call with an untyped
/// argument holding it.
pub open spec fn tv_uses(v: TypeVarView, name: Seq<char>) -> bool
    decreases v,
{
    match v {
        TypeVarView::Identifier(value) => value == name,
        TypeVarView::Arr { values } => exists|i: int|
            0 <= i < values.len() && tv_uses(values[i], name),
        TypeVarView::FunctionCall(f) => fargs_use(f.args, name),
        _ => false,
    }
}

impl TypeVar {
    /// Whether the value is the builder's unset state.
    pub fn is_none(&self) -> (r: bool)
        ensures
            r == (self@ matches TypeVarView::Nothing),
    {
        match self {
            TypeVar::Nothing => true,
            _ => false,
        }
    }

    /// Read a number value from a decimal integer literal, sign
    /// included.
    pub fn parse_number(num: String) -> (r: Self)
        requires
            crate::text::int_str_ok(num@),
        ensures
            r@ == TypeVarView::Number(crate::text::int_str_val(num@)),
    {
        match crate::text::try_parse_i32_signed(num.as_str()) {
            Some(n) => TypeVar::Number(n),
            None => {
                assert(false);
                TypeVar::Nothing
            },
        }
    }

    /// Whether this value mentions the name.
    #[verifier::loop_isolation(false)]
    pub fn uses(&self, uses: &str) -> (r: bool)
        ensures
            r == tv_uses(self@, uses@),
        decreases self,
    {
        match self {
            TypeVar::Identifier(value) => str_eq(value.as_str(), uses),
            TypeVar::Arr { values } => {
                let mut i: usize = 0;
                while i < values.len()
                    invariant
                        i <= values@.len(),
                        forall|j: int| 0 <= j < i ==> !tv_uses(values@[j]@, uses@),
                    decreases values@.len() - i,
                {
                    proof {
                        assert((*self)->values == *values);
                        assert(decreases_to!(*self => (*self)->values@[i as int]));
                    }
                    if values[i].uses(uses) {
                        assert(tv_uses((*self)@, uses@)) by {
                            assert(self@->values[i as int] == values@[i as int]@);
                        }
                        return true;
                    }
                    i += 1;
                }
                assert(!tv_uses((*self)@, uses@)) by {
                    assert(forall|j: int|
                        0 <= j < values@.len() ==> self@->values[j] == values@[j]@);
                }
                false
            },
            TypeVar::FunctionCall(func) => func.args_uses(uses),
            _ => false,
        }
    }
}

impl Func {
    /// Remove and return the argument at `i`, or nothing when `i` is out
    /// of range.
    pub fn remove_arg_at_index(&mut self, i: usize) -> (r: Option<Arg>)
        ensures
            i < old(self)@.args.len() ==> {
                &&& r is Some
                &&& r->0@ == old(self)@.args[i as int]
                &&& final(self)@ == (FuncView {
                    args: old(self)@.args.remove(i as int),
                    ..old(self)@
                })
            },
            i >= old(self)@.args.len() ==> r is None && final(self)@ == old(self)@,
    {
        if i >= self.args.len() {
            return None;
        }
        let arg = self.args.remove(i);
        proof {
            assert(final(self)@.args =~= old(self)@.args.remove(i as int));
            assert(final(self)@ =~= (FuncView {
                args: old(self)@.args.remove(i as int),
                ..old(self)@
            }));
        }
        Some(arg)
    }

    /// The position of the first argument whose text is `value`, if any.
    pub fn get_arg_index_(&self, value: &str) -> (r: Option<u32>)
        requires
            self@.args.len() <= u32::MAX,
        ensures
            match r {
                Some(i) => i < self@.args.len() && self@.args[i as int].value == value@
                    && forall|j: int| 0 <= j < i ==> self@.args[j].value != value@,
                None => forall|j: int| 0 <= j < self@.args.len() ==> self@.args[j].value != value@,
            },
    {
        let mut i: usize = 0;
        while i < self.args.len()
            invariant
                i <= self.args@.len(),
                self.args@.len() <= u32::MAX,
                forall|j: int| 0 <= j < i ==> self@.args[j].value != value@,
            decreases self.args@.len() - i,
        {
            if str_eq(self.args[i].value.as_str(), value) {
                return Some(i as u32);
            }
            i += 1;
        }
        None
    }

    /// Whether some untyped argument of this function holds the text
    /// `value`.
    pub fn args_uses(&self, value: &str) -> (r: bool)
        ensures
            r == fargs_use(self@.args, value@),
    {
        let mut i: usize = 0;
        while i < self.args.len()
            invariant
                i <= self.args@.len(),
                forall|j: int| 0 <= j < i ==> !(self@.args[j].type_ == TypesArg::Nothing
                    && self@.args[j].value == value@),
            decreases self.args@.len() - i,
        {
            let a = &self.args[i];
            if a.type_ == TypesArg::Nothing && str_eq(a.value.as_str(), value) {
                assert(self@.args[i as int].type_ == TypesArg::Nothing && self@.args[i as int].value
                    == value@);
                return true;
            }
            i += 1;
        }
        false
    }
}

impl TypesArg {
    /// The value that stands for an argument of this kind: an empty
    /// string, the number zero, or the unset value.
    pub fn into_type_var(self) -> (r: TypeVar)
        ensures
            self == TypesArg::String ==> r@ == TypeVarView::String(Seq::<char>::empty()),
            self == TypesArg::Number ==> r@ == TypeVarView::Number(0),
            self == TypesArg::Nothing ==> r@ == TypeVarView::Nothing,
    {
        match self {
            TypesArg::String => TypeVar::String(String::new()),
            TypesArg::Number => TypeVar::Number(0),
            TypesArg::Nothing => TypeVar::Nothing,
        }
    }
}

impl Case {
    /// The same comparison with its operands replaced by `one` and
    /// `two`; the unset comparison stays unset.
    pub fn assign(&self, one: TypeVar, two: TypeVar) -> (r: Case)
        ensures
            r@ == (match self@ {
                CaseView::EqEq(_, _) => CaseView::EqEq(one@, two@),
                CaseView::More(_, _) => CaseView::More(one@, two@),
                CaseView::MoreEq(_, _) => CaseView::MoreEq(one@, two@),
                CaseView::Less(_, _) => CaseView::Less(one@, two@),
                CaseView::LessEq(_, _) => CaseView::LessEq(one@, two@),
                CaseView::Nothing => CaseView::Nothing,
            }),
    {
        match self {
            Case::MoreEq(_, _) => Case::MoreEq(one, two),
            Case::EqEq(_, _) => Case::EqEq(one, two),
            Case::More(_, _) => Case::More(one, two),
            Case::LessEq(_, _) => Case::LessEq(one, two),
            Case::Less(_, _) => Case::Less(one, two),
            Case::Nothing => Case::Nothing,
        }
    }

    /// The comparison denoted by an operator token, with unset operands.
    /// A plain `=` and an invalid operator cannot head a comparison and
    /// are refused with a diagnostic.
    pub fn from_op(value: crate::token::Operators) -> (r: Result<Case, ErrorBuilder>)
        ensures
            match value@ {
                crate::token::OperatorsView::EqEq => r is Ok && r->Ok_0@ == CaseView::EqEq(
                    TypeVarView::Nothing,
                    TypeVarView::Nothing,
                ),
                crate::token::OperatorsView::Less => r is Ok && r->Ok_0@ == CaseView::Less(
                    TypeVarView::Nothing,
                    TypeVarView::Nothing,
                ),
                crate::token::OperatorsView::LessEq => r is Ok && r->Ok_0@ == CaseView::LessEq(
                    TypeVarView::Nothing,
                    TypeVarView::Nothing,
                ),
                crate::token::OperatorsView::More => r is Ok && r->Ok_0@ == CaseView::More(
                    TypeVarView::Nothing,
                    TypeVarView::Nothing,
                ),
                crate::token::OperatorsView::MoreEq => r is Ok && r->Ok_0@ == CaseView::MoreEq(
                    TypeVarView::Nothing,
                    TypeVarView::Nothing,
                ),
                _ => r is Err && r->Err_0@.message
                    == "Found a invalid if statement operator"@ && r->Err_0@.helper == Some(
                    "Found: "@ + crate::errors::op_text(value@),
                ) && r->Err_0@.file == Seq::<char>::empty() && r->Err_0@.line == 0,
            },
    {
        match value {
            crate::token::Operators::EqEq => Ok(Case::EqEq(TypeVar::Nothing, TypeVar::Nothing)),
            crate::token::Operators::Less => Ok(Case::Less(TypeVar::Nothing, TypeVar::Nothing)),
            crate::token::Operators::LessEq => Ok(Case::LessEq(TypeVar::Nothing, TypeVar::Nothing)),
            crate::token::Operators::More => Ok(Case::More(TypeVar::Nothing, TypeVar::Nothing)),
            crate::token::Operators::MoreEq => Ok(Case::MoreEq(TypeVar::Nothing, TypeVar::Nothing)),
            other => Err(crate::errors::invalid_if_statement_operator(other)),
        }
    }
}

impl Logic {
    /// A conditional from its comparisons, optional else branch and then
    /// branch.
    pub fn new(case: Vec<Case>, else_: Option<Box<Ast>>, do_: Ast) -> (r: Logic)
        ensures
            r@.if_ == cases_view(case@),
            r@.do_ == Box::new(do_@),
            r@.else_ == (match else_ {
                Some(b) => Some(Box::new(b@)),
                None => None,
            }),
    {
        let r = Logic { if_: case, do_: Box::new(do_), else_ };
        proof {
            assert(r@.if_ =~= cases_view(r.if_@));
        }
        r
    }
}

impl Ast {
    /// A node of the given kind with no children yet.
    pub fn new(type_: Type) -> (r: Self)
        ensures
            r.type_ == type_,
            r@.type_ == type_@,
            r@.body.len() == 0,
    {
        Ast { type_, body: Vec::new() }
    }

    /// The name of the variable this node declares, if it declares one.
    pub fn var_name(&self) -> (r: Option<String>)
        ensures
            match self@.type_ {
                TypeView::Variable(v) => r is Some && r->0@ == v.name,
                _ => r is None,
            },
    {
        proof {
            assert(self@.type_ == type_view(self.type_));
        }
        match &self.type_ {
            Type::Variable(var) => {
                proof {
                    assert(type_view(self.type_) == TypeView::Variable(variable_view(*var)));
                }
                Some(var.name.clone())
            },
            _ => None,
        }
    }

    /// The value of the variable this node declares, if it declares one.
    pub fn var_value(&self) -> (r: Option<TypeVar>)
        ensures
            match self@.type_ {
                TypeView::Variable(v) => r is Some && r->0@ == v.type_,
                _ => r is None,
            },
    {
        proof {
            assert(self@.type_ == type_view(self.type_));
        }
        match &self.type_ {
            Type::Variable(var) => {
                proof {
                    assert(type_view(self.type_) == TypeView::Variable(variable_view(*var)));
                }
                Some(var.type_.clone())
            },
            _ => None,
        }
    }
}

/// What assigning a name to a variable yields: the first assignment sets
/// the name; any later one is refused and changes nothing.
pub open spec fn assign_name(v: VariableView, name: Seq<char>) -> (VariableView, bool) {
    if v.name.len() == 0 {
        (VariableView { name, ..v }, true)
    } else {
        (v, false)
    }
}

/// What assigning a value to a variable yields: the first assignment
/// sets the value; any later one is refused and changes nothing.
pub open spec fn assign_value(v: VariableView, value: TypeVarView) -> (VariableView, bool) {
    if (v.type_ matches TypeVarView::Nothing) {
        (VariableView { type_: value, ..v }, true)
    } else {
        (v, false)
    }
}

impl Variable {
    /// A variable with no name, no value and line 0.
    pub fn new() -> (r: Self)
        ensures
            r@.name.len() == 0,
            r@.type_ == TypeVarView::Nothing,
            r@.line == 0,
    {
        Variable { name: String::new(), type_: TypeVar::Nothing, line: 0 }
    }

    /// Assign the variable's value, exactly once: a second assignment is
    /// refused with a diagnostic and leaves the first intact.
    pub fn type_(&mut self, type_: TypeVar) -> (r: Result<(), ErrorBuilder>)
        ensures
            final(self)@ == assign_value(old(self)@, type_@).0,
            r is Ok <==> assign_value(old(self)@, type_@).1,
            r is Err ==> r->Err_0@.message
                == "Tried assigning a value to and already assigned variable value"@
                && r->Err_0@.file == "should_ad_this:)"@ && r->Err_0@.helper is None
                && r->Err_0@.line == old(self)@.line,
    {
        if !self.type_.is_none() {
            return Err(
                ErrorBuilder::new().message(
                    "Tried assigning a value to and already assigned variable value",
                ).file_name("should_ad_this:)").line(self.line).build_error(),
            );
        }
        self.type_ = type_;
        Ok(())
    }

    /// Assign the variable's name, exactly once: a second assignment is
    /// refused with a diagnostic and leaves the first intact.
    pub fn name(&mut self, name: String) -> (r: Result<(), ErrorBuilder>)
        ensures
            final(self)@ == assign_name(old(self)@, name@).0,
            r is Ok <==> assign_name(old(self)@, name@).1,
            r is Err ==> r->Err_0@.message
                == "Tried assigning a name to and already named variable: "@ + name@
                && r->Err_0@.file == "should_ad_this:)"@ && r->Err_0@.helper is None
                && r->Err_0@.line == old(self)@.line,
    {
        if !self.name.as_str().is_empty() {
            let message = {
                let mut s = String::new();
                s.append("Tried assigning a name to and already named variable: ");
                s.append(name.as_str());
                proof {
                    assert(s@ =~= "Tried assigning a name to and already named variable: "@
                        + name@);
                }
                s
            };
            return Err(
                ErrorBuilder::new().message(message.as_str()).file_name("should_ad_this:)").line(
                    self.line,
                ).build_error(),
            );
        }
        self.name = name;
        Ok(())
    }

    /// Set the variable's source line.
    pub fn line(&mut self, line: usize)
        ensures
            final(self)@ == (VariableView { line: line as nat, ..old(self)@ }),
    {
        self.line = line;
    }
}

/// A variable's name and value are each assigned exactly once: on a fresh
/// variable the first assignment of a (nonempty) name and of a value
/// succeeds and records it, and any second assignment is refused and
/// leaves the first one intact.
pub proof fn lemma_builder_assign_once(
    v: VariableView,
    n1: Seq<char>,
    n2: Seq<char>,
    t1: TypeVarView,
    t2: TypeVarView,
)
    requires
        v.name.len() == 0,
        (v.type_ matches TypeVarView::Nothing),
        n1.len() > 0,
        !(t1 matches TypeVarView::Nothing),
    ensures
        ({
            let (v1, ok1) = assign_name(v, n1);
            &&& ok1
            &&& v1.name == n1
            &&& !assign_name(v1, n2).1
            &&& assign_name(v1, n2).0 == v1
        }),
        ({
            let (v1, ok1) = assign_value(v, t1);
            &&& ok1
            &&& v1.type_ == t1
            &&& !assign_value(v1, t2).1
            &&& assign_value(v1, t2).0 == v1
        }),
{
}

/// The paths of the use statements of a program, in traversal order:
/// those of the node's own statements, descending into blocks and into
/// function bodies.
pub open spec fn spec_uses(a: AstView) -> Seq<Seq<char>>
    decreases a, a.body.len() + 1,
{
    spec_uses_from(a, 0)
}

/// The paths of the use statements of `a` from child `i` on.
pub open spec fn spec_uses_from(a: AstView, i: int) -> Seq<Seq<char>>
    decreases a, a.body.len() - i,
{
    if i < 0 || i >= a.body.len() {
        Seq::empty()
    } else {
        let here = match a.body[i].type_ {
            TypeView::Use(path) => seq![path],
            TypeView::Block => spec_uses(a.body[i]),
            TypeView::Function(f) => match f.body {
                Some(b) => spec_uses(*b),
                None => Seq::empty(),
            },
            _ => Seq::empty(),
        };
        here + spec_uses_from(a, i + 1)
    }
}

/// How the view of a node relates to the node's parts: its kind is the
/// view of its kind, and its children are the views of its children.
pub proof fn lemma_ast_view_body(a: Ast)
    ensures
        ast_view(a).type_ == type_view(a.type_),
        ast_view(a).body.len() == a.body@.len(),
        forall|i: int|
            0 <= i < a.body@.len() ==> ast_view(a).body[i] == ast_view(#[trigger] a.body@[i]),
{
    assert(forall|i: int|
        0 <= i < a.body@.len() ==> ast_view(a).body[i] == ast_view(#[trigger] a.body@[i])) by {
        assert(forall|i: int|
            0 <= i < a.body@.len() ==> ast_view(a).body[i] == ast_view(#[trigger] a.body@[i]));
    }
}

/// The views of a sequence of use statements.
pub open spec fn uses_view(s: Seq<Use>) -> Seq<Seq<char>> {
    Seq::new(s.len(), |i: int| s[i]@)
}

impl Use {
    /// Collect the use statements of a program: those of the node's own
    /// statements, descending into blocks and into function bodies.
    #[verifier::loop_isolation(false)]
    #[verifier::rlimit(100)]
    #[verifier::spinoff_prover]
    pub fn get_uses(ast: &Ast) -> (r: Vec<Use>)
        ensures
            uses_view(r@) == spec_uses(ast@),
        decreases ast,
    {
        let mut out: Vec<Use> = Vec::new();
        let mut i: usize = 0;
        proof {
            lemma_ast_view_body(*ast);
            assert(spec_uses(ast@) == spec_uses_from(ast@, 0));
            assert(uses_view(out@) + spec_uses_from(ast@, 0) =~= spec_uses_from(ast@, 0));
        }
        while i < ast.body.len()
            invariant
                i <= ast.body@.len(),
                spec_uses(ast@) == uses_view(out@) + spec_uses_from(ast@, i as int),
            decreases ast.body@.len() - i,
        {
            let ghost before = out@;
            let node = &ast.body[i];
            proof {
                assert(node@ == ast@.body[i as int]);
                assert(node@.type_ == type_view(node.type_));
                assert(decreases_to!(*ast => ast.body@[i as int]));
            }
            match &node.type_ {
                Type::Use(u) => {
                    proof {
                        assert(node@.type_ == TypeView::Use(u@));
                        assert(spec_uses_from(ast@, i as int) == seq![u@] + spec_uses_from(
                            ast@,
                            i + 1,
                        ));
                    }
                    out.push(u.clone());
                    proof {
                        assert(uses_view(out@) =~= uses_view(before).push(u@));
                        assert(uses_view(before) + (seq![u@] + spec_uses_from(ast@, i + 1))
                            =~= uses_view(out@) + spec_uses_from(ast@, i + 1));
                    }
                },
                Type::Block => {
                    proof {
                        assert(node@.type_ == TypeView::Block);
                        assert(spec_uses_from(ast@, i as int) == spec_uses(node@)
                            + spec_uses_from(ast@, i + 1));
                    }
                    let mut inner = Self::get_uses(node);
                    proof {
                        assert(uses_view(before + inner@) =~= uses_view(before) + uses_view(
                            inner@,
                        ));
                        assert(uses_view(before) + (spec_uses(node@) + spec_uses_from(
                            ast@,
                            i + 1,
                        )) =~= (uses_view(before) + uses_view(inner@)) + spec_uses_from(
                            ast@,
                            i + 1,
                        ));
                    }
                    out.append(&mut inner);
                },
                Type::Function(f) => {
                    proof {
                        assert(node@.type_ == TypeView::Function(func_view(*f)));
                    }
                    match &f.body {
                        Some(b) => {
                            proof {
                                assert(func_view(*f).body == Some(Box::new(ast_view(**b))));
                                assert(spec_uses_from(ast@, i as int) == spec_uses(b@)
                                    + spec_uses_from(ast@, i + 1));
                            }
                            let mut inner = Self::get_uses(b);
                            proof {
                                assert(uses_view(before + inner@) =~= uses_view(before)
                                    + uses_view(inner@));
                                assert(uses_view(before) + (spec_uses(b@) + spec_uses_from(
                                    ast@,
                                    i + 1,
                                )) =~= (uses_view(before) + uses_view(inner@)) + spec_uses_from(
                                    ast@,
                                    i + 1,
                                ));
                            }
                            out.append(&mut inner);
                        },
                        None => {
                            proof {
                                assert(func_view(*f).body is None);
                                assert(spec_uses_from(ast@, i as int) == Seq::<
                                    Seq<char>,
                                >::empty() + spec_uses_from(ast@, i + 1));
                                assert(Seq::<Seq<char>>::empty() + spec_uses_from(ast@, i + 1)
                                    =~= spec_uses_from(ast@, i + 1));
                            }
                        },
                    }
                },
                _ => {
                    proof {
                        assert(spec_uses_from(ast@, i as int) == Seq::<Seq<char>>::empty()
                            + spec_uses_from(ast@, i + 1));
                        assert(Seq::<Seq<char>>::empty() + spec_uses_from(ast@, i + 1)
                            =~= spec_uses_from(ast@, i + 1));
                    }
                },
            }
            i += 1;
        }
        assert(spec_uses_from(ast@, i as int) =~= Seq::<Seq<char>>::empty());
        assert(uses_view(out@) =~= uses_view(out@) + Seq::<Seq<char>>::empty());
        out
    }

    /// Collect the use statements of a program as a `Used` bundle.
    pub fn get_use(ast: &Ast) -> (r: Used)
        ensures
            uses_view(r.0@) == spec_uses(ast@),
    {
        Used(Self::get_uses(ast))
    }
}

/// Whether two numbers stand in the named comparison: `more`, `less`,
/// `more_eq` or `less_eq`. Any other name compares as false.
pub open spec fn spec_compare_nums(num_1: int, num_2: int, case: Seq<char>) -> bool {
    if case == "more"@ {
        num_1 > num_2
    } else if case == "less"@ {
        num_1 < num_2
    } else if case == "more_eq"@ {
        num_1 >= num_2
    } else if case == "less_eq"@ {
        num_1 <= num_2
    } else {
        false
    }
}

/// Compare two numbers under the named comparison.
pub fn compare_nums(num_1: i32, num_2: i32, case: &str) -> (r: bool)
    ensures
        r == spec_compare_nums(num_1 as int, num_2 as int, case@),
{
    if str_eq(case, "more") {
        num_1 > num_2
    } else if str_eq(case, "less") {
        num_1 < num_2
    } else if str_eq(case, "more_eq") {
        num_1 >= num_2
    } else if str_eq(case, "less_eq") {
        num_1 <= num_2
    } else {
        false
    }
}

} // verus!
