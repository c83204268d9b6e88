//! The static analyzer: read-only walks over a finished syntax tree that
//! report declared variables, functions and function arguments that are
//! never used. Every walk is specified exactly by a spec function over
//! the tree's view, so two runs over the same tree always agree.

use vstd::prelude::*;

use crate::ast::{
    args_view, ast_view, fargs_use, lemma_ast_view_body, tv_uses, type_view, Arg, ArgView, Ast,
    AstView, Case, CaseView, Func, FuncView, ReturnTypes, Type, TypeVar, TypeVarView, TypeView,
    Variable, VariableView,
};
use crate::text::str_eq;

verus! {

/// A value the analyzer can classify.
pub enum TypeAnalyzed {
    Variable(Variable),
    Argument(Arg),
    Function(Func),
}

/// The analyses that can produce a finding.
pub enum TypeAnalyzer {
    Unused,
}

/// A classified finding: the value it concerns and the analysis that
/// produced it.
pub struct Analyzed {
    pub type_: TypeAnalyzed,
    pub type_analyzer: TypeAnalyzer,
}

/// An unused-value finding: a variable, a function, or an argument
/// together with the name of the function that declares it.
pub enum UnusedValues {
    Variable(Variable),
    Function(Func),
    Argument(Arg, String),
}

/// Mathematical model of a finding.
#[verifier::ext_equal]
pub enum UnusedView {
    Variable(VariableView),
    Function(FuncView),
    Argument(ArgView, Seq<char>),
}

impl View for UnusedValues {
    type V = UnusedView;

    open spec fn view(&self) -> UnusedView {
        match self {
            UnusedValues::Variable(v) => UnusedView::Variable(v@),
            UnusedValues::Function(f) => UnusedView::Function(f@),
            UnusedValues::Argument(a, n) => UnusedView::Argument(a@, n@),
        }
    }
}

/// The views of a sequence of findings.
pub open spec fn unused_view(s: Seq<UnusedValues>) -> Seq<UnusedView> {
    Seq::new(s.len(), |i: int| s[i]@)
}

/// A declared variable paired with the block it was declared directly
/// inside.
pub struct DetectedVar {
    pub block: Ast,
    pub var: Variable,
}

impl DetectedVar {
    /// Pair a declared variable with its enclosing block.
    pub fn new(block: Ast, var: Variable) -> (r: DetectedVar)
        ensures
            r.block == block,
            r.var == var,
    {
        DetectedVar { block, var }
    }
}

/// A declared function.
pub struct DetectedFunc {
    pub func: Func,
}

impl DetectedFunc {
    /// Record a declared function.
    pub fn new(func: Func) -> (r: DetectedFunc)
        ensures
            r.func == func,
    {
        DetectedFunc { func }
    }
}

/// A declared argument paired with its function's name and body.
pub struct DetectedArg {
    pub func_name: String,
    pub arg: Arg,
    pub block: Ast,
}

impl DetectedArg {
    /// Pair a declared argument with its function's name and body.
    pub fn new(arg: Arg, block: Ast, func_name: String) -> (r: DetectedArg)
        ensures
            r.arg == arg,
            r.block == block,
            r.func_name == func_name,
    {
        DetectedArg { func_name, arg, block }
    }

    /// Pair each argument of a function with that function's name and
    /// body.
    pub fn multiple(args_: &Vec<Arg>, block: &Ast, func_name: &str) -> (r: Vec<DetectedArg>)
        ensures
            r@.len() == args_@.len(),
            forall|i: int|
                0 <= i < r@.len() ==> (#[trigger] r@[i]).arg@ == args_@[i]@ && r@[i].block@
                    == block@ && r@[i].func_name@ == func_name@,
    {
        let mut out: Vec<DetectedArg> = Vec::new();
        let mut i: usize = 0;
        while i < args_.len()
            invariant
                i <= args_@.len(),
                out@.len() == i,
                forall|j: int|
                    0 <= j < i ==> (#[trigger] out@[j]).arg@ == args_@[j]@ && out@[j].block@
                        == block@ && out@[j].func_name@ == func_name@,
            decreases args_@.len() - i,
        {
            out.push(
                DetectedArg {
                    func_name: func_name.to_owned(),
                    arg: args_[i].clone(),
                    block: block.clone(),
                },
            );
            i += 1;
        }
        out
    }
}

/// Whether one comparison mentions the name in either operand.
pub open spec fn case_uses(c: CaseView, name: Seq<char>) -> bool {
    match c {
        CaseView::EqEq(a, b) => tv_uses(a, name) || tv_uses(b, name),
        CaseView::More(a, b) => tv_uses(a, name) || tv_uses(b, name),
        CaseView::MoreEq(a, b) => tv_uses(a, name) || tv_uses(b, name),
        CaseView::Less(a, b) => tv_uses(a, name) || tv_uses(b, name),
        CaseView::LessEq(a, b) => tv_uses(a, name) || tv_uses(b, name),
        CaseView::Nothing => false,
    }
}

/// Whether one statement of a block uses the name: a variable whose
/// value is that identifier, a nested block or function body that uses
/// it, a return naming it, a conditional whose comparisons mention it or
/// whose branches use it, or a call passing it as an untyped argument.
pub open spec fn stmt_uses(node: AstView, name: Seq<char>) -> bool
    decreases node, node.body.len() + 1,
{
    match node.type_ {
        TypeView::Variable(v) => v.type_ matches TypeVarView::Identifier(id) && id == name,
        TypeView::Block => block_uses_from(node, 0, name),
        TypeView::Function(f) => match f.body {
            Some(b) => block_uses_from(*b, 0, name),
            None => false,
        },
        TypeView::Return(ret) => ret.type_ == ReturnTypes::Identifier && ret.value == name,
        TypeView::Logic(l) => {
            ||| exists|i: int| 0 <= i < l.if_.len() && case_uses(#[trigger] l.if_[i], name)
            ||| block_uses_from(*l.do_, 0, name)
            ||| match l.else_ {
                Some(e) => block_uses_from(*e, 0, name),
                None => false,
            }
        },
        TypeView::FunctionCall(f) => fargs_use(f.args, name),
        _ => false,
    }
}

/// Whether any statement of `block` from child `i` on uses the name.
pub open spec fn block_uses_from(block: AstView, i: int, name: Seq<char>) -> bool
    decreases block, block.body.len() - i,
{
    if i < 0 || i >= block.body.len() {
        false
    } else {
        stmt_uses(block.body[i], name) || block_uses_from(block, i + 1, name)
    }
}

/// Whether some statement of `block` uses the name.
pub open spec fn block_uses(block: AstView, name: Seq<char>) -> bool {
    block_uses_from(block, 0, name)
}

/// The declared variables of the tree from child `i` of `block` on,
/// each paired with the block it stands directly inside, in traversal
/// order: the block's own variables, and those of nested blocks,
/// function bodies and conditional branches.
pub open spec fn detect_vars_from(block: AstView, i: int) -> Seq<(AstView, VariableView)>
    decreases block, block.body.len() - i,
{
    if i < 0 || i >= block.body.len() {
        Seq::empty()
    } else {
        let node = block.body[i];
        let here: Seq<(AstView, VariableView)> = match node.type_ {
            TypeView::Variable(v) => seq![(block, v)],
            TypeView::Function(f) => match f.body {
                Some(b) => detect_vars_from(*b, 0),
                None => Seq::empty(),
            },
            TypeView::Block => detect_vars_from(node, 0),
            TypeView::Logic(l) => detect_vars_from(*l.do_, 0) + (match l.else_ {
                Some(e) => detect_vars_from(*e, 0),
                None => Seq::empty(),
            }),
            _ => Seq::empty(),
        };
        here + detect_vars_from(block, i + 1)
    }
}

/// The unused variables among the detected pairs from position `i` on: a
/// variable stays unless some statement of its own block uses its name.
pub open spec fn unused_vars_from(pairs: Seq<(AstView, VariableView)>, i: int) -> Seq<UnusedView>
    decreases pairs.len() - i,
{
    if i < 0 || i >= pairs.len() {
        Seq::empty()
    } else {
        (if !block_uses(pairs[i].0, pairs[i].1.name) {
            seq![UnusedView::Variable(pairs[i].1)]
        } else {
            Seq::empty()
        }) + unused_vars_from(pairs, i + 1)
    }
}

/// The unused variables of the whole tree.
pub open spec fn unused_vars_v(ast: AstView) -> Seq<UnusedView> {
    unused_vars_from(detect_vars_from(ast, 0), 0)
}

/// The declared functions of the tree from child `i` of `block` on, in
/// traversal order: the block's own functions and those of nested
/// blocks. Functions declared inside other functions' bodies are not
/// collected here.
pub open spec fn detect_funcs_from(block: AstView, i: int) -> Seq<FuncView>
    decreases block, block.body.len() - i,
{
    if i < 0 || i >= block.body.len() {
        Seq::empty()
    } else {
        let node = block.body[i];
        let here: Seq<FuncView> = match node.type_ {
            TypeView::Function(f) => seq![f],
            TypeView::Block => detect_funcs_from(node, 0),
            _ => Seq::empty(),
        };
        here + detect_funcs_from(block, i + 1)
    }
}

/// The names of the functions that are called somewhere in the tree from
/// child `i` of `block` on: by a call statement, or by a variable whose
/// value is a call, descending into blocks and function bodies.
pub open spec fn used_names_from(block: AstView, i: int) -> Seq<Seq<char>>
    decreases block, block.body.len() - i,
{
    if i < 0 || i >= block.body.len() {
        Seq::empty()
    } else {
        let node = block.body[i];
        let here: Seq<Seq<char>> = match node.type_ {
            TypeView::Variable(v) => match v.type_ {
                TypeVarView::FunctionCall(c) => seq![c.name],
                _ => Seq::empty(),
            },
            TypeView::FunctionCall(c) => seq![c.name],
            TypeView::Function(f) => match f.body {
                Some(b) => used_names_from(*b, 0),
                None => Seq::empty(),
            },
            TypeView::Block => used_names_from(node, 0),
            _ => Seq::empty(),
        };
        here + used_names_from(block, i + 1)
    }
}

/// The unused functions among `funcs` from position `i` on: a function
/// stays unless it is named `main` or its name is among the used names.
pub open spec fn unused_funcs_from(funcs: Seq<FuncView>, used: Seq<Seq<char>>, i: int) -> Seq<
    UnusedView,
>
    decreases funcs.len() - i,
{
    if i < 0 || i >= funcs.len() {
        Seq::empty()
    } else {
        (if funcs[i].name != "main"@ && !used.contains(funcs[i].name) {
            seq![UnusedView::Function(funcs[i])]
        } else {
            Seq::empty()
        }) + unused_funcs_from(funcs, used, i + 1)
    }
}

/// The unused functions of the whole tree.
pub open spec fn unused_funcs_v(ast: AstView) -> Seq<UnusedView> {
    unused_funcs_from(detect_funcs_from(ast, 0), used_names_from(ast, 0), 0)
}

/// Whether one statement of a function's body uses an argument name: a
/// variable whose value mentions it, a call passing it untyped, a return
/// naming it, or a nested block or function body that uses it.
pub open spec fn arg_stmt_uses(node: AstView, name: Seq<char>) -> bool
    decreases node, node.body.len() + 1,
{
    match node.type_ {
        TypeView::Variable(v) => tv_uses(v.type_, name),
        TypeView::FunctionCall(c) => fargs_use(c.args, name),
        TypeView::Return(ret) => ret.value == name,
        TypeView::Block => arg_used_from(node, 0, name),
        TypeView::Function(f) => match f.body {
            Some(b) => arg_used_from(*b, 0, name),
            None => false,
        },
        _ => false,
    }
}

/// Whether any statement of `block` from child `i` on uses an argument
/// name.
pub open spec fn arg_used_from(block: AstView, i: int, name: Seq<char>) -> bool
    decreases block, block.body.len() - i,
{
    if i < 0 || i >= block.body.len() {
        false
    } else {
        arg_stmt_uses(block.body[i], name) || arg_used_from(block, i + 1, name)
    }
}

/// The declared arguments of the tree's functions from child `i` of
/// `block` on, each paired with the owning function's name and body.
pub open spec fn detect_args_from(block: AstView, i: int) -> Seq<(Seq<char>, ArgView, AstView)>
    decreases block, block.body.len() - i,
{
    if i < 0 || i >= block.body.len() {
        Seq::empty()
    } else {
        let node = block.body[i];
        let here: Seq<(Seq<char>, ArgView, AstView)> = match node.type_ {
            TypeView::Function(f) => match f.body {
                Some(b) => Seq::new(
                    f.args.len(),
                    |j: int|
                        if 0 <= j < f.args.len() {
                            (f.name, f.args[j], *b)
                        } else {
                            vstd::pervasive::arbitrary()
                        },
                ),
                None => Seq::empty(),
            },
            _ => Seq::empty(),
        };
        here + detect_args_from(block, i + 1)
    }
}

/// The unused arguments among the detected triples from position `i`
/// on: an argument stays unless some statement of its function's body
/// uses its text.
pub open spec fn unused_args_from(triples: Seq<(Seq<char>, ArgView, AstView)>, i: int) -> Seq<
    UnusedView,
>
    decreases triples.len() - i,
{
    if i < 0 || i >= triples.len() {
        Seq::empty()
    } else {
        (if !arg_used_from(triples[i].2, 0, triples[i].1.value) {
            seq![UnusedView::Argument(triples[i].1, triples[i].0)]
        } else {
            Seq::empty()
        }) + unused_args_from(triples, i + 1)
    }
}

/// The unused arguments of the whole tree.
pub open spec fn unused_args_v(ast: AstView) -> Seq<UnusedView> {
    unused_args_from(detect_args_from(ast, 0), 0)
}

/// Every finding of the analyzer, in order: the unused functions, then
/// the unused variables, then the unused arguments.
pub open spec fn find_unused_v(ast: AstView) -> Seq<UnusedView> {
    unused_funcs_v(ast) + unused_vars_v(ast) + unused_args_v(ast)
}


/// The views of a sequence of detected variables.
pub open spec fn dv_view(s: Seq<DetectedVar>) -> Seq<(AstView, VariableView)> {
    Seq::new(s.len(), |i: int| (s[i].block@, s[i].var@))
}

/// The views of a sequence of detected functions.
pub open spec fn df_view(s: Seq<DetectedFunc>) -> Seq<FuncView> {
    Seq::new(s.len(), |i: int| s[i].func@)
}

/// The views of a sequence of detected arguments.
pub open spec fn da_view(s: Seq<DetectedArg>) -> Seq<(Seq<char>, ArgView, AstView)> {
    Seq::new(s.len(), |i: int| (s[i].func_name@, s[i].arg@, s[i].block@))
}

/// The views of a sequence of strings.
pub open spec fn strs_view(s: Seq<String>) -> Seq<Seq<char>> {
    Seq::new(s.len(), |i: int| s[i]@)
}

/// Decide whether one comparison mentions the name in either operand.
fn case_uses_exec(c: &Case, name: &str) -> (r: bool)
    ensures
        r == case_uses(c@, name@),
{
    match c {
        Case::EqEq(a, b) => a.uses(name) || b.uses(name),
        Case::More(a, b) => a.uses(name) || b.uses(name),
        Case::MoreEq(a, b) => a.uses(name) || b.uses(name),
        Case::Less(a, b) => a.uses(name) || b.uses(name),
        Case::LessEq(a, b) => a.uses(name) || b.uses(name),
        Case::Nothing => false,
    }
}

impl Ast {
    /// Decide whether one statement uses the name, in the sense of
    /// [`stmt_uses`].
    #[verifier::loop_isolation(false)]
    fn stmt_uses_exec(node: &Ast, value: &str) -> (r: bool)
        ensures
            r == stmt_uses(node@, value@),
        decreases node, node.body@.len() + 1,
    {
        proof {
            assert(node@.type_ == type_view(node.type_));
        }
        match &node.type_ {
            Type::Variable(var) => {
                match &var.type_ {
                    TypeVar::Identifier(id) => str_eq(id.as_str(), value),
                    _ => false,
                }
            },
            Type::Block => node.detect_used_in_block_var(value),
            Type::Function(f) => {
                match &f.body {
                    Some(b) => b.detect_used_in_block_var(value),
                    None => false,
                }
            },
            Type::Return(val) => {
                val.type_ == ReturnTypes::Identifier && str_eq(val.value.as_str(), value)
            },
            Type::Logic(l) => {
                let mut i: usize = 0;
                while i < l.if_.len()
                    invariant
                        i <= l.if_@.len(),
                        forall|j: int| 0 <= j < i ==> !case_uses(l.if_@[j]@, value@),
                    decreases l.if_@.len() - i,
                {
                    if case_uses_exec(&l.if_[i], value) {
                        assert(node@.type_->Logic_0.if_[i as int] == l.if_@[i as int]@);
                        return true;
                    }
                    i += 1;
                }
                assert(forall|j: int|
                    0 <= j < l.if_@.len() ==> node@.type_->Logic_0.if_[j] == l.if_@[j]@);
                if l.do_.detect_used_in_block_var(value) {
                    return true;
                }
                match &l.else_ {
                    Some(e) => e.detect_used_in_block_var(value),
                    None => false,
                }
            },
            Type::FunctionCall(f) => f.args_uses(value),
            _ => false,
        }
    }

    /// Decide whether some statement of this block uses the name, in the
    /// sense of [`block_uses`].
    #[verifier::loop_isolation(false)]
    pub fn detect_used_in_block_var(&self, value: &str) -> (r: bool)
        ensures
            r == block_uses(self@, value@),
        decreases self, self.body@.len(),
    {
        proof {
            lemma_ast_view_body(*self);
        }
        let mut i: usize = 0;
        while i < self.body.len()
            invariant
                i <= self.body@.len(),
                block_uses_from(self@, 0, value@) == block_uses_from(self@, i as int, value@),
            decreases self.body@.len() - i,
        {
            let node = &self.body[i];
            assert(node@ == self@.body[i as int]);
            if Self::stmt_uses_exec(node, value) {
                return true;
            }
            i += 1;
        }
        false
    }

    /// Collect every declared variable of the tree, paired with the
    /// block it stands directly inside, as [`detect_vars_from`]
    /// describes.
    #[verifier::loop_isolation(false)]
    #[verifier::rlimit(60)]
    pub fn detect_vars(&self) -> (r: Vec<DetectedVar>)
        ensures
            dv_view(r@) == detect_vars_from(self@, 0),
        decreases self, self.body@.len(),
    {
        let mut out: Vec<DetectedVar> = Vec::new();
        let mut i: usize = 0;
        proof {
            lemma_ast_view_body(*self);
            assert(dv_view(out@) + detect_vars_from(self@, 0) =~= detect_vars_from(self@, 0));
        }
        while i < self.body.len()
            invariant
                i <= self.body@.len(),
                detect_vars_from(self@, 0) == dv_view(out@) + detect_vars_from(self@, i as int),
            decreases self.body@.len() - i,
        {
            let ghost before = out@;
            let node = &self.body[i];
            proof {
                assert(node@ == self@.body[i as int]);
                assert(node@.type_ == type_view(node.type_));
            }
            match &node.type_ {
                Type::Variable(var) => {
                    out.push(DetectedVar { block: self.clone(), var: var.clone() });
                    proof {
                        assert(dv_view(out@) =~= dv_view(before).push((self@, var@)));
                        assert(dv_view(before) + (seq![(self@, var@)] + detect_vars_from(
                            self@,
                            i + 1,
                        )) =~= dv_view(out@) + detect_vars_from(self@, i + 1));
                    }
                },
                Type::Function(f) => {
                    match &f.body {
                        Some(b) => {
                            proof {
                                assert(node@.type_->Function_0.body->0 == Box::new(b@));
                            }
                            let mut inner = b.detect_vars();
                            proof {
                                assert(dv_view(before + inner@) =~= dv_view(before) + dv_view(
                                    inner@,
                                ));
                                assert(dv_view(before) + (detect_vars_from(b@, 0)
                                    + detect_vars_from(self@, i + 1)) =~= (dv_view(before)
                                    + dv_view(inner@)) + detect_vars_from(self@, i + 1));
                            }
                            out.append(&mut inner);
                        },
                        None => {
                            proof {
                                assert(Seq::<(AstView, VariableView)>::empty() + detect_vars_from(
                                    self@,
                                    i + 1,
                                ) =~= detect_vars_from(self@, i + 1));
                            }
                        },
                    }
                },
                Type::Block => {
                    let mut inner = node.detect_vars();
                    proof {
                        assert(dv_view(before + inner@) =~= dv_view(before) + dv_view(inner@));
                        assert(dv_view(before) + (detect_vars_from(node@, 0) + detect_vars_from(
                            self@,
                            i + 1,
                        )) =~= (dv_view(before) + dv_view(inner@)) + detect_vars_from(
                            self@,
                            i + 1,
                        ));
                    }
                    out.append(&mut inner);
                },
                Type::Logic(l) => {
                    proof {
                        assert(node@.type_->Logic_0.do_ == Box::new(ast_view(*l.do_)));
                    }
                    let mut inner = l.do_.detect_vars();
                    let ghost here0 = detect_vars_from(ast_view(*l.do_), 0);
                    match &l.else_ {
                        Some(e) => {
                            proof {
                                assert(node@.type_->Logic_0.else_->0 == Box::new(ast_view(**e)));
                            }
                            let mut inner2 = e.detect_vars();
                            proof {
                                assert(dv_view(inner@ + inner2@) =~= dv_view(inner@) + dv_view(
                                    inner2@,
                                ));
                            }
                            inner.append(&mut inner2);
                        },
                        None => {
                            proof {
                                assert(dv_view(inner@) =~= here0 + Seq::<(
                                    AstView,
                                    VariableView,
                                )>::empty());
                            }
                        },
                    }
                    proof {
                        assert(dv_view(before + inner@) =~= dv_view(before) + dv_view(inner@));
                        assert(dv_view(before) + (dv_view(inner@) + detect_vars_from(
                            self@,
                            i + 1,
                        )) =~= (dv_view(before) + dv_view(inner@)) + detect_vars_from(
                            self@,
                            i + 1,
                        ));
                    }
                    out.append(&mut inner);
                },
                _ => {
                    proof {
                        assert(Seq::<(AstView, VariableView)>::empty() + detect_vars_from(
                            self@,
                            i + 1,
                        ) =~= detect_vars_from(self@, i + 1));
                    }
                },
            }
            i += 1;
        }
        proof {
            assert(detect_vars_from(self@, i as int) =~= Seq::<(AstView, VariableView)>::empty());
            assert(dv_view(out@) + Seq::<(AstView, VariableView)>::empty() =~= dv_view(out@));
        }
        out
    }

    /// Report the unused variables: each declared variable whose own
    /// block never uses its name, as [`unused_vars_v`] describes.
    #[verifier::loop_isolation(false)]
    pub fn detect_unused_vars(&self) -> (r: Vec<UnusedValues>)
        ensures
            unused_view(r@) == unused_vars_v(self@),
    {
        let detected = self.detect_vars();
        let ghost pairs = dv_view(detected@);
        let mut out: Vec<UnusedValues> = Vec::new();
        let mut i: usize = 0;
        proof {
            assert(unused_view(out@) + unused_vars_from(pairs, 0) =~= unused_vars_from(pairs, 0));
        }
        while i < detected.len()
            invariant
                i <= detected@.len(),
                pairs == dv_view(detected@),
                unused_vars_from(pairs, 0) == unused_view(out@) + unused_vars_from(
                    pairs,
                    i as int,
                ),
            decreases detected@.len() - i,
        {
            let ghost before = out@;
            let item = &detected[i];
            assert((item.block@, item.var@) == pairs[i as int]);
            let used = item.block.detect_used_in_block_var(item.var.name.as_str());
            if !used {
                out.push(UnusedValues::Variable(item.var.clone()));
                proof {
                    assert(unused_view(out@) =~= unused_view(before).push(
                        UnusedView::Variable(item.var@),
                    ));
                    assert(unused_view(before) + (seq![UnusedView::Variable(pairs[i as int].1)]
                        + unused_vars_from(pairs, i + 1)) =~= unused_view(out@)
                        + unused_vars_from(pairs, i + 1));
                }
            } else {
                proof {
                    assert(Seq::<UnusedView>::empty() + unused_vars_from(pairs, i + 1)
                        =~= unused_vars_from(pairs, i + 1));
                }
            }
            i += 1;
        }
        proof {
            assert(unused_vars_from(pairs, i as int) =~= Seq::<UnusedView>::empty());
            assert(unused_view(out@) + Seq::<UnusedView>::empty() =~= unused_view(out@));
        }
        out
    }

    /// Collect every declared function of the tree, descending into
    /// blocks, as [`detect_funcs_from`] describes.
    #[verifier::loop_isolation(false)]
    pub fn detect_func(&self) -> (r: Vec<DetectedFunc>)
        ensures
            df_view(r@) == detect_funcs_from(self@, 0),
        decreases self, self.body@.len(),
    {
        let mut out: Vec<DetectedFunc> = Vec::new();
        let mut i: usize = 0;
        proof {
            lemma_ast_view_body(*self);
            assert(df_view(out@) + detect_funcs_from(self@, 0) =~= detect_funcs_from(self@, 0));
        }
        while i < self.body.len()
            invariant
                i <= self.body@.len(),
                detect_funcs_from(self@, 0) == df_view(out@) + detect_funcs_from(
                    self@,
                    i as int,
                ),
            decreases self.body@.len() - i,
        {
            let ghost before = out@;
            let node = &self.body[i];
            proof {
                assert(node@ == self@.body[i as int]);
                assert(node@.type_ == type_view(node.type_));
            }
            match &node.type_ {
                Type::Function(f) => {
                    out.push(DetectedFunc { func: f.clone() });
                    proof {
                        assert(df_view(out@) =~= df_view(before).push(f@));
                        assert(df_view(before) + (seq![f@] + detect_funcs_from(self@, i + 1))
                            =~= df_view(out@) + detect_funcs_from(self@, i + 1));
                    }
                },
                Type::Block => {
                    let mut inner = node.detect_func();
                    proof {
                        assert(df_view(before + inner@) =~= df_view(before) + df_view(inner@));
                        assert(df_view(before) + (detect_funcs_from(node@, 0)
                            + detect_funcs_from(self@, i + 1)) =~= (df_view(before) + df_view(
                            inner@,
                        )) + detect_funcs_from(self@, i + 1));
                    }
                    out.append(&mut inner);
                },
                _ => {
                    proof {
                        assert(Seq::<FuncView>::empty() + detect_funcs_from(self@, i + 1)
                            =~= detect_funcs_from(self@, i + 1));
                    }
                },
            }
            i += 1;
        }
        proof {
            assert(detect_funcs_from(self@, i as int) =~= Seq::<FuncView>::empty());
            assert(df_view(out@) + Seq::<FuncView>::empty() =~= df_view(out@));
        }
        out
    }

    /// Collect the name of every function that is called somewhere in
    /// the tree, as [`used_names_from`] describes.
    #[verifier::loop_isolation(false)]
    pub fn detect_used_funcs(&self) -> (r: Vec<String>)
        ensures
            strs_view(r@) == used_names_from(self@, 0),
        decreases self, self.body@.len(),
    {
        let mut out: Vec<String> = Vec::new();
        let mut i: usize = 0;
        proof {
            lemma_ast_view_body(*self);
            assert(strs_view(out@) + used_names_from(self@, 0) =~= used_names_from(self@, 0));
        }
        while i < self.body.len()
            invariant
                i <= self.body@.len(),
                used_names_from(self@, 0) == strs_view(out@) + used_names_from(self@, i as int),
            decreases self.body@.len() - i,
        {
            let ghost before = out@;
            let node = &self.body[i];
            proof {
                assert(node@ == self@.body[i as int]);
                assert(node@.type_ == type_view(node.type_));
            }
            match &node.type_ {
                Type::Variable(var) => {
                    match &var.type_ {
                        TypeVar::FunctionCall(c) => {
                            proof {
                                assert(node@.type_->Variable_0.type_
                                    == crate::ast::typevar_view(var.type_));
                                assert(crate::ast::typevar_view(var.type_)
                                    == TypeVarView::FunctionCall(crate::ast::func_view(*c)));
                                assert(crate::ast::func_view(*c).name == c.name@);
                            }
                            out.push(c.name.clone());
                            proof {
                                assert(strs_view(out@) =~= strs_view(before).push(c.name@));
                                assert(strs_view(before) + (seq![c.name@] + used_names_from(
                                    self@,
                                    i + 1,
                                )) =~= strs_view(out@) + used_names_from(self@, i + 1));
                            }
                        },
                        _ => {
                            proof {
                                assert(node@.type_->Variable_0.type_
                                    == crate::ast::typevar_view(var.type_));
                                assert(Seq::<Seq<char>>::empty() + used_names_from(self@, i + 1)
                                    =~= used_names_from(self@, i + 1));
                            }
                        },
                    }
                },
                Type::FunctionCall(c) => {
                    proof {
                        assert(node@.type_ == TypeView::FunctionCall(crate::ast::func_view(*c)));
                        assert(crate::ast::func_view(*c).name == c.name@);
                    }
                    out.push(c.name.clone());
                    proof {
                        assert(strs_view(out@) =~= strs_view(before).push(c.name@));
                        assert(strs_view(before) + (seq![c.name@] + used_names_from(
                            self@,
                            i + 1,
                        )) =~= strs_view(out@) + used_names_from(self@, i + 1));
                    }
                },
                Type::Function(f) => {
                    match &f.body {
                        Some(b) => {
                            proof {
                                assert(node@.type_->Function_0.body->0 == Box::new(b@));
                            }
                            let mut inner = b.detect_used_funcs();
                            proof {
                                assert(strs_view(before + inner@) =~= strs_view(before)
                                    + strs_view(inner@));
                                assert(strs_view(before) + (used_names_from(b@, 0)
                                    + used_names_from(self@, i + 1)) =~= (strs_view(before)
                                    + strs_view(inner@)) + used_names_from(self@, i + 1));
                            }
                            out.append(&mut inner);
                        },
                        None => {
                            proof {
                                assert(Seq::<Seq<char>>::empty() + used_names_from(self@, i + 1)
                                    =~= used_names_from(self@, i + 1));
                            }
                        },
                    }
                },
                Type::Block => {
                    let mut inner = node.detect_used_funcs();
                    proof {
                        assert(strs_view(before + inner@) =~= strs_view(before) + strs_view(
                            inner@,
                        ));
                        assert(strs_view(before) + (used_names_from(node@, 0) + used_names_from(
                            self@,
                            i + 1,
                        )) =~= (strs_view(before) + strs_view(inner@)) + used_names_from(
                            self@,
                            i + 1,
                        ));
                    }
                    out.append(&mut inner);
                },
                _ => {
                    proof {
                        assert(Seq::<Seq<char>>::empty() + used_names_from(self@, i + 1)
                            =~= used_names_from(self@, i + 1));
                    }
                },
            }
            i += 1;
        }
        proof {
            assert(used_names_from(self@, i as int) =~= Seq::<Seq<char>>::empty());
            assert(strs_view(out@) + Seq::<Seq<char>>::empty() =~= strs_view(out@));
        }
        out
    }

    /// Report the unused functions: each declared function that is not
    /// named `main` and whose name is never called, as
    /// [`unused_funcs_v`] describes.
    #[verifier::loop_isolation(false)]
    pub fn detect_unused_funcs(&self) -> (r: Vec<UnusedValues>)
        ensures
            unused_view(r@) == unused_funcs_v(self@),
    {
        let funcs = self.detect_func();
        let used = self.detect_used_funcs();
        let ghost fv = df_view(funcs@);
        let ghost uv = strs_view(used@);
        let mut out: Vec<UnusedValues> = Vec::new();
        let mut i: usize = 0;
        proof {
            assert(unused_view(out@) + unused_funcs_from(fv, uv, 0) =~= unused_funcs_from(
                fv,
                uv,
                0,
            ));
        }
        while i < funcs.len()
            invariant
                i <= funcs@.len(),
                fv == df_view(funcs@),
                uv == strs_view(used@),
                unused_funcs_from(fv, uv, 0) == unused_view(out@) + unused_funcs_from(
                    fv,
                    uv,
                    i as int,
                ),
            decreases funcs@.len() - i,
        {
            let ghost before = out@;
            let item = &funcs[i];
            assert(item.func@ == fv[i as int]);
            let is_main = str_eq(item.func.name.as_str(), "main");
            let is_used = Self::contains_str(&used, item.func.name.as_str());
            if !is_main && !is_used {
                out.push(UnusedValues::Function(item.func.clone()));
                proof {
                    assert(unused_view(out@) =~= unused_view(before).push(
                        UnusedView::Function(item.func@),
                    ));
                    assert(unused_view(before) + (seq![UnusedView::Function(fv[i as int])]
                        + unused_funcs_from(fv, uv, i + 1)) =~= unused_view(out@)
                        + unused_funcs_from(fv, uv, i + 1));
                }
            } else {
                proof {
                    assert(Seq::<UnusedView>::empty() + unused_funcs_from(fv, uv, i + 1)
                        =~= unused_funcs_from(fv, uv, i + 1));
                }
            }
            i += 1;
        }
        proof {
            assert(unused_funcs_from(fv, uv, i as int) =~= Seq::<UnusedView>::empty());
            assert(unused_view(out@) + Seq::<UnusedView>::empty() =~= unused_view(out@));
        }
        out
    }

    /// Decide whether one of the strings holds exactly the given text.
    fn contains_str(v: &Vec<String>, s: &str) -> (r: bool)
        ensures
            r == strs_view(v@).contains(s@),
    {
        let mut i: usize = 0;
        while i < v.len()
            invariant
                i <= v@.len(),
                forall|j: int| 0 <= j < i ==> strs_view(v@)[j] != s@,
            decreases v@.len() - i,
        {
            if str_eq(v[i].as_str(), s) {
                assert(strs_view(v@)[i as int] == s@);
                return true;
            }
            i += 1;
        }
        assert(!strs_view(v@).contains(s@));
        false
    }

    /// Decide whether one statement uses an argument name, in the sense
    /// of [`arg_stmt_uses`].
    #[verifier::loop_isolation(false)]
    fn arg_stmt_uses_exec(node: &Ast, value: &str) -> (r: bool)
        ensures
            r == arg_stmt_uses(node@, value@),
        decreases node, node.body@.len() + 1,
    {
        proof {
            assert(node@.type_ == type_view(node.type_));
        }
        match &node.type_ {
            Type::Variable(var) => {
                proof {
                    assert(node@.type_->Variable_0.type_ == crate::ast::typevar_view(var.type_));
                }
                var.type_.uses(value)
            },
            Type::FunctionCall(c) => c.args_uses(value),
            Type::Return(ret) => str_eq(ret.value.as_str(), value),
            Type::Block => !Self::detect_unused_args_block(node, value),
            Type::Function(f) => {
                match &f.body {
                    Some(b) => !Self::detect_unused_args_block(b, value),
                    None => false,
                }
            },
            _ => false,
        }
    }

    /// Decide whether an argument name goes unused in a block: true
    /// exactly when no statement of the block uses it, in the sense of
    /// [`arg_used_from`].
    #[verifier::loop_isolation(false)]
    pub fn detect_unused_args_block(block: &Ast, value: &str) -> (r: bool)
        ensures
            r == !arg_used_from(block@, 0, value@),
        decreases block, block.body@.len(),
    {
        proof {
            lemma_ast_view_body(*block);
        }
        let mut i: usize = 0;
        while i < block.body.len()
            invariant
                i <= block.body@.len(),
                arg_used_from(block@, 0, value@) == arg_used_from(block@, i as int, value@),
            decreases block.body@.len() - i,
        {
            let node = &block.body[i];
            assert(node@ == block@.body[i as int]);
            if Self::arg_stmt_uses_exec(node, value) {
                return false;
            }
            i += 1;
        }
        true
    }

    /// Collect every declared argument of the tree's functions, paired
    /// with the owning function's name and body, as
    /// [`detect_args_from`] describes.
    #[verifier::loop_isolation(false)]
    pub fn detect_arg(&self) -> (r: Vec<DetectedArg>)
        ensures
            da_view(r@) == detect_args_from(self@, 0),
    {
        let mut out: Vec<DetectedArg> = Vec::new();
        let mut i: usize = 0;
        proof {
            lemma_ast_view_body(*self);
            assert(da_view(out@) + detect_args_from(self@, 0) =~= detect_args_from(self@, 0));
        }
        while i < self.body.len()
            invariant
                i <= self.body@.len(),
                detect_args_from(self@, 0) == da_view(out@) + detect_args_from(self@, i as int),
            decreases self.body@.len() - i,
        {
            let ghost before = out@;
            let node = &self.body[i];
            proof {
                assert(node@ == self@.body[i as int]);
                assert(node@.type_ == type_view(node.type_));
            }
            match &node.type_ {
                Type::Function(f) => {
                    match &f.body {
                        Some(b) => {
                            proof {
                                assert(node@.type_->Function_0.body->0 == Box::new(b@));
                                assert(node@.type_->Function_0.args =~= args_view(f.args@));
                            }
                            let mut inner = DetectedArg::multiple(&f.args, b, f.name.as_str());
                            proof {
                                assert(da_view(before + inner@) =~= da_view(before) + da_view(
                                    inner@,
                                ));
                                assert(da_view(inner@) =~= (match node@.type_ {
                                    TypeView::Function(fv) => Seq::new(
                                        fv.args.len(),
                                        |j: int|
                                            if 0 <= j < fv.args.len() {
                                                (fv.name, fv.args[j], *fv.body->0)
                                            } else {
                                                vstd::pervasive::arbitrary()
                                            },
                                    ),
                                    _ => Seq::empty(),
                                }));
                                assert(da_view(before) + (da_view(inner@) + detect_args_from(
                                    self@,
                                    i + 1,
                                )) =~= (da_view(before) + da_view(inner@)) + detect_args_from(
                                    self@,
                                    i + 1,
                                ));
                            }
                            out.append(&mut inner);
                        },
                        None => {
                            proof {
                                assert(Seq::<(Seq<char>, ArgView, AstView)>::empty()
                                    + detect_args_from(self@, i + 1) =~= detect_args_from(
                                    self@,
                                    i + 1,
                                ));
                            }
                        },
                    }
                },
                _ => {
                    proof {
                        assert(Seq::<(Seq<char>, ArgView, AstView)>::empty() + detect_args_from(
                            self@,
                            i + 1,
                        ) =~= detect_args_from(self@, i + 1));
                    }
                },
            }
            i += 1;
        }
        proof {
            assert(detect_args_from(self@, i as int) =~= Seq::<(
                Seq<char>,
                ArgView,
                AstView,
            )>::empty());
            assert(da_view(out@) + Seq::<(Seq<char>, ArgView, AstView)>::empty() =~= da_view(
                out@,
            ));
        }
        out
    }

    /// Report the unused arguments: each declared argument whose
    /// function body never uses its text, tagged with the owning
    /// function's name, as [`unused_args_v`] describes.
    #[verifier::loop_isolation(false)]
    pub fn detect_unused_args(&self) -> (r: Vec<UnusedValues>)
        ensures
            unused_view(r@) == unused_args_v(self@),
    {
        let detected = self.detect_arg();
        let ghost triples = da_view(detected@);
        let mut out: Vec<UnusedValues> = Vec::new();
        let mut i: usize = 0;
        proof {
            assert(unused_view(out@) + unused_args_from(triples, 0) =~= unused_args_from(
                triples,
                0,
            ));
        }
        while i < detected.len()
            invariant
                i <= detected@.len(),
                triples == da_view(detected@),
                unused_args_from(triples, 0) == unused_view(out@) + unused_args_from(
                    triples,
                    i as int,
                ),
            decreases detected@.len() - i,
        {
            let ghost before = out@;
            let item = &detected[i];
            assert((item.func_name@, item.arg@, item.block@) == triples[i as int]);
            let unused = Self::detect_unused_args_block(&item.block, item.arg.value.as_str());
            if unused {
                out.push(UnusedValues::Argument(item.arg.clone(), item.func_name.clone()));
                proof {
                    assert(unused_view(out@) =~= unused_view(before).push(
                        UnusedView::Argument(item.arg@, item.func_name@),
                    ));
                    assert(unused_view(before) + (seq![
                        UnusedView::Argument(triples[i as int].1, triples[i as int].0),
                    ] + unused_args_from(triples, i + 1)) =~= unused_view(out@)
                        + unused_args_from(triples, i + 1));
                }
            } else {
                proof {
                    assert(Seq::<UnusedView>::empty() + unused_args_from(triples, i + 1)
                        =~= unused_args_from(triples, i + 1));
                }
            }
            i += 1;
        }
        proof {
            assert(unused_args_from(triples, i as int) =~= Seq::<UnusedView>::empty());
            assert(unused_view(out@) + Seq::<UnusedView>::empty() =~= unused_view(out@));
        }
        out
    }

    /// Find every unused value of the tree: the unused functions, then
    /// the unused variables, then the unused arguments, exactly as
    /// [`find_unused_v`] describes.
    pub fn find_unused(&self) -> (r: Vec<UnusedValues>)
        ensures
            unused_view(r@) == find_unused_v(self@),
    {
        let mut out = self.detect_unused_funcs();
        let ghost funcs = unused_view(out@);
        let mut vars = self.detect_unused_vars();
        let ghost varsv = unused_view(vars@);
        proof {
            assert(unused_view(out@ + vars@) =~= unused_view(out@) + unused_view(vars@));
        }
        out.append(&mut vars);
        let mut args = self.detect_unused_args();
        proof {
            assert(unused_view(out@ + args@) =~= unused_view(out@) + unused_view(args@));
            assert((funcs + varsv) + unused_args_v(self@) =~= find_unused_v(self@));
        }
        out.append(&mut args);
        out
    }
}



/// The line reported for one finding.
pub open spec fn unused_line(u: UnusedView) -> Seq<char> {
    match u {
        UnusedView::Variable(v) => "Found a unused variable, at line "@ + crate::text::dec_digits(
            v.line,
        ) + ", name "@ + v.name,
        UnusedView::Function(f) => "Found a unused function, at line "@ + crate::text::dec_digits(
            f.line,
        ) + ", name "@ + f.name,
        UnusedView::Argument(a, fname) => "Found a unused argument; name = "@ + a.value
            + ", in function "@ + fname,
    }
}

impl Ast {
    /// Render the findings as the warning lines a terminal sink should
    /// print, one line per finding, in order.
    pub fn log_unused(unused_values: &Vec<UnusedValues>) -> (r: Vec<String>)
        ensures
            r@.len() == unused_values@.len(),
            forall|i: int|
                0 <= i < r@.len() ==> (#[trigger] r@[i])@ == unused_line(unused_values@[i]@),
    {
        let mut out: Vec<String> = Vec::new();
        let mut i: usize = 0;
        while i < unused_values.len()
            invariant
                i <= unused_values@.len(),
                out@.len() == i,
                forall|j: int|
                    0 <= j < i ==> (#[trigger] out@[j])@ == unused_line(unused_values@[j]@),
            decreases unused_values@.len() - i,
        {
            let line: String = match &unused_values[i] {
                UnusedValues::Variable(var) => {
                    let mut st = String::new();
                    st.append("Found a unused variable, at line ");
                    let num = crate::text::usize_string(var.line);
                    st.append(num.as_str());
                    st.append(", name ");
                    st.append(var.name.as_str());
                    proof {
                        assert(st@ =~= unused_line(unused_values@[i as int]@));
                    }
                    st
                },
                UnusedValues::Function(func) => {
                    let mut st = String::new();
                    st.append("Found a unused function, at line ");
                    let num = crate::text::usize_string(func.line);
                    st.append(num.as_str());
                    st.append(", name ");
                    st.append(func.name.as_str());
                    proof {
                        assert(st@ =~= unused_line(unused_values@[i as int]@));
                    }
                    st
                },
                UnusedValues::Argument(arg, fname) => {
                    let mut st = String::new();
                    st.append("Found a unused argument; name = ");
                    st.append(arg.value.as_str());
                    st.append(", in function ");
                    st.append(fname.as_str());
                    proof {
                        assert(st@ =~= unused_line(unused_values@[i as int]@));
                    }
                    st
                },
            };
            out.push(line);
            i += 1;
        }
        out
    }
}

/// The analyzer is a function of the tree alone: any two finding
/// sequences that satisfy its description for the same tree are equal.
/// Running the analyzer twice over the same unmodified tree therefore
/// yields identical findings.
pub proof fn lemma_find_unused_deterministic(
    ast: AstView,
    r1: Seq<UnusedView>,
    r2: Seq<UnusedView>,
)
    requires
        r1 == find_unused_v(ast),
        r2 == find_unused_v(ast),
    ensures
        r1 == r2,
{
}

proof fn lemma_unused_funcs_from_no_main(funcs: Seq<FuncView>, used: Seq<Seq<char>>, i: int)
    ensures
        forall|k: int|
            0 <= k < unused_funcs_from(funcs, used, i).len() ==> match #[trigger] unused_funcs_from(
                funcs,
                used,
                i,
            )[k] {
                UnusedView::Function(f) => f.name != "main"@,
                _ => true,
            },
    decreases funcs.len() - i,
{
    if 0 <= i < funcs.len() {
        lemma_unused_funcs_from_no_main(funcs, used, i + 1);
        let head: Seq<UnusedView> = if funcs[i].name != "main"@ && !used.contains(funcs[i].name) {
            seq![UnusedView::Function(funcs[i])]
        } else {
            Seq::empty()
        };
        let rest = unused_funcs_from(funcs, used, i + 1);
        assert(unused_funcs_from(funcs, used, i) == head + rest);
        assert forall|k: int| 0 <= k < unused_funcs_from(funcs, used, i).len() implies match
            #[trigger] unused_funcs_from(funcs, used, i)[k] {
            UnusedView::Function(f) => f.name != "main"@,
            _ => true,
        } by {
            if k < head.len() {
                assert(unused_funcs_from(funcs, used, i)[k] == head[k]);
            } else {
                assert(unused_funcs_from(funcs, used, i)[k] == rest[k - head.len()]);
            }
        }
    }
}

proof fn lemma_unused_vars_from_variant(pairs: Seq<(AstView, VariableView)>, i: int)
    ensures
        forall|k: int|
            0 <= k < unused_vars_from(pairs, i).len() ==> (#[trigger] unused_vars_from(pairs, i)[k])
                matches UnusedView::Variable(_),
    decreases pairs.len() - i,
{
    if 0 <= i < pairs.len() {
        lemma_unused_vars_from_variant(pairs, i + 1);
        let head: Seq<UnusedView> = if !block_uses(pairs[i].0, pairs[i].1.name) {
            seq![UnusedView::Variable(pairs[i].1)]
        } else {
            Seq::empty()
        };
        let rest = unused_vars_from(pairs, i + 1);
        assert(unused_vars_from(pairs, i) == head + rest);
        assert forall|k: int| 0 <= k < unused_vars_from(pairs, i).len() implies (
        #[trigger] unused_vars_from(pairs, i)[k]) matches UnusedView::Variable(_) by {
            if k < head.len() {
                assert(unused_vars_from(pairs, i)[k] == head[k]);
            } else {
                assert(unused_vars_from(pairs, i)[k] == rest[k - head.len()]);
            }
        }
    }
}

proof fn lemma_unused_args_from_variant(triples: Seq<(Seq<char>, ArgView, AstView)>, i: int)
    ensures
        forall|k: int|
            0 <= k < unused_args_from(triples, i).len() ==> (#[trigger] unused_args_from(
                triples,
                i,
            )[k]) matches UnusedView::Argument(_, _),
    decreases triples.len() - i,
{
    if 0 <= i < triples.len() {
        lemma_unused_args_from_variant(triples, i + 1);
        let head: Seq<UnusedView> = if !arg_used_from(triples[i].2, 0, triples[i].1.value) {
            seq![UnusedView::Argument(triples[i].1, triples[i].0)]
        } else {
            Seq::empty()
        };
        let rest = unused_args_from(triples, i + 1);
        assert(unused_args_from(triples, i) == head + rest);
        assert forall|k: int| 0 <= k < unused_args_from(triples, i).len() implies (
        #[trigger] unused_args_from(triples, i)[k]) matches UnusedView::Argument(_, _) by {
            if k < head.len() {
                assert(unused_args_from(triples, i)[k] == head[k]);
            } else {
                assert(unused_args_from(triples, i)[k] == rest[k - head.len()]);
            }
        }
    }
}

/// A function named `main` is never reported unused, whatever the
/// call sites of the tree look like: no finding of the analyzer is a
/// function finding whose name is `main`.
pub proof fn lemma_main_never_unused(ast: AstView)
    ensures
        forall|k: int|
            0 <= k < find_unused_v(ast).len() ==> match #[trigger] find_unused_v(ast)[k] {
                UnusedView::Function(f) => f.name != "main"@,
                _ => true,
            },
{
    lemma_unused_funcs_from_no_main(detect_funcs_from(ast, 0), used_names_from(ast, 0), 0);
    lemma_unused_vars_from_variant(detect_vars_from(ast, 0), 0);
    lemma_unused_args_from_variant(detect_args_from(ast, 0), 0);
    let funcs = unused_funcs_v(ast);
    let vars = unused_vars_v(ast);
    let args = unused_args_v(ast);
    assert forall|k: int| 0 <= k < find_unused_v(ast).len() implies match #[trigger] find_unused_v(
        ast,
    )[k] {
        UnusedView::Function(f) => f.name != "main"@,
        _ => true,
    } by {
        if k < funcs.len() {
            assert(find_unused_v(ast)[k] == funcs[k]);
        } else if k < funcs.len() + vars.len() {
            assert(find_unused_v(ast)[k] == vars[k - funcs.len()]);
        } else {
            assert(find_unused_v(ast)[k] == args[k - funcs.len() - vars.len()]);
        }
    }
}




} // verus!
