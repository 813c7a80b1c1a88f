//! The tree-shaped intermediate representation of the language: typed
//! values, expressions, comparisons and statements, grouped into
//! functions.
//!
//! Each representation type has a specification-level mirror carrying
//! names as character sequences, so that contracts over the code
//! generator can speak about the trees mathematically.

use vstd::prelude::*;
use crate::lexer::{Primitives, Token, TokenStream};

verus! {

/// The data types of the language; a single 64-bit integer type.
#[derive(Debug, PartialEq, Clone, Copy)]
pub enum IRType {
    Number,
}

/// A literal value of an [`IRType`].
#[derive(Debug, PartialEq, Clone, Copy)]
pub enum IRValue {
    Number(u64),
}

/// The arithmetic operations of the language.  Only `Add` and `Sub`
/// have a lowering rule; `Multiply` and `Divide` are representable but
/// rejected by the backend.
#[derive(Debug, PartialEq, Clone, Copy)]
pub enum IROperation {
    Add,
    Sub,
    Multiply,
    Divide,
}

/// An expression tree.
#[derive(Debug, PartialEq)]
pub enum IRExpression {
    Operation(IROperation, Vec<IRExpression>),
    Value(IRValue),
    Variable(String),
    Call(String, Vec<IRExpression>),
    Noop,
}

/// A comparison between two expressions.
#[derive(Debug, PartialEq)]
pub enum IRComparison {
    Equals(IRExpression, IRExpression),
    GreaterThan(IRExpression, IRExpression),
}

/// One statement of a function body.
#[derive(Debug, PartialEq)]
pub enum IRNode {
    SingleExpression(IRExpression),
    DeclareVariable(String, IRType),
    Assignment(String, IRExpression),
    Conditional(IRComparison, Vec<Vec<IRNode>>),
    Loop(IRComparison, Vec<Vec<IRNode>>),
    Return(Option<IRExpression>),
}

/// One declared parameter of a function.
#[derive(Debug, PartialEq)]
pub struct IRParameter {
    pub name: String,
    pub param_type: IRType,
}

/// One function: its signature and its body, a flat sequence of
/// statement-lists.
#[derive(Debug, PartialEq)]
pub struct IRFunction {
    pub name: String,
    pub return_type: Option<IRType>,
    pub parameters: Vec<IRParameter>,
    pub statements: Vec<Vec<IRNode>>,
}

/// Specification-level mirror of [`IRExpression`].
#[verifier::ext_equal]
pub enum ExprV {
    Operation(IROperation, Seq<ExprV>),
    Value(IRValue),
    Variable(Seq<char>),
    Call(Seq<char>, Seq<ExprV>),
    Noop,
}

/// Specification-level mirror of [`IRComparison`].
#[verifier::ext_equal]
pub enum CmpV {
    Equals(ExprV, ExprV),
    GreaterThan(ExprV, ExprV),
}

/// Specification-level mirror of [`IRNode`].
#[verifier::ext_equal]
pub enum NodeV {
    SingleExpression(ExprV),
    DeclareVariable(Seq<char>, IRType),
    Assignment(Seq<char>, ExprV),
    Conditional(CmpV, Seq<Seq<NodeV>>),
    Loop(CmpV, Seq<Seq<NodeV>>),
    Return(Option<ExprV>),
}

/// Specification-level mirror of [`IRParameter`].
#[verifier::ext_equal]
pub struct ParamV {
    pub name: Seq<char>,
    pub param_type: IRType,
}

/// Specification-level mirror of [`IRFunction`].
#[verifier::ext_equal]
pub struct FuncV {
    pub name: Seq<char>,
    pub return_type: Option<IRType>,
    pub parameters: Seq<ParamV>,
    pub statements: Seq<Seq<NodeV>>,
}

pub open spec fn expr_view(e: IRExpression) -> ExprV
    decreases e,
{
    match e {
        IRExpression::Operation(op, exps) => ExprV::Operation(op, expr_seq_view(exps@)),
        IRExpression::Value(v) => ExprV::Value(v),
        IRExpression::Variable(name) => ExprV::Variable(name@),
        IRExpression::Call(name, exps) => ExprV::Call(name@, expr_seq_view(exps@)),
        IRExpression::Noop => ExprV::Noop,
    }
}

pub open spec fn expr_seq_view(s: Seq<IRExpression>) -> Seq<ExprV>
    decreases s,
{
    if s.len() == 0 {
        Seq::empty()
    } else {
        expr_seq_view(s.drop_last()).push(expr_view(s.last()))
    }
}

pub open spec fn cmp_view(c: IRComparison) -> CmpV
    decreases c,
{
    match c {
        IRComparison::Equals(l, r) => CmpV::Equals(expr_view(l), expr_view(r)),
        IRComparison::GreaterThan(l, r) => CmpV::GreaterThan(expr_view(l), expr_view(r)),
    }
}

pub open spec fn node_view(n: IRNode) -> NodeV
    decreases n,
{
    match n {
        IRNode::SingleExpression(e) => NodeV::SingleExpression(expr_view(e)),
        IRNode::DeclareVariable(name, t) => NodeV::DeclareVariable(name@, t),
        IRNode::Assignment(name, e) => NodeV::Assignment(name@, expr_view(e)),
        IRNode::Conditional(c, body) => NodeV::Conditional(cmp_view(c), stmts_view(body@)),
        IRNode::Loop(c, body) => NodeV::Loop(cmp_view(c), stmts_view(body@)),
        IRNode::Return(e) => NodeV::Return(
            match e {
                Some(e) => Some(expr_view(e)),
                None => None,
            },
        ),
    }
}

pub open spec fn node_seq_view(s: Seq<IRNode>) -> Seq<NodeV>
    decreases s,
{
    if s.len() == 0 {
        Seq::empty()
    } else {
        node_seq_view(s.drop_last()).push(node_view(s.last()))
    }
}

pub open spec fn stmts_view(s: Seq<Vec<IRNode>>) -> Seq<Seq<NodeV>>
    decreases s,
{
    if s.len() == 0 {
        Seq::empty()
    } else {
        stmts_view(s.drop_last()).push(node_seq_view(s.last()@))
    }
}

pub open spec fn param_seq_view(s: Seq<IRParameter>) -> Seq<ParamV>
    decreases s,
{
    if s.len() == 0 {
        Seq::empty()
    } else {
        param_seq_view(s.drop_last()).push(s.last()@)
    }
}

impl View for IRExpression {
    type V = ExprV;

    open spec fn view(&self) -> ExprV {
        expr_view(*self)
    }
}

impl View for IRComparison {
    type V = CmpV;

    open spec fn view(&self) -> CmpV {
        cmp_view(*self)
    }
}

impl View for IRNode {
    type V = NodeV;

    open spec fn view(&self) -> NodeV {
        node_view(*self)
    }
}

impl View for IRParameter {
    type V = ParamV;

    open spec fn view(&self) -> ParamV {
        ParamV { name: self.name@, param_type: self.param_type }
    }
}

impl View for IRFunction {
    type V = FuncV;

    open spec fn view(&self) -> FuncV {
        FuncV {
            name: self.name@,
            return_type: self.return_type,
            parameters: param_seq_view(self.parameters@),
            statements: stmts_view(self.statements@),
        }
    }
}

pub broadcast proof fn lemma_expr_seq_view_props(s: Seq<IRExpression>)
    ensures
        #[trigger] expr_seq_view(s).len() == s.len(),
        forall|i: int|
            0 <= i < s.len() ==> #[trigger] expr_seq_view(s)[i] == expr_view(s[i]),
    decreases s,
{
    if s.len() > 0 {
        lemma_expr_seq_view_props(s.drop_last());
    }
}

pub broadcast proof fn lemma_node_seq_view_props(s: Seq<IRNode>)
    ensures
        #[trigger] node_seq_view(s).len() == s.len(),
        forall|i: int|
            0 <= i < s.len() ==> #[trigger] node_seq_view(s)[i] == node_view(s[i]),
    decreases s,
{
    if s.len() > 0 {
        lemma_node_seq_view_props(s.drop_last());
    }
}

pub broadcast proof fn lemma_stmts_view_props(s: Seq<Vec<IRNode>>)
    ensures
        #[trigger] stmts_view(s).len() == s.len(),
        forall|i: int|
            0 <= i < s.len() ==> #[trigger] stmts_view(s)[i] == node_seq_view(s[i]@),
    decreases s,
{
    if s.len() > 0 {
        lemma_stmts_view_props(s.drop_last());
    }
}

pub broadcast proof fn lemma_param_seq_view_props(s: Seq<IRParameter>)
    ensures
        #[trigger] param_seq_view(s).len() == s.len(),
        forall|i: int|
            0 <= i < s.len() ==> #[trigger] param_seq_view(s)[i] == s[i]@,
    decreases s,
{
    if s.len() > 0 {
        lemma_param_seq_view_props(s.drop_last());
    }
}



pub open spec fn func_seq_view(s: Seq<IRFunction>) -> Seq<FuncV>
    decreases s,
{
    if s.len() == 0 {
        Seq::empty()
    } else {
        func_seq_view(s.drop_last()).push(s.last()@)
    }
}

pub broadcast proof fn lemma_func_seq_view_props(s: Seq<IRFunction>)
    ensures
        #[trigger] func_seq_view(s).len() == s.len(),
        forall|i: int| 0 <= i < s.len() ==> #[trigger] func_seq_view(s)[i] == s[i]@,
    decreases s,
{
    if s.len() > 0 {
        lemma_func_seq_view_props(s.drop_last());
    }
}


/// Structural copy of an expression; the copy denotes the same tree.
pub fn copy_expr(e: &IRExpression) -> (r: IRExpression)
    ensures
        r@ == e@,
    decreases e,
{
    match e {
        IRExpression::Operation(op, exps) => IRExpression::Operation(*op, copy_expr_vec(exps)),
        IRExpression::Value(v) => IRExpression::Value(*v),
        IRExpression::Variable(name) => IRExpression::Variable(name.clone()),
        IRExpression::Call(name, exps) => IRExpression::Call(name.clone(), copy_expr_vec(exps)),
        IRExpression::Noop => IRExpression::Noop,
    }
}

#[verifier::loop_isolation(false)]
pub fn copy_expr_vec(es: &Vec<IRExpression>) -> (r: Vec<IRExpression>)
    ensures
        expr_seq_view(r@) == expr_seq_view(es@),
        r@.len() == es@.len(),
    decreases es@,
{
    broadcast use lemma_expr_seq_view_props;

    let mut r: Vec<IRExpression> = Vec::new();
    let mut i: usize = 0;
    proof {
        assert(es@.take(0) =~= Seq::<IRExpression>::empty());
        assert(expr_seq_view(r@) =~= expr_seq_view(es@.take(0)));
    }
    while i < es.len()
        invariant
            i <= es@.len(),
            r@.len() == i,
            expr_seq_view(r@) == expr_seq_view(es@.take(i as int)),
        decreases es@.len() - i,
    {
        let ghost prev = r@;
        r.push(copy_expr(&es[i]));
        proof {
            assert(r@.drop_last() =~= prev);
            assert(es@.take(i + 1).drop_last() =~= es@.take(i as int));
            assert(es@.take(i + 1).last() == es@[i as int]);
            assert(expr_seq_view(r@) =~= expr_seq_view(es@.take(i + 1)));
        }
        i = i + 1;
    }
    proof {
        assert(es@.take(es@.len() as int) =~= es@);
    }
    r
}

/// Structural copy of a comparison.
pub fn copy_cmp(c: &IRComparison) -> (r: IRComparison)
    ensures
        r@ == c@,
    decreases c,
{
    match c {
        IRComparison::Equals(l, rr) => IRComparison::Equals(copy_expr(l), copy_expr(rr)),
        IRComparison::GreaterThan(l, rr) => IRComparison::GreaterThan(copy_expr(l), copy_expr(rr)),
    }
}

/// Structural copy of a statement.
pub fn copy_node(n: &IRNode) -> (r: IRNode)
    ensures
        r@ == n@,
    decreases n,
{
    match n {
        IRNode::SingleExpression(e) => IRNode::SingleExpression(copy_expr(e)),
        IRNode::DeclareVariable(name, t) => IRNode::DeclareVariable(name.clone(), *t),
        IRNode::Assignment(name, e) => IRNode::Assignment(name.clone(), copy_expr(e)),
        IRNode::Conditional(c, body) => IRNode::Conditional(copy_cmp(c), copy_stmts(body)),
        IRNode::Loop(c, body) => IRNode::Loop(copy_cmp(c), copy_stmts(body)),
        IRNode::Return(e) => IRNode::Return(
            match e {
                Some(e) => Some(copy_expr(e)),
                None => None,
            },
        ),
    }
}

#[verifier::loop_isolation(false)]
pub fn copy_node_vec(ns: &Vec<IRNode>) -> (r: Vec<IRNode>)
    ensures
        node_seq_view(r@) == node_seq_view(ns@),
        r@.len() == ns@.len(),
    decreases ns@,
{
    broadcast use lemma_node_seq_view_props;

    let mut r: Vec<IRNode> = Vec::new();
    let mut i: usize = 0;
    proof {
        assert(ns@.take(0) =~= Seq::<IRNode>::empty());
        assert(node_seq_view(r@) =~= node_seq_view(ns@.take(0)));
    }
    while i < ns.len()
        invariant
            i <= ns@.len(),
            r@.len() == i,
            node_seq_view(r@) == node_seq_view(ns@.take(i as int)),
        decreases ns@.len() - i,
    {
        let ghost prev = r@;
        r.push(copy_node(&ns[i]));
        proof {
            assert(r@.drop_last() =~= prev);
            assert(ns@.take(i + 1).drop_last() =~= ns@.take(i as int));
            assert(ns@.take(i + 1).last() == ns@[i as int]);
            assert(node_seq_view(r@) =~= node_seq_view(ns@.take(i + 1)));
        }
        i = i + 1;
    }
    proof {
        assert(ns@.take(ns@.len() as int) =~= ns@);
    }
    r
}

/// Structural copy of a sequence of statement-lists.
#[verifier::loop_isolation(false)]
pub fn copy_stmts(ss: &Vec<Vec<IRNode>>) -> (r: Vec<Vec<IRNode>>)
    ensures
        stmts_view(r@) == stmts_view(ss@),
        r@.len() == ss@.len(),
    decreases ss@,
{
    broadcast use lemma_stmts_view_props;

    let mut r: Vec<Vec<IRNode>> = Vec::new();
    let mut i: usize = 0;
    proof {
        assert(ss@.take(0) =~= Seq::<Vec<IRNode>>::empty());
        assert(stmts_view(r@) =~= stmts_view(ss@.take(0)));
    }
    while i < ss.len()
        invariant
            i <= ss@.len(),
            r@.len() == i,
            stmts_view(r@) == stmts_view(ss@.take(i as int)),
        decreases ss@.len() - i,
    {
        let ghost prev = r@;
        r.push(copy_node_vec(&ss[i]));
        proof {
            assert(r@.drop_last() =~= prev);
            assert(ss@.take(i + 1).drop_last() =~= ss@.take(i as int));
            assert(ss@.take(i + 1).last() == ss@[i as int]);
            assert(stmts_view(r@) =~= stmts_view(ss@.take(i + 1)));
        }
        i = i + 1;
    }
    proof {
        assert(ss@.take(ss@.len() as int) =~= ss@);
    }
    r
}


/// No two functions of a parsed program share a name.
pub open spec fn unique_names(fs: Seq<IRFunction>) -> bool {
    forall|i: int, j: int|
        0 <= i < j < fs.len() ==> (#[trigger] fs[i]).name@ != (#[trigger] fs[j]).name@
}

/// Adds `func` to the program, replacing any earlier function of the
/// same name, so that names stay unique.
#[verifier::loop_isolation(false)]
fn insert_function(result: &mut Vec<IRFunction>, func: IRFunction)
    requires
        unique_names(old(result)@),
    ensures
        unique_names(final(result)@),
{
    let mut k: usize = 0;
    while k < result.len()
        invariant
            k <= result@.len(),
            unique_names(result@),
            result@ == old(result)@,
            forall|j: int| 0 <= j < k ==> (#[trigger] result@[j]).name@ != func.name@,
        decreases result@.len() - k,
    {
        if result[k].name.eq(&func.name) {
            result[k] = func;
            return ;
        }
        k = k + 1;
    }
    result.push(func);
}

/// Parses the token stream of a whole source file: a sequence of
/// `func name ( params ) [-> type] { body }` definitions.  A later
/// definition of an already-defined name replaces the earlier one, so
/// the resulting program maps each name to one function.
#[verifier::loop_isolation(false)]
pub fn parse(tokens: &[Token]) -> (r: Option<Vec<IRFunction>>)
    ensures
        match r {
            Some(funcs) => unique_names(funcs@),
            None => true,
        },
{
    let mut s = TokenStream::new(tokens);
    let mut result: Vec<IRFunction> = Vec::new();
    loop
        invariant
            s.wf(),
            unique_names(result@),
        decreases s@.len(),
    {
        let current = match s.peek() {
            Some(t) => t,
            None => {
                break;
            },
        };
        s.bump();
        match current {
            Token::Function => {
                let name = match s.peek() {
                    Some(Token::Identifier(name)) => {
                        let n = name.clone();
                        s.bump();
                        n
                    },
                    _ => {
                        return None;
                    },
                };
                match s.peek() {
                    Some(Token::OpenParan) => {
                        s.bump();
                    },
                    _ => {
                        return None;
                    },
                }
                let arguments = crate::parse_arguments::parse(&mut s);
                match s.peek() {
                    Some(Token::ClosingParan) => {
                        s.bump();
                    },
                    _ => {
                        return None;
                    },
                }
                let return_type = match s.peek() {
                    Some(Token::OpenCurly) => {
                        s.bump();
                        None
                    },
                    Some(Token::Arrow) => {
                        s.bump();
                        let prim = match s.peek() {
                            Some(Token::Primitive(prim)) => {
                                let t = match prim {
                                    Primitives::Number => IRType::Number,
                                };
                                s.bump();
                                t
                            },
                            _ => {
                                return None;
                            },
                        };
                        match s.peek() {
                            Some(Token::OpenCurly) => {
                                s.bump();
                            },
                            _ => {
                                return None;
                            },
                        }
                        Some(prim)
                    },
                    _ => {
                        return None;
                    },
                };
                let inner = match crate::parse_inner::inner_parse(&mut s) {
                    Some(i) => i,
                    None => {
                        return None;
                    },
                };
                let func = IRFunction {
                    name,
                    return_type,
                    parameters: arguments,
                    statements: inner,
                };
                insert_function(&mut result, func);
            },
            _ => {
                return None;
            },
        }
    }
    Some(result)
}

} // verus!
