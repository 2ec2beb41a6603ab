//! The abstract syntax tree: expressions, prototypes and function
//! definitions, together with their ghost mirrors used by the contracts.

use vstd::prelude::*;

verus! {

/// A binary operator: the built-in set plus user-declared operators,
/// identified by their single operator byte.
#[derive(Debug, Clone, Copy, PartialEq, Eq, Hash)]
pub enum BinaryOp {
    Equal,
    LessThan,
    Minus,
    Plus,
    Times,
    Custom(u8),
}

/// One binding of a `var` construct: a name and an optional initializer.
#[derive(Debug, PartialEq)]
pub struct Declaration {
    pub name: Vec<u8>,
    pub init_value: Option<Box<Expr>>,
}

/// One expression node.  Every composite node owns its children.
#[derive(Debug, PartialEq)]
pub enum Expr {
    /// A prefix operator applied to an operand.
    Unary(u8, Box<Expr>),
    /// An infix operator applied to two operands.
    Binary(BinaryOp, Box<Expr>, Box<Expr>),
    /// A call of a named function with its arguments in source order.
    Call(Vec<u8>, Vec<Expr>),
    /// A loop: bind the variable to `init_value`, run `body`, add `step`
    /// (default one) to the variable, repeat while `condition` is nonzero.
    For {
        body: Box<Expr>,
        variable_name: Vec<u8>,
        init_value: Box<Expr>,
        condition: Box<Expr>,
        step: Option<Box<Expr>>,
    },
    /// A conditional; the else branch is mandatory.
    If { condition: Box<Expr>, then: Box<Expr>, else_: Box<Expr> },
    /// A numeric literal, kept as its source text.
    Number(Vec<u8>),
    /// A variable read.
    Variable(Vec<u8>),
    /// A `var … in body` construct introducing scoped bindings.
    VariableDeclaration { declarations: Vec<Declaration>, body: Box<Expr> },
}

/// A function signature: its (possibly operator-mangled) name and its
/// parameter names in order.
#[derive(Debug, Clone, PartialEq)]
pub struct Prototype {
    pub function_name: Vec<u8>,
    pub parameters: Vec<Vec<u8>>,
}

/// A parsed function: a signature and one body expression.
#[derive(Debug, PartialEq)]
pub struct Function {
    pub prototype: Prototype,
    pub body: Expr,
}

/// Ghost mirror of `Declaration`.
pub struct DeclarationS {
    pub name: Seq<u8>,
    pub init_value: Option<Box<ExprS>>,
}

/// Ghost mirror of `Expr`.
pub enum ExprS {
    Unary(u8, Box<ExprS>),
    Binary(BinaryOp, Box<ExprS>, Box<ExprS>),
    Call(Seq<u8>, Seq<ExprS>),
    For {
        body: Box<ExprS>,
        variable_name: Seq<u8>,
        init_value: Box<ExprS>,
        condition: Box<ExprS>,
        step: Option<Box<ExprS>>,
    },
    If { condition: Box<ExprS>, then: Box<ExprS>, else_: Box<ExprS> },
    Number(Seq<u8>),
    Variable(Seq<u8>),
    VariableDeclaration { declarations: Seq<DeclarationS>, body: Box<ExprS> },
}

/// Ghost mirror of `Prototype`.
pub struct PrototypeS {
    pub function_name: Seq<u8>,
    pub parameters: Seq<Seq<u8>>,
}

/// Ghost mirror of `Function`.
pub struct FunctionS {
    pub prototype: PrototypeS,
    pub body: ExprS,
}

/// The ghost value of an expression.
pub open spec fn view_expr(e: Expr) -> ExprS
    decreases e,
{
    match e {
        Expr::Unary(op, operand) => ExprS::Unary(op, Box::new(view_expr(*operand))),
        Expr::Binary(op, left, right) => ExprS::Binary(
            op,
            Box::new(view_expr(*left)),
            Box::new(view_expr(*right)),
        ),
        Expr::Call(name, args) => ExprS::Call(name@, view_exprs(args@)),
        Expr::For { body, variable_name, init_value, condition, step } => ExprS::For {
            body: Box::new(view_expr(*body)),
            variable_name: variable_name@,
            init_value: Box::new(view_expr(*init_value)),
            condition: Box::new(view_expr(*condition)),
            step: match step {
                Some(e) => Some(Box::new(view_expr(*e))),
                None => None,
            },
        },
        Expr::If { condition, then, else_ } => ExprS::If {
            condition: Box::new(view_expr(*condition)),
            then: Box::new(view_expr(*then)),
            else_: Box::new(view_expr(*else_)),
        },
        Expr::Number(text) => ExprS::Number(text@),
        Expr::Variable(name) => ExprS::Variable(name@),
        Expr::VariableDeclaration { declarations, body } => ExprS::VariableDeclaration {
            declarations: view_decls(declarations@),
            body: Box::new(view_expr(*body)),
        },
    }
}

/// The ghost value of a list of expressions.
pub open spec fn view_exprs(es: Seq<Expr>) -> Seq<ExprS>
    decreases es,
{
    if es.len() == 0 {
        Seq::empty()
    } else {
        view_exprs(es.drop_last()).push(view_expr(es.last()))
    }
}

/// The ghost value of one declaration.
pub open spec fn view_decl(d: Declaration) -> DeclarationS
    decreases d,
{
    DeclarationS {
        name: d.name@,
        init_value: match d.init_value {
            Some(e) => Some(Box::new(view_expr(*e))),
            None => None,
        },
    }
}

/// The ghost value of a list of declarations.
pub open spec fn view_decls(ds: Seq<Declaration>) -> Seq<DeclarationS>
    decreases ds,
{
    if ds.len() == 0 {
        Seq::empty()
    } else {
        view_decls(ds.drop_last()).push(view_decl(ds.last()))
    }
}

impl View for Expr {
    type V = ExprS;

    open spec fn view(&self) -> ExprS {
        view_expr(*self)
    }
}

impl View for Declaration {
    type V = DeclarationS;

    open spec fn view(&self) -> DeclarationS {
        view_decl(*self)
    }
}

impl View for Prototype {
    type V = PrototypeS;

    open spec fn view(&self) -> PrototypeS {
        PrototypeS {
            function_name: self.function_name@,
            parameters: view_names(self.parameters@),
        }
    }
}

impl View for Function {
    type V = FunctionS;

    open spec fn view(&self) -> FunctionS {
        FunctionS { prototype: self.prototype@, body: self.body@ }
    }
}

/// The ghost value of a list of names.
pub open spec fn view_names(ns: Seq<Vec<u8>>) -> Seq<Seq<u8>>
    decreases ns,
{
    if ns.len() == 0 {
        Seq::empty()
    } else {
        view_names(ns.drop_last()).push(ns.last()@)
    }
}

/// Appending a name extends the ghost value by its bytes.
pub proof fn lemma_view_names_push(ns: Seq<Vec<u8>>, n: Vec<u8>)
    ensures
        view_names(ns.push(n)) == view_names(ns).push(n@),
{
    assert(ns.push(n).drop_last() =~= ns);
    assert(ns.push(n).last() == n);
}

/// Appending an expression extends the ghost value by its view.
pub proof fn lemma_view_exprs_push(es: Seq<Expr>, e: Expr)
    ensures
        view_exprs(es.push(e)) == view_exprs(es).push(view_expr(e)),
{
    assert(es.push(e).drop_last() =~= es);
    assert(es.push(e).last() == e);
}

/// Appending a declaration extends the ghost value by its view.
pub proof fn lemma_view_decls_push(ds: Seq<Declaration>, d: Declaration)
    ensures
        view_decls(ds.push(d)) == view_decls(ds).push(view_decl(d)),
{
    assert(ds.push(d).drop_last() =~= ds);
    assert(ds.push(d).last() == d);
}

/// The length of a viewed expression list.
pub proof fn lemma_view_exprs_len(es: Seq<Expr>)
    ensures
        view_exprs(es).len() == es.len(),
    decreases es,
{
    if es.len() > 0 {
        lemma_view_exprs_len(es.drop_last());
    }
}

/// The length of a viewed name list.
pub proof fn lemma_view_names_len(ns: Seq<Vec<u8>>)
    ensures
        view_names(ns).len() == ns.len(),
    decreases ns,
{
    if ns.len() > 0 {
        lemma_view_names_len(ns.drop_last());
    }
}

/// The length of a viewed declaration list.
pub proof fn lemma_view_decls_len(ds: Seq<Declaration>)
    ensures
        view_decls(ds).len() == ds.len(),
    decreases ds,
{
    if ds.len() > 0 {
        lemma_view_decls_len(ds.drop_last());
    }
}

} // verus!
