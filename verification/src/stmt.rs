//! Statements of the syntax tree.

use vstd::prelude::*;
use crate::error::Error;
use crate::expr::Expr;
use crate::expr::ExprView;
use crate::token::Token;
use crate::token::TokenView;

verus! {

#[derive(Default, Debug, PartialEq)]
pub enum Stmt {
    Block { statements: Vec<Stmt> },
    /// `methods` holds `Function` statements only.
    Class { name: Token, superclass: Option<Expr>, methods: Vec<Stmt> },
    Expression { expr: Expr },
    Function { name: Token, params: Vec<Token>, body: Vec<Stmt> },
    If { condition: Expr, then_branch: Box<Stmt>, else_branch: Box<Option<Stmt>> },
    Print { expr: Expr },
    Return { keyword: Token, value: Option<Expr> },
    Var { name: Token, initializer: Option<Expr> },
    While { condition: Expr, body: Box<Stmt> },
    /// The empty statement: it does nothing.
    #[default]
    Null,
}

/// A statement as a mathematical tree.
pub enum StmtView {
    Block { statements: Seq<StmtView> },
    Class { name: TokenView, superclass: Option<ExprView>, methods: Seq<StmtView> },
    Expression { expr: ExprView },
    Function { name: TokenView, params: Seq<TokenView>, body: Seq<StmtView> },
    If { condition: ExprView, then_branch: Box<StmtView>, else_branch: Option<Box<StmtView>> },
    Print { expr: ExprView },
    Return { keyword: TokenView, value: Option<ExprView> },
    Var { name: TokenView, initializer: Option<ExprView> },
    While { condition: ExprView, body: Box<StmtView> },
    Null,
}

/// The view of an expression that may be missing.
pub open spec fn optional_view(expression: Option<Expr>) -> Option<ExprView> {
    match expression {
        Some(e) => Some(e@),
        None => None,
    }
}

/// The views of a list of tokens.
pub open spec fn tokens_view(tokens: Seq<Token>) -> Seq<TokenView> {
    Seq::new(tokens.len(), |i: int| tokens[i]@)
}

impl Stmt {
    /// The statement as a mathematical tree.
    pub open spec fn tree(&self) -> StmtView
        decreases self,
    {
        match self {
            Stmt::Block { statements } => StmtView::Block {
                statements: Seq::new(
                    statements@.len(),
                    |i: int|
                        if 0 <= i < statements@.len() {
                            statements@[i].tree()
                        } else {
                            StmtView::Null
                        },
                ),
            },
            Stmt::Class { name, superclass, methods } => StmtView::Class {
                name: name@,
                superclass: optional_view(*superclass),
                methods: Seq::new(
                    methods@.len(),
                    |i: int|
                        if 0 <= i < methods@.len() {
                            methods@[i].tree()
                        } else {
                            StmtView::Null
                        },
                ),
            },
            Stmt::Expression { expr } => StmtView::Expression { expr: expr@ },
            Stmt::Function { name, params, body } => StmtView::Function {
                name: name@,
                params: tokens_view(params@),
                body: Seq::new(
                    body@.len(),
                    |i: int|
                        if 0 <= i < body@.len() {
                            body@[i].tree()
                        } else {
                            StmtView::Null
                        },
                ),
            },
            Stmt::If { condition, then_branch, else_branch } => StmtView::If {
                condition: condition@,
                then_branch: Box::new((**then_branch).tree()),
                else_branch: match &**else_branch {
                    Some(other) => Some(Box::new(other.tree())),
                    None => None,
                },
            },
            Stmt::Print { expr } => StmtView::Print { expr: expr@ },
            Stmt::Return { keyword, value } => StmtView::Return {
                keyword: keyword@,
                value: optional_view(*value),
            },
            Stmt::Var { name, initializer } => StmtView::Var {
                name: name@,
                initializer: optional_view(*initializer),
            },
            Stmt::While { condition, body } => StmtView::While {
                condition: condition@,
                body: Box::new((**body).tree()),
            },
            Stmt::Null => StmtView::Null,
        }
    }
}

impl View for Stmt {
    type V = StmtView;

    open spec fn view(&self) -> StmtView {
        self.tree()
    }
}

/// The trees of a list of statements.
pub open spec fn stmts_view(statements: Seq<Stmt>) -> Seq<StmtView> {
    Seq::new(statements.len(), |i: int| statements[i]@)
}

/// Something that handles each kind of statement in a way of its own.
/// An implementation written outside verified code gives `visited` any
/// body, such as `true`; it is never run.
pub trait Visitor<R> {
    /// Whether a visit to `statement` that starts with the visitor as it
    /// is may leave it as `after` and give `result`. Each method promises
    /// a visit of this kind to the statement its arguments make up.
    spec fn visited(&self, after: &Self, statement: &Stmt, result: Result<R, Error>) -> bool;

    fn visit_block_stmt(&mut self, statements: &Vec<Stmt>) -> (r: Result<R, Error>)
        ensures
            old(self).visited(final(self), &(Stmt::Block { statements: *statements }), r),
    ;

    fn visit_expression_stmt(&mut self, expression: &Expr) -> (r: Result<R, Error>)
        ensures
            old(self).visited(final(self), &(Stmt::Expression { expr: *expression }), r),
    ;

    fn visit_print_stmt(&mut self, expression: &Expr) -> (r: Result<R, Error>)
        ensures
            old(self).visited(final(self), &(Stmt::Print { expr: *expression }), r),
    ;

    fn visit_var_stmt(&mut self, name: &Token, initializer: &Option<Expr>) -> (r: Result<R, Error>)
        ensures
            old(self).visited(
                final(self),
                &(Stmt::Var { name: *name, initializer: *initializer }),
                r,
            ),
    ;

    fn visit_if_stmt(
        &mut self,
        condition: &Expr,
        then_branch: &Stmt,
        else_branch: &Option<Stmt>,
    ) -> (r: Result<R, Error>)
        ensures
            old(self).visited(
                final(self),
                &(Stmt::If {
                    condition: *condition,
                    then_branch: Box::new(*then_branch),
                    else_branch: Box::new(*else_branch),
                }),
                r,
            ),
    ;

    fn visit_while_stmt(&mut self, condition: &Expr, body: &Stmt) -> (r: Result<R, Error>)
        ensures
            old(self).visited(
                final(self),
                &(Stmt::While { condition: *condition, body: Box::new(*body) }),
                r,
            ),
    ;

    fn visit_function_stmt(&mut self, name: &Token, params: &Vec<Token>, body: &Vec<Stmt>) -> (r:
        Result<R, Error>)
        ensures
            old(self).visited(
                final(self),
                &(Stmt::Function { name: *name, params: *params, body: *body }),
                r,
            ),
    ;

    fn visit_return_stmt(&mut self, keyword: &Token, value: &Option<Expr>) -> (r: Result<R, Error>)
        ensures
            old(self).visited(
                final(self),
                &(Stmt::Return { keyword: *keyword, value: *value }),
                r,
            ),
    ;

    fn visit_class_stmt(
        &mut self,
        name: &Token,
        superclass: &Option<Expr>,
        methods: &Vec<Stmt>,
    ) -> (r: Result<R, Error>)
        ensures
            old(self).visited(
                final(self),
                &(Stmt::Class { name: *name, superclass: *superclass, methods: *methods }),
                r,
            ),
    ;
}

impl Stmt {
    /// Hands the statement to the method of `visitor` that is there for
    /// its kind, and returns what that method returns. There is no method
    /// for the empty statement.
    pub fn accept<R, V: Visitor<R>>(&self, visitor: &mut V) -> (r: Result<R, Error>)
        requires
            !(self is Null),
        ensures
            old(visitor).visited(final(visitor), self, r),
    {
        match self {
            Stmt::Block { statements } => visitor.visit_block_stmt(statements),
            Stmt::Class { name, superclass, methods } => visitor.visit_class_stmt(
                name,
                superclass,
                methods,
            ),
            Stmt::Expression { expr } => visitor.visit_expression_stmt(expr),
            Stmt::Function { name, params, body } => visitor.visit_function_stmt(
                name,
                params,
                body,
            ),
            Stmt::If { condition, then_branch, else_branch } => visitor.visit_if_stmt(
                condition,
                &**then_branch,
                &**else_branch,
            ),
            Stmt::Print { expr } => visitor.visit_print_stmt(expr),
            Stmt::Return { keyword, value } => visitor.visit_return_stmt(keyword, value),
            Stmt::Var { name, initializer } => visitor.visit_var_stmt(name, initializer),
            Stmt::While { condition, body } => visitor.visit_while_stmt(condition, &**body),
            Stmt::Null => vstd::pervasive::unreached(),
        }
    }
}

} // verus!
