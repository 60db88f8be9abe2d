//! The parser: recursive descent over the token list, one method for
//! each rule of the grammar.

use vstd::prelude::*;
use crate::error::Callee;
use crate::error::Error;
use crate::error::ErrorView;
use crate::error::Message;
use crate::error::errors_view;
use crate::expr::Expr;
use crate::expr::ExprView;
use crate::expr::exprs_view;
use crate::grammar;
use crate::grammar::Cursor;
use crate::stmt::Stmt;
use crate::stmt::StmtView;
use crate::stmt::optional_view;
use crate::stmt::stmts_view;
use crate::stmt::tokens_view;
use crate::token::Literal;
use crate::token::Token;
use crate::token::TokenType;
use crate::token::TokenView;

verus! {

pub struct Parser {
    pub tokens: Vec<Token>,
    /// The place of the next token to look at.
    pub current: usize,
    /// Every error reported so far, in order.
    pub diagnostics: Vec<Error>,
}

/// The view of a result whose success has a view.
pub open spec fn result_view<T: View>(r: Result<T, Error>) -> Result<T::V, ErrorView> {
    match r {
        Ok(t) => Ok(t@),
        Err(e) => Err(e@),
    }
}

pub open spec fn stmts_result(r: Result<Vec<Stmt>, Error>) -> Result<Seq<StmtView>, ErrorView> {
    match r {
        Ok(v) => Ok(stmts_view(v@)),
        Err(e) => Err(e@),
    }
}

pub open spec fn exprs_result(r: Result<Vec<Expr>, Error>) -> Result<Seq<ExprView>, ErrorView> {
    match r {
        Ok(v) => Ok(exprs_view(v@)),
        Err(e) => Err(e@),
    }
}

pub open spec fn tokens_result(r: Result<Vec<Token>, Error>) -> Result<Seq<TokenView>, ErrorView> {
    match r {
        Ok(v) => Ok(tokens_view(v@)),
        Err(e) => Err(e@),
    }
}

pub open spec fn optional_stmt_result(r: Result<Option<Stmt>, Error>) -> Result<
    Option<StmtView>,
    ErrorView,
> {
    match r {
        Ok(Some(s)) => Ok(Some(s@)),
        Ok(None) => Ok(None),
        Err(e) => Err(e@),
    }
}

pub open spec fn optional_expr_result(r: Result<Option<Expr>, Error>) -> Result<
    Option<ExprView>,
    ErrorView,
> {
    match r {
        Ok(o) => Ok(optional_view(o)),
        Err(e) => Err(e@),
    }
}

pub open spec fn optional_stmt_view(statement: Option<Stmt>) -> Option<StmtView> {
    match statement {
        Some(s) => Some(s@),
        None => None,
    }
}

/// A block statement shows the statements it holds.
pub proof fn lemma_block_view(statements: Vec<Stmt>)
    ensures
        (Stmt::Block { statements })@ == (StmtView::Block { statements: stmts_view(statements@) }),
{
    let s = Stmt::Block { statements };
    assert(s@->Block_statements =~= stmts_view(statements@));
}

/// A function declaration shows its parameters and its body.
pub proof fn lemma_function_view(name: Token, params: Vec<Token>, body: Vec<Stmt>)
    ensures
        (Stmt::Function { name, params, body })@ == (StmtView::Function {
            name: name@,
            params: tokens_view(params@),
            body: stmts_view(body@),
        }),
{
    let s = Stmt::Function { name, params, body };
    assert(s@->Function_body =~= stmts_view(body@));
}

/// A class declaration shows its methods.
pub proof fn lemma_class_view(name: Token, superclass: Option<Expr>, methods: Vec<Stmt>)
    ensures
        (Stmt::Class { name, superclass, methods })@ == (StmtView::Class {
            name: name@,
            superclass: optional_view(superclass),
            methods: stmts_view(methods@),
        }),
{
    let s = Stmt::Class { name, superclass, methods };
    assert(s@->Class_methods =~= stmts_view(methods@));
}

/// A call shows its arguments.
pub proof fn lemma_call_view(callee: Box<Expr>, paren: Token, arguments: Vec<Expr>)
    ensures
        (Expr::Call { callee, paren, arguments })@ == (ExprView::Call {
            callee: Box::new((*callee)@),
            paren: paren@,
            arguments: exprs_view(arguments@),
        }),
{
    let e = Expr::Call { callee, paren, arguments };
    assert(e@->Call_arguments =~= exprs_view(arguments@));
}

/// Whether `kind` is an operator of binary level `level`.
fn is_operator(level: u8, kind: TokenType) -> (r: bool)
    ensures
        r == grammar::is_operator(level as nat, kind),
{
    if level == 0 {
        kind == TokenType::Slash || kind == TokenType::Star
    } else if level == 1 {
        kind == TokenType::Minus || kind == TokenType::Plus
    } else if level == 2 {
        kind == TokenType::Greater || kind == TokenType::GreaterEqual || kind == TokenType::Less
            || kind == TokenType::LessEqual
    } else if level == 3 {
        kind == TokenType::BangEqual || kind == TokenType::EqualEqual
    } else if level == 4 {
        kind == TokenType::And
    } else if level == 5 {
        kind == TokenType::Or
    } else {
        false
    }
}

fn begins_statement(kind: TokenType) -> (r: bool)
    ensures
        r == grammar::begins_statement(kind),
{
    kind == TokenType::Class || kind == TokenType::Fun || kind == TokenType::Var || kind
        == TokenType::For || kind == TokenType::If || kind == TokenType::While || kind
        == TokenType::Print || kind == TokenType::Return
}

/// A block of two statements.
fn pair(first: Stmt, second: Stmt) -> (r: Stmt)
    ensures
        r@ == (StmtView::Block { statements: seq![first@, second@] }),
{
    let mut statements: Vec<Stmt> = Vec::new();
    statements.push(first);
    statements.push(second);
    proof {
        lemma_block_view(statements);
        assert(stmts_view(statements@) =~= seq![first@, second@]);
    }
    Stmt::Block { statements }
}

/// Writes a `for` loop as the `while` loop it stands for.
fn desugar(initializer: Option<Stmt>, test: Option<Expr>, increment: Option<Expr>, body: Stmt) -> (r:
    Stmt)
    ensures
        r@ == grammar::desugared(
            optional_stmt_view(initializer),
            optional_view(test),
            optional_view(increment),
            body@,
        ),
{
    let stepped: Stmt = match increment {
        Some(step) => pair(body, Stmt::Expression { expr: step }),
        None => body,
    };
    let condition: Expr = match test {
        Some(t) => t,
        None => Expr::Literal { value: Literal::Bool(true) },
    };
    let looped: Stmt = Stmt::While { condition, body: Box::new(stepped) };
    match initializer {
        Some(init) => pair(init, looped),
        None => looped,
    }
}

impl Parser {
    /// The token list as the grammar sees it.
    pub open spec fn stream(&self) -> Seq<TokenView> {
        tokens_view(self.tokens@)
    }

    /// Where the parser stands, as the grammar sees it.
    pub open spec fn cursor(&self) -> Cursor {
        Cursor { current: self.current as nat, diagnostics: errors_view(self.diagnostics@) }
    }

    /// The token list ends in an end marker and the parser stands on one
    /// of its tokens.
    pub open spec fn wf(&self) -> bool {
        &&& self.tokens@.len() > 0
        &&& self.tokens@.last().kind == TokenType::Eof
        &&& self.current < self.tokens@.len()
    }

    /// This parser is `before` moved on, by at least one token if
    /// `strict`.
    pub open spec fn follows(&self, before: &Parser, strict: bool) -> bool {
        &&& self.wf()
        &&& self.tokens == before.tokens
        &&& self.current >= before.current
        &&& strict ==> self.current > before.current
    }

    /// A parser at the start of `tokens`, which must end in an end
    /// marker, as every scanned token list does.
    pub fn new(tokens: Vec<Token>) -> (r: Parser)
        requires
            tokens@.len() > 0,
            tokens@.last().kind == TokenType::Eof,
        ensures
            r.wf(),
            r.tokens == tokens,
            r.current == 0,
            r.diagnostics@.len() == 0,
    {
        Parser { tokens, current: 0, diagnostics: Vec::new() }
    }

    /// Whether anything has been reported.
    pub fn had_error(&self) -> (r: bool)
        ensures
            r == (self.diagnostics@.len() > 0),
    {
        self.diagnostics.len() > 0
    }

    fn peek(&self) -> (r: &Token)
        requires
            self.wf(),
        ensures
            *r == self.tokens@[self.current as int],
            r@ == self.stream()[self.current as int],
    {
        &self.tokens[self.current]
    }

    fn is_at_end(&self) -> (r: bool)
        requires
            self.wf(),
        ensures
            r == grammar::at_end(self.stream(), self.cursor()),
    {
        self.tokens[self.current].kind == TokenType::Eof
    }

    fn check(&self, kind: TokenType) -> (r: bool)
        requires
            self.wf(),
        ensures
            r == grammar::check(self.stream(), self.cursor(), kind),
    {
        let here: TokenType = self.tokens[self.current].kind;
        here != TokenType::Eof && here == kind
    }

    fn advance(&mut self)
        requires
            old(self).wf(),
        ensures
            final(self).follows(old(self), !grammar::at_end(old(self).stream(), old(self).cursor())),
            final(self).cursor() == grammar::advance(old(self).stream(), old(self).cursor()),
    {
        let count: usize = self.tokens.len();
        if self.current < count && self.tokens[self.current].kind != TokenType::Eof {
            self.current = self.current + 1;
        }
    }

    /// Takes the next token if it is of kind `kind`.
    fn matches(&mut self, kind: TokenType) -> (r: bool)
        requires
            old(self).wf(),
        ensures
            r == grammar::check(old(self).stream(), old(self).cursor(), kind),
            final(self).follows(old(self), r),
            final(self).cursor() == if r {
                grammar::advance(old(self).stream(), old(self).cursor())
            } else {
                old(self).cursor()
            },
    {
        if self.check(kind) {
            self.advance();
            true
        } else {
            false
        }
    }

    /// Reports `message` at `token` and goes on.
    fn report(&mut self, token: &Token, message: Message)
        requires
            old(self).wf(),
        ensures
            final(self).follows(old(self), false),
            final(self).current == old(self).current,
            final(self).cursor() == grammar::report(old(self).cursor(), token@, message),
    {
        self.diagnostics.push(Error::Parse { token: token.clone(), message });
        assert(errors_view(self.diagnostics@) =~= errors_view(old(self).diagnostics@).push(
            grammar::failure(token@, message),
        ));
    }

    /// Reports `message` at the token the parser stands on, and returns
    /// the error.
    fn error(&mut self, message: Message) -> (r: Error)
        requires
            old(self).wf(),
        ensures
            final(self).follows(old(self), false),
            final(self).current == old(self).current,
            final(self).cursor() == grammar::report(
                old(self).cursor(),
                old(self).stream()[old(self).current as int],
                message,
            ),
            r@ == grammar::failure(old(self).stream()[old(self).current as int], message),
    {
        let token: Token = self.peek().clone();
        self.report(&token, message);
        Error::Parse { token, message }
    }

    fn consume(&mut self, kind: TokenType, message: Message) -> (r: Result<Token, Error>)
        requires
            old(self).wf(),
        ensures
            final(self).follows(old(self), r is Ok),
            (final(self).cursor(), result_view(r)) == grammar::consume(
                old(self).stream(),
                old(self).cursor(),
                kind,
                message,
            ),
    {
        if self.check(kind) {
            let token: Token = self.peek().clone();
            self.advance();
            Ok(token)
        } else {
            Err(self.error(message))
        }
    }

    fn synchronize(&mut self)
        requires
            old(self).wf(),
        ensures
            final(self).follows(old(self), false),
            final(self).cursor() == grammar::synchronize(old(self).stream(), old(self).cursor()),
    {
        self.advance();
        loop
            invariant
                self.follows(old(self), false),
                grammar::skip_to_statement(self.stream(), self.cursor()) == grammar::synchronize(
                    old(self).stream(),
                    old(self).cursor(),
                ),
            decreases self.tokens.len() - self.current,
        {
            if self.is_at_end() {
                return ;
            }
            if self.current >= 1 && self.tokens[self.current - 1].kind == TokenType::Semicolon {
                return ;
            }
            if begins_statement(self.tokens[self.current].kind) {
                return ;
            }
            self.advance();
        }
    }

    fn primary(&mut self) -> (r: Result<Expr, Error>)
        requires
            old(self).wf(),
        ensures
            final(self).follows(old(self), r is Ok),
            (final(self).cursor(), result_view(r)) == grammar::primary(
                old(self).stream(),
                old(self).cursor(),
            ),
        decreases old(self).tokens.len() - old(self).current, 10nat,
    {
        reveal(grammar::primary);
        reveal(grammar::expression);
        if self.is_at_end() {
            return Err(self.error(Message::ExpectExpression));
        }
        let token: Token = self.peek().clone();
        match token.kind {
            TokenType::False => {
                self.advance();
                Ok(Expr::Literal { value: Literal::Bool(false) })
            },
            TokenType::True => {
                self.advance();
                Ok(Expr::Literal { value: Literal::Bool(true) })
            },
            TokenType::Nil => {
                self.advance();
                Ok(Expr::Literal { value: Literal::Nil })
            },
            TokenType::String | TokenType::Number => {
                self.advance();
                let value: Literal = match token.literal {
                    Some(l) => l,
                    None => Literal::Nil,
                };
                Ok(Expr::Literal { value })
            },
            TokenType::Super => {
                self.advance();
                match self.consume(TokenType::Dot, Message::ExpectDotAfterSuper) {
                    Err(e) => Err(e),
                    Ok(_) => match self.consume(
                        TokenType::Identifier,
                        Message::ExpectSuperclassMethodName,
                    ) {
                        Err(e) => Err(e),
                        Ok(method) => Ok(Expr::Super { keyword: token, method }),
                    },
                }
            },
            TokenType::This => {
                self.advance();
                Ok(Expr::This { keyword: token })
            },
            TokenType::Identifier => {
                self.advance();
                Ok(Expr::Variable { name: token })
            },
            TokenType::LeftParen => {
                self.advance();
                match self.expression() {
                    Err(e) => Err(e),
                    Ok(expr) => match self.consume(
                        TokenType::RightParen,
                        Message::ExpectParenAfterExpression,
                    ) {
                        Err(e) => Err(e),
                        Ok(_) => Ok(Expr::Grouping { expr: Box::new(expr) }),
                    },
                }
            },
            _ => Err(self.error(Message::ExpectExpression)),
        }
    }

    fn arguments(&mut self) -> (r: Result<Vec<Expr>, Error>)
        requires
            old(self).wf(),
        ensures
            final(self).follows(old(self), r is Ok),
            (final(self).cursor(), exprs_result(r)) == grammar::arguments(
                old(self).stream(),
                old(self).cursor(),
                Seq::empty(),
            ),
        decreases old(self).tokens.len() - old(self).current, 59nat,
    {
        let mut found: Vec<Expr> = Vec::new();
        assert(exprs_view(found@) =~= Seq::empty());
        loop
            invariant
                self.follows(old(self), false),
                grammar::arguments(self.stream(), self.cursor(), exprs_view(found@))
                    == grammar::arguments(old(self).stream(), old(self).cursor(), Seq::empty()),
            decreases self.tokens.len() - self.current,
        {
            reveal(grammar::arguments);
            reveal(grammar::expression);
            if found.len() >= 255 {
                let here: Token = self.peek().clone();
                self.report(&here, Message::TooManyArguments);
            }
            let ghost before = exprs_view(found@);
            match self.expression() {
                Err(e) => {
                    return Err(e);
                },
                Ok(argument) => {
                    found.push(argument);
                    assert(exprs_view(found@) =~= before.push(argument@));
                },
            }
            if !self.matches(TokenType::Comma) {
                return Ok(found);
            }
        }
    }

    fn finish_call(&mut self, callee: Expr) -> (r: Result<Expr, Error>)
        requires
            old(self).wf(),
        ensures
            final(self).follows(old(self), r is Ok),
            (final(self).cursor(), result_view(r)) == grammar::finish_call(
                old(self).stream(),
                old(self).cursor(),
                callee@,
            ),
        decreases old(self).tokens.len() - old(self).current, 60nat,
    {
        reveal(grammar::finish_call);
        reveal(grammar::arguments);
        let found: Vec<Expr> = if self.check(TokenType::RightParen) {
            let none: Vec<Expr> = Vec::new();
            assert(exprs_view(none@) =~= Seq::empty());
            none
        } else {
            match self.arguments() {
                Err(e) => {
                    return Err(e);
                },
                Ok(found) => found,
            }
        };
        match self.consume(TokenType::RightParen, Message::ExpectParenAfterArguments) {
            Err(e) => Err(e),
            Ok(paren) => {
                let callee: Box<Expr> = Box::new(callee);
                proof {
                    lemma_call_view(callee, paren, found);
                }
                Ok(Expr::Call { callee, paren, arguments: found })
            },
        }
    }

    fn call(&mut self) -> (r: Result<Expr, Error>)
        requires
            old(self).wf(),
        ensures
            final(self).follows(old(self), r is Ok),
            (final(self).cursor(), result_view(r)) == grammar::call(
                old(self).stream(),
                old(self).cursor(),
            ),
        decreases old(self).tokens.len() - old(self).current, 14nat,
    {
        reveal(grammar::call);
        reveal(grammar::call_rest);
        reveal(grammar::primary);
        reveal(grammar::finish_call);
        let mut expr: Expr = match self.primary() {
            Err(e) => {
                return Err(e);
            },
            Ok(expr) => expr,
        };
        loop
            invariant
                self.follows(old(self), true),
                grammar::call_rest(self.stream(), self.cursor(), expr@) == grammar::call(
                    old(self).stream(),
                    old(self).cursor(),
                ),
            decreases self.tokens.len() - self.current,
        {
            reveal(grammar::call);
            reveal(grammar::call_rest);
            reveal(grammar::primary);
            reveal(grammar::finish_call);
            if self.matches(TokenType::LeftParen) {
                match self.finish_call(expr) {
                    Err(e) => {
                        return Err(e);
                    },
                    Ok(called) => {
                        expr = called;
                    },
                }
            } else if self.matches(TokenType::Dot) {
                match self.consume(TokenType::Identifier, Message::ExpectPropertyName) {
                    Err(e) => {
                        return Err(e);
                    },
                    Ok(name) => {
                        expr = Expr::Get { object: Box::new(expr), name };
                    },
                }
            } else {
                return Ok(expr);
            }
        }
    }

    fn unary(&mut self) -> (r: Result<Expr, Error>)
        requires
            old(self).wf(),
        ensures
            final(self).follows(old(self), r is Ok),
            (final(self).cursor(), result_view(r)) == grammar::unary(
                old(self).stream(),
                old(self).cursor(),
            ),
        decreases old(self).tokens.len() - old(self).current, 15nat,
    {
        reveal(grammar::unary);
        reveal(grammar::call);
        if self.check(TokenType::Bang) || self.check(TokenType::Minus) {
            let operator: Token = self.peek().clone();
            self.advance();
            match self.unary() {
                Err(e) => Err(e),
                Ok(right) => Ok(Expr::Unary { operator, right: Box::new(right) }),
            }
        } else {
            self.call()
        }
    }

    fn operand(&mut self, level: u8) -> (r: Result<Expr, Error>)
        requires
            old(self).wf(),
        ensures
            final(self).follows(old(self), r is Ok),
            (final(self).cursor(), result_view(r)) == grammar::operand(
                old(self).stream(),
                old(self).cursor(),
                level as nat,
            ),
        decreases old(self).tokens.len() - old(self).current, 20 + 3 * level,
    {
        reveal(grammar::operand);
        reveal(grammar::unary);
        reveal(grammar::binary);
        if level == 0 {
            self.unary()
        } else {
            self.binary(level - 1)
        }
    }

    /// An expression of binary level `level`: 0 is a factor, 1 a term, 2
    /// a comparison, 3 an equality, 4 an `and`, 5 an `or`. Operators of
    /// one level group from the left.
    fn binary(&mut self, level: u8) -> (r: Result<Expr, Error>)
        requires
            old(self).wf(),
        ensures
            final(self).follows(old(self), r is Ok),
            (final(self).cursor(), result_view(r)) == grammar::binary(
                old(self).stream(),
                old(self).cursor(),
                level as nat,
            ),
        decreases old(self).tokens.len() - old(self).current, 22 + 3 * level,
    {
        reveal(grammar::binary);
        reveal(grammar::binary_rest);
        reveal(grammar::operand);
        let mut expr: Expr = match self.operand(level) {
            Err(e) => {
                return Err(e);
            },
            Ok(expr) => expr,
        };
        loop
            invariant
                self.follows(old(self), true),
                grammar::binary_rest(self.stream(), self.cursor(), level as nat, expr@)
                    == grammar::binary(old(self).stream(), old(self).cursor(), level as nat),
            decreases self.tokens.len() - self.current,
        {
            reveal(grammar::binary);
            reveal(grammar::binary_rest);
            reveal(grammar::operand);
            if self.is_at_end() || !is_operator(level, self.peek().kind) {
                return Ok(expr);
            }
            let operator: Token = self.peek().clone();
            self.advance();
            match self.operand(level) {
                Err(e) => {
                    return Err(e);
                },
                Ok(right) => {
                    expr = if level >= 4 {
                        Expr::Logical { left: Box::new(expr), operator, right: Box::new(right) }
                    } else {
                        Expr::Binary { left: Box::new(expr), operator, right: Box::new(right) }
                    };
                },
            }
        }
    }

    fn assignment(&mut self) -> (r: Result<Expr, Error>)
        requires
            old(self).wf(),
        ensures
            final(self).follows(old(self), r is Ok),
            (final(self).cursor(), result_view(r)) == grammar::assignment(
                old(self).stream(),
                old(self).cursor(),
            ),
        decreases old(self).tokens.len() - old(self).current, 42nat,
    {
        reveal(grammar::assignment);
        reveal(grammar::binary);
        let target: Expr = match self.binary(5) {
            Err(e) => {
                return Err(e);
            },
            Ok(expr) => expr,
        };
        if self.check(TokenType::Equal) {
            let equals: Token = self.peek().clone();
            self.advance();
            match self.assignment() {
                Err(e) => Err(e),
                Ok(value) => match target {
                    Expr::Variable { name } => Ok(Expr::Assign { name, value: Box::new(value) }),
                    Expr::Get { object, name } => Ok(
                        Expr::SetProperty { object, name, value: Box::new(value) },
                    ),
                    other => {
                        self.report(&equals, Message::InvalidAssignmentTarget);
                        Ok(other)
                    },
                },
            }
        } else {
            Ok(target)
        }
    }

    fn expression(&mut self) -> (r: Result<Expr, Error>)
        requires
            old(self).wf(),
        ensures
            final(self).follows(old(self), r is Ok),
            (final(self).cursor(), result_view(r)) == grammar::expression(
                old(self).stream(),
                old(self).cursor(),
            ),
        decreases old(self).tokens.len() - old(self).current, 43nat,
    {
        reveal(grammar::expression);
        reveal(grammar::assignment);
        self.assignment()
    }

    /// An expression and the `;` that ends it.
    fn terminated(&mut self, message: Message) -> (r: Result<Expr, Error>)
        requires
            old(self).wf(),
        ensures
            final(self).follows(old(self), r is Ok),
            (final(self).cursor(), result_view(r)) == grammar::terminated(
                old(self).stream(),
                old(self).cursor(),
                message,
            ),
        decreases old(self).tokens.len() - old(self).current, 44nat,
    {
        reveal(grammar::terminated);
        reveal(grammar::expression);
        match self.expression() {
            Err(e) => Err(e),
            Ok(expr) => match self.consume(TokenType::Semicolon, message) {
                Err(e) => Err(e),
                Ok(_) => Ok(expr),
            },
        }
    }

    fn expression_statement(&mut self) -> (r: Result<Stmt, Error>)
        requires
            old(self).wf(),
        ensures
            final(self).follows(old(self), r is Ok),
            (final(self).cursor(), result_view(r)) == grammar::expression_statement(
                old(self).stream(),
                old(self).cursor(),
            ),
        decreases old(self).tokens.len() - old(self).current, 45nat,
    {
        reveal(grammar::expression_statement);
        reveal(grammar::terminated);
        match self.terminated(Message::ExpectSemicolonAfterValue) {
            Err(e) => Err(e),
            Ok(expr) => Ok(Stmt::Expression { expr }),
        }
    }

    fn print_statement(&mut self) -> (r: Result<Stmt, Error>)
        requires
            old(self).wf(),
        ensures
            final(self).follows(old(self), r is Ok),
            (final(self).cursor(), result_view(r)) == grammar::print_statement(
                old(self).stream(),
                old(self).cursor(),
            ),
        decreases old(self).tokens.len() - old(self).current, 45nat,
    {
        reveal(grammar::print_statement);
        reveal(grammar::terminated);
        match self.terminated(Message::ExpectSemicolonAfterValue) {
            Err(e) => Err(e),
            Ok(expr) => Ok(Stmt::Print { expr }),
        }
    }

    fn return_statement(&mut self, keyword: Token) -> (r: Result<Stmt, Error>)
        requires
            old(self).wf(),
        ensures
            final(self).follows(old(self), r is Ok),
            (final(self).cursor(), result_view(r)) == grammar::return_statement(
                old(self).stream(),
                old(self).cursor(),
                keyword@,
            ),
        decreases old(self).tokens.len() - old(self).current, 45nat,
    {
        reveal(grammar::return_statement);
        reveal(grammar::terminated);
        if self.matches(TokenType::Semicolon) {
            Ok(Stmt::Return { keyword, value: None })
        } else {
            match self.terminated(Message::ExpectSemicolonAfterReturn) {
                Err(e) => Err(e),
                Ok(expr) => Ok(Stmt::Return { keyword, value: Some(expr) }),
            }
        }
    }

    fn var_declaration(&mut self) -> (r: Result<Stmt, Error>)
        requires
            old(self).wf(),
        ensures
            final(self).follows(old(self), r is Ok),
            (final(self).cursor(), result_view(r)) == grammar::var_declaration(
                old(self).stream(),
                old(self).cursor(),
            ),
        decreases old(self).tokens.len() - old(self).current, 46nat,
    {
        reveal(grammar::var_declaration);
        reveal(grammar::terminated);
        let name: Token = match self.consume(TokenType::Identifier, Message::ExpectVariableName) {
            Err(e) => {
                return Err(e);
            },
            Ok(name) => name,
        };
        if self.matches(TokenType::Equal) {
            match self.terminated(Message::ExpectSemicolonAfterVariable) {
                Err(e) => Err(e),
                Ok(init) => Ok(Stmt::Var { name, initializer: Some(init) }),
            }
        } else {
            match self.consume(TokenType::Semicolon, Message::ExpectSemicolonAfterVariable) {
                Err(e) => Err(e),
                Ok(_) => Ok(Stmt::Var { name, initializer: None }),
            }
        }
    }

    /// A condition in parentheses.
    fn condition(&mut self, open: Message, close: Message) -> (r: Result<Expr, Error>)
        requires
            old(self).wf(),
        ensures
            final(self).follows(old(self), r is Ok),
            (final(self).cursor(), result_view(r)) == grammar::condition(
                old(self).stream(),
                old(self).cursor(),
                open,
                close,
            ),
        decreases old(self).tokens.len() - old(self).current, 44nat,
    {
        reveal(grammar::condition);
        reveal(grammar::expression);
        match self.consume(TokenType::LeftParen, open) {
            Err(e) => Err(e),
            Ok(_) => match self.expression() {
                Err(e) => Err(e),
                Ok(expr) => match self.consume(TokenType::RightParen, close) {
                    Err(e) => Err(e),
                    Ok(_) => Ok(expr),
                },
            },
        }
    }

    fn while_statement(&mut self) -> (r: Result<Stmt, Error>)
        requires
            old(self).wf(),
        ensures
            final(self).follows(old(self), r is Ok),
            (final(self).cursor(), result_view(r)) == grammar::while_statement(
                old(self).stream(),
                old(self).cursor(),
            ),
        decreases old(self).tokens.len() - old(self).current, 47nat,
    {
        reveal(grammar::while_statement);
        reveal(grammar::condition);
        reveal(grammar::statement);
        match self.condition(Message::ExpectParenAfterWhile, Message::ExpectParenAfterCondition) {
            Err(e) => Err(e),
            Ok(condition) => match self.statement() {
                Err(e) => Err(e),
                Ok(body) => Ok(Stmt::While { condition, body: Box::new(body) }),
            },
        }
    }

    fn if_statement(&mut self) -> (r: Result<Stmt, Error>)
        requires
            old(self).wf(),
        ensures
            final(self).follows(old(self), r is Ok),
            (final(self).cursor(), result_view(r)) == grammar::if_statement(
                old(self).stream(),
                old(self).cursor(),
            ),
        decreases old(self).tokens.len() - old(self).current, 47nat,
    {
        reveal(grammar::if_statement);
        reveal(grammar::condition);
        reveal(grammar::statement);
        let condition: Expr = match self.condition(
            Message::ExpectParenAfterIf,
            Message::ExpectParenAfterIfCondition,
        ) {
            Err(e) => {
                return Err(e);
            },
            Ok(condition) => condition,
        };
        let first: Stmt = match self.statement() {
            Err(e) => {
                return Err(e);
            },
            Ok(first) => first,
        };
        if self.matches(TokenType::Else) {
            match self.statement() {
                Err(e) => Err(e),
                Ok(second) => Ok(
                    Stmt::If {
                        condition,
                        then_branch: Box::new(first),
                        else_branch: Box::new(Some(second)),
                    },
                ),
            }
        } else {
            Ok(
                Stmt::If {
                    condition,
                    then_branch: Box::new(first),
                    else_branch: Box::new(None),
                },
            )
        }
    }

    fn for_initializer(&mut self) -> (r: Result<Option<Stmt>, Error>)
        requires
            old(self).wf(),
        ensures
            final(self).follows(old(self), r is Ok),
            (final(self).cursor(), optional_stmt_result(r)) == grammar::for_initializer(
                old(self).stream(),
                old(self).cursor(),
            ),
        decreases old(self).tokens.len() - old(self).current, 47nat,
    {
        reveal(grammar::for_initializer);
        reveal(grammar::var_declaration);
        reveal(grammar::expression_statement);
        if self.matches(TokenType::Semicolon) {
            Ok(None)
        } else {
            let r: Result<Stmt, Error> = if self.matches(TokenType::Var) {
                self.var_declaration()
            } else {
                self.expression_statement()
            };
            match r {
                Err(e) => Err(e),
                Ok(stmt) => Ok(Some(stmt)),
            }
        }
    }

    fn for_clause(&mut self, end: TokenType, message: Message) -> (r: Result<Option<Expr>, Error>)
        requires
            old(self).wf(),
        ensures
            final(self).follows(old(self), r is Ok),
            (final(self).cursor(), optional_expr_result(r)) == grammar::for_clause(
                old(self).stream(),
                old(self).cursor(),
                end,
                message,
            ),
        decreases old(self).tokens.len() - old(self).current, 47nat,
    {
        reveal(grammar::for_clause);
        reveal(grammar::expression);
        if self.matches(end) {
            Ok(None)
        } else {
            match self.expression() {
                Err(e) => Err(e),
                Ok(expr) => match self.consume(end, message) {
                    Err(e) => Err(e),
                    Ok(_) => Ok(Some(expr)),
                },
            }
        }
    }

    fn for_statement(&mut self) -> (r: Result<Stmt, Error>)
        requires
            old(self).wf(),
        ensures
            final(self).follows(old(self), r is Ok),
            (final(self).cursor(), result_view(r)) == grammar::for_statement(
                old(self).stream(),
                old(self).cursor(),
            ),
        decreases old(self).tokens.len() - old(self).current, 48nat,
    {
        reveal(grammar::for_statement);
        reveal(grammar::for_initializer);
        reveal(grammar::for_clause);
        reveal(grammar::statement);
        match self.consume(TokenType::LeftParen, Message::ExpectParenAfterFor) {
            Err(e) => {
                return Err(e);
            },
            Ok(_) => {},
        }
        let initializer: Option<Stmt> = match self.for_initializer() {
            Err(e) => {
                return Err(e);
            },
            Ok(initializer) => initializer,
        };
        let test: Option<Expr> = match self.for_clause(
            TokenType::Semicolon,
            Message::ExpectSemicolonAfterLoopCondition,
        ) {
            Err(e) => {
                return Err(e);
            },
            Ok(test) => test,
        };
        let increment: Option<Expr> = match self.for_clause(
            TokenType::RightParen,
            Message::ExpectParenAfterForClauses,
        ) {
            Err(e) => {
                return Err(e);
            },
            Ok(increment) => increment,
        };
        match self.statement() {
            Err(e) => Err(e),
            Ok(body) => Ok(desugar(initializer, test, increment, body)),
        }
    }

    fn block(&mut self) -> (r: Result<Vec<Stmt>, Error>)
        requires
            old(self).wf(),
        ensures
            final(self).follows(old(self), r is Ok),
            (final(self).cursor(), stmts_result(r)) == grammar::block(
                old(self).stream(),
                old(self).cursor(),
            ),
        decreases old(self).tokens.len() - old(self).current, 60nat,
    {
        reveal(grammar::block);
        reveal(grammar::block_rest);
        reveal(grammar::declaration);
        let mut found: Vec<Stmt> = Vec::new();
        assert(stmts_view(found@) =~= Seq::empty());
        loop
            invariant
                self.follows(old(self), false),
                grammar::block_rest(self.stream(), self.cursor(), stmts_view(found@))
                    == grammar::block(old(self).stream(), old(self).cursor()),
            decreases self.tokens.len() - self.current,
        {
            reveal(grammar::block);
            reveal(grammar::block_rest);
            reveal(grammar::declaration);
            if self.check(TokenType::RightBrace) || self.is_at_end() {
                return match self.consume(TokenType::RightBrace, Message::ExpectBraceAfterBlock) {
                    Err(e) => Err(e),
                    Ok(_) => Ok(found),
                };
            }
            let ghost before = stmts_view(found@);
            match self.declaration() {
                Err(e) => {
                    return Err(e);
                },
                Ok(stmt) => {
                    found.push(stmt);
                    assert(stmts_view(found@) =~= before.push(stmt@));
                },
            }
        }
    }

    fn statement(&mut self) -> (r: Result<Stmt, Error>)
        requires
            old(self).wf(),
        ensures
            final(self).follows(old(self), r is Ok),
            (final(self).cursor(), result_view(r)) == grammar::statement(
                old(self).stream(),
                old(self).cursor(),
            ),
        decreases old(self).tokens.len() - old(self).current, 49nat,
    {
        reveal(grammar::statement);
        reveal(grammar::print_statement);
        reveal(grammar::return_statement);
        reveal(grammar::for_statement);
        reveal(grammar::if_statement);
        reveal(grammar::while_statement);
        reveal(grammar::block);
        reveal(grammar::expression_statement);
        if self.matches(TokenType::Print) {
            self.print_statement()
        } else if self.check(TokenType::Return) {
            let keyword: Token = self.peek().clone();
            self.advance();
            self.return_statement(keyword)
        } else if self.matches(TokenType::For) {
            self.for_statement()
        } else if self.matches(TokenType::If) {
            self.if_statement()
        } else if self.matches(TokenType::While) {
            self.while_statement()
        } else if self.matches(TokenType::LeftBrace) {
            match self.block() {
                Err(e) => Err(e),
                Ok(statements) => {
                    proof {
                        lemma_block_view(statements);
                    }
                    Ok(Stmt::Block { statements })
                },
            }
        } else {
            self.expression_statement()
        }
    }

    fn parameters(&mut self) -> (r: Result<Vec<Token>, Error>)
        requires
            old(self).wf(),
        ensures
            final(self).follows(old(self), r is Ok),
            (final(self).cursor(), tokens_result(r)) == grammar::parameters(
                old(self).stream(),
                old(self).cursor(),
                Seq::empty(),
            ),
    {
        let mut found: Vec<Token> = Vec::new();
        assert(tokens_view(found@) =~= Seq::empty());
        loop
            invariant
                self.follows(old(self), false),
                grammar::parameters(self.stream(), self.cursor(), tokens_view(found@))
                    == grammar::parameters(old(self).stream(), old(self).cursor(), Seq::empty()),
            decreases self.tokens.len() - self.current,
        {
            if found.len() >= 255 {
                let here: Token = self.peek().clone();
                self.report(&here, Message::TooManyParameters);
            }
            let ghost before = tokens_view(found@);
            match self.consume(TokenType::Identifier, Message::ExpectParameterName) {
                Err(e) => {
                    return Err(e);
                },
                Ok(name) => {
                    found.push(name);
                    assert(tokens_view(found@) =~= before.push(name@));
                },
            }
            if !self.matches(TokenType::Comma) {
                return Ok(found);
            }
        }
    }

    /// A function or method declaration, from its name on.
    fn function(&mut self, kind: Callee) -> (r: Result<Stmt, Error>)
        requires
            old(self).wf(),
        ensures
            final(self).follows(old(self), r is Ok),
            (final(self).cursor(), result_view(r)) == grammar::function(
                old(self).stream(),
                old(self).cursor(),
                kind,
            ),
        decreases old(self).tokens.len() - old(self).current, 55nat,
    {
        reveal(grammar::function);
        reveal(grammar::block);
        let name: Token = match self.consume(
            TokenType::Identifier,
            Message::ExpectCalleeName(kind),
        ) {
            Err(e) => {
                return Err(e);
            },
            Ok(name) => name,
        };
        match self.consume(TokenType::LeftParen, Message::ExpectParenAfterCalleeName(kind)) {
            Err(e) => {
                return Err(e);
            },
            Ok(_) => {},
        }
        let params: Vec<Token> = if self.check(TokenType::RightParen) {
            let none: Vec<Token> = Vec::new();
            assert(tokens_view(none@) =~= Seq::empty());
            none
        } else {
            match self.parameters() {
                Err(e) => {
                    return Err(e);
                },
                Ok(params) => params,
            }
        };
        match self.consume(TokenType::RightParen, Message::ExpectParenAfterParameters) {
            Err(e) => {
                return Err(e);
            },
            Ok(_) => {},
        }
        match self.consume(TokenType::LeftBrace, Message::ExpectBraceBeforeBody(kind)) {
            Err(e) => {
                return Err(e);
            },
            Ok(_) => {},
        }
        match self.block() {
            Err(e) => Err(e),
            Ok(body) => {
                proof {
                    lemma_function_view(name, params, body);
                }
                Ok(Stmt::Function { name, params, body })
            },
        }
    }

    fn methods(&mut self) -> (r: Result<Vec<Stmt>, Error>)
        requires
            old(self).wf(),
        ensures
            final(self).follows(old(self), r is Ok),
            (final(self).cursor(), stmts_result(r)) == grammar::methods(
                old(self).stream(),
                old(self).cursor(),
                Seq::empty(),
            ),
        decreases old(self).tokens.len() - old(self).current, 59nat,
    {
        let mut found: Vec<Stmt> = Vec::new();
        assert(stmts_view(found@) =~= Seq::empty());
        loop
            invariant
                self.follows(old(self), false),
                grammar::methods(self.stream(), self.cursor(), stmts_view(found@))
                    == grammar::methods(old(self).stream(), old(self).cursor(), Seq::empty()),
            decreases self.tokens.len() - self.current,
        {
            reveal(grammar::methods);
            reveal(grammar::function);
            if self.check(TokenType::RightBrace) || self.is_at_end() {
                return match self.consume(
                    TokenType::RightBrace,
                    Message::ExpectBraceAfterClassBody,
                ) {
                    Err(e) => Err(e),
                    Ok(_) => Ok(found),
                };
            }
            let ghost before = stmts_view(found@);
            match self.function(Callee::Method) {
                Err(e) => {
                    return Err(e);
                },
                Ok(method) => {
                    found.push(method);
                    assert(stmts_view(found@) =~= before.push(method@));
                },
            }
        }
    }

    fn superclass(&mut self) -> (r: Result<Option<Expr>, Error>)
        requires
            old(self).wf(),
        ensures
            final(self).follows(old(self), false),
            (final(self).cursor(), optional_expr_result(r)) == grammar::superclass(
                old(self).stream(),
                old(self).cursor(),
            ),
    {
        if self.matches(TokenType::Less) {
            match self.consume(TokenType::Identifier, Message::ExpectSuperclassName) {
                Err(e) => Err(e),
                Ok(name) => Ok(Some(Expr::Variable { name })),
            }
        } else {
            Ok(None)
        }
    }

    fn class_declaration(&mut self) -> (r: Result<Stmt, Error>)
        requires
            old(self).wf(),
        ensures
            final(self).follows(old(self), r is Ok),
            (final(self).cursor(), result_view(r)) == grammar::class_declaration(
                old(self).stream(),
                old(self).cursor(),
            ),
        decreases old(self).tokens.len() - old(self).current, 60nat,
    {
        reveal(grammar::class_declaration);
        reveal(grammar::methods);
        let name: Token = match self.consume(TokenType::Identifier, Message::ExpectClassName) {
            Err(e) => {
                return Err(e);
            },
            Ok(name) => name,
        };
        let superclass: Option<Expr> = match self.superclass() {
            Err(e) => {
                return Err(e);
            },
            Ok(superclass) => superclass,
        };
        match self.consume(TokenType::LeftBrace, Message::ExpectBraceBeforeClassBody) {
            Err(e) => {
                return Err(e);
            },
            Ok(_) => {},
        }
        match self.methods() {
            Err(e) => Err(e),
            Ok(methods) => {
                proof {
                    lemma_class_view(name, superclass, methods);
                }
                Ok(Stmt::Class { name, superclass, methods })
            },
        }
    }

    /// A declaration or statement. After an error the parser skips to
    /// where the next statement is likely to begin, so that it can be
    /// asked to go on.
    fn declaration(&mut self) -> (r: Result<Stmt, Error>)
        requires
            old(self).wf(),
        ensures
            final(self).follows(old(self), r is Ok),
            (final(self).cursor(), result_view(r)) == grammar::declaration(
                old(self).stream(),
                old(self).cursor(),
            ),
        decreases old(self).tokens.len() - old(self).current, 50nat,
    {
        reveal(grammar::declaration);
        reveal(grammar::class_declaration);
        reveal(grammar::function);
        reveal(grammar::var_declaration);
        reveal(grammar::statement);
        let r: Result<Stmt, Error> = if self.matches(TokenType::Class) {
            self.class_declaration()
        } else if self.matches(TokenType::Fun) {
            self.function(Callee::Function)
        } else if self.matches(TokenType::Var) {
            self.var_declaration()
        } else {
            self.statement()
        };
        match r {
            Err(e) => {
                self.synchronize();
                Err(e)
            },
            Ok(stmt) => Ok(stmt),
        }
    }

    /// Parses declarations up to the end of the tokens. The first error
    /// ends it and is returned; the parser then stands where the next
    /// statement is likely to begin, and can be asked to parse on.
    pub fn parse(&mut self) -> (r: Result<Vec<Stmt>, Error>)
        requires
            old(self).wf(),
        ensures
            final(self).follows(old(self), false),
            (final(self).cursor(), stmts_result(r)) == grammar::program(
                old(self).stream(),
                old(self).cursor(),
                Seq::empty(),
            ),
    {
        let mut found: Vec<Stmt> = Vec::new();
        assert(stmts_view(found@) =~= Seq::empty());
        loop
            invariant
                self.follows(old(self), false),
                grammar::program(self.stream(), self.cursor(), stmts_view(found@))
                    == grammar::program(old(self).stream(), old(self).cursor(), Seq::empty()),
            decreases self.tokens.len() - self.current,
        {
            if self.is_at_end() {
                return Ok(found);
            }
            let ghost before = stmts_view(found@);
            match self.declaration() {
                Err(e) => {
                    return Err(e);
                },
                Ok(stmt) => {
                    found.push(stmt);
                    assert(stmts_view(found@) =~= before.push(stmt@));
                },
            }
        }
    }

    /// Parses expressions up to the end of the tokens. The first error
    /// ends it and is returned.
    pub fn parse_exprs(&mut self) -> (r: Result<Vec<Expr>, Error>)
        requires
            old(self).wf(),
        ensures
            final(self).follows(old(self), false),
            (final(self).cursor(), exprs_result(r)) == grammar::expressions(
                old(self).stream(),
                old(self).cursor(),
                Seq::empty(),
            ),
    {
        let mut found: Vec<Expr> = Vec::new();
        assert(exprs_view(found@) =~= Seq::empty());
        loop
            invariant
                self.follows(old(self), false),
                grammar::expressions(self.stream(), self.cursor(), exprs_view(found@))
                    == grammar::expressions(old(self).stream(), old(self).cursor(), Seq::empty()),
            decreases self.tokens.len() - self.current,
        {
            if self.is_at_end() {
                return Ok(found);
            }
            let ghost before = exprs_view(found@);
            match self.expression() {
                Err(e) => {
                    return Err(e);
                },
                Ok(expr) => {
                    found.push(expr);
                    assert(exprs_view(found@) =~= before.push(expr@));
                },
            }
        }
    }
}

} // verus!
