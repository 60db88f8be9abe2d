//! Expressions of the syntax tree.

use vstd::prelude::*;
use crate::error::Error;
use crate::text::joined;
use crate::token::Literal;
use crate::token::LiteralView;
use crate::token::Token;
use crate::token::TokenType;
use crate::token::TokenView;
use crate::written::lemma_written_assign;
use crate::written::lemma_written_atoms;
use crate::written::lemma_written_call;
use crate::written::lemma_written_from;
use crate::written::lemma_written_get;
use crate::written::lemma_written_group;
use crate::written::lemma_written_infix;
use crate::written::lemma_written_set;
use crate::written::lemma_written_unary;
use crate::written::literal_token;
use crate::written::mark;
use crate::written::spaced;
use crate::written::written;
use crate::written::written_from;

verus! {

#[derive(Debug, PartialEq)]
pub enum Expr {
    Assign { name: Token, value: Box<Expr> },
    Binary { left: Box<Expr>, operator: Token, right: Box<Expr> },
    Get { object: Box<Expr>, name: Token },
    Grouping { expr: Box<Expr> },
    Literal { value: Literal },
    Unary { operator: Token, right: Box<Expr> },
    Variable { name: Token },
    Logical { left: Box<Expr>, operator: Token, right: Box<Expr> },
    Call { callee: Box<Expr>, paren: Token, arguments: Vec<Expr> },
    /// A write to a property: `object.name = value`.
    SetProperty { object: Box<Expr>, name: Token, value: Box<Expr> },
    Super { keyword: Token, method: Token },
    This { keyword: Token },
}

/// An expression as a mathematical tree.
pub enum ExprView {
    Assign { name: TokenView, value: Box<ExprView> },
    Binary { left: Box<ExprView>, operator: TokenView, right: Box<ExprView> },
    Get { object: Box<ExprView>, name: TokenView },
    Grouping { expr: Box<ExprView> },
    Literal { value: LiteralView },
    Unary { operator: TokenView, right: Box<ExprView> },
    Variable { name: TokenView },
    Logical { left: Box<ExprView>, operator: TokenView, right: Box<ExprView> },
    Call { callee: Box<ExprView>, paren: TokenView, arguments: Seq<ExprView> },
    SetProperty { object: Box<ExprView>, name: TokenView, value: Box<ExprView> },
    Super { keyword: TokenView, method: TokenView },
    This { keyword: TokenView },
}

impl Expr {
    /// The expression as a mathematical tree.
    pub open spec fn tree(&self) -> ExprView
        decreases self,
    {
        match self {
            Expr::Assign { name, value } => ExprView::Assign {
                name: name@,
                value: Box::new((**value).tree()),
            },
            Expr::Binary { left, operator, right } => ExprView::Binary {
                left: Box::new((**left).tree()),
                operator: operator@,
                right: Box::new((**right).tree()),
            },
            Expr::Get { object, name } => ExprView::Get {
                object: Box::new((**object).tree()),
                name: name@,
            },
            Expr::Grouping { expr } => ExprView::Grouping { expr: Box::new((**expr).tree()) },
            Expr::Literal { value } => ExprView::Literal { value: value@ },
            Expr::Unary { operator, right } => ExprView::Unary {
                operator: operator@,
                right: Box::new((**right).tree()),
            },
            Expr::Variable { name } => ExprView::Variable { name: name@ },
            Expr::Logical { left, operator, right } => ExprView::Logical {
                left: Box::new((**left).tree()),
                operator: operator@,
                right: Box::new((**right).tree()),
            },
            Expr::Call { callee, paren, arguments } => ExprView::Call {
                callee: Box::new((**callee).tree()),
                paren: paren@,
                arguments: Seq::new(
                    arguments@.len(),
                    |i: int|
                        if 0 <= i < arguments@.len() {
                            arguments@[i].tree()
                        } else {
                            ExprView::Literal { value: LiteralView::Nil }
                        },
                ),
            },
            Expr::SetProperty { object, name, value } => ExprView::SetProperty {
                object: Box::new((**object).tree()),
                name: name@,
                value: Box::new((**value).tree()),
            },
            Expr::Super { keyword, method } => ExprView::Super {
                keyword: keyword@,
                method: method@,
            },
            Expr::This { keyword } => ExprView::This { keyword: keyword@ },
        }
    }
}

impl View for Expr {
    type V = ExprView;

    open spec fn view(&self) -> ExprView {
        self.tree()
    }
}

/// The trees of a list of expressions.
pub open spec fn exprs_view(expressions: Seq<Expr>) -> Seq<ExprView> {
    Seq::new(expressions.len(), |i: int| expressions[i]@)
}

/// Something that handles each kind of expression in a way of its own.
/// An implementation written outside verified code gives `visited` any
/// body, such as `true`; it is never run.
pub trait Visitor<R> {
    /// Whether a visit to `expression` that starts with the visitor as it
    /// is may leave it as `after` and give `result`. Each method promises
    /// a visit of this kind to the expression its arguments make up.
    spec fn visited(&self, after: &Self, expression: &Expr, result: Result<R, Error>) -> bool;

    fn visit_binary_expr(&mut self, left: &Expr, operator: &Token, right: &Expr) -> (r: Result<
        R,
        Error,
    >)
        ensures
            old(self).visited(
                final(self),
                &(Expr::Binary {
                    left: Box::new(*left),
                    operator: *operator,
                    right: Box::new(*right),
                }),
                r,
            ),
    ;

    fn visit_grouping_expr(&mut self, expr: &Expr) -> (r: Result<R, Error>)
        ensures
            old(self).visited(final(self), &(Expr::Grouping { expr: Box::new(*expr) }), r),
    ;

    fn visit_literal_expr(&mut self, value: &Literal) -> (r: Result<R, Error>)
        ensures
            old(self).visited(final(self), &(Expr::Literal { value: *value }), r),
    ;

    fn visit_unary_expr(&mut self, operator: &Token, right: &Expr) -> (r: Result<R, Error>)
        ensures
            old(self).visited(
                final(self),
                &(Expr::Unary { operator: *operator, right: Box::new(*right) }),
                r,
            ),
    ;

    fn visit_variable_expr(&mut self, name: &Token) -> (r: Result<R, Error>)
        ensures
            old(self).visited(final(self), &(Expr::Variable { name: *name }), r),
    ;

    fn visit_assign_expr(&mut self, name: &Token, value: &Expr) -> (r: Result<R, Error>)
        ensures
            old(self).visited(
                final(self),
                &(Expr::Assign { name: *name, value: Box::new(*value) }),
                r,
            ),
    ;

    fn visit_logical_expr(&mut self, left: &Expr, operator: &Token, right: &Expr) -> (r: Result<
        R,
        Error,
    >)
        ensures
            old(self).visited(
                final(self),
                &(Expr::Logical {
                    left: Box::new(*left),
                    operator: *operator,
                    right: Box::new(*right),
                }),
                r,
            ),
    ;

    fn visit_call_expr(&mut self, callee: &Expr, paren: &Token, arguments: &Vec<Expr>) -> (r:
        Result<R, Error>)
        ensures
            old(self).visited(
                final(self),
                &(Expr::Call { callee: Box::new(*callee), paren: *paren, arguments: *arguments }),
                r,
            ),
    ;

    fn visit_get_expr(&mut self, object: &Expr, name: &Token) -> (r: Result<R, Error>)
        ensures
            old(self).visited(
                final(self),
                &(Expr::Get { object: Box::new(*object), name: *name }),
                r,
            ),
    ;

    fn visit_set_expr(&mut self, object: &Expr, name: &Token, value: &Expr) -> (r: Result<
        R,
        Error,
    >)
        ensures
            old(self).visited(
                final(self),
                &(Expr::SetProperty {
                    object: Box::new(*object),
                    name: *name,
                    value: Box::new(*value),
                }),
                r,
            ),
    ;

    fn visit_this_expr(&mut self, keyword: &Token) -> (r: Result<R, Error>)
        ensures
            old(self).visited(final(self), &(Expr::This { keyword: *keyword }), r),
    ;

    fn visit_super_expr(&mut self, keyword: &Token, method: &Token) -> (r: Result<R, Error>)
        ensures
            old(self).visited(
                final(self),
                &(Expr::Super { keyword: *keyword, method: *method }),
                r,
            ),
    ;
}

impl Expr {
    /// Hands the expression to the method of `visitor` that is there for
    /// its kind, and returns what that method returns.
    pub fn accept<R, V: Visitor<R>>(&self, visitor: &mut V) -> (r: Result<R, Error>)
        ensures
            old(visitor).visited(final(visitor), self, r),
    {
        match self {
            Expr::Assign { name, value } => visitor.visit_assign_expr(name, &**value),
            Expr::Binary { left, operator, right } => visitor.visit_binary_expr(
                &**left,
                operator,
                &**right,
            ),
            Expr::Grouping { expr } => visitor.visit_grouping_expr(&**expr),
            Expr::Literal { value } => visitor.visit_literal_expr(value),
            Expr::Unary { operator, right } => visitor.visit_unary_expr(operator, &**right),
            Expr::Variable { name } => visitor.visit_variable_expr(name),
            Expr::Logical { left, operator, right } => visitor.visit_logical_expr(
                &**left,
                operator,
                &**right,
            ),
            Expr::Call { callee, paren, arguments } => visitor.visit_call_expr(
                &**callee,
                paren,
                arguments,
            ),
            Expr::Get { object, name } => visitor.visit_get_expr(&**object, name),
            Expr::SetProperty { object, name, value } => visitor.visit_set_expr(
                &**object,
                name,
                &**value,
            ),
            Expr::This { keyword } => visitor.visit_this_expr(keyword),
            Expr::Super { keyword, method } => visitor.visit_super_expr(keyword, method),
        }
    }
}

/// How an expression prints: in the language's own grammar, each token
/// followed by one space. Operands stand around their operator, a group
/// in parentheses, a call as callee, `(`, arguments between commas, `)`,
/// a property as object, `.`, name; text stands in quotes and a number as
/// its numeral.
pub open spec fn printed(expression: &Expr) -> Seq<char> {
    written(expression@)
}

/// A lexeme and the space behind it.
fn spaced_text(lexeme: &str) -> (r: String)
    ensures
        r@ == spaced(lexeme@),
{
    let space: &'static str = " ";
    proof {
        reveal_strlit(" ");
        assert(space@ =~= seq![' ']);
    }
    joined(lexeme.to_owned(), space)
}

/// One of the marks the printer puts in itself, and the space behind it.
fn mark_text(kind: TokenType) -> (r: String)
    requires
        kind == TokenType::LeftParen || kind == TokenType::RightParen || kind == TokenType::Comma
            || kind == TokenType::Dot || kind == TokenType::Equal,
    ensures
        r@ == spaced(mark(kind)),
{
    proof {
        reveal_strlit("(");
        reveal_strlit(")");
        reveal_strlit(",");
        reveal_strlit(".");
        reveal_strlit("=");
    }
    let lexeme: &'static str = match kind {
        TokenType::LeftParen => "(",
        TokenType::RightParen => ")",
        TokenType::Comma => ",",
        TokenType::Dot => ".",
        _ => "=",
    };
    assert(lexeme@ =~= mark(kind));
    spaced_text(lexeme)
}

/// A literal as it is written, and the space behind it.
fn literal_text(value: &Literal) -> (r: String)
    ensures
        r@ == spaced(literal_token(value@).lexeme),
{
    match value {
        Literal::Nil => {
            let word: &'static str = "nil";
            proof {
                reveal_strlit("nil");
                assert(word@ =~= seq!['n', 'i', 'l']);
            }
            spaced_text(word)
        },
        Literal::Bool(b) => {
            if *b {
                let word: &'static str = "true";
                proof {
                    reveal_strlit("true");
                    assert(word@ =~= seq!['t', 'r', 'u', 'e']);
                }
                spaced_text(word)
            } else {
                let word: &'static str = "false";
                proof {
                    reveal_strlit("false");
                    assert(word@ =~= seq!['f', 'a', 'l', 's', 'e']);
                }
                spaced_text(word)
            }
        },
        Literal::Number(numeral) => spaced_text(numeral.as_str()),
        Literal::String(text) => {
            let quote: &'static str = "\"";
            proof {
                reveal_strlit("\"");
                assert(quote@ =~= seq!['"']);
            }
            let quoted: String = joined(joined(quote.to_owned(), text.as_str()), quote);
            spaced_text(quoted.as_str())
        },
        Literal::Identifier(text) => spaced_text(text.as_str()),
    }
}

/// Shows expressions as source text.
pub struct AstPrinter;

impl AstPrinter {
    /// The expression as source text. There is nothing that cannot be
    /// shown: the result is never an error.
    pub fn print(&mut self, expr: Expr) -> (r: Result<String, Error>)
        ensures
            r is Ok,
            r->Ok_0@ == printed(&expr),
    {
        expr.accept(self)
    }

    /// The arguments as source text, with commas between them.
    fn show_from(&self, arguments: &Vec<Expr>) -> (r: String)
        ensures
            r@ == written_from(exprs_view(arguments@), 0),
        decreases arguments, arguments@.len(),
    {
        let ghost views = exprs_view(arguments@);
        let mut out: String = String::new();
        let mut i: usize = 0;
        while i < arguments.len()
            invariant
                i <= arguments.len(),
                views == exprs_view(arguments@),
                out@ + written_from(views, i as int) =~= written_from(views, 0),
            decreases arguments.len() - i,
        {
            proof {
                lemma_written_from(views, i as int);
            }
            let next: String = self.show(&arguments[i]);
            out = joined(out, next.as_str());
            if i + 1 < arguments.len() {
                let comma: String = mark_text(TokenType::Comma);
                out = joined(out, comma.as_str());
            }
            i = i + 1;
        }
        proof {
            if arguments.len() > 0 {
                lemma_written_from(views, 0);
            }
            assert(written_from(views, arguments.len() as int) =~= Seq::<char>::empty()) by {
                reveal_with_fuel(crate::written::text, 2);
            }
        }
        out
    }

    /// Two operands around their operator.
    fn infix(&self, left: String, operator: &Token, right: String) -> (r: String)
        ensures
            r@ == left@ + spaced(operator.lexeme@) + right@,
    {
        let middle: String = spaced_text(operator.lexeme.as_str());
        joined(joined(left, middle.as_str()), right.as_str())
    }

    /// A callee, `(`, the arguments and the closing parenthesis.
    fn called(&self, callee: String, paren: &Token, arguments: String) -> (r: String)
        ensures
            r@ == callee@ + spaced(mark(TokenType::LeftParen)) + arguments@ + spaced(
                paren.lexeme@,
            ),
    {
        let open: String = mark_text(TokenType::LeftParen);
        let close: String = spaced_text(paren.lexeme.as_str());
        joined(joined(joined(callee, open.as_str()), arguments.as_str()), close.as_str())
    }

    /// An object, `.` and a name.
    fn property(&self, object: String, name: &Token) -> (r: String)
        ensures
            r@ == object@ + spaced(mark(TokenType::Dot)) + spaced(name.lexeme@),
    {
        let dot: String = mark_text(TokenType::Dot);
        let last: String = spaced_text(name.lexeme.as_str());
        joined(joined(object, dot.as_str()), last.as_str())
    }

    /// A target, `=` and a value.
    fn assigned(&self, target: String, value: String) -> (r: String)
        ensures
            r@ == target@ + spaced(mark(TokenType::Equal)) + value@,
    {
        let equal: String = mark_text(TokenType::Equal);
        joined(joined(target, equal.as_str()), value.as_str())
    }

    /// An expression in parentheses.
    fn grouped(&self, inner: String) -> (r: String)
        ensures
            r@ == spaced(mark(TokenType::LeftParen)) + inner@ + spaced(mark(TokenType::RightParen)),
    {
        let open: String = mark_text(TokenType::LeftParen);
        let close: String = mark_text(TokenType::RightParen);
        joined(joined(open, inner.as_str()), close.as_str())
    }

    /// `super`, `.` and a method name.
    fn superior(&self, keyword: &Token, method: &Token) -> (r: String)
        ensures
            r@ == spaced(keyword.lexeme@) + spaced(mark(TokenType::Dot)) + spaced(method.lexeme@),
    {
        let first: String = spaced_text(keyword.lexeme.as_str());
        self.property(first, method)
    }

    /// The expression as source text.
    pub fn show(&self, expression: &Expr) -> (r: String)
        ensures
            r@ == printed(expression),
        decreases expression, 0nat,
    {
        match expression {
            Expr::Binary { left, operator, right } => {
                proof {
                    lemma_written_infix(left@, operator@, right@);
                }
                let first: String = self.show(&**left);
                let second: String = self.show(&**right);
                self.infix(first, operator, second)
            },
            Expr::Logical { left, operator, right } => {
                proof {
                    lemma_written_infix(left@, operator@, right@);
                }
                let first: String = self.show(&**left);
                let second: String = self.show(&**right);
                self.infix(first, operator, second)
            },
            Expr::Grouping { expr } => {
                proof {
                    lemma_written_group(expr@);
                }
                let inner: String = self.show(&**expr);
                self.grouped(inner)
            },
            Expr::Literal { value } => {
                proof {
                    lemma_written_atoms(literal_token(value@), literal_token(value@), value@);
                }
                literal_text(value)
            },
            Expr::Unary { operator, right } => {
                proof {
                    lemma_written_unary(operator@, right@);
                }
                let inner: String = self.show(&**right);
                joined(spaced_text(operator.lexeme.as_str()), inner.as_str())
            },
            Expr::Variable { name } => {
                proof {
                    lemma_written_atoms(name@, name@, LiteralView::Nil);
                }
                spaced_text(name.lexeme.as_str())
            },
            Expr::Assign { name, value } => {
                proof {
                    lemma_written_assign(name@, value@);
                }
                let inner: String = self.show(&**value);
                self.assigned(spaced_text(name.lexeme.as_str()), inner)
            },
            Expr::Call { callee, paren, arguments } => {
                proof {
                    assert(expression@->Call_arguments =~= exprs_view(arguments@));
                    lemma_written_call(callee@, paren@, exprs_view(arguments@));
                }
                let first: String = self.show(&**callee);
                let inner: String = self.show_from(arguments);
                self.called(first, paren, inner)
            },
            Expr::Get { object, name } => {
                proof {
                    lemma_written_get(object@, name@);
                }
                let inner: String = self.show(&**object);
                self.property(inner, name)
            },
            Expr::SetProperty { object, name, value } => {
                proof {
                    lemma_written_set(object@, name@, value@);
                }
                let first: String = self.show(&**object);
                let second: String = self.show(&**value);
                self.assigned(self.property(first, name), second)
            },
            Expr::This { keyword } => {
                proof {
                    lemma_written_atoms(keyword@, keyword@, LiteralView::Nil);
                }
                spaced_text(keyword.lexeme.as_str())
            },
            Expr::Super { keyword, method } => {
                proof {
                    lemma_written_atoms(keyword@, method@, LiteralView::Nil);
                }
                self.superior(keyword, method)
            },
        }
    }
}

impl Visitor<String> for AstPrinter {
    /// A visit leaves the printer as it is and gives the expression as
    /// source text.
    open spec fn visited(&self, after: &Self, expression: &Expr, result: Result<String, Error>) -> bool {
        result is Ok && result->Ok_0@ == printed(expression)
    }

    fn visit_binary_expr(&mut self, left: &Expr, operator: &Token, right: &Expr) -> (r: Result<
        String,
        Error,
    >) {
        proof {
            lemma_written_infix(left@, operator@, right@);
        }
        let first: String = self.show(left);
        let second: String = self.show(right);
        Ok(self.infix(first, operator, second))
    }

    fn visit_grouping_expr(&mut self, expr: &Expr) -> (r: Result<String, Error>) {
        proof {
            lemma_written_group(expr@);
        }
        let inner: String = self.show(expr);
        Ok(self.grouped(inner))
    }

    fn visit_literal_expr(&mut self, value: &Literal) -> (r: Result<String, Error>) {
        proof {
            lemma_written_atoms(literal_token(value@), literal_token(value@), value@);
        }
        Ok(literal_text(value))
    }

    fn visit_unary_expr(&mut self, operator: &Token, right: &Expr) -> (r: Result<String, Error>) {
        proof {
            lemma_written_unary(operator@, right@);
        }
        let inner: String = self.show(right);
        Ok(joined(spaced_text(operator.lexeme.as_str()), inner.as_str()))
    }

    fn visit_variable_expr(&mut self, name: &Token) -> (r: Result<String, Error>) {
        proof {
            lemma_written_atoms(name@, name@, LiteralView::Nil);
        }
        Ok(spaced_text(name.lexeme.as_str()))
    }

    fn visit_assign_expr(&mut self, name: &Token, value: &Expr) -> (r: Result<String, Error>) {
        proof {
            lemma_written_assign(name@, value@);
        }
        let inner: String = self.show(value);
        Ok(self.assigned(spaced_text(name.lexeme.as_str()), inner))
    }

    fn visit_logical_expr(&mut self, left: &Expr, operator: &Token, right: &Expr) -> (r: Result<
        String,
        Error,
    >) {
        proof {
            lemma_written_infix(left@, operator@, right@);
        }
        let first: String = self.show(left);
        let second: String = self.show(right);
        Ok(self.infix(first, operator, second))
    }

    fn visit_call_expr(&mut self, callee: &Expr, paren: &Token, arguments: &Vec<Expr>) -> (r:
        Result<String, Error>) {
        proof {
            let node = Expr::Call { callee: Box::new(*callee), paren: *paren, arguments: *arguments };
            assert(node@->Call_arguments =~= exprs_view(arguments@));
            lemma_written_call(callee@, paren@, exprs_view(arguments@));
        }
        let first: String = self.show(callee);
        let inner: String = self.show_from(arguments);
        Ok(self.called(first, paren, inner))
    }

    fn visit_get_expr(&mut self, object: &Expr, name: &Token) -> (r: Result<String, Error>) {
        proof {
            lemma_written_get(object@, name@);
        }
        let inner: String = self.show(object);
        Ok(self.property(inner, name))
    }

    fn visit_set_expr(&mut self, object: &Expr, name: &Token, value: &Expr) -> (r: Result<
        String,
        Error,
    >) {
        proof {
            lemma_written_set(object@, name@, value@);
        }
        let first: String = self.show(object);
        let second: String = self.show(value);
        Ok(self.assigned(self.property(first, name), second))
    }

    fn visit_this_expr(&mut self, keyword: &Token) -> (r: Result<String, Error>) {
        proof {
            lemma_written_atoms(keyword@, keyword@, LiteralView::Nil);
        }
        Ok(spaced_text(keyword.lexeme.as_str()))
    }

    fn visit_super_expr(&mut self, keyword: &Token, method: &Token) -> (r: Result<String, Error>) {
        proof {
            lemma_written_atoms(keyword@, method@, LiteralView::Nil);
        }
        Ok(self.superior(keyword, method))
    }
}

} // verus!
