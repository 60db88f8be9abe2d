//! The grammar, as functions from a token list and a place in it to what
//! the parser makes of the tokens from there: where it stops, what it
//! reported on the way, and the tree or the error it ends with.
//!
//! From lowest to highest precedence an expression is an assignment, `or`,
//! `and`, equality, comparison, term, factor, unary, call, primary.
//!
//! A function that goes on after another has run does so only from a place
//! that is not behind where it started. The parser never moves backwards
//! (see the module `progress`), so it always goes on.

use vstd::prelude::*;
use crate::error::Callee;
use crate::error::ErrorView;
use crate::error::Message;
use crate::expr::ExprView;
use crate::stmt::StmtView;
use crate::token::LiteralView;
use crate::token::TokenType;
use crate::token::TokenView;

verus! {

/// Where the parser stands and what it has reported.
pub struct Cursor {
    pub current: nat,
    pub diagnostics: Seq<ErrorView>,
}

/// How many tokens lie ahead, the one the parser stands on among them.
pub open spec fn remaining(tokens: Seq<TokenView>, s: Cursor) -> nat {
    if s.current < tokens.len() {
        (tokens.len() - s.current) as nat
    } else {
        0
    }
}

pub open spec fn at_end(tokens: Seq<TokenView>, s: Cursor) -> bool {
    s.current >= tokens.len() || tokens[s.current as int].kind == TokenType::Eof
}

pub open spec fn check(tokens: Seq<TokenView>, s: Cursor, kind: TokenType) -> bool {
    !at_end(tokens, s) && tokens[s.current as int].kind == kind
}

pub open spec fn advance(tokens: Seq<TokenView>, s: Cursor) -> Cursor {
    if at_end(tokens, s) {
        s
    } else {
        Cursor { current: s.current + 1, ..s }
    }
}

pub open spec fn failure(token: TokenView, message: Message) -> ErrorView {
    ErrorView::Parse { token, message }
}

pub open spec fn report(s: Cursor, token: TokenView, message: Message) -> Cursor {
    Cursor { diagnostics: s.diagnostics.push(failure(token, message)), ..s }
}

/// An error at the token the parser stands on: reported and returned.
pub open spec fn fail<T>(tokens: Seq<TokenView>, s: Cursor, message: Message) -> (
    Cursor,
    Result<T, ErrorView>,
) {
    (report(s, tokens[s.current as int], message), Err(failure(tokens[s.current as int], message)))
}

/// Takes the next token if it is of kind `kind`; anything else is an
/// error with `message`.
pub open spec fn consume(tokens: Seq<TokenView>, s: Cursor, kind: TokenType, message: Message) -> (
    Cursor,
    Result<TokenView, ErrorView>,
) {
    if check(tokens, s, kind) {
        (advance(tokens, s), Ok(tokens[s.current as int]))
    } else {
        fail(tokens, s, message)
    }
}

/// A token at which a statement begins.
pub open spec fn begins_statement(kind: TokenType) -> bool {
    kind == TokenType::Class || kind == TokenType::Fun || kind == TokenType::Var || kind
        == TokenType::For || kind == TokenType::If || kind == TokenType::While || kind
        == TokenType::Print || kind == TokenType::Return
}

/// Skips tokens until a `;` has just been passed or a statement begins.
pub open spec fn skip_to_statement(tokens: Seq<TokenView>, s: Cursor) -> Cursor
    decreases remaining(tokens, s),
{
    if at_end(tokens, s) {
        s
    } else if s.current >= 1 && tokens[s.current - 1].kind == TokenType::Semicolon {
        s
    } else if begins_statement(tokens[s.current as int].kind) {
        s
    } else {
        skip_to_statement(tokens, advance(tokens, s))
    }
}

/// Recovery after an error: the offending token is dropped, and then
/// whatever follows up to the next likely start of a statement.
pub open spec fn synchronize(tokens: Seq<TokenView>, s: Cursor) -> Cursor {
    skip_to_statement(tokens, advance(tokens, s))
}

/// The operators of each binary level, from 0, the tightest: factor,
/// term, comparison, equality, `and`, `or`.
pub open spec fn is_operator(level: nat, kind: TokenType) -> bool {
    if level == 0 {
        kind == TokenType::Slash || kind == TokenType::Star
    } else if level == 1 {
        kind == TokenType::Minus || kind == TokenType::Plus
    } else if level == 2 {
        kind == TokenType::Greater || kind == TokenType::GreaterEqual || kind == TokenType::Less
            || kind == TokenType::LessEqual
    } else if level == 3 {
        kind == TokenType::BangEqual || kind == TokenType::EqualEqual
    } else if level == 4 {
        kind == TokenType::And
    } else if level == 5 {
        kind == TokenType::Or
    } else {
        false
    }
}

pub open spec fn combine(level: nat, left: ExprView, operator: TokenView, right: ExprView) -> ExprView {
    if level >= 4 {
        ExprView::Logical { left: Box::new(left), operator, right: Box::new(right) }
    } else {
        ExprView::Binary { left: Box::new(left), operator, right: Box::new(right) }
    }
}

pub open spec fn payload(token: TokenView) -> LiteralView {
    match token.literal {
        Some(l) => l,
        None => LiteralView::Nil,
    }
}

#[verifier::opaque]
pub open spec fn primary(tokens: Seq<TokenView>, s: Cursor) -> (Cursor, Result<ExprView, ErrorView>)
    decreases remaining(tokens, s), 10nat,
{
    if at_end(tokens, s) {
        fail(tokens, s, Message::ExpectExpression)
    } else {
        let token = tokens[s.current as int];
        let next = advance(tokens, s);
        match token.kind {
            TokenType::False => (next, Ok(ExprView::Literal { value: LiteralView::Bool(false) })),
            TokenType::True => (next, Ok(ExprView::Literal { value: LiteralView::Bool(true) })),
            TokenType::Nil => (next, Ok(ExprView::Literal { value: LiteralView::Nil })),
            TokenType::String | TokenType::Number => (
                next,
                Ok(ExprView::Literal { value: payload(token) }),
            ),
            TokenType::Super => {
                let (s1, dot) = consume(tokens, next, TokenType::Dot, Message::ExpectDotAfterSuper);
                match dot {
                    Err(e) => (s1, Err(e)),
                    Ok(_) => {
                        let (s2, method) = consume(
                            tokens,
                            s1,
                            TokenType::Identifier,
                            Message::ExpectSuperclassMethodName,
                        );
                        match method {
                            Err(e) => (s2, Err(e)),
                            Ok(m) => (s2, Ok(ExprView::Super { keyword: token, method: m })),
                        }
                    },
                }
            },
            TokenType::This => (next, Ok(ExprView::This { keyword: token })),
            TokenType::Identifier => (next, Ok(ExprView::Variable { name: token })),
            TokenType::LeftParen => {
                let (s1, inner) = expression(tokens, next);
                match inner {
                    Err(e) => (s1, Err(e)),
                    Ok(expr) => {
                        let (s2, close) = consume(
                            tokens,
                            s1,
                            TokenType::RightParen,
                            Message::ExpectParenAfterExpression,
                        );
                        match close {
                            Err(e) => (s2, Err(e)),
                            Ok(_) => (s2, Ok(ExprView::Grouping { expr: Box::new(expr) })),
                        }
                    },
                }
            },
            _ => fail(tokens, s, Message::ExpectExpression),
        }
    }
}

/// The arguments of a call from the place after `(` or after a comma, to
/// the closing `)`. More than 255 are reported, and parsed all the same.
#[verifier::opaque]
pub open spec fn arguments(tokens: Seq<TokenView>, s: Cursor, found: Seq<ExprView>) -> (
    Cursor,
    Result<Seq<ExprView>, ErrorView>,
)
    decreases remaining(tokens, s), 59nat,
{
    let noted = if found.len() >= 255 {
        report(s, tokens[s.current as int], Message::TooManyArguments)
    } else {
        s
    };
    let (s1, r) = expression(tokens, noted);
    match r {
        Err(e) => (s1, Err(e)),
        Ok(argument) => if check(tokens, s1, TokenType::Comma) && s1.current >= s.current {
            arguments(tokens, advance(tokens, s1), found.push(argument))
        } else {
            (s1, Ok(found.push(argument)))
        },
    }
}

/// A call, from the place after its `(`.
#[verifier::opaque]
pub open spec fn finish_call(tokens: Seq<TokenView>, s: Cursor, callee: ExprView) -> (
    Cursor,
    Result<ExprView, ErrorView>,
)
    decreases remaining(tokens, s), 60nat,
{
    let (s1, r) = if check(tokens, s, TokenType::RightParen) {
        (s, Ok(Seq::empty()))
    } else {
        arguments(tokens, s, Seq::empty())
    };
    match r {
        Err(e) => (s1, Err(e)),
        Ok(found) => {
            let (s2, close) = consume(
                tokens,
                s1,
                TokenType::RightParen,
                Message::ExpectParenAfterArguments,
            );
            match close {
                Err(e) => (s2, Err(e)),
                Ok(paren) => (
                    s2,
                    Ok(ExprView::Call { callee: Box::new(callee), paren, arguments: found }),
                ),
            }
        },
    }
}

/// The calls and property accesses that follow a primary.
#[verifier::opaque]
pub open spec fn call_rest(tokens: Seq<TokenView>, s: Cursor, callee: ExprView) -> (
    Cursor,
    Result<ExprView, ErrorView>,
)
    decreases remaining(tokens, s), 12nat,
{
    if check(tokens, s, TokenType::LeftParen) {
        let (s1, r) = finish_call(tokens, advance(tokens, s), callee);
        match r {
            Err(e) => (s1, Err(e)),
            Ok(expr) => if s1.current > s.current {
                call_rest(tokens, s1, expr)
            } else {
                (s1, Ok(expr))
            },
        }
    } else if check(tokens, s, TokenType::Dot) {
        let (s1, r) = consume(
            tokens,
            advance(tokens, s),
            TokenType::Identifier,
            Message::ExpectPropertyName,
        );
        match r {
            Err(e) => (s1, Err(e)),
            Ok(name) => call_rest(tokens, s1, ExprView::Get { object: Box::new(callee), name }),
        }
    } else {
        (s, Ok(callee))
    }
}

#[verifier::opaque]
pub open spec fn call(tokens: Seq<TokenView>, s: Cursor) -> (Cursor, Result<ExprView, ErrorView>)
    decreases remaining(tokens, s), 14nat,
{
    let (s1, r) = primary(tokens, s);
    match r {
        Err(e) => (s1, Err(e)),
        Ok(expr) => if s1.current >= s.current {
            call_rest(tokens, s1, expr)
        } else {
            (s1, Ok(expr))
        },
    }
}

#[verifier::opaque]
pub open spec fn unary(tokens: Seq<TokenView>, s: Cursor) -> (Cursor, Result<ExprView, ErrorView>)
    decreases remaining(tokens, s), 15nat,
{
    if check(tokens, s, TokenType::Bang) || check(tokens, s, TokenType::Minus) {
        let (s1, r) = unary(tokens, advance(tokens, s));
        match r {
            Err(e) => (s1, Err(e)),
            Ok(right) => (
                s1,
                Ok(ExprView::Unary { operator: tokens[s.current as int], right: Box::new(right) }),
            ),
        }
    } else {
        call(tokens, s)
    }
}

/// An operand of binary level `level`: an expression of the next tighter
/// level.
#[verifier::opaque]
pub open spec fn operand(tokens: Seq<TokenView>, s: Cursor, level: nat) -> (
    Cursor,
    Result<ExprView, ErrorView>,
)
    decreases remaining(tokens, s), 20 + 3 * level,
{
    if level == 0 {
        unary(tokens, s)
    } else {
        binary(tokens, s, (level - 1) as nat)
    }
}

/// The operators of level `level` and their right operands that follow
/// `left`, taken from left to right.
#[verifier::opaque]
pub open spec fn binary_rest(tokens: Seq<TokenView>, s: Cursor, level: nat, left: ExprView) -> (
    Cursor,
    Result<ExprView, ErrorView>,
)
    decreases remaining(tokens, s), 21 + 3 * level,
{
    if !at_end(tokens, s) && is_operator(level, tokens[s.current as int].kind) {
        let (s1, r) = operand(tokens, advance(tokens, s), level);
        match r {
            Err(e) => (s1, Err(e)),
            Ok(right) => if s1.current > s.current {
                binary_rest(tokens, s1, level, combine(level, left, tokens[s.current as int], right))
            } else {
                (s1, Ok(combine(level, left, tokens[s.current as int], right)))
            },
        }
    } else {
        (s, Ok(left))
    }
}

/// An expression of binary level `level`.
#[verifier::opaque]
pub open spec fn binary(tokens: Seq<TokenView>, s: Cursor, level: nat) -> (
    Cursor,
    Result<ExprView, ErrorView>,
)
    decreases remaining(tokens, s), 22 + 3 * level,
{
    let (s1, r) = operand(tokens, s, level);
    match r {
        Err(e) => (s1, Err(e)),
        Ok(left) => if s1.current >= s.current {
            binary_rest(tokens, s1, level, left)
        } else {
            (s1, Ok(left))
        },
    }
}

/// An assignment takes everything to its right as its value. Its target
/// must be a variable or a property; any other is reported, and the
/// target alone is the result.
#[verifier::opaque]
pub open spec fn assignment(tokens: Seq<TokenView>, s: Cursor) -> (
    Cursor,
    Result<ExprView, ErrorView>,
)
    decreases remaining(tokens, s), 42nat,
{
    let (s1, r) = binary(tokens, s, 5);
    match r {
        Err(e) => (s1, Err(e)),
        Ok(target) => if check(tokens, s1, TokenType::Equal) && s1.current >= s.current {
            let (s2, r2) = assignment(tokens, advance(tokens, s1));
            match r2 {
                Err(e) => (s2, Err(e)),
                Ok(value) => match target {
                    ExprView::Variable { name } => (
                        s2,
                        Ok(ExprView::Assign { name, value: Box::new(value) }),
                    ),
                    ExprView::Get { object, name } => (
                        s2,
                        Ok(ExprView::SetProperty { object, name, value: Box::new(value) }),
                    ),
                    _ => (
                        report(s2, tokens[s1.current as int], Message::InvalidAssignmentTarget),
                        Ok(target),
                    ),
                },
            }
        } else {
            (s1, Ok(target))
        },
    }
}

#[verifier::opaque]
pub open spec fn expression(tokens: Seq<TokenView>, s: Cursor) -> (
    Cursor,
    Result<ExprView, ErrorView>,
)
    decreases remaining(tokens, s), 43nat,
{
    assignment(tokens, s)
}

/// An expression and the `;` that ends it.
#[verifier::opaque]
pub open spec fn terminated(tokens: Seq<TokenView>, s: Cursor, message: Message) -> (
    Cursor,
    Result<ExprView, ErrorView>,
)
    decreases remaining(tokens, s), 44nat,
{
    let (s1, r) = expression(tokens, s);
    match r {
        Err(e) => (s1, Err(e)),
        Ok(expr) => {
            let (s2, end) = consume(tokens, s1, TokenType::Semicolon, message);
            match end {
                Err(e) => (s2, Err(e)),
                Ok(_) => (s2, Ok(expr)),
            }
        },
    }
}

#[verifier::opaque]
pub open spec fn expression_statement(tokens: Seq<TokenView>, s: Cursor) -> (
    Cursor,
    Result<StmtView, ErrorView>,
)
    decreases remaining(tokens, s), 45nat,
{
    let (s1, r) = terminated(tokens, s, Message::ExpectSemicolonAfterValue);
    match r {
        Err(e) => (s1, Err(e)),
        Ok(expr) => (s1, Ok(StmtView::Expression { expr })),
    }
}

/// From the place after `print`.
#[verifier::opaque]
pub open spec fn print_statement(tokens: Seq<TokenView>, s: Cursor) -> (
    Cursor,
    Result<StmtView, ErrorView>,
)
    decreases remaining(tokens, s), 45nat,
{
    let (s1, r) = terminated(tokens, s, Message::ExpectSemicolonAfterValue);
    match r {
        Err(e) => (s1, Err(e)),
        Ok(expr) => (s1, Ok(StmtView::Print { expr })),
    }
}

/// From the place after `return`, which is the token `keyword`.
#[verifier::opaque]
pub open spec fn return_statement(tokens: Seq<TokenView>, s: Cursor, keyword: TokenView) -> (
    Cursor,
    Result<StmtView, ErrorView>,
)
    decreases remaining(tokens, s), 45nat,
{
    if check(tokens, s, TokenType::Semicolon) {
        (advance(tokens, s), Ok(StmtView::Return { keyword, value: None }))
    } else {
        let (s1, r) = terminated(tokens, s, Message::ExpectSemicolonAfterReturn);
        match r {
            Err(e) => (s1, Err(e)),
            Ok(expr) => (s1, Ok(StmtView::Return { keyword, value: Some(expr) })),
        }
    }
}

/// From the place after `var`.
#[verifier::opaque]
pub open spec fn var_declaration(tokens: Seq<TokenView>, s: Cursor) -> (
    Cursor,
    Result<StmtView, ErrorView>,
)
    decreases remaining(tokens, s), 46nat,
{
    let (s1, r) = consume(tokens, s, TokenType::Identifier, Message::ExpectVariableName);
    match r {
        Err(e) => (s1, Err(e)),
        Ok(name) => if check(tokens, s1, TokenType::Equal) {
            let (s2, r2) = terminated(
                tokens,
                advance(tokens, s1),
                Message::ExpectSemicolonAfterVariable,
            );
            match r2 {
                Err(e) => (s2, Err(e)),
                Ok(init) => (s2, Ok(StmtView::Var { name, initializer: Some(init) })),
            }
        } else {
            let (s2, end) = consume(
                tokens,
                s1,
                TokenType::Semicolon,
                Message::ExpectSemicolonAfterVariable,
            );
            match end {
                Err(e) => (s2, Err(e)),
                Ok(_) => (s2, Ok(StmtView::Var { name, initializer: None })),
            }
        },
    }
}

/// A condition in parentheses, from the place of the `(`.
#[verifier::opaque]
pub open spec fn condition(
    tokens: Seq<TokenView>,
    s: Cursor,
    open: Message,
    close: Message,
) -> (Cursor, Result<ExprView, ErrorView>)
    decreases remaining(tokens, s), 44nat,
{
    let (s1, r) = consume(tokens, s, TokenType::LeftParen, open);
    match r {
        Err(e) => (s1, Err(e)),
        Ok(_) => {
            let (s2, r2) = expression(tokens, s1);
            match r2 {
                Err(e) => (s2, Err(e)),
                Ok(expr) => {
                    let (s3, end) = consume(tokens, s2, TokenType::RightParen, close);
                    match end {
                        Err(e) => (s3, Err(e)),
                        Ok(_) => (s3, Ok(expr)),
                    }
                },
            }
        },
    }
}

/// From the place after `while`.
#[verifier::opaque]
pub open spec fn while_statement(tokens: Seq<TokenView>, s: Cursor) -> (
    Cursor,
    Result<StmtView, ErrorView>,
)
    decreases remaining(tokens, s), 47nat,
{
    let (s1, r) = condition(
        tokens,
        s,
        Message::ExpectParenAfterWhile,
        Message::ExpectParenAfterCondition,
    );
    match r {
        Err(e) => (s1, Err(e)),
        Ok(test) => if s1.current > s.current && s.current < tokens.len() {
            let (s2, r2) = statement(tokens, s1);
            match r2 {
                Err(e) => (s2, Err(e)),
                Ok(body) => (s2, Ok(StmtView::While { condition: test, body: Box::new(body) })),
            }
        } else {
            fail(tokens, s1, Message::ExpectExpression)
        },
    }
}

/// From the place after `if`. An `else` belongs to the nearest `if`.
#[verifier::opaque]
pub open spec fn if_statement(tokens: Seq<TokenView>, s: Cursor) -> (
    Cursor,
    Result<StmtView, ErrorView>,
)
    decreases remaining(tokens, s), 47nat,
{
    let (s1, r) = condition(
        tokens,
        s,
        Message::ExpectParenAfterIf,
        Message::ExpectParenAfterIfCondition,
    );
    match r {
        Err(e) => (s1, Err(e)),
        Ok(test) => if s1.current > s.current && s.current < tokens.len() {
            let (s2, r2) = statement(tokens, s1);
            match r2 {
                Err(e) => (s2, Err(e)),
                Ok(first) => if check(tokens, s2, TokenType::Else) && s2.current >= s1.current {
                    let (s3, r3) = statement(tokens, advance(tokens, s2));
                    match r3 {
                        Err(e) => (s3, Err(e)),
                        Ok(second) => (
                            s3,
                            Ok(
                                StmtView::If {
                                    condition: test,
                                    then_branch: Box::new(first),
                                    else_branch: Some(Box::new(second)),
                                },
                            ),
                        ),
                    }
                } else {
                    (
                        s2,
                        Ok(
                            StmtView::If {
                                condition: test,
                                then_branch: Box::new(first),
                                else_branch: None,
                            },
                        ),
                    )
                },
            }
        } else {
            fail(tokens, s1, Message::ExpectExpression)
        },
    }
}

/// What a `for` loop stands for: the loop body followed by the increment,
/// run while the condition holds (always, if there is none), after the
/// initializer, all in one block.
pub open spec fn desugared(
    initializer: Option<StmtView>,
    test: Option<ExprView>,
    increment: Option<ExprView>,
    body: StmtView,
) -> StmtView {
    let stepped = match increment {
        Some(step) => StmtView::Block { statements: seq![body, StmtView::Expression { expr: step }] },
        None => body,
    };
    let looped = StmtView::While {
        condition: match test {
            Some(t) => t,
            None => ExprView::Literal { value: LiteralView::Bool(true) },
        },
        body: Box::new(stepped),
    };
    match initializer {
        Some(init) => StmtView::Block { statements: seq![init, looped] },
        None => looped,
    }
}

/// The first clause of a `for`, from the place after `(`.
#[verifier::opaque]
pub open spec fn for_initializer(tokens: Seq<TokenView>, s: Cursor) -> (
    Cursor,
    Result<Option<StmtView>, ErrorView>,
)
    decreases remaining(tokens, s), 47nat,
{
    if check(tokens, s, TokenType::Semicolon) {
        (advance(tokens, s), Ok(None))
    } else {
        let (s1, r) = if check(tokens, s, TokenType::Var) {
            var_declaration(tokens, advance(tokens, s))
        } else {
            expression_statement(tokens, s)
        };
        match r {
            Err(e) => (s1, Err(e)),
            Ok(stmt) => (s1, Ok(Some(stmt))),
        }
    }
}

/// A clause of a `for` that may be empty, up to and with the token of
/// kind `end` that closes it.
#[verifier::opaque]
pub open spec fn for_clause(tokens: Seq<TokenView>, s: Cursor, end: TokenType, message: Message) -> (
    Cursor,
    Result<Option<ExprView>, ErrorView>,
)
    decreases remaining(tokens, s), 47nat,
{
    if check(tokens, s, end) {
        (advance(tokens, s), Ok(None))
    } else {
        let (s1, r) = expression(tokens, s);
        match r {
            Err(e) => (s1, Err(e)),
            Ok(expr) => {
                let (s2, close) = consume(tokens, s1, end, message);
                match close {
                    Err(e) => (s2, Err(e)),
                    Ok(_) => (s2, Ok(Some(expr))),
                }
            },
        }
    }
}

/// From the place after `for`.
#[verifier::opaque]
pub open spec fn for_statement(tokens: Seq<TokenView>, s: Cursor) -> (
    Cursor,
    Result<StmtView, ErrorView>,
)
    decreases remaining(tokens, s), 48nat,
{
    let (s1, r) = consume(tokens, s, TokenType::LeftParen, Message::ExpectParenAfterFor);
    match r {
        Err(e) => (s1, Err(e)),
        Ok(_) => {
            let (s2, r2) = for_initializer(tokens, s1);
            match r2 {
                Err(e) => (s2, Err(e)),
                Ok(initializer) => if s2.current >= s1.current {
                    let (s3, r3) = for_clause(
                        tokens,
                        s2,
                        TokenType::Semicolon,
                        Message::ExpectSemicolonAfterLoopCondition,
                    );
                    match r3 {
                        Err(e) => (s3, Err(e)),
                        Ok(test) => if s3.current >= s2.current {
                            let (s4, r4) = for_clause(
                                tokens,
                                s3,
                                TokenType::RightParen,
                                Message::ExpectParenAfterForClauses,
                            );
                            match r4 {
                                Err(e) => (s4, Err(e)),
                                Ok(increment) => if s4.current >= s3.current {
                                    let (s5, r5) = statement(tokens, s4);
                                    match r5 {
                                        Err(e) => (s5, Err(e)),
                                        Ok(body) => (
                                            s5,
                                            Ok(desugared(initializer, test, increment, body)),
                                        ),
                                    }
                                } else {
                                    fail(tokens, s4, Message::ExpectExpression)
                                },
                            }
                        } else {
                            fail(tokens, s3, Message::ExpectExpression)
                        },
                    }
                } else {
                    fail(tokens, s2, Message::ExpectExpression)
                },
            }
        },
    }
}

/// The declarations of a block up to its `}`, from the place after `{`
/// or after a declaration.
#[verifier::opaque]
pub open spec fn block_rest(tokens: Seq<TokenView>, s: Cursor, found: Seq<StmtView>) -> (
    Cursor,
    Result<Seq<StmtView>, ErrorView>,
)
    decreases remaining(tokens, s), 59nat,
{
    if check(tokens, s, TokenType::RightBrace) || at_end(tokens, s) {
        let (s1, r) = consume(tokens, s, TokenType::RightBrace, Message::ExpectBraceAfterBlock);
        match r {
            Err(e) => (s1, Err(e)),
            Ok(_) => (s1, Ok(found)),
        }
    } else {
        let (s1, r) = declaration(tokens, s);
        match r {
            Err(e) => (s1, Err(e)),
            Ok(stmt) => if s1.current > s.current {
                block_rest(tokens, s1, found.push(stmt))
            } else {
                fail(tokens, s1, Message::ExpectBraceAfterBlock)
            },
        }
    }
}

/// From the place after `{`.
#[verifier::opaque]
pub open spec fn block(tokens: Seq<TokenView>, s: Cursor) -> (
    Cursor,
    Result<Seq<StmtView>, ErrorView>,
)
    decreases remaining(tokens, s), 60nat,
{
    block_rest(tokens, s, Seq::empty())
}

#[verifier::opaque]
pub open spec fn statement(tokens: Seq<TokenView>, s: Cursor) -> (
    Cursor,
    Result<StmtView, ErrorView>,
)
    decreases remaining(tokens, s), 49nat,
{
    if check(tokens, s, TokenType::Print) {
        print_statement(tokens, advance(tokens, s))
    } else if check(tokens, s, TokenType::Return) {
        return_statement(tokens, advance(tokens, s), tokens[s.current as int])
    } else if check(tokens, s, TokenType::For) {
        for_statement(tokens, advance(tokens, s))
    } else if check(tokens, s, TokenType::If) {
        if_statement(tokens, advance(tokens, s))
    } else if check(tokens, s, TokenType::While) {
        while_statement(tokens, advance(tokens, s))
    } else if check(tokens, s, TokenType::LeftBrace) {
        let (s1, r) = block(tokens, advance(tokens, s));
        match r {
            Err(e) => (s1, Err(e)),
            Ok(statements) => (s1, Ok(StmtView::Block { statements })),
        }
    } else {
        expression_statement(tokens, s)
    }
}

/// The parameter names of a declaration, from the place of the first to
/// the place of the closing `)`. More than 255 are reported, and parsed
/// all the same.
pub open spec fn parameters(tokens: Seq<TokenView>, s: Cursor, found: Seq<TokenView>) -> (
    Cursor,
    Result<Seq<TokenView>, ErrorView>,
)
    decreases remaining(tokens, s),
{
    let noted = if found.len() >= 255 {
        report(s, tokens[s.current as int], Message::TooManyParameters)
    } else {
        s
    };
    let (s1, r) = consume(tokens, noted, TokenType::Identifier, Message::ExpectParameterName);
    match r {
        Err(e) => (s1, Err(e)),
        Ok(name) => if check(tokens, s1, TokenType::Comma) {
            parameters(tokens, advance(tokens, s1), found.push(name))
        } else {
            (s1, Ok(found.push(name)))
        },
    }
}

/// A function or method, from the place of its name.
#[verifier::opaque]
pub open spec fn function(tokens: Seq<TokenView>, s: Cursor, kind: Callee) -> (
    Cursor,
    Result<StmtView, ErrorView>,
)
    decreases remaining(tokens, s), 55nat,
{
    let (s1, r1) = consume(tokens, s, TokenType::Identifier, Message::ExpectCalleeName(kind));
    match r1 {
        Err(e) => (s1, Err(e)),
        Ok(name) => {
            let (s2, r2) = consume(
                tokens,
                s1,
                TokenType::LeftParen,
                Message::ExpectParenAfterCalleeName(kind),
            );
            match r2 {
                Err(e) => (s2, Err(e)),
                Ok(_) => {
                    let (s3, r3) = if check(tokens, s2, TokenType::RightParen) {
                        (s2, Ok(Seq::empty()))
                    } else {
                        parameters(tokens, s2, Seq::empty())
                    };
                    match r3 {
                        Err(e) => (s3, Err(e)),
                        Ok(params) => {
                            let (s4, r4) = consume(
                                tokens,
                                s3,
                                TokenType::RightParen,
                                Message::ExpectParenAfterParameters,
                            );
                            match r4 {
                                Err(e) => (s4, Err(e)),
                                Ok(_) => {
                                    let (s5, r5) = consume(
                                        tokens,
                                        s4,
                                        TokenType::LeftBrace,
                                        Message::ExpectBraceBeforeBody(kind),
                                    );
                                    match r5 {
                                        Err(e) => (s5, Err(e)),
                                        Ok(_) => if s5.current > s.current {
                                            let (s6, r6) = block(tokens, s5);
                                            match r6 {
                                                Err(e) => (s6, Err(e)),
                                                Ok(body) => (
                                                    s6,
                                                    Ok(StmtView::Function { name, params, body }),
                                                ),
                                            }
                                        } else {
                                            fail(tokens, s5, Message::ExpectBraceAfterBlock)
                                        },
                                    }
                                },
                            }
                        },
                    }
                },
            }
        },
    }
}

/// The methods of a class body up to its `}`.
#[verifier::opaque]
pub open spec fn methods(tokens: Seq<TokenView>, s: Cursor, found: Seq<StmtView>) -> (
    Cursor,
    Result<Seq<StmtView>, ErrorView>,
)
    decreases remaining(tokens, s), 59nat,
{
    if check(tokens, s, TokenType::RightBrace) || at_end(tokens, s) {
        let (s1, r) = consume(
            tokens,
            s,
            TokenType::RightBrace,
            Message::ExpectBraceAfterClassBody,
        );
        match r {
            Err(e) => (s1, Err(e)),
            Ok(_) => (s1, Ok(found)),
        }
    } else {
        let (s1, r) = function(tokens, s, Callee::Method);
        match r {
            Err(e) => (s1, Err(e)),
            Ok(method) => if s1.current > s.current {
                methods(tokens, s1, found.push(method))
            } else {
                fail(tokens, s1, Message::ExpectBraceAfterClassBody)
            },
        }
    }
}

/// The superclass clause, which may be missing.
pub open spec fn superclass(tokens: Seq<TokenView>, s: Cursor) -> (
    Cursor,
    Result<Option<ExprView>, ErrorView>,
) {
    if check(tokens, s, TokenType::Less) {
        let (s1, r) = consume(
            tokens,
            advance(tokens, s),
            TokenType::Identifier,
            Message::ExpectSuperclassName,
        );
        match r {
            Err(e) => (s1, Err(e)),
            Ok(name) => (s1, Ok(Some(ExprView::Variable { name }))),
        }
    } else {
        (s, Ok(None))
    }
}

/// From the place after `class`.
#[verifier::opaque]
pub open spec fn class_declaration(tokens: Seq<TokenView>, s: Cursor) -> (
    Cursor,
    Result<StmtView, ErrorView>,
)
    decreases remaining(tokens, s), 60nat,
{
    let (s1, r1) = consume(tokens, s, TokenType::Identifier, Message::ExpectClassName);
    match r1 {
        Err(e) => (s1, Err(e)),
        Ok(name) => {
            let (s2, r2) = superclass(tokens, s1);
            match r2 {
                Err(e) => (s2, Err(e)),
                Ok(parent) => {
                    let (s3, r3) = consume(
                        tokens,
                        s2,
                        TokenType::LeftBrace,
                        Message::ExpectBraceBeforeClassBody,
                    );
                    match r3 {
                        Err(e) => (s3, Err(e)),
                        Ok(_) => {
                            let (s4, r4) = methods(tokens, s3, Seq::empty());
                            match r4 {
                                Err(e) => (s4, Err(e)),
                                Ok(found) => (
                                    s4,
                                    Ok(
                                        StmtView::Class {
                                            name,
                                            superclass: parent,
                                            methods: found,
                                        },
                                    ),
                                ),
                            }
                        },
                    }
                },
            }
        },
    }
}

/// A declaration or statement. After an error the parser is moved to
/// where the next statement is likely to begin.
#[verifier::opaque]
pub open spec fn declaration(tokens: Seq<TokenView>, s: Cursor) -> (
    Cursor,
    Result<StmtView, ErrorView>,
)
    decreases remaining(tokens, s), 50nat,
{
    let (s1, r) = if check(tokens, s, TokenType::Class) {
        class_declaration(tokens, advance(tokens, s))
    } else if check(tokens, s, TokenType::Fun) {
        function(tokens, advance(tokens, s), Callee::Function)
    } else if check(tokens, s, TokenType::Var) {
        var_declaration(tokens, advance(tokens, s))
    } else {
        statement(tokens, s)
    };
    match r {
        Err(e) => (synchronize(tokens, s1), Err(e)),
        Ok(stmt) => (s1, Ok(stmt)),
    }
}

/// The declarations from `s` to the end of the tokens, after those in
/// `found`. The first error ends it.
pub open spec fn program(tokens: Seq<TokenView>, s: Cursor, found: Seq<StmtView>) -> (
    Cursor,
    Result<Seq<StmtView>, ErrorView>,
)
    decreases remaining(tokens, s),
{
    if at_end(tokens, s) {
        (s, Ok(found))
    } else {
        let (s1, r) = declaration(tokens, s);
        match r {
            Err(e) => (s1, Err(e)),
            Ok(stmt) => if s1.current > s.current {
                program(tokens, s1, found.push(stmt))
            } else {
                (s1, Ok(found.push(stmt)))
            },
        }
    }
}

/// The expressions from `s` to the end of the tokens, after those in
/// `found`. The first error ends it.
pub open spec fn expressions(tokens: Seq<TokenView>, s: Cursor, found: Seq<ExprView>) -> (
    Cursor,
    Result<Seq<ExprView>, ErrorView>,
)
    decreases remaining(tokens, s),
{
    if at_end(tokens, s) {
        (s, Ok(found))
    } else {
        let (s1, r) = expression(tokens, s);
        match r {
            Err(e) => (s1, Err(e)),
            Ok(expr) => if s1.current > s.current {
                expressions(tokens, s1, found.push(expr))
            } else {
                (s1, Ok(found.push(expr)))
            },
        }
    }
}

} // verus!
