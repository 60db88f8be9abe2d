//! The parser never moves backwards, and what it parses takes at least
//! one token. So wherever the grammar goes on only from a place that is
//! not behind, it does go on.

use vstd::prelude::*;
use crate::error::Callee;
use crate::error::ErrorView;
use crate::error::Message;
use crate::expr::ExprView;
use crate::grammar::Cursor;
use crate::grammar::advance;
use crate::grammar::arguments;
use crate::grammar::assignment;
use crate::grammar::at_end;
use crate::grammar::binary;
use crate::grammar::binary_rest;
use crate::grammar::block;
use crate::grammar::block_rest;
use crate::grammar::call;
use crate::grammar::call_rest;
use crate::grammar::check;
use crate::grammar::class_declaration;
use crate::grammar::combine;
use crate::grammar::condition;
use crate::grammar::consume;
use crate::grammar::declaration;
use crate::grammar::expression;
use crate::grammar::expression_statement;
use crate::grammar::expressions;
use crate::grammar::finish_call;
use crate::grammar::for_clause;
use crate::grammar::for_initializer;
use crate::grammar::for_statement;
use crate::grammar::function;
use crate::grammar::if_statement;
use crate::grammar::is_operator;
use crate::grammar::methods;
use crate::grammar::operand;
use crate::grammar::parameters;
use crate::grammar::primary;
use crate::grammar::print_statement;
use crate::grammar::program;
use crate::grammar::remaining;
use crate::grammar::report;
use crate::grammar::return_statement;
use crate::grammar::skip_to_statement;
use crate::grammar::statement;
use crate::grammar::superclass;
use crate::grammar::synchronize;
use crate::grammar::terminated;
use crate::grammar::unary;
use crate::grammar::var_declaration;
use crate::grammar::while_statement;
use crate::stmt::StmtView;
use crate::token::TokenType;
use crate::token::TokenView;

verus! {

/// The parser stands no further back than it did.
pub open spec fn forward(before: Cursor, after: Cursor) -> bool {
    after.current >= before.current
}

/// The parser stands no further back than it did, and further on if it
/// parsed something.
pub open spec fn advances<T>(before: Cursor, out: (Cursor, Result<T, ErrorView>)) -> bool {
    &&& out.0.current >= before.current
    &&& out.1 is Ok ==> out.0.current > before.current
}

pub proof fn lemma_skip_forward(tokens: Seq<TokenView>, s: Cursor)
    ensures
        forward(s, skip_to_statement(tokens, s)),
    decreases tokens.len() - s.current,
{
    if !at_end(tokens, s) && !(s.current >= 1 && tokens[s.current - 1].kind
        == TokenType::Semicolon) && !crate::grammar::begins_statement(
        tokens[s.current as int].kind,
    ) {
        lemma_skip_forward(tokens, advance(tokens, s));
    }
}

pub proof fn lemma_primary_advances(tokens: Seq<TokenView>, s: Cursor)
    ensures
        advances(s, primary(tokens, s)),
    decreases remaining(tokens, s), 10nat,
{
    reveal(primary);
    reveal(expression);
    if !at_end(tokens, s) {
        if tokens[s.current as int].kind == TokenType::LeftParen {
            lemma_expression_advances(tokens, advance(tokens, s));
        }
    }
}

pub proof fn lemma_arguments_advance(tokens: Seq<TokenView>, s: Cursor, found: Seq<ExprView>)
    ensures
        advances(s, arguments(tokens, s, found)),
    decreases remaining(tokens, s), 59nat,
{
    reveal(arguments);
    reveal(expression);
    let noted = if found.len() >= 255 {
        report(s, tokens[s.current as int], Message::TooManyArguments)
    } else {
        s
    };
    lemma_expression_advances(tokens, noted);
    let (s1, r) = expression(tokens, noted);
    match r {
        Ok(argument) => {
            if check(tokens, s1, TokenType::Comma) && s1.current >= s.current {
                lemma_arguments_advance(tokens, advance(tokens, s1), found.push(argument));
            }
        },
        Err(_) => {},
    }
}

pub proof fn lemma_finish_call_advances(tokens: Seq<TokenView>, s: Cursor, callee: ExprView)
    ensures
        advances(s, finish_call(tokens, s, callee)),
    decreases remaining(tokens, s), 60nat,
{
    reveal(finish_call);
    reveal(arguments);
    if !check(tokens, s, TokenType::RightParen) {
        lemma_arguments_advance(tokens, s, Seq::empty());
    }
}

pub proof fn lemma_call_rest_forward(tokens: Seq<TokenView>, s: Cursor, callee: ExprView)
    ensures
        forward(s, call_rest(tokens, s, callee).0),
    decreases remaining(tokens, s), 12nat,
{
    reveal(call_rest);
    reveal(finish_call);
    if check(tokens, s, TokenType::LeftParen) {
        lemma_finish_call_advances(tokens, advance(tokens, s), callee);
        let (s1, r) = finish_call(tokens, advance(tokens, s), callee);
        match r {
            Ok(expr) => {
                lemma_call_rest_forward(tokens, s1, expr);
            },
            Err(_) => {},
        }
    } else if check(tokens, s, TokenType::Dot) {
        let (s1, r) = consume(
            tokens,
            advance(tokens, s),
            TokenType::Identifier,
            Message::ExpectPropertyName,
        );
        match r {
            Ok(name) => {
                lemma_call_rest_forward(
                    tokens,
                    s1,
                    ExprView::Get { object: Box::new(callee), name },
                );
            },
            Err(_) => {},
        }
    }
}

pub proof fn lemma_call_advances(tokens: Seq<TokenView>, s: Cursor)
    ensures
        advances(s, call(tokens, s)),
    decreases remaining(tokens, s), 14nat,
{
    reveal(call);
    reveal(call_rest);
    reveal(primary);
    lemma_primary_advances(tokens, s);
    let (s1, r) = primary(tokens, s);
    match r {
        Ok(expr) => {
            lemma_call_rest_forward(tokens, s1, expr);
        },
        Err(_) => {},
    }
}

pub proof fn lemma_unary_advances(tokens: Seq<TokenView>, s: Cursor)
    ensures
        advances(s, unary(tokens, s)),
    decreases remaining(tokens, s), 15nat,
{
    reveal(unary);
    reveal(call);
    if check(tokens, s, TokenType::Bang) || check(tokens, s, TokenType::Minus) {
        lemma_unary_advances(tokens, advance(tokens, s));
    } else {
        lemma_call_advances(tokens, s);
    }
}

pub proof fn lemma_operand_advances(tokens: Seq<TokenView>, s: Cursor, level: nat)
    ensures
        advances(s, operand(tokens, s, level)),
    decreases remaining(tokens, s), 20 + 3 * level,
{
    reveal(operand);
    reveal(unary);
    reveal(binary);
    if level == 0 {
        lemma_unary_advances(tokens, s);
    } else {
        lemma_binary_advances(tokens, s, (level - 1) as nat);
    }
}

pub proof fn lemma_binary_rest_forward(
    tokens: Seq<TokenView>,
    s: Cursor,
    level: nat,
    left: ExprView,
)
    ensures
        forward(s, binary_rest(tokens, s, level, left).0),
    decreases remaining(tokens, s), 21 + 3 * level,
{
    reveal(binary_rest);
    reveal(operand);
    if !at_end(tokens, s) && is_operator(level, tokens[s.current as int].kind) {
        lemma_operand_advances(tokens, advance(tokens, s), level);
        let (s1, r) = operand(tokens, advance(tokens, s), level);
        match r {
            Ok(right) => {
                lemma_binary_rest_forward(
                    tokens,
                    s1,
                    level,
                    combine(level, left, tokens[s.current as int], right),
                );
            },
            Err(_) => {},
        }
    }
}

pub proof fn lemma_binary_advances(tokens: Seq<TokenView>, s: Cursor, level: nat)
    ensures
        advances(s, binary(tokens, s, level)),
    decreases remaining(tokens, s), 22 + 3 * level,
{
    reveal(binary);
    reveal(binary_rest);
    reveal(operand);
    lemma_operand_advances(tokens, s, level);
    let (s1, r) = operand(tokens, s, level);
    match r {
        Ok(left) => {
            lemma_binary_rest_forward(tokens, s1, level, left);
        },
        Err(_) => {},
    }
}

pub proof fn lemma_assignment_advances(tokens: Seq<TokenView>, s: Cursor)
    ensures
        advances(s, assignment(tokens, s)),
    decreases remaining(tokens, s), 42nat,
{
    reveal(assignment);
    reveal(binary);
    lemma_binary_advances(tokens, s, 5);
    let (s1, r) = binary(tokens, s, 5);
    match r {
        Ok(target) => {
            if check(tokens, s1, TokenType::Equal) && s1.current >= s.current {
                lemma_assignment_advances(tokens, advance(tokens, s1));
            }
        },
        Err(_) => {},
    }
}

pub proof fn lemma_expression_advances(tokens: Seq<TokenView>, s: Cursor)
    ensures
        advances(s, expression(tokens, s)),
    decreases remaining(tokens, s), 43nat,
{
    reveal(expression);
    reveal(assignment);
    lemma_assignment_advances(tokens, s);
}

pub proof fn lemma_terminated_advances(tokens: Seq<TokenView>, s: Cursor, message: Message)
    ensures
        advances(s, terminated(tokens, s, message)),
    decreases remaining(tokens, s), 44nat,
{
    reveal(terminated);
    reveal(expression);
    lemma_expression_advances(tokens, s);
}

pub proof fn lemma_var_declaration_advances(tokens: Seq<TokenView>, s: Cursor)
    ensures
        advances(s, var_declaration(tokens, s)),
    decreases remaining(tokens, s), 46nat,
{
    reveal(var_declaration);
    reveal(terminated);
    let (s1, r) = consume(tokens, s, TokenType::Identifier, Message::ExpectVariableName);
    match r {
        Ok(name) => {
            if check(tokens, s1, TokenType::Equal) {
                lemma_terminated_advances(
                    tokens,
                    advance(tokens, s1),
                    Message::ExpectSemicolonAfterVariable,
                );
            }
        },
        Err(_) => {},
    }
}

pub proof fn lemma_condition_advances(
    tokens: Seq<TokenView>,
    s: Cursor,
    open: Message,
    close: Message,
)
    ensures
        advances(s, condition(tokens, s, open, close)),
        condition(tokens, s, open, close).1 is Ok ==> s.current < tokens.len(),
    decreases remaining(tokens, s), 44nat,
{
    reveal(condition);
    reveal(expression);
    let (s1, r) = consume(tokens, s, TokenType::LeftParen, open);
    match r {
        Ok(_) => {
            lemma_expression_advances(tokens, s1);
        },
        Err(_) => {},
    }
}

pub proof fn lemma_while_statement_advances(tokens: Seq<TokenView>, s: Cursor)
    ensures
        advances(s, while_statement(tokens, s)),
    decreases remaining(tokens, s), 47nat,
{
    reveal(while_statement);
    reveal(condition);
    reveal(statement);
    lemma_condition_advances(
        tokens,
        s,
        Message::ExpectParenAfterWhile,
        Message::ExpectParenAfterCondition,
    );
    let (s1, r) = condition(
        tokens,
        s,
        Message::ExpectParenAfterWhile,
        Message::ExpectParenAfterCondition,
    );
    match r {
        Ok(test) => {
            lemma_statement_advances(tokens, s1);
        },
        Err(_) => {},
    }
}

pub proof fn lemma_if_statement_advances(tokens: Seq<TokenView>, s: Cursor)
    ensures
        advances(s, if_statement(tokens, s)),
    decreases remaining(tokens, s), 47nat,
{
    reveal(if_statement);
    reveal(condition);
    reveal(statement);
    lemma_condition_advances(
        tokens,
        s,
        Message::ExpectParenAfterIf,
        Message::ExpectParenAfterIfCondition,
    );
    let (s1, r) = condition(
        tokens,
        s,
        Message::ExpectParenAfterIf,
        Message::ExpectParenAfterIfCondition,
    );
    match r {
        Ok(test) => {
            lemma_statement_advances(tokens, s1);
            let (s2, r2) = statement(tokens, s1);
            match r2 {
                Ok(first) => {
                    if check(tokens, s2, TokenType::Else) {
                        lemma_statement_advances(tokens, advance(tokens, s2));
                    }
                },
                Err(_) => {},
            }
        },
        Err(_) => {},
    }
}

pub proof fn lemma_for_initializer_advances(tokens: Seq<TokenView>, s: Cursor)
    ensures
        advances(s, for_initializer(tokens, s)),
    decreases remaining(tokens, s), 47nat,
{
    reveal(for_initializer);
    reveal(var_declaration);
    reveal(expression_statement);
    reveal(terminated);
    if !check(tokens, s, TokenType::Semicolon) {
        if check(tokens, s, TokenType::Var) {
            lemma_var_declaration_advances(tokens, advance(tokens, s));
        } else {
            lemma_terminated_advances(tokens, s, Message::ExpectSemicolonAfterValue);
        }
    }
}

pub proof fn lemma_for_clause_advances(
    tokens: Seq<TokenView>,
    s: Cursor,
    end: TokenType,
    message: Message,
)
    ensures
        advances(s, for_clause(tokens, s, end, message)),
    decreases remaining(tokens, s), 47nat,
{
    reveal(for_clause);
    reveal(expression);
    if !check(tokens, s, end) {
        lemma_expression_advances(tokens, s);
    }
}

pub proof fn lemma_for_statement_advances(tokens: Seq<TokenView>, s: Cursor)
    ensures
        advances(s, for_statement(tokens, s)),
    decreases remaining(tokens, s), 48nat,
{
    reveal(for_statement);
    reveal(for_initializer);
    reveal(for_clause);
    reveal(statement);
    let (s1, r) = consume(tokens, s, TokenType::LeftParen, Message::ExpectParenAfterFor);
    match r {
        Ok(_) => {
            lemma_for_initializer_advances(tokens, s1);
            let (s2, r2) = for_initializer(tokens, s1);
            match r2 {
                Ok(initializer) => {
                    lemma_for_clause_advances(
                        tokens,
                        s2,
                        TokenType::Semicolon,
                        Message::ExpectSemicolonAfterLoopCondition,
                    );
                    let (s3, r3) = for_clause(
                        tokens,
                        s2,
                        TokenType::Semicolon,
                        Message::ExpectSemicolonAfterLoopCondition,
                    );
                    match r3 {
                        Ok(test) => {
                            lemma_for_clause_advances(
                                tokens,
                                s3,
                                TokenType::RightParen,
                                Message::ExpectParenAfterForClauses,
                            );
                            let (s4, r4) = for_clause(
                                tokens,
                                s3,
                                TokenType::RightParen,
                                Message::ExpectParenAfterForClauses,
                            );
                            match r4 {
                                Ok(increment) => {
                                    lemma_statement_advances(tokens, s4);
                                },
                                Err(_) => {},
                            }
                        },
                        Err(_) => {},
                    }
                },
                Err(_) => {},
            }
        },
        Err(_) => {},
    }
}

pub proof fn lemma_block_rest_advances(tokens: Seq<TokenView>, s: Cursor, found: Seq<StmtView>)
    ensures
        advances(s, block_rest(tokens, s, found)),
    decreases remaining(tokens, s), 59nat,
{
    reveal(block_rest);
    reveal(declaration);
    if !(check(tokens, s, TokenType::RightBrace) || at_end(tokens, s)) {
        lemma_declaration_advances(tokens, s);
        let (s1, r) = declaration(tokens, s);
        match r {
            Ok(stmt) => {
                lemma_block_rest_advances(tokens, s1, found.push(stmt));
            },
            Err(_) => {},
        }
    }
}

pub proof fn lemma_block_advances(tokens: Seq<TokenView>, s: Cursor)
    ensures
        advances(s, block(tokens, s)),
    decreases remaining(tokens, s), 60nat,
{
    reveal(block);
    reveal(block_rest);
    lemma_block_rest_advances(tokens, s, Seq::empty());
}

pub proof fn lemma_statement_advances(tokens: Seq<TokenView>, s: Cursor)
    ensures
        advances(s, statement(tokens, s)),
    decreases remaining(tokens, s), 49nat,
{
    reveal(statement);
    reveal(print_statement);
    reveal(return_statement);
    reveal(for_statement);
    reveal(if_statement);
    reveal(while_statement);
    reveal(block);
    reveal(expression_statement);
    reveal(terminated);
    if check(tokens, s, TokenType::Print) {
        lemma_terminated_advances(
            tokens,
            advance(tokens, s),
            Message::ExpectSemicolonAfterValue,
        );
    } else if check(tokens, s, TokenType::Return) {
        if !check(tokens, advance(tokens, s), TokenType::Semicolon) {
            lemma_terminated_advances(
                tokens,
                advance(tokens, s),
                Message::ExpectSemicolonAfterReturn,
            );
        }
    } else if check(tokens, s, TokenType::For) {
        lemma_for_statement_advances(tokens, advance(tokens, s));
    } else if check(tokens, s, TokenType::If) {
        lemma_if_statement_advances(tokens, advance(tokens, s));
    } else if check(tokens, s, TokenType::While) {
        lemma_while_statement_advances(tokens, advance(tokens, s));
    } else if check(tokens, s, TokenType::LeftBrace) {
        lemma_block_advances(tokens, advance(tokens, s));
    } else {
        lemma_terminated_advances(tokens, s, Message::ExpectSemicolonAfterValue);
    }
}

pub proof fn lemma_parameters_advance(tokens: Seq<TokenView>, s: Cursor, found: Seq<TokenView>)
    ensures
        advances(s, parameters(tokens, s, found)),
    decreases remaining(tokens, s),
{
    let noted = if found.len() >= 255 {
        report(s, tokens[s.current as int], Message::TooManyParameters)
    } else {
        s
    };
    let (s1, r) = consume(tokens, noted, TokenType::Identifier, Message::ExpectParameterName);
    match r {
        Ok(name) => {
            if check(tokens, s1, TokenType::Comma) {
                lemma_parameters_advance(tokens, advance(tokens, s1), found.push(name));
            }
        },
        Err(_) => {},
    }
}

pub proof fn lemma_function_advances(tokens: Seq<TokenView>, s: Cursor, kind: Callee)
    ensures
        advances(s, function(tokens, s, kind)),
    decreases remaining(tokens, s), 55nat,
{
    reveal(function);
    reveal(block);
    let (s1, r1) = consume(tokens, s, TokenType::Identifier, Message::ExpectCalleeName(kind));
    match r1 {
        Ok(name) => {
            let (s2, r2) = consume(
                tokens,
                s1,
                TokenType::LeftParen,
                Message::ExpectParenAfterCalleeName(kind),
            );
            match r2 {
                Ok(_) => {
                    if !check(tokens, s2, TokenType::RightParen) {
                        lemma_parameters_advance(tokens, s2, Seq::empty());
                    }
                    let (s3, r3) = if check(tokens, s2, TokenType::RightParen) {
                        (s2, Ok(Seq::empty()))
                    } else {
                        parameters(tokens, s2, Seq::empty())
                    };
                    match r3 {
                        Ok(params) => {
                            let (s4, r4) = consume(
                                tokens,
                                s3,
                                TokenType::RightParen,
                                Message::ExpectParenAfterParameters,
                            );
                            match r4 {
                                Ok(_) => {
                                    let (s5, r5) = consume(
                                        tokens,
                                        s4,
                                        TokenType::LeftBrace,
                                        Message::ExpectBraceBeforeBody(kind),
                                    );
                                    match r5 {
                                        Ok(_) => {
                                            lemma_block_advances(tokens, s5);
                                        },
                                        Err(_) => {},
                                    }
                                },
                                Err(_) => {},
                            }
                        },
                        Err(_) => {},
                    }
                },
                Err(_) => {},
            }
        },
        Err(_) => {},
    }
}

pub proof fn lemma_methods_advance(tokens: Seq<TokenView>, s: Cursor, found: Seq<StmtView>)
    ensures
        advances(s, methods(tokens, s, found)),
    decreases remaining(tokens, s), 59nat,
{
    reveal(methods);
    reveal(function);
    if !(check(tokens, s, TokenType::RightBrace) || at_end(tokens, s)) {
        lemma_function_advances(tokens, s, Callee::Method);
        let (s1, r) = function(tokens, s, Callee::Method);
        match r {
            Ok(method) => {
                lemma_methods_advance(tokens, s1, found.push(method));
            },
            Err(_) => {},
        }
    }
}

pub proof fn lemma_class_declaration_advances(tokens: Seq<TokenView>, s: Cursor)
    ensures
        advances(s, class_declaration(tokens, s)),
    decreases remaining(tokens, s), 60nat,
{
    reveal(class_declaration);
    reveal(methods);
    let (s1, r1) = consume(tokens, s, TokenType::Identifier, Message::ExpectClassName);
    match r1 {
        Ok(name) => {
            let (s2, r2) = superclass(tokens, s1);
            match r2 {
                Ok(parent) => {
                    let (s3, r3) = consume(
                        tokens,
                        s2,
                        TokenType::LeftBrace,
                        Message::ExpectBraceBeforeClassBody,
                    );
                    match r3 {
                        Ok(_) => {
                            lemma_methods_advance(tokens, s3, Seq::empty());
                        },
                        Err(_) => {},
                    }
                },
                Err(_) => {},
            }
        },
        Err(_) => {},
    }
}

pub proof fn lemma_declaration_advances(tokens: Seq<TokenView>, s: Cursor)
    ensures
        advances(s, declaration(tokens, s)),
    decreases remaining(tokens, s), 50nat,
{
    reveal(declaration);
    reveal(class_declaration);
    reveal(function);
    reveal(var_declaration);
    reveal(statement);
    let (s1, r) = if check(tokens, s, TokenType::Class) {
        lemma_class_declaration_advances(tokens, advance(tokens, s));
        class_declaration(tokens, advance(tokens, s))
    } else if check(tokens, s, TokenType::Fun) {
        lemma_function_advances(tokens, advance(tokens, s), Callee::Function);
        function(tokens, advance(tokens, s), Callee::Function)
    } else if check(tokens, s, TokenType::Var) {
        lemma_var_declaration_advances(tokens, advance(tokens, s));
        var_declaration(tokens, advance(tokens, s))
    } else {
        lemma_statement_advances(tokens, s);
        statement(tokens, s)
    };
    lemma_skip_forward(tokens, advance(tokens, s1));
}

/// Parsing never moves backwards, and every expression, statement and
/// declaration that is parsed takes at least one token. Hence a run of
/// declarations or expressions comes to the end of the tokens or to an
/// error: it never stops for standing still.
pub proof fn law_parsing_moves_on(tokens: Seq<TokenView>, s: Cursor)
    ensures
        advances(s, expression(tokens, s)),
        advances(s, statement(tokens, s)),
        advances(s, declaration(tokens, s)),
        forward(s, synchronize(tokens, s)),
        forward(s, program(tokens, s, Seq::empty()).0),
        forward(s, expressions(tokens, s, Seq::empty()).0),
        program(tokens, s, Seq::empty()).1 is Ok ==> at_end(
            tokens,
            program(tokens, s, Seq::empty()).0,
        ),
        expressions(tokens, s, Seq::empty()).1 is Ok ==> at_end(
            tokens,
            expressions(tokens, s, Seq::empty()).0,
        ),
{
    lemma_expression_advances(tokens, s);
    lemma_statement_advances(tokens, s);
    lemma_declaration_advances(tokens, s);
    lemma_skip_forward(tokens, advance(tokens, s));
    lemma_program_ends(tokens, s, Seq::empty());
    lemma_expressions_end(tokens, s, Seq::empty());
}

pub proof fn lemma_program_ends(tokens: Seq<TokenView>, s: Cursor, found: Seq<StmtView>)
    ensures
        forward(s, program(tokens, s, found).0),
        program(tokens, s, found).1 is Ok ==> at_end(tokens, program(tokens, s, found).0),
    decreases remaining(tokens, s),
{
    if !at_end(tokens, s) {
        lemma_declaration_advances(tokens, s);
        let (s1, r) = declaration(tokens, s);
        match r {
            Ok(stmt) => {
                lemma_program_ends(tokens, s1, found.push(stmt));
            },
            Err(_) => {},
        }
    }
}

pub proof fn lemma_expressions_end(tokens: Seq<TokenView>, s: Cursor, found: Seq<ExprView>)
    ensures
        forward(s, expressions(tokens, s, found).0),
        expressions(tokens, s, found).1 is Ok ==> at_end(tokens, expressions(tokens, s, found).0),
    decreases remaining(tokens, s),
{
    if !at_end(tokens, s) {
        lemma_expression_advances(tokens, s);
        let (s1, r) = expression(tokens, s);
        match r {
            Ok(expr) => {
                lemma_expressions_end(tokens, s1, found.push(expr));
            },
            Err(_) => {},
        }
    }
}

} // verus!
