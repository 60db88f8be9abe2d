//! Every tree the grammar yields from scanned tokens has the shape the
//! rule that yielded it gives, and well-spelled tokens throughout.

use vstd::prelude::*;
use crate::error::Message;
use crate::expr::ExprView;
use crate::grammar::Cursor;
use crate::grammar::advance;
use crate::grammar::at_end;
use crate::grammar::check;
use crate::grammar::combine;
use crate::grammar::consume;
use crate::grammar::is_operator;
use crate::grammar::remaining;
use crate::grammar::report;
use crate::grammar::arguments;
use crate::grammar::assignment;
use crate::grammar::binary;
use crate::grammar::binary_rest;
use crate::grammar::call;
use crate::grammar::call_rest;
use crate::grammar::expression;
use crate::grammar::expressions;
use crate::grammar::finish_call;
use crate::grammar::operand;
use crate::grammar::primary;
use crate::grammar::unary;
use crate::scanned::spelled_or_end;
use crate::token::TokenType;
use crate::token::TokenView;
use crate::written::fits_binary;
use crate::written::fits_call;
use crate::written::fits_expr;
use crate::written::fits_operand;
use crate::written::fits_primary;
use crate::written::fits_unary;
use crate::written::joins;
use crate::written::well_spelled;

verus! {

/// A tree of binary level `level` that is no operator between two
/// operands and no unary operator before one is a call-level tree.
pub proof fn lemma_plain_is_call(e: ExprView, level: nat)
    requires
        fits_binary(e, level),
        !(e is Binary),
        !(e is Logical),
        !(e is Unary),
    ensures
        fits_call(e),
    decreases level,
{
    reveal_with_fuel(fits_unary, 2);
    reveal_with_fuel(fits_operand, 2);
    reveal_with_fuel(fits_binary, 2);
    assert(!joins(e, level));
    assert(fits_operand(e, level));
    if level > 0 {
        lemma_plain_is_call(e, (level - 1) as nat);
    } else {
        assert(fits_unary(e));
    }
}

/// A call-level tree is a unary-level tree, and has no operator and no
/// assignment at its top.
pub proof fn lemma_call_is_unary(e: ExprView)
    requires
        fits_call(e),
    ensures
        fits_unary(e),
        !(e is Unary),
        !(e is Binary),
        !(e is Logical),
        !(e is Assign),
        !(e is SetProperty),
{
    reveal_with_fuel(fits_primary, 2);
    reveal_with_fuel(fits_call, 2);
    reveal_with_fuel(fits_unary, 2);
    if !(e is Call) && !(e is Get) {
        assert(fits_primary(e));
    }
}

/// A unary-level tree has no binary operator and no assignment at its
/// top.
pub proof fn lemma_unary_joins_not(e: ExprView)
    requires
        fits_unary(e),
    ensures
        !(e is Binary),
        !(e is Logical),
        !(e is Assign),
        !(e is SetProperty),
{
    reveal_with_fuel(fits_unary, 2);
    if !(e is Unary) {
        assert(fits_call(e));
        lemma_call_is_unary(e);
    }
}

/// A tree of a tighter binary level has no operator of a looser level at
/// its top.
pub proof fn lemma_tighter_joins_not(e: ExprView, level: nat, looser: nat)
    requires
        fits_binary(e, level),
        level < looser,
    ensures
        !joins(e, looser),
    decreases level,
{
    reveal_with_fuel(fits_primary, 2);
    reveal_with_fuel(fits_call, 2);
    reveal_with_fuel(fits_unary, 2);
    reveal_with_fuel(fits_operand, 2);
    reveal_with_fuel(fits_binary, 2);
    if joins(e, level) {
    } else {
        assert(fits_operand(e, level));
        if level > 0 {
            lemma_tighter_joins_not(e, (level - 1) as nat, looser);
        } else {
            assert(fits_unary(e));
            lemma_unary_joins_not(e);
        }
    }
}

/// An operand of a binary level is an expression of that level.
pub proof fn lemma_operand_is_binary(e: ExprView, level: nat)
    requires
        fits_operand(e, level),
    ensures
        fits_binary(e, level),
{
    reveal_with_fuel(fits_primary, 2);
    reveal_with_fuel(fits_call, 2);
    reveal_with_fuel(fits_unary, 2);
    reveal_with_fuel(fits_operand, 2);
    reveal_with_fuel(fits_binary, 2);
    if level > 0 {
        lemma_tighter_joins_not(e, (level - 1) as nat, level);
    } else {
        assert(fits_unary(e));
        lemma_unary_joins_not(e);
    }
    assert(!joins(e, level));
}

/// What the rule for primaries yields is a primary.
pub proof fn lemma_primary_fits(tokens: Seq<TokenView>, s: Cursor)
    requires
        spelled_or_end(tokens),
        primary(tokens, s).1 is Ok,
    ensures
        fits_primary(primary(tokens, s).1->Ok_0),
    decreases remaining(tokens, s), 10nat,
{
    reveal(primary);
    reveal(expression);
    let token = tokens[s.current as int];
    let next = advance(tokens, s);
    assert(well_spelled(token));
    match token.kind {
        TokenType::String => {
            let inner = token.lexeme.subrange(1, token.lexeme.len() - 1);
            assert forall|i: int| 0 <= i < inner.len() implies inner[i] != '"' by {
                assert(inner[i] == token.lexeme[i + 1]);
            }
        },
        TokenType::Super => {
            let (s1, dot) = consume(
                tokens,
                next,
                TokenType::Dot,
                Message::ExpectDotAfterSuper,
            );
            assert(well_spelled(tokens[s1.current as int]));
        },
        TokenType::LeftParen => {
            lemma_expression_fits(tokens, next);
        },
        _ => {},
    }
}

/// What the rule for arguments yields are expressions, if those found
/// before are.
pub proof fn lemma_arguments_fit(tokens: Seq<TokenView>, s: Cursor, found: Seq<ExprView>)
    requires
        spelled_or_end(tokens),
        forall|i: int| 0 <= i < found.len() ==> fits_expr(#[trigger] found[i]),
        arguments(tokens, s, found).1 is Ok,
    ensures
        forall|i: int|
            0 <= i < arguments(tokens, s, found).1->Ok_0.len() ==> fits_expr(
                #[trigger] arguments(tokens, s, found).1->Ok_0[i],
            ),
    decreases remaining(tokens, s), 59nat,
{
    reveal(arguments);
    reveal(expression);
    let noted = if found.len() >= 255 {
        report(
            s,
            tokens[s.current as int],
            Message::TooManyArguments,
        )
    } else {
        s
    };
    let (s1, r) = expression(tokens, noted);
    lemma_expression_fits(tokens, noted);
    let more = found.push(r->Ok_0);
    assert forall|i: int| 0 <= i < more.len() implies fits_expr(#[trigger] more[i]) by {
        if i < found.len() {
            assert(more[i] == found[i]);
        }
    }
    if check(tokens, s1, TokenType::Comma) && s1.current >= s.current {
        lemma_arguments_fit(tokens, advance(tokens, s1), more);
    }
}

/// What the rule for the rest of a call yields is a call-level tree, if
/// the callee is one.
pub proof fn lemma_finish_call_fits(tokens: Seq<TokenView>, s: Cursor, callee: ExprView)
    requires
        spelled_or_end(tokens),
        fits_call(callee),
        finish_call(tokens, s, callee).1 is Ok,
    ensures
        fits_call(finish_call(tokens, s, callee).1->Ok_0),
    decreases remaining(tokens, s), 60nat,
{
    reveal(finish_call);
    reveal(arguments);
    if check(tokens, s, TokenType::RightParen) {
        assert(well_spelled(tokens[s.current as int]));
    } else {
        lemma_arguments_fit(tokens, s, Seq::empty());
        let s1 = arguments(tokens, s, Seq::empty()).0;
        assert(well_spelled(tokens[s1.current as int]));
    }
}

/// What the rule for calls and property accesses yields after a
/// call-level tree is a call-level tree.
pub proof fn lemma_call_rest_fits(tokens: Seq<TokenView>, s: Cursor, callee: ExprView)
    requires
        spelled_or_end(tokens),
        fits_call(callee),
        call_rest(tokens, s, callee).1 is Ok,
    ensures
        fits_call(call_rest(tokens, s, callee).1->Ok_0),
    decreases remaining(tokens, s), 12nat,
{
    reveal(call_rest);
    reveal(finish_call);
    if check(tokens, s, TokenType::LeftParen) {
        let (s1, r) = finish_call(tokens, advance(tokens, s), callee);
        lemma_finish_call_fits(tokens, advance(tokens, s), callee);
        if s1.current > s.current {
            lemma_call_rest_fits(tokens, s1, r->Ok_0);
        }
    } else if check(tokens, s, TokenType::Dot) {
        let (s1, r) = consume(
            tokens,
            advance(tokens, s),
            TokenType::Identifier,
            Message::ExpectPropertyName,
        );
        let name = r->Ok_0;
        assert(well_spelled(name));
        let read = ExprView::Get { object: Box::new(callee), name };
        assert(fits_call(read));
        lemma_call_rest_fits(tokens, s1, read);
    }
}

/// What the rule for calls yields is a call-level tree.
pub proof fn lemma_call_fits(tokens: Seq<TokenView>, s: Cursor)
    requires
        spelled_or_end(tokens),
        call(tokens, s).1 is Ok,
    ensures
        fits_call(call(tokens, s).1->Ok_0),
    decreases remaining(tokens, s), 14nat,
{
    reveal(call);
    reveal(primary);
    reveal(call_rest);
    let (s1, r) = primary(tokens, s);
    lemma_primary_fits(tokens, s);
    assert(fits_call(r->Ok_0));
    if s1.current >= s.current {
        lemma_call_rest_fits(tokens, s1, r->Ok_0);
    }
}

/// What the rule for unary operators yields is a unary-level tree.
pub proof fn lemma_unary_fits(tokens: Seq<TokenView>, s: Cursor)
    requires
        spelled_or_end(tokens),
        unary(tokens, s).1 is Ok,
    ensures
        fits_unary(unary(tokens, s).1->Ok_0),
    decreases remaining(tokens, s), 15nat,
{
    reveal(unary);
    reveal(call);
    if check(tokens, s, TokenType::Bang) || check(
        tokens,
        s,
        TokenType::Minus,
    ) {
        assert(well_spelled(tokens[s.current as int]));
        lemma_unary_fits(tokens, advance(tokens, s));
    } else {
        lemma_call_fits(tokens, s);
        lemma_call_is_unary(call(tokens, s).1->Ok_0);
    }
}

/// What the rule for an operand of a binary level yields is an operand
/// of that level.
pub proof fn lemma_operand_fits(tokens: Seq<TokenView>, s: Cursor, level: nat)
    requires
        spelled_or_end(tokens),
        operand(tokens, s, level).1 is Ok,
    ensures
        fits_operand(operand(tokens, s, level).1->Ok_0, level),
    decreases remaining(tokens, s), 20 + 3 * level,
{
    reveal(operand);
    reveal(unary);
    reveal(binary);
    if level == 0 {
        lemma_unary_fits(tokens, s);
    } else {
        lemma_binary_fits(tokens, s, (level - 1) as nat);
    }
}

/// What the rule for the operators of a binary level yields after an
/// expression of that level is an expression of that level.
pub proof fn lemma_binary_rest_fits(tokens: Seq<TokenView>, s: Cursor, level: nat, left: ExprView)
    requires
        spelled_or_end(tokens),
        fits_binary(left, level),
        binary_rest(tokens, s, level, left).1 is Ok,
    ensures
        fits_binary(binary_rest(tokens, s, level, left).1->Ok_0, level),
    decreases remaining(tokens, s), 21 + 3 * level,
{
    reveal(binary_rest);
    reveal(operand);
    if !at_end(tokens, s) && is_operator(
        level,
        tokens[s.current as int].kind,
    ) {
        let operator = tokens[s.current as int];
        assert(well_spelled(operator));
        let (s1, r) = operand(tokens, advance(tokens, s), level);
        lemma_operand_fits(tokens, advance(tokens, s), level);
        let joined = combine(level, left, operator, r->Ok_0);
        assert(joins(joined, level));
        assert(fits_binary(joined, level));
        if s1.current > s.current {
            lemma_binary_rest_fits(tokens, s1, level, joined);
        }
    }
}

/// What the rule for a binary level yields is an expression of that
/// level.
pub proof fn lemma_binary_fits(tokens: Seq<TokenView>, s: Cursor, level: nat)
    requires
        spelled_or_end(tokens),
        binary(tokens, s, level).1 is Ok,
    ensures
        fits_binary(binary(tokens, s, level).1->Ok_0, level),
    decreases remaining(tokens, s), 22 + 3 * level,
{
    reveal(binary);
    reveal(operand);
    reveal(binary_rest);
    let (s1, r) = operand(tokens, s, level);
    lemma_operand_fits(tokens, s, level);
    lemma_operand_is_binary(r->Ok_0, level);
    if s1.current >= s.current {
        lemma_binary_rest_fits(tokens, s1, level, r->Ok_0);
    }
}

/// What the rule for assignments yields is an expression.
pub proof fn lemma_assignment_fits(tokens: Seq<TokenView>, s: Cursor)
    requires
        spelled_or_end(tokens),
        assignment(tokens, s).1 is Ok,
    ensures
        fits_expr(assignment(tokens, s).1->Ok_0),
    decreases remaining(tokens, s), 42nat,
{
    reveal(assignment);
    reveal(binary);
    let (s1, r) = binary(tokens, s, 5);
    lemma_binary_fits(tokens, s, 5);
    let target = r->Ok_0;
    if !(target is Binary) && !(target is Logical) && !(target is Unary) {
        lemma_plain_is_call(target, 5);
    }
    assert(fits_expr(target)) by {
        reveal_with_fuel(fits_primary, 2);
        reveal_with_fuel(fits_call, 2);
    }
    if check(tokens, s1, TokenType::Equal) && s1.current >= s.current {
        lemma_assignment_fits(tokens, advance(tokens, s1));
        reveal_with_fuel(fits_primary, 2);
        reveal_with_fuel(fits_call, 2);
    }
}

/// What the rule for expressions yields is an expression the printer's
/// text reads back from.
pub proof fn lemma_expression_fits(tokens: Seq<TokenView>, s: Cursor)
    requires
        spelled_or_end(tokens),
        expression(tokens, s).1 is Ok,
    ensures
        fits_expr(expression(tokens, s).1->Ok_0),
    decreases remaining(tokens, s), 43nat,
{
    reveal(expression);
    reveal(assignment);
    lemma_assignment_fits(tokens, s);
}

/// The expressions the parser yields one after another all fit, if
/// those found before do.
pub proof fn lemma_expressions_fit(tokens: Seq<TokenView>, s: Cursor, found: Seq<ExprView>)
    requires
        spelled_or_end(tokens),
        forall|i: int| 0 <= i < found.len() ==> fits_expr(#[trigger] found[i]),
        expressions(tokens, s, found).1 is Ok,
    ensures
        forall|i: int|
            0 <= i < expressions(tokens, s, found).1->Ok_0.len() ==> fits_expr(
                #[trigger] expressions(tokens, s, found).1->Ok_0[i],
            ),
    decreases remaining(tokens, s),
{
    if !at_end(tokens, s) {
        let (s1, r) = expression(tokens, s);
        lemma_expression_fits(tokens, s);
        let more = found.push(r->Ok_0);
        assert forall|i: int| 0 <= i < more.len() implies fits_expr(#[trigger] more[i]) by {
            if i < found.len() {
                assert(more[i] == found[i]);
            }
        }
        if s1.current > s.current {
            lemma_expressions_fit(tokens, s1, more);
        }
    }
}

} // verus!
