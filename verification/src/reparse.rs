//! Tokens that spell an expression parse back to it. Wherever the tokens
//! of a tree the parser can yield stand in a token list, and what follows
//! them cannot go on with the expression, the rule for the tree's level
//! takes exactly those tokens and yields the tree again, but for the
//! places of its tokens.

use vstd::prelude::*;
use crate::error::ErrorView;
use crate::expr::ExprView;
use crate::grammar::Cursor;
use crate::grammar::advance;
use crate::grammar::arguments;
use crate::grammar::assignment;
use crate::grammar::binary;
use crate::grammar::binary_rest;
use crate::grammar::call;
use crate::grammar::call_rest;
use crate::grammar::combine;
use crate::grammar::expression;
use crate::grammar::expressions;
use crate::grammar::finish_call;
use crate::grammar::is_operator;
use crate::grammar::operand;
use crate::grammar::primary;
use crate::grammar::unary;
use crate::token::TokenType;
use crate::token::TokenView;
use crate::written::bare;
use crate::written::bare_expr;
use crate::written::fits_binary;
use crate::written::fits_call;
use crate::written::fits_expr;
use crate::written::fits_operand;
use crate::written::fits_primary;
use crate::written::fits_unary;
use crate::written::joins;
use crate::written::left_of;
use crate::written::made;
use crate::written::operator_of;
use crate::written::right_of;
use crate::written::spelling;
use crate::written::spelling_from;

verus! {

/// The tokens `spelled` stand in `tokens` from place `at` on, but for
/// where each token stands in its source.
pub open spec fn spelled_at(tokens: Seq<TokenView>, at: int, spelled: Seq<TokenView>) -> bool {
    &&& 0 <= at
    &&& at + spelled.len() < tokens.len()
    &&& forall|j: int| 0 <= j < spelled.len() ==> bare(tokens[at + j]) == bare(#[trigger] spelled[j])
}

/// A token of this kind cannot go on with an expression of binary level
/// `level` or tighter: it opens no call, reads no property, and is no
/// operator of these levels. Level 6 stands for a whole expression, which
/// `=` would go on with; level -1 for a call or unary expression.
pub open spec fn stops(kind: TokenType, level: int) -> bool {
    &&& kind != TokenType::LeftParen
    &&& kind != TokenType::Dot
    &&& level >= 0 ==> !is_operator(0, kind)
    &&& level >= 1 ==> !is_operator(1, kind)
    &&& level >= 2 ==> !is_operator(2, kind)
    &&& level >= 3 ==> !is_operator(3, kind)
    &&& level >= 4 ==> !is_operator(4, kind)
    &&& level >= 5 ==> !is_operator(5, kind)
    &&& level >= 6 ==> kind != TokenType::Equal
}

/// The rule ended at place `end` with a tree that is `expression` but
/// for the places of its tokens.
pub open spec fn yields(
    out: (Cursor, Result<ExprView, ErrorView>),
    end: nat,
    expression: ExprView,
) -> bool {
    &&& out.0.current == end
    &&& out.1 is Ok
    &&& bare_expr(out.1->Ok_0) == bare_expr(expression)
}

/// Tokens spelled at a place are spelled there part by part.
pub proof fn lemma_split(tokens: Seq<TokenView>, at: int, first: Seq<TokenView>, second: Seq<TokenView>)
    requires
        spelled_at(tokens, at, first + second),
    ensures
        spelled_at(tokens, at, first),
        spelled_at(tokens, at + first.len(), second),
{
    let both = first + second;
    assert forall|j: int| 0 <= j < first.len() implies bare(tokens[at + j]) == bare(
        #[trigger] first[j],
    ) by {
        assert(both[j] == first[j]);
    }
    assert forall|j: int| 0 <= j < second.len() implies bare(tokens[at + first.len() + j])
        == bare(#[trigger] second[j]) by {
        assert(both[first.len() + j] == second[j]);
    }
}

/// The token at place `at + j` is the `j`th of those spelled there.
pub proof fn lemma_token(tokens: Seq<TokenView>, at: int, spelled: Seq<TokenView>, j: int)
    requires
        spelled_at(tokens, at, spelled),
        0 <= j < spelled.len(),
    ensures
        bare(tokens[at + j]) == bare(spelled[j]),
        tokens[at + j].kind == spelled[j].kind,
        tokens[at + j].literal == spelled[j].literal,
{
    let t = spelled[j];
}

/// What a call-level expression starts with: never an operator, a
/// closing parenthesis, a comma or the end marker.
pub open spec fn opens(kind: TokenType) -> bool {
    kind == TokenType::False || kind == TokenType::True || kind == TokenType::Nil || kind
        == TokenType::Number || kind == TokenType::String || kind == TokenType::Identifier || kind
        == TokenType::This || kind == TokenType::Super || kind == TokenType::LeftParen
}

/// A call-level expression starts with a token that opens one.
pub proof fn lemma_call_opens(expression: ExprView)
    requires
        fits_call(expression),
    ensures
        spelling(expression).len() >= 1,
        opens(spelling(expression)[0].kind),
    decreases expression,
{
    reveal_with_fuel(fits_primary, 2);
    reveal_with_fuel(fits_call, 2);
    reveal_with_fuel(fits_unary, 2);
    reveal_with_fuel(fits_operand, 2);
    reveal_with_fuel(fits_binary, 2);
    reveal_with_fuel(fits_expr, 2);
    reveal_with_fuel(spelling, 2);
    reveal_with_fuel(spelling_from, 2);
    match expression {
        ExprView::Call { callee, paren, arguments } => {
            lemma_call_opens(*callee);
        },
        ExprView::Get { object, name } => {
            lemma_call_opens(*object);
        },
        _ => {},
    }
}

/// A unary-level expression starts with `!`, `-` or a token that opens
/// a call-level expression.
pub proof fn lemma_unary_opens(expression: ExprView)
    requires
        fits_unary(expression),
    ensures
        spelling(expression).len() >= 1,
        opens(spelling(expression)[0].kind) || spelling(expression)[0].kind == TokenType::Bang
            || spelling(expression)[0].kind == TokenType::Minus,
    decreases expression,
{
    reveal_with_fuel(fits_primary, 2);
    reveal_with_fuel(fits_call, 2);
    reveal_with_fuel(fits_unary, 2);
    reveal_with_fuel(fits_operand, 2);
    reveal_with_fuel(fits_binary, 2);
    reveal_with_fuel(fits_expr, 2);
    reveal_with_fuel(spelling, 2);
    reveal_with_fuel(spelling_from, 2);
    match expression {
        ExprView::Unary { operator, right } => {},
        _ => {
            lemma_call_opens(expression);
        },
    }
}

/// An expression of a binary level starts as a unary-level one does.
pub proof fn lemma_binary_opens(expression: ExprView, level: nat)
    requires
        fits_binary(expression, level),
        level <= 5,
    ensures
        spelling(expression).len() >= 1,
        opens(spelling(expression)[0].kind) || spelling(expression)[0].kind == TokenType::Bang
            || spelling(expression)[0].kind == TokenType::Minus,
    decreases expression, level,
{
    reveal_with_fuel(fits_primary, 2);
    reveal_with_fuel(fits_call, 2);
    reveal_with_fuel(fits_unary, 2);
    reveal_with_fuel(fits_operand, 2);
    reveal_with_fuel(fits_binary, 2);
    reveal_with_fuel(fits_expr, 2);
    reveal_with_fuel(spelling, 2);
    reveal_with_fuel(spelling_from, 2);
    if joins(expression, level) {
        match expression {
            ExprView::Binary { left, operator, right } => {
                lemma_binary_opens(*left, level);
            },
            ExprView::Logical { left, operator, right } => {
                lemma_binary_opens(*left, level);
            },
            _ => {},
        }
    } else if level == 0 {
        lemma_unary_opens(expression);
    } else {
        lemma_binary_opens(expression, (level - 1) as nat);
    }
}

/// An expression starts as a unary-level one does.
pub proof fn lemma_expr_opens(expression: ExprView)
    requires
        fits_expr(expression),
    ensures
        spelling(expression).len() >= 1,
        opens(spelling(expression)[0].kind) || spelling(expression)[0].kind == TokenType::Bang
            || spelling(expression)[0].kind == TokenType::Minus,
    decreases expression,
{
    reveal_with_fuel(fits_primary, 2);
    reveal_with_fuel(fits_call, 2);
    reveal_with_fuel(fits_unary, 2);
    reveal_with_fuel(fits_operand, 2);
    reveal_with_fuel(fits_binary, 2);
    reveal_with_fuel(fits_expr, 2);
    reveal_with_fuel(spelling, 2);
    reveal_with_fuel(spelling_from, 2);
    match expression {
        ExprView::Assign { name, value } => {},
        ExprView::SetProperty { object, name, value } => {
            lemma_call_opens(*object);
        },
        _ => {
            lemma_binary_opens(expression, 5);
        },
    }
}

/// A call-level expression fits every binary level, and joins nothing.
pub proof fn lemma_call_fits_binary(expression: ExprView, level: nat)
    requires
        fits_call(expression),
        !(expression is Unary),
        level <= 5,
    ensures
        fits_binary(expression, level),
        !joins(expression, level),
    decreases level,
{
    reveal_with_fuel(fits_primary, 2);
    reveal_with_fuel(fits_call, 2);
    reveal_with_fuel(fits_unary, 2);
    reveal_with_fuel(fits_operand, 2);
    reveal_with_fuel(fits_binary, 2);
    reveal_with_fuel(fits_expr, 2);
    reveal_with_fuel(spelling, 2);
    reveal_with_fuel(spelling_from, 2);
    assert(!(expression is Binary) && !(expression is Logical));
    assert(!joins(expression, level));
    if level > 0 {
        lemma_call_fits_binary(expression, (level - 1) as nat);
        assert(fits_operand(expression, level));
    } else {
        assert(fits_unary(expression));
        assert(fits_operand(expression, level));
    }
}

/// A primary parses back.
pub proof fn lemma_primary(tokens: Seq<TokenView>, s: Cursor, e: ExprView)
    requires
        fits_primary(e),
        spelled_at(tokens, s.current as int, spelling(e)),
    ensures
        yields(primary(tokens, s), s.current + spelling(e).len(), e),
    decreases e, 0nat,
{
    reveal(primary);
    reveal(expression);
    let at = s.current as int;
    lemma_token(tokens, at, spelling(e), 0);
    match e {
        ExprView::Super { keyword, method } => {
            lemma_token(tokens, at, spelling(e), 1);
            lemma_token(tokens, at, spelling(e), 2);
        },
        ExprView::Grouping { expr } => {
            let inner = spelling(*expr);
            let open = seq![made(TokenType::LeftParen)];
            let close = seq![made(TokenType::RightParen)];
            lemma_split(tokens, at, open + inner, close);
            lemma_split(tokens, at, open, inner);
            lemma_token(tokens, at + 1 + inner.len(), close, 0);
            lemma_expr(tokens, advance(tokens, s), *expr);
        },
        _ => {},
    }
}

/// The arguments of a call parse back, from the one at `from` on.
pub proof fn lemma_arguments(
    tokens: Seq<TokenView>,
    s: Cursor,
    args: Seq<ExprView>,
    from: int,
    found: Seq<ExprView>,
)
    requires
        0 <= from < args.len(),
        forall|i: int| 0 <= i < args.len() ==> fits_expr(#[trigger] args[i]),
        spelled_at(tokens, s.current as int, spelling_from(args, from)),
        tokens[(s.current + spelling_from(args, from).len()) as int].kind == TokenType::RightParen,
        found.len() == from,
        forall|i: int| 0 <= i < from ==> bare_expr(#[trigger] found[i]) == bare_expr(args[i]),
    ensures
        arguments(tokens, s, found).0.current == s.current + spelling_from(args, from).len(),
        arguments(tokens, s, found).1 is Ok,
        arguments(tokens, s, found).1->Ok_0.len() == args.len(),
        forall|i: int|
            0 <= i < args.len() ==> bare_expr(#[trigger] arguments(tokens, s, found).1->Ok_0[i])
                == bare_expr(args[i]),
    decreases args, args.len() - from,
{
    reveal(arguments);
    reveal(expression);
    let at = s.current as int;
    let noted = if found.len() >= 255 {
        crate::grammar::report(s, tokens[s.current as int], crate::error::Message::TooManyArguments)
    } else {
        s
    };
    let one = spelling(args[from]);
    assert(fits_expr(args[from]));
    if from + 1 < args.len() {
        let comma = seq![made(TokenType::Comma)];
        let rest = spelling_from(args, from + 1);
        lemma_split(tokens, at, one + comma, rest);
        lemma_split(tokens, at, one, comma);
        lemma_token(tokens, at + one.len(), comma, 0);
        lemma_expr(tokens, noted, args[from]);
        let (s1, r) = expression(tokens, noted);
        let grown = found.push(r->Ok_0);
        assert forall|i: int| 0 <= i < from + 1 implies bare_expr(#[trigger] grown[i])
            == bare_expr(args[i]) by {
            if i < from {
                assert(grown[i] == found[i]);
            }
        }
        lemma_arguments(tokens, advance(tokens, s1), args, from + 1, grown);
    } else {
        lemma_expr(tokens, noted, args[from]);
        let (s1, r) = expression(tokens, noted);
        let grown = found.push(r->Ok_0);
        assert forall|i: int| 0 <= i < args.len() implies bare_expr(#[trigger] grown[i])
            == bare_expr(args[i]) by {
            if i < from {
                assert(grown[i] == found[i]);
            }
        }
    }
}

/// With no `(` and no `.` ahead, the rule for calls is done.
pub proof fn lemma_call_rest_stops(tokens: Seq<TokenView>, s: Cursor, callee: ExprView)
    requires
        s.current < tokens.len(),
        tokens[s.current as int].kind != TokenType::LeftParen,
        tokens[s.current as int].kind != TokenType::Dot,
    ensures
        call_rest(tokens, s, callee) == (s, Ok::<ExprView, ErrorView>(callee)),
{
    reveal(call_rest);
}

/// With `.` and a name ahead, the rule for calls reads the property and
/// goes on from behind the name.
pub proof fn lemma_call_rest_reads(tokens: Seq<TokenView>, s: Cursor, callee: ExprView)
    requires
        s.current + 1 < tokens.len(),
        tokens[s.current as int].kind == TokenType::Dot,
        tokens[s.current + 1 as int].kind == TokenType::Identifier,
    ensures
        call_rest(tokens, s, callee) == call_rest(
            tokens,
            Cursor { current: s.current + 2, ..s },
            ExprView::Get { object: Box::new(callee), name: tokens[s.current + 1 as int] },
        ),
{
    reveal(call_rest);
}

/// With `(` ahead, the rule for calls takes the call that follows and
/// goes on from behind it.
pub proof fn lemma_call_rest_calls(tokens: Seq<TokenView>, s: Cursor, callee: ExprView)
    requires
        s.current < tokens.len(),
        tokens[s.current as int].kind == TokenType::LeftParen,
        finish_call(tokens, advance(tokens, s), callee).1 is Ok,
        finish_call(tokens, advance(tokens, s), callee).0.current > s.current,
    ensures
        call_rest(tokens, s, callee) == call_rest(
            tokens,
            finish_call(tokens, advance(tokens, s), callee).0,
            finish_call(tokens, advance(tokens, s), callee).1->Ok_0,
        ),
{
    reveal(call_rest);
    reveal(finish_call);
}

/// The arguments and the closing parenthesis of a call parse back.
pub proof fn lemma_finish_call(
    tokens: Seq<TokenView>,
    s: Cursor,
    callee: ExprView,
    paren: TokenView,
    args: Seq<ExprView>,
)
    requires
        forall|i: int| 0 <= i < args.len() ==> fits_expr(#[trigger] args[i]),
        paren.kind == TokenType::RightParen,
        spelled_at(tokens, s.current as int, spelling_from(args, 0) + seq![paren]),
    ensures
        finish_call(tokens, s, callee).0.current == s.current + spelling_from(args, 0).len() + 1,
        finish_call(tokens, s, callee).1 is Ok,
        finish_call(tokens, s, callee).1->Ok_0 is Call,
        *finish_call(tokens, s, callee).1->Ok_0->Call_callee == callee,
        bare(finish_call(tokens, s, callee).1->Ok_0->Call_paren) == bare(paren),
        finish_call(tokens, s, callee).1->Ok_0->Call_arguments.len() == args.len(),
        forall|i: int|
            0 <= i < args.len() ==> bare_expr(
                #[trigger] finish_call(tokens, s, callee).1->Ok_0->Call_arguments[i],
            ) == bare_expr(args[i]),
    decreases args, args.len() + 1,
{
    reveal(finish_call);
    reveal(arguments);
    let at = s.current as int;
    let inner = spelling_from(args, 0);
    let close = seq![paren];
    lemma_split(tokens, at, inner, close);
    lemma_token(tokens, at + inner.len(), close, 0);
    if args.len() > 0 {
        assert(fits_expr(args[0]));
        lemma_expr_opens(args[0]);
        assert(inner[0] == spelling(args[0])[0]);
        lemma_token(tokens, at, inner, 0);
        lemma_arguments(tokens, s, args, 0, Seq::empty());
    }
}

/// A call is taken in whole.
pub proof fn lemma_absorbs_call(tokens: Seq<TokenView>, s: Cursor, e: ExprView) -> (out: (
    Cursor,
    ExprView,
))
    requires
        e is Call,
        fits_call(e),
        spelled_at(tokens, s.current as int, spelling(e)),
    ensures
        out.0.current == s.current + spelling(e).len(),
        bare_expr(out.1) == bare_expr(e),
        call(tokens, s) == call_rest(tokens, out.0, out.1),
    decreases e, 0nat,
{
    let at = s.current as int;
    match e {
        ExprView::Call { callee, paren, arguments: args } => {
            let head = spelling(*callee);
            let open = seq![made(TokenType::LeftParen)];
            let inner = spelling_from(args, 0);
            let close = seq![paren];
            assert(spelling(e) == head + open + inner + close);
            lemma_split(tokens, at, head + open + inner, close);
            lemma_split(tokens, at, head + open, inner);
            lemma_split(tokens, at, head, open);
            lemma_token(tokens, at + head.len(), open, 0);
            let (sc, tc) = lemma_call_absorbs(tokens, s, *callee);
            let inside = advance(tokens, sc);
            assert(head + open + inner + close =~= (head + open) + (inner + close));
            lemma_split(tokens, at, head + open, inner + close);
            lemma_finish_call(tokens, inside, tc, paren, args);
            lemma_call_rest_calls(tokens, sc, tc);
            let (s2, r) = finish_call(tokens, inside, tc);
            let t = r->Ok_0;
            assert(bare_expr(t)->Call_arguments =~= bare_expr(e)->Call_arguments);
            assert(bare_expr(t) == bare_expr(e));
            (s2, t)
        },
        _ => (s, e),
    }
}

/// A property read is taken in whole.
pub proof fn lemma_absorbs_get(tokens: Seq<TokenView>, s: Cursor, e: ExprView) -> (out: (
    Cursor,
    ExprView,
))
    requires
        e is Get,
        fits_call(e),
        spelled_at(tokens, s.current as int, spelling(e)),
    ensures
        out.0.current == s.current + spelling(e).len(),
        bare_expr(out.1) == bare_expr(e),
        call(tokens, s) == call_rest(tokens, out.0, out.1),
    decreases e, 0nat,
{
    let at = s.current as int;
    match e {
        ExprView::Get { object, name } => {
            let head = spelling(*object);
            let tail = seq![made(TokenType::Dot), name];
            lemma_split(tokens, at, head, tail);
            lemma_token(tokens, at + head.len(), tail, 0);
            lemma_token(tokens, at + head.len(), tail, 1);
            let (sc, tc) = lemma_call_absorbs(tokens, s, *object);
            lemma_call_rest_reads(tokens, sc, tc);
            let got = ExprView::Get { object: Box::new(tc), name: tokens[sc.current + 1 as int] };
            (Cursor { current: sc.current + 2, ..sc }, got)
        },
        _ => (s, e),
    }
}

/// A call-level expression is taken in whole before the rule looks for
/// more calls and properties: returns where the rule then stands and
/// the tree it holds.
pub proof fn lemma_call_absorbs(tokens: Seq<TokenView>, s: Cursor, e: ExprView) -> (out: (
    Cursor,
    ExprView,
))
    requires
        fits_call(e),
        spelled_at(tokens, s.current as int, spelling(e)),
    ensures
        out.0.current == s.current + spelling(e).len(),
        bare_expr(out.1) == bare_expr(e),
        call(tokens, s) == call_rest(tokens, out.0, out.1),
    decreases e, 1nat,
{
    if e is Call {
        lemma_absorbs_call(tokens, s, e)
    } else if e is Get {
        lemma_absorbs_get(tokens, s, e)
    } else {
        reveal(call);
        reveal(call_rest);
        reveal(primary);
        lemma_primary(tokens, s, e);
        let (s1, r) = primary(tokens, s);
        (s1, r->Ok_0)
    }
}

/// A call-level expression parses back.
pub proof fn lemma_call(tokens: Seq<TokenView>, s: Cursor, e: ExprView)
    requires
        fits_call(e),
        spelled_at(tokens, s.current as int, spelling(e)),
        stops(tokens[(s.current + spelling(e).len()) as int].kind, -1),
    ensures
        yields(call(tokens, s), s.current + spelling(e).len(), e),
    decreases e, 2nat,
{
    let out = lemma_call_absorbs(tokens, s, e);
    lemma_call_rest_stops(tokens, out.0, out.1);
}

/// A unary expression parses back.
pub proof fn lemma_unary(tokens: Seq<TokenView>, s: Cursor, e: ExprView)
    requires
        fits_unary(e),
        spelled_at(tokens, s.current as int, spelling(e)),
        stops(tokens[(s.current + spelling(e).len()) as int].kind, -1),
    ensures
        yields(unary(tokens, s), s.current + spelling(e).len(), e),
    decreases e, 3nat,
{
    reveal(unary);
    reveal(call);
    let at = s.current as int;
    lemma_unary_opens(e);
    lemma_token(tokens, at, spelling(e), 0);
    match e {
        ExprView::Unary { operator, right } => {
            lemma_split(tokens, at, seq![operator], spelling(*right));
            lemma_unary(tokens, advance(tokens, s), *right);
        },
        _ => {
            lemma_call_opens(e);
            lemma_call(tokens, s, e);
        },
    }
}

/// An operand of binary level `level` parses back.
pub proof fn lemma_operand(tokens: Seq<TokenView>, s: Cursor, e: ExprView, level: nat)
    requires
        level <= 5,
        fits_operand(e, level),
        spelled_at(tokens, s.current as int, spelling(e)),
        stops(tokens[(s.current + spelling(e).len()) as int].kind, level - 1),
    ensures
        yields(operand(tokens, s, level), s.current + spelling(e).len(), e),
    decreases e, 4 + 3 * level,
{
    reveal(operand);
    reveal(unary);
    reveal(binary);
    if level == 0 {
        lemma_unary(tokens, s, e);
    } else {
        lemma_binary(tokens, s, e, (level - 1) as nat);
    }
}

/// An expression of binary level `level` is taken in whole before the
/// rule looks for more operators of the level: returns where the rule
/// then stands and the tree it holds.
pub proof fn lemma_binary_absorbs(tokens: Seq<TokenView>, s: Cursor, e: ExprView, level: nat) -> (out:
    (Cursor, ExprView))
    requires
        level <= 5,
        fits_binary(e, level),
        spelled_at(tokens, s.current as int, spelling(e)),
        stops(tokens[(s.current + spelling(e).len()) as int].kind, level - 1),
    ensures
        out.0.current == s.current + spelling(e).len(),
        bare_expr(out.1) == bare_expr(e),
        binary(tokens, s, level) == binary_rest(tokens, out.0, level, out.1),
    decreases e, 5 + 3 * level,
{
    reveal(binary);
    reveal(binary_rest);
    reveal(operand);
    let at = s.current as int;
    if joins(e, level) {
        let left = left_of(e);
        let right = right_of(e);
        let operator = operator_of(e);
        let head = spelling(left);
        let middle = seq![operator];
        let tail = spelling(right);
        assert(spelling(e) == head + middle + tail);
        lemma_split(tokens, at, head + middle, tail);
        lemma_split(tokens, at, head, middle);
        lemma_token(tokens, at + head.len(), middle, 0);
        let (sl, tl) = lemma_binary_absorbs(tokens, s, left, level);
        lemma_operand(tokens, advance(tokens, sl), right, level);
        let (s2, r) = operand(tokens, advance(tokens, sl), level);
        let joined = combine(level, tl, tokens[sl.current as int], r->Ok_0);
        (s2, joined)
    } else {
        lemma_operand(tokens, s, e, level);
        let (s1, r) = operand(tokens, s, level);
        (s1, r->Ok_0)
    }
}

/// An expression of binary level `level` parses back.
pub proof fn lemma_binary(tokens: Seq<TokenView>, s: Cursor, e: ExprView, level: nat)
    requires
        level <= 5,
        fits_binary(e, level),
        spelled_at(tokens, s.current as int, spelling(e)),
        stops(tokens[(s.current + spelling(e).len()) as int].kind, level as int),
    ensures
        yields(binary(tokens, s, level), s.current + spelling(e).len(), e),
    decreases e, 6 + 3 * level,
{
    reveal(binary_rest);
    let out = lemma_binary_absorbs(tokens, s, e, level);
}

/// An operator of one binary level is an operator of no other.
pub proof fn lemma_not_operator(kind: TokenType, level: nat)
    requires
        level <= 5,
        stops(kind, level as int),
    ensures
        !is_operator(level, kind),
{
}

/// Where the rule for calls yields a tree and what follows cannot go on
/// at binary level `level`, the rule for that level yields the same.
pub proof fn lemma_lift(tokens: Seq<TokenView>, s: Cursor, level: nat)
    requires
        level <= 5,
        call(tokens, s).1 is Ok,
        s.current <= call(tokens, s).0.current < tokens.len(),
        !crate::grammar::check(tokens, s, TokenType::Bang),
        !crate::grammar::check(tokens, s, TokenType::Minus),
        stops(tokens[call(tokens, s).0.current as int].kind, level as int),
    ensures
        binary(tokens, s, level) == call(tokens, s),
        operand(tokens, s, level) == call(tokens, s),
    decreases level,
{
    reveal(unary);
    reveal(call);
    reveal(operand);
    reveal(binary);
    reveal(binary_rest);
    let kind = tokens[call(tokens, s).0.current as int].kind;
    lemma_not_operator(kind, level);
    if level > 0 {
        lemma_lift(tokens, s, (level - 1) as nat);
    }
    assert(unary(tokens, s) == call(tokens, s));
    assert(operand(tokens, s, level) == call(tokens, s));
}

/// A name before a token that goes on with no call is a variable.
pub proof fn lemma_variable(tokens: Seq<TokenView>, s: Cursor)
    requires
        s.current + 1 < tokens.len(),
        tokens[s.current as int].kind == TokenType::Identifier,
        tokens[s.current + 1 as int].kind != TokenType::LeftParen,
        tokens[s.current + 1 as int].kind != TokenType::Dot,
    ensures
        call(tokens, s) == (
            Cursor { current: s.current + 1, ..s },
            Ok::<ExprView, ErrorView>(ExprView::Variable { name: tokens[s.current as int] }),
        ),
{
    reveal(call);
    reveal(primary);
    lemma_call_rest_stops(
        tokens,
        Cursor { current: s.current + 1, ..s },
        ExprView::Variable { name: tokens[s.current as int] },
    );
}

/// An assignment to a variable parses back.
pub proof fn lemma_assign(tokens: Seq<TokenView>, s: Cursor, e: ExprView)
    requires
        e is Assign,
        fits_expr(e),
        spelled_at(tokens, s.current as int, spelling(e)),
        stops(tokens[(s.current + spelling(e).len()) as int].kind, 6),
    ensures
        yields(assignment(tokens, s), s.current + spelling(e).len(), e),
    decreases e, 29nat,
{
    reveal(assignment);
    reveal(binary);
    match e {
        ExprView::Assign { name, value } => {
            let at = s.current as int;
            let head = seq![name, made(TokenType::Equal)];
            lemma_split(tokens, at, head, spelling(*value));
            lemma_token(tokens, at, head, 0);
            lemma_token(tokens, at, head, 1);
            lemma_variable(tokens, s);
            lemma_lift(tokens, s, 5);
            let (s1, r) = binary(tokens, s, 5);
            assert(s1.current == s.current + 1);
            assert(r == Ok::<ExprView, ErrorView>(ExprView::Variable { name: tokens[at] }));
            lemma_expr(tokens, advance(tokens, s1), *value);
            let (s2, r2) = expression(tokens, advance(tokens, s1));
            reveal(expression);
            assert(assignment(tokens, s) == (
                s2,
                Ok::<ExprView, ErrorView>(
                    ExprView::Assign { name: tokens[at], value: Box::new(r2->Ok_0) },
                ),
            ));
        },
        _ => {},
    }
}

/// An assignment to a property parses back.
pub proof fn lemma_set(tokens: Seq<TokenView>, s: Cursor, e: ExprView)
    requires
        e is SetProperty,
        fits_expr(e),
        spelled_at(tokens, s.current as int, spelling(e)),
        stops(tokens[(s.current + spelling(e).len()) as int].kind, 6),
    ensures
        yields(assignment(tokens, s), s.current + spelling(e).len(), e),
    decreases e, 29nat,
{
    reveal(assignment);
    reveal(binary);
    match e {
        ExprView::SetProperty { object, name, value } => {
            let at = s.current as int;
            let head = spelling(*object);
            let middle = seq![made(TokenType::Dot), name, made(TokenType::Equal)];
            assert(spelling(e) == head + middle + spelling(*value));
            lemma_split(tokens, at, head + middle, spelling(*value));
            lemma_split(tokens, at, head, middle);
            lemma_token(tokens, at + head.len(), middle, 0);
            lemma_token(tokens, at + head.len(), middle, 1);
            lemma_token(tokens, at + head.len(), middle, 2);
            lemma_call_opens(*object);
            lemma_token(tokens, at, head, 0);
            let (sc, tc) = lemma_call_absorbs(tokens, s, *object);
            lemma_call_rest_reads(tokens, sc, tc);
            let got = ExprView::Get { object: Box::new(tc), name: tokens[sc.current + 1 as int] };
            let sg = Cursor { current: sc.current + 2, ..sc };
            lemma_call_rest_stops(tokens, sg, got);
            assert(call(tokens, s) == (sg, Ok::<ExprView, ErrorView>(got)));
            lemma_lift(tokens, s, 5);
            let (s1, r) = binary(tokens, s, 5);
            lemma_expr(tokens, advance(tokens, s1), *value);
            let (s2, r2) = expression(tokens, advance(tokens, s1));
            reveal(expression);
            assert(assignment(tokens, s) == (
                s2,
                Ok::<ExprView, ErrorView>(
                    ExprView::SetProperty {
                        object: Box::new(tc),
                        name: tokens[sc.current + 1 as int],
                        value: Box::new(r2->Ok_0),
                    },
                ),
            ));
        },
        _ => {},
    }
}

/// An expression parses back, wherever its tokens stand before a token
/// that cannot go on with it.
pub proof fn lemma_expr(tokens: Seq<TokenView>, s: Cursor, e: ExprView)
    requires
        fits_expr(e),
        spelled_at(tokens, s.current as int, spelling(e)),
        stops(tokens[(s.current + spelling(e).len()) as int].kind, 6),
    ensures
        yields(expression(tokens, s), s.current + spelling(e).len(), e),
    decreases e, 30nat,
{
    reveal(expression);
    reveal(assignment);
    reveal(binary);
    match e {
        ExprView::Assign { name, value } => {
            lemma_assign(tokens, s, e);
        },
        ExprView::SetProperty { object, name, value } => {
            lemma_set(tokens, s, e);
        },
        _ => {
            reveal(assignment);
            lemma_binary(tokens, s, e, 5);
        },
    }
}

/// The tokens that spell one expression, and then the end marker, parse
/// to that expression and nothing else.
pub proof fn lemma_reparse(tokens: Seq<TokenView>, e: ExprView)
    requires
        fits_expr(e),
        spelled_at(tokens, 0, spelling(e)),
        tokens[spelling(e).len() as int].kind == TokenType::Eof,
    ensures
        expressions(tokens, Cursor { current: 0, diagnostics: Seq::empty() }, Seq::empty()).1
            is Ok,
        expressions(
            tokens,
            Cursor { current: 0, diagnostics: Seq::empty() },
            Seq::empty(),
        ).1->Ok_0.len() == 1,
        bare_expr(
            expressions(
                tokens,
                Cursor { current: 0, diagnostics: Seq::empty() },
                Seq::empty(),
            ).1->Ok_0[0],
        ) == bare_expr(e),
{
    reveal_with_fuel(expressions, 3);
    let s = Cursor { current: 0, diagnostics: Seq::empty() };
    lemma_expr_opens(e);
    lemma_token(tokens, 0, spelling(e), 0);
    lemma_expr(tokens, s, e);
}

} // verus!
