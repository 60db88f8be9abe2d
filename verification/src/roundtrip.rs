//! What the printer writes reads back: the text of an expression, scanned
//! and parsed, is that expression again, but for the places of its
//! tokens.

use vstd::prelude::*;
use crate::error::ErrorView;
use crate::expr::Expr;
use crate::expr::ExprView;
use crate::expr::printed;
use crate::grammar::expression;
use crate::scanned::law_scanned_tokens_are_well_spelled;
use crate::yielded::lemma_expression_fits;
use crate::yielded::lemma_expressions_fit;
use crate::grammar::Cursor;
use crate::grammar::expressions;
use crate::reparse::lemma_reparse;
use crate::reparse::spelled_at;
use crate::rescan::all_well_spelled;
use crate::rescan::lemma_scan_text;
use crate::scanner::Scan;
use crate::scanner::keyword_table;
use crate::scanner::scan;
use crate::scanner::word_end;
use crate::token::LiteralView;
use crate::token::TokenType;
use crate::token::TokenView;
use crate::written::bare_expr;
use crate::written::fits_binary;
use crate::written::fits_call;
use crate::written::fits_expr;
use crate::written::fits_operand;
use crate::written::fits_primary;
use crate::written::fits_unary;
use crate::written::joins;
use crate::written::literal_ok;
use crate::written::literal_token;
use crate::written::made;
use crate::written::spelling;
use crate::written::spelling_from;
use crate::written::well_spelled;
use crate::written::written;

verus! {

/// `nil`, `true` and `false` are reserved words of their own kinds.
pub proof fn lemma_keywords()
    ensures
        keyword_table().contains_key(seq!['n', 'i', 'l']),
        keyword_table()[seq!['n', 'i', 'l']] == TokenType::Nil,
        keyword_table().contains_key(seq!['t', 'r', 'u', 'e']),
        keyword_table()[seq!['t', 'r', 'u', 'e']] == TokenType::True,
        keyword_table().contains_key(seq!['f', 'a', 'l', 's', 'e']),
        keyword_table()[seq!['f', 'a', 'l', 's', 'e']] == TokenType::False,
{
    reveal_strlit("and");
    reveal_strlit("class");
    reveal_strlit("else");
    reveal_strlit("false");
    reveal_strlit("for");
    reveal_strlit("fun");
    reveal_strlit("if");
    reveal_strlit("nil");
    reveal_strlit("or");
    reveal_strlit("print");
    reveal_strlit("return");
    reveal_strlit("super");
    reveal_strlit("this");
    reveal_strlit("true");
    reveal_strlit("var");
    reveal_strlit("while");
    let nil = seq!['n', 'i', 'l'];
    let yes = seq!['t', 'r', 'u', 'e'];
    let no = seq!['f', 'a', 'l', 's', 'e'];
    assert("nil"@ =~= nil);
    assert("true"@ =~= yes);
    assert("false"@ =~= no);
    assert("var"@[0] != nil[0]);
    assert("for"@[0] != nil[0]);
    assert("fun"@[0] != nil[0]);
    assert("print"@[0] != no[0]);
    assert("super"@[0] != no[0]);
    assert("while"@[0] != no[0]);
    assert("this"@[1] != yes[1]);
    assert("else"@[0] != yes[0]);
}

/// A literal the scanner can have made is spelled by a well-spelled
/// token.
pub proof fn lemma_literal_spelled(value: LiteralView)
    requires
        literal_ok(value),
    ensures
        well_spelled(literal_token(value)),
{
    lemma_keywords();
    let token = literal_token(value);
    match value {
        LiteralView::Nil => {
            reveal_with_fuel(word_end, 4);
        },
        LiteralView::Bool(b) => {
            reveal_with_fuel(word_end, 6);
        },
        LiteralView::Number(numeral) => {},
        LiteralView::String(text) => {
            assert(token.lexeme.subrange(1, token.lexeme.len() - 1) =~= text);
        },
        LiteralView::Identifier(_) => {},
    }
}

/// Two lists of well-spelled tokens, one after the other, are one.
pub proof fn lemma_both_spelled(first: Seq<TokenView>, second: Seq<TokenView>)
    requires
        all_well_spelled(first),
        all_well_spelled(second),
    ensures
        all_well_spelled(first + second),
{
    let both = first + second;
    assert forall|i: int| 0 <= i < both.len() implies well_spelled(#[trigger] both[i]) by {
        if i < first.len() {
            assert(both[i] == first[i]);
        } else {
            assert(both[i] == second[i - first.len()]);
        }
    }
}

/// The tokens of a primary the parser can yield are well spelled.
pub proof fn lemma_primary_spelled(e: ExprView)
    requires
        fits_primary(e),
    ensures
        all_well_spelled(spelling(e)),
    decreases e, 0nat,
{
    match e {
        ExprView::Literal { value } => {
            lemma_literal_spelled(value);
        },
        ExprView::Grouping { expr } => {
            lemma_expr_spelled(*expr);
            lemma_both_spelled(seq![made(TokenType::LeftParen)], spelling(*expr));
            lemma_both_spelled(
                seq![made(TokenType::LeftParen)] + spelling(*expr),
                seq![made(TokenType::RightParen)],
            );
        },
        _ => {},
    }
}

/// The tokens of the arguments of a call the parser can yield are well
/// spelled.
pub proof fn lemma_arguments_spelled(arguments: Seq<ExprView>, from: int)
    requires
        forall|i: int| 0 <= i < arguments.len() ==> fits_expr(#[trigger] arguments[i]),
    ensures
        all_well_spelled(spelling_from(arguments, from)),
    decreases arguments, arguments.len() - from,
{
    if from < 0 || from >= arguments.len() {
    } else {
        lemma_expr_spelled(arguments[from]);
        if from + 1 < arguments.len() {
            lemma_arguments_spelled(arguments, from + 1);
            lemma_both_spelled(spelling(arguments[from]), seq![made(TokenType::Comma)]);
            lemma_both_spelled(
                spelling(arguments[from]) + seq![made(TokenType::Comma)],
                spelling_from(arguments, from + 1),
            );
        }
    }
}

/// The tokens of a call the parser can yield are well spelled.
pub proof fn lemma_call_spelled(e: ExprView)
    requires
        fits_call(e),
    ensures
        all_well_spelled(spelling(e)),
    decreases e, 1nat,
{
    match e {
        ExprView::Call { callee, paren, arguments } => {
            lemma_call_spelled(*callee);
            lemma_arguments_spelled(arguments, 0);
            lemma_both_spelled(spelling(*callee), seq![made(TokenType::LeftParen)]);
            lemma_both_spelled(
                spelling(*callee) + seq![made(TokenType::LeftParen)],
                spelling_from(arguments, 0),
            );
            lemma_both_spelled(
                spelling(*callee) + seq![made(TokenType::LeftParen)] + spelling_from(arguments, 0),
                seq![paren],
            );
        },
        ExprView::Get { object, name } => {
            lemma_call_spelled(*object);
            lemma_both_spelled(spelling(*object), seq![made(TokenType::Dot), name]);
        },
        _ => {
            lemma_primary_spelled(e);
        },
    }
}

/// The tokens of a unary expression the parser can yield are well
/// spelled.
pub proof fn lemma_unary_spelled(e: ExprView)
    requires
        fits_unary(e),
    ensures
        all_well_spelled(spelling(e)),
    decreases e, 2nat,
{
    match e {
        ExprView::Unary { operator, right } => {
            lemma_unary_spelled(*right);
            lemma_both_spelled(seq![operator], spelling(*right));
        },
        _ => {
            lemma_call_spelled(e);
        },
    }
}

/// The tokens of an operand of binary level `level` are well spelled.
pub proof fn lemma_operand_spelled(e: ExprView, level: nat)
    requires
        fits_operand(e, level),
    ensures
        all_well_spelled(spelling(e)),
    decreases e, 3 + 2 * level,
{
    if level == 0 {
        lemma_unary_spelled(e);
    } else {
        lemma_binary_spelled(e, (level - 1) as nat);
    }
}

/// The tokens of an expression of binary level `level` are well spelled.
pub proof fn lemma_binary_spelled(e: ExprView, level: nat)
    requires
        fits_binary(e, level),
    ensures
        all_well_spelled(spelling(e)),
    decreases e, 4 + 2 * level,
{
    if joins(e, level) {
        match e {
            ExprView::Binary { left, operator, right } => {
                lemma_binary_spelled(*left, level);
                lemma_operand_spelled(*right, level);
                lemma_both_spelled(spelling(*left), seq![operator]);
                lemma_both_spelled(spelling(*left) + seq![operator], spelling(*right));
            },
            ExprView::Logical { left, operator, right } => {
                lemma_binary_spelled(*left, level);
                lemma_operand_spelled(*right, level);
                lemma_both_spelled(spelling(*left), seq![operator]);
                lemma_both_spelled(spelling(*left) + seq![operator], spelling(*right));
            },
            _ => {},
        }
    } else {
        lemma_operand_spelled(e, level);
    }
}

/// The tokens of an expression the parser can yield are well spelled.
pub proof fn lemma_expr_spelled(e: ExprView)
    requires
        fits_expr(e),
    ensures
        all_well_spelled(spelling(e)),
    decreases e, 20nat,
{
    match e {
        ExprView::Assign { name, value } => {
            lemma_expr_spelled(*value);
            lemma_both_spelled(seq![name, made(TokenType::Equal)], spelling(*value));
        },
        ExprView::SetProperty { object, name, value } => {
            lemma_call_spelled(*object);
            lemma_expr_spelled(*value);
            lemma_both_spelled(
                spelling(*object),
                seq![made(TokenType::Dot), name, made(TokenType::Equal)],
            );
            lemma_both_spelled(
                spelling(*object) + seq![made(TokenType::Dot), name, made(TokenType::Equal)],
                spelling(*value),
            );
        },
        _ => {
            lemma_binary_spelled(e, 5);
        },
    }
}

/// The expression reads back from its text: the scan of the text
/// reports no error, and its parse is one tree, equal to the expression
/// once the places of the tokens, line and column, are set aside.
pub open spec fn reads_back(e: ExprView) -> bool {
    let again = scan(written(e));
    let parsed = expressions(
        again.tokens,
        Cursor { current: 0, diagnostics: Seq::empty() },
        Seq::empty(),
    ).1;
    &&& again.errors.len() == 0
    &&& parsed is Ok
    &&& parsed->Ok_0.len() == 1
    &&& bare_expr(parsed->Ok_0[0]) == bare_expr(e)
}

/// An expression of the parser's shape, with well-spelled tokens, reads
/// back from its text.
pub proof fn law_written_reads_back(e: ExprView)
    requires
        fits_expr(e),
    ensures
        reads_back(e),
{
    let source = written(e);
    lemma_expr_spelled(e);
    assert(source.subrange(0, source.len() as int) =~= source);
    lemma_scan_text(Scan::start(), source, spelling(e));
    let tokens = scan(source).tokens;
    assert(spelled_at(tokens, 0, spelling(e)));
    lemma_reparse(tokens, e);
}

/// Every expression the parser yields from a scanned source, at
/// whatever place in the tokens it starts, reads back from its text.
pub proof fn law_parsed_expression_reads_back(source: Seq<char>, s: Cursor)
    requires
        expression(scan(source).tokens, s).1 is Ok,
    ensures
        reads_back(expression(scan(source).tokens, s).1->Ok_0),
{
    law_scanned_tokens_are_well_spelled(source);
    lemma_expression_fits(scan(source).tokens, s);
    law_written_reads_back(expression(scan(source).tokens, s).1->Ok_0);
}

/// Where a scanned source parses to expressions, each of them reads back
/// from its text.
pub proof fn law_parsed_expressions_read_back(source: Seq<char>, s: Cursor, i: int)
    requires
        expressions(scan(source).tokens, s, Seq::empty()).1 is Ok,
        0 <= i < expressions(scan(source).tokens, s, Seq::empty()).1->Ok_0.len(),
    ensures
        reads_back(expressions(scan(source).tokens, s, Seq::empty()).1->Ok_0[i]),
{
    law_scanned_tokens_are_well_spelled(source);
    lemma_expressions_fit(scan(source).tokens, s, Seq::empty());
    law_written_reads_back(expressions(scan(source).tokens, s, Seq::empty()).1->Ok_0[i]);
}

/// What the printer writes of a tree the parser yielded from a scanned
/// source reads back: scanned and parsed, the printed text gives one
/// tree, equal to the printed one but for line and column.
pub proof fn law_printed_reads_back(source: Seq<char>, s: Cursor, printing: &Expr)
    requires
        expression(scan(source).tokens, s).1 == Ok::<ExprView, ErrorView>(printing@),
    ensures
        scan(printed(printing)).errors.len() == 0,
        expressions(
            scan(printed(printing)).tokens,
            Cursor { current: 0, diagnostics: Seq::empty() },
            Seq::empty(),
        ).1 is Ok,
        expressions(
            scan(printed(printing)).tokens,
            Cursor { current: 0, diagnostics: Seq::empty() },
            Seq::empty(),
        ).1->Ok_0.len() == 1,
        bare_expr(
            expressions(
                scan(printed(printing)).tokens,
                Cursor { current: 0, diagnostics: Seq::empty() },
                Seq::empty(),
            ).1->Ok_0[0],
        ) == bare_expr(printing@),
{
    law_parsed_expression_reads_back(source, s);
}

} // verus!
