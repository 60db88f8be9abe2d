//! An expression written out in the language's own grammar: the tokens
//! that spell it, one after another, each followed by one space.

use vstd::prelude::*;
use crate::expr::ExprView;
use crate::grammar::is_operator;
use crate::scanner::is_alpha;
use crate::scanner::is_digit;
use crate::scanner::keyword_table;
use crate::scanner::number_end;
use crate::scanner::word_end;
use crate::token::LiteralView;
use crate::token::TokenType;
use crate::token::TokenView;

verus! {

/// The token without its place.
pub open spec fn bare(token: TokenView) -> TokenView {
    TokenView { line: 0, column: 0, ..token }
}

/// The characters of a punctuation mark or operator; nothing for every
/// other kind of token.
pub open spec fn mark(kind: TokenType) -> Seq<char> {
    match kind {
        TokenType::LeftParen => seq!['('],
        TokenType::RightParen => seq![')'],
        TokenType::LeftBrace => seq!['{'],
        TokenType::RightBrace => seq!['}'],
        TokenType::Comma => seq![','],
        TokenType::Dot => seq!['.'],
        TokenType::Minus => seq!['-'],
        TokenType::Plus => seq!['+'],
        TokenType::Semicolon => seq![';'],
        TokenType::Slash => seq!['/'],
        TokenType::Star => seq!['*'],
        TokenType::Bang => seq!['!'],
        TokenType::BangEqual => seq!['!', '='],
        TokenType::Equal => seq!['='],
        TokenType::EqualEqual => seq!['=', '='],
        TokenType::Greater => seq!['>'],
        TokenType::GreaterEqual => seq!['>', '='],
        TokenType::Less => seq!['<'],
        TokenType::LessEqual => seq!['<', '='],
        _ => Seq::empty(),
    }
}

/// The token of a mark, at no place.
pub open spec fn made(kind: TokenType) -> TokenView {
    TokenView { kind, lexeme: mark(kind), literal: None, line: 0, column: 0 }
}

/// The token is spelled as the scanner would have it: its lexeme, scanned
/// alone, is this one token, with this kind and this payload.
pub open spec fn well_spelled(token: TokenView) -> bool {
    let lexeme = token.lexeme;
    if token.kind == TokenType::Eof {
        false
    } else if mark(token.kind).len() > 0 {
        lexeme == mark(token.kind) && token.literal is None
    } else if token.kind == TokenType::String {
        &&& lexeme.len() >= 2
        &&& lexeme[0] == '"'
        &&& lexeme[lexeme.len() - 1] == '"'
        &&& forall|i: int| 1 <= i < lexeme.len() - 1 ==> lexeme[i] != '"'
        &&& token.literal == Some(LiteralView::String(lexeme.subrange(1, lexeme.len() - 1)))
    } else if token.kind == TokenType::Number {
        &&& lexeme.len() >= 1
        &&& is_digit(lexeme[0])
        &&& number_end(lexeme, 0) == lexeme.len()
        &&& token.literal == Some(LiteralView::Number(lexeme))
    } else {
        &&& lexeme.len() >= 1
        &&& is_alpha(lexeme[0])
        &&& word_end(lexeme, 1) == lexeme.len()
        &&& if keyword_table().contains_key(lexeme) {
            token.kind == keyword_table()[lexeme] && token.literal is None
        } else {
            token.kind == TokenType::Identifier && token.literal == Some(
                LiteralView::String(lexeme),
            )
        }
    }
}

/// The token that spells a literal.
pub open spec fn literal_token(value: LiteralView) -> TokenView {
    match value {
        LiteralView::Nil => TokenView {
            kind: TokenType::Nil,
            lexeme: seq!['n', 'i', 'l'],
            literal: None,
            line: 0,
            column: 0,
        },
        LiteralView::Bool(b) => if b {
            TokenView {
                kind: TokenType::True,
                lexeme: seq!['t', 'r', 'u', 'e'],
                literal: None,
                line: 0,
                column: 0,
            }
        } else {
            TokenView {
                kind: TokenType::False,
                lexeme: seq!['f', 'a', 'l', 's', 'e'],
                literal: None,
                line: 0,
                column: 0,
            }
        },
        LiteralView::Number(numeral) => TokenView {
            kind: TokenType::Number,
            lexeme: numeral,
            literal: Some(LiteralView::Number(numeral)),
            line: 0,
            column: 0,
        },
        LiteralView::String(text) => TokenView {
            kind: TokenType::String,
            lexeme: seq!['"'] + text + seq!['"'],
            literal: Some(LiteralView::String(text)),
            line: 0,
            column: 0,
        },
        LiteralView::Identifier(text) => TokenView {
            kind: TokenType::Identifier,
            lexeme: text,
            literal: Some(LiteralView::String(text)),
            line: 0,
            column: 0,
        },
    }
}

/// The tokens that spell an expression: operands around their operator, a
/// group in parentheses, a call as callee, `(`, arguments between commas,
/// `)`, a property as object, `.`, name, and a literal as its one token.
pub open spec fn spelling(expression: ExprView) -> Seq<TokenView>
    decreases expression, 0nat,
{
    match expression {
        ExprView::Assign { name, value } => seq![name, made(TokenType::Equal)] + spelling(*value),
        ExprView::Binary { left, operator, right } => spelling(*left) + seq![operator] + spelling(
            *right,
        ),
        ExprView::Logical { left, operator, right } => spelling(*left) + seq![operator]
            + spelling(*right),
        ExprView::Get { object, name } => spelling(*object) + seq![made(TokenType::Dot), name],
        ExprView::Grouping { expr } => seq![made(TokenType::LeftParen)] + spelling(*expr) + seq![
            made(TokenType::RightParen),
        ],
        ExprView::Literal { value } => seq![literal_token(value)],
        ExprView::Unary { operator, right } => seq![operator] + spelling(*right),
        ExprView::Variable { name } => seq![name],
        ExprView::Call { callee, paren, arguments } => spelling(*callee) + seq![
            made(TokenType::LeftParen),
        ] + spelling_from(arguments, 0) + seq![paren],
        ExprView::SetProperty { object, name, value } => spelling(*object) + seq![
            made(TokenType::Dot),
            name,
            made(TokenType::Equal),
        ] + spelling(*value),
        ExprView::Super { keyword, method } => seq![keyword, made(TokenType::Dot), method],
        ExprView::This { keyword } => seq![keyword],
    }
}

/// The tokens that spell the arguments from `from` on, with a comma
/// between one and the next.
pub open spec fn spelling_from(arguments: Seq<ExprView>, from: int) -> Seq<TokenView>
    decreases arguments, arguments.len() - from,
{
    if from < 0 || from >= arguments.len() {
        Seq::empty()
    } else if from + 1 < arguments.len() {
        spelling(arguments[from]) + seq![made(TokenType::Comma)] + spelling_from(
            arguments,
            from + 1,
        )
    } else {
        spelling(arguments[from])
    }
}

/// The text of a list of tokens: each lexeme, followed by one space.
pub open spec fn text(tokens: Seq<TokenView>) -> Seq<char>
    decreases tokens.len(),
{
    if tokens.len() == 0 {
        Seq::empty()
    } else {
        tokens[0].lexeme + seq![' '] + text(tokens.drop_first())
    }
}

/// The expression written out as source text.
pub open spec fn written(expression: ExprView) -> Seq<char> {
    text(spelling(expression))
}

/// The expression without the places of its tokens.
pub open spec fn bare_expr(expression: ExprView) -> ExprView
    decreases expression,
{
    match expression {
        ExprView::Assign { name, value } => ExprView::Assign {
            name: bare(name),
            value: Box::new(bare_expr(*value)),
        },
        ExprView::Binary { left, operator, right } => ExprView::Binary {
            left: Box::new(bare_expr(*left)),
            operator: bare(operator),
            right: Box::new(bare_expr(*right)),
        },
        ExprView::Logical { left, operator, right } => ExprView::Logical {
            left: Box::new(bare_expr(*left)),
            operator: bare(operator),
            right: Box::new(bare_expr(*right)),
        },
        ExprView::Get { object, name } => ExprView::Get {
            object: Box::new(bare_expr(*object)),
            name: bare(name),
        },
        ExprView::Grouping { expr } => ExprView::Grouping { expr: Box::new(bare_expr(*expr)) },
        ExprView::Literal { value } => ExprView::Literal { value },
        ExprView::Unary { operator, right } => ExprView::Unary {
            operator: bare(operator),
            right: Box::new(bare_expr(*right)),
        },
        ExprView::Variable { name } => ExprView::Variable { name: bare(name) },
        ExprView::Call { callee, paren, arguments } => ExprView::Call {
            callee: Box::new(bare_expr(*callee)),
            paren: bare(paren),
            arguments: Seq::new(
                arguments.len(),
                |i: int|
                    if 0 <= i < arguments.len() {
                        bare_expr(arguments[i])
                    } else {
                        ExprView::Literal { value: LiteralView::Nil }
                    },
            ),
        },
        ExprView::SetProperty { object, name, value } => ExprView::SetProperty {
            object: Box::new(bare_expr(*object)),
            name: bare(name),
            value: Box::new(bare_expr(*value)),
        },
        ExprView::Super { keyword, method } => ExprView::Super {
            keyword: bare(keyword),
            method: bare(method),
        },
        ExprView::This { keyword } => ExprView::This { keyword: bare(keyword) },
    }
}

/// A literal the scanner can have made: `nil`, a boolean, a numeral, or
/// text without a quote in it.
pub open spec fn literal_ok(value: LiteralView) -> bool {
    match value {
        LiteralView::Nil => true,
        LiteralView::Bool(_) => true,
        LiteralView::Number(numeral) => numeral.len() >= 1 && is_digit(numeral[0]) && number_end(
            numeral,
            0,
        ) == numeral.len(),
        LiteralView::String(text) => forall|i: int| 0 <= i < text.len() ==> text[i] != '"',
        LiteralView::Identifier(_) => false,
    }
}

/// A token of kind `kind`, spelled as the scanner would have it.
pub open spec fn token_ok(token: TokenView, kind: TokenType) -> bool {
    token.kind == kind && well_spelled(token)
}

/// The expression is one the rule for primaries can yield.
pub open spec fn fits_primary(expression: ExprView) -> bool
    decreases expression, 0nat,
{
    match expression {
        ExprView::Literal { value } => literal_ok(value),
        ExprView::Variable { name } => token_ok(name, TokenType::Identifier),
        ExprView::This { keyword } => token_ok(keyword, TokenType::This),
        ExprView::Super { keyword, method } => token_ok(keyword, TokenType::Super) && token_ok(
            method,
            TokenType::Identifier,
        ),
        ExprView::Grouping { expr } => fits_expr(*expr),
        _ => false,
    }
}

/// The expression is one the rule for calls can yield.
pub open spec fn fits_call(expression: ExprView) -> bool
    decreases expression, 1nat,
{
    match expression {
        ExprView::Call { callee, paren, arguments } => {
            &&& fits_call(*callee)
            &&& token_ok(paren, TokenType::RightParen)
            &&& forall|i: int| 0 <= i < arguments.len() ==> fits_expr(#[trigger] arguments[i])
        },
        ExprView::Get { object, name } => fits_call(*object) && token_ok(
            name,
            TokenType::Identifier,
        ),
        _ => fits_primary(expression),
    }
}

/// The expression is one the rule for unary operators can yield.
pub open spec fn fits_unary(expression: ExprView) -> bool
    decreases expression, 2nat,
{
    match expression {
        ExprView::Unary { operator, right } => {
            &&& operator.kind == TokenType::Bang || operator.kind == TokenType::Minus
            &&& well_spelled(operator)
            &&& fits_unary(*right)
        },
        _ => fits_call(expression),
    }
}

/// The expression has the shape of an operator of binary level `level`
/// between two operands.
pub open spec fn joins(expression: ExprView, level: nat) -> bool {
    match expression {
        ExprView::Binary { left, operator, right } => level < 4 && is_operator(
            level,
            operator.kind,
        ),
        ExprView::Logical { left, operator, right } => 4 <= level <= 5 && is_operator(
            level,
            operator.kind,
        ),
        _ => false,
    }
}

/// The left operand of an operator between two operands.
pub open spec fn left_of(expression: ExprView) -> ExprView {
    match expression {
        ExprView::Binary { left, operator, right } => *left,
        ExprView::Logical { left, operator, right } => *left,
        _ => expression,
    }
}

/// The right operand of an operator between two operands.
pub open spec fn right_of(expression: ExprView) -> ExprView {
    match expression {
        ExprView::Binary { left, operator, right } => *right,
        ExprView::Logical { left, operator, right } => *right,
        _ => expression,
    }
}

/// The operator between two operands.
pub open spec fn operator_of(expression: ExprView) -> TokenView {
    match expression {
        ExprView::Binary { left, operator, right } => operator,
        ExprView::Logical { left, operator, right } => operator,
        _ => made(TokenType::Eof),
    }
}

/// The expression is one an operand of binary level `level` can be: an
/// expression of the next tighter level.
pub open spec fn fits_operand(expression: ExprView, level: nat) -> bool
    decreases expression, 3 + 2 * level,
{
    if level == 0 {
        fits_unary(expression)
    } else {
        fits_binary(expression, (level - 1) as nat)
    }
}

/// The expression is one the rule for binary level `level` can yield.
pub open spec fn fits_binary(expression: ExprView, level: nat) -> bool
    decreases expression, 4 + 2 * level,
{
    if joins(expression, level) {
        &&& well_spelled(operator_of(expression))
        &&& match expression {
            ExprView::Binary { left, operator, right } => fits_binary(*left, level)
                && fits_operand(*right, level),
            ExprView::Logical { left, operator, right } => fits_binary(*left, level)
                && fits_operand(*right, level),
            _ => false,
        }
    } else {
        fits_operand(expression, level)
    }
}

/// The expression is one the parser can yield from scanned tokens.
pub open spec fn fits_expr(expression: ExprView) -> bool
    decreases expression, 20nat,
{
    match expression {
        ExprView::Assign { name, value } => token_ok(name, TokenType::Identifier) && fits_expr(
            *value,
        ),
        ExprView::SetProperty { object, name, value } => fits_call(*object) && token_ok(
            name,
            TokenType::Identifier,
        ) && fits_expr(*value),
        _ => fits_binary(expression, 5),
    }
}

/// The text of one list of tokens after another is the text of the one
/// after the text of the other.
pub proof fn lemma_text_concat(first: Seq<TokenView>, second: Seq<TokenView>)
    ensures
        text(first + second) == text(first) + text(second),
    decreases first.len(),
{
    if first.len() == 0 {
        assert(first + second =~= second);
        assert(text(first) + text(second) =~= text(second));
    } else {
        let both = first + second;
        assert(both.drop_first() =~= first.drop_first() + second);
        lemma_text_concat(first.drop_first(), second);
        assert(text(both) =~= text(first) + text(second));
    }
}

/// The text of one token is its lexeme and a space.
pub proof fn lemma_text_one(token: TokenView)
    ensures
        text(seq![token]) == token.lexeme + seq![' '],
{
    let one = seq![token];
    assert(one.drop_first() =~= Seq::<TokenView>::empty());
    assert(text(one.drop_first()) =~= Seq::<char>::empty());
    assert(text(one) =~= token.lexeme + seq![' ']);
}

/// A lexeme and the space behind it.
pub open spec fn spaced(lexeme: Seq<char>) -> Seq<char> {
    lexeme + seq![' ']
}

/// Two operands around their operator.
pub proof fn lemma_written_infix(left: ExprView, operator: TokenView, right: ExprView)
    ensures
        written(ExprView::Binary { left: Box::new(left), operator, right: Box::new(right) })
            == written(left) + spaced(operator.lexeme) + written(right),
        written(ExprView::Logical { left: Box::new(left), operator, right: Box::new(right) })
            == written(left) + spaced(operator.lexeme) + written(right),
{
    lemma_text_concat(spelling(left) + seq![operator], spelling(right));
    lemma_text_concat(spelling(left), seq![operator]);
    lemma_text_one(operator);
}

/// A unary expression is written as its operator and then its operand.
pub proof fn lemma_written_unary(operator: TokenView, right: ExprView)
    ensures
        written(ExprView::Unary { operator, right: Box::new(right) }) == spaced(operator.lexeme)
            + written(right),
{
    lemma_text_concat(seq![operator], spelling(right));
    lemma_text_one(operator);
}

/// A group is written as its inner expression in parentheses.
pub proof fn lemma_written_group(inner: ExprView)
    ensures
        written(ExprView::Grouping { expr: Box::new(inner) }) == spaced(
            mark(TokenType::LeftParen),
        ) + written(inner) + spaced(mark(TokenType::RightParen)),
{
    let open = seq![made(TokenType::LeftParen)];
    let close = seq![made(TokenType::RightParen)];
    lemma_text_concat(open + spelling(inner), close);
    lemma_text_concat(open, spelling(inner));
    lemma_text_one(made(TokenType::LeftParen));
    lemma_text_one(made(TokenType::RightParen));
}

/// A variable, `this` and a literal are written as their one token;
/// `super` as the keyword, `.` and the method name.
pub proof fn lemma_written_atoms(token: TokenView, other: TokenView, value: LiteralView)
    ensures
        written(ExprView::Variable { name: token }) == spaced(token.lexeme),
        written(ExprView::This { keyword: token }) == spaced(token.lexeme),
        written(ExprView::Literal { value }) == spaced(literal_token(value).lexeme),
        written(ExprView::Super { keyword: token, method: other }) == spaced(token.lexeme)
            + spaced(mark(TokenType::Dot)) + spaced(other.lexeme),
{
    lemma_text_one(token);
    lemma_text_one(other);
    lemma_text_one(literal_token(value));
    lemma_text_one(made(TokenType::Dot));
    let three = seq![token, made(TokenType::Dot), other];
    assert(three =~= seq![token] + seq![made(TokenType::Dot)] + seq![other]);
    lemma_text_concat(seq![token] + seq![made(TokenType::Dot)], seq![other]);
    lemma_text_concat(seq![token], seq![made(TokenType::Dot)]);
}

/// An assignment is written as the name, `=` and the value.
pub proof fn lemma_written_assign(name: TokenView, value: ExprView)
    ensures
        written(ExprView::Assign { name, value: Box::new(value) }) == spaced(name.lexeme)
            + spaced(mark(TokenType::Equal)) + written(value),
{
    let head = seq![name, made(TokenType::Equal)];
    assert(head =~= seq![name] + seq![made(TokenType::Equal)]);
    lemma_text_concat(head, spelling(value));
    lemma_text_concat(seq![name], seq![made(TokenType::Equal)]);
    lemma_text_one(name);
    lemma_text_one(made(TokenType::Equal));
}

/// A property is written as the object, `.` and the name.
pub proof fn lemma_written_get(object: ExprView, name: TokenView)
    ensures
        written(ExprView::Get { object: Box::new(object), name }) == written(object) + spaced(
            mark(TokenType::Dot),
        ) + spaced(name.lexeme),
{
    let tail = seq![made(TokenType::Dot), name];
    assert(tail =~= seq![made(TokenType::Dot)] + seq![name]);
    lemma_text_concat(spelling(object), tail);
    lemma_text_concat(seq![made(TokenType::Dot)], seq![name]);
    lemma_text_one(name);
    lemma_text_one(made(TokenType::Dot));
    assert(written(object) + (spaced(mark(TokenType::Dot)) + spaced(name.lexeme)) =~= written(
        object,
    ) + spaced(mark(TokenType::Dot)) + spaced(name.lexeme));
}

/// A property assignment is written as the object, `.`, the name, `=`
/// and the value.
pub proof fn lemma_written_set(object: ExprView, name: TokenView, value: ExprView)
    ensures
        written(
            ExprView::SetProperty { object: Box::new(object), name, value: Box::new(value) },
        ) == written(object) + spaced(mark(TokenType::Dot)) + spaced(name.lexeme) + spaced(
            mark(TokenType::Equal),
        ) + written(value),
{
    let middle = seq![made(TokenType::Dot), name, made(TokenType::Equal)];
    assert(middle =~= seq![made(TokenType::Dot)] + seq![name] + seq![made(TokenType::Equal)]);
    lemma_text_concat(spelling(object) + middle, spelling(value));
    lemma_text_concat(spelling(object), middle);
    lemma_text_concat(seq![made(TokenType::Dot)] + seq![name], seq![made(TokenType::Equal)]);
    lemma_text_concat(seq![made(TokenType::Dot)], seq![name]);
    lemma_text_one(name);
    lemma_text_one(made(TokenType::Dot));
    lemma_text_one(made(TokenType::Equal));
    assert(written(object) + (spaced(mark(TokenType::Dot)) + spaced(name.lexeme) + spaced(
        mark(TokenType::Equal),
    )) + written(value) =~= written(object) + spaced(mark(TokenType::Dot)) + spaced(name.lexeme)
        + spaced(mark(TokenType::Equal)) + written(value));
}

/// The text of the arguments from `from` on.
pub open spec fn written_from(arguments: Seq<ExprView>, from: int) -> Seq<char> {
    text(spelling_from(arguments, from))
}

/// A call is written as the callee, `(`, the arguments and the closing
/// parenthesis.
pub proof fn lemma_written_call(callee: ExprView, paren: TokenView, arguments: Seq<ExprView>)
    ensures
        written(ExprView::Call { callee: Box::new(callee), paren, arguments }) == written(callee)
            + spaced(mark(TokenType::LeftParen)) + written_from(arguments, 0) + spaced(
            paren.lexeme,
        ),
{
    let open = seq![made(TokenType::LeftParen)];
    let inner = spelling_from(arguments, 0);
    let close = seq![paren];
    lemma_text_concat(spelling(callee) + open + inner, close);
    lemma_text_concat(spelling(callee) + open, inner);
    lemma_text_concat(spelling(callee), open);
    lemma_text_one(paren);
    lemma_text_one(made(TokenType::LeftParen));
}

/// The text of the arguments is the text of the first, a comma if more
/// follow, and the text of the rest.
pub proof fn lemma_written_from(arguments: Seq<ExprView>, from: int)
    requires
        0 <= from < arguments.len(),
    ensures
        written_from(arguments, from) == if from + 1 < arguments.len() {
            written(arguments[from]) + spaced(mark(TokenType::Comma)) + written_from(
                arguments,
                from + 1,
            )
        } else {
            written(arguments[from])
        },
        written_from(arguments, arguments.len() as int) == Seq::<char>::empty(),
{
    if from + 1 < arguments.len() {
        let comma = seq![made(TokenType::Comma)];
        lemma_text_concat(spelling(arguments[from]) + comma, spelling_from(arguments, from + 1));
        lemma_text_concat(spelling(arguments[from]), comma);
        lemma_text_one(made(TokenType::Comma));
    }
}

} // verus!
