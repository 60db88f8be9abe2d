//! Every token the scanner makes, but the end marker, is well spelled:
//! its lexeme, scanned alone, would be that one token again.

use vstd::prelude::*;
use crate::scanner::Scan;
use crate::scanner::digits_end;
use crate::scanner::is_alpha;
use crate::scanner::is_alphanumeric;
use crate::scanner::is_digit;
use crate::scanner::number_end;
use crate::scanner::scan;
use crate::scanner::string_end;
use crate::scanner::word_end;
use crate::token::TokenType;
use crate::token::TokenView;
use crate::written::mark;
use crate::written::well_spelled;

verus! {

/// Every token of the list is the end marker or well spelled.
pub open spec fn spelled_or_end(tokens: Seq<TokenView>) -> bool {
    forall|i: int|
        0 <= i < tokens.len() ==> (#[trigger] tokens[i]).kind == TokenType::Eof || well_spelled(
            tokens[i],
        )
}

/// A run of digits: where it ends, digits alone lie before, and no digit
/// stands.
pub proof fn lemma_digits(source: Seq<char>, from: nat)
    ensures
        from <= digits_end(source, from),
        from < source.len() ==> digits_end(source, from) <= source.len(),
        forall|i: int| from <= i < digits_end(source, from) ==> is_digit(#[trigger] source[i]),
        digits_end(source, from) < source.len() ==> !is_digit(
            source[digits_end(source, from) as int],
        ),
    decreases source.len() - from,
{
    if from < source.len() && is_digit(source[from as int]) {
        lemma_digits(source, from + 1);
    }
}

/// A run of digits that something else ends is the whole run.
pub proof fn lemma_digits_run(piece: Seq<char>, from: nat, to: nat)
    requires
        from <= to <= piece.len(),
        forall|i: int| from <= i < to ==> is_digit(#[trigger] piece[i]),
        to == piece.len() || !is_digit(piece[to as int]),
    ensures
        digits_end(piece, from) == to,
    decreases to - from,
{
    if from < to {
        assert(is_digit(piece[from as int]));
        lemma_digits_run(piece, from + 1, to);
    }
}

/// A run of letters and digits: where it ends, they alone lie before,
/// and none stands.
pub proof fn lemma_word(source: Seq<char>, from: nat)
    ensures
        from <= word_end(source, from),
        from < source.len() ==> word_end(source, from) <= source.len(),
        forall|i: int| from <= i < word_end(source, from) ==> is_alphanumeric(#[trigger] source[i]),
    decreases source.len() - from,
{
    if from < source.len() && is_alphanumeric(source[from as int]) {
        lemma_word(source, from + 1);
    }
}

/// A run of letters and digits up to the end of the piece is the whole
/// run.
pub proof fn lemma_word_run(piece: Seq<char>, from: nat)
    requires
        from <= piece.len(),
        forall|i: int| from <= i < piece.len() ==> is_alphanumeric(#[trigger] piece[i]),
    ensures
        word_end(piece, from) == piece.len(),
    decreases piece.len() - from,
{
    if from < piece.len() {
        assert(is_alphanumeric(piece[from as int]));
        lemma_word_run(piece, from + 1);
    }
}

/// The search for the closing quote passes no quote, and stops on one
/// unless the source ends first.
pub proof fn lemma_quote(source: Seq<char>, from: nat, line: nat, line_start: nat)
    ensures
        from <= string_end(source, from, line, line_start).0,
        forall|i: int|
            from <= i < string_end(source, from, line, line_start).0 ==> #[trigger] source[i]
                != '"',
        string_end(source, from, line, line_start).0 < source.len() ==> source[string_end(
            source,
            from,
            line,
            line_start,
        ).0 as int] == '"',
    decreases source.len() - from,
{
    if from < source.len() && source[from as int] != '"' {
        if source[from as int] == '\n' {
            lemma_quote(source, from + 1, line + 1, from + 1);
        } else {
            lemma_quote(source, from + 1, line, line_start);
        }
    }
}

/// A number the scanner makes is well spelled.
pub proof fn lemma_number_spelled(state: Scan, source: Seq<char>)
    requires
        state.position < source.len(),
        is_digit(source[state.position as int]),
    ensures
        well_spelled(state.number(source).tokens.last()),
        state.number(source).tokens == state.tokens.push(state.number(source).tokens.last()),
{
    let at = state.position;
    let whole = digits_end(source, at);
    let end = number_end(source, at);
    lemma_digits(source, at);
    let piece = source.subrange(at as int, end as int);
    if end == whole {
        assert forall|i: int| 0 <= i < piece.len() implies is_digit(#[trigger] piece[i]) by {
            assert(piece[i] == source[at + i]);
        }
        lemma_digits_run(piece, 0, piece.len());
    } else {
        lemma_digits(source, whole + 1);
        let point = (whole - at) as nat;
        assert forall|i: int| 0 <= i < point implies is_digit(#[trigger] piece[i]) by {
            assert(piece[i] == source[at + i]);
        }
        assert(piece[point as int] == source[whole as int]);
        lemma_digits_run(piece, 0, point);
        assert(piece[point + 1 as int] == source[whole + 1 as int]);
        assert forall|i: int| point + 1 <= i < piece.len() implies is_digit(#[trigger] piece[i]) by {
            assert(piece[i] == source[at + i]);
        }
        lemma_digits_run(piece, point + 1, piece.len());
    }
    assert(piece[0] == source[at as int]);
}

/// A word the scanner makes is well spelled.
pub proof fn lemma_word_spelled(state: Scan, source: Seq<char>)
    requires
        state.position < source.len(),
        is_alpha(source[state.position as int]),
    ensures
        well_spelled(state.identifier(source).tokens.last()),
        state.identifier(source).tokens == state.tokens.push(
            state.identifier(source).tokens.last(),
        ),
{
    let at = state.position;
    let end = word_end(source, at + 1);
    lemma_word(source, at + 1);
    let piece = source.subrange(at as int, end as int);
    assert forall|i: int| 1 <= i < piece.len() implies is_alphanumeric(#[trigger] piece[i]) by {
        assert(piece[i] == source[at + i]);
    }
    lemma_word_run(piece, 1);
    assert(piece[0] == source[at as int]);
    let token = state.identifier(source).tokens.last();
    assert(token.lexeme == piece);
    assert(mark(token.kind).len() == 0);
    assert(token.kind != TokenType::Eof);
    assert(token.kind != TokenType::String);
    assert(token.kind != TokenType::Number);
}

/// A string the scanner makes is well spelled.
pub proof fn lemma_string_spelled(state: Scan, source: Seq<char>)
    requires
        state.position < source.len(),
        source[state.position as int] == '"',
    ensures
        state.string(source).tokens == state.tokens || (state.string(source).tokens
            == state.tokens.push(state.string(source).tokens.last()) && well_spelled(
            state.string(source).tokens.last(),
        )),
{
    let at = state.position;
    lemma_quote(source, at + 1, state.line, state.line_start);
    let close = string_end(source, at + 1, state.line, state.line_start).0;
    if close < source.len() {
        let piece = source.subrange(at as int, close + 1 as int);
        assert(piece[0] == source[at as int]);
        assert(piece[piece.len() - 1] == source[close as int]);
        assert forall|i: int| 1 <= i < piece.len() - 1 implies piece[i] != '"' by {
            assert(piece[i] == source[at + i]);
        }
        assert(piece.subrange(1, piece.len() - 1) =~= source.subrange(at + 1 as int, close as int));
    }
}

/// A mark the scanner makes is well spelled.
pub proof fn lemma_mark_spelled(state: Scan, source: Seq<char>, kind: TokenType)
    requires
        mark(kind).len() > 0,
        state.position + mark(kind).len() <= source.len(),
        forall|i: int| 0 <= i < mark(kind).len() ==> source[state.position + i] == mark(kind)[i],
    ensures
        well_spelled(
            state.emit(source, kind, state.position + mark(kind).len(), None).tokens.last(),
        ),
{
    let end = state.position + mark(kind).len();
    assert(source.subrange(state.position as int, end as int) =~= mark(kind));
}

/// One step of the scanner keeps its tokens well spelled.
pub proof fn lemma_step_spelled(state: Scan, source: Seq<char>)
    requires
        state.position < source.len(),
        spelled_or_end(state.tokens),
    ensures
        spelled_or_end(state.scan_token(source).tokens),
{
    let c = source[state.position as int];
    let after = state.scan_token(source);
    let next = state.position + 1;
    if after.tokens == state.tokens {
    } else {
        assert(after.tokens == state.tokens.push(after.tokens.last()) && well_spelled(
            after.tokens.last(),
        )) by {
            if c == '"' {
                lemma_string_spelled(state, source);
            } else if is_digit(c) {
                lemma_number_spelled(state, source);
            } else if is_alpha(c) {
                lemma_word_spelled(state, source);
            } else if c == '!' || c == '=' || c == '<' || c == '>' {
                let token = after.tokens.last();
                lemma_mark_spelled(state, source, token.kind);
            } else {
                let token = after.tokens.last();
                lemma_mark_spelled(state, source, token.kind);
            }
        }
        assert forall|i: int| 0 <= i < after.tokens.len() implies (#[trigger] after.tokens[i]).kind
            == TokenType::Eof || well_spelled(after.tokens[i]) by {
            if i < state.tokens.len() {
                assert(after.tokens[i] == state.tokens[i]);
            }
        }
    }
}

/// The scan from any state with well-spelled tokens ends with
/// well-spelled tokens and the end marker.
pub proof fn lemma_scan_spelled(state: Scan, source: Seq<char>)
    requires
        spelled_or_end(state.tokens),
    ensures
        spelled_or_end(state.scan_tokens(source).tokens),
    decreases
            if state.position < source.len() {
                source.len() - state.position
            } else {
                0
            },
{
    if state.position >= source.len() {
        let out = state.scan_tokens(source);
        assert forall|i: int| 0 <= i < out.tokens.len() implies (#[trigger] out.tokens[i]).kind
            == TokenType::Eof || well_spelled(out.tokens[i]) by {
            if i < state.tokens.len() {
                assert(out.tokens[i] == state.tokens[i]);
            }
        }
    } else {
        lemma_step_spelled(state, source);
        let next = state.scan_token(source);
        if next.position > state.position {
            lemma_scan_spelled(next, source);
        }
    }
}

/// Every token of a scanned source is the end marker or well spelled.
pub proof fn law_scanned_tokens_are_well_spelled(source: Seq<char>)
    ensures
        spelled_or_end(scan(source).tokens),
{
    lemma_scan_spelled(Scan::start(), source);
}

} // verus!
