//! Written text scans back to the tokens it was written from: each
//! well-spelled token, followed by a space, is scanned as one token of
//! the same kind, spelling and payload.

use vstd::prelude::*;
use crate::scanner::Scan;
use crate::scanner::digits_end;
use crate::scanner::is_alphanumeric;
use crate::scanner::is_digit;
use crate::scanner::number_end;
use crate::scanner::string_end;
use crate::scanner::word_end;
use crate::token::TokenType;
use crate::token::TokenView;
use crate::written::bare;
use crate::written::mark;
use crate::written::text;
use crate::written::well_spelled;

verus! {

/// The characters of `piece` stand in `source` from place `at` on, and a
/// space follows them.
pub open spec fn stands_at(source: Seq<char>, at: int, piece: Seq<char>) -> bool {
    &&& 0 <= at
    &&& at + piece.len() < source.len()
    &&& source[at + piece.len()] == ' '
    &&& forall|i: int| 0 <= i < piece.len() ==> source[at + i] == #[trigger] piece[i]
}

/// A run of digits ends in the source where it ends in the piece.
pub proof fn lemma_digits_shift(source: Seq<char>, at: int, piece: Seq<char>, from: int)
    requires
        stands_at(source, at, piece),
        0 <= from <= piece.len(),
    ensures
        digits_end(source, (at + from) as nat) == at + digits_end(piece, from as nat),
        from <= digits_end(piece, from as nat) <= piece.len(),
    decreases piece.len() - from,
{
    if from < piece.len() {
        assert(source[at + from] == piece[from]);
        if is_digit(piece[from]) {
            lemma_digits_shift(source, at, piece, from + 1);
        }
    }
}

/// A run of letters and digits ends in the source where it ends in the
/// piece.
pub proof fn lemma_word_shift(source: Seq<char>, at: int, piece: Seq<char>, from: int)
    requires
        stands_at(source, at, piece),
        0 <= from <= piece.len(),
    ensures
        word_end(source, (at + from) as nat) == at + word_end(piece, from as nat),
        from <= word_end(piece, from as nat) <= piece.len(),
    decreases piece.len() - from,
{
    if from < piece.len() {
        assert(source[at + from] == piece[from]);
        if is_alphanumeric(piece[from]) {
            lemma_word_shift(source, at, piece, from + 1);
        }
    }
}

/// The next quote is found where it stands.
pub proof fn lemma_quote_found(source: Seq<char>, from: nat, line: nat, start: nat, close: nat)
    requires
        from <= close < source.len(),
        source[close as int] == '"',
        forall|i: int| from <= i < close ==> source[i] != '"',
    ensures
        string_end(source, from, line, start).0 == close,
    decreases close - from,
{
    if from < close {
        if source[from as int] == '\n' {
            lemma_quote_found(source, from + 1, line + 1, from + 1, close);
        } else {
            lemma_quote_found(source, from + 1, line, start, close);
        }
    }
}

/// What scanning one token must come to: one token more, which is
/// `token` but for its place, no error more, and the scanner behind the
/// token's last character.
pub open spec fn scanned(before: Scan, after: Scan, token: TokenView) -> bool {
    &&& after.position == before.position + token.lexeme.len()
    &&& after.errors == before.errors
    &&& after.tokens.len() == before.tokens.len() + 1
    &&& after.tokens == before.tokens.push(after.tokens.last())
    &&& bare(after.tokens.last()) == bare(token)
}

/// A mark followed by a space is scanned as that mark.
pub proof fn lemma_scan_mark(state: Scan, source: Seq<char>, token: TokenView)
    requires
        well_spelled(token),
        mark(token.kind).len() > 0,
        stands_at(source, state.position as int, token.lexeme),
    ensures
        scanned(state, state.scan_token(source), token),
{
    let at = state.position as int;
    let piece = token.lexeme;
    assert(source[at] == piece[0]);
    if piece.len() > 1 {
        assert(source[at + 1] == piece[1]);
    }
    let after = state.scan_token(source);
    assert(after.tokens.last().lexeme =~= piece);
}

/// Quoted text followed by a space is scanned as that string.
pub proof fn lemma_scan_string(state: Scan, source: Seq<char>, token: TokenView)
    requires
        well_spelled(token),
        token.kind == TokenType::String,
        stands_at(source, state.position as int, token.lexeme),
    ensures
        scanned(state, state.scan_token(source), token),
{
    let at = state.position as int;
    let piece = token.lexeme;
    let close = (at + piece.len() - 1) as nat;
    assert(source[at] == piece[0]);
    assert(source[close as int] == piece[piece.len() - 1]);
    assert forall|i: int| at + 1 <= i < close implies source[i] != '"' by {
        assert(source[at + (i - at)] == piece[i - at]);
    }
    lemma_quote_found(source, (at + 1) as nat, state.line, state.line_start, close);
    let after = state.scan_token(source);
    assert(after.tokens.last().lexeme =~= piece);
    assert(source.subrange(at + 1, close as int) =~= piece.subrange(1, piece.len() - 1));
}

/// A numeral followed by a space is scanned as that number.
pub proof fn lemma_scan_number(state: Scan, source: Seq<char>, token: TokenView)
    requires
        well_spelled(token),
        token.kind == TokenType::Number,
        stands_at(source, state.position as int, token.lexeme),
    ensures
        scanned(state, state.scan_token(source), token),
{
    let at = state.position as int;
    let piece = token.lexeme;
    assert(source[at] == piece[0]);
    lemma_digits_shift(source, at, piece, 0);
    let whole = digits_end(piece, 0) as int;
    if whole < piece.len() {
        assert(source[at + whole] == piece[whole as int]);
    }
    if whole + 1 < piece.len() {
        assert(source[at + (whole + 1)] == piece[whole + 1]);
        lemma_digits_shift(source, at, piece, whole + 1);
    }
    assert(number_end(source, at as nat) == at + number_end(piece, 0));
    let after = state.scan_token(source);
    assert(after.tokens.last().lexeme =~= piece);
}

/// A word followed by a space is scanned as that word: a reserved word
/// as its kind, any other as an identifier.
pub proof fn lemma_scan_word(state: Scan, source: Seq<char>, token: TokenView)
    requires
        well_spelled(token),
        mark(token.kind).len() == 0,
        token.kind != TokenType::String,
        token.kind != TokenType::Number,
        stands_at(source, state.position as int, token.lexeme),
    ensures
        scanned(state, state.scan_token(source), token),
{
    let at = state.position as int;
    let piece = token.lexeme;
    assert(source[at] == piece[0]);
    lemma_word_shift(source, at, piece, 1);
    assert(source.subrange(at, at + piece.len()) =~= piece);
    let after = state.scan_token(source);
}

/// A well-spelled token scans back to itself.
pub proof fn lemma_scan_one(state: Scan, source: Seq<char>, token: TokenView)
    requires
        well_spelled(token),
        stands_at(source, state.position as int, token.lexeme),
    ensures
        scanned(state, state.scan_token(source), token),
{
    if mark(token.kind).len() > 0 {
        lemma_scan_mark(state, source, token);
    } else if token.kind == TokenType::String {
        lemma_scan_string(state, source, token);
    } else if token.kind == TokenType::Number {
        lemma_scan_number(state, source, token);
    } else {
        lemma_scan_word(state, source, token);
    }
}

/// Every token of the list is well spelled.
pub open spec fn all_well_spelled(tokens: Seq<TokenView>) -> bool {
    forall|i: int| 0 <= i < tokens.len() ==> well_spelled(#[trigger] tokens[i])
}

/// The text of well-spelled tokens, scanned from where it starts in the
/// source to the end of the source, gives those tokens again, but for
/// their places, then the end marker, and no error.
pub proof fn lemma_scan_text(state: Scan, source: Seq<char>, tokens: Seq<TokenView>)
    requires
        all_well_spelled(tokens),
        state.position <= source.len(),
        source.subrange(state.position as int, source.len() as int) == text(tokens),
    ensures
        state.scan_tokens(source).errors == state.errors,
        state.scan_tokens(source).tokens.len() == state.tokens.len() + tokens.len() + 1,
        forall|i: int|
            0 <= i < state.tokens.len() ==> state.scan_tokens(source).tokens[i]
                == #[trigger] state.tokens[i],
        forall|i: int|
            0 <= i < tokens.len() ==> bare(state.scan_tokens(source).tokens[state.tokens.len() + i])
                == bare(#[trigger] tokens[i]),
        state.scan_tokens(source).tokens[(state.tokens.len() + tokens.len()) as int].kind
            == TokenType::Eof,
    decreases tokens.len(),
{
    let at = state.position as int;
    let rest_text = source.subrange(at, source.len() as int);
    if tokens.len() == 0 {
        assert(rest_text.len() == 0);
    } else {
        let token = tokens[0];
        let piece = token.lexeme;
        let rest = tokens.drop_first();
        assert(well_spelled(token));
        assert(text(tokens) == piece + seq![' '] + text(rest));
        assert(rest_text.len() == piece.len() + 1 + text(rest).len());
        assert(stands_at(source, at, piece)) by {
            assert forall|i: int| 0 <= i < piece.len() implies source[at + i] == #[trigger] piece[i] by {
                assert(rest_text[i] == source[at + i]);
                assert(rest_text[i] == piece[i]);
            }
            assert(rest_text[piece.len() as int] == source[at + piece.len()]);
            assert(rest_text[piece.len() as int] == ' ');
        }
        lemma_scan_one(state, source, token);
        let after = state.scan_token(source);
        assert(state.scan_tokens(source) == after.scan_tokens(source));
        let behind = after.scan_token(source);
        assert(source[after.position as int] == ' ');
        assert(behind == after.skip(after.position + 1));
        assert(after.scan_tokens(source) == behind.scan_tokens(source));
        assert(source.subrange(behind.position as int, source.len() as int) =~= text(rest)) by {
            assert forall|i: int| 0 <= i < text(rest).len() implies source[behind.position + i]
                == text(rest)[i] by {
                assert(rest_text[piece.len() + 1 + i] == source[at + (piece.len() + 1 + i)]);
            }
        }
        assert(all_well_spelled(rest)) by {
            assert forall|i: int| 0 <= i < rest.len() implies well_spelled(#[trigger] rest[i]) by {
                assert(rest[i] == tokens[i + 1]);
            }
        }
        lemma_scan_text(behind, source, rest);
        let out = behind.scan_tokens(source);
        assert forall|i: int| 0 <= i < state.tokens.len() implies out.tokens[i]
            == #[trigger] state.tokens[i] by {
            assert(behind.tokens[i] == state.tokens[i]);
        }
        assert forall|i: int| 0 <= i < tokens.len() implies bare(
            out.tokens[state.tokens.len() + i],
        ) == bare(#[trigger] tokens[i]) by {
            if i == 0 {
                assert(out.tokens[state.tokens.len() as int] == behind.tokens[state.tokens.len() as int]);
            } else {
                assert(rest[i - 1] == tokens[i]);
                assert(bare(out.tokens[behind.tokens.len() + (i - 1)]) == bare(rest[i - 1]));
            }
        }
    }
}

} // verus!
