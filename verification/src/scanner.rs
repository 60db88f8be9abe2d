//! The scanner: source text to tokens, in one pass from left to right.

use vstd::prelude::*;
use vstd::hash_map::StringHashMap;
use crate::error::Message;
use crate::stmt::tokens_view;
use crate::text::characters;
use crate::text::slice_text;
use crate::token::Literal;
use crate::token::LiteralView;
use crate::token::Token;
use crate::token::TokenType;
use crate::token::TokenView;

verus! {

/// A character the scanner could not use, or a string without its end:
/// the line it was found on, and which of the two.
#[derive(Debug, Clone, Copy, PartialEq, Eq, Structural)]
pub struct LexError {
    pub line: usize,
    pub message: Message,
}

impl LexError {
    /// The diagnostic line for this finding.
    pub fn report(&self) -> (r: String)
        ensures
            r@ == crate::error::report_line(
                self.line,
                Seq::empty(),
                self.message.wording(Seq::empty()),
            ),
    {
        let nothing: &'static str = "";
        proof {
            reveal_strlit("");
            assert(nothing@ =~= Seq::<char>::empty());
        }
        let said: String = self.message.text(nothing);
        crate::error::error(self.line, said.as_str())
    }
}

/// How far the scanner has come and what it has made so far.
pub struct Scan {
    /// The place of the next character to look at.
    pub position: nat,
    /// The line that character is on, counted from 1.
    pub line: nat,
    /// The place where that line starts.
    pub line_start: nat,
    pub tokens: Seq<TokenView>,
    pub errors: Seq<LexError>,
}

pub open spec fn is_digit(c: char) -> bool {
    '0' <= c && c <= '9'
}

pub open spec fn is_alpha(c: char) -> bool {
    ('a' <= c && c <= 'z') || ('A' <= c && c <= 'Z') || c == '_'
}

pub open spec fn is_alphanumeric(c: char) -> bool {
    is_alpha(c) || is_digit(c)
}

/// The reserved words and the kind of token each one is.
pub open spec fn keyword_table() -> Map<Seq<char>, TokenType> {
    Map::empty().insert("and"@, TokenType::And).insert("class"@, TokenType::Class).insert(
        "else"@,
        TokenType::Else,
    ).insert("false"@, TokenType::False).insert("for"@, TokenType::For).insert(
        "fun"@,
        TokenType::Fun,
    ).insert("if"@, TokenType::If).insert("nil"@, TokenType::Nil).insert(
        "or"@,
        TokenType::Or,
    ).insert("print"@, TokenType::Print).insert("return"@, TokenType::Return).insert(
        "super"@,
        TokenType::Super,
    ).insert("this"@, TokenType::This).insert("true"@, TokenType::True).insert(
        "var"@,
        TokenType::Var,
    ).insert("while"@, TokenType::While)
}

/// The place after the digits that start at `from`.
pub open spec fn digits_end(source: Seq<char>, from: nat) -> nat
    decreases source.len() - from,
{
    if from < source.len() && is_digit(source[from as int]) {
        digits_end(source, from + 1)
    } else {
        from
    }
}

/// The place after the letters, digits and underscores that start at
/// `from`.
pub open spec fn word_end(source: Seq<char>, from: nat) -> nat
    decreases source.len() - from,
{
    if from < source.len() && is_alphanumeric(source[from as int]) {
        word_end(source, from + 1)
    } else {
        from
    }
}

/// The place of the next line end from `from` on, or the end of the
/// source.
pub open spec fn line_end(source: Seq<char>, from: nat) -> nat
    decreases source.len() - from,
{
    if from < source.len() && source[from as int] != '\n' {
        line_end(source, from + 1)
    } else {
        from
    }
}

/// The place of the next `"` from `from` on, or the end of the source;
/// the line that place is on, if `from` is on line `line`; and where that
/// line starts, if the line of `from` starts at `line_start`.
pub open spec fn string_end(source: Seq<char>, from: nat, line: nat, line_start: nat) -> (
    nat,
    nat,
    nat,
)
    decreases source.len() - from,
{
    if from < source.len() && source[from as int] != '"' {
        if source[from as int] == '\n' {
            string_end(source, from + 1, line + 1, from + 1)
        } else {
            string_end(source, from + 1, line, line_start)
        }
    } else {
        (from, line, line_start)
    }
}

/// The place after the number that starts at `start`: digits, and then a
/// point and more digits if both are there. A point that no digit follows
/// is not part of the number.
pub open spec fn number_end(source: Seq<char>, start: nat) -> nat {
    let whole = digits_end(source, start);
    if whole + 1 < source.len() && source[whole as int] == '.' && is_digit(
        source[whole + 1 as int],
    ) {
        digits_end(source, whole + 1)
    } else {
        whole
    }
}

impl Scan {
    pub open spec fn start() -> Scan {
        Scan { position: 0, line: 1, line_start: 0, tokens: Seq::empty(), errors: Seq::empty() }
    }

    /// The column the scanner stands at, counted from 1.
    pub open spec fn column(self) -> usize {
        (self.position - self.line_start + 1) as usize
    }

    /// Moves on to `position` without making anything.
    pub open spec fn skip(self, position: nat) -> Scan {
        Scan { position, ..self }
    }

    /// Makes a token of the characters from where the scanner stands up
    /// to `end`, and moves there.
    pub open spec fn emit(
        self,
        source: Seq<char>,
        kind: TokenType,
        end: nat,
        literal: Option<LiteralView>,
    ) -> Scan {
        Scan {
            position: end,
            tokens: self.tokens.push(
                TokenView {
                    kind,
                    lexeme: source.subrange(self.position as int, end as int),
                    literal,
                    line: self.line as usize,
                    column: self.column(),
                },
            ),
            ..self
        }
    }

    pub open spec fn error(self, message: Message) -> Scan {
        Scan { errors: self.errors.push(LexError { line: self.line as usize, message }), ..self }
    }

    /// A mark of one character, or of two if `=` follows.
    pub open spec fn relational(self, source: Seq<char>, one: TokenType, two: TokenType) -> Scan {
        if self.position + 1 < source.len() && source[self.position + 1 as int] == '=' {
            self.emit(source, two, self.position + 2, None)
        } else {
            self.emit(source, one, self.position + 1, None)
        }
    }

    /// A string, from its opening `"`. It may run over several lines; the
    /// token is on the line where it ends, at the column where it starts,
    /// and its payload is what stands between the quotes. Without a
    /// closing `"` there is no token but an error, on the last line.
    pub open spec fn string(self, source: Seq<char>) -> Scan {
        let (close, line, line_start) = string_end(
            source,
            self.position + 1,
            self.line,
            self.line_start,
        );
        if close >= source.len() {
            Scan { position: close, line, line_start, ..self }.error(Message::UnterminatedString)
        } else {
            Scan {
                position: close + 1,
                line,
                line_start,
                tokens: self.tokens.push(
                    TokenView {
                        kind: TokenType::String,
                        lexeme: source.subrange(self.position as int, close + 1 as int),
                        literal: Some(
                            LiteralView::String(
                                source.subrange(self.position + 1 as int, close as int),
                            ),
                        ),
                        line: line as usize,
                        column: self.column(),
                    },
                ),
                ..self
            }
        }
    }

    /// A number, from its first digit. Its payload is its numeral.
    pub open spec fn number(self, source: Seq<char>) -> Scan {
        let end = number_end(source, self.position);
        self.emit(
            source,
            TokenType::Number,
            end,
            Some(LiteralView::Number(source.subrange(self.position as int, end as int))),
        )
    }

    /// A word, from its first letter: the longest run of letters, digits
    /// and underscores. A reserved word is a token of its own kind, any
    /// other an identifier with its name as payload.
    pub open spec fn identifier(self, source: Seq<char>) -> Scan {
        let end = word_end(source, self.position + 1);
        let text = source.subrange(self.position as int, end as int);
        if keyword_table().contains_key(text) {
            self.emit(source, keyword_table()[text], end, None)
        } else {
            self.emit(source, TokenType::Identifier, end, Some(LiteralView::String(text)))
        }
    }

    /// What the scanner makes of the character it stands on, and of as
    /// many after it as belong to the same token.
    pub open spec fn scan_token(self, source: Seq<char>) -> Scan {
        let c = source[self.position as int];
        let next = self.position + 1;
        if c == '(' {
            self.emit(source, TokenType::LeftParen, next, None)
        } else if c == ')' {
            self.emit(source, TokenType::RightParen, next, None)
        } else if c == '{' {
            self.emit(source, TokenType::LeftBrace, next, None)
        } else if c == '}' {
            self.emit(source, TokenType::RightBrace, next, None)
        } else if c == ',' {
            self.emit(source, TokenType::Comma, next, None)
        } else if c == '.' {
            self.emit(source, TokenType::Dot, next, None)
        } else if c == '-' {
            self.emit(source, TokenType::Minus, next, None)
        } else if c == '+' {
            self.emit(source, TokenType::Plus, next, None)
        } else if c == ';' {
            self.emit(source, TokenType::Semicolon, next, None)
        } else if c == '*' {
            self.emit(source, TokenType::Star, next, None)
        } else if c == '!' {
            self.relational(source, TokenType::Bang, TokenType::BangEqual)
        } else if c == '=' {
            self.relational(source, TokenType::Equal, TokenType::EqualEqual)
        } else if c == '<' {
            self.relational(source, TokenType::Less, TokenType::LessEqual)
        } else if c == '>' {
            self.relational(source, TokenType::Greater, TokenType::GreaterEqual)
        } else if c == '/' {
            if next < source.len() && source[next as int] == '/' {
                self.skip(line_end(source, next + 1))
            } else {
                self.emit(source, TokenType::Slash, next, None)
            }
        } else if c == ' ' || c == '\r' || c == '\t' {
            self.skip(next)
        } else if c == '\n' {
            Scan { position: next, line: self.line + 1, line_start: next, ..self }
        } else if c == '"' {
            self.string(source)
        } else if is_digit(c) {
            self.number(source)
        } else if is_alpha(c) {
            self.identifier(source)
        } else {
            self.error(Message::UnexpectedCharacter).skip(next)
        }
    }

    /// The scan from here to the end of the source, which an end marker
    /// with an empty lexeme closes.
    pub open spec fn scan_tokens(self, source: Seq<char>) -> Scan
        decreases
                if self.position < source.len() {
                    source.len() - self.position
                } else {
                    0
                },
    {
        if self.position >= source.len() {
            self.emit(source, TokenType::Eof, self.position, None)
        } else {
            let next = self.scan_token(source);
            if next.position > self.position {
                next.scan_tokens(source)
            } else {
                next
            }
        }
    }
}

/// The tokens and errors of a whole source text.
pub open spec fn scan(source: Seq<char>) -> Scan {
    Scan::start().scan_tokens(source)
}

pub struct Scanner {
    pub source: Vec<char>,
    pub tokens: Vec<Token>,
    /// Where the token being scanned starts.
    pub start: usize,
    pub current: usize,
    pub line: usize,
    /// Where the line of `current` starts.
    pub line_start: usize,
    /// The column at which the token being scanned starts.
    pub column: usize,
    pub errors: Vec<LexError>,
    pub keywords: StringHashMap<TokenType>,
}

impl View for Scanner {
    type V = Scan;

    open spec fn view(&self) -> Scan {
        Scan {
            position: self.current as nat,
            line: self.line as nat,
            line_start: self.line_start as nat,
            tokens: tokens_view(self.tokens@),
            errors: self.errors@,
        }
    }
}

fn char_is_digit(c: char) -> (r: bool)
    ensures
        r == is_digit(c),
{
    '0' <= c && c <= '9'
}

fn char_is_alpha(c: char) -> (r: bool)
    ensures
        r == is_alpha(c),
{
    ('a' <= c && c <= 'z') || ('A' <= c && c <= 'Z') || c == '_'
}

impl Scanner {
    /// The scanner knows the reserved words, stands inside its source, and
    /// has not counted more lines than it has seen characters.
    pub open spec fn wf(&self) -> bool {
        &&& self.keywords@ == keyword_table()
        &&& self.current <= self.source@.len()
        &&& self.source@.len() < usize::MAX
        &&& self.line <= self.current + 1
        &&& self.line_start <= self.current
    }

    /// The scanner is about to scan a token from where it stands.
    pub open spec fn ready(&self) -> bool {
        &&& self.wf()
        &&& self.current < self.source@.len()
        &&& self.start == self.current
        &&& self.column == self@.column()
    }

    /// A scanner at the start of `source`, which must be short enough for
    /// its lines and columns to be counted.
    pub fn new(source: String) -> (r: Scanner)
        requires
            source@.len() < usize::MAX,
        ensures
            r.wf(),
            r.source@ == source@,
            r@ == Scan::start(),
    {
        Scanner::over(characters(source.as_str()))
    }

    /// A scanner at the start of `source`, or nothing if the source is
    /// too long for its lines and columns to be counted.
    pub fn try_new(source: String) -> (r: Option<Scanner>)
        ensures
            match r {
                Some(scanner) => source@.len() < usize::MAX && scanner.wf() && scanner.source@
                    == source@ && scanner@ == Scan::start(),
                None => source@.len() >= usize::MAX,
            },
    {
        let chars: Vec<char> = characters(source.as_str());
        if chars.len() < usize::MAX {
            Some(Scanner::over(chars))
        } else {
            None
        }
    }

    /// A scanner at the start of the characters `source`.
    fn over(source: Vec<char>) -> (r: Scanner)
        requires
            source@.len() < usize::MAX,
        ensures
            r.wf(),
            r.source == source,
            r@ == Scan::start(),
    {
        let mut keywords: StringHashMap<TokenType> = StringHashMap::new();
        keywords.insert("and".to_owned(), TokenType::And);
        keywords.insert("class".to_owned(), TokenType::Class);
        keywords.insert("else".to_owned(), TokenType::Else);
        keywords.insert("false".to_owned(), TokenType::False);
        keywords.insert("for".to_owned(), TokenType::For);
        keywords.insert("fun".to_owned(), TokenType::Fun);
        keywords.insert("if".to_owned(), TokenType::If);
        keywords.insert("nil".to_owned(), TokenType::Nil);
        keywords.insert("or".to_owned(), TokenType::Or);
        keywords.insert("print".to_owned(), TokenType::Print);
        keywords.insert("return".to_owned(), TokenType::Return);
        keywords.insert("super".to_owned(), TokenType::Super);
        keywords.insert("this".to_owned(), TokenType::This);
        keywords.insert("true".to_owned(), TokenType::True);
        keywords.insert("var".to_owned(), TokenType::Var);
        keywords.insert("while".to_owned(), TokenType::While);
        let r = Scanner {
            source,
            tokens: Vec::new(),
            start: 0,
            current: 0,
            line: 1,
            line_start: 0,
            column: 1,
            errors: Vec::new(),
            keywords,
        };
        assert(tokens_view(r.tokens@) =~= Seq::empty());
        r
    }

    /// Whether anything could not be scanned.
    pub fn had_error(&self) -> (r: bool)
        ensures
            r == (self.errors@.len() > 0),
    {
        self.errors.len() > 0
    }

    fn is_at_end(&self) -> (r: bool)
        ensures
            r == (self.current >= self.source@.len()),
    {
        self.current >= self.source.len()
    }

    /// Makes a token of the characters from `start` to `current`.
    fn add_token(&mut self, kind: TokenType, literal: Option<Literal>)
        requires
            old(self).start <= old(self).current <= old(self).source@.len(),
        ensures
            final(self).source == old(self).source,
            final(self).keywords == old(self).keywords,
            final(self).start == old(self).start,
            final(self).current == old(self).current,
            final(self).line == old(self).line,
            final(self).line_start == old(self).line_start,
            final(self).column == old(self).column,
            final(self).errors == old(self).errors,
            tokens_view(final(self).tokens@) == tokens_view(old(self).tokens@).push(
                TokenView {
                    kind,
                    lexeme: old(self).source@.subrange(
                        old(self).start as int,
                        old(self).current as int,
                    ),
                    literal: match literal {
                        Some(l) => Some(l@),
                        None => None,
                    },
                    line: old(self).line,
                    column: old(self).column,
                },
            ),
    {
        let token = Token {
            kind,
            lexeme: slice_text(&self.source, self.start, self.current),
            literal,
            line: self.line,
            column: self.column,
        };
        self.tokens.push(token);
        assert(tokens_view(self.tokens@) =~= tokens_view(old(self).tokens@).push(token@));
    }

    fn error(&mut self, message: Message)
        ensures
            final(self)@ == old(self)@.error(message),
            final(self).source == old(self).source,
            final(self).keywords == old(self).keywords,
            final(self).start == old(self).start,
            final(self).column == old(self).column,
    {
        self.errors.push(LexError { line: self.line, message });
    }

    /// A mark of one character, or of two if `=` follows.
    fn add_relational_token(&mut self, one: TokenType, two: TokenType)
        requires
            old(self).ready(),
        ensures
            final(self).wf(),
            final(self).source == old(self).source,
            final(self).current > old(self).current,
            final(self)@ == old(self)@.relational(old(self).source@, one, two),
    {
        self.current = self.current + 1;
        if self.current < self.source.len() && self.source[self.current] == '=' {
            self.current = self.current + 1;
            self.add_token(two, None);
        } else {
            self.add_token(one, None);
        }
    }

    fn string(&mut self)
        requires
            old(self).ready(),
        ensures
            final(self).wf(),
            final(self).source == old(self).source,
            final(self).current > old(self).current,
            final(self)@ == old(self)@.string(old(self).source@),
    {
        self.current = self.current + 1;
        while self.current < self.source.len() && self.source[self.current] != '"'
            invariant
                self.wf(),
                self.source == old(self).source,
                self.start == old(self).start,
                self.tokens == old(self).tokens,
                self.errors == old(self).errors,
                self.column == old(self).column,
                self.current > old(self).current,
                string_end(
                    self.source@,
                    self.current as nat,
                    self.line as nat,
                    self.line_start as nat,
                ) == string_end(
                    old(self).source@,
                    (old(self).current + 1) as nat,
                    old(self).line as nat,
                    old(self).line_start as nat,
                ),
            decreases self.source.len() - self.current,
        {
            if self.source[self.current] == '\n' {
                self.line = self.line + 1;
                self.line_start = self.current + 1;
            }
            self.current = self.current + 1;
        }
        if self.is_at_end() {
            self.error(Message::UnterminatedString);
            return ;
        }
        self.current = self.current + 1;
        let value: String = slice_text(&self.source, self.start + 1, self.current - 1);
        self.add_token(TokenType::String, Some(Literal::String(value)));
    }

    fn number(&mut self)
        requires
            old(self).ready(),
            is_digit(old(self).source@[old(self).current as int]),
        ensures
            final(self).wf(),
            final(self).source == old(self).source,
            final(self).current > old(self).current,
            final(self)@ == old(self)@.number(old(self).source@),
    {
        self.skip_digits();
        if self.current < self.source.len() - 1 && self.source[self.current] == '.'
            && char_is_digit(self.source[self.current + 1]) {
            self.current = self.current + 1;
            self.skip_digits();
        }
        let numeral: String = slice_text(&self.source, self.start, self.current);
        self.add_token(TokenType::Number, Some(Literal::Number(numeral)));
    }

    /// Moves over the digits the scanner stands on.
    fn skip_digits(&mut self)
        requires
            old(self).wf(),
        ensures
            final(self).wf(),
            final(self).source == old(self).source,
            final(self).keywords == old(self).keywords,
            final(self).start == old(self).start,
            final(self).tokens == old(self).tokens,
            final(self).errors == old(self).errors,
            final(self).line == old(self).line,
            final(self).line_start == old(self).line_start,
            final(self).column == old(self).column,
            final(self).current >= old(self).current,
            final(self).current == digits_end(old(self).source@, old(self).current as nat),
            old(self).current < old(self).source@.len() && is_digit(
                old(self).source@[old(self).current as int],
            ) ==> final(self).current > old(self).current,
    {
        while self.current < self.source.len() && char_is_digit(self.source[self.current])
            invariant
                self.wf(),
                self.source == old(self).source,
                self.keywords == old(self).keywords,
                self.start == old(self).start,
                self.tokens == old(self).tokens,
                self.errors == old(self).errors,
                self.line == old(self).line,
                self.line_start == old(self).line_start,
                self.column == old(self).column,
                self.current >= old(self).current,
                old(self).current < old(self).source@.len() && is_digit(
                    old(self).source@[old(self).current as int],
                ) && self.current == old(self).current ==> is_digit(
                    self.source@[self.current as int],
                ),
                digits_end(self.source@, self.current as nat) == digits_end(
                    old(self).source@,
                    old(self).current as nat,
                ),
            decreases self.source.len() - self.current,
        {
            self.current = self.current + 1;
        }
    }

    fn identifier(&mut self)
        requires
            old(self).ready(),
        ensures
            final(self).wf(),
            final(self).source == old(self).source,
            final(self).current > old(self).current,
            final(self)@ == old(self)@.identifier(old(self).source@),
    {
        self.current = self.current + 1;
        while self.current < self.source.len() && (char_is_alpha(self.source[self.current])
            || char_is_digit(self.source[self.current]))
            invariant
                self.wf(),
                self.source == old(self).source,
                self.keywords == old(self).keywords,
                self.start == old(self).start,
                self.tokens == old(self).tokens,
                self.errors == old(self).errors,
                self.line == old(self).line,
                self.line_start == old(self).line_start,
                self.column == old(self).column,
                self.current > old(self).current,
                word_end(self.source@, self.current as nat) == word_end(
                    old(self).source@,
                    (old(self).current + 1) as nat,
                ),
            decreases self.source.len() - self.current,
        {
            self.current = self.current + 1;
        }
        let text: String = slice_text(&self.source, self.start, self.current);
        let kind: Option<TokenType> = match self.keywords.get(text.as_str()) {
            Some(kind) => Some(*kind),
            None => None,
        };
        match kind {
            Some(kind) => self.add_token(kind, None),
            None => self.add_token(TokenType::Identifier, Some(Literal::String(text))),
        }
    }

    /// Moves to the end of the line.
    fn skip_line(&mut self)
        requires
            old(self).wf(),
        ensures
            final(self).wf(),
            final(self).source == old(self).source,
            final(self).current >= old(self).current,
            final(self)@ == old(self)@.skip(line_end(old(self).source@, old(self).current as nat)),
            final(self).start == old(self).start,
            final(self).column == old(self).column,
    {
        while self.current < self.source.len() && self.source[self.current] != '\n'
            invariant
                self.wf(),
                self.source == old(self).source,
                self.keywords == old(self).keywords,
                self.start == old(self).start,
                self.tokens == old(self).tokens,
                self.errors == old(self).errors,
                self.line == old(self).line,
                self.line_start == old(self).line_start,
                self.column == old(self).column,
                self.current >= old(self).current,
                line_end(self.source@, self.current as nat) == line_end(
                    old(self).source@,
                    old(self).current as nat,
                ),
            decreases self.source.len() - self.current,
        {
            self.current = self.current + 1;
        }
    }

    /// Makes one token by `kind` of the character the scanner stands on.
    fn single(&mut self, kind: TokenType)
        requires
            old(self).ready(),
        ensures
            final(self).wf(),
            final(self).source == old(self).source,
            final(self).current > old(self).current,
            final(self)@ == old(self)@.emit(
                old(self).source@,
                kind,
                (old(self).current + 1) as nat,
                None,
            ),
    {
        self.current = self.current + 1;
        self.add_token(kind, None);
    }

    fn scan_token(&mut self)
        requires
            old(self).ready(),
        ensures
            final(self).wf(),
            final(self).source == old(self).source,
            final(self).current > old(self).current,
            final(self)@ == old(self)@.scan_token(old(self).source@),
    {
        let c: char = self.source[self.current];
        if c == '(' {
            self.single(TokenType::LeftParen);
        } else if c == ')' {
            self.single(TokenType::RightParen);
        } else if c == '{' {
            self.single(TokenType::LeftBrace);
        } else if c == '}' {
            self.single(TokenType::RightBrace);
        } else if c == ',' {
            self.single(TokenType::Comma);
        } else if c == '.' {
            self.single(TokenType::Dot);
        } else if c == '-' {
            self.single(TokenType::Minus);
        } else if c == '+' {
            self.single(TokenType::Plus);
        } else if c == ';' {
            self.single(TokenType::Semicolon);
        } else if c == '*' {
            self.single(TokenType::Star);
        } else if c == '!' {
            self.add_relational_token(TokenType::Bang, TokenType::BangEqual);
        } else if c == '=' {
            self.add_relational_token(TokenType::Equal, TokenType::EqualEqual);
        } else if c == '<' {
            self.add_relational_token(TokenType::Less, TokenType::LessEqual);
        } else if c == '>' {
            self.add_relational_token(TokenType::Greater, TokenType::GreaterEqual);
        } else if c == '/' {
            if self.current + 1 < self.source.len() && self.source[self.current + 1] == '/' {
                self.current = self.current + 2;
                self.skip_line();
            } else {
                self.single(TokenType::Slash);
            }
        } else if c == ' ' || c == '\r' || c == '\t' {
            self.current = self.current + 1;
        } else if c == '\n' {
            self.line = self.line + 1;
            self.current = self.current + 1;
            self.line_start = self.current;
        } else if c == '"' {
            self.string();
        } else if char_is_digit(c) {
            self.number();
        } else if char_is_alpha(c) {
            self.identifier();
        } else {
            self.error(Message::UnexpectedCharacter);
            self.current = self.current + 1;
        }
    }

    /// Scans the rest of the source and returns every token made so far,
    /// an end marker last. What could not be scanned is in `errors`;
    /// scanning goes on after an error.
    pub fn scan_tokens(&mut self) -> (r: Vec<Token>)
        requires
            old(self).wf(),
        ensures
            final(self).wf(),
            final(self).source == old(self).source,
            final(self)@ == old(self)@.scan_tokens(old(self).source@),
            tokens_view(r@) == final(self)@.tokens,
            r@.len() > 0,
            r@.last().kind == TokenType::Eof,
            final(self).start == final(self).current,
            final(self).column == final(self)@.column(),
    {
        while !self.is_at_end()
            invariant
                self.wf(),
                self.source == old(self).source,
                self@.scan_tokens(self.source@) == old(self)@.scan_tokens(old(self).source@),
            decreases self.source.len() - self.current,
        {
            self.start = self.current;
            self.column = self.current - self.line_start + 1;
            self.scan_token();
        }
        self.start = self.current;
        self.column = self.current - self.line_start + 1;
        self.add_token(TokenType::Eof, None);
        let mut out: Vec<Token> = Vec::new();
        let mut i: usize = 0;
        while i < self.tokens.len()
            invariant
                i <= self.tokens.len(),
                out@ =~= self.tokens@.take(i as int),
            decreases self.tokens.len() - i,
        {
            out.push(self.tokens[i].clone());
            i = i + 1;
        }
        assert(out@ =~= self.tokens@);
        assert(tokens_view(self.tokens@).last() == self.tokens@.last()@);
        out
    }
}

} // verus!
