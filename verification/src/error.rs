//! What can go wrong, from the first character to the last statement.

use vstd::prelude::*;
use crate::text::decimal;
use crate::text::joined;
use crate::text::to_decimal;
use crate::token::Object;
use crate::token::Token;
use crate::token::TokenType;
use crate::token::TokenView;

verus! {

/// Whether a declaration being parsed is a free function or a method; it
/// only changes the wording of a few messages.
#[derive(Debug, Clone, Copy, PartialEq, Eq, Structural)]
pub enum Callee {
    Function,
    Method,
}

/// Every message the scanner, parser, resolver or evaluator can give.
#[derive(Debug, Clone, Copy, PartialEq, Eq, Structural)]
pub enum Message {
    // Scanner
    UnexpectedCharacter,
    UnterminatedString,
    // Parser
    ExpectParenAfterIf,
    ExpectParenAfterIfCondition,
    ExpectSemicolonAfterReturn,
    ExpectParenAfterFor,
    ExpectSemicolonAfterLoopCondition,
    ExpectParenAfterForClauses,
    ExpectSemicolonAfterValue,
    ExpectVariableName,
    ExpectSemicolonAfterVariable,
    ExpectParenAfterWhile,
    ExpectParenAfterCondition,
    ExpectCalleeName(Callee),
    ExpectParenAfterCalleeName(Callee),
    TooManyParameters,
    ExpectParameterName,
    ExpectParenAfterParameters,
    ExpectBraceBeforeBody(Callee),
    ExpectBraceAfterBlock,
    ExpectClassName,
    ExpectSuperclassName,
    ExpectBraceBeforeClassBody,
    ExpectBraceAfterClassBody,
    InvalidAssignmentTarget,
    TooManyArguments,
    ExpectParenAfterArguments,
    ExpectPropertyName,
    ExpectDotAfterSuper,
    ExpectSuperclassMethodName,
    ExpectParenAfterExpression,
    ExpectExpression,
    // Resolver
    AlreadyDeclared,
    ReadInOwnInitializer,
    ReturnOutsideFunction,
    ReturnValueFromInitializer,
    ThisOutsideClass,
    SuperOutsideClass,
    SuperWithoutSuperclass,
    InheritFromSelf,
    // Evaluator
    /// A unary operator met an operand it cannot take.
    InvalidUnary { operand: Object },
    OperandsMustBeNumbers { left: Object, right: Object },
    OperandsMustBeNumbersOrStrings { left: Object, right: Object },
    /// The operator is no binary operator of the language.
    InvalidExpression { left: Object, right: Object },
    /// A division whose divisor, `right`, is zero.
    ZeroDivision { left: Object, right: Object },
    UndefinedVariable,
    UndefinedProperty,
    WrongArgumentCount { expected: usize, got: usize },
    NotCallable,
    OnlyInstancesHaveProperties,
    OnlyInstancesHaveFields,
    SuperclassMustBeClass,
    /// A value names a heap slot that does not exist. No program the
    /// evaluator built itself gets here.
    DanglingReference,
}

impl Callee {
    pub open spec fn noun(self) -> Seq<char> {
        match self {
            Callee::Function => "function"@,
            Callee::Method => "method"@,
        }
    }

    /// The word for this kind of declaration.
    pub fn word(&self) -> (r: &'static str)
        ensures
            r@ == self.noun(),
    {
        match self {
            Callee::Function => "function",
            Callee::Method => "method",
        }
    }
}

impl Message {
    /// The wording of a message that names nothing.
    pub open spec fn fixed(self) -> Seq<char> {
        match self {
            Message::UnexpectedCharacter => "Unexpected character."@,
            Message::UnterminatedString => "Unterminated string."@,
            Message::ExpectParenAfterIf => "Expect '(' after 'if'."@,
            Message::ExpectParenAfterIfCondition => "Expect ')' after if condition."@,
            Message::ExpectSemicolonAfterReturn => "Expect ';' after return value."@,
            Message::ExpectParenAfterFor => "Expect '(' after 'for'."@,
            Message::ExpectSemicolonAfterLoopCondition => "Expect ';' after loop condition."@,
            Message::ExpectParenAfterForClauses => "Expect ')' after loop condition."@,
            Message::ExpectSemicolonAfterValue => "Expect ';' after value."@,
            Message::ExpectVariableName => "Expect variable name."@,
            Message::ExpectSemicolonAfterVariable => "Expect ';' after variable declaration."@,
            Message::ExpectParenAfterWhile => "Expect '(' after 'while'."@,
            Message::ExpectParenAfterCondition => "Expect ')' after condition."@,
            Message::TooManyParameters => "Cannot have more than 255 parameters."@,
            Message::ExpectParameterName => "Expect parameter name."@,
            Message::ExpectParenAfterParameters => "Expect ')' after parameters."@,
            Message::ExpectBraceAfterBlock => "Expect '}' after block."@,
            Message::ExpectClassName => "Expect class name."@,
            Message::ExpectSuperclassName => "Expect superclass name."@,
            Message::ExpectBraceBeforeClassBody => "Expect '{' before class body."@,
            Message::ExpectBraceAfterClassBody => "Expect '}' after class body."@,
            Message::InvalidAssignmentTarget => "Invalid assignment target."@,
            Message::TooManyArguments => "Can't have more than 255 arguments."@,
            Message::ExpectParenAfterArguments => "Expect ')' after arguments."@,
            Message::ExpectPropertyName => "Expect property name after '.'."@,
            Message::ExpectDotAfterSuper => "Expect '.' after 'super'."@,
            Message::ExpectSuperclassMethodName => "Expect superclass method name."@,
            Message::ExpectParenAfterExpression => "Expected ')' after expression."@,
            Message::ExpectExpression => "Expected expression"@,
            Message::AlreadyDeclared => "Variable with this name already declared in scope."@,
            Message::ReadInOwnInitializer => "Cannot read local variable in its own initializer."@,
            Message::ReturnOutsideFunction => "Cannot return from top-level code."@,
            Message::ReturnValueFromInitializer => "Cannot return value from initializer."@,
            Message::ThisOutsideClass => "Cannot use 'this' outside of a class."@,
            Message::SuperOutsideClass => "Cannot use 'super' outside of a class."@,
            Message::SuperWithoutSuperclass => "Cannot use 'super' in a class with no superclass."@,
            Message::InheritFromSelf => "A class cannot inherit from itself."@,
            Message::OperandsMustBeNumbers { .. } => "Operands must be numbers."@,
            Message::OperandsMustBeNumbersOrStrings { .. } => "Operands must be two numbers or two strings."@,
            Message::InvalidExpression { .. } => "Invalid expression error."@,
            Message::ZeroDivision { .. } => "Zero division error."@,
            Message::NotCallable => "Can only call functions and classes."@,
            Message::OnlyInstancesHaveProperties => "Only instances have properties."@,
            Message::OnlyInstancesHaveFields => "Only instances have fields."@,
            Message::SuperclassMustBeClass => "Superclass must be a class."@,
            Message::DanglingReference => "Value refers to nothing."@,
            _ => Seq::empty(),
        }
    }

    /// The wording of the message when it is given at a token spelled
    /// `lexeme`. A message about operands is worded without them here;
    /// `detailed` words it in full.
    pub open spec fn wording(self, lexeme: Seq<char>) -> Seq<char> {
        match self {
            Message::ExpectCalleeName(kind) => "Expect "@ + kind.noun() + " name."@,
            Message::ExpectParenAfterCalleeName(kind) => "Expect '(' after "@ + kind.noun()
                + " name."@,
            Message::ExpectBraceBeforeBody(kind) => "Expect '{' before "@ + kind.noun() + " body."@,
            Message::InvalidUnary { .. } => "invalid unary expr: "@ + lexeme,
            Message::UndefinedVariable => "Undefined variable '"@ + lexeme + "'."@,
            Message::UndefinedProperty => "Undefined property '"@ + lexeme + "'."@,
            Message::WrongArgumentCount { expected, got } => "Expected "@ + decimal(expected as nat)
                + " arguments but got "@ + decimal(got as nat) + "."@,
            _ => self.fixed(),
        }
    }

    /// The operands the message is about, left and right: both for a
    /// binary operator, the right one for a unary operator.
    pub open spec fn about(self) -> (Option<Object>, Option<Object>) {
        match self {
            Message::InvalidUnary { operand } => (None, Some(operand)),
            Message::OperandsMustBeNumbers { left, right } => (Some(left), Some(right)),
            Message::OperandsMustBeNumbersOrStrings { left, right } => (Some(left), Some(right)),
            Message::InvalidExpression { left, right } => (Some(left), Some(right)),
            Message::ZeroDivision { left, right } => (Some(left), Some(right)),
            _ => (None, None),
        }
    }

    /// What follows the sentence of a message about two operands: the
    /// operands as they print, around the operator as it is spelled.
    pub open spec fn was(operator: Seq<char>, left: Seq<char>, right: Seq<char>) -> Seq<char> {
        " Was: "@ + left + " "@ + operator + " "@ + right
    }

    /// The wording in full of the message given at `token`, where `left`
    /// and `right` are its operands as they print. A message about no
    /// operands reads as `wording` has it.
    pub open spec fn detailed(self, token: TokenView, left: Seq<char>, right: Seq<char>) -> Seq<
        char,
    > {
        match self {
            Message::InvalidUnary { .. } => "invalid unary expr: "@ + token.text() + right,
            Message::OperandsMustBeNumbers { .. } => self.fixed() + Message::was(
                token.text(),
                left,
                right,
            ),
            Message::OperandsMustBeNumbersOrStrings { .. } => self.fixed() + Message::was(
                token.text(),
                left,
                right,
            ),
            Message::InvalidExpression { .. } => self.fixed() + Message::was(
                token.text(),
                left,
                right,
            ),
            Message::ZeroDivision { .. } => self.fixed() + " Tried to divide "@ + left + " by 0."@,
            _ => self.wording(token.lexeme),
        }
    }

    /// The operands the message is about, for the embedding program to
    /// print.
    pub fn operands(&self) -> (r: (Option<Object>, Option<Object>))
        ensures
            r == self.about(),
    {
        match self {
            Message::InvalidUnary { operand } => (None, Some(*operand)),
            Message::OperandsMustBeNumbers { left, right } => (Some(*left), Some(*right)),
            Message::OperandsMustBeNumbersOrStrings { left, right } => (Some(*left), Some(*right)),
            Message::InvalidExpression { left, right } => (Some(*left), Some(*right)),
            Message::ZeroDivision { left, right } => (Some(*left), Some(*right)),
            _ => (None, None),
        }
    }

    fn fixed_text(&self) -> (r: &'static str)
        ensures
            r@ == self.fixed(),
    {
        match self {
            Message::UnexpectedCharacter => "Unexpected character.",
            Message::UnterminatedString => "Unterminated string.",
            Message::ExpectParenAfterIf => "Expect '(' after 'if'.",
            Message::ExpectParenAfterIfCondition => "Expect ')' after if condition.",
            Message::ExpectSemicolonAfterReturn => "Expect ';' after return value.",
            Message::ExpectParenAfterFor => "Expect '(' after 'for'.",
            Message::ExpectSemicolonAfterLoopCondition => "Expect ';' after loop condition.",
            Message::ExpectParenAfterForClauses => "Expect ')' after loop condition.",
            Message::ExpectSemicolonAfterValue => "Expect ';' after value.",
            Message::ExpectVariableName => "Expect variable name.",
            Message::ExpectSemicolonAfterVariable => "Expect ';' after variable declaration.",
            Message::ExpectParenAfterWhile => "Expect '(' after 'while'.",
            Message::ExpectParenAfterCondition => "Expect ')' after condition.",
            Message::TooManyParameters => "Cannot have more than 255 parameters.",
            Message::ExpectParameterName => "Expect parameter name.",
            Message::ExpectParenAfterParameters => "Expect ')' after parameters.",
            Message::ExpectBraceAfterBlock => "Expect '}' after block.",
            Message::ExpectClassName => "Expect class name.",
            Message::ExpectSuperclassName => "Expect superclass name.",
            Message::ExpectBraceBeforeClassBody => "Expect '{' before class body.",
            Message::ExpectBraceAfterClassBody => "Expect '}' after class body.",
            Message::InvalidAssignmentTarget => "Invalid assignment target.",
            Message::TooManyArguments => "Can't have more than 255 arguments.",
            Message::ExpectParenAfterArguments => "Expect ')' after arguments.",
            Message::ExpectPropertyName => "Expect property name after '.'.",
            Message::ExpectDotAfterSuper => "Expect '.' after 'super'.",
            Message::ExpectSuperclassMethodName => "Expect superclass method name.",
            Message::ExpectParenAfterExpression => "Expected ')' after expression.",
            Message::ExpectExpression => "Expected expression",
            Message::AlreadyDeclared => "Variable with this name already declared in scope.",
            Message::ReadInOwnInitializer => "Cannot read local variable in its own initializer.",
            Message::ReturnOutsideFunction => "Cannot return from top-level code.",
            Message::ReturnValueFromInitializer => "Cannot return value from initializer.",
            Message::ThisOutsideClass => "Cannot use 'this' outside of a class.",
            Message::SuperOutsideClass => "Cannot use 'super' outside of a class.",
            Message::SuperWithoutSuperclass => "Cannot use 'super' in a class with no superclass.",
            Message::InheritFromSelf => "A class cannot inherit from itself.",
            Message::OperandsMustBeNumbers { .. } => "Operands must be numbers.",
            Message::OperandsMustBeNumbersOrStrings { .. } => "Operands must be two numbers or two strings.",
            Message::InvalidExpression { .. } => "Invalid expression error.",
            Message::ZeroDivision { .. } => "Zero division error.",
            Message::NotCallable => "Can only call functions and classes.",
            Message::OnlyInstancesHaveProperties => "Only instances have properties.",
            Message::OnlyInstancesHaveFields => "Only instances have fields.",
            Message::SuperclassMustBeClass => "Superclass must be a class.",
            Message::DanglingReference => "Value refers to nothing.",
            _ => {
                let none: &'static str = "";
                proof {
                    reveal_strlit("");
                    assert(none@ =~= Seq::<char>::empty());
                }
                none
            },
        }
    }

    /// The sentence and, after it, the operands around the operator.
    fn with_operands(&self, token: &Token, left: &str, right: &str) -> (r: String)
        ensures
            r@ == self.fixed() + Message::was(token@.text(), left@, right@),
    {
        let operator: String = token.text();
        let out: String = joined(
            joined(
                joined(
                    joined(joined(self.fixed_text().to_owned(), " Was: "), left),
                    " ",
                ),
                operator.as_str(),
            ),
            " ",
        );
        let out: String = joined(out, right);
        assert(out@ =~= self.fixed() + Message::was(token@.text(), left@, right@));
        out
    }

    /// The message in full, as given at `token`, with its operands as
    /// they print.
    pub fn detail(&self, token: &Token, left: &str, right: &str) -> (r: String)
        ensures
            r@ == self.detailed(token@, left@, right@),
    {
        match self {
            Message::InvalidUnary { .. } => {
                let operator: String = token.text();
                joined(joined("invalid unary expr: ".to_owned(), operator.as_str()), right)
            },
            Message::OperandsMustBeNumbers { .. } => self.with_operands(token, left, right),
            Message::OperandsMustBeNumbersOrStrings { .. } => self.with_operands(
                token,
                left,
                right,
            ),
            Message::InvalidExpression { .. } => self.with_operands(token, left, right),
            Message::ZeroDivision { .. } => joined(
                joined(joined(self.fixed_text().to_owned(), " Tried to divide "), left),
                " by 0.",
            ),
            _ => self.text(token.lexeme.as_str()),
        }
    }

    /// The message in words, as given at a token spelled `lexeme`.
    pub fn text(&self, lexeme: &str) -> (r: String)
        ensures
            r@ == self.wording(lexeme@),
    {
        match self {
            Message::ExpectCalleeName(kind) => joined(
                joined("Expect ".to_owned(), kind.word()),
                " name.",
            ),
            Message::ExpectParenAfterCalleeName(kind) => joined(
                joined("Expect '(' after ".to_owned(), kind.word()),
                " name.",
            ),
            Message::ExpectBraceBeforeBody(kind) => joined(
                joined("Expect '{' before ".to_owned(), kind.word()),
                " body.",
            ),
            Message::InvalidUnary { .. } => joined("invalid unary expr: ".to_owned(), lexeme),
            Message::UndefinedVariable => joined(
                joined("Undefined variable '".to_owned(), lexeme),
                "'.",
            ),
            Message::UndefinedProperty => joined(
                joined("Undefined property '".to_owned(), lexeme),
                "'.",
            ),
            Message::WrongArgumentCount { expected, got } => {
                let expected_text: String = to_decimal(*expected);
                let got_text: String = to_decimal(*got);
                joined(
                    joined(
                        joined(joined("Expected ".to_owned(), expected_text.as_str()), " arguments but got "),
                        got_text.as_str(),
                    ),
                    ".",
                )
            },
            _ => self.fixed_text().to_owned(),
        }
    }
}

/// One line of diagnostics: `[line L] Error<location>: <message>`.
pub open spec fn report_line(line: usize, location: Seq<char>, message: Seq<char>) -> Seq<char> {
    "[line "@ + decimal(line as nat) + "] Error"@ + location + ": "@ + message
}

/// Where a diagnostic about `token` says it is: at the end, for the end
/// marker, or at the token's spelling.
pub open spec fn location(token: TokenView) -> Seq<char> {
    if token.kind == TokenType::Eof {
        " at end"@
    } else {
        " at '"@ + token.lexeme + "'"@
    }
}

/// What is reported when a script fails while it runs: the message, and
/// under it the line.
pub open spec fn runtime_lines(line: usize, message: Seq<char>) -> Seq<char> {
    message + "\n[line "@ + decimal(line as nat) + "]"@
}

/// The diagnostic line for a finding that has a line but no token.
pub fn error(line: usize, message: &str) -> (r: String)
    ensures
        r@ == report_line(line, Seq::empty(), message@),
{
    let empty: &'static str = "";
    proof {
        reveal_strlit("");
        assert(empty@ =~= Seq::<char>::empty());
    }
    report(line, empty, message)
}

/// The diagnostic line for a finding on line `line`, at `location`.
pub fn report(line: usize, location: &str, message: &str) -> (r: String)
    ensures
        r@ == report_line(line, location@, message@),
{
    let number: String = to_decimal(line);
    joined(
        joined(
            joined(joined(joined("[line ".to_owned(), number.as_str()), "] Error"), location),
            ": ",
        ),
        message,
    )
}

/// The diagnostic line for a finding at `token`.
pub fn parser_error(token: &Token, message: &str) -> (r: String)
    ensures
        r@ == report_line(token.line, location(token@), message@),
{
    if token.kind == TokenType::Eof {
        report(token.line, " at end", message)
    } else {
        let place: String = joined(joined(" at '".to_owned(), token.lexeme.as_str()), "'");
        report(token.line, place.as_str(), message)
    }
}

/// The report of a script that failed on line `line` while it ran.
pub fn runtime_report(line: usize, message: &str) -> (r: String)
    ensures
        r@ == runtime_lines(line, message@),
{
    let number: String = to_decimal(line);
    joined(joined(joined(message.to_owned(), "\n[line "), number.as_str()), "]")
}

/// An error that ends parsing of a declaration or the run of a script,
/// with the token it is reported at.
#[derive(Debug, PartialEq)]
pub enum Error {
    Parse { token: Token, message: Message },
    Runtime { token: Token, message: Message },
}

pub enum ErrorView {
    Parse { token: TokenView, message: Message },
    Runtime { token: TokenView, message: Message },
}

impl View for Error {
    type V = ErrorView;

    open spec fn view(&self) -> ErrorView {
        match self {
            Error::Parse { token, message } => ErrorView::Parse { token: token@, message: *message },
            Error::Runtime { token, message } => ErrorView::Runtime {
                token: token@,
                message: *message,
            },
        }
    }
}

/// The views of a list of errors.
pub open spec fn errors_view(errors: Seq<Error>) -> Seq<ErrorView> {
    Seq::new(errors.len(), |i: int| errors[i]@)
}

/// A finding that points into the syntax tree or token list it is about:
/// the token it is reported at, and what is wrong there.
#[derive(Clone, Copy)]
pub struct Diagnostic<'a> {
    pub token: &'a Token,
    pub message: Message,
}

impl Error {
    pub open spec fn description(self) -> Seq<char> {
        match self {
            Error::Parse { token, message } => "ParseError at token: "@ + token@.text()
                + ", message: "@ + message.wording(token.lexeme@),
            Error::Runtime { token, message } => "RuntimeError at token: "@ + token@.text()
                + ", message: "@ + message.wording(token.lexeme@),
        }
    }

    /// The error in one line: its kind, the token it is at, and its
    /// message.
    pub fn describe(&self) -> (r: String)
        ensures
            r@ == self.description(),
    {
        match self {
            Error::Parse { token, message } => {
                let shown: String = token.text();
                let said: String = message.text(token.lexeme.as_str());
                joined(
                    joined(joined("ParseError at token: ".to_owned(), shown.as_str()), ", message: "),
                    said.as_str(),
                )
            },
            Error::Runtime { token, message } => {
                let shown: String = token.text();
                let said: String = message.text(token.lexeme.as_str());
                joined(
                    joined(
                        joined("RuntimeError at token: ".to_owned(), shown.as_str()),
                        ", message: ",
                    ),
                    said.as_str(),
                )
            },
        }
    }

    /// The diagnostic line for this error.
    pub fn report(&self) -> (r: String)
        ensures
            r@ == match self {
                Error::Parse { token, message } => report_line(
                    token.line,
                    location(token@),
                    message.wording(token.lexeme@),
                ),
                Error::Runtime { token, message } => report_line(
                    token.line,
                    location(token@),
                    message.wording(token.lexeme@),
                ),
            },
    {
        match self {
            Error::Parse { token, message } => {
                let said: String = message.text(token.lexeme.as_str());
                parser_error(token, said.as_str())
            },
            Error::Runtime { token, message } => {
                let said: String = message.text(token.lexeme.as_str());
                parser_error(token, said.as_str())
            },
        }
    }
}

impl<'a> Diagnostic<'a> {
    /// The diagnostic line for this finding.
    pub fn report(&self) -> (r: String)
        ensures
            r@ == report_line(
                self.token.line,
                location(self.token@),
                self.message.wording(self.token.lexeme@),
            ),
    {
        let said: String = self.message.text(self.token.lexeme.as_str());
        parser_error(self.token, said.as_str())
    }

    /// The report of a script that failed here while it ran, in full:
    /// `left` and `right` are the operands of the message as they print.
    pub fn detailed_report(&self, left: &str, right: &str) -> (r: String)
        ensures
            r@ == runtime_lines(
                self.token.line,
                self.message.detailed(self.token@, left@, right@),
            ),
    {
        let said: String = self.message.detail(self.token, left, right);
        runtime_report(self.token.line, said.as_str())
    }

    /// The report of a script that failed here while it ran, without the
    /// operands of its message.
    pub fn runtime_report(&self) -> (r: String)
        ensures
            r@ == runtime_lines(self.token.line, self.message.wording(self.token.lexeme@)),
    {
        let said: String = self.message.text(self.token.lexeme.as_str());
        runtime_report(self.token.line, said.as_str())
    }

    /// The finding as a runtime error that owns its token.
    pub fn to_error(&self) -> (r: Error)
        ensures
            r == (Error::Runtime { token: *self.token, message: self.message }),
    {
        Error::Runtime { token: self.token.clone(), message: self.message }
    }
}

} // verus!
