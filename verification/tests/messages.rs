use treelox::error::error;
use treelox::error::parser_error;
use treelox::error::report;
use treelox::error::runtime_report;
use treelox::error::Callee;
use treelox::error::Diagnostic;
use treelox::error::Error;
use treelox::error::Message;
use treelox::interpreter::Interpreter;
use treelox::token::Literal;
use treelox::token::Object;
use treelox::token::Token;
use treelox::token::TokenType;

fn identifier(lexeme: &str, line: usize) -> Token {
    Token {
        kind: TokenType::Identifier,
        lexeme: lexeme.to_string(),
        literal: Some(Literal::String(lexeme.to_string())),
        line,
        column: 1,
    }
}

fn mark(kind: TokenType, lexeme: &str) -> Token {
    Token { kind, lexeme: lexeme.to_string(), literal: None, line: 1, column: 1 }
}

#[test]
fn a_diagnostic_line_has_its_format() {
    assert_eq!(error(3, "Unexpected character."), "[line 3] Error: Unexpected character.");
    assert_eq!(report(12, " at end", "Expected expression"), "[line 12] Error at end: Expected expression");
    assert_eq!(report(0, "", ""), "[line 0] Error: ");
    assert_eq!(
        parser_error(&identifier("foo", 7), "Expect ';' after value."),
        "[line 7] Error at 'foo': Expect ';' after value."
    );
    let end =
        Token { kind: TokenType::Eof, lexeme: String::new(), literal: None, line: 9, column: 1 };
    assert_eq!(parser_error(&end, "Expect '}' after block."), "[line 9] Error at end: Expect '}' after block.");
}

#[test]
fn a_runtime_report_has_the_line_under_the_message() {
    assert_eq!(runtime_report(4, "Zero division error."), "Zero division error.\n[line 4]");
    let token = identifier("x", 21);
    let finding = Diagnostic { token: &token, message: Message::UndefinedVariable };
    assert_eq!(finding.runtime_report(), "Undefined variable 'x'.\n[line 21]");
    assert_eq!(finding.report(), "[line 21] Error at 'x': Undefined variable 'x'.");
    assert_eq!(
        finding.to_error(),
        Error::Runtime { token: identifier("x", 21), message: Message::UndefinedVariable }
    );
}

#[test]
fn messages_that_name_something_name_it() {
    assert_eq!(Message::UndefinedVariable.text("count"), "Undefined variable 'count'.");
    assert_eq!(Message::UndefinedProperty.text("size"), "Undefined property 'size'.");
    assert_eq!(
        Message::WrongArgumentCount { expected: 2, got: 0 }.text(")"),
        "Expected 2 arguments but got 0."
    );
    assert_eq!(
        Message::WrongArgumentCount { expected: 0, got: 255 }.text(")"),
        "Expected 0 arguments but got 255."
    );
    assert_eq!(Message::ExpectCalleeName(Callee::Function).text("1"), "Expect function name.");
    assert_eq!(Message::ExpectCalleeName(Callee::Method).text("1"), "Expect method name.");
    assert_eq!(
        Message::ExpectParenAfterCalleeName(Callee::Method).text("1"),
        "Expect '(' after method name."
    );
    assert_eq!(
        Message::ExpectBraceBeforeBody(Callee::Function).text("1"),
        "Expect '{' before function body."
    );
    assert_eq!(Callee::Method.word(), "method");
}

#[test]
fn fixed_messages_have_their_wording() {
    let expected = [
        (Message::UnexpectedCharacter, "Unexpected character."),
        (Message::UnterminatedString, "Unterminated string."),
        (Message::ExpectParenAfterIf, "Expect '(' after 'if'."),
        (Message::ExpectParenAfterIfCondition, "Expect ')' after if condition."),
        (Message::ExpectSemicolonAfterReturn, "Expect ';' after return value."),
        (Message::ExpectParenAfterFor, "Expect '(' after 'for'."),
        (Message::ExpectSemicolonAfterLoopCondition, "Expect ';' after loop condition."),
        (Message::ExpectParenAfterForClauses, "Expect ')' after loop condition."),
        (Message::ExpectSemicolonAfterValue, "Expect ';' after value."),
        (Message::ExpectVariableName, "Expect variable name."),
        (Message::ExpectSemicolonAfterVariable, "Expect ';' after variable declaration."),
        (Message::ExpectParenAfterWhile, "Expect '(' after 'while'."),
        (Message::ExpectParenAfterCondition, "Expect ')' after condition."),
        (Message::TooManyParameters, "Cannot have more than 255 parameters."),
        (Message::ExpectParameterName, "Expect parameter name."),
        (Message::ExpectParenAfterParameters, "Expect ')' after parameters."),
        (Message::ExpectBraceAfterBlock, "Expect '}' after block."),
        (Message::ExpectClassName, "Expect class name."),
        (Message::ExpectSuperclassName, "Expect superclass name."),
        (Message::ExpectBraceBeforeClassBody, "Expect '{' before class body."),
        (Message::ExpectBraceAfterClassBody, "Expect '}' after class body."),
        (Message::InvalidAssignmentTarget, "Invalid assignment target."),
        (Message::TooManyArguments, "Can't have more than 255 arguments."),
        (Message::ExpectParenAfterArguments, "Expect ')' after arguments."),
        (Message::ExpectPropertyName, "Expect property name after '.'."),
        (Message::ExpectDotAfterSuper, "Expect '.' after 'super'."),
        (Message::ExpectSuperclassMethodName, "Expect superclass method name."),
        (Message::ExpectParenAfterExpression, "Expected ')' after expression."),
        (Message::ExpectExpression, "Expected expression"),
        (Message::AlreadyDeclared, "Variable with this name already declared in scope."),
        (Message::ReadInOwnInitializer, "Cannot read local variable in its own initializer."),
        (Message::ReturnOutsideFunction, "Cannot return from top-level code."),
        (Message::ReturnValueFromInitializer, "Cannot return value from initializer."),
        (Message::ThisOutsideClass, "Cannot use 'this' outside of a class."),
        (Message::SuperOutsideClass, "Cannot use 'super' outside of a class."),
        (Message::SuperWithoutSuperclass, "Cannot use 'super' in a class with no superclass."),
        (Message::InheritFromSelf, "A class cannot inherit from itself."),
        (
            Message::OperandsMustBeNumbers { left: Object::Nil, right: Object::Nil },
            "Operands must be numbers.",
        ),
        (
            Message::OperandsMustBeNumbersOrStrings { left: Object::Nil, right: Object::Nil },
            "Operands must be two numbers or two strings.",
        ),
        (
            Message::InvalidExpression { left: Object::Nil, right: Object::Nil },
            "Invalid expression error.",
        ),
        (Message::ZeroDivision { left: Object::Nil, right: Object::Nil }, "Zero division error."),
        (Message::NotCallable, "Can only call functions and classes."),
        (Message::OnlyInstancesHaveProperties, "Only instances have properties."),
        (Message::OnlyInstancesHaveFields, "Only instances have fields."),
        (Message::SuperclassMustBeClass, "Superclass must be a class."),
        (Message::DanglingReference, "Value refers to nothing."),
    ];
    for (message, wording) in expected {
        assert_eq!(message.text("ignored"), wording);
    }
}

#[test]
fn an_error_describes_itself() {
    let parse = Error::Parse { token: mark(TokenType::Semicolon, ";"), message: Message::ExpectExpression };
    assert_eq!(parse.describe(), "ParseError at token: ;, message: Expected expression");
    assert_eq!(parse.report(), "[line 1] Error at ';': Expected expression");
    let runtime = Error::Runtime { token: identifier("n", 5), message: Message::UndefinedVariable };
    assert_eq!(runtime.describe(), "RuntimeError at token: n, message: Undefined variable 'n'.");
    assert_eq!(runtime.report(), "[line 5] Error at 'n': Undefined variable 'n'.");
}

#[test]
fn an_operator_has_its_message_for_wrong_operands() {
    let (left, right) = (Object::Bool(true), Object::Number(7));
    let numbers = [
        (TokenType::Minus, "-"),
        (TokenType::Slash, "/"),
        (TokenType::Star, "*"),
        (TokenType::Greater, ">"),
        (TokenType::GreaterEqual, ">="),
        (TokenType::Less, "<"),
        (TokenType::LessEqual, "<="),
    ];
    for (kind, lexeme) in numbers {
        assert_eq!(
            Interpreter::runtime_error(left, &mark(kind, lexeme), right),
            Error::Runtime {
                token: mark(kind, lexeme),
                message: Message::OperandsMustBeNumbers { left, right }
            }
        );
    }
    assert_eq!(
        Interpreter::runtime_error(left, &mark(TokenType::Plus, "+"), right),
        Error::Runtime {
            token: mark(TokenType::Plus, "+"),
            message: Message::OperandsMustBeNumbersOrStrings { left, right }
        }
    );
    assert_eq!(
        Interpreter::runtime_error(left, &mark(TokenType::Bang, "!"), right),
        Error::Runtime {
            token: mark(TokenType::Bang, "!"),
            message: Message::InvalidExpression { left, right }
        }
    );
}

#[test]
fn a_message_about_operands_names_them_in_full() {
    let (left, right) = (Object::Nil, Object::Bool(false));
    let minus = mark(TokenType::Minus, "-");
    let numbers = Message::OperandsMustBeNumbers { left, right };
    assert_eq!(numbers.operands(), (Some(left), Some(right)));
    assert_eq!(numbers.text("-"), "Operands must be numbers.");
    assert_eq!(numbers.detail(&minus, "nil", "false"), "Operands must be numbers. Was: nil - false");
    let plus = mark(TokenType::Plus, "+");
    assert_eq!(
        Message::OperandsMustBeNumbersOrStrings { left, right }.detail(&plus, "1", "a b"),
        "Operands must be two numbers or two strings. Was: 1 + a b"
    );
    assert_eq!(
        Message::InvalidExpression { left, right }.detail(&mark(TokenType::Comma, ","), "x", "y"),
        "Invalid expression error. Was: x , y"
    );
    let slash = mark(TokenType::Slash, "/");
    let division = Message::ZeroDivision { left: Object::Number(3), right: Object::Number(0) };
    assert_eq!(division.detail(&slash, "12.5", "0"), "Zero division error. Tried to divide 12.5 by 0.");
    assert_eq!(division.text("/"), "Zero division error.");
    let unary = Message::InvalidUnary { operand: right };
    assert_eq!(unary.operands(), (None, Some(right)));
    assert_eq!(unary.detail(&minus, "", "false"), "invalid unary expr: -false");
    assert_eq!(unary.text("-"), "invalid unary expr: -");
    assert_eq!(Message::UndefinedVariable.operands(), (None, None));
    assert_eq!(Message::UndefinedVariable.detail(&identifier("v", 1), "l", "r"), "Undefined variable 'v'.");
    let fault = Diagnostic { token: &slash, message: division };
    assert_eq!(
        fault.detailed_report("1", "0"),
        "Zero division error. Tried to divide 1 by 0.\n[line 1]"
    );
    assert_eq!(fault.runtime_report(), "Zero division error.\n[line 1]");
}

#[test]
fn a_token_without_its_payload_shows_as_nothing() {
    let bare = Token {
        kind: TokenType::Identifier,
        lexeme: "x".to_string(),
        literal: None,
        line: 1,
        column: 1,
    };
    assert_eq!(bare.text(), "");
    let error = Error::Parse { token: bare, message: Message::ExpectSemicolonAfterValue };
    assert_eq!(error.describe(), "ParseError at token: , message: Expect ';' after value.");
}
