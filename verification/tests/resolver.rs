use treelox::error::Message;
use treelox::interpreter::Interpreter;
use treelox::locals::Locals;
use treelox::parser::Parser;
use treelox::resolver::ClassType;
use treelox::resolver::FunctionType;
use treelox::resolver::Resolver;
use treelox::scanner::Scanner;
use treelox::stmt::Stmt;
use treelox::token::Literal;
use treelox::token::Token;
use treelox::token::TokenType;

fn program(source: &str) -> Vec<Stmt> {
    let mut scanner = Scanner::new(source.to_string());
    Parser::new(scanner.scan_tokens()).parse().unwrap()
}

/// The findings of the resolver on a source: message, spelling of the
/// token, line.
fn findings(source: &str) -> Vec<(Message, String, usize)> {
    let statements = program(source);
    let mut interpreter = Interpreter::new();
    let mut resolver = Resolver::new();
    resolver.resolve_stmts(&mut interpreter, &statements);
    assert_eq!(resolver.had_error, !resolver.diagnostics.is_empty());
    resolver
        .diagnostics
        .iter()
        .map(|d| (d.message, d.token.lexeme.clone(), d.token.line))
        .collect()
}

/// The distance recorded for the use of `lexeme` that starts line `line`.
fn depth(source: &str, lexeme: &str, line: usize) -> Option<usize> {
    depth_at(source, lexeme, line, 1)
}

/// The distance recorded for the use of `lexeme` at a line and column.
fn depth_at(source: &str, lexeme: &str, line: usize, column: usize) -> Option<usize> {
    let statements = program(source);
    let mut interpreter = Interpreter::new();
    let mut resolver = Resolver::new();
    resolver.resolve_stmts(&mut interpreter, &statements);
    assert!(resolver.scopes.is_empty());
    assert_eq!(resolver.current_function, FunctionType::Outside);
    assert_eq!(resolver.current_class, ClassType::Outside);
    interpreter.locals.get(&place(lexeme, line, column))
}

fn place(lexeme: &str, line: usize, column: usize) -> Token {
    Token {
        kind: TokenType::Identifier,
        lexeme: lexeme.to_string(),
        literal: Some(Literal::String(lexeme.to_string())),
        line,
        column,
    }
}

#[test]
fn a_global_gets_no_distance() {
    assert_eq!(depth("var a = 1; print\na;", "a", 2), None);
    assert_eq!(depth("fun f() { print\na;\n}", "a", 2), None);
    assert_eq!(depth("{ print\nclock;\n}", "clock", 2), None);
}

#[test]
fn a_local_gets_the_number_of_scopes_between() {
    assert_eq!(depth("{ var a; print\na;\n}", "a", 2), Some(0));
    assert_eq!(depth("{ var a; { print\na;\n} }", "a", 2), Some(1));
    assert_eq!(depth("{ var a; { { {\na = 1;\n} } } }", "a", 2), Some(3));
    assert_eq!(depth("fun f(a) { print\na;\n}", "a", 2), Some(0));
    assert_eq!(depth("fun f(a) { { print\na;\n} }", "a", 2), Some(1));
    assert_eq!(depth("{ var a; fun f() { return\na;\n} }", "a", 2), Some(1));
}

#[test]
fn the_nearest_declaration_wins() {
    let source = "{ var a; { var a; { print\na;\n} } print\na;\n}";
    assert_eq!(depth(source, "a", 2), Some(1));
    assert_eq!(depth(source, "a", 4), Some(0));
}

#[test]
fn a_use_before_the_inner_declaration_means_the_outer_one() {
    let source = "{ var a = 1; { print\na;\nvar a = 2;\nprint\na; } }";
    assert_eq!(depth(source, "a", 2), Some(1));
    assert_eq!(depth(source, "a", 5), Some(0));
    let one_line = "{ var a = 1; { print a; var a = 2; print a; } }";
    assert_eq!(depth_at(one_line, "a", 1, 22), Some(1));
    assert_eq!(depth_at(one_line, "a", 1, 42), Some(0));
    assert_eq!(depth_at(one_line, "a", 1, 29), None);
}

#[test]
fn this_and_super_lie_in_scopes_of_their_own() {
    let source = "class A { m() { return\nthis;\n} }\nclass B < A { m() { return\nsuper.m;\n}\nn() { { print\nthis;\n} } }";
    assert_eq!(depth(source, "this", 2), Some(1));
    assert_eq!(depth(source, "super", 5), Some(2));
    assert_eq!(depth(source, "this", 8), Some(2));
    assert_eq!(findings(source), vec![]);
}

#[test]
fn a_superclass_is_resolved_as_a_variable() {
    assert_eq!(depth("{ class A {} class B <\nA\n{} }", "A", 2), Some(0));
    assert_eq!(depth("class A {} class B <\nA\n{}", "A", 2), None);
}

#[test]
fn distances_are_added_to_those_already_there() {
    let first = program("{ var a; print\na;\n}");
    let second = program("{ { var b; print\n\n\nb; } }");
    let mut interpreter = Interpreter::new();
    interpreter.resolve(&place("z", 40, 1), 7);
    let mut resolver = Resolver::new();
    resolver.resolve_stmts(&mut interpreter, &first);
    resolver.resolve_stmts(&mut interpreter, &second);
    assert_eq!(interpreter.locals.get(&place("z", 40, 1)), Some(7));
    assert_eq!(interpreter.locals.get(&place("a", 2, 1)), Some(0));
    assert_eq!(interpreter.locals.get(&place("b", 4, 1)), Some(0));
    assert_eq!(interpreter.locals.get(&place("b", 5, 1)), None);
    assert_eq!(interpreter.locals.get(&place("b", 4, 2)), None);
    assert!(resolver.locals.by_line.is_empty());
}

#[test]
fn locals_keep_the_last_distance_for_a_place() {
    let mut locals = Locals::new();
    assert_eq!(locals.get(&place("a", 3, 1)), None);
    locals.insert(&place("a", 3, 1), 1);
    locals.insert(&place("b", 3, 5), 2);
    locals.insert(&place("a", 0, 1), 5);
    locals.insert(&place("a", 3, 1), 4);
    assert_eq!(locals.get(&place("a", 3, 1)), Some(4));
    assert_eq!(locals.get(&place("b", 3, 5)), Some(2));
    assert_eq!(locals.get(&place("a", 0, 1)), Some(5));
    assert_eq!(locals.get(&place("a", 1, 1)), None);
    assert_eq!(locals.get(&place("a", 3, 2)), None);
    assert_eq!(locals.get(&place("b", 4, 5)), None);
}

#[test]
fn redeclaring_in_one_scope_is_found_except_among_globals() {
    assert_eq!(
        findings("{ var a = 1;\nvar a = 2; }"),
        vec![(Message::AlreadyDeclared, "a".to_string(), 2)]
    );
    assert_eq!(
        findings("fun f(a,\na) {}"),
        vec![(Message::AlreadyDeclared, "a".to_string(), 2)]
    );
    assert_eq!(
        findings("fun f(a) {\nvar a; }"),
        vec![(Message::AlreadyDeclared, "a".to_string(), 2)]
    );
    assert_eq!(findings("var a = 1; var a = 2;"), vec![]);
    assert_eq!(findings("{ var a; { var a; } }"), vec![]);
}

#[test]
fn reading_a_local_in_its_own_initializer_is_found_only_inside_a_scope() {
    assert_eq!(
        findings("{ var x = x; }"),
        vec![(Message::ReadInOwnInitializer, "x".to_string(), 1)]
    );
    assert_eq!(
        findings("var x = 1; { var x = x + 1; }"),
        vec![(Message::ReadInOwnInitializer, "x".to_string(), 1)]
    );
    assert_eq!(findings("var x = x;"), vec![]);
    assert_eq!(findings("{ var x = 1; { var y = x; } }"), vec![]);
}

#[test]
fn return_outside_a_function_is_found() {
    assert_eq!(
        findings("return;"),
        vec![(Message::ReturnOutsideFunction, "return".to_string(), 1)]
    );
    assert_eq!(
        findings("{ if (true) return 1; }"),
        vec![(Message::ReturnOutsideFunction, "return".to_string(), 1)]
    );
    assert_eq!(findings("fun f() { return 1; }"), vec![]);
    assert_eq!(findings("class A { m() { return 1; } }"), vec![]);
}

#[test]
fn returning_a_value_from_an_initializer_is_found() {
    assert_eq!(
        findings("class A { init() {\nreturn 1; } }"),
        vec![(Message::ReturnValueFromInitializer, "return".to_string(), 2)]
    );
    assert_eq!(
        findings("class A { init() { while (true) { if (false)\nreturn this; } } }"),
        vec![(Message::ReturnValueFromInitializer, "return".to_string(), 2)]
    );
    assert_eq!(findings("class A { init() { return; } }"), vec![]);
    assert_eq!(findings("class A { init() { fun g() { return 1; } } }"), vec![]);
    assert_eq!(findings("class A { start() { return 1; } }"), vec![]);
    assert_eq!(findings("fun init() { return 1; }"), vec![]);
}

#[test]
fn this_outside_a_class_is_found() {
    assert_eq!(findings("print this;"), vec![(Message::ThisOutsideClass, "this".to_string(), 1)]);
    assert_eq!(
        findings("fun f() { return\nthis; }"),
        vec![(Message::ThisOutsideClass, "this".to_string(), 2)]
    );
    assert_eq!(findings("class A { m() { fun g() { return this; } } }"), vec![]);
}

#[test]
fn super_outside_a_subclass_is_found() {
    assert_eq!(
        findings("print super.m;"),
        vec![(Message::SuperOutsideClass, "super".to_string(), 1)]
    );
    assert_eq!(
        findings("class A { m() { super.m(); } }"),
        vec![(Message::SuperWithoutSuperclass, "super".to_string(), 1)]
    );
    assert_eq!(findings("class A {} class B < A { m() { super.m(); } }"), vec![]);
    assert_eq!(
        findings("class A {} class B < A {} class C { m() { super.m(); } }"),
        vec![(Message::SuperWithoutSuperclass, "super".to_string(), 1)]
    );
}

#[test]
fn a_class_that_inherits_from_itself_is_found() {
    assert_eq!(
        findings("class A <\nA {}"),
        vec![(Message::InheritFromSelf, "A".to_string(), 2)]
    );
    assert_eq!(
        findings("{ class A < A {} }"),
        vec![(Message::InheritFromSelf, "A".to_string(), 1)]
    );
}

#[test]
fn resolving_goes_on_after_a_finding() {
    assert_eq!(
        findings("return 1;\nprint this;\n{ var a; var a;\nprint a; }"),
        vec![
            (Message::ReturnOutsideFunction, "return".to_string(), 1),
            (Message::ThisOutsideClass, "this".to_string(), 2),
            (Message::AlreadyDeclared, "a".to_string(), 3),
        ]
    );
    assert_eq!(depth("return 1;\n{ var a; var a; print\na; }", "a", 3), Some(0));
}

#[test]
fn a_finding_is_reported_at_its_token() {
    let statements = program("{\n  var x = x;\n}");
    let mut interpreter = Interpreter::new();
    let mut resolver = Resolver::new();
    resolver.resolve_stmts(&mut interpreter, &statements);
    assert!(resolver.had_error);
    assert_eq!(
        resolver.diagnostics[0].report(),
        "[line 2] Error at 'x': Cannot read local variable in its own initializer."
    );
}

#[test]
fn a_return_is_checked_where_it_stands() {
    let keyword = Token {
        kind: TokenType::Return,
        lexeme: "return".to_string(),
        literal: None,
        line: 3,
        column: 5,
    };
    let value = Some(treelox::expr::Expr::Literal { value: Literal::Nil });
    let none = None;
    let mut outside = Resolver::new();
    outside.visit_return_stmt(&keyword, &none);
    assert!(outside.had_error);
    assert_eq!(outside.diagnostics[0].message, Message::ReturnOutsideFunction);
    let mut initializer = Resolver::new();
    initializer.current_function = FunctionType::Initializer;
    initializer.visit_return_stmt(&keyword, &none);
    assert!(!initializer.had_error);
    initializer.visit_return_stmt(&keyword, &value);
    assert!(initializer.had_error);
    assert_eq!(initializer.diagnostics.len(), 1);
    assert_eq!(initializer.diagnostics[0].message, Message::ReturnValueFromInitializer);
    assert_eq!(initializer.diagnostics[0].token.column, 5);
    let mut method = Resolver::new();
    method.current_function = FunctionType::Method;
    method.visit_return_stmt(&keyword, &value);
    assert!(!method.had_error);
    let mut anywhere = Resolver::new();
    anywhere.visit_this_expr(&keyword);
    anywhere.visit_super_expr(&keyword, &keyword);
    anywhere.visit_variable_expr(&keyword);
    let found: Vec<Message> = anywhere.diagnostics.iter().map(|d| d.message).collect();
    assert_eq!(found, vec![Message::ThisOutsideClass, Message::SuperOutsideClass]);
    let class = program("class A { m() { return this; } }");
    let mut resolver = Resolver::new();
    resolver.visit_class_stmt(&class[0]);
    assert!(!resolver.had_error);
    assert!(resolver.scopes.is_empty());
    assert_eq!(resolver.current_class, ClassType::Outside);
}
