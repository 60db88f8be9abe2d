use treelox::error::Callee;
use treelox::error::Error;
use treelox::error::Message;
use treelox::expr::AstPrinter;
use treelox::expr::Expr;
use treelox::parser::Parser;
use treelox::scanner::Scanner;
use treelox::stmt::Stmt;
use treelox::stmt::Visitor;
use treelox::token::Literal;
use treelox::token::Token;
use treelox::token::TokenType;

fn parser_for(source: &str) -> Parser {
    let mut scanner = Scanner::new(source.to_string());
    Parser::new(scanner.scan_tokens())
}

fn each_token_of_expr(expression: &mut Expr, change: &dyn Fn(&mut Token)) {
    match expression {
        Expr::Assign { name, value } => {
            change(name);
            each_token_of_expr(value, change);
        }
        Expr::Binary { left, operator, right } | Expr::Logical { left, operator, right } => {
            each_token_of_expr(left, change);
            change(operator);
            each_token_of_expr(right, change);
        }
        Expr::Get { object, name } => {
            each_token_of_expr(object, change);
            change(name);
        }
        Expr::Grouping { expr } => each_token_of_expr(expr, change),
        Expr::Literal { .. } => {}
        Expr::Unary { operator, right } => {
            change(operator);
            each_token_of_expr(right, change);
        }
        Expr::Variable { name } => change(name),
        Expr::Call { callee, paren, arguments } => {
            each_token_of_expr(callee, change);
            change(paren);
            arguments.iter_mut().for_each(|a| each_token_of_expr(a, change));
        }
        Expr::SetProperty { object, name, value } => {
            each_token_of_expr(object, change);
            change(name);
            each_token_of_expr(value, change);
        }
        Expr::Super { keyword, method } => {
            change(keyword);
            change(method);
        }
        Expr::This { keyword } => change(keyword),
    }
}

fn each_token_of_stmt(statement: &mut Stmt, change: &dyn Fn(&mut Token)) {
    match statement {
        Stmt::Block { statements } => {
            statements.iter_mut().for_each(|s| each_token_of_stmt(s, change))
        }
        Stmt::Class { name, superclass, methods } => {
            change(name);
            superclass.iter_mut().for_each(|e| each_token_of_expr(e, change));
            methods.iter_mut().for_each(|s| each_token_of_stmt(s, change));
        }
        Stmt::Expression { expr } | Stmt::Print { expr } => each_token_of_expr(expr, change),
        Stmt::Function { name, params, body } => {
            change(name);
            params.iter_mut().for_each(|t| change(t));
            body.iter_mut().for_each(|s| each_token_of_stmt(s, change));
        }
        Stmt::If { condition, then_branch, else_branch } => {
            each_token_of_expr(condition, change);
            each_token_of_stmt(then_branch, change);
            else_branch.iter_mut().for_each(|s| each_token_of_stmt(s, change));
        }
        Stmt::Return { keyword, value } => {
            change(keyword);
            value.iter_mut().for_each(|e| each_token_of_expr(e, change));
        }
        Stmt::Var { name, initializer } => {
            change(name);
            initializer.iter_mut().for_each(|e| each_token_of_expr(e, change));
        }
        Stmt::While { condition, body } => {
            each_token_of_expr(condition, change);
            each_token_of_stmt(body, change);
        }
        _ => {}
    }
}

fn bare_token(token: &mut Token) {
    token.column = 0;
}

fn bare_expr(expression: &mut Expr) {
    each_token_of_expr(expression, &bare_token);
}

fn bare_stmt(statement: &mut Stmt) {
    each_token_of_stmt(statement, &bare_token);
}

/// The program without the places of its tokens.
fn placeless(mut program: Vec<Stmt>) -> Vec<Stmt> {
    for statement in program.iter_mut() {
        each_token_of_stmt(statement, &|t: &mut Token| {
            t.line = 0;
            t.column = 0;
        });
    }
    program
}

fn written_literal(value: &Literal) -> String {
    match value {
        Literal::String(text) => format!("\"{}\"", text),
        other => other.text(),
    }
}

/// The expression written out as source text.
fn written_expr(expression: &Expr) -> String {
    match expression {
        Expr::Assign { name, value } => format!("{} = {}", name.lexeme, written_expr(value)),
        Expr::Binary { left, operator, right } | Expr::Logical { left, operator, right } => {
            format!("{} {} {}", written_expr(left), operator.lexeme, written_expr(right))
        }
        Expr::Get { object, name } => format!("{}.{}", written_expr(object), name.lexeme),
        Expr::Grouping { expr } => format!("({})", written_expr(expr)),
        Expr::Literal { value } => written_literal(value),
        Expr::Unary { operator, right } => format!("{} {}", operator.lexeme, written_expr(right)),
        Expr::Variable { name } => name.lexeme.clone(),
        Expr::Call { callee, arguments, .. } => {
            let arguments: Vec<String> = arguments.iter().map(written_expr).collect();
            format!("{}({})", written_expr(callee), arguments.join(", "))
        }
        Expr::SetProperty { object, name, value } => {
            format!("{}.{} = {}", written_expr(object), name.lexeme, written_expr(value))
        }
        Expr::Super { method, .. } => format!("super.{}", method.lexeme),
        Expr::This { .. } => "this".to_string(),
    }
}

fn written_function(name: &Token, params: &[Token], body: &[Stmt]) -> String {
    let params: Vec<&str> = params.iter().map(|p| p.lexeme.as_str()).collect();
    format!("{}({}) {{ {} }}", name.lexeme, params.join(", "), written(body))
}

/// The statement written out as source text.
fn written_stmt(statement: &Stmt) -> String {
    match statement {
        Stmt::Block { statements } => format!("{{ {} }}", written(statements)),
        Stmt::Class { name, superclass, methods } => {
            let parent = match superclass {
                Some(parent) => format!(" < {}", written_expr(parent)),
                None => String::new(),
            };
            let methods: Vec<String> = methods
                .iter()
                .map(|m| match m {
                    Stmt::Function { name, params, body } => written_function(name, params, body),
                    other => panic!("not a method: {:?}", other),
                })
                .collect();
            format!("class {}{} {{ {} }}", name.lexeme, parent, methods.join(" "))
        }
        Stmt::Expression { expr } => format!("{};", written_expr(expr)),
        Stmt::Function { name, params, body } => {
            format!("fun {}", written_function(name, params, body))
        }
        Stmt::If { condition, then_branch, else_branch } => {
            let rest = match &**else_branch {
                Some(other) => format!(" else {}", written_stmt(other)),
                None => String::new(),
            };
            format!("if ({}) {}{}", written_expr(condition), written_stmt(then_branch), rest)
        }
        Stmt::Print { expr } => format!("print {};", written_expr(expr)),
        Stmt::Return { value: Some(value), .. } => format!("return {};", written_expr(value)),
        Stmt::Return { value: None, .. } => "return;".to_string(),
        Stmt::Var { name, initializer: Some(value) } => {
            format!("var {} = {};", name.lexeme, written_expr(value))
        }
        Stmt::Var { name, initializer: None } => format!("var {};", name.lexeme),
        Stmt::While { condition, body } => {
            format!("while ({}) {}", written_expr(condition), written_stmt(body))
        }
        _ => String::new(),
    }
}

/// The program written out as source text, on one line.
fn written(program: &[Stmt]) -> String {
    let statements: Vec<String> = program.iter().map(written_stmt).collect();
    statements.join(" ")
}

/// The program of a source, with the columns of its tokens set to 0, so
/// that it can be compared with a tree written by hand.
fn parse_program(source: &str) -> Result<Vec<Stmt>, Error> {
    let mut program = parser_for(source).parse();
    match &mut program {
        Ok(statements) => statements.iter_mut().for_each(bare_stmt),
        Err(Error::Parse { token, .. }) | Err(Error::Runtime { token, .. }) => bare_token(token),
    }
    program
}

/// The expressions of a source, with the columns of their tokens set to 0.
fn parse_expressions(source: &str) -> Vec<Expr> {
    let mut expressions = parser_for(source).parse_exprs().unwrap();
    expressions.iter_mut().for_each(bare_expr);
    expressions
}

/// The expressions of a source, each as the printer writes it.
fn printed(source: &str) -> Vec<String> {
    let expressions = parser_for(source).parse_exprs().unwrap();
    let mut printer = AstPrinter;
    expressions.into_iter().map(|e| printer.print(e).unwrap()).collect()
}

/// An expression with every operator in front of its operands, in
/// parentheses, so that the grouping shows.
fn shape_of(expression: &Expr) -> String {
    match expression {
        Expr::Assign { name, value } => format!("(= {} {})", name.lexeme, shape_of(value)),
        Expr::Binary { left, operator, right } | Expr::Logical { left, operator, right } => {
            format!("({} {} {})", operator.lexeme, shape_of(left), shape_of(right))
        }
        Expr::Get { object, name } => format!("(. {} {})", shape_of(object), name.lexeme),
        Expr::Grouping { expr } => format!("(group {})", shape_of(expr)),
        Expr::Literal { value } => value.text(),
        Expr::Unary { operator, right } => format!("({} {})", operator.lexeme, shape_of(right)),
        Expr::Variable { name } => name.lexeme.clone(),
        Expr::Call { callee, arguments, .. } => {
            let arguments: String = arguments.iter().map(|a| format!(" {}", shape_of(a))).collect();
            format!("(call {}{})", shape_of(callee), arguments)
        }
        Expr::SetProperty { object, name, value } => {
            format!("(= (. {} {}) {})", shape_of(object), name.lexeme, shape_of(value))
        }
        Expr::Super { method, .. } => format!("(super {})", method.lexeme),
        Expr::This { .. } => "this".to_string(),
    }
}

/// The expressions of a source, each with its grouping shown.
fn shape(source: &str) -> Vec<String> {
    parser_for(source).parse_exprs().unwrap().iter().map(shape_of).collect()
}

/// The message and the spelling of the token a source fails to parse at.
fn failure(source: &str) -> (Message, String) {
    match parse_program(source) {
        Err(Error::Parse { token, message }) => (message, token.lexeme),
        other => panic!("expected a parse error, got {:?}", other),
    }
}

fn word(kind: TokenType, lexeme: &str) -> Token {
    Token { kind, lexeme: lexeme.to_string(), literal: None, line: 1, column: 0 }
}

fn name(lexeme: &str) -> Token {
    Token {
        kind: TokenType::Identifier,
        lexeme: lexeme.to_string(),
        literal: Some(Literal::String(lexeme.to_string())),
        line: 1,
        column: 0,
    }
}

fn number(numeral: &str) -> Expr {
    Expr::Literal { value: Literal::Number(numeral.to_string()) }
}

fn variable(lexeme: &str) -> Expr {
    Expr::Variable { name: name(lexeme) }
}

#[test]
fn precedence_math() {
    assert_eq!(
        parse_program("15 - 3 * 4;"),
        Ok(vec![Stmt::Expression {
            expr: Expr::Binary {
                left: Box::new(number("15")),
                operator: word(TokenType::Minus, "-"),
                right: Box::new(Expr::Binary {
                    left: Box::new(number("3")),
                    operator: word(TokenType::Star, "*"),
                    right: Box::new(number("4")),
                }),
            },
        }])
    );
}

#[test]
fn grouping() {
    assert_eq!(
        parse_program("(5 - 3) * 4;"),
        Ok(vec![Stmt::Expression {
            expr: Expr::Binary {
                left: Box::new(Expr::Grouping {
                    expr: Box::new(Expr::Binary {
                        left: Box::new(number("5")),
                        operator: word(TokenType::Minus, "-"),
                        right: Box::new(number("3")),
                    }),
                }),
                operator: word(TokenType::Star, "*"),
                right: Box::new(number("4")),
            },
        }])
    );
}

#[test]
fn parse_true() {
    assert_eq!(
        parse_program("true;"),
        Ok(vec![Stmt::Expression { expr: Expr::Literal { value: Literal::Bool(true) } }])
    );
}

#[test]
fn parse_false() {
    assert_eq!(
        parse_program("false;"),
        Ok(vec![Stmt::Expression { expr: Expr::Literal { value: Literal::Bool(false) } }])
    );
}

#[test]
fn parse_nil() {
    assert_eq!(
        parse_program("nil;"),
        Ok(vec![Stmt::Expression { expr: Expr::Literal { value: Literal::Nil } }])
    );
}

#[test]
fn multiplication() {
    assert_eq!(printed("-123 * 45.67"), vec!["- 123 * 45.67 "]);
    assert_eq!(shape("-123 * 45.67"), vec!["(* (- 123) 45.67)"]);
}

#[test]
fn binary_operators_group_from_the_left() {
    assert_eq!(shape("1 - 2 - 3"), vec!["(- (- 1 2) 3)"]);
    assert_eq!(shape("8 / 4 / 2 * 3"), vec!["(* (/ (/ 8 4) 2) 3)"]);
    assert_eq!(shape("1 < 2 <= 3 > 4 >= 5"), vec!["(>= (> (<= (< 1 2) 3) 4) 5)"]);
    assert_eq!(shape("1 == 2 != 3"), vec!["(!= (== 1 2) 3)"]);
    assert_eq!(printed("1 - 2 - 3"), vec!["1 - 2 - 3 "]);
    assert_eq!(printed("8 / 4 / 2 * 3"), vec!["8 / 4 / 2 * 3 "]);
    assert_eq!(printed("1 < 2 <= 3 > 4 >= 5"), vec!["1 < 2 <= 3 > 4 >= 5 "]);
    assert_eq!(printed("1 == 2 != 3"), vec!["1 == 2 != 3 "]);
}

#[test]
fn each_level_binds_tighter_than_the_one_before() {
    assert_eq!(
        shape("a = b or c and d == e < f + g * -h.i(j)"),
        vec!["(= a (or b (and c (== d (< e (+ f (* g (- (call (. h i) j)))))))))"]
    );
    assert_eq!(
        printed("a = b or c and d == e < f + g * -h.i(j)"),
        vec!["a = b or c and d == e < f + g * - h . i ( j ) "]
    );
}

#[test]
fn and_is_its_own_level_under_or() {
    assert_eq!(shape("a or b and c"), vec!["(or a (and b c))"]);
    assert_eq!(shape("a and b or c"), vec!["(or (and a b) c)"]);
    assert_eq!(shape("a and b and c"), vec!["(and (and a b) c)"]);
    assert_eq!(shape("a or b or c"), vec!["(or (or a b) c)"]);
    assert_eq!(printed("a or b and c"), vec!["a or b and c "]);
    assert_eq!(printed("a and b or c"), vec!["a and b or c "]);
    assert_eq!(printed("a and b and c"), vec!["a and b and c "]);
    assert_eq!(printed("a or b or c"), vec!["a or b or c "]);
    assert_eq!(
        parse_expressions("a and b"),
        vec![Expr::Logical {
            left: Box::new(variable("a")),
            operator: word(TokenType::And, "and"),
            right: Box::new(variable("b")),
        }]
    );
}

#[test]
fn unary_and_assignment_group_from_the_right() {
    assert_eq!(shape("!!-x"), vec!["(! (! (- x)))"]);
    assert_eq!(shape("a = b = c"), vec!["(= a (= b c))"]);
    assert_eq!(printed("!!-x"), vec!["! ! - x "]);
    assert_eq!(printed("a = b = c"), vec!["a = b = c "]);
    assert_eq!(printed("a.b = c"), vec!["a . b = c "]);
    assert_eq!(
        parse_expressions("a.b = c"),
        vec![Expr::SetProperty {
            object: Box::new(variable("a")),
            name: name("b"),
            value: Box::new(variable("c")),
        }]
    );
}

#[test]
fn calls_and_properties_chain() {
    assert_eq!(
        shape("f(1)(2, 3).g.h()"),
        vec!["(call (. (. (call (call f 1) 2 3) g) h))"]
    );
    assert_eq!(shape("this.x"), vec!["(. this x)"]);
    assert_eq!(printed("f(1)(2, 3).g.h()"), vec!["f ( 1 ) ( 2 , 3 ) . g . h ( ) "]);
    assert_eq!(printed("this.x"), vec!["this . x "]);
    assert_eq!(
        parse_expressions("super.m"),
        vec![Expr::Super { keyword: word(TokenType::Super, "super"), method: name("m") }]
    );
    assert_eq!(
        shape("super.m(\"s\", nil, true, false)"),
        vec!["(call (super m) s nil true false)"]
    );
    assert_eq!(
        printed("super.m(\"s\", nil, true, false)"),
        vec!["super . m ( \"s\" , nil , true , false ) "]
    );
}

#[test]
fn an_expression_is_handed_to_the_method_for_its_kind() {
    let mut printer = AstPrinter;
    let expression = Expr::Grouping { expr: Box::new(variable("v")) };
    assert_eq!(expression.accept(&mut printer), Ok("( v ) ".to_string()));
    assert_eq!(printer.show(&expression), "( v ) ");
}

#[test]
fn what_the_printer_writes_parses_back_to_the_same_tree() {
    let sources = [
        "-123 * 45.67",
        "a = b or c and d == e < f + g * -h.i(j)",
        "f(1)(2, 3).g.h()",
        "super.m(\"s\", nil, true, false)",
        "(1 + 2) * (3 - -4) / !x",
        "a.b.c = d = this.e(\"two words\", 1.5)",
        "x y.z (w)",
    ];
    for source in sources {
        let trees = parse_expressions(source);
        let copies = parse_expressions(source);
        assert!(!trees.is_empty());
        for (tree, copy) in trees.into_iter().zip(copies) {
            let mut printer = AstPrinter;
            let text = printer.print(copy).unwrap();
            assert_eq!(parse_expressions(&text), vec![tree], "{}", source);
        }
    }
}

#[test]
fn a_printed_literal_is_spelled_as_the_scanner_reads_it() {
    let mut printer = AstPrinter;
    assert_eq!(printer.print(Expr::Literal { value: Literal::Nil }), Ok("nil ".to_string()));
    assert_eq!(printer.print(Expr::Literal { value: Literal::Bool(true) }), Ok("true ".to_string()));
    assert_eq!(
        printer.print(Expr::Literal { value: Literal::Bool(false) }),
        Ok("false ".to_string())
    );
    assert_eq!(
        printer.print(Expr::Literal { value: Literal::Number("12.50".to_string()) }),
        Ok("12.50 ".to_string())
    );
    assert_eq!(
        printer.print(Expr::Literal { value: Literal::String("a b".to_string()) }),
        Ok("\"a b\" ".to_string())
    );
}

struct Namer;

impl Visitor<&'static str> for Namer {
    fn visited(&self, _: &Self, _: &Stmt, _: Result<&'static str, Error>) -> bool {
        true
    }
    fn visit_block_stmt(&mut self, _: &Vec<Stmt>) -> Result<&'static str, Error> {
        Ok("block")
    }
    fn visit_expression_stmt(&mut self, _: &Expr) -> Result<&'static str, Error> {
        Ok("expression")
    }
    fn visit_print_stmt(&mut self, _: &Expr) -> Result<&'static str, Error> {
        Ok("print")
    }
    fn visit_var_stmt(&mut self, _: &Token, _: &Option<Expr>) -> Result<&'static str, Error> {
        Ok("var")
    }
    fn visit_if_stmt(
        &mut self,
        _: &Expr,
        _: &Stmt,
        _: &Option<Stmt>,
    ) -> Result<&'static str, Error> {
        Ok("if")
    }
    fn visit_while_stmt(&mut self, _: &Expr, _: &Stmt) -> Result<&'static str, Error> {
        Ok("while")
    }
    fn visit_function_stmt(
        &mut self,
        name: &Token,
        _: &Vec<Token>,
        _: &Vec<Stmt>,
    ) -> Result<&'static str, Error> {
        Err(Error::Runtime { token: name.clone(), message: Message::NotCallable })
    }
    fn visit_return_stmt(&mut self, _: &Token, _: &Option<Expr>) -> Result<&'static str, Error> {
        Ok("return")
    }
    fn visit_class_stmt(
        &mut self,
        _: &Token,
        _: &Option<Expr>,
        _: &Vec<Stmt>,
    ) -> Result<&'static str, Error> {
        Ok("class")
    }
}

#[test]
fn a_statement_is_handed_to_the_method_for_its_kind() {
    let program = parse_program(
        "{} 1; print 1; var a; if (a) a; while (a) a; for (;;) a; return; class C {} fun f() {}",
    )
    .unwrap();
    let mut namer = Namer;
    let names: Vec<Result<&'static str, Error>> =
        program.iter().map(|s| s.accept(&mut namer)).collect();
    assert_eq!(
        names[..9],
        vec![
            Ok("block"),
            Ok("expression"),
            Ok("print"),
            Ok("var"),
            Ok("if"),
            Ok("while"),
            Ok("while"),
            Ok("return"),
            Ok("class"),
        ]
    );
    assert!(matches!(
        &names[9],
        Err(Error::Runtime { token, message: Message::NotCallable }) if token.lexeme == "f"
    ));
}

#[test]
fn statements_have_their_shapes() {
    let program = parse_program(
        "var a = 1; var b; print a; { b; } if (a) b; else a; while (a) b; return; return a;",
    )
    .unwrap();
    assert_eq!(program.len(), 8);
    assert_eq!(program[0], Stmt::Var { name: name("a"), initializer: Some(number("1")) });
    assert_eq!(program[1], Stmt::Var { name: name("b"), initializer: None });
    assert_eq!(program[2], Stmt::Print { expr: variable("a") });
    assert_eq!(
        program[3],
        Stmt::Block { statements: vec![Stmt::Expression { expr: variable("b") }] }
    );
    assert_eq!(
        program[4],
        Stmt::If {
            condition: variable("a"),
            then_branch: Box::new(Stmt::Expression { expr: variable("b") }),
            else_branch: Box::new(Some(Stmt::Expression { expr: variable("a") })),
        }
    );
    assert_eq!(
        program[5],
        Stmt::While {
            condition: variable("a"),
            body: Box::new(Stmt::Expression { expr: variable("b") }),
        }
    );
    assert_eq!(program[6], Stmt::Return { keyword: word(TokenType::Return, "return"), value: None });
    assert_eq!(
        program[7],
        Stmt::Return { keyword: word(TokenType::Return, "return"), value: Some(variable("a")) }
    );
}

#[test]
fn an_else_belongs_to_the_nearest_if() {
    let program = parse_program("if (a) if (b) c; else d;").unwrap();
    assert_eq!(
        program,
        vec![Stmt::If {
            condition: variable("a"),
            then_branch: Box::new(Stmt::If {
                condition: variable("b"),
                then_branch: Box::new(Stmt::Expression { expr: variable("c") }),
                else_branch: Box::new(Some(Stmt::Expression { expr: variable("d") })),
            }),
            else_branch: Box::new(None),
        }]
    );
}

#[test]
fn a_for_loop_is_written_as_a_while_loop() {
    let full = parse_program("for (var i = 0; i < 3; i = i + 1) print i;").unwrap();
    let by_hand =
        parse_program("{ var i = 0; while (i < 3) { print i; i = i + 1; } }").unwrap();
    assert_eq!(full, by_hand);
    let kept = parser_for("for (var i = 0; i < 3; i = i + 1) print i;").parse().unwrap();
    match &kept[0] {
        Stmt::Block { statements } => match &statements[0] {
            Stmt::Var { name, .. } => assert_eq!((name.line, name.column), (1, 10)),
            other => panic!("not a declaration: {:?}", other),
        },
        other => panic!("not a block: {:?}", other),
    }
    let bare = parse_program("for (;;) print i;").unwrap();
    assert_eq!(
        bare,
        vec![Stmt::While {
            condition: Expr::Literal { value: Literal::Bool(true) },
            body: Box::new(Stmt::Print { expr: variable("i") }),
        }]
    );
    let started = parse_program("for (i = 0;;) print i;").unwrap();
    assert_eq!(started, parse_program("{ i = 0; while (true) print i; }").unwrap());
    let stepped = parse_program("for (; i;  i = 1) {}").unwrap();
    assert_eq!(stepped, parse_program("while (i) { {} i = 1; }").unwrap());
}

#[test]
fn functions_and_classes_have_their_shapes() {
    let program = parse_program("fun f(a, b) { return a; } class A < B { init() {} m(x) {} }");
    assert_eq!(
        program,
        Ok(vec![
            Stmt::Function {
                name: name("f"),
                params: vec![name("a"), name("b")],
                body: vec![Stmt::Return {
                    keyword: word(TokenType::Return, "return"),
                    value: Some(variable("a")),
                }],
            },
            Stmt::Class {
                name: name("A"),
                superclass: Some(variable("B")),
                methods: vec![
                    Stmt::Function { name: name("init"), params: vec![], body: vec![] },
                    Stmt::Function { name: name("m"), params: vec![name("x")], body: vec![] },
                ],
            },
        ])
    );
    assert_eq!(
        parse_program("class A {}"),
        Ok(vec![Stmt::Class { name: name("A"), superclass: None, methods: vec![] }])
    );
}

#[test]
fn parsing_twice_gives_the_same_tree() {
    let source = "class A { m() { for (var i = 0; i < 2; i = i + 1) print this.x(i); } }";
    assert_eq!(parser_for(source).parse(), parser_for(source).parse());
}

#[test]
fn every_parse_error_has_its_message() {
    assert_eq!(failure("if a"), (Message::ExpectParenAfterIf, "a".to_string()));
    assert_eq!(failure("if (a b"), (Message::ExpectParenAfterIfCondition, "b".to_string()));
    assert_eq!(failure("return 1 2"), (Message::ExpectSemicolonAfterReturn, "2".to_string()));
    assert_eq!(failure("for x"), (Message::ExpectParenAfterFor, "x".to_string()));
    assert_eq!(
        failure("for (;a b"),
        (Message::ExpectSemicolonAfterLoopCondition, "b".to_string())
    );
    assert_eq!(failure("for (;;a b"), (Message::ExpectParenAfterForClauses, "b".to_string()));
    assert_eq!(failure("print 1"), (Message::ExpectSemicolonAfterValue, "".to_string()));
    assert_eq!(failure("1 2;"), (Message::ExpectSemicolonAfterValue, "2".to_string()));
    assert_eq!(failure("var 1;"), (Message::ExpectVariableName, "1".to_string()));
    assert_eq!(failure("var a = 1 }"), (Message::ExpectSemicolonAfterVariable, "}".to_string()));
    assert_eq!(failure("var a b"), (Message::ExpectSemicolonAfterVariable, "b".to_string()));
    assert_eq!(failure("while a"), (Message::ExpectParenAfterWhile, "a".to_string()));
    assert_eq!(failure("while (a;"), (Message::ExpectParenAfterCondition, ";".to_string()));
    assert_eq!(failure("fun (a) {}"), (Message::ExpectCalleeName(Callee::Function), "(".to_string()));
    assert_eq!(
        failure("fun f a"),
        (Message::ExpectParenAfterCalleeName(Callee::Function), "a".to_string())
    );
    assert_eq!(failure("fun f(1) {}"), (Message::ExpectParameterName, "1".to_string()));
    assert_eq!(failure("fun f(a b) {}"), (Message::ExpectParenAfterParameters, "b".to_string()));
    assert_eq!(
        failure("fun f(a) print a;"),
        (Message::ExpectBraceBeforeBody(Callee::Function), "print".to_string())
    );
    assert_eq!(failure("{ a;"), (Message::ExpectBraceAfterBlock, "".to_string()));
    assert_eq!(failure("class 1 {}"), (Message::ExpectClassName, "1".to_string()));
    assert_eq!(failure("class A < 1 {}"), (Message::ExpectSuperclassName, "1".to_string()));
    assert_eq!(failure("class A a"), (Message::ExpectBraceBeforeClassBody, "a".to_string()));
    assert_eq!(failure("class A { m() {}"), (Message::ExpectBraceAfterClassBody, "".to_string()));
    assert_eq!(
        failure("class A { 1 }"),
        (Message::ExpectCalleeName(Callee::Method), "1".to_string())
    );
    assert_eq!(
        failure("class A { m {} }"),
        (Message::ExpectParenAfterCalleeName(Callee::Method), "{".to_string())
    );
    assert_eq!(
        failure("class A { m() 1 }"),
        (Message::ExpectBraceBeforeBody(Callee::Method), "1".to_string())
    );
    assert_eq!(failure("f(1 2);"), (Message::ExpectParenAfterArguments, "2".to_string()));
    assert_eq!(failure("a.1;"), (Message::ExpectPropertyName, "1".to_string()));
    assert_eq!(failure("super m;"), (Message::ExpectDotAfterSuper, "m".to_string()));
    assert_eq!(failure("super.1;"), (Message::ExpectSuperclassMethodName, "1".to_string()));
    assert_eq!(failure("(1;"), (Message::ExpectParenAfterExpression, ";".to_string()));
    assert_eq!(failure("+ 1;"), (Message::ExpectExpression, "+".to_string()));
    assert_eq!(failure("print"), (Message::ExpectExpression, "".to_string()));
}

#[test]
fn an_error_is_reported_and_returned() {
    let mut parser = parser_for("var a = ;");
    assert!(!parser.had_error());
    let result = parser.parse();
    assert!(parser.had_error());
    assert_eq!(parser.diagnostics.len(), 1);
    assert_eq!(result, Err(parser.diagnostics.pop().unwrap()));
}

#[test]
fn a_wrong_assignment_target_is_reported_and_parsing_goes_on() {
    let mut parser = parser_for("1 + 2 = 3; print 4;");
    let mut program = parser.parse().unwrap();
    program.iter_mut().for_each(bare_stmt);
    assert_eq!(program.len(), 2);
    assert_eq!(
        program[0],
        Stmt::Expression {
            expr: Expr::Binary {
                left: Box::new(number("1")),
                operator: word(TokenType::Plus, "+"),
                right: Box::new(number("2")),
            },
        }
    );
    assert_eq!(
        parser.diagnostics,
        vec![Error::Parse {
            token: Token { column: 7, ..word(TokenType::Equal, "=") },
            message: Message::InvalidAssignmentTarget,
        }]
    );
    assert_eq!(parser.diagnostics[0].report(), "[line 1] Error at '=': Invalid assignment target.");
}

#[test]
fn too_many_arguments_are_reported_and_parsing_goes_on() {
    let arguments = |count: usize| vec!["1"; count].join(", ");
    let mut at_limit = parser_for(&format!("f({});", arguments(255)));
    assert!(at_limit.parse().is_ok());
    assert!(at_limit.diagnostics.is_empty());
    let mut over = parser_for(&format!("f({}); print 2;", arguments(257)));
    let program = over.parse().unwrap();
    assert_eq!(program.len(), 2);
    match &program[0] {
        Stmt::Expression { expr: Expr::Call { arguments, .. } } => assert_eq!(arguments.len(), 257),
        other => panic!("not a call: {:?}", other),
    }
    let messages: Vec<Message> = over
        .diagnostics
        .iter()
        .map(|e| match e {
            Error::Parse { message, .. } => *message,
            Error::Runtime { message, .. } => *message,
        })
        .collect();
    assert_eq!(messages, vec![Message::TooManyArguments, Message::TooManyArguments]);
}

#[test]
fn too_many_parameters_are_reported_and_parsing_goes_on() {
    let names: Vec<String> = (0..256).map(|i| format!("p{}", i)).collect();
    let mut parser = parser_for(&format!("fun f({}) {{}}", names.join(", ")));
    let program = parser.parse().unwrap();
    match &program[0] {
        Stmt::Function { params, .. } => assert_eq!(params.len(), 256),
        other => panic!("not a function: {:?}", other),
    }
    assert_eq!(
        parser.diagnostics,
        vec![Error::Parse {
            token: Token {
                kind: TokenType::Identifier,
                lexeme: "p255".to_string(),
                literal: Some(Literal::String("p255".to_string())),
                line: 1,
                column: 1427,
            },
            message: Message::TooManyParameters,
        }]
    );
}

#[test]
fn after_an_error_the_parser_stands_at_the_next_statement() {
    let mut parser = parser_for("var = 1; print 2; print ); 3 + ; fun f() {} print 4;");
    assert!(matches!(
        parser.parse(),
        Err(Error::Parse { message: Message::ExpectVariableName, .. })
    ));
    assert!(matches!(
        parser.parse(),
        Err(Error::Parse { message: Message::ExpectExpression, .. })
    ));
    assert!(matches!(
        parser.parse(),
        Err(Error::Parse { message: Message::ExpectExpression, .. })
    ));
    let mut rest = parser.parse().unwrap();
    rest.iter_mut().for_each(bare_stmt);
    assert_eq!(
        rest,
        vec![
            Stmt::Function { name: name("f"), params: vec![], body: vec![] },
            Stmt::Print { expr: number("4") },
        ]
    );
    assert_eq!(parser.diagnostics.len(), 3);
    assert_eq!(parser.parse(), Ok(vec![]));
}

#[test]
fn recovery_stops_before_a_word_that_begins_a_statement() {
    for word in ["class A {}", "fun f() {}", "var a;", "for (;;) 1;", "if (1) 2;", "while (1) 2;", "print 1;", "return;"] {
        let mut parser = parser_for(&format!("(1 2 3 {}", word));
        assert!(parser.parse().is_err());
        let rest = parser.parse().unwrap();
        assert_eq!(rest.len(), 1, "after recovery before `{}`", word);
    }
}

#[test]
fn an_error_at_the_end_is_reported_at_end() {
    match parse_program("print 1 +") {
        Err(error) => {
            assert_eq!(error.report(), "[line 1] Error at end: Expected expression");
            assert_eq!(error.describe(), "ParseError at token: eof, message: Expected expression");
        }
        Ok(_) => panic!("parsed"),
    }
}

#[test]
fn expressions_are_parsed_one_after_another() {
    assert_eq!(shape("(4) 1 2 -3"), vec!["(group 4)", "1", "(- 2 3)"]);
    assert_eq!(printed("(4) 1 2 -3"), vec!["( 4 ) ", "1 ", "2 - 3 "]);
    assert_eq!(printed("1 \"two\" three"), vec!["1 ", "\"two\" ", "three "]);
    assert_eq!(printed(""), Vec::<String>::new());
    let mut parser = parser_for("1 + ; 2");
    assert!(matches!(
        parser.parse_exprs(),
        Err(Error::Parse { message: Message::ExpectExpression, .. })
    ));
    assert_eq!(parser.current, 2);
}

#[test]
fn a_program_written_out_parses_back_to_the_same_tree() {
    let sources = [
        "print 1 + 2 * 3;",
        "var a = (1 + 2) * -3 / 4 - !true;  // grouped\nprint a == nil or a != 2 and a <= 3;",
        "fun f(a, b) {\n  if (a < b) return a; else if (a > b) { return b; }\n  return;\n}\nprint f(1,\n 2)(3).g.h = \"text with spaces\";",
        "class A < B {\n  init(x) { this.x = x; super.init(); }\n  m() { return super.m; }\n}\nclass C {}\nvar c = C();",
        "for (var i = 0; i < 3; i = i + 1) print i;\nfor (;;) {}\nwhile (a.b.c(1)(2)) a = b = c;",
        "{ { } var s = \"\"; s.t.u = v = w.x; }",
    ];
    for source in sources {
        let first = parser_for(source).parse().unwrap();
        let text = written(&first);
        let second = parser_for(&text).parse().unwrap();
        assert_eq!(written(&second), text);
        assert_eq!(placeless(first), placeless(second), "written as: {}", text);
    }
}
