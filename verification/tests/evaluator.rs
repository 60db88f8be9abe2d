use treelox::error::Message;
use treelox::expr::Expr;
use treelox::heap::Rendered;
use treelox::interpreter::Action;
use treelox::interpreter::Focus;
use treelox::interpreter::Interpreter;
use treelox::interpreter::CLOCK;
use treelox::parser::Parser;
use treelox::resolver::Resolver;
use treelox::scanner::Scanner;
use treelox::stmt::Stmt;
use treelox::token::Literal;
use treelox::token::Object;
use treelox::token::Token;
use treelox::token::TokenType;

fn parse(source: &str) -> Vec<Stmt> {
    let mut scanner = Scanner::new(source.to_string());
    let tokens = scanner.scan_tokens();
    assert!(scanner.errors.is_empty());
    Parser::new(tokens).parse().unwrap()
}

fn shown(interpreter: &Interpreter, value: Object) -> String {
    match interpreter.heap.render(value) {
        Rendered::Text(text) => text,
        Rendered::Number(bits) => format!("{}", f64::from_bits(bits)),
    }
}

fn computed(operator: TokenType, left: u64, right: u64) -> u64 {
    let (a, b) = (f64::from_bits(left), f64::from_bits(right));
    let result = match operator {
        TokenType::Plus => a + b,
        TokenType::Minus => a - b,
        TokenType::Star => a * b,
        TokenType::Slash => a / b,
        other => panic!("not arithmetic: {:?}", other),
    };
    result.to_bits()
}

/// Drives the machine until it is done or fails, giving it `fuel` steps
/// at a time. Returns the message of the failure, if any.
fn drive(interpreter: &mut Interpreter, output: &mut Vec<String>, fuel: usize) -> Option<String> {
    let mut rounds = 0;
    loop {
        rounds += 1;
        assert!(rounds < 2_000_000, "the script does not end");
        match interpreter.run(fuel) {
            Action::Continue => {}
            Action::Finished => return None,
            Action::Print(value) => output.push(shown(interpreter, value)),
            Action::ParseNumber(numeral) => {
                let number: f64 = numeral.parse().unwrap();
                interpreter.supply(Object::Number(number.to_bits()));
            }
            Action::Arithmetic { operator, left, right } => {
                interpreter.supply(Object::Number(computed(operator, left, right)));
            }
            Action::Native { id, argument_count } => {
                assert_eq!((id, argument_count), (CLOCK, 0));
                interpreter.supply(Object::Number(86_400_000.0f64.to_bits()));
            }
            Action::Failed(fault) => {
                let (left, right) = fault.message.operands();
                let left = left.map(|o| shown(interpreter, o)).unwrap_or_default();
                let right = right.map(|o| shown(interpreter, o)).unwrap_or_default();
                return Some(fault.detailed_report(&left, &right));
            }
        }
    }
}

/// Runs a script that the resolver finds nothing wrong with: what it
/// printed, and the report of its failure if it failed.
fn run(source: &str) -> (Vec<String>, Option<String>) {
    let statements = parse(source);
    let mut interpreter = Interpreter::new();
    let mut resolver = Resolver::new();
    resolver.resolve_stmts(&mut interpreter, &statements);
    assert!(!resolver.had_error);
    interpreter.interpret(&statements);
    let mut output = vec![];
    let failure = drive(&mut interpreter, &mut output, 1000);
    (output, failure)
}

fn prints(source: &str) -> Vec<String> {
    let (output, failure) = run(source);
    assert_eq!(failure, None);
    output
}

fn fails(source: &str) -> String {
    run(source).1.expect("the script should fail")
}

#[test]
fn arithmetic_follows_precedence() {
    assert_eq!(prints("print 1 + 2 * 3;"), vec!["7"]);
    assert_eq!(prints("print (1 + 2) * 3 - 10 / 4;"), vec!["6.5"]);
    assert_eq!(prints("print -(3 - 5) * -2;"), vec!["-4"]);
}

#[test]
fn a_closure_keeps_the_binding_it_was_resolved_to() {
    let source =
        "var a = \"global\";\n{ fun show() { print a; } show(); var a = \"block\"; show(); }";
    assert_eq!(prints(source), vec!["global", "global"]);
}

#[test]
fn super_calls_the_method_of_the_superclass() {
    let source = "class A { m() { print \"A\"; } }\nclass B < A { m() { super.m(); print \"B\"; } }\nB().m();";
    assert_eq!(prints(source), vec!["A", "B"]);
}

#[test]
fn methods_that_return_this_chain() {
    let source = "class Counter { init() { this.n = 0; } bump() { this.n = this.n + 1; return this; } }\nvar c = Counter(); c.bump().bump(); print c.n;";
    assert_eq!(prints(source), vec!["2"]);
}

#[test]
fn a_bare_return_yields_nil() {
    assert_eq!(prints("fun f() { return; } print f();"), vec!["nil"]);
    assert_eq!(prints("fun f() {} print f();"), vec!["nil"]);
}

#[test]
fn division_by_zero_fails() {
    let (output, failure) = run("print 1 / 0;");
    assert!(output.is_empty());
    assert_eq!(failure, Some("Zero division error. Tried to divide 1 by 0.\n[line 1]".to_string()));
    assert_eq!(
        fails("var z = 0; print 2.5 / -z;"),
        "Zero division error. Tried to divide 2.5 by 0.\n[line 1]"
    );
    assert_eq!(prints("print 0 / 5;"), vec!["0"]);
}

#[test]
fn or_does_not_look_at_its_right_side_when_the_left_is_truthy() {
    let source = "fun loud(v) { print \"called\"; return v; }\n\
                  print 1 or loud(2);\n\
                  print nil or loud(2);\n\
                  print false or loud(false);\n\
                  print \"\" or loud(3);";
    assert_eq!(prints(source), vec!["1", "called", "2", "called", "false", ""]);
}

#[test]
fn and_does_not_look_at_its_right_side_when_the_left_is_not_truthy() {
    let source = "fun loud(v) { print \"called\"; return v; }\n\
                  print nil and loud(2);\n\
                  print false and loud(2);\n\
                  print 0 and loud(2);\n\
                  print true and loud(nil);";
    assert_eq!(prints(source), vec!["nil", "false", "called", "2", "called", "nil"]);
}

#[test]
fn and_binds_tighter_than_or_when_run() {
    assert_eq!(prints("print true or false and false;"), vec!["true"]);
    assert_eq!(prints("print false and true or \"x\";"), vec!["x"]);
    assert_eq!(prints("print nil or false and 1;"), vec!["false"]);
}

#[test]
fn a_closure_shares_the_variable_it_captured() {
    let source = "var get; var set;\n\
                  { var n = 1;\n\
                    fun g() { return n; }\n\
                    fun s(v) { n = v; }\n\
                    get = g; set = s; }\n\
                  print get(); set(5); print get(); set(\"six\"); print get();";
    assert_eq!(prints(source), vec!["1", "5", "six"]);
}

#[test]
fn each_turn_of_a_loop_has_a_scope_of_its_own() {
    let source = "var first; var second;\n\
                  var i = 0;\n\
                  while (i < 2) {\n\
                    var mine = i;\n\
                    fun show() { return mine; }\n\
                    fun bump() { mine = mine + 10; }\n\
                    if (i == 0) { first = show; bump(); } else { second = show; }\n\
                    i = i + 1;\n\
                  }\n\
                  print first(); print second();";
    assert_eq!(prints(source), vec!["10", "1"]);
}

#[test]
fn a_counter_made_by_a_function_counts_on_its_own() {
    let source = "fun make() { var n = 0; fun next() { n = n + 1; return n; } return next; }\n\
                  var a = make(); var b = make();\n\
                  print a(); print a(); print b(); print a();";
    assert_eq!(prints(source), vec!["1", "2", "1", "3"]);
}

#[test]
fn a_method_is_looked_up_on_the_class_and_then_upward() {
    let source = "class A { a() { return \"A.a\"; } b() { return \"A.b\"; } c() { return \"A.c\"; } }\n\
                  class B < A { b() { return \"B.b\"; } c() { return \"B.c\"; } }\n\
                  class C < B { c() { return \"C.c\"; } }\n\
                  var x = C();\n\
                  print x.a(); print x.b(); print x.c();\n\
                  print B().c(); print A().c();";
    assert_eq!(prints(source), vec!["A.a", "B.b", "C.c", "B.c", "A.c"]);
}

#[test]
fn super_means_the_superclass_of_the_class_the_method_is_written_in() {
    let source = "class A { name() { return \"A\"; } }\n\
                  class B < A { name() { return \"B\"; } up() { return super.name(); } }\n\
                  class C < B { name() { return \"C\"; } }\n\
                  print C().up();\n\
                  print C().name();";
    assert_eq!(prints(source), vec!["A", "C"]);
}

#[test]
fn a_method_reached_through_super_has_the_same_receiver() {
    let source = "class A { who() { return this.tag; } }\n\
                  class B < A { init() { this.tag = \"b\"; } who() { return \"via \" + super.who(); } }\n\
                  print B().who();";
    assert_eq!(prints(source), vec!["via b"]);
}

#[test]
fn super_with_a_method_the_superclass_lacks_fails() {
    let source = "class A {}\nclass B < A { m() { return\nsuper.gone(); } }\nB().m();";
    assert_eq!(fails(source), "Undefined property 'gone'.\n[line 3]");
}

#[test]
fn calling_a_class_yields_an_instance_of_it() {
    assert_eq!(prints("class A {} print A(); print A;"), vec!["A instance", "A"]);
    assert_eq!(
        prints("class P { init(x, y) { this.x = x; this.y = y; } } var p = P(1, 2); print p.x + p.y; print p;"),
        vec!["3", "P instance"]
    );
}

#[test]
fn an_initializer_that_returns_early_still_yields_the_instance() {
    let source = "class A { init(stop) { this.a = 1; if (stop) return; this.a = 2; } }\n\
                  var early = A(true); var late = A(false);\n\
                  print early; print early.a; print late.a;";
    assert_eq!(prints(source), vec!["A instance", "1", "2"]);
}

#[test]
fn an_initializer_called_by_name_yields_its_receiver() {
    let source = "class A { init() { this.n = 0; } }\n\
                  var a = A(); a.n = 7;\n\
                  var again = a.init();\n\
                  print again == a; print a.n;";
    assert_eq!(prints(source), vec!["true", "0"]);
}

#[test]
fn returning_a_value_from_an_initializer_is_found_before_running() {
    let statements = parse("class A { init() { return 1; } }");
    let mut interpreter = Interpreter::new();
    let mut resolver = Resolver::new();
    resolver.resolve_stmts(&mut interpreter, &statements);
    assert!(resolver.had_error);
    assert_eq!(resolver.diagnostics.len(), 1);
    assert_eq!(resolver.diagnostics[0].message, Message::ReturnValueFromInitializer);
}

#[test]
fn a_variable_that_is_nowhere_fails_when_it_is_reached() {
    assert_eq!(fails("print 1;\nprint missing;"), "Undefined variable 'missing'.\n[line 2]");
    assert_eq!(fails("missing = 1;"), "Undefined variable 'missing'.\n[line 1]");
    assert_eq!(fails("fun f() { return nowhere; }\n\nf();"), "Undefined variable 'nowhere'.\n[line 1]");
    assert_eq!(prints("if (false) print missing; print \"fine\";"), vec!["fine"]);
    assert_eq!(prints("fun f() { return later; } var later = 3; print f();"), vec!["3"]);
}

#[test]
fn operators_refuse_operands_they_cannot_take() {
    assert_eq!(fails("print -\"a\";"), "invalid unary expr: -a\n[line 1]");
    assert_eq!(fails("print -nil;"), "invalid unary expr: -nil\n[line 1]");
    for operator in ["-", "*", "/", "<", "<=", ">", ">="] {
        assert_eq!(
            fails(&format!("print \"a\" {} 1;", operator)),
            format!("Operands must be numbers. Was: a {} 1\n[line 1]", operator)
        );
        assert_eq!(
            fails(&format!("print 1\n{} nil;", operator)),
            format!("Operands must be numbers. Was: 1 {} nil\n[line 2]", operator)
        );
    }
    assert_eq!(
        fails("print 1 + \"a\";"),
        "Operands must be two numbers or two strings. Was: 1 + a\n[line 1]"
    );
    assert_eq!(
        fails("print \"a\" + 1.5;"),
        "Operands must be two numbers or two strings. Was: a + 1.5\n[line 1]"
    );
    assert_eq!(
        fails("fun f() {} class C {} print f + C();"),
        "Operands must be two numbers or two strings. Was: <fn f> + C instance\n[line 1]"
    );
    assert_eq!(
        fails("print nil + true;"),
        "Operands must be two numbers or two strings. Was: nil + true\n[line 1]"
    );
    assert_eq!(fails("print \"a\" / 0;"), "Operands must be numbers. Was: a / 0\n[line 1]");
}

#[test]
fn calls_check_what_is_called_and_how() {
    assert_eq!(fails("\"text\"();"), "Can only call functions and classes.\n[line 1]");
    assert_eq!(fails("nil(1, 2);"), "Can only call functions and classes.\n[line 1]");
    assert_eq!(fails("class A {} A()();"), "Can only call functions and classes.\n[line 1]");
    assert_eq!(fails("fun f(a, b) {} f(1);"), "Expected 2 arguments but got 1.\n[line 1]");
    assert_eq!(fails("fun f() {}\nf(1, 2,\n3);"), "Expected 0 arguments but got 3.\n[line 3]");
    assert_eq!(fails("clock(1);"), "Expected 0 arguments but got 1.\n[line 1]");
    assert_eq!(fails("class A { init(a) {} } A();"), "Expected 1 arguments but got 0.\n[line 1]");
    assert_eq!(fails("class A {} A(1);"), "Expected 0 arguments but got 1.\n[line 1]");
    assert_eq!(
        fails("class A { init(a) {} } class B < A {} B(1, 2);"),
        "Expected 1 arguments but got 2.\n[line 1]"
    );
}

#[test]
fn the_callee_and_the_arguments_are_evaluated_from_the_left() {
    let source = "fun say(v) { print v; return v; }\n\
                  fun add(a, b, c) { return a + b + c; }\n\
                  fun pick() { print \"callee\"; return add; }\n\
                  print pick()(say(1), say(2), say(3));";
    assert_eq!(prints(source), vec!["callee", "1", "2", "3", "6"]);
    assert_eq!(fails("fun say(v) { print v; } missing(say(1));"), "Undefined variable 'missing'.\n[line 1]");
}

#[test]
fn arguments_of_nested_calls_do_not_mix() {
    let source = "fun sub(a, b) { return a - b; }\n\
                  print sub(sub(10, 1), sub(sub(5, 1), sub(2, 1)));";
    assert_eq!(prints(source), vec!["6"]);
}

#[test]
fn properties_are_for_instances_only() {
    assert_eq!(fails("print 1 .x;"), "Only instances have properties.\n[line 1]");
    assert_eq!(fails("print \"s\".length;"), "Only instances have properties.\n[line 1]");
    assert_eq!(fails("class A {} print A.x;"), "Only instances have properties.\n[line 1]");
    assert_eq!(fails("var a = nil; a.x = 1;"), "Only instances have fields.\n[line 1]");
    assert_eq!(fails("fun f() {} f.x = 1;"), "Only instances have fields.\n[line 1]");
    assert_eq!(fails("class A {} print A().gone;"), "Undefined property 'gone'.\n[line 1]");
}

#[test]
fn a_write_to_a_property_is_worth_the_value_written() {
    assert_eq!(prints("class A {} var a = A(); print a.x = 3; print a.x;"), vec!["3", "3"]);
    assert_eq!(prints("var v; print v = \"s\"; { var w; print w = v; }"), vec!["s", "s"]);
}

#[test]
fn a_field_shadows_a_method() {
    let source = "class A { m() { return \"method\"; } }\n\
                  var a = A(); print a.m();\n\
                  a.m = \"field\"; print a.m;\n\
                  var b = A(); print b.m();";
    assert_eq!(prints(source), vec!["method", "field", "method"]);
}

#[test]
fn instances_are_shared_not_copied() {
    let source = "class Box {} var a = Box(); var b = a; b.v = 1; print a.v;\n\
                  fun fill(box) { box.v = 2; } fill(a); print b.v;";
    assert_eq!(prints(source), vec!["1", "2"]);
}

#[test]
fn a_method_taken_off_its_instance_keeps_its_receiver() {
    let source = "class A { init(n) { this.n = n; } get() { return this.n; } }\n\
                  var m = A(4).get; var other = A(5);\n\
                  other.borrowed = m;\n\
                  print m(); print other.borrowed();";
    assert_eq!(prints(source), vec!["4", "4"]);
}

#[test]
fn a_superclass_must_be_a_class() {
    assert_eq!(fails("var NotAClass = 1;\nclass A <\nNotAClass {}"), "Superclass must be a class.\n[line 3]");
    assert_eq!(fails("fun f() {} class A < f {}"), "Superclass must be a class.\n[line 1]");
}

#[test]
fn a_class_can_name_itself_in_its_methods() {
    let source = "class Node { init(n) { this.n = n; } child() { return Node(this.n + 1); } }\n\
                  print Node(1).child().child().n;";
    assert_eq!(prints(source), vec!["3"]);
}

#[test]
fn values_of_different_kinds_are_never_equal() {
    let source = "print nil == nil; print nil == false; print 0 == false; print \"\" == nil;\n\
                  print 1 == 1; print 1 == 2; print \"a\" == \"a\"; print \"a\" == \"b\";\n\
                  print \"1\" == 1; print true == true; print true != false; print nil != nil;";
    assert_eq!(
        prints(source),
        vec![
            "true", "false", "false", "false", "true", "false", "true", "false", "false", "true",
            "true", "false"
        ]
    );
}

#[test]
fn text_is_compared_by_content_and_the_rest_by_identity() {
    let source = "var a = \"ab\"; var b = \"a\" + \"b\"; print a == b;\n\
                  fun f() {} fun g() {} print f == f; print f == g;\n\
                  class A {} var x = A(); var y = A(); print x == x; print x == y; print A == A;\n\
                  print x.m == x.m;";
    let source = source.replace("print x.m == x.m;", "");
    assert_eq!(prints(&source), vec!["true", "true", "false", "true", "false", "true"]);
    assert_eq!(
        prints("class A { m() {} } var x = A(); print x.m == x.m; var m = x.m; print m == m;"),
        vec!["false", "true"]
    );
}

#[test]
fn a_number_that_is_not_a_number_equals_nothing() {
    let source = "var big = 100000000000000000000;\n\
                  var i = 0; while (i < 4) { big = big * big; i = i + 1; }\n\
                  var nan = big - big;\n\
                  print nan == nan; print nan != nan; print nan < 1; print nan >= nan; print big == big;";
    assert_eq!(prints(source), vec!["false", "true", "false", "false", "true"]);
}

#[test]
fn numbers_compare_as_numbers() {
    let source = "print 1 < 2; print 2 < 1; print 2 <= 2; print 3 > 2; print 2 >= 3;\n\
                  print -1 < 1; print -2 < -1; print -1 < -2; print 0 == -0; print 0 < -0;\n\
                  print 0.5 < 0.25; print -0.5 < 0.25; print 1 >= 1;";
    assert_eq!(
        prints(source),
        vec![
            "true", "false", "true", "true", "false", "true", "true", "false", "true", "false",
            "false", "true", "true"
        ]
    );
}

#[test]
fn only_nil_and_false_are_not_truthy() {
    let source = "fun truth(v) { if (v) return \"yes\"; else return \"no\"; }\n\
                  print truth(nil); print truth(false); print truth(true); print truth(0);\n\
                  print truth(\"\"); print truth(truth); print !nil; print !0; print !!\"\";";
    assert_eq!(
        prints(source),
        vec!["no", "no", "yes", "yes", "yes", "yes", "true", "false", "true"]
    );
    assert!(Object::Number(0).is_truthy());
    assert!(Object::String(0).is_truthy());
    assert!(Object::Bool(true).is_truthy());
    assert!(Object::Callable(3).is_truthy());
    assert!(Object::Class(0).is_truthy());
    assert!(Object::Instance(0).is_truthy());
    assert!(!Object::Bool(false).is_truthy());
    assert!(!Object::Nil.is_truthy());
}

#[test]
fn values_print_in_their_forms() {
    let source = "fun named() {} class Thing {}\n\
                  print 7; print 2.5; print -0.125; print 1e3; print \"raw \\\"text\"; print true; print false;\n\
                  print nil; print named; print clock; print Thing; print Thing();";
    let source = source.replace("print 1e3; ", "").replace("\\\"", "'");
    assert_eq!(
        prints(&source),
        vec![
            "7",
            "2.5",
            "-0.125",
            "raw 'text",
            "true",
            "false",
            "nil",
            "<fn named>",
            "<native function>",
            "Thing",
            "Thing instance"
        ]
    );
}

#[test]
fn text_is_joined_by_plus() {
    assert_eq!(prints("print \"a\" + \"b\" + \"\" + \"cd\";"), vec!["abcd"]);
    assert_eq!(prints("var s = \"x\"; s = s + s; s = s + s; print s;"), vec!["xxxx"]);
}

#[test]
fn statements_run_in_order_with_their_scopes() {
    let source = "var a = 1; { var a = 2; { var a = 3; print a; } print a; } print a;\n\
                  var b; print b; b = a + 1; print b;";
    assert_eq!(prints(source), vec!["3", "2", "1", "nil", "2"]);
}

#[test]
fn loops_run_while_their_condition_holds() {
    assert_eq!(
        prints("var i = 0; while (i < 3) { print i; i = i + 1; } print \"done\";"),
        vec!["0", "1", "2", "done"]
    );
    assert_eq!(prints("for (var i = 3; i > 0; i = i - 1) print i;"), vec!["3", "2", "1"]);
    assert_eq!(
        prints("{ var sum = 0;\nfor (var i = 1; i <= 4; i = i + 1)\n{ sum = sum + i; }\nprint sum; }"),
        vec!["10"]
    );
    assert_eq!(prints("while (false) print 1; print 2;"), vec!["2"]);
}

#[test]
fn uses_of_one_name_on_one_line_are_places_of_their_own() {
    let apart = "{ var a = \"outer\"; {\nprint a;\nvar a = \"inner\";\nprint a; } }";
    assert_eq!(prints(apart), vec!["outer", "inner"]);
    let together = "{ var a = \"outer\"; { print a; var a = \"inner\"; print a; } }";
    assert_eq!(prints(together), vec!["outer", "inner"]);
    assert_eq!(prints("for (var i = 0; i < 3; i = i + 1) print i;"), vec!["0", "1", "2"]);
    assert_eq!(
        prints("fun f(n) { { { if (n > 1) { return n * f(n - 1); } } } return n; } print f(5);"),
        vec!["120"]
    );
}

#[test]
fn a_failing_condition_fails_the_loop() {
    assert_eq!(fails("while (missing) print 1;"), "Undefined variable 'missing'.\n[line 1]");
    assert_eq!(
        fails("if (1 < nil) print 1; else print 2;"),
        "Operands must be numbers. Was: 1 < nil\n[line 1]"
    );
}

#[test]
fn return_leaves_every_loop_and_block_of_its_function() {
    let source = "fun find() { var i = 0; while (true) { {\n\
                  if (i == 3) {\n\
                  return i; } }\n\
                  i = i + 1; } }\n\
                  var before = \"kept\"; print find(); print before;";
    assert_eq!(prints(source), vec!["3", "kept"]);
}

#[test]
fn functions_can_call_themselves() {
    let source = "fun fib(n) { if (n < 2) return n; return fib(n - 1) + fib(n - 2); }\n\
                  print fib(15);";
    assert_eq!(prints(source), vec!["610"]);
}

#[test]
fn the_clock_is_asked_of_the_embedding_program() {
    assert_eq!(prints("print clock() / 1000;"), vec!["86400"]);
    let statements = parse("clock();");
    let mut interpreter = Interpreter::new();
    interpreter.interpret(&statements);
    let mut seen = false;
    loop {
        match interpreter.run(10) {
            Action::Native { id, argument_count } => {
                assert_eq!(id, CLOCK);
                assert_eq!(argument_count, 0);
                assert!(matches!(interpreter.run(10), Action::Native { .. }));
                seen = true;
                interpreter.supply(Object::Nil);
            }
            Action::Finished => break,
            Action::Continue => {}
            _ => panic!("the script asks for nothing else"),
        }
    }
    assert!(seen);
}

#[test]
fn the_machine_can_be_stepped_in_any_portions() {
    let source = "class A { init(n) { this.n = n; } twice() { return this.n * 2; } }\n\
                  var t = 0; for (var i = 0; i < 5; i = i + 1) {\n\
                  t = t + A(i).twice(); print t; }";
    let statements = parse(source);
    let mut outputs = vec![];
    for fuel in [1, 2, 7, 1000] {
        let mut interpreter = Interpreter::new();
        let mut resolver = Resolver::new();
        resolver.resolve_stmts(&mut interpreter, &statements);
        interpreter.interpret(&statements);
        let mut output = vec![];
        assert_eq!(drive(&mut interpreter, &mut output, fuel), None);
        outputs.push(output);
    }
    assert_eq!(outputs[0], vec!["0", "2", "6", "12", "20"]);
    assert!(outputs.iter().all(|o| *o == outputs[0]));
    let mut fresh = Interpreter::new();
    assert!(matches!(fresh.run(0), Action::Continue));
    assert!(matches!(fresh.run(5), Action::Finished));
    assert!(matches!(fresh.step(), Action::Finished));
}

#[test]
fn a_value_that_was_not_asked_for_is_ignored() {
    let statements = parse("print 1 + 1;");
    let mut interpreter = Interpreter::new();
    interpreter.interpret(&statements);
    interpreter.supply(Object::Bool(true));
    assert!(matches!(interpreter.focus, Focus::Value(Object::Nil)));
    let mut output = vec![];
    assert_eq!(drive(&mut interpreter, &mut output, 3), None);
    assert_eq!(output, vec!["2"]);
}

#[test]
fn after_a_failure_the_machine_is_at_rest_among_the_globals() {
    let first = parse("var kept = 1; { var inner = 2; { fun f() { return 1 / 0; } kept = 3; f(); } }");
    let second = parse("print kept; var again = kept + 1; print again;");
    let mut interpreter = Interpreter::new();
    let mut resolver = Resolver::new();
    resolver.resolve_stmts(&mut interpreter, &first);
    resolver.resolve_stmts(&mut interpreter, &second);
    interpreter.interpret(&first);
    let mut output = vec![];
    assert_eq!(
        drive(&mut interpreter, &mut output, 50),
        Some("Zero division error. Tried to divide 1 by 0.\n[line 1]".to_string())
    );
    assert!(interpreter.frames.is_empty());
    assert!(interpreter.operands.is_empty());
    assert_eq!(interpreter.environment, interpreter.globals);
    assert!(matches!(interpreter.step(), Action::Finished));
    interpreter.interpret(&second);
    assert_eq!(drive(&mut interpreter, &mut output, 50), None);
    assert_eq!(output, vec!["3", "4"]);
}

#[test]
fn expressions_are_evaluated_and_their_values_printed() {
    let mut scanner = Scanner::new("1 + 2 \"a\" + \"b\" nil clock !true".to_string());
    let expressions = Parser::new(scanner.scan_tokens()).parse_exprs().unwrap();
    let mut interpreter = Interpreter::new();
    interpreter.interpret_expressions(&expressions);
    let mut output = vec![];
    assert_eq!(drive(&mut interpreter, &mut output, 4), None);
    assert_eq!(output, vec!["3", "ab", "nil", "<native function>", "false"]);
    let mut scanner = Scanner::new("1 missing 3".to_string());
    let expressions = Parser::new(scanner.scan_tokens()).parse_exprs().unwrap();
    interpreter.interpret_expressions(&expressions);
    let mut output = vec![];
    assert_eq!(
        drive(&mut interpreter, &mut output, 4),
        Some("Undefined variable 'missing'.\n[line 1]".to_string())
    );
    assert_eq!(output, vec!["1"]);
    let nothing: Vec<Expr> = vec![];
    interpreter.interpret_expressions(&nothing);
    assert_eq!(drive(&mut interpreter, &mut output, 4), None);
}

#[test]
fn an_operator_the_language_does_not_have_fails() {
    let comma = Token {
        kind: TokenType::Comma,
        lexeme: ",".to_string(),
        literal: None,
        line: 4,
        column: 1,
    };
    let statements = vec![Stmt::Expression {
        expr: Expr::Binary {
            left: Box::new(Expr::Literal { value: Literal::Nil }),
            operator: comma.clone(),
            right: Box::new(Expr::Literal { value: Literal::Nil }),
        },
    }];
    let mut interpreter = Interpreter::new();
    interpreter.interpret(&statements);
    let mut output = vec![];
    assert_eq!(
        drive(&mut interpreter, &mut output, 10),
        Some("Invalid expression error. Was: nil , nil\n[line 4]".to_string())
    );
    let unary = vec![Stmt::Expression {
        expr: Expr::Unary { operator: comma, right: Box::new(Expr::Literal { value: Literal::Nil }) },
    }];
    interpreter.interpret(&unary);
    assert_eq!(
        drive(&mut interpreter, &mut output, 10),
        Some("invalid unary expr: ,nil\n[line 4]".to_string())
    );
}

#[test]
fn a_value_that_names_no_slot_fails_where_it_is_used() {
    let statements = parse("var s = clock();\nprint s + \"a\";");
    let mut interpreter = Interpreter::new();
    interpreter.interpret(&statements);
    let failure = loop {
        match interpreter.run(100) {
            Action::Native { .. } => interpreter.supply(Object::String(999)),
            Action::Failed(fault) => break fault,
            Action::Continue => {}
            _ => panic!("the script should fail"),
        }
    };
    assert_eq!(failure.message, Message::DanglingReference);
    assert_eq!(failure.token.lexeme, "+");
    let called = parse("var f = clock();\nf();");
    interpreter.interpret(&called);
    let failure = loop {
        match interpreter.run(100) {
            Action::Native { .. } => interpreter.supply(Object::Callable(999)),
            Action::Failed(fault) => break fault,
            Action::Continue => {}
            _ => panic!("the script should fail"),
        }
    };
    assert_eq!(failure.message, Message::DanglingReference);
    assert_eq!(failure.token.line, 2);
}

#[test]
fn the_empty_statement_does_nothing() {
    let statements = vec![Stmt::Null, Stmt::default()];
    let mut interpreter = Interpreter::new();
    let mut resolver = Resolver::new();
    resolver.resolve_stmts(&mut interpreter, &statements);
    assert!(!resolver.had_error);
    interpreter.interpret(&statements);
    let mut output = vec![];
    assert_eq!(drive(&mut interpreter, &mut output, 10), None);
    assert!(output.is_empty());
}

#[test]
fn a_return_outside_any_function_ends_the_script() {
    let statements = parse("print 1; { return; } print 2;");
    let mut interpreter = Interpreter::new();
    interpreter.interpret(&statements);
    let mut output = vec![];
    assert_eq!(drive(&mut interpreter, &mut output, 10), None);
    assert_eq!(output, vec!["1"]);
    assert_eq!(interpreter.environment, interpreter.globals);
}

#[test]
fn a_closure_inside_a_method_keeps_this_and_super() {
    let source = "class A { hello() { return \"A says hi to \" + this.name; } }
class B < A {
  init(name) { this.name = name; }
  later() { fun run() { return super.hello() + \"!\"; } return run; }
  hello() { return \"B\"; }
}
var saved = B(\"x\").later();
print saved();
var other = B(\"y\");
print other.later()();
print other.hello();";
    assert_eq!(prints(source), vec!["A says hi to x!", "A says hi to y!", "B"]);
}

#[test]
fn a_class_declared_in_a_function_closes_over_its_locals() {
    let source = "fun make(tag) {
  class Tagged { show() { return tag + \":\" + this.v; } }
  var t = Tagged(); t.v = \"v\"; tag = tag + tag;
  return t;
}
print make(\"a\").show();
print make(\"b\").show();";
    assert_eq!(prints(source), vec!["aa:v", "bb:v"]);
}

#[test]
fn parameters_shadow_what_lies_outside() {
    let source = "var x = \"global\";
fun f(x) { { var x = x + \"!\"; print x; } print x; }
f(\"param\"); print x;";
    let statements = parse(source);
    let mut interpreter = Interpreter::new();
    let mut resolver = Resolver::new();
    resolver.resolve_stmts(&mut interpreter, &statements);
    assert_eq!(resolver.diagnostics.len(), 1);
    assert_eq!(resolver.diagnostics[0].message, Message::ReadInOwnInitializer);
    let fine = "var x = \"global\";
fun f(x) { { var y = x + \"!\"; print y; } print x; }
f(\"param\"); print x;";
    assert_eq!(prints(fine), vec!["param!", "param", "global"]);
}

#[test]
fn a_longer_program_runs_to_its_end() {
    let source = "class Node { init(value, next) { this.value = value; this.next = next; } }
class List {
  init() { this.head = nil; this.size = 0; }
  push(value) { this.head = Node(value, this.head); this.size = this.size + 1; return this; }
  sum() { var total = 0; var at = this.head; while (at != nil) { total = total + at.value; at = at.next; } return total; }
  map(f) { var out = List(); var at = this.head; while (at != nil) { out.push(f(at.value)); at = at.next; } return out; }
}
var list = List();
for (var i = 1; i <= 10; i = i + 1) list.push(i);
fun twice(n) { return n * 2; }
print list.size; print list.sum(); print list.map(twice).sum();
var words = \"\"; var at = list.map(twice).head;
while (at != nil and at.value < 9) { words = words + \"<\"; at = at.next; }
print words;";
    assert_eq!(prints(source), vec!["10", "55", "110", "<<<<"]);
}

fn operator(kind: TokenType, lexeme: &str) -> Token {
    Token { kind, lexeme: lexeme.to_string(), literal: None, line: 1, column: 1 }
}

fn name_at(lexeme: &str, column: usize) -> Token {
    Token {
        kind: TokenType::Identifier,
        lexeme: lexeme.to_string(),
        literal: Some(Literal::String(lexeme.to_string())),
        line: 1,
        column,
    }
}

#[test]
fn a_settled_logical_operator_yields_its_left_side_unchanged() {
    let right = Expr::Literal { value: Literal::Bool(true) };
    let or = operator(TokenType::Or, "or");
    let and = operator(TokenType::And, "and");
    let mut interpreter = Interpreter::new();
    for left in [Object::Number(0), Object::String(3), Object::Bool(true), Object::Instance(1)] {
        assert!(matches!(interpreter.visit_logical_expr(&or, left, &right), Action::Continue));
        assert!(matches!(interpreter.focus, Focus::Value(v) if v == left));
        assert!(matches!(interpreter.visit_logical_expr(&and, left, &right), Action::Continue));
        assert!(matches!(interpreter.focus, Focus::Expression(e) if *e == right));
    }
    for left in [Object::Nil, Object::Bool(false)] {
        assert!(matches!(interpreter.visit_logical_expr(&and, left, &right), Action::Continue));
        assert!(matches!(interpreter.focus, Focus::Value(v) if v == left));
        assert!(matches!(interpreter.visit_logical_expr(&or, left, &right), Action::Continue));
        assert!(matches!(interpreter.focus, Focus::Expression(e) if *e == right));
    }
    assert!(interpreter.frames.is_empty());
}

#[test]
fn an_assignment_without_a_distance_writes_a_global_that_exists() {
    let known = name_at("known", 1);
    let unknown = name_at("unknown", 9);
    let mut interpreter = Interpreter::new();
    let globals = interpreter.globals;
    interpreter.heap.define(globals, "known", Object::Number(1));
    let inner = interpreter.heap.new_environment(Some(globals));
    interpreter.heap.define(inner, "known", Object::Number(2));
    interpreter.environment = inner;
    assert!(matches!(
        interpreter.visit_assign_expr(&known, Object::Bool(true)),
        Action::Continue
    ));
    assert!(matches!(interpreter.focus, Focus::Value(Object::Bool(true))));
    assert_eq!(interpreter.heap.value_at(globals, 0, "known"), Some(Object::Bool(true)));
    assert_eq!(interpreter.heap.value_at(inner, 0, "known"), Some(Object::Number(2)));
    match interpreter.visit_assign_expr(&unknown, Object::Nil) {
        Action::Failed(fault) => {
            assert_eq!(fault.message, Message::UndefinedVariable);
            assert_eq!(fault.token.lexeme, "unknown");
        }
        _ => panic!("the assignment should fail"),
    }
    assert_eq!(interpreter.heap.value_at(globals, 0, "unknown"), None);
    assert_eq!(interpreter.heap.value_at(inner, 0, "unknown"), None);
    interpreter.environment = inner;
    interpreter.resolve(&known, 0);
    assert!(matches!(interpreter.visit_assign_expr(&known, Object::Nil), Action::Continue));
    assert_eq!(interpreter.heap.value_at(inner, 0, "known"), Some(Object::Nil));
    assert_eq!(interpreter.heap.value_at(globals, 0, "known"), Some(Object::Bool(true)));
    assert!(matches!(interpreter.visit_variable_expr(&known), Action::Continue));
    assert!(matches!(interpreter.focus, Focus::Value(Object::Nil)));
    assert!(matches!(interpreter.visit_this_expr(&unknown), Action::Failed(_)));
}

#[test]
fn a_declared_function_closes_over_the_frame_it_is_declared_in() {
    let statements = parse("fun f(a) { return a; }");
    let (name, params, body) = match &statements[0] {
        Stmt::Function { name, params, body } => (name, params, body),
        other => panic!("not a function: {:?}", other),
    };
    let mut interpreter = Interpreter::new();
    let frame = interpreter.heap.new_environment(Some(interpreter.globals));
    interpreter.environment = frame;
    let functions = interpreter.heap.functions.len();
    assert!(matches!(interpreter.visit_function_stmt(name, params, body), Action::Continue));
    assert_eq!(interpreter.heap.functions.len(), functions + 1);
    assert_eq!(interpreter.heap.value_at(frame, 0, "f"), Some(Object::Callable(functions)));
    match interpreter.heap.functions[functions] {
        treelox::function::Function::User { closure, is_initializer, .. } => {
            assert_eq!(closure, frame);
            assert!(!is_initializer);
        }
        _ => panic!("not a function of the script"),
    }
    interpreter.heap.define(frame, "later", Object::Number(5));
    assert_eq!(interpreter.heap.value_at(frame, 0, "later"), Some(Object::Number(5)));
}

#[test]
fn a_call_of_what_is_no_function_fails_at_the_parenthesis() {
    let paren = operator(TokenType::RightParen, ")");
    let mut interpreter = Interpreter::new();
    match interpreter.visit_call_expr(Object::Number(1), &paren, 0) {
        Action::Failed(fault) => assert_eq!(fault.message, Message::NotCallable),
        _ => panic!("the call should fail"),
    }
    match interpreter.visit_call_expr(Object::Callable(0), &paren, 2) {
        Action::Failed(fault) => {
            assert_eq!(fault.message, Message::WrongArgumentCount { expected: 0, got: 2 })
        }
        _ => panic!("the call should fail"),
    }
    assert!(matches!(
        interpreter.visit_call_expr(Object::Callable(0), &paren, 0),
        Action::Native { id: CLOCK, argument_count: 0 }
    ));
    let minus = operator(TokenType::Minus, "-");
    assert!(matches!(interpreter.visit_unary_expr(&minus, Object::Number(0)), Action::Continue));
    assert!(matches!(interpreter.focus, Focus::Value(Object::Number(n)) if n == 1 << 63));
    assert!(matches!(
        interpreter.visit_binary_expr(&minus, Object::Number(1), Object::Number(2)),
        Action::Arithmetic { operator: TokenType::Minus, left: 1, right: 2 }
    ));
    let property = name_at("p", 1);
    match interpreter.visit_get_expr(Object::Nil, &property) {
        Action::Failed(fault) => assert_eq!(fault.message, Message::OnlyInstancesHaveProperties),
        _ => panic!("the read should fail"),
    }
    match interpreter.visit_super_expr(&property, &property) {
        Action::Failed(fault) => assert_eq!(fault.message, Message::UndefinedVariable),
        _ => panic!("super should fail"),
    }
}

#[test]
fn statements_decide_once_their_values_are_there() {
    let program = parse("if (a) print 1; else print 2; while (b) print 3; { var c; }");
    let (then_branch, else_branch) = match &program[0] {
        Stmt::If { then_branch, else_branch, .. } => (&**then_branch, &**else_branch),
        other => panic!("not an if: {:?}", other),
    };
    let (condition, body) = match &program[1] {
        Stmt::While { condition, body } => (condition, &**body),
        other => panic!("not a while: {:?}", other),
    };
    let block = match &program[2] {
        Stmt::Block { statements } => statements,
        other => panic!("not a block: {:?}", other),
    };
    let mut interpreter = Interpreter::new();
    interpreter.visit_if_stmt(Object::Number(0), then_branch, else_branch);
    assert!(matches!(interpreter.focus, Focus::Statement(s) if s == then_branch));
    interpreter.visit_if_stmt(Object::Nil, then_branch, else_branch);
    assert!(matches!(interpreter.focus, Focus::Statement(s) if Some(s) == else_branch.as_ref()));
    interpreter.visit_while_stmt(Object::Bool(false), condition, body);
    assert!(matches!(interpreter.focus, Focus::Value(Object::Nil)));
    assert!(interpreter.frames.is_empty());
    interpreter.visit_while_stmt(Object::Bool(true), condition, body);
    assert!(matches!(interpreter.focus, Focus::Statement(s) if s == body));
    assert_eq!(interpreter.frames.len(), 1);
    assert!(matches!(interpreter.visit_print_stmt(Object::Bool(true)), Action::Print(Object::Bool(true))));
    assert!(matches!(interpreter.focus, Focus::Value(Object::Nil)));
    interpreter.visit_return_stmt(Object::Number(9));
    assert!(matches!(interpreter.focus, Focus::Returning(Object::Number(9))));
    let name = name_at("v", 1);
    interpreter.visit_var_stmt(&name, Object::Number(4));
    assert_eq!(interpreter.heap.value_at(interpreter.globals, 0, "v"), Some(Object::Number(4)));
    let frames = interpreter.heap.environments.len();
    interpreter.visit_block_stmt(block);
    assert_eq!(interpreter.environment, frames);
    assert_eq!(interpreter.heap.environments[frames].enclosing, Some(interpreter.globals));
    let text = Literal::String("t".to_string());
    interpreter.visit_literal_expr(&text);
    assert!(matches!(interpreter.focus, Focus::Value(Object::String(_))));
    let numeral = Literal::Number("1.5".to_string());
    assert!(matches!(
        interpreter.visit_literal_expr(&numeral),
        Action::ParseNumber(n) if n == "1.5"
    ));
    let class = parse("class A {}");
    let mut fresh = Interpreter::new();
    fresh.interpret(&class);
    let mut output = vec![];
    assert_eq!(drive(&mut fresh, &mut output, 10), None);
    let instance = fresh.heap.new_instance(0);
    fresh.visit_set_expr(instance, &name, Object::Number(2));
    assert!(matches!(fresh.focus, Focus::Value(Object::Number(2))));
    assert!(matches!(fresh.visit_get_expr(Object::Instance(instance), &name), Action::Continue));
    assert!(matches!(fresh.focus, Focus::Value(Object::Number(2))));
    let methods = vec![];
    fresh.visit_class_stmt(&name, Some(0), &methods);
    assert!(matches!(
        fresh.heap.value_at(fresh.globals, 0, "v"),
        Some(Object::Class(1))
    ));
}
