use treelox::class::Class;
use treelox::class::Instance;
use treelox::environment::Environment;
use treelox::error::Error;
use treelox::error::Message;
use treelox::function::Function;
use treelox::heap::Heap;
use treelox::heap::Rendered;
use treelox::interpreter::objects_equal;
use treelox::interpreter::Action;
use treelox::interpreter::Interpreter;
use treelox::number::number_equals;
use treelox::number::number_is_nan;
use treelox::number::number_is_zero;
use treelox::number::number_less;
use treelox::number::number_negate;
use treelox::stmt::Stmt;
use treelox::token::Literal;
use treelox::token::Object;
use treelox::token::Token;
use treelox::token::TokenType;
use vstd::hash_map::StringHashMap;

fn named(lexeme: &str) -> Token {
    Token {
        kind: TokenType::Identifier,
        lexeme: lexeme.to_string(),
        literal: Some(Literal::String(lexeme.to_string())),
        line: 1,
        column: 1,
    }
}

fn undefined(lexeme: &str) -> Error {
    Error::Runtime { token: named(lexeme), message: Message::UndefinedVariable }
}

/// Three frames, each inside the one before: 0, 1, 2.
fn nested() -> Heap<'static> {
    let mut heap = Heap::new();
    let outer = heap.new_environment(None);
    let middle = heap.new_environment(Some(outer));
    let inner = heap.new_environment(Some(middle));
    assert_eq!((outer, middle, inner), (0, 1, 2));
    heap
}

#[test]
fn a_frame_starts_empty() {
    let lone = Environment::new();
    assert_eq!(Environment::default().enclosing, None);
    assert_eq!(Interpreter::default().environment, Interpreter::new().globals);
    assert_eq!(lone.enclosing, None);
    assert!(lone.values.is_empty());
    let child = Environment::from(4);
    assert_eq!(child.enclosing, Some(4));
    assert!(child.values.is_empty());
}

#[test]
fn define_binds_in_the_frame_itself() {
    let mut frame = Environment::from(0);
    frame.define("a", Object::Number(1));
    frame.define("b", Object::Nil);
    frame.define("a", Object::Bool(true));
    assert_eq!(frame.values.get("a"), Some(&Object::Bool(true)));
    assert_eq!(frame.values.get("b"), Some(&Object::Nil));
    assert_eq!(frame.values.len(), 2);
    assert_eq!(frame.enclosing, Some(0));
}

#[test]
fn get_falls_back_through_the_enclosing_frames() {
    let mut heap = nested();
    heap.define(0, "a", Object::Number(10));
    heap.define(1, "a", Object::Number(11));
    heap.define(0, "b", Object::Number(20));
    assert_eq!(Environment::get(&heap, 2, &named("a")), Ok(Object::Number(11)));
    assert_eq!(Environment::get(&heap, 1, &named("a")), Ok(Object::Number(11)));
    assert_eq!(Environment::get(&heap, 0, &named("a")), Ok(Object::Number(10)));
    assert_eq!(Environment::get(&heap, 2, &named("b")), Ok(Object::Number(20)));
    assert_eq!(Environment::get(&heap, 2, &named("c")), Err(undefined("c")));
    assert_eq!(Environment::get(&heap, 7, &named("a")), Err(undefined("a")));
    assert_eq!(Environment::holder(&heap, 2, "a"), Some(1));
    assert_eq!(Environment::holder(&heap, 2, "b"), Some(0));
    assert_eq!(Environment::holder(&heap, 2, "c"), None);
}

#[test]
fn assign_changes_the_nearest_binding_and_creates_none() {
    let mut heap = nested();
    heap.define(0, "a", Object::Number(10));
    heap.define(1, "a", Object::Number(11));
    assert_eq!(Environment::assign(&mut heap, 2, &named("a"), Object::Nil), Ok(()));
    assert_eq!(Environment::get(&heap, 1, &named("a")), Ok(Object::Nil));
    assert_eq!(Environment::get(&heap, 0, &named("a")), Ok(Object::Number(10)));
    assert!(heap.environments[2].values.is_empty());
    assert_eq!(Environment::assign(&mut heap, 2, &named("z"), Object::Nil), Err(undefined("z")));
    assert!(heap.environments.iter().all(|e| !e.values.contains_key("z")));
}

#[test]
fn ancestor_counts_links() {
    let heap = nested();
    assert_eq!(Environment::ancestor(&heap, 2, 0), Some(2));
    assert_eq!(Environment::ancestor(&heap, 2, 1), Some(1));
    assert_eq!(Environment::ancestor(&heap, 2, 2), Some(0));
    assert_eq!(Environment::ancestor(&heap, 2, 3), None);
    assert_eq!(Environment::ancestor(&heap, 0, 0), Some(0));
    assert_eq!(Environment::ancestor(&heap, 0, 1), None);
    assert_eq!(Environment::ancestor(&heap, 3, 0), None);
}

#[test]
fn get_at_asks_exactly_one_frame() {
    let mut heap = nested();
    heap.define(0, "a", Object::Number(10));
    heap.define(2, "c", Object::Number(30));
    assert_eq!(Environment::get_at(&heap, 2, 2, &named("a")), Ok(Object::Number(10)));
    assert_eq!(Environment::get_at(&heap, 2, 0, &named("c")), Ok(Object::Number(30)));
    assert_eq!(Environment::get_at(&heap, 2, 1, &named("a")), Err(undefined("a")));
    assert_eq!(Environment::get_at(&heap, 2, 0, &named("a")), Err(undefined("a")));
    assert_eq!(Environment::get_at(&heap, 2, 1, &named("c")), Err(undefined("c")));
    assert_eq!(Environment::get_at(&heap, 2, 3, &named("a")), Err(undefined("a")));
    assert_eq!(heap.value_at(1, 1, "a"), Some(Object::Number(10)));
    assert_eq!(heap.value_at(1, 0, "a"), None);
}

#[test]
fn assign_at_binds_in_exactly_one_frame() {
    let mut heap = nested();
    heap.define(0, "a", Object::Number(10));
    assert_eq!(Environment::assign_at(&mut heap, 2, 1, &named("a"), Object::Nil), Ok(()));
    assert_eq!(Environment::get_at(&heap, 2, 1, &named("a")), Ok(Object::Nil));
    assert_eq!(Environment::get_at(&heap, 2, 2, &named("a")), Ok(Object::Number(10)));
    assert_eq!(Environment::get_at(&heap, 1, 0, &named("a")), Ok(Object::Nil));
    assert_eq!(Environment::assign_at(&mut heap, 2, 3, &named("a"), Object::Nil), Err(undefined("a")));
}

#[test]
fn an_assignment_is_seen_through_every_chain_that_reaches_the_frame() {
    let mut heap = nested();
    let sibling = heap.new_environment(Some(1));
    let far = heap.new_environment(Some(sibling));
    heap.define(1, "n", Object::Number(1));
    assert_eq!(Environment::assign_at(&mut heap, 2, 1, &named("n"), Object::Number(2)), Ok(()));
    assert_eq!(Environment::get_at(&heap, sibling, 1, &named("n")), Ok(Object::Number(2)));
    assert_eq!(Environment::get_at(&heap, far, 2, &named("n")), Ok(Object::Number(2)));
    assert_eq!(Environment::assign(&mut heap, far, &named("n"), Object::Number(3)), Ok(()));
    assert_eq!(Environment::get(&heap, 2, &named("n")), Ok(Object::Number(3)));
}

#[test]
fn a_link_is_followed_only_to_an_older_frame() {
    let mut heap = Heap::new();
    heap.environments.push(Environment::from(1));
    heap.environments.push(Environment::from(0));
    heap.define(0, "a", Object::Nil);
    assert_eq!(Environment::holder(&heap, 1, "a"), Some(0));
    assert_eq!(Environment::holder(&heap, 0, "b"), None);
    assert_eq!(Environment::ancestor(&heap, 0, 2), Some(0));
    heap.define(9, "a", Object::Bool(true));
    assert_eq!(heap.environments.len(), 2);
}

#[test]
fn slots_are_given_in_order() {
    let mut heap = Heap::new();
    assert_eq!(heap.new_string("a".to_string()), 0);
    assert_eq!(heap.new_string("b".to_string()), 1);
    assert_eq!(heap.new_function(Function::Native { arity: 2, id: 5 }), 0);
    assert_eq!(heap.new_environment(None), 0);
    let class = Class { name: "A".to_string(), superclass: None, methods: StringHashMap::new() };
    assert_eq!(heap.new_class(class), 0);
    assert_eq!(heap.new_instance(0), 0);
    assert_eq!(heap.new_instance(0), 1);
    assert_eq!(heap.strings, vec!["a", "b"]);
    assert_eq!(heap.instances[1].class, 0);
    assert_eq!(heap.functions[0].arity(), 2);
}

fn class_with(heap: &mut Heap<'static>, name: &str, superclass: Option<usize>, methods: &[(&str, usize)]) -> usize {
    let mut table = StringHashMap::new();
    for (method, id) in methods {
        let slot = heap.new_function(Function::Native { arity: 0, id: *id });
        table.insert(method.to_string(), slot);
    }
    heap.new_class(Class { name: name.to_string(), superclass, methods: table })
}

fn native_id(heap: &Heap, slot: Option<usize>) -> Option<usize> {
    slot.map(|s| match heap.functions[s] {
        Function::Native { id, .. } => id,
        Function::User { .. } => panic!("not native"),
    })
}

#[test]
fn find_method_looks_at_the_class_and_then_upward() {
    let mut heap = Heap::new();
    let a = class_with(&mut heap, "A", None, &[("x", 1), ("y", 2), ("z", 3)]);
    let b = class_with(&mut heap, "B", Some(a), &[("y", 20), ("z", 30)]);
    let c = class_with(&mut heap, "C", Some(b), &[("z", 300)]);
    assert_eq!(native_id(&heap, Class::find_method(&heap, c, "x")), Some(1));
    assert_eq!(native_id(&heap, Class::find_method(&heap, c, "y")), Some(20));
    assert_eq!(native_id(&heap, Class::find_method(&heap, c, "z")), Some(300));
    assert_eq!(native_id(&heap, Class::find_method(&heap, b, "z")), Some(30));
    assert_eq!(native_id(&heap, Class::find_method(&heap, a, "z")), Some(3));
    assert_eq!(Class::find_method(&heap, c, "w"), None);
    assert_eq!(Class::find_method(&heap, 17, "x"), None);
}

#[test]
fn an_instance_reads_fields_before_methods() {
    let body: &'static Vec<Stmt> = Box::leak(Box::new(vec![]));
    let params: &'static Vec<Token> = Box::leak(Box::new(vec![named("p")]));
    let name: &'static Token = Box::leak(Box::new(named("m")));
    let mut heap = Heap::new();
    let globals = heap.new_environment(None);
    let method = heap.new_function(Function::User {
        name,
        params,
        body,
        closure: globals,
        is_initializer: false,
    });
    let mut table = StringHashMap::new();
    table.insert("m".to_string(), method);
    let class = heap.new_class(Class { name: "A".to_string(), superclass: None, methods: table });
    let instance = heap.new_instance(class);
    assert_eq!(Instance::new(class).class, class);
    assert!(Instance::new(class).fields.is_empty());
    let bound = Instance::get(&mut heap, instance, &named("m")).unwrap();
    match bound {
        Object::Callable(slot) => match heap.functions[slot] {
            Function::User { closure, is_initializer, .. } => {
                assert!(!is_initializer);
                assert_eq!(heap.environments[closure].enclosing, Some(globals));
                assert_eq!(heap.environments[closure].values.get("this"), Some(&Object::Instance(instance)));
                assert_eq!(heap.functions[slot].arity(), 1);
            }
            Function::Native { .. } => panic!("not bound"),
        },
        other => panic!("not callable: {:?}", other),
    }
    heap.set_field(instance, "m", Object::Number(1));
    heap.instances[instance].set("f", Object::Nil);
    assert_eq!(Instance::get(&mut heap, instance, &named("m")), Ok(Object::Number(1)));
    assert_eq!(Instance::get(&mut heap, instance, &named("f")), Ok(Object::Nil));
    let frames = heap.environments.len();
    assert_eq!(
        Instance::get(&mut heap, instance, &named("gone")),
        Err(Error::Runtime { token: named("gone"), message: Message::UndefinedProperty })
    );
    assert_eq!(heap.environments.len(), frames);
    assert_eq!(
        Instance::get(&mut heap, 99, &named("m")),
        Err(Error::Runtime { token: named("m"), message: Message::UndefinedProperty })
    );
}

#[test]
fn bind_puts_this_in_a_frame_around_the_closure() {
    let body: &'static Vec<Stmt> = Box::leak(Box::new(vec![]));
    let params: &'static Vec<Token> = Box::leak(Box::new(vec![]));
    let name: &'static Token = Box::leak(Box::new(named("init")));
    let mut heap = nested();
    let function = Function::User { name, params, body, closure: 1, is_initializer: true };
    let bound = function.bind(&mut heap, Object::Instance(5));
    match bound {
        Function::User { closure, is_initializer, .. } => {
            assert_eq!(closure, 3);
            assert!(is_initializer);
            assert_eq!(heap.environments[3].enclosing, Some(1));
            assert_eq!(heap.value_at(closure, 0, "this"), Some(Object::Instance(5)));
        }
        Function::Native { .. } => panic!("not bound"),
    }
    let native = Function::Native { arity: 1, id: 2 };
    assert!(matches!(native.bind(&mut heap, Object::Nil), Function::Native { arity: 1, id: 2 }));
    assert_eq!(heap.environments.len(), 4);
}

#[test]
fn a_function_is_entered_with_its_arguments_bound() {
    let body: &'static Vec<Stmt> = Box::leak(Box::new(vec![]));
    let params: &'static Vec<Token> = Box::leak(Box::new(vec![named("a"), named("b")]));
    let name: &'static Token = Box::leak(Box::new(named("f")));
    let mut interpreter = Interpreter::new();
    let function = Function::User {
        name,
        params,
        body,
        closure: interpreter.globals,
        is_initializer: false,
    };
    interpreter.operands.push(Object::Nil);
    interpreter.operands.push(Object::Number(1));
    interpreter.operands.push(Object::Number(2));
    assert!(matches!(function.call(&mut interpreter, 2), Action::Continue));
    assert_eq!(interpreter.operands, vec![Object::Nil]);
    assert_eq!(interpreter.frames.len(), 2);
    let frame = interpreter.environment;
    assert_eq!(interpreter.heap.environments[frame].enclosing, Some(interpreter.globals));
    assert_eq!(interpreter.heap.value_at(frame, 0, "a"), Some(Object::Number(1)));
    assert_eq!(interpreter.heap.value_at(frame, 0, "b"), Some(Object::Number(2)));
    let native = Function::Native { arity: 1, id: 9 };
    assert!(matches!(
        native.call(&mut interpreter, 1),
        Action::Native { id: 9, argument_count: 1 }
    ));
    assert_eq!(interpreter.operands, vec![Object::Nil]);
}

#[test]
fn values_render_by_their_kind() {
    let mut heap = Heap::new();
    let text = heap.new_string("plain".to_string());
    let native = heap.new_function(Function::Native { arity: 0, id: 0 });
    let class = class_with(&mut heap, "Thing", None, &[]);
    let instance = heap.new_instance(class);
    let text_of = |heap: &Heap, value: Object| match heap.render(value) {
        Rendered::Text(text) => text,
        Rendered::Number(bits) => format!("number {}", bits),
    };
    assert_eq!(text_of(&heap, Object::String(text)), "plain");
    assert_eq!(text_of(&heap, Object::Number(7)), "number 7");
    assert_eq!(text_of(&heap, Object::Bool(true)), "true");
    assert_eq!(text_of(&heap, Object::Bool(false)), "false");
    assert_eq!(text_of(&heap, Object::Nil), "nil");
    assert_eq!(text_of(&heap, Object::Callable(native)), "<native function>");
    assert_eq!(text_of(&heap, Object::Class(class)), "Thing");
    assert_eq!(text_of(&heap, Object::Instance(instance)), "Thing instance");
    assert_eq!(text_of(&heap, Object::String(9)), "");
    assert_eq!(text_of(&heap, Object::Instance(9)), "");
    assert_eq!(Object::default(), Object::Nil);
}

#[test]
fn equality_looks_through_the_heap_for_text_only() {
    let mut heap = Heap::new();
    let a = heap.new_string("same".to_string());
    let b = heap.new_string("same".to_string());
    let c = heap.new_string("other".to_string());
    assert!(objects_equal(&heap, Object::String(a), Object::String(b)));
    assert!(!objects_equal(&heap, Object::String(a), Object::String(c)));
    assert!(!objects_equal(&heap, Object::String(a), Object::String(40)));
    assert!(objects_equal(&heap, Object::Instance(3), Object::Instance(3)));
    assert!(!objects_equal(&heap, Object::Instance(3), Object::Class(3)));
    assert!(!objects_equal(&heap, Object::Number(0), Object::Bool(false)));
    assert!(objects_equal(&heap, Object::Number(0), Object::Number(1 << 63)));
}

const SAMPLES: [f64; 14] = [
    0.0,
    -0.0,
    1.0,
    -1.0,
    0.5,
    -0.5,
    1e300,
    -1e300,
    5e-324,
    -5e-324,
    f64::INFINITY,
    f64::NEG_INFINITY,
    f64::NAN,
    f64::MAX,
];

#[test]
fn numbers_are_ordered_as_doubles_are() {
    for a in SAMPLES {
        for b in SAMPLES {
            assert_eq!(number_less(a.to_bits(), b.to_bits()), a < b, "{} < {}", a, b);
            assert_eq!(number_equals(a.to_bits(), b.to_bits()), a == b, "{} == {}", a, b);
        }
    }
    assert!(!number_equals((-f64::NAN).to_bits(), (-f64::NAN).to_bits()));
    assert!(!number_less(f64::NAN.to_bits(), f64::INFINITY.to_bits()));
}

#[test]
fn numbers_know_their_sign_and_kind() {
    for a in SAMPLES {
        assert_eq!(number_is_nan(a.to_bits()), a.is_nan(), "{}", a);
        assert_eq!(number_is_zero(a.to_bits()), a == 0.0, "{}", a);
        assert_eq!(number_negate(a.to_bits()), (-a).to_bits(), "{}", a);
    }
    assert_eq!(number_negate(1.5f64.to_bits()), (-1.5f64).to_bits());
    assert_eq!(number_negate(number_negate(2.0f64.to_bits())), 2.0f64.to_bits());
}
