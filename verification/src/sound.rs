//! Values do not dangle. A machine in which every value names a slot that
//! exists stays such a machine, step after step, and so never fails for
//! want of a slot.

use vstd::prelude::*;
use crate::class::ClassView;
use crate::class::InstanceView;
use crate::environment::EnvironmentView;
use crate::error::Message;
use crate::expr::Expr;
use crate::function::Function;
use crate::heap::HeapView;
use crate::interpreter::Action;
use crate::interpreter::Focus;
use crate::interpreter::Frame;
use crate::interpreter::InterpreterView;
use crate::interpreter::bind_parameters;
use crate::interpreter::collect_methods;
use crate::stmt::Stmt;
use crate::token::Object;
use crate::token::Token;
use crate::token::TokenType;

verus! {

/// How many slots of each kind a heap has.
pub struct Sizes {
    pub environments: nat,
    pub strings: nat,
    pub functions: nat,
    pub classes: nat,
    pub instances: nat,
}

pub open spec fn sizes(heap: HeapView) -> Sizes {
    Sizes {
        environments: heap.environments.len(),
        strings: heap.strings.len(),
        functions: heap.functions.len(),
        classes: heap.classes.len(),
        instances: heap.instances.len(),
    }
}

/// No kind of slot has become fewer.
pub open spec fn within(before: Sizes, after: Sizes) -> bool {
    &&& before.environments <= after.environments
    &&& before.strings <= after.strings
    &&& before.functions <= after.functions
    &&& before.classes <= after.classes
    &&& before.instances <= after.instances
}

/// Every slot can be named by a machine word.
pub open spec fn fits(s: Sizes) -> bool {
    &&& s.environments <= usize::MAX
    &&& s.strings <= usize::MAX
    &&& s.functions <= usize::MAX
    &&& s.classes <= usize::MAX
    &&& s.instances <= usize::MAX
}

/// The value names a slot that exists.
pub open spec fn object_ok(s: Sizes, value: Object) -> bool {
    match value {
        Object::String(slot) => slot < s.strings,
        Object::Callable(slot) => slot < s.functions,
        Object::Class(slot) => slot < s.classes,
        Object::Instance(slot) => slot < s.instances,
        _ => true,
    }
}

pub open spec fn function_ok(s: Sizes, function: Function) -> bool {
    match function {
        Function::User { closure, .. } => closure < s.environments,
        Function::Native { .. } => true,
    }
}

pub open spec fn values_ok(s: Sizes, values: Map<Seq<char>, Object>) -> bool {
    forall|name: Seq<char>| values.contains_key(name) ==> object_ok(s, #[trigger] values[name])
}

/// The frame in slot `slot` is inside an older frame, if in any, and
/// binds no dangling value.
pub open spec fn environment_ok(s: Sizes, environment: EnvironmentView, slot: int) -> bool {
    &&& environment.enclosing matches Some(parent) ==> parent < slot
    &&& values_ok(s, environment.values)
}

/// The class in slot `slot` inherits from an older class, if from any,
/// and its methods are functions that exist.
pub open spec fn class_ok(s: Sizes, class: ClassView, slot: int) -> bool {
    &&& class.superclass matches Some(parent) ==> parent < slot
    &&& forall|name: Seq<char>|
        class.methods.contains_key(name) ==> (#[trigger] class.methods[name]) < s.functions
}

pub open spec fn instance_ok(s: Sizes, instance: InstanceView) -> bool {
    &&& instance.class < s.classes
    &&& values_ok(s, instance.fields)
}

pub open spec fn heap_ok(heap: HeapView) -> bool {
    &&& fits(sizes(heap))
    &&& forall|e: int|
        0 <= e < heap.environments.len() ==> environment_ok(
            sizes(heap),
            #[trigger] heap.environments[e],
            e,
        )
    &&& forall|f: int|
        0 <= f < heap.functions.len() ==> function_ok(sizes(heap), #[trigger] heap.functions[f])
    &&& forall|c: int|
        0 <= c < heap.classes.len() ==> class_ok(sizes(heap), #[trigger] heap.classes[c], c)
    &&& forall|i: int|
        0 <= i < heap.instances.len() ==> instance_ok(sizes(heap), #[trigger] heap.instances[i])
}

pub open spec fn frame_ok(s: Sizes, frame: Frame) -> bool {
    match frame {
        Frame::Sequence { restore, .. } => restore matches Some(e) ==> e < s.environments,
        Frame::Right { left, .. } => object_ok(s, left),
        Frame::Arguments { callee, .. } => object_ok(s, callee),
        Frame::SetValue { instance, .. } => instance < s.instances,
        Frame::Call { restore, function } => restore < s.environments && function_ok(s, function),
        Frame::Construct { instance } => instance < s.instances,
        _ => true,
    }
}

pub open spec fn frames_ok(s: Sizes, frames: Seq<Frame>) -> bool {
    forall|i: int| 0 <= i < frames.len() ==> frame_ok(s, #[trigger] frames[i])
}

pub open spec fn operands_ok(s: Sizes, operands: Seq<Object>) -> bool {
    forall|i: int| 0 <= i < operands.len() ==> object_ok(s, #[trigger] operands[i])
}

/// The step did not fail for want of a slot.
pub open spec fn no_slot_missed(action: Action) -> bool {
    match action {
        Action::Failed(fault) => fault.message != Message::DanglingReference,
        _ => true,
    }
}

pub open spec fn focus_ok(s: Sizes, focus: Focus) -> bool {
    match focus {
        Focus::Value(value) => object_ok(s, value),
        Focus::Returning(value) => object_ok(s, value),
        Focus::Waiting(action) => no_slot_missed(action),
        _ => true,
    }
}

/// Everything the machine holds names slots that exist.
pub open spec fn machine_ok(machine: InterpreterView) -> bool {
    &&& heap_ok(machine.heap)
    &&& machine.globals < machine.heap.environments.len()
    &&& machine.environment < machine.heap.environments.len()
    &&& frames_ok(sizes(machine.heap), machine.frames)
    &&& operands_ok(sizes(machine.heap), machine.operands)
    &&& focus_ok(sizes(machine.heap), machine.focus)
}

/// The machine without its heap: what must stay sound as the heap grows.
pub open spec fn rest_ok(s: Sizes, machine: InterpreterView) -> bool {
    &&& machine.globals < s.environments
    &&& machine.environment < s.environments
    &&& frames_ok(s, machine.frames)
    &&& operands_ok(s, machine.operands)
}

/// A binding of a sound value leaves a sound heap.
pub proof fn lemma_define_ok(heap: HeapView, env: usize, name: Seq<char>, value: Object)
    requires
        heap_ok(heap),
        object_ok(sizes(heap), value),
    ensures
        heap_ok(heap.define(env, name, value)),
        sizes(heap.define(env, name, value)) == sizes(heap),
{
    let after = heap.define(env, name, value);
    if env < heap.environments.len() {
        assert forall|e: int| 0 <= e < after.environments.len() implies environment_ok(
            sizes(after),
            #[trigger] after.environments[e],
            e,
        ) by {
            assert(environment_ok(sizes(heap), heap.environments[e], e));
        }
    }
}

/// A new frame inside a frame that exists leaves a sound heap.
pub proof fn lemma_with_environment_ok(heap: HeapView, enclosing: Option<usize>)
    requires
        heap_ok(heap),
        enclosing matches Some(parent) ==> parent < heap.environments.len(),
        heap.environments.len() < usize::MAX,
    ensures
        heap_ok(heap.with_environment(enclosing)),
        sizes(heap.with_environment(enclosing)) == (Sizes {
            environments: heap.environments.len() + 1,
            ..sizes(heap)
        }),
{
    let after = heap.with_environment(enclosing);
    assert forall|e: int| 0 <= e < after.environments.len() implies environment_ok(
        sizes(after),
        #[trigger] after.environments[e],
        e,
    ) by {
        if e < heap.environments.len() {
            assert(environment_ok(sizes(heap), heap.environments[e], e));
        }
    }
    assert forall|f: int| 0 <= f < after.functions.len() implies function_ok(
        sizes(after),
        #[trigger] after.functions[f],
    ) by {
        assert(function_ok(sizes(heap), heap.functions[f]));
    }
    assert forall|c: int| 0 <= c < after.classes.len() implies class_ok(
        sizes(after),
        #[trigger] after.classes[c],
        c,
    ) by {
        assert(class_ok(sizes(heap), heap.classes[c], c));
    }
    assert forall|i: int| 0 <= i < after.instances.len() implies instance_ok(
        sizes(after),
        #[trigger] after.instances[i],
    ) by {
        assert(instance_ok(sizes(heap), heap.instances[i]));
    }
}

pub proof fn lemma_with_string_ok(heap: HeapView, text: Seq<char>)
    requires
        heap_ok(heap),
        heap.strings.len() < usize::MAX,
    ensures
        heap_ok(heap.with_string(text)),
        sizes(heap.with_string(text)) == (Sizes {
            strings: heap.strings.len() + 1,
            ..sizes(heap)
        }),
{
    let after = heap.with_string(text);
    assert forall|e: int| 0 <= e < after.environments.len() implies environment_ok(
        sizes(after),
        #[trigger] after.environments[e],
        e,
    ) by {
        assert(environment_ok(sizes(heap), heap.environments[e], e));
    }
    assert forall|i: int| 0 <= i < after.instances.len() implies instance_ok(
        sizes(after),
        #[trigger] after.instances[i],
    ) by {
        assert(instance_ok(sizes(heap), heap.instances[i]));
    }
}

pub proof fn lemma_with_function_ok<'a>(heap: HeapView<'a>, function: Function<'a>)
    requires
        heap_ok(heap),
        function_ok(sizes(heap), function),
        heap.functions.len() < usize::MAX,
    ensures
        heap_ok(heap.with_function(function)),
        sizes(heap.with_function(function)) == (Sizes {
            functions: heap.functions.len() + 1,
            ..sizes(heap)
        }),
{
    let after = heap.with_function(function);
    assert forall|e: int| 0 <= e < after.environments.len() implies environment_ok(
        sizes(after),
        #[trigger] after.environments[e],
        e,
    ) by {
        assert(environment_ok(sizes(heap), heap.environments[e], e));
    }
    assert forall|f: int| 0 <= f < after.functions.len() implies function_ok(
        sizes(after),
        #[trigger] after.functions[f],
    ) by {
        if f < heap.functions.len() {
            assert(function_ok(sizes(heap), heap.functions[f]));
        }
    }
    assert forall|c: int| 0 <= c < after.classes.len() implies class_ok(
        sizes(after),
        #[trigger] after.classes[c],
        c,
    ) by {
        assert(class_ok(sizes(heap), heap.classes[c], c));
    }
    assert forall|i: int| 0 <= i < after.instances.len() implies instance_ok(
        sizes(after),
        #[trigger] after.instances[i],
    ) by {
        assert(instance_ok(sizes(heap), heap.instances[i]));
    }
}

pub proof fn lemma_with_class_ok(heap: HeapView, class: ClassView)
    requires
        heap_ok(heap),
        class_ok(sizes(heap), class, heap.classes.len() as int),
        heap.classes.len() < usize::MAX,
    ensures
        heap_ok(heap.with_class(class)),
        sizes(heap.with_class(class)) == (Sizes {
            classes: heap.classes.len() + 1,
            ..sizes(heap)
        }),
{
    let after = heap.with_class(class);
    assert forall|e: int| 0 <= e < after.environments.len() implies environment_ok(
        sizes(after),
        #[trigger] after.environments[e],
        e,
    ) by {
        assert(environment_ok(sizes(heap), heap.environments[e], e));
    }
    assert forall|c: int| 0 <= c < after.classes.len() implies class_ok(
        sizes(after),
        #[trigger] after.classes[c],
        c,
    ) by {
        if c < heap.classes.len() {
            assert(class_ok(sizes(heap), heap.classes[c], c));
        }
    }
    assert forall|i: int| 0 <= i < after.instances.len() implies instance_ok(
        sizes(after),
        #[trigger] after.instances[i],
    ) by {
        assert(instance_ok(sizes(heap), heap.instances[i]));
    }
}

pub proof fn lemma_with_instance_ok(heap: HeapView, class: usize)
    requires
        heap_ok(heap),
        class < heap.classes.len(),
        heap.instances.len() < usize::MAX,
    ensures
        heap_ok(heap.with_instance(class)),
        sizes(heap.with_instance(class)) == (Sizes {
            instances: heap.instances.len() + 1,
            ..sizes(heap)
        }),
{
    let after = heap.with_instance(class);
    assert forall|e: int| 0 <= e < after.environments.len() implies environment_ok(
        sizes(after),
        #[trigger] after.environments[e],
        e,
    ) by {
        assert(environment_ok(sizes(heap), heap.environments[e], e));
    }
    assert forall|i: int| 0 <= i < after.instances.len() implies instance_ok(
        sizes(after),
        #[trigger] after.instances[i],
    ) by {
        if i < heap.instances.len() {
            assert(instance_ok(sizes(heap), heap.instances[i]));
        }
    }
}

pub proof fn lemma_set_field_ok(heap: HeapView, instance: usize, name: Seq<char>, value: Object)
    requires
        heap_ok(heap),
        object_ok(sizes(heap), value),
    ensures
        heap_ok(heap.set_field(instance, name, value)),
        sizes(heap.set_field(instance, name, value)) == sizes(heap),
{
    let after = heap.set_field(instance, name, value);
    if instance < heap.instances.len() {
        assert forall|i: int| 0 <= i < after.instances.len() implies instance_ok(
            sizes(after),
            #[trigger] after.instances[i],
        ) by {
            assert(instance_ok(sizes(heap), heap.instances[i]));
        }
    }
}

/// What a sound heap binds is sound.
pub proof fn lemma_get_at_ok(heap: HeapView, env: usize, distance: nat, name: Seq<char>)
    requires
        heap_ok(heap),
    ensures
        heap.get_at(env, distance, name) matches Some(value) ==> object_ok(sizes(heap), value),
{
    heap.lemma_ancestor_exists(env, distance);
    match heap.ancestor(env, distance) {
        Some(a) => {
            assert(environment_ok(sizes(heap), heap.environments[a as int], a as int));
        },
        None => {},
    }
}

pub proof fn lemma_lookup_ok(heap: HeapView, env: usize, name: Seq<char>)
    requires
        heap_ok(heap),
    ensures
        heap.lookup(env, name) matches Some(value) ==> object_ok(sizes(heap), value),
{
    heap.lemma_holder_binds(env, name);
    match heap.holder(env, name) {
        Some(h) => {
            assert(environment_ok(sizes(heap), heap.environments[h as int], h as int));
        },
        None => {},
    }
}

/// A method found in a sound heap is a function that exists.
pub proof fn lemma_find_method_ok(heap: HeapView, class: usize, name: Seq<char>)
    requires
        heap_ok(heap),
    ensures
        heap.find_method(class, name) matches Some(m) ==> m < heap.functions.len(),
    decreases class,
{
    if class < heap.classes.len() {
        assert(class_ok(sizes(heap), heap.classes[class as int], class as int));
        if !heap.classes[class as int].methods.contains_key(name) {
            match heap.classes[class as int].superclass {
                Some(parent) => {
                    if parent < class {
                        lemma_find_method_ok(heap, parent, name);
                    }
                },
                None => {},
            }
        }
    }
}

/// Binding a method makes one frame and takes none away.
pub proof fn lemma_bind_ok<'a>(heap: HeapView<'a>, function: Function<'a>, receiver: Object)
    requires
        heap_ok(heap),
        function_ok(sizes(heap), function),
        object_ok(sizes(heap), receiver),
        fits(sizes(heap.bind(function, receiver).0)),
    ensures
        heap_ok(heap.bind(function, receiver).0),
        function_ok(sizes(heap.bind(function, receiver).0), heap.bind(function, receiver).1),
        within(sizes(heap), sizes(heap.bind(function, receiver).0)),
        sizes(heap.bind(function, receiver).0) == (Sizes {
            environments: sizes(heap.bind(function, receiver).0).environments,
            ..sizes(heap)
        }),
{
    match function {
        Function::Native { .. } => {},
        Function::User { name, params, body, closure, is_initializer } => {
            let frame = heap.environments.len() as usize;
            let made = heap.with_environment(Some(closure));
            lemma_with_environment_ok(heap, Some(closure));
            lemma_define_ok(made, frame, "this"@, receiver);
        },
    }
}

pub proof fn lemma_bound_method_ok(heap: HeapView, class: usize, name: Seq<char>, receiver: Object)
    requires
        heap_ok(heap),
        object_ok(sizes(heap), receiver),
        fits(sizes(heap.bound_method(class, name, receiver).0)),
    ensures
        heap_ok(heap.bound_method(class, name, receiver).0),
        within(sizes(heap), sizes(heap.bound_method(class, name, receiver).0)),
        heap.bound_method(class, name, receiver).1 matches Some(value) ==> object_ok(
            sizes(heap.bound_method(class, name, receiver).0),
            value,
        ),
        heap.bound_method(class, name, receiver).1 is None ==> heap.find_method(class, name)
            is None,
{
    lemma_find_method_ok(heap, class, name);
    match heap.find_method(class, name) {
        Some(m) => {
            assert(function_ok(sizes(heap), heap.functions[m as int]));
            let (bound_heap, bound) = heap.bind(heap.functions[m as int], receiver);
            lemma_bind_ok(heap, heap.functions[m as int], receiver);
            lemma_with_function_ok(bound_heap, bound);
        },
        None => {},
    }
}

pub proof fn lemma_get_property_ok(heap: HeapView, instance: usize, name: Seq<char>)
    requires
        heap_ok(heap),
        instance < heap.instances.len(),
        fits(sizes(heap.get_property(instance, name).0)),
    ensures
        heap_ok(heap.get_property(instance, name).0),
        within(sizes(heap), sizes(heap.get_property(instance, name).0)),
        heap.get_property(instance, name).1 matches Some(value) ==> object_ok(
            sizes(heap.get_property(instance, name).0),
            value,
        ),
{
    assert(instance_ok(sizes(heap), heap.instances[instance as int]));
    if !heap.instances[instance as int].fields.contains_key(name) {
        lemma_bound_method_ok(
            heap,
            heap.instances[instance as int].class,
            name,
            Object::Instance(instance),
        );
    }
}

/// The method table so far names functions that exist.
pub open spec fn table_ok(s: Sizes, table: Map<Seq<char>, usize>) -> bool {
    forall|name: Seq<char>| table.contains_key(name) ==> (#[trigger] table[name]) < s.functions
}

/// Storing methods adds functions and nothing else.
pub proof fn lemma_collect_methods_grows<'a>(
    heap: HeapView<'a>,
    methods: &'a Vec<Stmt>,
    from: int,
    closure: usize,
    table: Map<Seq<char>, usize>,
)
    ensures
        sizes(collect_methods(heap, methods, from, closure, table).0) == (Sizes {
            functions: sizes(collect_methods(heap, methods, from, closure, table).0).functions,
            ..sizes(heap)
        }),
        sizes(heap).functions <= sizes(
            collect_methods(heap, methods, from, closure, table).0,
        ).functions,
        collect_methods(heap, methods, from, closure, table).0.environments == heap.environments,
    decreases methods@.len() - from,
{
    if !(from < 0 || from >= methods@.len()) {
        match &methods@[from] {
            Stmt::Function { name, params, body } => {
                lemma_collect_methods_grows(
                    heap.with_function(
                        Function::User {
                            name,
                            params,
                            body,
                            closure,
                            is_initializer: name.lexeme@ == "init"@,
                        },
                    ),
                    methods,
                    from + 1,
                    closure,
                    table.insert(name.lexeme@, heap.functions.len() as usize),
                );
            },
            _ => {
                lemma_collect_methods_grows(heap, methods, from + 1, closure, table);
            },
        }
    }
}

pub proof fn lemma_collect_methods_ok<'a>(
    heap: HeapView<'a>,
    methods: &'a Vec<Stmt>,
    from: int,
    closure: usize,
    table: Map<Seq<char>, usize>,
)
    requires
        heap_ok(heap),
        closure < heap.environments.len(),
        table_ok(sizes(heap), table),
        fits(sizes(collect_methods(heap, methods, from, closure, table).0)),
    ensures
        heap_ok(collect_methods(heap, methods, from, closure, table).0),
        table_ok(
            sizes(collect_methods(heap, methods, from, closure, table).0),
            collect_methods(heap, methods, from, closure, table).1,
        ),
    decreases methods@.len() - from,
{
    if !(from < 0 || from >= methods@.len()) {
        match &methods@[from] {
            Stmt::Function { name, params, body } => {
                let function = Function::User {
                    name,
                    params,
                    body,
                    closure,
                    is_initializer: name.lexeme@ == "init"@,
                };
                let next = heap.with_function(function);
                let entered = table.insert(name.lexeme@, heap.functions.len() as usize);
                lemma_collect_methods_grows(next, methods, from + 1, closure, entered);
                lemma_with_function_ok(heap, function);
                assert(table_ok(sizes(next), entered)) by {
                    assert forall|n: Seq<char>| entered.contains_key(n) implies (
                    #[trigger] entered[n]) < sizes(next).functions by {
                        if n != name.lexeme@ {
                            assert(table.contains_key(n));
                        }
                    }
                }
                lemma_collect_methods_ok(next, methods, from + 1, closure, entered);
            },
            _ => {
                lemma_collect_methods_ok(heap, methods, from + 1, closure, table);
            },
        }
    }
}

pub proof fn lemma_bind_parameters_ok<'a>(
    heap: HeapView<'a>,
    env: usize,
    params: &'a Vec<Token>,
    arguments: Seq<Object>,
    from: int,
)
    requires
        heap_ok(heap),
        operands_ok(sizes(heap), arguments),
    ensures
        heap_ok(bind_parameters(heap, env, params, arguments, from)),
        sizes(bind_parameters(heap, env, params, arguments, from)) == sizes(heap),
    decreases params@.len() - from,
{
    if !(from < 0 || from >= params@.len() || from >= arguments.len()) {
        lemma_define_ok(heap, env, params@[from].lexeme@, arguments[from]);
        lemma_bind_parameters_ok(
            heap.define(env, params@[from].lexeme@, arguments[from]),
            env,
            params,
            arguments,
            from + 1,
        );
    }
}

/// What a step must leave behind: a sound machine over a heap that has
/// lost nothing, and no failure for want of a slot.
pub open spec fn sound_after(before: InterpreterView, out: (InterpreterView, Action)) -> bool {
    &&& machine_ok(out.0)
    &&& within(sizes(before.heap), sizes(out.0.heap))
    &&& no_slot_missed(out.1)
}

/// A sound machine but for its focus, which is being dealt with.
pub open spec fn base_ok(machine: InterpreterView) -> bool {
    &&& heap_ok(machine.heap)
    &&& rest_ok(sizes(machine.heap), machine)
}

pub proof fn lemma_super_method_ok<'a>(
    machine: InterpreterView<'a>,
    keyword: &'a Token,
    method: &'a Token,
)
    requires
        base_ok(machine),
        fits(sizes(machine.super_method(keyword, method).0.heap)),
    ensures
        sound_after(machine, machine.super_method(keyword, method)),
{
    if machine.locals.contains_key(crate::locals::site(keyword))
        && machine.locals[crate::locals::site(keyword)] != 0 {
        let distance = machine.locals[crate::locals::site(keyword)];
        lemma_get_at_ok(machine.heap, machine.environment, distance as nat, "super"@);
        lemma_get_at_ok(machine.heap, machine.environment, (distance - 1) as nat, "this"@);
        match (
            machine.heap.get_at(machine.environment, distance as nat, "super"@),
            machine.heap.get_at(machine.environment, (distance - 1) as nat, "this"@),
        ) {
            (Some(Object::Class(class)), Some(receiver)) => {
                lemma_bound_method_ok(machine.heap, class, method.lexeme@, receiver);
            },
            _ => {},
        }
    }
}

pub proof fn lemma_evaluate_ok<'a>(machine: InterpreterView<'a>, expression: &'a Expr)
    requires
        base_ok(machine),
        fits(sizes(machine.evaluate(expression).0.heap)),
    ensures
        sound_after(machine, machine.evaluate(expression)),
{
    match expression {
        Expr::Literal { value } => {
            match value {
                crate::token::Literal::String(text) => {
                    lemma_with_string_ok(machine.heap, text@);
                },
                crate::token::Literal::Identifier(text) => {
                    lemma_with_string_ok(machine.heap, text@);
                },
                _ => {},
            }
        },
        Expr::Variable { name } => {
            if machine.locals.contains_key(crate::locals::site(name)) {
                lemma_get_at_ok(
                    machine.heap,
                    machine.environment,
                    machine.locals[crate::locals::site(name)] as nat,
                    name.lexeme@,
                );
            } else {
                lemma_lookup_ok(machine.heap, machine.globals, name.lexeme@);
            }
        },
        Expr::This { keyword } => {
            if machine.locals.contains_key(crate::locals::site(keyword)) {
                lemma_get_at_ok(
                    machine.heap,
                    machine.environment,
                    machine.locals[crate::locals::site(keyword)] as nat,
                    keyword.lexeme@,
                );
            } else {
                lemma_lookup_ok(machine.heap, machine.globals, keyword.lexeme@);
            }
        },
        Expr::Super { keyword, method } => {
            lemma_super_method_ok(machine, keyword, method);
        },
        _ => {},
    }
}

pub proof fn lemma_declare_class_ok<'a>(
    machine: InterpreterView<'a>,
    name: &'a Token,
    superclass: Option<usize>,
    methods: &'a Vec<Stmt>,
)
    requires
        base_ok(machine),
        superclass matches Some(parent) ==> parent < machine.heap.classes.len(),
        fits(sizes(machine.declare_class(name, superclass, methods).0.heap)),
    ensures
        sound_after(machine, machine.declare_class(name, superclass, methods)),
{
    let heap = machine.heap;
    let declared = heap.define(machine.environment, name.lexeme@, Object::Nil);
    lemma_define_ok(heap, machine.environment, name.lexeme@, Object::Nil);
    let closure = match superclass {
        Some(_) => declared.environments.len() as usize,
        None => machine.environment,
    };
    let scoped = match superclass {
        Some(parent) => declared.with_environment(Some(machine.environment)).define(
            closure,
            "super"@,
            Object::Class(parent),
        ),
        None => declared,
    };
    lemma_collect_methods_grows(scoped, methods, 0, closure, Map::empty());
    let (stored, table) = collect_methods(scoped, methods, 0, closure, Map::empty());
    match superclass {
        Some(parent) => {
            lemma_with_environment_ok(declared, Some(machine.environment));
            lemma_define_ok(
                declared.with_environment(Some(machine.environment)),
                closure,
                "super"@,
                Object::Class(parent),
            );
        },
        None => {},
    }
    lemma_collect_methods_ok(scoped, methods, 0, closure, Map::empty());
    let class = ClassView { name: name.lexeme@, superclass, methods: table };
    lemma_with_class_ok(stored, class);
    let classed = stored.with_class(class);
    lemma_define_ok(
        classed,
        machine.environment,
        name.lexeme@,
        Object::Class(stored.classes.len() as usize),
    );
}

pub proof fn lemma_execute_ok<'a>(machine: InterpreterView<'a>, statement: &'a Stmt)
    requires
        base_ok(machine),
        fits(sizes(machine.execute(statement).0.heap)),
    ensures
        sound_after(machine, machine.execute(statement)),
{
    match statement {
        Stmt::Var { name, initializer } => {
            lemma_define_ok(machine.heap, machine.environment, name.lexeme@, Object::Nil);
        },
        Stmt::Block { statements } => {
            lemma_with_environment_ok(machine.heap, Some(machine.environment));
        },
        Stmt::Function { name, params, body } => {
            let function = Function::User {
                name,
                params,
                body,
                closure: machine.environment,
                is_initializer: false,
            };
            lemma_with_function_ok(machine.heap, function);
            lemma_define_ok(
                machine.heap.with_function(function),
                machine.environment,
                name.lexeme@,
                Object::Callable(machine.heap.functions.len() as usize),
            );
        },
        Stmt::Class { name, superclass, methods } => {
            match superclass {
                Some(parent) => {},
                None => {
                    lemma_declare_class_ok(machine, name, None, methods);
                },
            }
        },
        _ => {},
    }
}

pub proof fn lemma_binary_ok<'a>(
    machine: InterpreterView<'a>,
    operator: &'a Token,
    left: Object,
    right: Object,
)
    requires
        base_ok(machine),
        object_ok(sizes(machine.heap), left),
        object_ok(sizes(machine.heap), right),
        fits(sizes(machine.binary(operator, left, right).0.heap)),
    ensures
        sound_after(machine, machine.binary(operator, left, right)),
{
    if operator.kind == TokenType::Plus {
        match (left, right) {
            (Object::String(a), Object::String(b)) => {
                lemma_with_string_ok(
                    machine.heap,
                    machine.heap.strings[a as int] + machine.heap.strings[b as int],
                );
            },
            _ => {},
        }
    }
}

pub proof fn lemma_call_ok<'a>(
    machine: InterpreterView<'a>,
    function: Function<'a>,
    argument_count: usize,
)
    requires
        base_ok(machine),
        function_ok(sizes(machine.heap), function),
        fits(sizes(machine.call(function, argument_count).0.heap)),
    ensures
        sound_after(machine, machine.call(function, argument_count)),
{
    match function {
        Function::Native { arity, id } => {},
        Function::User { name, params, body, closure, is_initializer } => {
            let frame = machine.heap.environments.len() as usize;
            let arguments = if argument_count <= machine.operands.len() {
                machine.operands.skip(machine.operands.len() - argument_count)
            } else {
                machine.operands
            };
            let started = machine.heap.with_environment(Some(closure));
            lemma_bind_parameters_keeps_sizes(started, frame, params, arguments, 0);
            lemma_with_environment_ok(machine.heap, Some(closure));
            lemma_bind_parameters_ok(started, frame, params, arguments, 0);
        },
    }
}

pub proof fn lemma_invoke_ok<'a>(
    machine: InterpreterView<'a>,
    callee: Object,
    paren: &'a Token,
    argument_count: usize,
)
    requires
        base_ok(machine),
        object_ok(sizes(machine.heap), callee),
        fits(sizes(machine.invoke(callee, paren, argument_count).0.heap)),
    ensures
        sound_after(machine, machine.invoke(callee, paren, argument_count)),
{
    match callee {
        Object::Callable(f) => {
            let function = machine.heap.functions[f as int];
            assert(function_ok(sizes(machine.heap), function));
            if argument_count == function.spec_arity() {
                lemma_call_ok(machine, function, argument_count);
            }
        },
        Object::Class(class) => {
            let instance = machine.heap.instances.len() as usize;
            let made = machine.with_heap(machine.heap.with_instance(class));
            lemma_find_method_ok(machine.heap, class, "init"@);
            match machine.heap.find_method(class, "init"@) {
                Some(init) => {
                    let initializer = machine.heap.functions[init as int];
                    assert(function_ok(sizes(machine.heap), initializer));
                    if argument_count == initializer.spec_arity() {
                        let (heap, bound) = made.heap.bind(initializer, Object::Instance(instance));
                        let entering = made.with_heap(heap).push(Frame::Construct { instance });
                        lemma_call_grows(entering, bound, argument_count);
                        lemma_bind_grows(made.heap, initializer, Object::Instance(instance));
                        lemma_with_instance_ok(machine.heap, class);
                        lemma_bind_ok(made.heap, initializer, Object::Instance(instance));
                        lemma_call_ok(entering, bound, argument_count);
                    } else {
                        lemma_with_instance_ok(machine.heap, class);
                    }
                },
                None => {
                    lemma_with_instance_ok(machine.heap, class);
                },
            }
        },
        _ => {},
    }
}

/// Binding never takes a slot away.
pub proof fn lemma_bind_grows<'a>(heap: HeapView<'a>, function: Function<'a>, receiver: Object)
    ensures
        within(sizes(heap), sizes(heap.bind(function, receiver).0)),
{
}

/// Entering a function never takes a slot away.
pub proof fn lemma_call_grows<'a>(
    machine: InterpreterView<'a>,
    function: Function<'a>,
    argument_count: usize,
)
    ensures
        within(sizes(machine.heap), sizes(machine.call(function, argument_count).0.heap)),
{
    match function {
        Function::Native { arity, id } => {},
        Function::User { name, params, body, closure, is_initializer } => {
            let frame = machine.heap.environments.len() as usize;
            let arguments = if argument_count <= machine.operands.len() {
                machine.operands.skip(machine.operands.len() - argument_count)
            } else {
                machine.operands
            };
            lemma_bind_parameters_keeps_sizes(
                machine.heap.with_environment(Some(closure)),
                frame,
                params,
                arguments,
                0,
            );
        },
    }
}

pub proof fn lemma_bind_parameters_keeps_sizes<'a>(
    heap: HeapView<'a>,
    env: usize,
    params: &'a Vec<Token>,
    arguments: Seq<Object>,
    from: int,
)
    ensures
        sizes(bind_parameters(heap, env, params, arguments, from)) == sizes(heap),
    decreases params@.len() - from,
{
    if !(from < 0 || from >= params@.len() || from >= arguments.len()) {
        lemma_bind_parameters_keeps_sizes(
            heap.define(env, params@[from].lexeme@, arguments[from]),
            env,
            params,
            arguments,
            from + 1,
        );
    }
}

pub proof fn lemma_assign_variable_ok<'a>(machine: InterpreterView<'a>, name: &Token, value: Object)
    requires
        base_ok(machine),
        object_ok(sizes(machine.heap), value),
    ensures
        machine.assign_variable(name, value) matches Some(heap) ==> heap_ok(heap) && sizes(heap)
            == sizes(machine.heap),
{
    if machine.locals.contains_key(crate::locals::site(name)) {
        match machine.heap.ancestor(
            machine.environment,
            machine.locals[crate::locals::site(name)] as nat,
        ) {
            Some(a) => {
                lemma_define_ok(machine.heap, a, name.lexeme@, value);
            },
            None => {},
        }
    } else {
        match machine.heap.holder(machine.globals, name.lexeme@) {
            Some(h) => {
                lemma_define_ok(machine.heap, h, name.lexeme@, value);
            },
            None => {},
        }
    }
}

/// What a call is worth is sound if what it returned is.
pub proof fn lemma_call_result_ok<'a>(
    machine: InterpreterView<'a>,
    function: Function<'a>,
    returned: Object,
)
    requires
        heap_ok(machine.heap),
        object_ok(sizes(machine.heap), returned),
    ensures
        object_ok(sizes(machine.heap), machine.call_result(function, returned)),
{
    match function {
        Function::User { closure, is_initializer, .. } => {
            lemma_get_at_ok(machine.heap, closure, 0, "this"@);
        },
        Function::Native { .. } => {},
    }
}

pub proof fn lemma_deliver_ok<'a>(machine: InterpreterView<'a>, frame: Frame<'a>, value: Object)
    requires
        base_ok(machine),
        frame_ok(sizes(machine.heap), frame),
        object_ok(sizes(machine.heap), value),
        fits(sizes(machine.deliver(frame, value).0.heap)),
    ensures
        sound_after(machine, machine.deliver(frame, value)),
{
    match frame {
        Frame::Define { name } => {
            lemma_define_ok(machine.heap, machine.environment, name.lexeme@, value);
        },
        Frame::Superclass { name, superclass, methods } => {
            match value {
                Object::Class(parent) => {
                    lemma_declare_class_ok(machine, name, Some(parent), methods);
                },
                _ => {},
            }
        },
        Frame::Right { operator, left } => {
            lemma_binary_ok(machine, operator, left, value);
        },
        Frame::Assign { name } => {
            lemma_assign_variable_ok(machine, name, value);
        },
        Frame::Callee { paren, arguments } => {
            if arguments@.len() == 0 {
                lemma_invoke_ok(machine, value, paren, 0);
            }
        },
        Frame::Arguments { callee, paren, arguments, next } => {
            let pushed = InterpreterView { operands: machine.operands.push(value), ..machine };
            if !(next + 1 < arguments@.len()) {
                lemma_invoke_ok(pushed, callee, paren, arguments@.len() as usize);
            }
        },
        Frame::Get { name } => {
            match value {
                Object::Instance(instance) => {
                    lemma_get_property_ok(machine.heap, instance, name.lexeme@);
                },
                _ => {},
            }
        },
        Frame::SetValue { instance, name } => {
            lemma_set_field_ok(machine.heap, instance, name.lexeme@, value);
        },
        Frame::Call { restore, function } => {
            lemma_call_result_ok(machine, function, Object::Nil);
        },
        _ => {},
    }
}

pub proof fn lemma_unwind_ok<'a>(machine: InterpreterView<'a>, frame: Frame<'a>, value: Object)
    requires
        base_ok(machine),
        frame_ok(sizes(machine.heap), frame),
        object_ok(sizes(machine.heap), value),
    ensures
        sound_after(machine, machine.unwind(frame, value)),
{
    match frame {
        Frame::Call { restore, function } => {
            lemma_call_result_ok(machine, function, value);
        },
        _ => {},
    }
}

/// A sound machine is sound after a step, has lost no slot, and has not
/// failed for want of one.
pub proof fn law_step_stays_sound<'a>(machine: InterpreterView<'a>)
    requires
        machine_ok(machine),
        fits(sizes(machine.step().0.heap)),
    ensures
        sound_after(machine, machine.step()),
{
    match machine.focus {
        Focus::Statement(statement) => {
            lemma_execute_ok(machine, statement);
        },
        Focus::Expression(expression) => {
            lemma_evaluate_ok(machine, expression);
        },
        Focus::Value(value) => {
            if machine.frames.len() > 0 {
                assert(frame_ok(sizes(machine.heap), machine.frames[machine.frames.len() - 1]));
                lemma_deliver_ok(machine.pop(), machine.frames.last(), value);
            }
        },
        Focus::Returning(value) => {
            if machine.frames.len() > 0 {
                assert(frame_ok(sizes(machine.heap), machine.frames[machine.frames.len() - 1]));
                lemma_unwind_ok(machine.pop(), machine.frames.last(), value);
            }
        },
        _ => {},
    }
}

pub proof fn lemma_declare_class_grows<'a>(
    machine: InterpreterView<'a>,
    name: &'a Token,
    superclass: Option<usize>,
    methods: &'a Vec<Stmt>,
)
    ensures
        within(sizes(machine.heap), sizes(machine.declare_class(name, superclass, methods).0.heap)),
{
    let declared = machine.heap.define(machine.environment, name.lexeme@, Object::Nil);
    let closure = match superclass {
        Some(_) => declared.environments.len() as usize,
        None => machine.environment,
    };
    let scoped = match superclass {
        Some(parent) => declared.with_environment(Some(machine.environment)).define(
            closure,
            "super"@,
            Object::Class(parent),
        ),
        None => declared,
    };
    lemma_collect_methods_grows(scoped, methods, 0, closure, Map::empty());
}

pub proof fn lemma_invoke_grows<'a>(
    machine: InterpreterView<'a>,
    callee: Object,
    paren: &'a Token,
    argument_count: usize,
)
    ensures
        within(sizes(machine.heap), sizes(machine.invoke(callee, paren, argument_count).0.heap)),
{
    match callee {
        Object::Callable(f) => {
            if f < machine.heap.functions.len() {
                lemma_call_grows(machine, machine.heap.functions[f as int], argument_count);
            }
        },
        Object::Class(class) => {
            if class < machine.heap.classes.len() {
                let instance = machine.heap.instances.len() as usize;
                let made = machine.with_heap(machine.heap.with_instance(class));
                match machine.heap.find_method(class, "init"@) {
                    Some(init) => {
                        if init < machine.heap.functions.len() {
                            let initializer = machine.heap.functions[init as int];
                            let (heap, bound) = made.heap.bind(
                                initializer,
                                Object::Instance(instance),
                            );
                            lemma_call_grows(
                                made.with_heap(heap).push(Frame::Construct { instance }),
                                bound,
                                argument_count,
                            );
                        }
                    },
                    None => {},
                }
            }
        },
        _ => {},
    }
}

pub proof fn lemma_deliver_grows<'a>(machine: InterpreterView<'a>, frame: Frame<'a>, value: Object)
    ensures
        within(sizes(machine.heap), sizes(machine.deliver(frame, value).0.heap)),
{
    match frame {
        Frame::Superclass { name, superclass, methods } => {
            match value {
                Object::Class(parent) => {
                    lemma_declare_class_grows(machine, name, Some(parent), methods);
                },
                _ => {},
            }
        },
        Frame::Callee { paren, arguments } => {
            lemma_invoke_grows(machine, value, paren, 0);
        },
        Frame::Arguments { callee, paren, arguments, next } => {
            let pushed = InterpreterView { operands: machine.operands.push(value), ..machine };
            lemma_invoke_grows(pushed, callee, paren, arguments@.len() as usize);
        },
        _ => {},
    }
}

/// No step takes a slot away, whatever the machine.
pub proof fn lemma_step_grows<'a>(machine: InterpreterView<'a>)
    ensures
        within(sizes(machine.heap), sizes(machine.step().0.heap)),
{
    match machine.focus {
        Focus::Statement(statement) => {
            match statement {
                Stmt::Class { name, superclass, methods } => {
                    lemma_declare_class_grows(machine, name, None, methods);
                },
                _ => {},
            }
        },
        Focus::Value(value) => {
            if machine.frames.len() > 0 {
                lemma_deliver_grows(machine.pop(), machine.frames.last(), value);
            }
        },
        _ => {},
    }
}

pub proof fn lemma_run_grows<'a>(machine: InterpreterView<'a>, fuel: nat)
    ensures
        within(sizes(machine.heap), sizes(machine.run(fuel).0.heap)),
    decreases fuel,
{
    if fuel > 0 {
        lemma_step_grows(machine);
        if machine.step().1 is Continue {
            lemma_run_grows(machine.step().0, (fuel - 1) as nat);
        }
    }
}

/// A sound machine is sound after any number of steps, as long as the
/// heap it ends with can be held: it has lost no slot, and it has not
/// failed for want of one.
pub proof fn law_run_stays_sound<'a>(machine: InterpreterView<'a>, fuel: nat)
    requires
        machine_ok(machine),
        fits(sizes(machine.run(fuel).0.heap)),
    ensures
        sound_after(machine, machine.run(fuel)),
    decreases fuel,
{
    if fuel > 0 {
        lemma_step_grows(machine);
        if machine.step().1 is Continue {
            lemma_run_grows(machine.step().0, (fuel - 1) as nat);
            law_step_stays_sound(machine);
            law_run_stays_sound(machine.step().0, (fuel - 1) as nat);
        } else {
            law_step_stays_sound(machine);
        }
    }
}

/// A fresh machine is sound.
pub proof fn law_fresh_machine_is_sound()
    ensures
        machine_ok(InterpreterView::fresh()),
{
    let empty = HeapView::empty();
    let started = empty.with_environment(None);
    lemma_with_environment_ok(empty, None);
    let clock = Function::Native { arity: 0, id: crate::interpreter::CLOCK };
    lemma_with_function_ok(started, clock);
    lemma_define_ok(started.with_function(clock), 0, "clock"@, Object::Callable(0));
}

/// Loading a program or expressions into a sound machine leaves it
/// sound.
pub proof fn law_loading_keeps_sound<'a>(
    machine: InterpreterView<'a>,
    statements: &'a Vec<Stmt>,
    expressions: &'a Vec<Expr>,
)
    requires
        machine_ok(machine),
    ensures
        machine_ok(machine.interpret(statements)),
        machine_ok(machine.interpret_expressions(expressions)),
{
}

/// An answer that names slots that exist leaves a sound machine sound.
pub proof fn law_sound_answer_keeps_sound<'a>(machine: InterpreterView<'a>, value: Object)
    requires
        machine_ok(machine),
        object_ok(sizes(machine.heap), value),
    ensures
        machine_ok(machine.supply(value)),
{
}

} // verus!
