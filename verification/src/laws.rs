//! What holds of the evaluator and the resolver whatever the program.

use vstd::prelude::*;
use crate::error::Message;
use crate::expr::Expr;
use crate::function::Function;
use crate::heap::HeapView;
use crate::interpreter::Action;
use crate::interpreter::Focus;
use crate::interpreter::Frame;
use crate::interpreter::InterpreterView;
use crate::locals::site;
use crate::resolver::ClassType;
use crate::resolver::FunctionType;
use crate::resolver::Resolution;
use crate::resolver::depth_from;
use crate::resolver::depth_of;
use crate::resolver::scope_at;
use crate::scanner::Scan;
use crate::scanner::digits_end;
use crate::scanner::is_digit;
use crate::scanner::line_end;
use crate::scanner::scan;
use crate::scanner::string_end;
use crate::scanner::word_end;
use crate::stmt::Stmt;
use crate::token::Object;
use crate::token::Token;
use crate::token::TokenType;
use crate::token::TokenView;

verus! {

/// Binding a name changes no link between frames.
pub proof fn lemma_define_keeps_chain(
    heap: HeapView,
    env: usize,
    name: Seq<char>,
    value: Object,
    from: usize,
    distance: nat,
)
    ensures
        heap.define(env, name, value).ancestor(from, distance) == heap.ancestor(from, distance),
    decreases distance,
{
    if from < heap.environments.len() && distance > 0 {
        match heap.environments[from as int].enclosing {
            Some(parent) => {
                lemma_define_keeps_chain(heap, env, name, value, parent, (distance - 1) as nat);
            },
            None => {},
        }
    }
}

/// Rebinding a name in the frame that holds it leaves it the holder for
/// everyone who found it there.
pub proof fn lemma_define_keeps_holder(
    heap: HeapView,
    holder: usize,
    name: Seq<char>,
    value: Object,
    from: usize,
)
    requires
        heap.holder(from, name) == Some(holder),
    ensures
        heap.define(holder, name, value).holder(from, name) == Some(holder),
    decreases from,
{
    heap.lemma_holder_binds(from, name);
    if from < heap.environments.len() && !heap.environments[from as int].values.contains_key(
        name,
    ) {
        match heap.environments[from as int].enclosing {
            Some(parent) => {
                if parent < from {
                    lemma_define_keeps_holder(heap, holder, name, value, parent);
                }
            },
            None => {},
        }
    }
}

/// A variable is shared, not copied. Whoever reaches a frame, from
/// whatever frame and over whatever distance, reads what was last
/// assigned there: an assignment made through one chain of frames is what
/// a closure sees through another.
pub proof fn law_assignment_is_seen_through_every_chain(
    heap: HeapView,
    writer: usize,
    writer_distance: nat,
    reader: usize,
    reader_distance: nat,
    name: Seq<char>,
    value: Object,
)
    requires
        heap.ancestor(writer, writer_distance) is Some,
        heap.ancestor(writer, writer_distance) == heap.ancestor(reader, reader_distance),
    ensures
        heap.assign_at(writer, writer_distance, name, value) is Some,
        heap.assign_at(writer, writer_distance, name, value).unwrap().get_at(
            reader,
            reader_distance,
            name,
        ) == Some(value),
{
    let frame = heap.ancestor(writer, writer_distance).unwrap();
    heap.lemma_ancestor_exists(writer, writer_distance);
    lemma_define_keeps_chain(heap, frame, name, value, reader, reader_distance);
}

/// The same for a variable found by name: after an assignment, whoever
/// finds the variable in the same frame reads the new value.
pub proof fn law_assignment_by_name_is_seen(
    heap: HeapView,
    writer: usize,
    reader: usize,
    name: Seq<char>,
    value: Object,
)
    requires
        heap.holder(writer, name) is Some,
        heap.holder(writer, name) == heap.holder(reader, name),
    ensures
        heap.assign(writer, name, value) is Some,
        heap.assign(writer, name, value).unwrap().lookup(reader, name) == Some(value),
{
    let frame = heap.holder(writer, name).unwrap();
    heap.lemma_holder_binds(writer, name);
    lemma_define_keeps_holder(heap, frame, name, value, reader);
}

/// A function declaration captures the environment it runs in, by its
/// slot: the function stored is the last of the heap, closes over the
/// current environment, and is what the name is bound to.
pub proof fn law_function_captures_its_environment<'a>(
    machine: InterpreterView<'a>,
    statement: &'a Stmt,
)
    requires
        statement is Function,
        machine.environment < machine.heap.environments.len(),
    ensures
        ({
            let after = machine.execute(statement).0;
            &&& after.heap.functions.len() == machine.heap.functions.len() + 1
            &&& after.heap.functions.last() matches Function::User { closure, is_initializer, .. }
                && closure == machine.environment && !is_initializer
            &&& after.heap.environments[machine.environment as int].values[statement->Function_name.lexeme@]
                == Object::Callable(machine.heap.functions.len() as usize)
        }),
{
}

/// Every entry into a block gets a frame of its own: the current
/// environment becomes a slot that did not exist before, empty, inside
/// the environment the block was entered from, which is the one to come
/// back to. So each turn of a loop has its own variables, and a function
/// declared in one turn captures that turn's frame and no other.
pub proof fn law_block_gets_a_fresh_frame<'a>(machine: InterpreterView<'a>, statement: &'a Stmt)
    requires
        statement is Block,
        machine.heap.environments.len() < usize::MAX,
    ensures
        ({
            let after = machine.execute(statement).0;
            &&& after.environment == machine.heap.environments.len()
            &&& after.heap.environments.len() == machine.heap.environments.len() + 1
            &&& after.heap.environments[after.environment as int].enclosing == Some(
                machine.environment,
            )
            &&& after.heap.environments[after.environment as int].values == Map::<
                Seq<char>,
                Object,
            >::empty()
            &&& after.heap.environments.take(machine.heap.environments.len() as int)
                == machine.heap.environments
            &&& after.frames == machine.frames.push(
                Frame::Sequence {
                    statements: &statement->Block_statements,
                    next: 0,
                    restore: Some(machine.environment),
                },
            )
        }),
{
    let after = machine.execute(statement).0;
    assert(after.heap.environments.take(machine.heap.environments.len() as int)
        =~= machine.heap.environments);
}

/// Entering a function of the script makes the new frame a child of the
/// function's closure, not of the caller's environment: what the body
/// finds one frame out is what the closure binds.
pub proof fn law_call_runs_inside_the_closure<'a>(
    machine: InterpreterView<'a>,
    function: Function<'a>,
    argument_count: usize,
)
    requires
        function is User,
        function->User_closure < machine.heap.environments.len() <= usize::MAX,
    ensures
        ({
            let after = machine.call(function, argument_count).0;
            &&& after.environment == machine.heap.environments.len()
            &&& after.heap.ancestor(after.environment, 1) == machine.heap.ancestor(
                function->User_closure,
                0,
            )
        }),
{
    let frame = machine.heap.environments.len() as usize;
    let started = machine.heap.with_environment(Some(function->User_closure));
    let arguments = if argument_count <= machine.operands.len() {
        machine.operands.skip(machine.operands.len() - argument_count)
    } else {
        machine.operands
    };
    lemma_parameters_keep_chain(started, frame, function->User_params, arguments, 0, frame, 1);
    reveal_with_fuel(HeapView::ancestor, 3);
}

/// Binding parameters changes no link between frames.
pub proof fn lemma_parameters_keep_chain<'a>(
    heap: HeapView<'a>,
    env: usize,
    params: &'a Vec<Token>,
    arguments: Seq<Object>,
    from: int,
    start: usize,
    distance: nat,
)
    ensures
        crate::interpreter::bind_parameters(heap, env, params, arguments, from).ancestor(
            start,
            distance,
        ) == heap.ancestor(start, distance),
        crate::interpreter::bind_parameters(heap, env, params, arguments, from).environments.len()
            == heap.environments.len(),
    decreases params@.len() - from,
{
    if !(from < 0 || from >= params@.len() || from >= arguments.len()) {
        let next = heap.define(env, params@[from].lexeme@, arguments[from]);
        lemma_define_keeps_chain(heap, env, params@[from].lexeme@, arguments[from], start, distance);
        lemma_parameters_keep_chain(next, env, params, arguments, from + 1, start, distance);
    }
}

/// `or` and `and` look at their right operand only when the left one
/// does not settle the matter. When the left operand of `or` is truthy,
/// or that of `and` is not, the step that receives it yields it as it is
/// and drops the right operand with the frame that held it; in the other
/// two cases the right operand is what is evaluated next.
pub proof fn law_short_circuit<'a>(
    machine: InterpreterView<'a>,
    operator: &'a Token,
    right: &'a Expr,
    left: Object,
)
    requires
        machine.focus == Focus::Value(left),
        machine.frames.len() > 0,
        machine.frames.last() == (Frame::Logical { operator, right }),
    ensures
        ({
            let settled = if operator.kind == TokenType::Or {
                left.truthy()
            } else {
                !left.truthy()
            };
            let (after, action) = machine.step();
            &&& action == Action::Continue
            &&& after.frames == machine.frames.drop_last()
            &&& after.heap == machine.heap
            &&& after.operands == machine.operands
            &&& after.focus == if settled {
                Focus::Value(left)
            } else {
                Focus::Expression(right)
            }
        }),
{
}

/// A binary operator fails in one of three ways only: a division by
/// zero, a string operand that names no text, or operands of the wrong
/// kind, and then with the message that belongs to the operator. The
/// message carries the operands as they were.
pub proof fn law_binary_failures<'a>(
    machine: InterpreterView<'a>,
    operator: &'a Token,
    left: Object,
    right: Object,
)
    ensures
        match machine.binary(operator, left, right).1 {
            Action::Failed(fault) => {
                &&& fault.token == operator
                &&& fault.message == (Message::ZeroDivision { left, right }) || fault.message
                    == Message::DanglingReference || fault.message
                    == crate::interpreter::operands_message(operator.kind, left, right)
                &&& fault.message is ZeroDivision ==> (operator.kind == TokenType::Slash && left
                    is Number && right is Number && crate::number::is_zero(right->Number_0))
            },
            Action::Arithmetic { operator: asked, left: a, right: b } => {
                &&& asked == operator.kind
                &&& left == Object::Number(a)
                &&& right == Object::Number(b)
                &&& asked == TokenType::Plus || asked == TokenType::Minus || asked
                    == TokenType::Star || asked == TokenType::Slash
                &&& asked == TokenType::Slash ==> !crate::number::is_zero(b)
            },
            Action::Continue => true,
            _ => false,
        },
{
}

/// Method lookup starts at the class and goes upward: a class's own
/// method wins, and only a class without the method asks its superclass.
pub proof fn law_method_lookup(heap: HeapView, class: usize, name: Seq<char>)
    requires
        class < heap.classes.len(),
    ensures
        heap.classes[class as int].methods.contains_key(name) ==> heap.find_method(class, name)
            == Some(heap.classes[class as int].methods[name]),
        !heap.classes[class as int].methods.contains_key(name) ==> heap.find_method(class, name)
            == match heap.classes[class as int].superclass {
            Some(parent) => if parent < class {
                heap.find_method(parent, name)
            } else {
                None
            },
            None => None,
        },
{
}

/// `super.method` does not ask the receiver's class. With the resolver's
/// distance for `super` at hand, the method is looked up from the class
/// that `super` is bound to at that distance, and bound to the receiver
/// that `this` is bound to one frame nearer.
pub proof fn law_super_starts_at_the_superclass<'a>(
    machine: InterpreterView<'a>,
    keyword: &'a Token,
    method: &'a Token,
    class: usize,
    receiver: Object,
)
    requires
        machine.locals.contains_key(site(keyword)),
        machine.locals[site(keyword)] >= 1,
        machine.heap.get_at(machine.environment, machine.locals[site(keyword)] as nat, "super"@)
            == Some(Object::Class(class)),
        machine.heap.get_at(
            machine.environment,
            (machine.locals[site(keyword)] - 1) as nat,
            "this"@,
        ) == Some(receiver),
    ensures
        machine.super_method(keyword, method) == match machine.heap.bound_method(
            class,
            method.lexeme@,
            receiver,
        ).1 {
            Some(value) => machine.with_heap(
                machine.heap.bound_method(class, method.lexeme@, receiver).0,
            ).yields(value),
            None => machine.fail(method, Message::UndefinedProperty),
        },
        machine.heap.bound_method(class, method.lexeme@, receiver).1 is Some <==> (
        machine.heap.find_method(class, method.lexeme@) matches Some(m) && m
            < machine.heap.functions.len()),
{
}

/// A bound method finds its receiver as `this` in its own closure.
pub proof fn law_bound_method_knows_its_receiver<'a>(
    heap: HeapView<'a>,
    function: Function<'a>,
    receiver: Object,
)
    requires
        function is User,
        function->User_closure < heap.environments.len() <= usize::MAX,
    ensures
        ({
            let (after, bound) = heap.bind(function, receiver);
            &&& bound is User
            &&& after.get_at(bound->User_closure, 0, "this"@) == Some(receiver)
            &&& after.ancestor(bound->User_closure, 1) == heap.ancestor(function->User_closure, 0)
            &&& bound->User_is_initializer == function->User_is_initializer
        }),
{
    reveal_with_fuel(HeapView::ancestor, 3);
}

/// An initializer is worth its receiver however it ends: whatever value
/// its body returned, or none, the call yields what `this` is bound to.
pub proof fn law_initializer_returns_the_receiver<'a>(
    machine: InterpreterView<'a>,
    initializer: Function<'a>,
    receiver: Object,
    returned: Object,
)
    requires
        initializer is User,
        initializer->User_is_initializer,
        initializer->User_closure < machine.heap.environments.len() <= usize::MAX,
    ensures
        ({
            let (heap, bound) = machine.heap.bind(initializer, receiver);
            machine.with_heap(heap).call_result(bound, returned) == receiver
        }),
{
    law_bound_method_knows_its_receiver(machine.heap, initializer, receiver);
}

/// Calling a class yields an instance of it. Without an initializer the
/// new instance is yielded at once. With one, a frame is left under the
/// initializer's call that turns whatever the call is worth into the
/// instance.
pub proof fn law_class_call_yields_the_instance<'a>(
    machine: InterpreterView<'a>,
    instance: usize,
    value: Object,
)
    ensures
        machine.deliver(Frame::Construct { instance }, value) == machine.yields(
            Object::Instance(instance),
        ),
{
}

/// Resolving an expression never takes a finding back.
pub proof fn lemma_expression_keeps_findings<'a>(state: Resolution<'a>, expression: &'a Expr)
    ensures
        state.had_error ==> state.resolve_expr(expression).had_error,
        state.resolve_expr(expression).current_function == state.current_function,
    decreases expression, 0nat,
{
    reveal(Resolution::resolve_expr);
    reveal(Resolution::resolve_exprs);
    match expression {
        Expr::Binary { left, operator, right } => {
            lemma_expression_keeps_findings(state, &**left);
            lemma_expression_keeps_findings(state.resolve_expr(&**left), &**right);
        },
        Expr::Logical { left, operator, right } => {
            lemma_expression_keeps_findings(state, &**left);
            lemma_expression_keeps_findings(state.resolve_expr(&**left), &**right);
        },
        Expr::Grouping { expr } => {
            lemma_expression_keeps_findings(state, &**expr);
        },
        Expr::Unary { operator, right } => {
            lemma_expression_keeps_findings(state, &**right);
        },
        Expr::Assign { name, value } => {
            lemma_expression_keeps_findings(state, &**value);
        },
        Expr::Call { callee, paren, arguments } => {
            lemma_expression_keeps_findings(state, &**callee);
            lemma_expressions_keep_findings(state.resolve_expr(&**callee), arguments, 0);
        },
        Expr::Get { object, name } => {
            lemma_expression_keeps_findings(state, &**object);
        },
        Expr::SetProperty { object, name, value } => {
            lemma_expression_keeps_findings(state, &**value);
            lemma_expression_keeps_findings(state.resolve_expr(&**value), &**object);
        },
        _ => {},
    }
}

pub proof fn lemma_expressions_keep_findings<'a>(
    state: Resolution<'a>,
    expressions: &'a Vec<Expr>,
    from: int,
)
    ensures
        state.had_error ==> state.resolve_exprs(expressions, from).had_error,
        state.resolve_exprs(expressions, from).current_function == state.current_function,
    decreases expressions, expressions@.len() - from,
{
    reveal(Resolution::resolve_exprs);
    reveal(Resolution::resolve_expr);
    if !(from < 0 || from >= expressions@.len()) {
        lemma_expression_keeps_findings(state, &expressions@[from]);
        lemma_expressions_keep_findings(
            state.resolve_expr(&expressions@[from]),
            expressions,
            from + 1,
        );
    }
}

/// `return` with a value inside an initializer is a mistake the resolver
/// finds: resolving the statement sets `had_error`, and the finding for
/// it stands in the list, at the `return`, right after the findings that
/// were there (and after the one for a `return` outside any function,
/// which cannot be made at the same time).
pub proof fn law_initializer_cannot_return_a_value<'a>(
    state: Resolution<'a>,
    statement: &'a Stmt,
)
    requires
        state.current_function == FunctionType::Initializer,
        statement is Return,
        statement->Return_value is Some,
    ensures
        state.resolve_stmt(statement).had_error,
        state.resolve_stmt(statement) == state.error(
            &statement->Return_keyword,
            Message::ReturnValueFromInitializer,
        ).resolve_expr(&statement->Return_value->Some_0),
{
    reveal(Resolution::resolve_stmt);
    match statement {
        Stmt::Return { keyword, value } => {
            match value {
                Some(v) => {
                    lemma_expression_keeps_findings(
                        state.error(keyword, Message::ReturnValueFromInitializer),
                        v,
                    );
                },
                None => {},
            }
        },
        _ => {},
    }
}

/// A `return` outside every function is found, and so is a `return` with
/// a value inside an initializer: either sets `had_error`, whatever is
/// found in the value. A `return` without a value inside a function
/// changes nothing.
pub proof fn law_return_is_checked<'a>(
    state: Resolution<'a>,
    keyword: &'a Token,
    value: &'a Option<Expr>,
)
    ensures
        state.current_function == FunctionType::Outside ==> state.resolve_return(
            keyword,
            value,
        ).had_error,
        state.current_function == FunctionType::Initializer && value is Some
            ==> state.resolve_return(keyword, value).had_error,
        state.had_error ==> state.resolve_return(keyword, value).had_error,
        state.current_function != FunctionType::Outside && value is None ==> state.resolve_return(
            keyword,
            value,
        ) == state,
        state.resolve_return(keyword, value).current_function == state.current_function,
{
    let checked = if state.current_function == FunctionType::Outside {
        state.error(keyword, Message::ReturnOutsideFunction)
    } else {
        state
    };
    match value {
        Some(v) => {
            lemma_expression_keeps_findings(
                checked.error(keyword, Message::ReturnValueFromInitializer),
                v,
            );
            lemma_expression_keeps_findings(checked, v);
        },
        None => {},
    }
}

/// A method named `init` is resolved as an initializer, any other as a
/// method.
pub proof fn law_init_is_the_initializer<'a>(state: Resolution<'a>, method: &'a Stmt)
    requires
        method is Function,
    ensures
        state.resolve_method(method) == state.resolve_function(
            &method->Function_params,
            &method->Function_body,
            if method->Function_name.lexeme@ == "init"@ {
                FunctionType::Initializer
            } else {
                FunctionType::Method
            },
        ),
{
    reveal(Resolution::resolve_method);
    reveal(Resolution::resolve_function);
}

/// A use of a variable is looked up in exactly one way. Where the
/// resolver recorded a distance for the place, the frame that far out is
/// asked and no other; where it recorded none, the globals are asked by
/// name. A variable found neither way is an undefined-variable failure at
/// its name.
pub proof fn law_variable_is_found_by_distance_or_among_globals<'a>(
    machine: InterpreterView<'a>,
    expression: &'a Expr,
)
    requires
        expression is Variable,
    ensures
        ({
            let name = &expression->Variable_name;
            let found = if machine.locals.contains_key(site(name)) {
                machine.heap.get_at(
                    machine.environment,
                    machine.locals[site(name)] as nat,
                    name.lexeme@,
                )
            } else {
                machine.heap.lookup(machine.globals, name.lexeme@)
            };
            machine.evaluate(expression) == match found {
                Some(value) => machine.yields(value),
                None => machine.fail(name, Message::UndefinedVariable),
            }
        }),
{
}

/// The same holds of `this`.
pub proof fn law_this_is_found_by_distance_or_among_globals<'a>(
    machine: InterpreterView<'a>,
    expression: &'a Expr,
)
    requires
        expression is This,
    ensures
        ({
            let keyword = &expression->This_keyword;
            let found = if machine.locals.contains_key(site(keyword)) {
                machine.heap.get_at(
                    machine.environment,
                    machine.locals[site(keyword)] as nat,
                    keyword.lexeme@,
                )
            } else {
                machine.heap.lookup(machine.globals, keyword.lexeme@)
            };
            machine.evaluate(expression) == match found {
                Some(value) => machine.yields(value),
                None => machine.fail(keyword, Message::UndefinedVariable),
            }
        }),
{
}

/// An assignment writes where a read would look: into the frame at the
/// recorded distance, or else to a global that exists. It is worth the
/// value assigned; with nowhere to write it is an undefined-variable
/// failure at the name, and nothing is created.
pub proof fn law_assignment_writes_by_distance_or_among_globals<'a>(
    machine: InterpreterView<'a>,
    name: &'a Token,
    value: Object,
)
    ensures
        ({
            let written = if machine.locals.contains_key(site(name)) {
                machine.heap.assign_at(
                    machine.environment,
                    machine.locals[site(name)] as nat,
                    name.lexeme@,
                    value,
                )
            } else {
                machine.heap.assign(machine.globals, name.lexeme@, value)
            };
            machine.deliver(Frame::Assign { name }, value) == match written {
                Some(heap) => machine.with_heap(heap).yields(value),
                None => machine.fail(name, Message::UndefinedVariable),
            }
        }),
{
}

/// `super` without a recorded distance is an undefined-variable failure
/// at the keyword.
pub proof fn law_super_needs_a_distance<'a>(
    machine: InterpreterView<'a>,
    keyword: &'a Token,
    method: &'a Token,
)
    requires
        !machine.locals.contains_key(site(keyword)),
    ensures
        machine.super_method(keyword, method) == machine.fail(keyword, Message::UndefinedVariable),
{
}

/// What a resolved statement leaves as it found it: the number of open
/// scopes, every scope but the innermost, and the kinds of function and
/// class around.
pub open spec fn settled<'a>(before: Resolution<'a>, after: Resolution<'a>) -> bool {
    &&& after.scopes.len() == before.scopes.len()
    &&& forall|i: int| 0 <= i < before.scopes.len() - 1 ==> after.scopes[i] == before.scopes[i]
    &&& after.current_function == before.current_function
    &&& after.current_class == before.current_class
}

/// An expression declares nothing: resolving it leaves every scope as it
/// was.
pub proof fn lemma_expression_keeps_scopes<'a>(state: Resolution<'a>, expression: &'a Expr)
    ensures
        state.resolve_expr(expression).scopes == state.scopes,
        state.resolve_expr(expression).current_function == state.current_function,
        state.resolve_expr(expression).current_class == state.current_class,
    decreases expression, 0nat,
{
    reveal(Resolution::resolve_expr);
    reveal(Resolution::resolve_exprs);
    match expression {
        Expr::Binary { left, operator, right } => {
            lemma_expression_keeps_scopes(state, &**left);
            lemma_expression_keeps_scopes(state.resolve_expr(&**left), &**right);
        },
        Expr::Logical { left, operator, right } => {
            lemma_expression_keeps_scopes(state, &**left);
            lemma_expression_keeps_scopes(state.resolve_expr(&**left), &**right);
        },
        Expr::Grouping { expr } => {
            lemma_expression_keeps_scopes(state, &**expr);
        },
        Expr::Unary { operator, right } => {
            lemma_expression_keeps_scopes(state, &**right);
        },
        Expr::Assign { name, value } => {
            lemma_expression_keeps_scopes(state, &**value);
        },
        Expr::Call { callee, paren, arguments } => {
            lemma_expression_keeps_scopes(state, &**callee);
            lemma_expressions_keep_scopes(state.resolve_expr(&**callee), arguments, 0);
        },
        Expr::Get { object, name } => {
            lemma_expression_keeps_scopes(state, &**object);
        },
        Expr::SetProperty { object, name, value } => {
            lemma_expression_keeps_scopes(state, &**value);
            lemma_expression_keeps_scopes(state.resolve_expr(&**value), &**object);
        },
        _ => {},
    }
}

pub proof fn lemma_expressions_keep_scopes<'a>(
    state: Resolution<'a>,
    expressions: &'a Vec<Expr>,
    from: int,
)
    ensures
        state.resolve_exprs(expressions, from).scopes == state.scopes,
        state.resolve_exprs(expressions, from).current_function == state.current_function,
        state.resolve_exprs(expressions, from).current_class == state.current_class,
    decreases expressions, expressions@.len() - from,
{
    reveal(Resolution::resolve_exprs);
    reveal(Resolution::resolve_expr);
    if !(from < 0 || from >= expressions@.len()) {
        lemma_expression_keeps_scopes(state, &expressions@[from]);
        lemma_expressions_keep_scopes(
            state.resolve_expr(&expressions@[from]),
            expressions,
            from + 1,
        );
    }
}

pub proof fn lemma_parameters_settle<'a>(state: Resolution<'a>, params: &'a Vec<Token>, from: int)
    ensures
        settled(state, state.resolve_params(params, from)),
    decreases params@.len() - from,
{
    if !(from < 0 || from >= params@.len()) {
        let next = state.declare(&params@[from]).define(&params@[from]);
        lemma_parameters_settle(next, params, from + 1);
    }
}

/// A body opens a scope of its own and closes it: resolving a function
/// leaves every scope exactly as it was.
pub proof fn lemma_function_keeps_scopes<'a>(
    state: Resolution<'a>,
    params: &'a Vec<Token>,
    body: &'a Vec<Stmt>,
    kind: FunctionType,
)
    ensures
        state.resolve_function(params, body, kind).scopes == state.scopes,
        state.resolve_function(params, body, kind).current_function == state.current_function,
        state.resolve_function(params, body, kind).current_class == state.current_class,
    decreases body, body@.len() + 1,
{
    reveal(Resolution::resolve_function);
    reveal(Resolution::resolve_stmts_from);
    let opened = Resolution { current_function: kind, ..state }.begin_scope();
    let with_params = opened.resolve_params(params, 0);
    lemma_parameters_settle(opened, params, 0);
    lemma_statements_settle(with_params, body, 0);
    let inside = with_params.resolve_stmts_from(body, 0);
    assert(inside.end_scope().scopes =~= state.scopes);
}

pub proof fn lemma_method_keeps_scopes<'a>(state: Resolution<'a>, method: &'a Stmt)
    ensures
        state.resolve_method(method).scopes == state.scopes,
        state.resolve_method(method).current_function == state.current_function,
        state.resolve_method(method).current_class == state.current_class,
    decreases method, 0nat,
{
    reveal(Resolution::resolve_method);
    reveal(Resolution::resolve_function);
    match method {
        Stmt::Function { name, params, body } => {
            lemma_function_keeps_scopes(
                state,
                params,
                body,
                if name.lexeme@ == "init"@ {
                    FunctionType::Initializer
                } else {
                    FunctionType::Method
                },
            );
        },
        _ => {},
    }
}

pub proof fn lemma_methods_keep_scopes<'a>(state: Resolution<'a>, methods: &'a Vec<Stmt>, from: int)
    ensures
        state.resolve_methods(methods, from).scopes == state.scopes,
        state.resolve_methods(methods, from).current_function == state.current_function,
        state.resolve_methods(methods, from).current_class == state.current_class,
    decreases methods, methods@.len() - from,
{
    reveal(Resolution::resolve_methods);
    reveal(Resolution::resolve_method);
    if !(from < 0 || from >= methods@.len()) {
        lemma_method_keeps_scopes(state, &methods@[from]);
        lemma_methods_keep_scopes(state.resolve_method(&methods@[from]), methods, from + 1);
    }
}

/// A class body: the scopes for `super` and `this` are closed again
/// after the methods.
pub proof fn lemma_class_settles<'a>(state: Resolution<'a>, statement: &'a Stmt)
    ensures
        settled(state, state.resolve_class(statement)),
    decreases statement, 0nat,
{
    reveal(Resolution::resolve_class);
    reveal(Resolution::resolve_methods);
    match statement {
        Stmt::Class { name, superclass, methods } => {
            lemma_class_parts_settle(state, name, superclass, methods);
        },
        _ => {},
    }
}

proof fn lemma_class_parts_settle<'a>(
    state: Resolution<'a>,
    name: &'a Token,
    superclass: &'a Option<Expr>,
    methods: &'a Vec<Stmt>,
)
    ensures
        settled(
            state,
            state.resolve_class(
                &(Stmt::Class { name: *name, superclass: *superclass, methods: *methods }),
            ),
        ),
    decreases methods, methods@.len() + 1,
{
    reveal(Resolution::resolve_class);
    reveal(Resolution::resolve_methods);
    let named = Resolution { current_class: ClassType::Class, ..state }.declare(
        name,
    ).define(name);
    match superclass {
        Some(parent) => {
            let checked = match parent {
                Expr::Variable { name: parent_name } => if parent_name.lexeme@
                    == name.lexeme@ {
                    named.error(parent_name, Message::InheritFromSelf)
                } else {
                    named
                },
                _ => named,
            };
            let sub = Resolution { current_class: ClassType::Subclass, ..checked };
            lemma_expression_keeps_scopes(sub, parent);
            let resolved = sub.resolve_expr(parent);
            let inside = resolved.begin_scope().enter("super"@, true);
            let opened = inside.begin_scope().enter("this"@, true);
            lemma_methods_keep_scopes(opened, methods, 0);
            let done = opened.resolve_methods(methods, 0).end_scope();
            assert(done.scopes =~= inside.scopes);
            assert(done.end_scope().scopes =~= named.scopes);
        },
        None => {
            let opened = named.begin_scope().enter("this"@, true);
            lemma_methods_keep_scopes(opened, methods, 0);
            let done = opened.resolve_methods(methods, 0).end_scope();
            assert(done.scopes =~= named.scopes);
        },
    }
}

/// Scopes are closed in the order they were opened. Resolving a
/// statement leaves as many scopes open as it found, touches none but the
/// innermost, and leaves the kinds of function and class around as they
/// were.
pub proof fn lemma_statement_settles<'a>(state: Resolution<'a>, statement: &'a Stmt)
    ensures
        settled(state, state.resolve_stmt(statement)),
    decreases statement, 1nat,
{
    reveal(Resolution::resolve_stmt);
    reveal(Resolution::resolve_stmts_from);
    reveal(Resolution::resolve_function);
    reveal(Resolution::resolve_class);
    match statement {
        Stmt::Block { statements } => {
            lemma_statements_settle(state.begin_scope(), statements, 0);
            let inside = state.begin_scope().resolve_stmts_from(statements, 0);
            assert(inside.end_scope().scopes =~= state.scopes);
        },
        Stmt::Expression { expr } => {
            lemma_expression_keeps_scopes(state, expr);
        },
        Stmt::Print { expr } => {
            lemma_expression_keeps_scopes(state, expr);
        },
        Stmt::Function { name, params, body } => {
            lemma_function_keeps_scopes(
                state.declare(name).define(name),
                params,
                body,
                FunctionType::Function,
            );
        },
        Stmt::If { condition, then_branch, else_branch } => {
            lemma_expression_keeps_scopes(state, condition);
            let tested = state.resolve_expr(condition);
            lemma_statement_settles(tested, &**then_branch);
            match &**else_branch {
                Some(other) => {
                    lemma_statement_settles(tested.resolve_stmt(&**then_branch), other);
                },
                None => {},
            }
        },
        Stmt::Return { keyword, value } => {
            let checked = if state.current_function == FunctionType::Outside {
                state.error(keyword, Message::ReturnOutsideFunction)
            } else {
                state
            };
            match value {
                Some(v) => {
                    if checked.current_function == FunctionType::Initializer {
                        lemma_expression_keeps_scopes(
                            checked.error(keyword, Message::ReturnValueFromInitializer),
                            v,
                        );
                    } else {
                        lemma_expression_keeps_scopes(checked, v);
                    }
                },
                None => {},
            }
        },
        Stmt::Var { name, initializer } => {
            match initializer {
                Some(init) => {
                    lemma_expression_keeps_scopes(state.declare(name), init);
                },
                None => {},
            }
        },
        Stmt::While { condition, body } => {
            lemma_expression_keeps_scopes(state, condition);
            lemma_statement_settles(state.resolve_expr(condition), &**body);
        },
        Stmt::Class { name, superclass, methods } => {
            lemma_class_settles(state, statement);
        },
        Stmt::Null => {},
    }
}

pub proof fn lemma_statements_settle<'a>(
    state: Resolution<'a>,
    statements: &'a Vec<Stmt>,
    from: int,
)
    ensures
        settled(state, state.resolve_stmts_from(statements, from)),
    decreases statements, statements@.len() - from,
{
    reveal(Resolution::resolve_stmts_from);
    reveal(Resolution::resolve_stmt);
    if !(from < 0 || from >= statements@.len()) {
        lemma_statement_settles(state, &statements@[from]);
        lemma_statements_settle(state.resolve_stmt(&statements@[from]), statements, from + 1);
    }
}

/// No scope is open at the top of a file: a program that is resolved
/// from outside every scope, function and class leaves the resolver
/// outside every scope, function and class. Inside a block, function or
/// class body at least one scope is open, since each is resolved between
/// the opening and the closing of a scope of its own.
pub proof fn law_scopes_are_balanced<'a>(state: Resolution<'a>, statements: &'a Vec<Stmt>)
    requires
        state.scopes.len() == 0,
    ensures
        state.resolve_stmts(statements).scopes.len() == 0,
        state.resolve_stmts(statements).current_function == state.current_function,
        state.resolve_stmts(statements).current_class == state.current_class,
        state.begin_scope().scopes.len() > 0,
{
    lemma_statements_settle(state, statements, 0);
}

/// Among the globals nothing is given a distance: a variable used outside
/// every scope gets no entry, whatever its name.
pub proof fn law_globals_get_no_distance<'a>(state: Resolution<'a>, name: &'a Token)
    requires
        state.scopes.len() == 0,
    ensures
        state.resolve_local(name) == state,
{
}

/// A local gets the number of scopes between its use and the nearest
/// scope that declares it: the scope that far out declares the name, and
/// no scope nearer does. A name that gets none is declared in no scope.
pub proof fn law_distance_is_to_the_nearest_declaration(
    scopes: Seq<Map<Seq<char>, bool>>,
    name: Seq<char>,
)
    requires
        scopes.len() <= usize::MAX,
    ensures
        match depth_of(scopes, name) {
            Some(depth) => {
                &&& depth < scopes.len()
                &&& scope_at(scopes, depth as int).contains_key(name)
                &&& forall|nearer: int|
                    0 <= nearer < depth ==> !(#[trigger] scope_at(scopes, nearer)).contains_key(
                        name,
                    )
            },
            None => forall|out: int|
                0 <= out < scopes.len() ==> !(#[trigger] scope_at(scopes, out)).contains_key(name),
        },
{
    lemma_depth_from(scopes, name, 0);
}

pub proof fn lemma_depth_from(scopes: Seq<Map<Seq<char>, bool>>, name: Seq<char>, from: int)
    requires
        0 <= from,
        scopes.len() <= usize::MAX,
    ensures
        match depth_from(scopes, name, from) {
            Some(depth) => {
                &&& from <= depth < scopes.len()
                &&& scope_at(scopes, depth as int).contains_key(name)
                &&& forall|nearer: int|
                    from <= nearer < depth ==> !(#[trigger] scope_at(scopes, nearer)).contains_key(
                        name,
                    )
            },
            None => forall|out: int|
                from <= out < scopes.len() ==> !(#[trigger] scope_at(scopes, out)).contains_key(
                    name,
                ),
        },
    decreases scopes.len() - from,
{
    if from < scopes.len() && !scope_at(scopes, from).contains_key(name) {
        lemma_depth_from(scopes, name, from + 1);
    }
}

/// No token but the last is an end marker.
pub open spec fn ends_once(tokens: Seq<TokenView>) -> bool {
    &&& tokens.len() > 0
    &&& tokens.last().kind == TokenType::Eof
    &&& forall|i: int| 0 <= i < tokens.len() - 1 ==> (#[trigger] tokens[i]).kind != TokenType::Eof
}

pub open spec fn no_end_marker(tokens: Seq<TokenView>) -> bool {
    forall|i: int| 0 <= i < tokens.len() ==> (#[trigger] tokens[i]).kind != TokenType::Eof
}

/// One token's worth of scanning makes no end marker, and takes nothing
/// back.
pub proof fn lemma_scan_token_makes_no_end_marker(state: Scan, source: Seq<char>)
    requires
        no_end_marker(state.tokens),
        state.position < source.len(),
    ensures
        no_end_marker(state.scan_token(source).tokens),
        state.errors.len() <= state.scan_token(source).errors.len(),
{
    let after = state.scan_token(source);
    assert forall|i: int| 0 <= i < after.tokens.len() implies (#[trigger] after.tokens[i]).kind
        != TokenType::Eof by {
        if i < state.tokens.len() {
            assert(state.tokens[i].kind != TokenType::Eof);
        }
    }
}

pub proof fn lemma_scan_ends_once(state: Scan, source: Seq<char>)
    requires
        no_end_marker(state.tokens),
    ensures
        ends_once(state.scan_tokens(source).tokens),
    decreases
            if state.position < source.len() {
                source.len() - state.position
            } else {
                0
            },
{
    if state.position < source.len() {
        let next = state.scan_token(source);
        lemma_scan_token_makes_no_end_marker(state, source);
        lemma_scan_token_moves_on(state, source);
        lemma_scan_ends_once(next, source);
    } else {
        let after = state.emit(source, TokenType::Eof, state.position, None);
        assert forall|i: int| 0 <= i < after.tokens.len() - 1 implies (
        #[trigger] after.tokens[i]).kind != TokenType::Eof by {
            assert(state.tokens[i].kind != TokenType::Eof);
        }
    }
}

/// Each token's worth of scanning takes at least one character and stays
/// inside the source.
pub proof fn lemma_scan_token_moves_on(state: Scan, source: Seq<char>)
    requires
        state.position < source.len(),
    ensures
        state.position < state.scan_token(source).position <= source.len(),
{
    lemma_runs_stay_inside(source, state.position);
    lemma_runs_stay_inside(source, state.position + 1);
    lemma_runs_stay_inside(source, state.position + 2);
    lemma_string_end_stays_inside(source, state.position + 1, state.line, state.line_start);
    let whole = digits_end(source, state.position);
    lemma_runs_stay_inside(source, whole + 1);
    if is_digit(source[state.position as int]) {
        assert(digits_end(source, state.position) == digits_end(source, state.position + 1));
    }
}

/// A run of digits, of word characters or of a line ends at or after its
/// start, and inside the source if it starts there.
pub proof fn lemma_runs_stay_inside(source: Seq<char>, from: nat)
    ensures
        from <= digits_end(source, from),
        from <= word_end(source, from),
        from <= line_end(source, from),
        from <= source.len() ==> digits_end(source, from) <= source.len() && word_end(source, from)
            <= source.len() && line_end(source, from) <= source.len(),
    decreases source.len() - from,
{
    if from < source.len() {
        lemma_runs_stay_inside(source, from + 1);
    }
}

pub proof fn lemma_string_end_stays_inside(source: Seq<char>, from: nat, line: nat, start: nat)
    ensures
        from <= string_end(source, from, line, start).0,
        from <= source.len() ==> string_end(source, from, line, start).0 <= source.len(),
    decreases source.len() - from,
{
    if from < source.len() && source[from as int] != '"' {
        if source[from as int] == '\n' {
            lemma_string_end_stays_inside(source, from + 1, line + 1, from + 1);
        } else {
            lemma_string_end_stays_inside(source, from + 1, line, start);
        }
    }
}

/// The tokens of a source end in an end marker, and hold no other: a
/// parser that stops at the first end marker has seen every token.
pub proof fn law_scan_ends_in_the_only_end_marker(source: Seq<char>)
    ensures
        ends_once(scan(source).tokens),
{
    lemma_scan_ends_once(Scan::start(), source);
}

} // verus!
