//! The evaluator, as a machine that is stepped from outside.
//!
//! The machine holds what it is looking at (the focus), what is left to do
//! once that is dealt with (the frames), and the heap. One step deals with
//! the focus: it takes a statement or expression apart, hands a finished
//! value to the frame on top, or carries a `return` outwards to the call
//! that catches it. Whatever the machine cannot do itself it asks for
//! through the [`Action`] that the step returns; the answer comes back
//! through [`Interpreter::supply`].
//!
//! What happens at one node of the tree, once the values it needs are
//! there, is decided by the function named after the node
//! (`visit_binary_expr`, `visit_call_expr`, `visit_assign_expr`, ...);
//! the step function hands each value to the one it is for.

use vstd::prelude::*;
use vstd::hash_map::StringHashMap;
use vstd::string::StringExecFns;
use crate::class::Class;
use crate::class::ClassView;
use crate::class::Instance;
use crate::environment::Environment;
use crate::error::Diagnostic;
use crate::error::Error;
use crate::error::Message;
use crate::expr::Expr;
use crate::function::Function;
use crate::heap::Heap;
use crate::heap::HeapView;
use crate::locals::Locals;
use crate::locals::site;
use crate::number::equals;
use crate::number::is_zero;
use crate::number::less;
use crate::number::negated;
use crate::number::number_equals;
use crate::number::number_is_zero;
use crate::number::number_less;
use crate::number::number_negate;
use crate::stmt::Stmt;
use crate::token::Literal;
use crate::token::Object;
use crate::token::Token;
use crate::token::TokenType;

verus! {

/// What a step asks of the program that drives the machine.
#[derive(Clone, Copy)]
pub enum Action<'a> {
    /// Nothing: step again.
    Continue,
    /// Nothing is left to do.
    Finished,
    /// Write this value and a line end, then step again.
    Print(Object),
    /// Supply the number this numeral stands for.
    ParseNumber(&'a String),
    /// Supply `left operator right`, where the operator is `Plus`,
    /// `Minus`, `Star` or `Slash` and the operands are doubles.
    Arithmetic { operator: TokenType, left: u64, right: u64 },
    /// Supply the result of native function `id`; its arguments are the
    /// last `argument_count` operands.
    Native { id: usize, argument_count: usize },
    /// The script failed; the machine has put itself back to rest.
    Failed(Diagnostic<'a>),
}

/// What is left to do with a value once it is there.
#[derive(Clone, Copy)]
pub enum Frame<'a> {
    /// Run `statements` from `next` on; when they are done, go back to
    /// environment `restore` if there is one.
    Sequence { statements: &'a Vec<Stmt>, next: usize, restore: Option<usize> },
    /// Evaluate `expressions` from `next` on and print each value.
    Expressions { expressions: &'a Vec<Expr>, next: usize },
    Print,
    Define { name: &'a Token },
    Branch { then_branch: &'a Stmt, else_branch: &'a Option<Stmt> },
    /// A loop whose condition is being evaluated.
    Condition { condition: &'a Expr, body: &'a Stmt },
    /// A loop whose body is running.
    Loop { condition: &'a Expr, body: &'a Stmt },
    Return,
    /// A class declaration whose superclass is being evaluated.
    Superclass { name: &'a Token, superclass: &'a Expr, methods: &'a Vec<Stmt> },
    Unary { operator: &'a Token },
    Left { operator: &'a Token, right: &'a Expr },
    Right { operator: &'a Token, left: Object },
    Logical { operator: &'a Token, right: &'a Expr },
    Assign { name: &'a Token },
    Callee { paren: &'a Token, arguments: &'a Vec<Expr> },
    /// Argument `next` of a call is being evaluated; the earlier ones are
    /// the last operands.
    Arguments { callee: Object, paren: &'a Token, arguments: &'a Vec<Expr>, next: usize },
    Get { name: &'a Token },
    SetObject { name: &'a Token, value: &'a Expr },
    SetValue { instance: usize, name: &'a Token },
    /// A running function. This is where a `return` stops.
    Call { restore: usize, function: Function<'a> },
    /// An initializer is running for a new instance, which is the value of
    /// the call whatever the initializer yields.
    Construct { instance: usize },
    /// A native function was asked for; its arguments are still operands.
    Native { argument_count: usize },
}

#[derive(Clone, Copy)]
pub enum Focus<'a> {
    /// At rest.
    Idle,
    Statement(&'a Stmt),
    Expression(&'a Expr),
    /// A finished value on its way to the frame on top. A finished
    /// statement counts as `nil`.
    Value(Object),
    /// A `return` on its way out to the nearest running function.
    Returning(Object),
    /// An answer is owed to this action.
    Waiting(Action<'a>),
}

pub struct Interpreter<'a> {
    pub heap: Heap<'a>,
    /// The slot of the outermost environment.
    pub globals: usize,
    /// The slot of the current environment.
    pub environment: usize,
    pub locals: Locals,
    pub frames: Vec<Frame<'a>>,
    pub operands: Vec<Object>,
    pub focus: Focus<'a>,
}

pub struct InterpreterView<'a> {
    pub heap: HeapView<'a>,
    pub globals: usize,
    pub environment: usize,
    pub locals: Map<(usize, usize), usize>,
    pub frames: Seq<Frame<'a>>,
    pub operands: Seq<Object>,
    pub focus: Focus<'a>,
}

impl<'a> View for Interpreter<'a> {
    type V = InterpreterView<'a>;

    open spec fn view(&self) -> InterpreterView<'a> {
        InterpreterView {
            heap: self.heap@,
            globals: self.globals,
            environment: self.environment,
            locals: self.locals@,
            frames: self.frames@,
            operands: self.operands@,
            focus: self.focus,
        }
    }
}

/// `==` of the language. Values of different kinds are never equal;
/// numbers compare as doubles, text by content, and functions, classes and
/// instances by identity.
pub open spec fn values_equal(heap: HeapView, left: Object, right: Object) -> bool {
    match (left, right) {
        (Object::Nil, Object::Nil) => true,
        (Object::Bool(a), Object::Bool(b)) => a == b,
        (Object::Number(a), Object::Number(b)) => equals(a, b),
        (Object::String(a), Object::String(b)) => a < heap.strings.len() && b < heap.strings.len()
            && heap.strings[a as int] == heap.strings[b as int],
        (Object::Callable(a), Object::Callable(b)) => a == b,
        (Object::Class(a), Object::Class(b)) => a == b,
        (Object::Instance(a), Object::Instance(b)) => a == b,
        _ => false,
    }
}

/// What is wrong when a binary operator gets operands it cannot take,
/// with the operands:
/// the arithmetic and comparison operators but `+` want numbers, `+` wants
/// two numbers or two strings, and anything else is no binary operator.
pub open spec fn operands_message(kind: TokenType, left: Object, right: Object) -> Message {
    match kind {
        TokenType::Minus
        | TokenType::Slash
        | TokenType::Star
        | TokenType::Greater
        | TokenType::GreaterEqual
        | TokenType::Less
        | TokenType::LessEqual => Message::OperandsMustBeNumbers { left, right },
        TokenType::Plus => Message::OperandsMustBeNumbersOrStrings { left, right },
        _ => Message::InvalidExpression { left, right },
    }
}

/// The functions a class body declares, stored one by one from
/// `methods[from]` on, all closing over `closure`. Returns the heap and
/// the method table, which started as `table`. A later method of the same
/// name replaces an earlier one.
pub open spec fn collect_methods<'a>(
    heap: HeapView<'a>,
    methods: &'a Vec<Stmt>,
    from: int,
    closure: usize,
    table: Map<Seq<char>, usize>,
) -> (HeapView<'a>, Map<Seq<char>, usize>)
    decreases methods@.len() - from,
{
    if from < 0 || from >= methods@.len() {
        (heap, table)
    } else {
        match &methods@[from] {
            Stmt::Function { name, params, body } => collect_methods(
                heap.with_function(
                    Function::User {
                        name,
                        params,
                        body,
                        closure,
                        is_initializer: name.lexeme@ == "init"@,
                    },
                ),
                methods,
                from + 1,
                closure,
                table.insert(name.lexeme@, heap.functions.len() as usize),
            ),
            _ => collect_methods(heap, methods, from + 1, closure, table),
        }
    }
}

/// The heap after binding the parameters from `params[from]` on, each to
/// the argument at the same place, in frame `env`.
pub open spec fn bind_parameters<'a>(
    heap: HeapView<'a>,
    env: usize,
    params: &'a Vec<Token>,
    arguments: Seq<Object>,
    from: int,
) -> HeapView<'a>
    decreases params@.len() - from,
{
    if from < 0 || from >= params@.len() || from >= arguments.len() {
        heap
    } else {
        bind_parameters(
            heap.define(env, params@[from].lexeme@, arguments[from]),
            env,
            params,
            arguments,
            from + 1,
        )
    }
}

/// The slot under which every interpreter knows the native `clock`.
pub const CLOCK: usize = 0;

impl<'a> InterpreterView<'a> {
    /// A machine at rest whose only environment is the outermost one, in
    /// which `clock` names the native function [`CLOCK`].
    pub open spec fn fresh() -> InterpreterView<'a> {
        InterpreterView {
            heap: HeapView::empty().with_environment(None).with_function(
                Function::Native { arity: 0, id: CLOCK },
            ).define(0, "clock"@, Object::Callable(0)),
            globals: 0,
            environment: 0,
            locals: Map::empty(),
            frames: Seq::empty(),
            operands: Seq::empty(),
            focus: Focus::Idle,
        }
    }

    pub open spec fn with_focus(self, focus: Focus<'a>) -> InterpreterView<'a> {
        InterpreterView { focus, ..self }
    }

    pub open spec fn with_heap(self, heap: HeapView<'a>) -> InterpreterView<'a> {
        InterpreterView { heap, ..self }
    }

    pub open spec fn push(self, frame: Frame<'a>) -> InterpreterView<'a> {
        InterpreterView { frames: self.frames.push(frame), ..self }
    }

    /// Go on with `focus`.
    pub open spec fn proceed(self, focus: Focus<'a>) -> (InterpreterView<'a>, Action<'a>) {
        (self.with_focus(focus), Action::Continue)
    }

    /// Go on with a finished value.
    pub open spec fn yields(self, value: Object) -> (InterpreterView<'a>, Action<'a>) {
        self.proceed(Focus::Value(value))
    }

    /// Ask for something and wait for it.
    pub open spec fn wait(self, action: Action<'a>) -> (InterpreterView<'a>, Action<'a>) {
        (self.with_focus(Focus::Waiting(action)), action)
    }

    /// A runtime error: everything under way is dropped, the outermost
    /// environment is current again, and the heap stays.
    pub open spec fn fail(self, token: &'a Token, message: Message) -> (
        InterpreterView<'a>,
        Action<'a>,
    ) {
        (
            InterpreterView {
                frames: Seq::empty(),
                operands: Seq::empty(),
                environment: self.globals,
                focus: Focus::Idle,
                ..self
            },
            Action::Failed(Diagnostic { token, message }),
        )
    }

    /// Reading a variable: at the recorded distance if the resolver
    /// recorded one for this place, else by name among the globals.
    pub open spec fn look_up_variable(self, name: &Token) -> Option<Object> {
        if self.locals.contains_key(site(name)) {
            self.heap.get_at(self.environment, self.locals[site(name)] as nat, name.lexeme@)
        } else {
            self.heap.lookup(self.globals, name.lexeme@)
        }
    }

    /// Writing a variable: at the recorded distance if the resolver
    /// recorded one for this place, else to an existing global.
    pub open spec fn assign_variable(self, name: &Token, value: Object) -> Option<HeapView<'a>> {
        if self.locals.contains_key(site(name)) {
            self.heap.assign_at(
                self.environment,
                self.locals[site(name)] as nat,
                name.lexeme@,
                value,
            )
        } else {
            self.heap.assign(self.globals, name.lexeme@, value)
        }
    }

    /// `super.method`: the class bound as `super` at the recorded
    /// distance, the receiver bound as `this` one frame nearer, and the
    /// method looked up from that class upward, bound to that receiver.
    pub open spec fn super_method(self, keyword: &'a Token, method: &'a Token) -> (
        InterpreterView<'a>,
        Action<'a>,
    ) {
        if !self.locals.contains_key(site(keyword)) || self.locals[site(keyword)] == 0 {
            self.fail(keyword, Message::UndefinedVariable)
        } else {
            let distance = self.locals[site(keyword)];
            match (
                self.heap.get_at(self.environment, distance as nat, "super"@),
                self.heap.get_at(self.environment, (distance - 1) as nat, "this"@),
            ) {
                (Some(Object::Class(class)), Some(receiver)) => {
                    let (heap, found) = self.heap.bound_method(class, method.lexeme@, receiver);
                    match found {
                        Some(value) => self.with_heap(heap).yields(value),
                        None => self.fail(method, Message::UndefinedProperty),
                    }
                },
                _ => self.fail(keyword, Message::UndefinedVariable),
            }
        }
    }

    /// A use of a variable, or of `this`: its value, or an
    /// undefined-variable failure at its name.
    pub open spec fn variable(self, name: &'a Token) -> (InterpreterView<'a>, Action<'a>) {
        match self.look_up_variable(name) {
            Some(value) => self.yields(value),
            None => self.fail(name, Message::UndefinedVariable),
        }
    }

    /// A unary operator on its finished operand: `-` negates a number,
    /// `!` is true of what is not truthy, and anything else fails.
    pub open spec fn unary(self, operator: &'a Token, value: Object) -> (
        InterpreterView<'a>,
        Action<'a>,
    ) {
        match operator.kind {
            TokenType::Minus => match value {
                Object::Number(n) => self.yields(Object::Number(negated(n))),
                _ => self.fail(operator, Message::InvalidUnary { operand: value }),
            },
            TokenType::Bang => self.yields(Object::Bool(!value.truthy())),
            _ => self.fail(operator, Message::InvalidUnary { operand: value }),
        }
    }

    /// `or` and `and` once the left side is there: a truthy left side of
    /// `or`, and a left side of `and` that is not truthy, is the value as
    /// it is, and the right side is left alone; otherwise the right side
    /// is what is evaluated next.
    pub open spec fn logical(self, operator: &'a Token, left: Object, right: &'a Expr) -> (
        InterpreterView<'a>,
        Action<'a>,
    ) {
        if operator.kind == TokenType::Or {
            if left.truthy() {
                self.yields(left)
            } else {
                self.proceed(Focus::Expression(right))
            }
        } else {
            if !left.truthy() {
                self.yields(left)
            } else {
                self.proceed(Focus::Expression(right))
            }
        }
    }

    /// An assignment once its value is there: the variable is written and
    /// the value is what the assignment is worth, or, with nowhere to
    /// write, nothing changes but that the script fails at the name.
    pub open spec fn assign(self, name: &'a Token, value: Object) -> (
        InterpreterView<'a>,
        Action<'a>,
    ) {
        match self.assign_variable(name, value) {
            Some(heap) => self.with_heap(heap).yields(value),
            None => self.fail(name, Message::UndefinedVariable),
        }
    }

    /// A property read once its object is there: only an instance has
    /// properties, and it has those its fields and its class give it.
    pub open spec fn get(self, object: Object, name: &'a Token) -> (
        InterpreterView<'a>,
        Action<'a>,
    ) {
        match object {
            Object::Instance(instance) => {
                let (heap, found) = self.heap.get_property(instance, name.lexeme@);
                match found {
                    Some(property) => self.with_heap(heap).yields(property),
                    None => self.fail(name, Message::UndefinedProperty),
                }
            },
            _ => self.fail(name, Message::OnlyInstancesHaveProperties),
        }
    }

    /// A function declaration: a function that closes over the current
    /// environment is stored, and its name bound to it there.
    pub open spec fn declare_function(
        self,
        name: &'a Token,
        params: &'a Vec<Token>,
        body: &'a Vec<Stmt>,
    ) -> (InterpreterView<'a>, Action<'a>) {
        self.with_heap(
            self.heap.with_function(
                Function::User {
                    name,
                    params,
                    body,
                    closure: self.environment,
                    is_initializer: false,
                },
            ).define(
                self.environment,
                name.lexeme@,
                Object::Callable(self.heap.functions.len() as usize),
            ),
        ).yields(Object::Nil)
    }

    pub open spec fn evaluate(self, expression: &'a Expr) -> (InterpreterView<'a>, Action<'a>) {
        match expression {
            Expr::Literal { value } => match value {
                Literal::Nil => self.yields(Object::Nil),
                Literal::Bool(b) => self.yields(Object::Bool(*b)),
                Literal::Number(numeral) => self.wait(Action::ParseNumber(numeral)),
                Literal::String(text) => self.with_heap(self.heap.with_string(text@)).yields(
                    Object::String(self.heap.strings.len() as usize),
                ),
                Literal::Identifier(text) => self.with_heap(self.heap.with_string(text@)).yields(
                    Object::String(self.heap.strings.len() as usize),
                ),
            },
            Expr::Grouping { expr } => self.proceed(Focus::Expression(&**expr)),
            Expr::Unary { operator, right } => self.push(Frame::Unary { operator }).proceed(
                Focus::Expression(&**right),
            ),
            Expr::Binary { left, operator, right } => self.push(
                Frame::Left { operator, right: &**right },
            ).proceed(Focus::Expression(&**left)),
            Expr::Logical { left, operator, right } => self.push(
                Frame::Logical { operator, right: &**right },
            ).proceed(Focus::Expression(&**left)),
            Expr::Variable { name } => self.variable(name),
            Expr::This { keyword } => self.variable(keyword),
            Expr::Assign { name, value } => self.push(Frame::Assign { name }).proceed(
                Focus::Expression(&**value),
            ),
            Expr::Call { callee, paren, arguments } => self.push(
                Frame::Callee { paren, arguments },
            ).proceed(Focus::Expression(&**callee)),
            Expr::Get { object, name } => self.push(Frame::Get { name }).proceed(
                Focus::Expression(&**object),
            ),
            Expr::SetProperty { object, name, value } => self.push(
                Frame::SetObject { name, value: &**value },
            ).proceed(Focus::Expression(&**object)),
            Expr::Super { keyword, method } => self.super_method(keyword, method),
        }
    }

    /// Declaring a class whose superclass, if any, is already at hand: the
    /// name is bound to `nil`, the methods close over the current
    /// environment (or over a frame that binds `super`, inside it), and
    /// the name is then bound to the finished class.
    pub open spec fn declare_class(
        self,
        name: &'a Token,
        superclass: Option<usize>,
        methods: &'a Vec<Stmt>,
    ) -> (InterpreterView<'a>, Action<'a>) {
        let declared = self.heap.define(self.environment, name.lexeme@, Object::Nil);
        let closure = match superclass {
            Some(_) => declared.environments.len() as usize,
            None => self.environment,
        };
        let scoped = match superclass {
            Some(parent) => declared.with_environment(Some(self.environment)).define(
                closure,
                "super"@,
                Object::Class(parent),
            ),
            None => declared,
        };
        let (stored, table) = collect_methods(scoped, methods, 0, closure, Map::empty());
        let classed = stored.with_class(
            ClassView { name: name.lexeme@, superclass, methods: table },
        );
        self.with_heap(
            classed.define(
                self.environment,
                name.lexeme@,
                Object::Class(stored.classes.len() as usize),
            ),
        ).yields(Object::Nil)
    }

    pub open spec fn execute(self, statement: &'a Stmt) -> (InterpreterView<'a>, Action<'a>) {
        match statement {
            Stmt::Expression { expr } => self.proceed(Focus::Expression(expr)),
            Stmt::Print { expr } => self.push(Frame::Print).proceed(Focus::Expression(expr)),
            Stmt::Var { name, initializer } => match initializer {
                Some(init) => self.push(Frame::Define { name }).proceed(Focus::Expression(init)),
                None => self.with_heap(
                    self.heap.define(self.environment, name.lexeme@, Object::Nil),
                ).yields(Object::Nil),
            },
            Stmt::Block { statements } => InterpreterView {
                heap: self.heap.with_environment(Some(self.environment)),
                environment: self.heap.environments.len() as usize,
                ..self
            }.push(
                Frame::Sequence { statements, next: 0, restore: Some(self.environment) },
            ).yields(Object::Nil),
            Stmt::If { condition, then_branch, else_branch } => self.push(
                Frame::Branch { then_branch: &**then_branch, else_branch: &**else_branch },
            ).proceed(Focus::Expression(condition)),
            Stmt::While { condition, body } => self.push(
                Frame::Condition { condition, body: &**body },
            ).proceed(Focus::Expression(condition)),
            Stmt::Function { name, params, body } => self.declare_function(name, params, body),
            Stmt::Return { keyword, value } => match value {
                Some(v) => self.push(Frame::Return).proceed(Focus::Expression(v)),
                None => self.proceed(Focus::Returning(Object::Nil)),
            },
            Stmt::Class { name, superclass, methods } => match superclass {
                Some(parent) => self.push(
                    Frame::Superclass { name, superclass: parent, methods },
                ).proceed(Focus::Expression(parent)),
                None => self.declare_class(name, None, methods),
            },
            Stmt::Null => self.yields(Object::Nil),
        }
    }

    /// A binary operator on two finished operands.
    pub open spec fn binary(self, operator: &'a Token, left: Object, right: Object) -> (
        InterpreterView<'a>,
        Action<'a>,
    ) {
        match operator.kind {
            TokenType::Minus | TokenType::Star => match (left, right) {
                (Object::Number(a), Object::Number(b)) => self.wait(
                    Action::Arithmetic { operator: operator.kind, left: a, right: b },
                ),
                _ => self.fail(operator, Message::OperandsMustBeNumbers { left, right }),
            },
            TokenType::Slash => match (left, right) {
                (Object::Number(a), Object::Number(b)) => if is_zero(b) {
                    self.fail(operator, Message::ZeroDivision { left, right })
                } else {
                    self.wait(Action::Arithmetic { operator: operator.kind, left: a, right: b })
                },
                _ => self.fail(operator, Message::OperandsMustBeNumbers { left, right }),
            },
            TokenType::Plus => match (left, right) {
                (Object::Number(a), Object::Number(b)) => self.wait(
                    Action::Arithmetic { operator: operator.kind, left: a, right: b },
                ),
                (Object::String(a), Object::String(b)) => if a < self.heap.strings.len() && b
                    < self.heap.strings.len() {
                    self.with_heap(
                        self.heap.with_string(
                            self.heap.strings[a as int] + self.heap.strings[b as int],
                        ),
                    ).yields(Object::String(self.heap.strings.len() as usize))
                } else {
                    self.fail(operator, Message::DanglingReference)
                },
                _ => self.fail(operator, Message::OperandsMustBeNumbersOrStrings { left, right }),
            },
            TokenType::Greater => match (left, right) {
                (Object::Number(a), Object::Number(b)) => self.yields(Object::Bool(less(b, a))),
                _ => self.fail(operator, Message::OperandsMustBeNumbers { left, right }),
            },
            TokenType::GreaterEqual => match (left, right) {
                (Object::Number(a), Object::Number(b)) => self.yields(
                    Object::Bool(less(b, a) || equals(a, b)),
                ),
                _ => self.fail(operator, Message::OperandsMustBeNumbers { left, right }),
            },
            TokenType::Less => match (left, right) {
                (Object::Number(a), Object::Number(b)) => self.yields(Object::Bool(less(a, b))),
                _ => self.fail(operator, Message::OperandsMustBeNumbers { left, right }),
            },
            TokenType::LessEqual => match (left, right) {
                (Object::Number(a), Object::Number(b)) => self.yields(
                    Object::Bool(less(a, b) || equals(a, b)),
                ),
                _ => self.fail(operator, Message::OperandsMustBeNumbers { left, right }),
            },
            TokenType::BangEqual => self.yields(Object::Bool(!values_equal(self.heap, left, right))),
            TokenType::EqualEqual => self.yields(Object::Bool(values_equal(self.heap, left, right))),
            _ => self.fail(operator, Message::InvalidExpression { left, right }),
        }
    }

    /// The operands without the last `count`.
    pub open spec fn drop_operands(self, count: usize) -> InterpreterView<'a> {
        InterpreterView {
            operands: if count <= self.operands.len() {
                self.operands.take(self.operands.len() - count)
            } else {
                Seq::empty()
            },
            ..self
        }
    }

    /// Entering a function whose `argument_count` arguments are the last
    /// operands. A native one is asked for. One of the script gets a fresh
    /// frame inside its closure, with its parameters bound there, and its
    /// body becomes what runs.
    pub open spec fn call(self, function: Function<'a>, argument_count: usize) -> (
        InterpreterView<'a>,
        Action<'a>,
    ) {
        match function {
            Function::Native { arity, id } => self.push(Frame::Native { argument_count }).wait(
                Action::Native { id, argument_count },
            ),
            Function::User { name, params, body, closure, is_initializer } => {
                let frame = self.heap.environments.len() as usize;
                let arguments = if argument_count <= self.operands.len() {
                    self.operands.skip(self.operands.len() - argument_count)
                } else {
                    self.operands
                };
                InterpreterView {
                    heap: bind_parameters(
                        self.heap.with_environment(Some(closure)),
                        frame,
                        params,
                        arguments,
                        0,
                    ),
                    environment: frame,
                    ..self.drop_operands(argument_count)
                }.push(Frame::Call { restore: self.environment, function }).push(
                    Frame::Sequence { statements: body, next: 0, restore: None },
                ).yields(Object::Nil)
            },
        }
    }

    /// Calling `callee` on the last `argument_count` operands. A function
    /// is entered if the count is its arity. A class makes an instance; if
    /// the class sees an `init`, that is bound to the instance and entered
    /// on the same terms, and otherwise there must be no arguments.
    pub open spec fn invoke(self, callee: Object, paren: &'a Token, argument_count: usize) -> (
        InterpreterView<'a>,
        Action<'a>,
    ) {
        match callee {
            Object::Callable(f) => if f < self.heap.functions.len() {
                let function = self.heap.functions[f as int];
                if argument_count != function.spec_arity() {
                    self.fail(
                        paren,
                        Message::WrongArgumentCount {
                            expected: function.spec_arity(),
                            got: argument_count,
                        },
                    )
                } else {
                    self.call(function, argument_count)
                }
            } else {
                self.fail(paren, Message::DanglingReference)
            },
            Object::Class(class) => if class < self.heap.classes.len() {
                let instance = self.heap.instances.len() as usize;
                let made = self.with_heap(self.heap.with_instance(class));
                match self.heap.find_method(class, "init"@) {
                    Some(init) => if init < self.heap.functions.len() {
                        let initializer = self.heap.functions[init as int];
                        if argument_count != initializer.spec_arity() {
                            made.fail(
                                paren,
                                Message::WrongArgumentCount {
                                    expected: initializer.spec_arity(),
                                    got: argument_count,
                                },
                            )
                        } else {
                            let (heap, bound) = made.heap.bind(
                                initializer,
                                Object::Instance(instance),
                            );
                            made.with_heap(heap).push(Frame::Construct { instance }).call(
                                bound,
                                argument_count,
                            )
                        }
                    } else {
                        made.fail(paren, Message::DanglingReference)
                    },
                    None => if argument_count != 0 {
                        made.fail(
                            paren,
                            Message::WrongArgumentCount { expected: 0, got: argument_count },
                        )
                    } else {
                        made.yields(Object::Instance(instance))
                    },
                }
            } else {
                self.fail(paren, Message::DanglingReference)
            },
            _ => self.fail(paren, Message::NotCallable),
        }
    }

    /// What a function call is worth once its body is over: `this` for an
    /// initializer, else what it returned.
    pub open spec fn call_result(self, function: Function<'a>, returned: Object) -> Object {
        match function {
            Function::User { closure, is_initializer, .. } => if is_initializer {
                match self.heap.get_at(closure, 0, "this"@) {
                    Some(receiver) => receiver,
                    None => Object::Nil,
                }
            } else {
                returned
            },
            Function::Native { .. } => returned,
        }
    }

    /// Hands a finished value to `frame`, which has been taken off the
    /// frames already.
    pub open spec fn deliver(self, frame: Frame<'a>, value: Object) -> (
        InterpreterView<'a>,
        Action<'a>,
    ) {
        match frame {
            Frame::Sequence { statements, next, restore } => if next < statements@.len() {
                self.push(
                    Frame::Sequence { statements, next: (next + 1) as usize, restore },
                ).proceed(Focus::Statement(&statements@[next as int]))
            } else {
                InterpreterView {
                    environment: match restore {
                        Some(e) => e,
                        None => self.environment,
                    },
                    ..self
                }.yields(Object::Nil)
            },
            Frame::Expressions { expressions, next } => {
                let after = if next < expressions@.len() {
                    self.push(
                        Frame::Expressions { expressions, next: (next + 1) as usize },
                    ).with_focus(Focus::Expression(&expressions@[next as int]))
                } else {
                    self.with_focus(Focus::Value(Object::Nil))
                };
                (
                    after,
                    if next > 0 {
                        Action::Print(value)
                    } else {
                        Action::Continue
                    },
                )
            },
            Frame::Print => (self.with_focus(Focus::Value(Object::Nil)), Action::Print(value)),
            Frame::Define { name } => self.with_heap(
                self.heap.define(self.environment, name.lexeme@, value),
            ).yields(Object::Nil),
            Frame::Branch { then_branch, else_branch } => if value.truthy() {
                self.proceed(Focus::Statement(then_branch))
            } else {
                match else_branch {
                    Some(other) => self.proceed(Focus::Statement(other)),
                    None => self.yields(Object::Nil),
                }
            },
            Frame::Condition { condition, body } => if value.truthy() {
                self.push(Frame::Loop { condition, body }).proceed(Focus::Statement(body))
            } else {
                self.yields(Object::Nil)
            },
            Frame::Loop { condition, body } => self.push(
                Frame::Condition { condition, body },
            ).proceed(Focus::Expression(condition)),
            Frame::Return => self.proceed(Focus::Returning(value)),
            Frame::Superclass { name, superclass, methods } => match value {
                Object::Class(parent) => self.declare_class(name, Some(parent), methods),
                _ => self.fail(
                    match superclass {
                        Expr::Variable { name: parent_name } => parent_name,
                        _ => name,
                    },
                    Message::SuperclassMustBeClass,
                ),
            },
            Frame::Unary { operator } => self.unary(operator, value),
            Frame::Left { operator, right } => self.push(
                Frame::Right { operator, left: value },
            ).proceed(Focus::Expression(right)),
            Frame::Right { operator, left } => self.binary(operator, left, value),
            Frame::Logical { operator, right } => self.logical(operator, value, right),
            Frame::Assign { name } => self.assign(name, value),
            Frame::Callee { paren, arguments } => if arguments@.len() == 0 {
                self.invoke(value, paren, 0)
            } else {
                self.push(Frame::Arguments { callee: value, paren, arguments, next: 0 }).proceed(
                    Focus::Expression(&arguments@[0]),
                )
            },
            Frame::Arguments { callee, paren, arguments, next } => {
                let pushed = InterpreterView { operands: self.operands.push(value), ..self };
                if next + 1 < arguments@.len() {
                    pushed.push(
                        Frame::Arguments { callee, paren, arguments, next: (next + 1) as usize },
                    ).proceed(Focus::Expression(&arguments@[next + 1]))
                } else {
                    pushed.invoke(callee, paren, arguments@.len() as usize)
                }
            },
            Frame::Get { name } => self.get(value, name),
            Frame::SetObject { name, value: source } => match value {
                Object::Instance(instance) => self.push(
                    Frame::SetValue { instance, name },
                ).proceed(Focus::Expression(source)),
                _ => self.fail(name, Message::OnlyInstancesHaveFields),
            },
            Frame::SetValue { instance, name } => self.with_heap(
                self.heap.set_field(instance, name.lexeme@, value),
            ).yields(value),
            Frame::Call { restore, function } => InterpreterView {
                environment: restore,
                ..self
            }.yields(self.call_result(function, Object::Nil)),
            Frame::Construct { instance } => self.yields(Object::Instance(instance)),
            Frame::Native { argument_count } => self.drop_operands(argument_count).yields(value),
        }
    }

    /// Carries a `return` past `frame`, which has been taken off the
    /// frames already. A running function catches it; a block on the way
    /// gives its environment back.
    pub open spec fn unwind(self, frame: Frame<'a>, value: Object) -> (
        InterpreterView<'a>,
        Action<'a>,
    ) {
        match frame {
            Frame::Call { restore, function } => InterpreterView {
                environment: restore,
                ..self
            }.yields(self.call_result(function, value)),
            Frame::Sequence { statements, next, restore } => InterpreterView {
                environment: match restore {
                    Some(e) => e,
                    None => self.environment,
                },
                ..self
            }.proceed(Focus::Returning(value)),
            _ => self.proceed(Focus::Returning(value)),
        }
    }

    pub open spec fn pop(self) -> InterpreterView<'a> {
        InterpreterView { frames: self.frames.drop_last(), ..self }
    }

    /// One step of the machine.
    pub open spec fn step(self) -> (InterpreterView<'a>, Action<'a>) {
        match self.focus {
            Focus::Idle => (self, Action::Finished),
            Focus::Waiting(action) => (self, action),
            Focus::Statement(statement) => self.execute(statement),
            Focus::Expression(expression) => self.evaluate(expression),
            Focus::Value(value) => if self.frames.len() == 0 {
                (self.with_focus(Focus::Idle), Action::Finished)
            } else {
                self.pop().deliver(self.frames.last(), value)
            },
            Focus::Returning(value) => if self.frames.len() == 0 {
                (self.with_focus(Focus::Idle), Action::Finished)
            } else {
                self.pop().unwind(self.frames.last(), value)
            },
        }
    }

    /// Steps until something is asked for, or `fuel` steps were taken.
    pub open spec fn run(self, fuel: nat) -> (InterpreterView<'a>, Action<'a>)
        decreases fuel,
    {
        if fuel == 0 {
            (self, Action::Continue)
        } else {
            let (next, action) = self.step();
            if action is Continue {
                next.run((fuel - 1) as nat)
            } else {
                (next, action)
            }
        }
    }

    /// Answering what the machine waits for; anything else is ignored.
    pub open spec fn supply(self, value: Object) -> InterpreterView<'a> {
        if self.focus is Waiting {
            self.with_focus(Focus::Value(value))
        } else {
            self
        }
    }

    /// The machine at rest, about to run `statements` in the outermost
    /// environment.
    pub open spec fn interpret(self, statements: &'a Vec<Stmt>) -> InterpreterView<'a> {
        InterpreterView {
            frames: seq![Frame::Sequence { statements, next: 0, restore: None }],
            operands: Seq::empty(),
            environment: self.globals,
            focus: Focus::Value(Object::Nil),
            ..self
        }
    }

    /// The machine at rest, about to evaluate `expressions` in the
    /// outermost environment and print each value.
    pub open spec fn interpret_expressions(self, expressions: &'a Vec<Expr>) -> InterpreterView<
        'a,
    > {
        InterpreterView {
            frames: seq![Frame::Expressions { expressions, next: 0 }],
            operands: Seq::empty(),
            environment: self.globals,
            focus: Focus::Value(Object::Nil),
            ..self
        }
    }
}

impl<'a> Default for Interpreter<'a> {
    /// A machine at rest, with `clock` among its globals.
    fn default() -> (r: Interpreter<'a>)
        ensures
            r@ == InterpreterView::<'a>::fresh(),
    {
        Interpreter::new()
    }
}

/// `==` of the language on two values.
pub fn objects_equal(heap: &Heap, left: Object, right: Object) -> (r: bool)
    ensures
        r == values_equal(heap@, left, right),
{
    match (left, right) {
        (Object::Nil, Object::Nil) => true,
        (Object::Bool(a), Object::Bool(b)) => a == b,
        (Object::Number(a), Object::Number(b)) => number_equals(a, b),
        (Object::String(a), Object::String(b)) => {
            if a < heap.strings.len() && b < heap.strings.len() {
                heap.strings[a] == heap.strings[b]
            } else {
                false
            }
        },
        (Object::Callable(a), Object::Callable(b)) => a == b,
        (Object::Class(a), Object::Class(b)) => a == b,
        (Object::Instance(a), Object::Instance(b)) => a == b,
        _ => false,
    }
}

/// Stores the functions a class body declares, all closing over
/// `closure`, and returns the method table.
fn store_methods<'a>(heap: &mut Heap<'a>, methods: &'a Vec<Stmt>, closure: usize) -> (r:
    StringHashMap<usize>)
    ensures
        (final(heap)@, r@) == collect_methods(old(heap)@, methods, 0, closure, Map::empty()),
{
    let mut table: StringHashMap<usize> = StringHashMap::new();
    let init: String = "init".to_owned();
    let mut i: usize = 0;
    while i < methods.len()
        invariant
            i <= methods.len(),
            init@ == "init"@,
            collect_methods(heap@, methods, i as int, closure, table@) == collect_methods(
                old(heap)@,
                methods,
                0,
                closure,
                Map::empty(),
            ),
        decreases methods.len() - i,
    {
        match &methods[i] {
            Stmt::Function { name, params, body } => {
                let slot: usize = heap.new_function(
                    Function::User {
                        name,
                        params,
                        body,
                        closure,
                        is_initializer: name.lexeme == init,
                    },
                );
                table.insert(name.lexeme.clone(), slot);
            },
            _ => {},
        }
        i = i + 1;
    }
    table
}

/// Binds each parameter to the operand at the same place, counted from
/// `base`, in frame `env`.
fn store_arguments<'a>(
    heap: &mut Heap<'a>,
    env: usize,
    params: &'a Vec<Token>,
    operands: &Vec<Object>,
    base: usize,
)
    requires
        base <= operands.len(),
    ensures
        final(heap)@ == bind_parameters(old(heap)@, env, params, operands@.skip(base as int), 0),
{
    let mut i: usize = 0;
    while i < params.len() && i < operands.len() - base
        invariant
            base <= operands.len(),
            bind_parameters(heap@, env, params, operands@.skip(base as int), i as int)
                == bind_parameters(old(heap)@, env, params, operands@.skip(base as int), 0),
        decreases params.len() - i,
    {
        heap.define(env, params[i].lexeme.as_str(), operands[base + i]);
        i = i + 1;
    }
}

impl<'a> Interpreter<'a> {
    /// A machine at rest, with `clock` among its globals.
    pub fn new() -> (r: Interpreter<'a>)
        ensures
            r@ == InterpreterView::<'a>::fresh(),
    {
        let mut heap: Heap<'a> = Heap::new();
        let globals: usize = heap.new_environment(None);
        let clock: usize = heap.new_function(Function::Native { arity: 0, id: CLOCK });
        heap.define(globals, "clock", Object::Callable(clock));
        Interpreter {
            heap,
            globals,
            environment: globals,
            locals: Locals::new(),
            frames: Vec::new(),
            operands: Vec::new(),
            focus: Focus::Idle,
        }
    }

    /// Records that the variable used at the place `name` stands at is
    /// bound `depth` frames out.
    pub fn resolve(&mut self, name: &Token, depth: usize)
        ensures
            final(self)@ == (InterpreterView {
                locals: old(self)@.locals.insert(site(name), depth),
                ..old(self)@
            }),
    {
        self.locals.insert(name, depth);
    }

    /// Puts the machine at rest and sets it to run `statements` in the
    /// outermost environment. Nothing runs yet: see [`Interpreter::run`].
    pub fn interpret(&mut self, statements: &'a Vec<Stmt>)
        ensures
            final(self)@ == old(self)@.interpret(statements),
    {
        self.frames.clear();
        self.frames.push(Frame::Sequence { statements, next: 0, restore: None });
        self.operands.clear();
        self.environment = self.globals;
        self.focus = Focus::Value(Object::Nil);
        assert(self.frames@ =~= seq![Frame::Sequence { statements, next: 0, restore: None }]);
    }

    /// Puts the machine at rest and sets it to evaluate `expressions` in
    /// the outermost environment, printing each value.
    pub fn interpret_expressions(&mut self, expressions: &'a Vec<Expr>)
        ensures
            final(self)@ == old(self)@.interpret_expressions(expressions),
    {
        self.frames.clear();
        self.frames.push(Frame::Expressions { expressions, next: 0 });
        self.operands.clear();
        self.environment = self.globals;
        self.focus = Focus::Value(Object::Nil);
        assert(self.frames@ =~= seq![Frame::Expressions { expressions, next: 0 }]);
    }

    /// Answers the action the machine is waiting on. A machine that waits
    /// for nothing ignores the value.
    pub fn supply(&mut self, value: Object)
        ensures
            final(self)@ == old(self)@.supply(value),
    {
        match self.focus {
            Focus::Waiting(_) => {
                self.focus = Focus::Value(value);
            },
            _ => {},
        }
    }

    fn proceed(&mut self, focus: Focus<'a>) -> (r: Action<'a>)
        ensures
            (final(self)@, r) == old(self)@.proceed(focus),
    {
        self.focus = focus;
        Action::Continue
    }

    fn yields(&mut self, value: Object) -> (r: Action<'a>)
        ensures
            (final(self)@, r) == old(self)@.yields(value),
    {
        self.focus = Focus::Value(value);
        Action::Continue
    }

    fn wait(&mut self, action: Action<'a>) -> (r: Action<'a>)
        ensures
            (final(self)@, r) == old(self)@.wait(action),
    {
        self.focus = Focus::Waiting(action);
        action
    }

    fn fail(&mut self, token: &'a Token, message: Message) -> (r: Action<'a>)
        ensures
            (final(self)@, r) == old(self)@.fail(token, message),
    {
        self.frames.clear();
        self.operands.clear();
        self.environment = self.globals;
        self.focus = Focus::Idle;
        Action::Failed(Diagnostic { token, message })
    }

    /// Reads the variable used at `name`. Where the resolver recorded a
    /// distance for this place, exactly the frame that far out is asked;
    /// where it recorded none, the globals are. A name that is not found
    /// there is an undefined-variable error.
    pub fn look_up_variable(&self, name: &Token) -> (r: Result<Object, Error>)
        ensures
            r == match self@.look_up_variable(name) {
                Some(value) => Ok::<Object, Error>(value),
                None => Err(Error::Runtime { token: *name, message: Message::UndefinedVariable }),
            },
    {
        match self.locals.get(name) {
            Some(distance) => Environment::get_at(&self.heap, self.environment, distance, name),
            None => Environment::get(&self.heap, self.globals, name),
        }
    }

    /// Writes the variable used at `name`, on the same terms as
    /// [`Interpreter::look_up_variable`] reads it.
    pub fn assign_variable(&mut self, name: &Token, value: Object) -> (r: Result<(), Error>)
        ensures
            match old(self)@.assign_variable(name, value) {
                Some(heap) => r == Ok::<(), Error>(()) && final(self)@ == old(self)@.with_heap(heap),
                None => r == Err::<(), Error>(
                    Error::Runtime { token: *name, message: Message::UndefinedVariable },
                ) && final(self)@ == old(self)@,
            },
    {
        match self.locals.get(name) {
            Some(distance) => Environment::assign_at(
                &mut self.heap,
                self.environment,
                distance,
                name,
                value,
            ),
            None => Environment::assign(&mut self.heap, self.globals, name, value),
        }
    }

    /// `super.method`: the method of the superclass, bound to `this`.
    pub fn visit_super_expr(&mut self, keyword: &'a Token, method: &'a Token) -> (r: Action<'a>)
        ensures
            (final(self)@, r) == old(self)@.super_method(keyword, method),
    {
        match self.locals.get(keyword) {
            Some(distance) => {
                if distance == 0 {
                    return self.fail(keyword, Message::UndefinedVariable);
                }
                let superclass: Option<Object> = self.heap.value_at(
                    self.environment,
                    distance,
                    "super",
                );
                let receiver: Option<Object> = self.heap.value_at(
                    self.environment,
                    distance - 1,
                    "this",
                );
                match (superclass, receiver) {
                    (Some(Object::Class(class)), Some(receiver)) => {
                        match Class::bound_method(
                            &mut self.heap,
                            class,
                            method.lexeme.as_str(),
                            receiver,
                        ) {
                            Some(value) => self.yields(value),
                            None => self.fail(method, Message::UndefinedProperty),
                        }
                    },
                    _ => self.fail(keyword, Message::UndefinedVariable),
                }
            },
            None => self.fail(keyword, Message::UndefinedVariable),
        }
    }

    /// A use of a variable: its value, or an undefined-variable failure
    /// at its name.
    pub fn visit_variable_expr(&mut self, name: &'a Token) -> (r: Action<'a>)
        ensures
            (final(self)@, r) == old(self)@.variable(name),
    {
        match self.look_up_variable(name) {
            Ok(value) => self.yields(value),
            Err(_) => self.fail(name, Message::UndefinedVariable),
        }
    }

    /// A use of `this`, which is looked up as a variable is.
    pub fn visit_this_expr(&mut self, keyword: &'a Token) -> (r: Action<'a>)
        ensures
            (final(self)@, r) == old(self)@.variable(keyword),
    {
        self.visit_variable_expr(keyword)
    }

    /// A unary operator on its finished operand.
    pub fn visit_unary_expr(&mut self, operator: &'a Token, right: Object) -> (r: Action<'a>)
        ensures
            (final(self)@, r) == old(self)@.unary(operator, right),
    {
        match operator.kind {
            TokenType::Minus => match right {
                Object::Number(n) => self.yields(Object::Number(number_negate(n))),
                _ => self.fail(operator, Message::InvalidUnary { operand: right }),
            },
            TokenType::Bang => {
                let truthy: bool = right.is_truthy();
                self.yields(Object::Bool(!truthy))
            },
            _ => self.fail(operator, Message::InvalidUnary { operand: right }),
        }
    }

    /// `or` and `and` once the left side is there. Where the left side
    /// settles the matter it is the value, unchanged, and the right side
    /// is never evaluated.
    pub fn visit_logical_expr(&mut self, operator: &'a Token, left: Object, right: &'a Expr) -> (r:
        Action<'a>)
        ensures
            (final(self)@, r) == old(self)@.logical(operator, left, right),
    {
        let truthy: bool = left.is_truthy();
        if operator.kind == TokenType::Or {
            if truthy {
                self.yields(left)
            } else {
                self.proceed(Focus::Expression(right))
            }
        } else {
            if !truthy {
                self.yields(left)
            } else {
                self.proceed(Focus::Expression(right))
            }
        }
    }

    /// An assignment once its value is there. It writes at the recorded
    /// distance, or else to a global that exists, and is worth the value;
    /// with nowhere to write it creates nothing and fails at the name.
    pub fn visit_assign_expr(&mut self, name: &'a Token, value: Object) -> (r: Action<'a>)
        ensures
            (final(self)@, r) == old(self)@.assign(name, value),
    {
        match self.assign_variable(name, value) {
            Ok(_) => self.yields(value),
            Err(_) => self.fail(name, Message::UndefinedVariable),
        }
    }

    /// A property read once its object is there.
    pub fn visit_get_expr(&mut self, object: Object, name: &'a Token) -> (r: Action<'a>)
        ensures
            (final(self)@, r) == old(self)@.get(object, name),
    {
        match object {
            Object::Instance(instance) => {
                match Instance::get(&mut self.heap, instance, name) {
                    Ok(property) => self.yields(property),
                    Err(_) => self.fail(name, Message::UndefinedProperty),
                }
            },
            _ => self.fail(name, Message::OnlyInstancesHaveProperties),
        }
    }

    /// A function declaration: the function closes over the current
    /// environment, by its slot, and its name is bound to it there.
    pub fn visit_function_stmt(
        &mut self,
        name: &'a Token,
        params: &'a Vec<Token>,
        body: &'a Vec<Stmt>,
    ) -> (r: Action<'a>)
        ensures
            (final(self)@, r) == old(self)@.declare_function(name, params, body),
    {
        let slot: usize = self.heap.new_function(
            Function::User { name, params, body, closure: self.environment, is_initializer: false },
        );
        self.heap.define(self.environment, name.lexeme.as_str(), Object::Callable(slot));
        self.yields(Object::Nil)
    }

    /// A literal: `nil`, a boolean, a text stored in the heap, or a
    /// numeral whose number is asked of the embedding program.
    pub fn visit_literal_expr(&mut self, value: &'a Literal) -> (r: Action<'a>)
        ensures
            (final(self)@, r) == old(self)@.evaluate(&(Expr::Literal { value: *value })),
    {
        match value {
            Literal::Nil => self.yields(Object::Nil),
            Literal::Bool(b) => self.yields(Object::Bool(*b)),
            Literal::Number(numeral) => self.wait(Action::ParseNumber(numeral)),
            Literal::String(text) => {
                let slot: usize = self.heap.new_string(text.clone());
                self.yields(Object::String(slot))
            },
            Literal::Identifier(text) => {
                let slot: usize = self.heap.new_string(text.clone());
                self.yields(Object::String(slot))
            },
        }
    }

    /// A group is worth what stands inside it.
    pub fn visit_grouping_expr(&mut self, expr: &'a Expr) -> (r: Action<'a>)
        ensures
            (final(self)@, r) == old(self)@.evaluate(&(Expr::Grouping { expr: Box::new(*expr) })),
    {
        self.proceed(Focus::Expression(expr))
    }

    /// An expression statement: the expression is evaluated, and its
    /// value goes to whatever runs the statements, which drops it.
    pub fn visit_expression_stmt(&mut self, expression: &'a Expr) -> (r: Action<'a>)
        ensures
            (final(self)@, r) == old(self)@.execute(&(Stmt::Expression { expr: *expression })),
    {
        self.proceed(Focus::Expression(expression))
    }

    /// A property write once the instance and the value are there: the
    /// field is written and the value is what the write is worth.
    pub fn visit_set_expr(&mut self, instance: usize, name: &'a Token, value: Object) -> (r: Action<
        'a,
    >)
        ensures
            (final(self)@, r) == old(self)@.deliver(Frame::SetValue { instance, name }, value),
    {
        self.heap.set_field(instance, name.lexeme.as_str(), value);
        self.yields(value)
    }

    /// A block: its statements run in a frame of their own, inside the
    /// current one, which is current again when they are done.
    pub fn visit_block_stmt(&mut self, statements: &'a Vec<Stmt>) -> (r: Action<'a>)
        ensures
            (final(self)@, r) == old(self)@.execute(&(Stmt::Block { statements: *statements })),
    {
        let outer: usize = self.environment;
        let inner: usize = self.heap.new_environment(Some(outer));
        self.environment = inner;
        self.frames.push(Frame::Sequence { statements, next: 0, restore: Some(outer) });
        self.yields(Object::Nil)
    }

    /// `print` once its value is there: the embedding program is asked
    /// to write it.
    pub fn visit_print_stmt(&mut self, value: Object) -> (r: Action<'a>)
        ensures
            (final(self)@, r) == old(self)@.deliver(Frame::Print, value),
    {
        self.focus = Focus::Value(Object::Nil);
        Action::Print(value)
    }

    /// `var` once its value is there, which is `nil` where there is no
    /// initializer: the name is bound in the current environment.
    pub fn visit_var_stmt(&mut self, name: &'a Token, value: Object) -> (r: Action<'a>)
        ensures
            (final(self)@, r) == old(self)@.deliver(Frame::Define { name }, value),
    {
        self.heap.define(self.environment, name.lexeme.as_str(), value);
        self.yields(Object::Nil)
    }

    /// `if` once its condition is there: the first branch for a truthy
    /// condition, else the second if there is one.
    pub fn visit_if_stmt(
        &mut self,
        condition: Object,
        then_branch: &'a Stmt,
        else_branch: &'a Option<Stmt>,
    ) -> (r: Action<'a>)
        ensures
            (final(self)@, r) == old(self)@.deliver(
                Frame::Branch { then_branch, else_branch },
                condition,
            ),
    {
        if condition.is_truthy() {
            self.proceed(Focus::Statement(then_branch))
        } else {
            match else_branch {
                Some(other) => self.proceed(Focus::Statement(other)),
                None => self.yields(Object::Nil),
            }
        }
    }

    /// `while` once its condition is there: the body and then the
    /// condition again for a truthy condition, else the loop is over.
    pub fn visit_while_stmt(&mut self, value: Object, condition: &'a Expr, body: &'a Stmt) -> (r:
        Action<'a>)
        ensures
            (final(self)@, r) == old(self)@.deliver(Frame::Condition { condition, body }, value),
    {
        if value.is_truthy() {
            self.frames.push(Frame::Loop { condition, body });
            self.proceed(Focus::Statement(body))
        } else {
            self.yields(Object::Nil)
        }
    }

    /// `return` once its value is there, which is `nil` where none is
    /// written: the value sets out for the nearest running function.
    pub fn visit_return_stmt(&mut self, value: Object) -> (r: Action<'a>)
        ensures
            (final(self)@, r) == old(self)@.deliver(Frame::Return, value),
    {
        self.proceed(Focus::Returning(value))
    }

    fn evaluate(&mut self, expression: &'a Expr) -> (r: Action<'a>)
        ensures
            (final(self)@, r) == old(self)@.evaluate(expression),
    {
        match expression {
            Expr::Literal { value } => self.visit_literal_expr(value),
            Expr::Grouping { expr } => self.visit_grouping_expr(&**expr),
            Expr::Unary { operator, right } => {
                self.frames.push(Frame::Unary { operator });
                self.proceed(Focus::Expression(&**right))
            },
            Expr::Binary { left, operator, right } => {
                self.frames.push(Frame::Left { operator, right: &**right });
                self.proceed(Focus::Expression(&**left))
            },
            Expr::Logical { left, operator, right } => {
                self.frames.push(Frame::Logical { operator, right: &**right });
                self.proceed(Focus::Expression(&**left))
            },
            Expr::Variable { name } => self.visit_variable_expr(name),
            Expr::This { keyword } => self.visit_this_expr(keyword),
            Expr::Assign { name, value } => {
                self.frames.push(Frame::Assign { name });
                self.proceed(Focus::Expression(&**value))
            },
            Expr::Call { callee, paren, arguments } => {
                self.frames.push(Frame::Callee { paren, arguments });
                self.proceed(Focus::Expression(&**callee))
            },
            Expr::Get { object, name } => {
                self.frames.push(Frame::Get { name });
                self.proceed(Focus::Expression(&**object))
            },
            Expr::SetProperty { object, name, value } => {
                self.frames.push(Frame::SetObject { name, value: &**value });
                self.proceed(Focus::Expression(&**object))
            },
            Expr::Super { keyword, method } => self.visit_super_expr(keyword, method),
        }
    }

    /// A class declaration whose superclass, if it has one, is the class
    /// in slot `superclass`.
    pub fn visit_class_stmt(
        &mut self,
        name: &'a Token,
        superclass: Option<usize>,
        methods: &'a Vec<Stmt>,
    ) -> (r: Action<'a>)
        ensures
            (final(self)@, r) == old(self)@.declare_class(name, superclass, methods),
    {
        self.heap.define(self.environment, name.lexeme.as_str(), Object::Nil);
        let closure: usize = match superclass {
            Some(parent) => {
                let frame: usize = self.heap.new_environment(Some(self.environment));
                self.heap.define(frame, "super", Object::Class(parent));
                frame
            },
            None => self.environment,
        };
        let table: StringHashMap<usize> = store_methods(&mut self.heap, methods, closure);
        let slot: usize = self.heap.new_class(
            Class { name: name.lexeme.clone(), superclass, methods: table },
        );
        self.heap.define(self.environment, name.lexeme.as_str(), Object::Class(slot));
        self.yields(Object::Nil)
    }

    fn execute(&mut self, statement: &'a Stmt) -> (r: Action<'a>)
        ensures
            (final(self)@, r) == old(self)@.execute(statement),
    {
        match statement {
            Stmt::Expression { expr } => self.visit_expression_stmt(expr),
            Stmt::Print { expr } => {
                self.frames.push(Frame::Print);
                self.proceed(Focus::Expression(expr))
            },
            Stmt::Var { name, initializer } => match initializer {
                Some(init) => {
                    self.frames.push(Frame::Define { name });
                    self.proceed(Focus::Expression(init))
                },
                None => self.visit_var_stmt(name, Object::Nil),
            },
            Stmt::Block { statements } => self.visit_block_stmt(statements),
            Stmt::If { condition, then_branch, else_branch } => {
                self.frames.push(
                    Frame::Branch { then_branch: &**then_branch, else_branch: &**else_branch },
                );
                self.proceed(Focus::Expression(condition))
            },
            Stmt::While { condition, body } => {
                self.frames.push(Frame::Condition { condition, body: &**body });
                self.proceed(Focus::Expression(condition))
            },
            Stmt::Function { name, params, body } => self.visit_function_stmt(name, params, body),
            Stmt::Return { keyword, value } => match value {
                Some(v) => {
                    self.frames.push(Frame::Return);
                    self.proceed(Focus::Expression(v))
                },
                None => self.visit_return_stmt(Object::Nil),
            },
            Stmt::Class { name, superclass, methods } => match superclass {
                Some(parent) => {
                    self.frames.push(Frame::Superclass { name, superclass: parent, methods });
                    self.proceed(Focus::Expression(parent))
                },
                None => self.visit_class_stmt(name, None, methods),
            },
            Stmt::Null => self.yields(Object::Nil),
        }
    }

    /// The error for operands a binary operator cannot take, at the
    /// operator and with the operands.
    pub fn runtime_error(left: Object, operator: &Token, right: Object) -> (r: Error)
        ensures
            r == (Error::Runtime {
                token: *operator,
                message: operands_message(operator.kind, left, right),
            }),
    {
        let message: Message = match operator.kind {
            TokenType::Minus
            | TokenType::Slash
            | TokenType::Star
            | TokenType::Greater
            | TokenType::GreaterEqual
            | TokenType::Less
            | TokenType::LessEqual => Message::OperandsMustBeNumbers { left, right },
            TokenType::Plus => Message::OperandsMustBeNumbersOrStrings { left, right },
            _ => Message::InvalidExpression { left, right },
        };
        Error::Runtime { token: operator.clone(), message }
    }

    /// A binary operator on its two finished operands. Arithmetic on
    /// numbers is asked of the embedding program; comparison, equality and
    /// the joining of text are done here.
    pub fn visit_binary_expr(&mut self, operator: &'a Token, left: Object, right: Object) -> (r:
        Action<'a>)
        ensures
            (final(self)@, r) == old(self)@.binary(operator, left, right),
    {
        match operator.kind {
            TokenType::Minus | TokenType::Star => match (left, right) {
                (Object::Number(a), Object::Number(b)) => self.wait(
                    Action::Arithmetic { operator: operator.kind, left: a, right: b },
                ),
                _ => self.fail(operator, Message::OperandsMustBeNumbers { left, right }),
            },
            TokenType::Slash => match (left, right) {
                (Object::Number(a), Object::Number(b)) => {
                    if number_is_zero(b) {
                        self.fail(operator, Message::ZeroDivision { left, right })
                    } else {
                        self.wait(Action::Arithmetic { operator: operator.kind, left: a, right: b })
                    }
                },
                _ => self.fail(operator, Message::OperandsMustBeNumbers { left, right }),
            },
            TokenType::Plus => match (left, right) {
                (Object::Number(a), Object::Number(b)) => self.wait(
                    Action::Arithmetic { operator: operator.kind, left: a, right: b },
                ),
                (Object::String(a), Object::String(b)) => {
                    if a < self.heap.strings.len() && b < self.heap.strings.len() {
                        let mut text: String = self.heap.strings[a].clone();
                        text.append(self.heap.strings[b].as_str());
                        let slot: usize = self.heap.new_string(text);
                        self.yields(Object::String(slot))
                    } else {
                        self.fail(operator, Message::DanglingReference)
                    }
                },
                _ => self.fail(operator, Message::OperandsMustBeNumbersOrStrings { left, right }),
            },
            TokenType::Greater => match (left, right) {
                (Object::Number(a), Object::Number(b)) => self.yields(
                    Object::Bool(number_less(b, a)),
                ),
                _ => self.fail(operator, Message::OperandsMustBeNumbers { left, right }),
            },
            TokenType::GreaterEqual => match (left, right) {
                (Object::Number(a), Object::Number(b)) => self.yields(
                    Object::Bool(number_less(b, a) || number_equals(a, b)),
                ),
                _ => self.fail(operator, Message::OperandsMustBeNumbers { left, right }),
            },
            TokenType::Less => match (left, right) {
                (Object::Number(a), Object::Number(b)) => self.yields(
                    Object::Bool(number_less(a, b)),
                ),
                _ => self.fail(operator, Message::OperandsMustBeNumbers { left, right }),
            },
            TokenType::LessEqual => match (left, right) {
                (Object::Number(a), Object::Number(b)) => self.yields(
                    Object::Bool(number_less(a, b) || number_equals(a, b)),
                ),
                _ => self.fail(operator, Message::OperandsMustBeNumbers { left, right }),
            },
            TokenType::BangEqual => {
                let same: bool = objects_equal(&self.heap, left, right);
                self.yields(Object::Bool(!same))
            },
            TokenType::EqualEqual => {
                let same: bool = objects_equal(&self.heap, left, right);
                self.yields(Object::Bool(same))
            },
            _ => self.fail(operator, Message::InvalidExpression { left, right }),
        }
    }

    pub(crate) fn call(&mut self, function: Function<'a>, argument_count: usize) -> (r: Action<'a>)
        ensures
            (final(self)@, r) == old(self)@.call(function, argument_count),
    {
        match function {
            Function::Native { arity, id } => {
                self.frames.push(Frame::Native { argument_count });
                self.wait(Action::Native { id, argument_count })
            },
            Function::User { name, params, body, closure, is_initializer } => {
                let frame: usize = self.heap.new_environment(Some(closure));
                let base: usize = if argument_count <= self.operands.len() {
                    self.operands.len() - argument_count
                } else {
                    0
                };
                store_arguments(&mut self.heap, frame, params, &self.operands, base);
                assert(old(self)@.operands.skip(0) =~= old(self)@.operands);
                self.operands.truncate(base);
                assert(self.operands@ =~= old(self)@.drop_operands(argument_count).operands);
                let restore: usize = self.environment;
                self.environment = frame;
                self.frames.push(Frame::Call { restore, function });
                self.frames.push(Frame::Sequence { statements: body, next: 0, restore: None });
                self.yields(Object::Nil)
            },
        }
    }

    /// A call once the callee and the arguments are there; the arguments
    /// are the last `argument_count` operands.
    pub fn visit_call_expr(&mut self, callee: Object, paren: &'a Token, argument_count: usize) -> (r:
        Action<'a>)
        ensures
            (final(self)@, r) == old(self)@.invoke(callee, paren, argument_count),
    {
        match callee {
            Object::Callable(f) => {
                if f < self.heap.functions.len() {
                    let function: Function<'a> = self.heap.functions[f];
                    let arity: usize = function.arity();
                    if argument_count != arity {
                        self.fail(
                            paren,
                            Message::WrongArgumentCount { expected: arity, got: argument_count },
                        )
                    } else {
                        self.call(function, argument_count)
                    }
                } else {
                    self.fail(paren, Message::DanglingReference)
                }
            },
            Object::Class(class) => {
                if class < self.heap.classes.len() {
                    let found: Option<usize> = Class::find_method(&self.heap, class, "init");
                    let instance: usize = self.heap.new_instance(class);
                    match found {
                        Some(init) => {
                            if init < self.heap.functions.len() {
                                let initializer: Function<'a> = self.heap.functions[init];
                                let arity: usize = initializer.arity();
                                if argument_count != arity {
                                    self.fail(
                                        paren,
                                        Message::WrongArgumentCount {
                                            expected: arity,
                                            got: argument_count,
                                        },
                                    )
                                } else {
                                    let bound: Function<'a> = initializer.bind(
                                        &mut self.heap,
                                        Object::Instance(instance),
                                    );
                                    self.frames.push(Frame::Construct { instance });
                                    self.call(bound, argument_count)
                                }
                            } else {
                                self.fail(paren, Message::DanglingReference)
                            }
                        },
                        None => {
                            if argument_count != 0 {
                                self.fail(
                                    paren,
                                    Message::WrongArgumentCount { expected: 0, got: argument_count },
                                )
                            } else {
                                self.yields(Object::Instance(instance))
                            }
                        },
                    }
                } else {
                    self.fail(paren, Message::DanglingReference)
                }
            },
            _ => self.fail(paren, Message::NotCallable),
        }
    }

    fn call_result(&self, function: Function<'a>, returned: Object) -> (r: Object)
        ensures
            r == self@.call_result(function, returned),
    {
        match function {
            Function::User { closure, is_initializer, .. } => {
                if is_initializer {
                    match self.heap.value_at(closure, 0, "this") {
                        Some(receiver) => receiver,
                        None => Object::Nil,
                    }
                } else {
                    returned
                }
            },
            Function::Native { .. } => returned,
        }
    }

    fn drop_operands(&mut self, count: usize)
        ensures
            final(self)@ == old(self)@.drop_operands(count),
    {
        if count <= self.operands.len() {
            let keep: usize = self.operands.len() - count;
            self.operands.truncate(keep);
        } else {
            self.operands.clear();
        }
    }

    fn deliver(&mut self, frame: Frame<'a>, value: Object) -> (r: Action<'a>)
        ensures
            (final(self)@, r) == old(self)@.deliver(frame, value),
    {
        match frame {
            Frame::Sequence { statements, next, restore } => {
                if next < statements.len() {
                    self.frames.push(Frame::Sequence { statements, next: next + 1, restore });
                    self.proceed(Focus::Statement(&statements[next]))
                } else {
                    match restore {
                        Some(e) => {
                            self.environment = e;
                        },
                        None => {},
                    }
                    self.yields(Object::Nil)
                }
            },
            Frame::Expressions { expressions, next } => {
                if next < expressions.len() {
                    self.frames.push(Frame::Expressions { expressions, next: next + 1 });
                    self.focus = Focus::Expression(&expressions[next]);
                } else {
                    self.focus = Focus::Value(Object::Nil);
                }
                if next > 0 {
                    Action::Print(value)
                } else {
                    Action::Continue
                }
            },
            Frame::Print => self.visit_print_stmt(value),
            Frame::Define { name } => self.visit_var_stmt(name, value),
            Frame::Branch { then_branch, else_branch } => self.visit_if_stmt(
                value,
                then_branch,
                else_branch,
            ),
            Frame::Condition { condition, body } => self.visit_while_stmt(value, condition, body),
            Frame::Loop { condition, body } => {
                self.frames.push(Frame::Condition { condition, body });
                self.proceed(Focus::Expression(condition))
            },
            Frame::Return => self.visit_return_stmt(value),
            Frame::Superclass { name, superclass, methods } => match value {
                Object::Class(parent) => self.visit_class_stmt(name, Some(parent), methods),
                _ => {
                    let at: &'a Token = match superclass {
                        Expr::Variable { name: parent_name } => parent_name,
                        _ => name,
                    };
                    self.fail(at, Message::SuperclassMustBeClass)
                },
            },
            Frame::Unary { operator } => self.visit_unary_expr(operator, value),
            Frame::Left { operator, right } => {
                self.frames.push(Frame::Right { operator, left: value });
                self.proceed(Focus::Expression(right))
            },
            Frame::Right { operator, left } => self.visit_binary_expr(operator, left, value),
            Frame::Logical { operator, right } => self.visit_logical_expr(operator, value, right),
            Frame::Assign { name } => self.visit_assign_expr(name, value),
            Frame::Callee { paren, arguments } => {
                if arguments.len() == 0 {
                    self.visit_call_expr(value, paren, 0)
                } else {
                    self.frames.push(Frame::Arguments { callee: value, paren, arguments, next: 0 });
                    self.proceed(Focus::Expression(&arguments[0]))
                }
            },
            Frame::Arguments { callee, paren, arguments, next } => {
                self.operands.push(value);
                if next < arguments.len() && next + 1 < arguments.len() {
                    self.frames.push(Frame::Arguments { callee, paren, arguments, next: next + 1 });
                    self.proceed(Focus::Expression(&arguments[next + 1]))
                } else {
                    self.visit_call_expr(callee, paren, arguments.len())
                }
            },
            Frame::Get { name } => self.visit_get_expr(value, name),
            Frame::SetObject { name, value: source } => match value {
                Object::Instance(instance) => {
                    self.frames.push(Frame::SetValue { instance, name });
                    self.proceed(Focus::Expression(source))
                },
                _ => self.fail(name, Message::OnlyInstancesHaveFields),
            },
            Frame::SetValue { instance, name } => self.visit_set_expr(instance, name, value),
            Frame::Call { restore, function } => {
                let result: Object = self.call_result(function, Object::Nil);
                self.environment = restore;
                self.yields(result)
            },
            Frame::Construct { instance } => self.yields(Object::Instance(instance)),
            Frame::Native { argument_count } => {
                self.drop_operands(argument_count);
                self.yields(value)
            },
        }
    }

    fn unwind(&mut self, frame: Frame<'a>, value: Object) -> (r: Action<'a>)
        ensures
            (final(self)@, r) == old(self)@.unwind(frame, value),
    {
        match frame {
            Frame::Call { restore, function } => {
                let result: Object = self.call_result(function, value);
                self.environment = restore;
                self.yields(result)
            },
            Frame::Sequence { statements, next, restore } => {
                match restore {
                    Some(e) => {
                        self.environment = e;
                    },
                    None => {},
                }
                self.proceed(Focus::Returning(value))
            },
            _ => self.proceed(Focus::Returning(value)),
        }
    }

    /// Takes one step.
    pub fn step(&mut self) -> (r: Action<'a>)
        ensures
            (final(self)@, r) == old(self)@.step(),
    {
        let focus: Focus<'a> = self.focus;
        match focus {
            Focus::Idle => Action::Finished,
            Focus::Waiting(action) => action,
            Focus::Statement(statement) => self.execute(statement),
            Focus::Expression(expression) => self.evaluate(expression),
            Focus::Value(value) => match self.frames.pop() {
                Some(frame) => self.deliver(frame, value),
                None => {
                    self.focus = Focus::Idle;
                    Action::Finished
                },
            },
            Focus::Returning(value) => match self.frames.pop() {
                Some(frame) => self.unwind(frame, value),
                None => {
                    self.focus = Focus::Idle;
                    Action::Finished
                },
            },
        }
    }

    /// Steps until a step asks for something, or `fuel` steps were taken;
    /// then the answer is `Continue`, and the machine can be run on.
    pub fn run(&mut self, fuel: usize) -> (r: Action<'a>)
        ensures
            (final(self)@, r) == old(self)@.run(fuel as nat),
    {
        let mut left: usize = fuel;
        while left > 0
            invariant
                self@.run(left as nat) == old(self)@.run(fuel as nat),
            decreases left,
        {
            let action: Action<'a> = self.step();
            match action {
                Action::Continue => {},
                _ => {
                    return action;
                },
            }
            left = left - 1;
        }
        Action::Continue
    }
}

} // verus!
