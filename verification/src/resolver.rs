//! The pass between parsing and running. For every use of a local
//! variable it works out how many scopes lie between the use and the
//! declaration, so that the evaluator can go straight to the right frame;
//! and it finds the mistakes that can be seen without running anything.

use vstd::prelude::*;
use vstd::hash_map::StringHashMap;
use crate::error::Diagnostic;
use crate::error::Message;
use crate::expr::Expr;
use crate::interpreter::Interpreter;
use crate::locals::Locals;
use crate::locals::site;
use crate::stmt::Stmt;
use crate::token::Token;

verus! {

/// What kind of function body is being resolved.
#[derive(Debug, Clone, Copy, PartialEq, Eq, Structural, Hash)]
pub enum FunctionType {
    /// Not inside any function.
    Outside,
    Function,
    Initializer,
    Method,
}

/// What kind of class body is being resolved.
#[derive(Debug, Clone, Copy, PartialEq, Eq, Structural, Hash)]
pub enum ClassType {
    /// Not inside any class.
    Outside,
    Class,
    Subclass,
}

pub struct Resolver<'a> {
    /// The scopes that are open, innermost last. Each maps a declared name
    /// to whether its initializer is over. Globals are in no scope.
    pub scopes: Vec<StringHashMap<bool>>,
    pub current_function: FunctionType,
    pub current_class: ClassType,
    pub had_error: bool,
    pub diagnostics: Vec<Diagnostic<'a>>,
    /// The distances found. While a program is being resolved these are
    /// the interpreter's; otherwise the resolver keeps none.
    pub locals: Locals,
}

impl<'a> View for Resolver<'a> {
    type V = Resolution<'a>;

    open spec fn view(&self) -> Resolution<'a> {
        Resolution {
            scopes: self.scopes@.map_values(|m: StringHashMap<bool>| m@),
            current_function: self.current_function,
            current_class: self.current_class,
            had_error: self.had_error,
            diagnostics: self.diagnostics@,
            locals: self.locals@,
        }
    }
}

/// The resolver's state together with the distances found so far.
pub struct Resolution<'a> {
    pub scopes: Seq<Map<Seq<char>, bool>>,
    pub current_function: FunctionType,
    pub current_class: ClassType,
    pub had_error: bool,
    pub diagnostics: Seq<Diagnostic<'a>>,
    pub locals: Map<(usize, usize), usize>,
}

/// The scope `distance` scopes out from the innermost.
pub open spec fn scope_at(scopes: Seq<Map<Seq<char>, bool>>, distance: int) -> Map<Seq<char>, bool> {
    scopes[scopes.len() - 1 - distance]
}

/// How many scopes out, counting from `from`, the nearest scope lies that
/// declares `name`.
pub open spec fn depth_from(scopes: Seq<Map<Seq<char>, bool>>, name: Seq<char>, from: int) -> Option<
    usize,
>
    decreases scopes.len() - from,
{
    if from < 0 || from >= scopes.len() {
        None
    } else if scope_at(scopes, from).contains_key(name) {
        Some(from as usize)
    } else {
        depth_from(scopes, name, from + 1)
    }
}

/// How many scopes lie between a use of `name` and the nearest scope that
/// declares it: 0 for the innermost scope, nothing for a name that no
/// scope declares.
pub open spec fn depth_of(scopes: Seq<Map<Seq<char>, bool>>, name: Seq<char>) -> Option<usize> {
    depth_from(scopes, name, 0)
}

impl<'a> Resolution<'a> {
    /// Outside every scope, function and class, with nothing found.
    pub open spec fn start() -> Resolution<'a> {
        Resolution {
            scopes: Seq::empty(),
            current_function: FunctionType::Outside,
            current_class: ClassType::Outside,
            had_error: false,
            diagnostics: Seq::empty(),
            locals: Map::empty(),
        }
    }

    pub open spec fn with_locals(self, locals: Map<(usize, usize), usize>) -> Resolution<'a> {
        Resolution { locals, ..self }
    }

    pub open spec fn error(self, token: &'a Token, message: Message) -> Resolution<'a> {
        Resolution {
            had_error: true,
            diagnostics: self.diagnostics.push(Diagnostic { token, message }),
            ..self
        }
    }

    pub open spec fn begin_scope(self) -> Resolution<'a> {
        Resolution { scopes: self.scopes.push(Map::empty()), ..self }
    }

    pub open spec fn end_scope(self) -> Resolution<'a> {
        if self.scopes.len() > 0 {
            Resolution { scopes: self.scopes.drop_last(), ..self }
        } else {
            self
        }
    }

    /// Enters `name` in the innermost scope; outside every scope nothing
    /// happens.
    pub open spec fn enter(self, name: Seq<char>, ready: bool) -> Resolution<'a> {
        if self.scopes.len() > 0 {
            Resolution {
                scopes: self.scopes.update(
                    self.scopes.len() - 1,
                    self.scopes.last().insert(name, ready),
                ),
                ..self
            }
        } else {
            self
        }
    }

    /// A declaration: the name exists from here on but cannot be read yet.
    /// Declaring a name twice in one scope is a mistake.
    pub open spec fn declare(self, name: &'a Token) -> Resolution<'a> {
        if self.scopes.len() > 0 && self.scopes.last().contains_key(name.lexeme@) {
            self.enter(name.lexeme@, false).error(name, Message::AlreadyDeclared)
        } else {
            self.enter(name.lexeme@, false)
        }
    }

    /// The end of a declaration: the name can be read.
    pub open spec fn define(self, name: &'a Token) -> Resolution<'a> {
        self.enter(name.lexeme@, true)
    }

    /// Records the distance for a use of a variable, if a scope declares
    /// it; a name that no scope declares is a global and gets no entry.
    pub open spec fn resolve_local(self, name: &'a Token) -> Resolution<'a> {
        match depth_of(self.scopes, name.lexeme@) {
            Some(depth) => Resolution { locals: self.locals.insert(site(name), depth), ..self },
            None => self,
        }
    }

    /// A read of a variable. Reading a local while its own initializer
    /// is still being resolved is a mistake; the use gets its distance
    /// all the same.
    pub open spec fn resolve_variable(self, name: &'a Token) -> Resolution<'a> {
        if self.scopes.len() > 0 && self.scopes.last().contains_key(name.lexeme@)
            && !self.scopes.last()[name.lexeme@] {
            self.error(name, Message::ReadInOwnInitializer).resolve_local(name)
        } else {
            self.resolve_local(name)
        }
    }

    /// `this`: a mistake outside every class, a local inside one.
    pub open spec fn resolve_this(self, keyword: &'a Token) -> Resolution<'a> {
        match self.current_class {
            ClassType::Outside => self.error(keyword, Message::ThisOutsideClass),
            _ => self.resolve_local(keyword),
        }
    }

    /// `super`: a mistake outside every class and in a class without a
    /// superclass, a local in a subclass.
    pub open spec fn resolve_super(self, keyword: &'a Token) -> Resolution<'a> {
        match self.current_class {
            ClassType::Outside => self.error(keyword, Message::SuperOutsideClass),
            ClassType::Class => self.error(keyword, Message::SuperWithoutSuperclass),
            ClassType::Subclass => self.resolve_local(keyword),
        }
    }

    /// `return`: a mistake outside every function, and a mistake with a
    /// value inside an initializer. Each is found at the keyword, and the
    /// value is resolved in every case.
    pub open spec fn resolve_return(self, keyword: &'a Token, value: &'a Option<Expr>) -> Resolution<
        'a,
    > {
        let checked = if self.current_function == FunctionType::Outside {
            self.error(keyword, Message::ReturnOutsideFunction)
        } else {
            self
        };
        match value {
            Some(v) => if checked.current_function == FunctionType::Initializer {
                checked.error(keyword, Message::ReturnValueFromInitializer).resolve_expr(v)
            } else {
                checked.resolve_expr(v)
            },
            None => checked,
        }
    }

    #[verifier::opaque]
    pub open spec fn resolve_expr(self, expression: &'a Expr) -> Resolution<'a>
        decreases expression, 0nat,
    {
        match expression {
            Expr::Binary { left, operator, right } => self.resolve_expr(&**left).resolve_expr(
                &**right,
            ),
            Expr::Logical { left, operator, right } => self.resolve_expr(&**left).resolve_expr(
                &**right,
            ),
            Expr::Grouping { expr } => self.resolve_expr(&**expr),
            Expr::Literal { value } => self,
            Expr::Unary { operator, right } => self.resolve_expr(&**right),
            Expr::Variable { name } => self.resolve_variable(name),
            Expr::Assign { name, value } => self.resolve_expr(&**value).resolve_local(name),
            Expr::Call { callee, paren, arguments } => self.resolve_expr(&**callee).resolve_exprs(
                arguments,
                0,
            ),
            Expr::Get { object, name } => self.resolve_expr(&**object),
            Expr::SetProperty { object, name, value } => self.resolve_expr(&**value).resolve_expr(
                &**object,
            ),
            Expr::This { keyword } => self.resolve_this(keyword),
            Expr::Super { keyword, method } => self.resolve_super(keyword),
        }
    }

    #[verifier::opaque]
    pub open spec fn resolve_exprs(self, expressions: &'a Vec<Expr>, from: int) -> Resolution<'a>
        decreases expressions, expressions@.len() - from,
    {
        if from < 0 || from >= expressions@.len() {
            self
        } else {
            self.resolve_expr(&expressions@[from]).resolve_exprs(expressions, from + 1)
        }
    }

    /// Parameters are declared and ready at once, one after another.
    pub open spec fn resolve_params(self, params: &'a Vec<Token>, from: int) -> Resolution<'a>
        decreases params@.len() - from,
    {
        if from < 0 || from >= params@.len() {
            self
        } else {
            self.declare(&params@[from]).define(&params@[from]).resolve_params(params, from + 1)
        }
    }

    /// A function body: its own scope, with the parameters in it, resolved
    /// as a body of kind `kind`.
    #[verifier::opaque]
    pub open spec fn resolve_function(
        self,
        params: &'a Vec<Token>,
        body: &'a Vec<Stmt>,
        kind: FunctionType,
    ) -> Resolution<'a>
        decreases body, body@.len() + 1,
    {
        let inside = Resolution { current_function: kind, ..self }.begin_scope().resolve_params(
            params,
            0,
        ).resolve_stmts_from(body, 0).end_scope();
        Resolution { current_function: self.current_function, ..inside }
    }

    /// A method of a class body. Anything but a function declaration is
    /// passed over.
    #[verifier::opaque]
    pub open spec fn resolve_method(self, method: &'a Stmt) -> Resolution<'a>
        decreases method, 0nat,
    {
        match method {
            Stmt::Function { name, params, body } => self.resolve_function(
                params,
                body,
                if name.lexeme@ == "init"@ {
                    FunctionType::Initializer
                } else {
                    FunctionType::Method
                },
            ),
            _ => self,
        }
    }

    #[verifier::opaque]
    pub open spec fn resolve_methods(self, methods: &'a Vec<Stmt>, from: int) -> Resolution<'a>
        decreases methods, methods@.len() - from,
    {
        if from < 0 || from >= methods@.len() {
            self
        } else {
            self.resolve_method(&methods@[from]).resolve_methods(methods, from + 1)
        }
    }

    /// A class declaration. The class is declared and ready at once, so
    /// that its methods can name it. A superclass is resolved as a
    /// variable, and `super` then lies in a scope of its own around the
    /// scope of `this`, in which each method is resolved; both scopes are
    /// closed again, and the kind of class around is what it was.
    #[verifier::opaque]
    pub open spec fn resolve_class(self, statement: &'a Stmt) -> Resolution<'a>
        decreases statement, 0nat,
    {
        match statement {
            Stmt::Class { name, superclass, methods } => {
            let named = Resolution { current_class: ClassType::Class, ..self }.declare(
                name,
            ).define(name);
            let inside = match superclass {
                Some(parent) => {
                    let checked = match parent {
                        Expr::Variable { name: parent_name } => if parent_name.lexeme@
                            == name.lexeme@ {
                            named.error(parent_name, Message::InheritFromSelf)
                        } else {
                            named
                        },
                        _ => named,
                    };
                    Resolution {
                        current_class: ClassType::Subclass,
                        ..checked
                    }.resolve_expr(parent).begin_scope().enter("super"@, true)
                },
                None => named,
            };
            let done = inside.begin_scope().enter("this"@, true).resolve_methods(
                methods,
                0,
            ).end_scope();
            let closed = match superclass {
                Some(_) => done.end_scope(),
                None => done,
            };
            Resolution { current_class: self.current_class, ..closed }
            },
            _ => self,
        }
    }

    #[verifier::opaque]
    pub open spec fn resolve_stmt(self, statement: &'a Stmt) -> Resolution<'a>
        decreases statement, 1nat,
    {
        match statement {
            Stmt::Block { statements } => self.begin_scope().resolve_stmts_from(
                statements,
                0,
            ).end_scope(),
            Stmt::Expression { expr } => self.resolve_expr(expr),
            Stmt::Print { expr } => self.resolve_expr(expr),
            Stmt::Function { name, params, body } => self.declare(name).define(
                name,
            ).resolve_function(params, body, FunctionType::Function),
            Stmt::If { condition, then_branch, else_branch } => {
                let first = self.resolve_expr(condition).resolve_stmt(&**then_branch);
                match &**else_branch {
                    Some(other) => first.resolve_stmt(other),
                    None => first,
                }
            },
            Stmt::Return { keyword, value } => self.resolve_return(keyword, value),
            Stmt::Var { name, initializer } => match initializer {
                Some(init) => self.declare(name).resolve_expr(init).define(name),
                None => self.declare(name).define(name),
            },
            Stmt::While { condition, body } => self.resolve_expr(condition).resolve_stmt(&**body),
            Stmt::Class { name, superclass, methods } => self.resolve_class(statement),
            Stmt::Null => self,
        }
    }

    #[verifier::opaque]
    pub open spec fn resolve_stmts_from(self, statements: &'a Vec<Stmt>, from: int) -> Resolution<
        'a,
    >
        decreases statements, statements@.len() - from,
    {
        if from < 0 || from >= statements@.len() {
            self
        } else {
            self.resolve_stmt(&statements@[from]).resolve_stmts_from(statements, from + 1)
        }
    }

    pub open spec fn resolve_stmts(self, statements: &'a Vec<Stmt>) -> Resolution<'a> {
        self.resolve_stmts_from(statements, 0)
    }
}

impl<'a> Resolver<'a> {
    pub fn new() -> (r: Resolver<'a>)
        ensures
            r@ == Resolution::<'a>::start(),
    {
        let r = Resolver {
            scopes: Vec::new(),
            current_function: FunctionType::Outside,
            current_class: ClassType::Outside,
            had_error: false,
            diagnostics: Vec::new(),
            locals: Locals::new(),
        };
        assert(r@.scopes =~= Seq::empty());
        r
    }

    fn error(&mut self, token: &'a Token, message: Message)
        ensures
            final(self)@ == old(self)@.error(token, message),
    {
        self.diagnostics.push(Diagnostic { token, message });
        self.had_error = true;
    }

    fn begin_scope(&mut self)
        ensures
            final(self)@ == old(self)@.begin_scope(),
    {
        self.scopes.push(StringHashMap::new());
        assert(self@.scopes =~= old(self)@.begin_scope().scopes);
    }

    fn end_scope(&mut self)
        ensures
            final(self)@ == old(self)@.end_scope(),
    {
        self.scopes.pop();
        assert(self@.scopes =~= old(self)@.end_scope().scopes);
    }

    fn enter(&mut self, name: &str, ready: bool)
        ensures
            final(self)@ == old(self)@.enter(name@, ready),
    {
        let count: usize = self.scopes.len();
        if count > 0 {
            self.scopes[count - 1].insert(name.to_owned(), ready);
            assert(self@.scopes =~= old(self)@.enter(name@, ready).scopes);
        }
    }

    fn declare(&mut self, name: &'a Token)
        ensures
            final(self)@ == old(self)@.declare(name),
    {
        let count: usize = self.scopes.len();
        let already: bool = count > 0 && self.scopes[count - 1].contains_key(
            name.lexeme.as_str(),
        );
        self.enter(name.lexeme.as_str(), false);
        if already {
            self.error(name, Message::AlreadyDeclared);
        }
    }

    fn define(&mut self, name: &'a Token)
        ensures
            final(self)@ == old(self)@.define(name),
    {
        self.enter(name.lexeme.as_str(), true);
    }

    /// How many scopes out the nearest declaration of `name` lies.
    fn depth(&self, name: &str) -> (r: Option<usize>)
        ensures
            r == depth_of(self@.scopes, name@),
    {
        let count: usize = self.scopes.len();
        let mut i: usize = 0;
        while i < count
            invariant
                count == self.scopes.len(),
                depth_from(self@.scopes, name@, i as int) == depth_of(self@.scopes, name@),
            decreases count - i,
        {
            if self.scopes[count - 1 - i].contains_key(name) {
                return Some(i);
            }
            i = i + 1;
        }
        None
    }

    fn resolve_local(&mut self, name: &'a Token)
        ensures
            final(self)@ == old(self)@.resolve_local(name),
    {
        match self.depth(name.lexeme.as_str()) {
            Some(depth) => {
                self.locals.insert(name, depth);
            },
            None => {},
        }
    }

    /// Resolves a read of a variable.
    pub fn visit_variable_expr(&mut self, name: &'a Token)
        ensures
            final(self)@ == old(self)@.resolve_variable(name),
    {
        let count: usize = self.scopes.len();
        if count > 0 {
            match self.scopes[count - 1].get(name.lexeme.as_str()) {
                Some(ready) => {
                    if !*ready {
                        self.error(name, Message::ReadInOwnInitializer);
                    }
                },
                None => {},
            }
        }
        self.resolve_local(name);
    }

    /// Resolves a use of `this`.
    pub fn visit_this_expr(&mut self, keyword: &'a Token)
        ensures
            final(self)@ == old(self)@.resolve_this(keyword),
    {
        match self.current_class {
            ClassType::Outside => {
                self.error(keyword, Message::ThisOutsideClass);
            },
            _ => {
                self.resolve_local(keyword);
            },
        }
    }

    /// Resolves a use of `super`; the method it names plays no part.
    pub fn visit_super_expr(&mut self, keyword: &'a Token, method: &'a Token)
        ensures
            final(self)@ == old(self)@.resolve_super(keyword),
    {
        match self.current_class {
            ClassType::Outside => {
                self.error(keyword, Message::SuperOutsideClass);
            },
            ClassType::Class => {
                self.error(keyword, Message::SuperWithoutSuperclass);
            },
            ClassType::Subclass => {
                self.resolve_local(keyword);
            },
        }
    }

    /// Resolves a `return`. Outside every function it is a mistake, and
    /// so is a value inside an initializer; each sets `had_error` and is
    /// found at the keyword. The value, if there is one, is resolved in
    /// every case.
    pub fn visit_return_stmt(&mut self, keyword: &'a Token, value: &'a Option<Expr>)
        ensures
            final(self)@ == old(self)@.resolve_return(keyword, value),
    {
        if self.current_function == FunctionType::Outside {
            self.error(keyword, Message::ReturnOutsideFunction);
        }
        match value {
            Some(v) => {
                if self.current_function == FunctionType::Initializer {
                    self.error(keyword, Message::ReturnValueFromInitializer);
                }
                self.resolve_expr(v);
            },
            None => {},
        }
    }

    fn resolve_expr(&mut self, expression: &'a Expr)
        ensures
            final(self)@ == old(self)@.resolve_expr(expression),
        decreases expression, 0nat,
    {
        reveal(Resolution::resolve_expr);
        reveal(Resolution::resolve_exprs);
        match expression {
            Expr::Binary { left, operator, right } => {
                self.resolve_expr(&**left);
                self.resolve_expr(&**right);
            },
            Expr::Logical { left, operator, right } => {
                self.resolve_expr(&**left);
                self.resolve_expr(&**right);
            },
            Expr::Grouping { expr } => {
                self.resolve_expr(&**expr);
            },
            Expr::Literal { value } => {},
            Expr::Unary { operator, right } => {
                self.resolve_expr(&**right);
            },
            Expr::Variable { name } => {
                self.visit_variable_expr(name);
            },
            Expr::Assign { name, value } => {
                self.resolve_expr(&**value);
                self.resolve_local(name);
            },
            Expr::Call { callee, paren, arguments } => {
                self.resolve_expr(&**callee);
                self.resolve_exprs(arguments);
            },
            Expr::Get { object, name } => {
                self.resolve_expr(&**object);
            },
            Expr::SetProperty { object, name, value } => {
                self.resolve_expr(&**value);
                self.resolve_expr(&**object);
            },
            Expr::This { keyword } => {
                self.visit_this_expr(keyword);
            },
            Expr::Super { keyword, method } => {
                self.visit_super_expr(keyword, method);
            },
        }
    }

    fn resolve_exprs(&mut self, expressions: &'a Vec<Expr>)
        ensures
            final(self)@ == old(self)@.resolve_exprs(expressions, 0),
        decreases expressions, expressions@.len(),
    {
        reveal(Resolution::resolve_exprs);
        reveal(Resolution::resolve_expr);
        let mut i: usize = 0;
        while i < expressions.len()
            invariant
                i <= expressions.len(),
                self@.resolve_exprs(expressions, i as int) == old(self)@.resolve_exprs(
                    expressions,
                    0,
                ),
            decreases expressions.len() - i,
        {
            reveal(Resolution::resolve_exprs);
            reveal(Resolution::resolve_expr);
            self.resolve_expr(&expressions[i]);
            i = i + 1;
        }
    }

    fn resolve_params(&mut self, params: &'a Vec<Token>)
        ensures
            final(self)@ == old(self)@.resolve_params(params, 0),
    {
        let mut i: usize = 0;
        while i < params.len()
            invariant
                i <= params.len(),
                self@.resolve_params(params, i as int) == old(self)@.resolve_params(params, 0),
            decreases params.len() - i,
        {
            self.declare(&params[i]);
            self.define(&params[i]);
            i = i + 1;
        }
    }

    fn resolve_function(&mut self, params: &'a Vec<Token>, body: &'a Vec<Stmt>, kind: FunctionType)
        ensures
            final(self)@ == old(self)@.resolve_function(params, body, kind),
        decreases body, body@.len() + 1,
    {
        reveal(Resolution::resolve_function);
        reveal(Resolution::resolve_stmts_from);
        let enclosing: FunctionType = self.current_function;
        self.current_function = kind;
        self.begin_scope();
        self.resolve_params(params);
        self.resolve_stmts_from(body);
        self.end_scope();
        self.current_function = enclosing;
    }

    fn resolve_method(&mut self, method: &'a Stmt)
        ensures
            final(self)@ == old(self)@.resolve_method(method),
        decreases method, 0nat,
    {
        reveal(Resolution::resolve_method);
        reveal(Resolution::resolve_function);
        match method {
            Stmt::Function { name, params, body } => {
                let init: String = "init".to_owned();
                let kind: FunctionType = if name.lexeme == init {
                    FunctionType::Initializer
                } else {
                    FunctionType::Method
                };
                self.resolve_function(params, body, kind);
            },
            _ => {},
        }
    }

    fn resolve_methods(&mut self, methods: &'a Vec<Stmt>)
        ensures
            final(self)@ == old(self)@.resolve_methods(methods, 0),
        decreases methods, methods@.len(),
    {
        reveal(Resolution::resolve_methods);
        reveal(Resolution::resolve_method);
        let mut i: usize = 0;
        while i < methods.len()
            invariant
                i <= methods.len(),
                self@.resolve_methods(methods, i as int) == old(self)@.resolve_methods(methods, 0),
            decreases methods.len() - i,
        {
            reveal(Resolution::resolve_methods);
            reveal(Resolution::resolve_method);
            self.resolve_method(&methods[i]);
            i = i + 1;
        }
    }

    /// A class declaration; any other statement is passed over.
    pub fn visit_class_stmt(&mut self, statement: &'a Stmt)
        ensures
            final(self)@ == old(self)@.resolve_class(statement),
        decreases statement, 0nat,
    {
        reveal(Resolution::resolve_class);
        reveal(Resolution::resolve_methods);
        match statement {
            Stmt::Class { name, superclass, methods } => {
            let enclosing: ClassType = self.current_class;
            self.current_class = ClassType::Class;
            self.declare(name);
            self.define(name);
            match superclass {
                Some(parent) => {
                    match parent {
                        Expr::Variable { name: parent_name } => {
                            if parent_name.lexeme == name.lexeme {
                                self.error(parent_name, Message::InheritFromSelf);
                            }
                        },
                        _ => {},
                    }
                    self.current_class = ClassType::Subclass;
                    self.resolve_expr(parent);
                    self.begin_scope();
                    self.enter("super", true);
                },
                None => {},
            }
            self.begin_scope();
            self.enter("this", true);
            self.resolve_methods(methods);
            self.end_scope();
            match superclass {
                Some(_) => {
                    self.end_scope();
                },
                None => {},
            }
            self.current_class = enclosing;
            },
            _ => {},
        }
    }

    fn resolve_stmt(&mut self, statement: &'a Stmt)
        ensures
            final(self)@ == old(self)@.resolve_stmt(statement),
        decreases statement, 1nat,
    {
        reveal(Resolution::resolve_stmt);
        reveal(Resolution::resolve_stmts_from);
        reveal(Resolution::resolve_function);
        reveal(Resolution::resolve_class);
        match statement {
            Stmt::Block { statements } => {
                self.begin_scope();
                self.resolve_stmts_from(statements);
                self.end_scope();
            },
            Stmt::Expression { expr } => {
                self.resolve_expr(expr);
            },
            Stmt::Print { expr } => {
                self.resolve_expr(expr);
            },
            Stmt::Function { name, params, body } => {
                self.declare(name);
                self.define(name);
                self.resolve_function(params, body, FunctionType::Function);
            },
            Stmt::If { condition, then_branch, else_branch } => {
                self.resolve_expr(condition);
                self.resolve_stmt(&**then_branch);
                match &**else_branch {
                    Some(other) => {
                        self.resolve_stmt(other);
                    },
                    None => {},
                }
            },
            Stmt::Return { keyword, value } => {
                self.visit_return_stmt(keyword, value);
            },
            Stmt::Var { name, initializer } => {
                self.declare(name);
                match initializer {
                    Some(init) => {
                        self.resolve_expr(init);
                    },
                    None => {},
                }
                self.define(name);
            },
            Stmt::While { condition, body } => {
                self.resolve_expr(condition);
                self.resolve_stmt(&**body);
            },
            Stmt::Class { name, superclass, methods } => {
                self.visit_class_stmt(statement);
            },
            Stmt::Null => {},
        }
    }

    fn resolve_stmts_from(&mut self, statements: &'a Vec<Stmt>)
        ensures
            final(self)@ == old(self)@.resolve_stmts_from(statements, 0),
        decreases statements, statements@.len(),
    {
        reveal(Resolution::resolve_stmts_from);
        reveal(Resolution::resolve_stmt);
        let mut i: usize = 0;
        while i < statements.len()
            invariant
                i <= statements.len(),
                self@.resolve_stmts_from(statements, i as int) == old(self)@.resolve_stmts_from(
                    statements,
                    0,
                ),
            decreases statements.len() - i,
        {
            reveal(Resolution::resolve_stmts_from);
            reveal(Resolution::resolve_stmt);
            self.resolve_stmt(&statements[i]);
            i = i + 1;
        }
    }

    /// Resolves a program for `interpreter`: the distances found are
    /// added to those the interpreter has, and what is wrong is added to
    /// `diagnostics`, with `had_error` set. The resolver goes on after a
    /// mistake, and ends in the scopes and kinds it started in whenever
    /// the statements close what they open.
    pub fn resolve_stmts(&mut self, interpreter: &mut Interpreter<'a>, statements: &'a Vec<Stmt>)
        ensures
            final(self)@ == old(self)@.with_locals(old(interpreter)@.locals).resolve_stmts(
                statements,
            ).with_locals(old(self)@.locals),
            final(interpreter)@ == (crate::interpreter::InterpreterView {
                locals: old(self)@.with_locals(old(interpreter)@.locals).resolve_stmts(
                    statements,
                ).locals,
                ..old(interpreter)@
            }),
    {
        core::mem::swap(&mut self.locals, &mut interpreter.locals);
        self.resolve_stmts_from(statements);
        core::mem::swap(&mut self.locals, &mut interpreter.locals);
    }
}

} // verus!
