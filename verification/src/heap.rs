//! Where everything a program shares lives: variable frames, text,
//! functions, classes and instances. A slot, once given, is never reused,
//! so a value that names a slot names the same thing for as long as the
//! heap lasts.

use vstd::prelude::*;
use vstd::hash_map::StringHashMap;
use crate::class::Class;
use crate::class::ClassView;
use crate::class::Instance;
use crate::class::InstanceView;
use crate::environment::Environment;
use crate::environment::EnvironmentView;
use crate::function::Function;
use crate::text::joined;
use crate::token::Object;

verus! {

pub struct Heap<'a> {
    pub environments: Vec<Environment>,
    pub strings: Vec<String>,
    pub functions: Vec<Function<'a>>,
    pub classes: Vec<Class>,
    pub instances: Vec<Instance>,
}

pub struct HeapView<'a> {
    pub environments: Seq<EnvironmentView>,
    pub strings: Seq<Seq<char>>,
    pub functions: Seq<Function<'a>>,
    pub classes: Seq<ClassView>,
    pub instances: Seq<InstanceView>,
}

impl<'a> View for Heap<'a> {
    type V = HeapView<'a>;

    open spec fn view(&self) -> HeapView<'a> {
        HeapView {
            environments: self.environments@.map_values(|e: Environment| e@),
            strings: self.strings@.map_values(|s: String| s@),
            functions: self.functions@,
            classes: self.classes@.map_values(|c: Class| c@),
            instances: self.instances@.map_values(|i: Instance| i@),
        }
    }
}

/// A value as it is printed. A number is left as it is: writing a double
/// in decimal is floating-point work.
pub enum Rendered {
    Text(String),
    Number(u64),
}

pub enum RenderedView {
    Text(Seq<char>),
    Number(u64),
}

impl View for Rendered {
    type V = RenderedView;

    open spec fn view(&self) -> RenderedView {
        match self {
            Rendered::Text(s) => RenderedView::Text(s@),
            Rendered::Number(n) => RenderedView::Number(*n),
        }
    }
}

impl<'a> HeapView<'a> {
    /// How a value prints: text as it is, `true`, `false` and `nil` as
    /// these words, a function of the script as `<fn NAME>` and a native
    /// one as `<native function>`, a class as its name, an instance as
    /// `NAME instance`. A value that names no slot prints as nothing.
    pub open spec fn render(self, value: Object) -> RenderedView {
        match value {
            Object::Number(n) => RenderedView::Number(n),
            Object::String(s) => RenderedView::Text(
                if s < self.strings.len() {
                    self.strings[s as int]
                } else {
                    Seq::empty()
                },
            ),
            Object::Bool(b) => RenderedView::Text(
                if b {
                    "true"@
                } else {
                    "false"@
                },
            ),
            Object::Nil => RenderedView::Text("nil"@),
            Object::Callable(f) => RenderedView::Text(
                if f < self.functions.len() {
                    match self.functions[f as int] {
                        Function::Native { .. } => "<native function>"@,
                        Function::User { name, .. } => "<fn "@ + name.lexeme@ + ">"@,
                    }
                } else {
                    Seq::empty()
                },
            ),
            Object::Class(c) => RenderedView::Text(
                if c < self.classes.len() {
                    self.classes[c as int].name
                } else {
                    Seq::empty()
                },
            ),
            Object::Instance(i) => RenderedView::Text(
                if i < self.instances.len() && self.instances[i as int].class < self.classes.len() {
                    self.classes[self.instances[i as int].class as int].name + " instance"@
                } else {
                    Seq::empty()
                },
            ),
        }
    }

    pub open spec fn empty() -> HeapView<'a> {
        HeapView {
            environments: Seq::empty(),
            strings: Seq::empty(),
            functions: Seq::empty(),
            classes: Seq::empty(),
            instances: Seq::empty(),
        }
    }

    /// The frame `distance` links out from `env`, if the chain is that
    /// long.
    pub open spec fn ancestor(self, env: usize, distance: nat) -> Option<usize>
        decreases distance,
    {
        if env >= self.environments.len() {
            None
        } else if distance == 0 {
            Some(env)
        } else {
            match self.environments[env as int].enclosing {
                Some(parent) => self.ancestor(parent, (distance - 1) as nat),
                None => None,
            }
        }
    }

    /// The nearest frame, from `env` outwards, that binds `name`. A link
    /// is followed only to an older frame.
    pub open spec fn holder(self, env: usize, name: Seq<char>) -> Option<usize>
        decreases env,
    {
        if env >= self.environments.len() {
            None
        } else if self.environments[env as int].values.contains_key(name) {
            Some(env)
        } else {
            match self.environments[env as int].enclosing {
                Some(parent) => if parent < env {
                    self.holder(parent, name)
                } else {
                    None
                },
                None => None,
            }
        }
    }

    /// A holder is a frame of the heap that binds the name, and is `env`
    /// or older.
    pub proof fn lemma_holder_binds(self, env: usize, name: Seq<char>)
        ensures
            match self.holder(env, name) {
                Some(h) => h <= env && h < self.environments.len()
                    && self.environments[h as int].values.contains_key(name),
                None => true,
            },
        decreases env,
    {
        if env < self.environments.len() && !self.environments[env as int].values.contains_key(
            name,
        ) {
            match self.environments[env as int].enclosing {
                Some(parent) => {
                    if parent < env {
                        self.lemma_holder_binds(parent, name);
                    }
                },
                None => {},
            }
        }
    }

    /// An ancestor is a frame of the heap.
    pub proof fn lemma_ancestor_exists(self, env: usize, distance: nat)
        ensures
            match self.ancestor(env, distance) {
                Some(a) => a < self.environments.len(),
                None => true,
            },
        decreases distance,
    {
        if env < self.environments.len() && distance > 0 {
            match self.environments[env as int].enclosing {
                Some(parent) => {
                    self.lemma_ancestor_exists(parent, (distance - 1) as nat);
                },
                None => {},
            }
        }
    }

    /// What `name` means in `env`: its nearest binding.
    pub open spec fn lookup(self, env: usize, name: Seq<char>) -> Option<Object> {
        match self.holder(env, name) {
            Some(h) => Some(self.environments[h as int].values[name]),
            None => None,
        }
    }

    /// The heap with `name` bound to `value` in frame `env` itself.
    pub open spec fn define(self, env: usize, name: Seq<char>, value: Object) -> HeapView<'a> {
        if env < self.environments.len() {
            HeapView {
                environments: self.environments.update(
                    env as int,
                    EnvironmentView {
                        enclosing: self.environments[env as int].enclosing,
                        values: self.environments[env as int].values.insert(name, value),
                    },
                ),
                ..self
            }
        } else {
            self
        }
    }

    /// The heap after assigning to the nearest binding of `name`, if there
    /// is one.
    pub open spec fn assign(self, env: usize, name: Seq<char>, value: Object) -> Option<
        HeapView<'a>,
    > {
        match self.holder(env, name) {
            Some(h) => Some(self.define(h, name, value)),
            None => None,
        }
    }

    /// What `name` is bound to in exactly the frame `distance` links out.
    pub open spec fn get_at(self, env: usize, distance: nat, name: Seq<char>) -> Option<Object> {
        match self.ancestor(env, distance) {
            Some(a) => if self.environments[a as int].values.contains_key(name) {
                Some(self.environments[a as int].values[name])
            } else {
                None
            },
            None => None,
        }
    }

    /// The heap after binding `name` in exactly the frame `distance` links
    /// out, if the chain is that long.
    pub open spec fn assign_at(
        self,
        env: usize,
        distance: nat,
        name: Seq<char>,
        value: Object,
    ) -> Option<HeapView<'a>> {
        match self.ancestor(env, distance) {
            Some(a) => Some(self.define(a, name, value)),
            None => None,
        }
    }

    /// The heap with one more, empty, frame; its slot is the old frame
    /// count.
    pub open spec fn with_environment(self, enclosing: Option<usize>) -> HeapView<'a> {
        HeapView {
            environments: self.environments.push(
                EnvironmentView { enclosing, values: Map::empty() },
            ),
            ..self
        }
    }

    pub open spec fn with_string(self, text: Seq<char>) -> HeapView<'a> {
        HeapView { strings: self.strings.push(text), ..self }
    }

    pub open spec fn with_function(self, function: Function<'a>) -> HeapView<'a> {
        HeapView { functions: self.functions.push(function), ..self }
    }

    pub open spec fn with_class(self, class: ClassView) -> HeapView<'a> {
        HeapView { classes: self.classes.push(class), ..self }
    }

    pub open spec fn with_instance(self, class: usize) -> HeapView<'a> {
        HeapView {
            instances: self.instances.push(InstanceView { class, fields: Map::empty() }),
            ..self
        }
    }

    /// The heap with field `name` of instance `instance` set.
    pub open spec fn set_field(self, instance: usize, name: Seq<char>, value: Object) -> HeapView<
        'a,
    > {
        if instance < self.instances.len() {
            HeapView {
                instances: self.instances.update(
                    instance as int,
                    InstanceView {
                        class: self.instances[instance as int].class,
                        fields: self.instances[instance as int].fields.insert(name, value),
                    },
                ),
                ..self
            }
        } else {
            self
        }
    }

    /// The method `name` as an instance of `class` sees it: the class's
    /// own if it has one, else what its superclass sees. A link is
    /// followed only to an older class.
    pub open spec fn find_method(self, class: usize, name: Seq<char>) -> Option<usize>
        decreases class,
    {
        if class >= self.classes.len() {
            None
        } else if self.classes[class as int].methods.contains_key(name) {
            Some(self.classes[class as int].methods[name])
        } else {
            match self.classes[class as int].superclass {
                Some(parent) => if parent < class {
                    self.find_method(parent, name)
                } else {
                    None
                },
                None => None,
            }
        }
    }

    /// A method bound to `instance`: the same function over a fresh frame
    /// that holds `this` and encloses the method's own closure. Returns
    /// the heap with that frame and the bound function. A native function
    /// has no closure to extend and stays as it is.
    pub open spec fn bind(self, function: Function<'a>, instance: Object) -> (
        HeapView<'a>,
        Function<'a>,
    ) {
        match function {
            Function::Native { .. } => (self, function),
            Function::User { name, params, body, closure, is_initializer } => {
                let frame = self.environments.len() as usize;
                (
                    self.with_environment(Some(closure)).define(frame, "this"@, instance),
                    Function::User { name, params, body, closure: frame, is_initializer },
                )
            },
        }
    }

    /// Reading property `name` of `instance`: a field if there is one,
    /// else the class's method bound to the instance and stored as a new
    /// function. `None` when the instance has neither.
    pub open spec fn get_property(self, instance: usize, name: Seq<char>) -> (
        HeapView<'a>,
        Option<Object>,
    ) {
        if instance >= self.instances.len() {
            (self, None)
        } else if self.instances[instance as int].fields.contains_key(name) {
            (self, Some(self.instances[instance as int].fields[name]))
        } else {
            self.bound_method(self.instances[instance as int].class, name, Object::Instance(instance))
        }
    }

    /// The method `name` that `class` sees, bound to `receiver` and stored
    /// as a new function.
    pub open spec fn bound_method(self, class: usize, name: Seq<char>, receiver: Object) -> (
        HeapView<'a>,
        Option<Object>,
    ) {
        match self.find_method(class, name) {
            Some(m) => if m < self.functions.len() {
                let (bound_heap, bound) = self.bind(self.functions[m as int], receiver);
                (
                    bound_heap.with_function(bound),
                    Some(Object::Callable(self.functions.len() as usize)),
                )
            } else {
                (self, None)
            },
            None => (self, None),
        }
    }
}

impl<'a> Heap<'a> {
    pub fn new() -> (r: Heap<'a>)
        ensures
            r@ == HeapView::<'a>::empty(),
    {
        let r = Heap {
            environments: Vec::new(),
            strings: Vec::new(),
            functions: Vec::new(),
            classes: Vec::new(),
            instances: Vec::new(),
        };
        assert(r@.environments =~= Seq::empty());
        assert(r@.strings =~= Seq::empty());
        assert(r@.classes =~= Seq::empty());
        assert(r@.instances =~= Seq::empty());
        r
    }

    /// Adds an empty frame and returns its slot.
    pub fn new_environment(&mut self, enclosing: Option<usize>) -> (r: usize)
        ensures
            final(self)@ == old(self)@.with_environment(enclosing),
            r == old(self).environments.len(),
    {
        let slot: usize = self.environments.len();
        self.environments.push(Environment { enclosing, values: StringHashMap::new() });
        assert(self@.environments =~= old(self)@.with_environment(enclosing).environments);
        slot
    }

    /// Stores a text and returns its slot.
    pub fn new_string(&mut self, text: String) -> (r: usize)
        ensures
            final(self)@ == old(self)@.with_string(text@),
            r == old(self).strings.len(),
    {
        let slot: usize = self.strings.len();
        self.strings.push(text);
        assert(self@.strings =~= old(self)@.with_string(text@).strings);
        slot
    }

    /// Stores a function and returns its slot.
    pub fn new_function(&mut self, function: Function<'a>) -> (r: usize)
        ensures
            final(self)@ == old(self)@.with_function(function),
            r == old(self).functions.len(),
    {
        let slot: usize = self.functions.len();
        self.functions.push(function);
        slot
    }

    /// Stores a class and returns its slot.
    pub fn new_class(&mut self, class: Class) -> (r: usize)
        ensures
            final(self)@ == old(self)@.with_class(class@),
            r == old(self).classes.len(),
    {
        let slot: usize = self.classes.len();
        self.classes.push(class);
        assert(self@.classes =~= old(self)@.with_class(class@).classes);
        slot
    }

    /// Makes an instance of the class in slot `class` and returns its slot.
    pub fn new_instance(&mut self, class: usize) -> (r: usize)
        ensures
            final(self)@ == old(self)@.with_instance(class),
            r == old(self).instances.len(),
    {
        let slot: usize = self.instances.len();
        self.instances.push(Instance::new(class));
        assert(self@.instances =~= old(self)@.with_instance(class).instances);
        slot
    }

    /// The value as it is printed.
    pub fn render(&self, value: Object) -> (r: Rendered)
        ensures
            r@ == self@.render(value),
    {
        match value {
            Object::Number(n) => Rendered::Number(n),
            Object::String(s) => {
                if s < self.strings.len() {
                    Rendered::Text(self.strings[s].clone())
                } else {
                    Rendered::Text(String::new())
                }
            },
            Object::Bool(b) => {
                if b {
                    Rendered::Text("true".to_owned())
                } else {
                    Rendered::Text("false".to_owned())
                }
            },
            Object::Nil => Rendered::Text("nil".to_owned()),
            Object::Callable(f) => {
                if f < self.functions.len() {
                    match self.functions[f] {
                        Function::Native { .. } => Rendered::Text("<native function>".to_owned()),
                        Function::User { name, .. } => Rendered::Text(
                            joined(joined("<fn ".to_owned(), name.lexeme.as_str()), ">"),
                        ),
                    }
                } else {
                    Rendered::Text(String::new())
                }
            },
            Object::Class(c) => {
                if c < self.classes.len() {
                    Rendered::Text(self.classes[c].name.clone())
                } else {
                    Rendered::Text(String::new())
                }
            },
            Object::Instance(i) => {
                if i < self.instances.len() && self.instances[i].class < self.classes.len() {
                    Rendered::Text(
                        joined(self.classes[self.instances[i].class].name.clone(), " instance"),
                    )
                } else {
                    Rendered::Text(String::new())
                }
            },
        }
    }

    /// What `name` is bound to in exactly the frame `distance` links out
    /// from `env`.
    pub fn value_at(&self, env: usize, distance: usize, name: &str) -> (r: Option<Object>)
        ensures
            r == self@.get_at(env, distance as nat, name@),
    {
        match Environment::ancestor(self, env, distance) {
            Some(a) => {
                match self.environments[a].values.get(name) {
                    Some(value) => Some(*value),
                    None => None,
                }
            },
            None => None,
        }
    }

    /// Binds `name` in frame `env`; a frame that does not exist is left
    /// alone.
    pub fn define(&mut self, env: usize, name: &str, value: Object)
        ensures
            final(self)@ == old(self)@.define(env, name@, value),
    {
        if env < self.environments.len() {
            self.environments[env].define(name, value);
            assert(self@.environments =~= old(self)@.define(env, name@, value).environments);
        }
    }

    /// Sets a field of an instance; an instance that does not exist is
    /// left alone.
    pub fn set_field(&mut self, instance: usize, name: &str, value: Object)
        ensures
            final(self)@ == old(self)@.set_field(instance, name@, value),
    {
        if instance < self.instances.len() {
            self.instances[instance].set(name, value);
            assert(self@.instances =~= old(self)@.set_field(instance, name@, value).instances);
        }
    }
}

} // verus!
