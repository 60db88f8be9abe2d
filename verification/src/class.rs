//! Classes and their instances.

use vstd::prelude::*;
use vstd::hash_map::StringHashMap;
use crate::error::Error;
use crate::error::Message;
use crate::function::Function;
use crate::heap::Heap;
use crate::token::Object;
use crate::token::Token;

verus! {

pub struct Class {
    pub name: String,
    /// The heap slot of the superclass, which is older than this class.
    pub superclass: Option<usize>,
    /// Method name to the heap slot of its function.
    pub methods: StringHashMap<usize>,
}

pub struct ClassView {
    pub name: Seq<char>,
    pub superclass: Option<usize>,
    pub methods: Map<Seq<char>, usize>,
}

impl Class {
    /// Looks a method up on the class in slot `class`, then on its
    /// superclass, and so on upward. Returns the slot of the function.
    pub fn find_method(heap: &Heap, class: usize, name: &str) -> (r: Option<usize>)
        ensures
            r == heap@.find_method(class, name@),
    {
        let mut current: usize = class;
        loop
            invariant
                heap@.find_method(current, name@) == heap@.find_method(class, name@),
            decreases current,
        {
            if current >= heap.classes.len() {
                return None;
            }
            match heap.classes[current].methods.get(name) {
                Some(m) => {
                    return Some(*m);
                },
                None => {},
            }
            match heap.classes[current].superclass {
                Some(parent) => {
                    if parent < current {
                        current = parent;
                    } else {
                        return None;
                    }
                },
                None => {
                    return None;
                },
            }
        }
    }

    /// The method `name` that `class` sees, bound to `receiver` and stored
    /// in the heap as a function of its own.
    pub fn bound_method<'a>(heap: &mut Heap<'a>, class: usize, name: &str, receiver: Object) -> (r:
        Option<Object>)
        ensures
            (final(heap)@, r) == old(heap)@.bound_method(class, name@, receiver),
    {
        match Class::find_method(heap, class, name) {
            Some(m) => {
                if m < heap.functions.len() {
                    let method: Function<'a> = heap.functions[m];
                    let bound: Function<'a> = method.bind(heap, receiver);
                    let slot: usize = heap.new_function(bound);
                    Some(Object::Callable(slot))
                } else {
                    None
                }
            },
            None => None,
        }
    }
}

impl View for Class {
    type V = ClassView;

    open spec fn view(&self) -> ClassView {
        ClassView { name: self.name@, superclass: self.superclass, methods: self.methods@ }
    }
}

pub struct Instance {
    /// The heap slot of the instance's class.
    pub class: usize,
    pub fields: StringHashMap<Object>,
}

pub struct InstanceView {
    pub class: usize,
    pub fields: Map<Seq<char>, Object>,
}

impl View for Instance {
    type V = InstanceView;

    open spec fn view(&self) -> InstanceView {
        InstanceView { class: self.class, fields: self.fields@ }
    }
}

impl Instance {
    /// A fresh instance of the class in slot `class`, with no fields.
    pub fn new(class: usize) -> (r: Instance)
        ensures
            r@ == (InstanceView { class, fields: Map::empty() }),
    {
        Instance { class, fields: StringHashMap::new() }
    }

    /// Writes a field, creating it if need be.
    pub fn set(&mut self, name: &str, value: Object)
        ensures
            final(self)@ == (InstanceView {
                class: old(self).class,
                fields: old(self)@.fields.insert(name@, value),
            }),
    {
        self.fields.insert(name.to_owned(), value);
    }

    /// Reads a property of the instance in slot `instance`. A field
    /// shadows a method of the same name; a method comes back bound to the
    /// instance. A name that is neither is an undefined-property error at
    /// `name`, and the heap stays as it was.
    pub fn get<'a>(heap: &mut Heap<'a>, instance: usize, name: &Token) -> (r: Result<Object, Error>)
        ensures
            final(heap)@ == old(heap)@.get_property(instance, name.lexeme@).0,
            r == match old(heap)@.get_property(instance, name.lexeme@).1 {
                Some(value) => Ok::<Object, Error>(value),
                None => Err(Error::Runtime { token: *name, message: Message::UndefinedProperty }),
            },
    {
        if instance >= heap.instances.len() {
            return Err(Error::Runtime { token: name.clone(), message: Message::UndefinedProperty });
        }
        match heap.instances[instance].fields.get(name.lexeme.as_str()) {
            Some(value) => {
                return Ok(*value);
            },
            None => {},
        }
        let class: usize = heap.instances[instance].class;
        match Class::bound_method(heap, class, name.lexeme.as_str(), Object::Instance(instance)) {
            Some(value) => Ok(value),
            None => Err(Error::Runtime { token: name.clone(), message: Message::UndefinedProperty }),
        }
    }
}

} // verus!
