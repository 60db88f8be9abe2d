//! One frame of variables. Frames live in the heap and point at the frame
//! that encloses them, so a closure keeps its frame by keeping its slot.

use vstd::prelude::*;
use vstd::hash_map::StringHashMap;
use crate::error::Error;
use crate::error::Message;
use crate::heap::Heap;
use crate::token::Object;
use crate::token::Token;

verus! {

pub struct Environment {
    /// The heap slot of the enclosing frame, which is older than this one.
    pub enclosing: Option<usize>,
    pub values: StringHashMap<Object>,
}

pub struct EnvironmentView {
    pub enclosing: Option<usize>,
    pub values: Map<Seq<char>, Object>,
}

impl View for Environment {
    type V = EnvironmentView;

    open spec fn view(&self) -> EnvironmentView {
        EnvironmentView { enclosing: self.enclosing, values: self.values@ }
    }
}

impl Default for Environment {
    /// A frame with nothing around it.
    fn default() -> (r: Environment)
        ensures
            r@ == (EnvironmentView { enclosing: None, values: Map::empty() }),
    {
        Environment::new()
    }
}

impl Environment {
    /// A frame with nothing around it.
    pub fn new() -> (r: Environment)
        ensures
            r@ == (EnvironmentView { enclosing: None, values: Map::empty() }),
    {
        Environment { enclosing: None, values: StringHashMap::new() }
    }

    /// An empty frame inside the frame in slot `enclosing`.
    pub fn from(enclosing: usize) -> (r: Environment)
        ensures
            r@ == (EnvironmentView { enclosing: Some(enclosing), values: Map::empty() }),
    {
        Environment { enclosing: Some(enclosing), values: StringHashMap::new() }
    }

    /// Binds `name` in this frame, over any binding it had here.
    pub fn define(&mut self, name: &str, value: Object)
        ensures
            final(self)@ == (EnvironmentView {
                enclosing: old(self).enclosing,
                values: old(self)@.values.insert(name@, value),
            }),
    {
        self.values.insert(name.to_owned(), value);
    }

    /// The slot of the frame `distance` links out from `env`, if the chain
    /// is that long.
    pub fn ancestor(heap: &Heap, env: usize, distance: usize) -> (r: Option<usize>)
        ensures
            r == heap@.ancestor(env, distance as nat),
            r matches Some(a) ==> a < heap.environments.len(),
    {
        proof {
            heap@.lemma_ancestor_exists(env, distance as nat);
        }
        let mut current: usize = env;
        let mut left: usize = distance;
        loop
            invariant
                heap@.ancestor(current, left as nat) == heap@.ancestor(env, distance as nat),
            decreases left,
        {
            if current >= heap.environments.len() {
                return None;
            }
            if left == 0 {
                return Some(current);
            }
            match heap.environments[current].enclosing {
                Some(parent) => {
                    current = parent;
                    left = left - 1;
                },
                None => {
                    return None;
                },
            }
        }
    }

    /// The slot of the nearest frame, from `env` outwards, that binds
    /// `name`.
    pub fn holder(heap: &Heap, env: usize, name: &str) -> (r: Option<usize>)
        ensures
            r == heap@.holder(env, name@),
            r matches Some(h) ==> h < heap.environments.len()
                && heap.environments[h as int].values@.contains_key(name@),
    {
        proof {
            heap@.lemma_holder_binds(env, name@);
        }
        let mut current: usize = env;
        loop
            invariant
                heap@.holder(current, name@) == heap@.holder(env, name@),
            decreases current,
        {
            if current >= heap.environments.len() {
                return None;
            }
            if heap.environments[current].values.contains_key(name) {
                return Some(current);
            }
            match heap.environments[current].enclosing {
                Some(parent) => {
                    if parent < current {
                        current = parent;
                    } else {
                        return None;
                    }
                },
                None => {
                    return None;
                },
            }
        }
    }

    /// Reads a variable by name, from `env` outwards through the frames
    /// that enclose it. A name bound nowhere on the way is an
    /// undefined-variable error at `name`.
    pub fn get(heap: &Heap, env: usize, name: &Token) -> (r: Result<Object, Error>)
        ensures
            r == match heap@.lookup(env, name.lexeme@) {
                Some(value) => Ok::<Object, Error>(value),
                None => Err(Error::Runtime { token: *name, message: Message::UndefinedVariable }),
            },
    {
        match Environment::holder(heap, env, name.lexeme.as_str()) {
            Some(h) => {
                match heap.environments[h].values.get(name.lexeme.as_str()) {
                    Some(value) => Ok(*value),
                    None => Err(
                        Error::Runtime { token: name.clone(), message: Message::UndefinedVariable },
                    ),
                }
            },
            None => Err(
                Error::Runtime { token: name.clone(), message: Message::UndefinedVariable },
            ),
        }
    }

    /// Assigns to the nearest binding of a variable, from `env` outwards.
    /// Nothing is created: a name bound nowhere on the way is an
    /// undefined-variable error at `name`, and the heap stays as it was.
    pub fn assign(heap: &mut Heap, env: usize, name: &Token, value: Object) -> (r: Result<
        (),
        Error,
    >)
        ensures
            match old(heap)@.assign(env, name.lexeme@, value) {
                Some(after) => r == Ok::<(), Error>(()) && final(heap)@ == after,
                None => r == Err::<(), Error>(
                    Error::Runtime { token: *name, message: Message::UndefinedVariable },
                ) && final(heap)@ == old(heap)@,
            },
    {
        match Environment::holder(heap, env, name.lexeme.as_str()) {
            Some(h) => {
                heap.define(h, name.lexeme.as_str(), value);
                Ok(())
            },
            None => Err(
                Error::Runtime { token: name.clone(), message: Message::UndefinedVariable },
            ),
        }
    }

    /// Reads `name` from exactly the frame `distance` links out from
    /// `env`; no other frame is asked. A chain that is too short, or a
    /// frame without the name, is an undefined-variable error at `name`.
    pub fn get_at(heap: &Heap, env: usize, distance: usize, name: &Token) -> (r: Result<
        Object,
        Error,
    >)
        ensures
            r == match heap@.get_at(env, distance as nat, name.lexeme@) {
                Some(value) => Ok::<Object, Error>(value),
                None => Err(Error::Runtime { token: *name, message: Message::UndefinedVariable }),
            },
    {
        match Environment::ancestor(heap, env, distance) {
            Some(a) => {
                match heap.environments[a].values.get(name.lexeme.as_str()) {
                    Some(value) => Ok(*value),
                    None => Err(
                        Error::Runtime { token: name.clone(), message: Message::UndefinedVariable },
                    ),
                }
            },
            None => Err(
                Error::Runtime { token: name.clone(), message: Message::UndefinedVariable },
            ),
        }
    }

    /// Binds `name` in exactly the frame `distance` links out from `env`.
    /// A chain that is too short is an undefined-variable error at `name`,
    /// and the heap stays as it was.
    pub fn assign_at(heap: &mut Heap, env: usize, distance: usize, name: &Token, value: Object) -> (r:
        Result<(), Error>)
        ensures
            match old(heap)@.assign_at(env, distance as nat, name.lexeme@, value) {
                Some(after) => r == Ok::<(), Error>(()) && final(heap)@ == after,
                None => r == Err::<(), Error>(
                    Error::Runtime { token: *name, message: Message::UndefinedVariable },
                ) && final(heap)@ == old(heap)@,
            },
    {
        match Environment::ancestor(heap, env, distance) {
            Some(a) => {
                heap.define(a, name.lexeme.as_str(), value);
                Ok(())
            },
            None => Err(
                Error::Runtime { token: name.clone(), message: Message::UndefinedVariable },
            ),
        }
    }
}

} // verus!
