//! Callable values.

use vstd::prelude::*;
use crate::heap::Heap;
use crate::interpreter::Action;
use crate::interpreter::Interpreter;
use crate::stmt::Stmt;
use crate::token::Object;
use crate::token::Token;

verus! {

#[derive(Clone, Copy)]
pub enum Function<'a> {
    /// Provided by the embedding program, which knows it by `id`.
    Native { arity: usize, id: usize },
    /// Declared in the script. `closure` is the environment that was
    /// current when the declaration ran.
    User {
        name: &'a Token,
        params: &'a Vec<Token>,
        body: &'a Vec<Stmt>,
        closure: usize,
        is_initializer: bool,
    },
}

impl<'a> Function<'a> {
    pub open spec fn spec_arity(self) -> usize {
        match self {
            Function::Native { arity, .. } => arity,
            Function::User { params, .. } => params@.len() as usize,
        }
    }

    /// The number of arguments a call must pass.
    pub fn arity(&self) -> (r: usize)
        ensures
            r == self.spec_arity(),
    {
        match self {
            Function::Native { arity, .. } => *arity,
            Function::User { params, .. } => params.len(),
        }
    }

    /// Enters the function on `interpreter`, whose last `argument_count`
    /// operands are the arguments. A native function is asked of the
    /// embedding program. A function of the script gets a fresh frame
    /// inside its closure with its parameters bound in it, and its body
    /// is what the machine runs next; what the call is worth is settled
    /// when the body is over.
    pub fn call(&self, interpreter: &mut Interpreter<'a>, argument_count: usize) -> (r: Action<'a>)
        ensures
            (final(interpreter)@, r) == old(interpreter)@.call(*self, argument_count),
    {
        interpreter.call(*self, argument_count)
    }

    /// The same function with `this` fixed: its closure becomes a fresh
    /// frame that binds `this` to `instance` and encloses the old closure.
    pub fn bind(&self, heap: &mut Heap<'a>, instance: Object) -> (r: Function<'a>)
        ensures
            (final(heap)@, r) == old(heap)@.bind(*self, instance),
    {
        match self {
            Function::Native { arity, id } => Function::Native { arity: *arity, id: *id },
            Function::User { name, params, body, closure, is_initializer } => {
                let frame: usize = heap.new_environment(Some(*closure));
                heap.define(frame, "this", instance);
                Function::User {
                    name: *name,
                    params: *params,
                    body: *body,
                    closure: frame,
                    is_initializer: *is_initializer,
                }
            },
        }
    }
}

} // verus!
