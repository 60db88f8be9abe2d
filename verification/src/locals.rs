//! The resolver's findings: for each place in the source where a local
//! variable is used, how many frames out its binding lies. A place is the
//! line and column a token starts at.

use vstd::prelude::*;
use std::collections::HashMap;
use crate::token::Token;

verus! {

pub struct Locals {
    /// One table per source line, by line number; each from column to
    /// distance.
    pub by_line: Vec<HashMap<usize, usize>>,
}

/// The place a token stands at.
pub open spec fn site(name: &Token) -> (usize, usize) {
    (name.line, name.column)
}

impl View for Locals {
    type V = Map<(usize, usize), usize>;

    open spec fn view(&self) -> Map<(usize, usize), usize> {
        Map::new(
            |k: (usize, usize)|
                k.0 < self.by_line.len() && self.by_line[k.0 as int]@.contains_key(k.1),
            |k: (usize, usize)| self.by_line[k.0 as int]@[k.1],
        )
    }
}

impl Locals {
    pub fn new() -> (r: Locals)
        ensures
            r@ == Map::<(usize, usize), usize>::empty(),
    {
        let r = Locals { by_line: Vec::new() };
        assert(r@ =~= Map::<(usize, usize), usize>::empty());
        r
    }

    /// The recorded distance for the place `name` stands at, if any.
    pub fn get(&self, name: &Token) -> (r: Option<usize>)
        ensures
            r == if self@.contains_key(site(name)) {
                Some(self@[site(name)])
            } else {
                None
            },
    {
        broadcast use vstd::std_specs::hash::group_hash_axioms;

        if name.line < self.by_line.len() {
            match self.by_line[name.line].get(&name.column) {
                Some(depth) => Some(*depth),
                None => None,
            }
        } else {
            None
        }
    }

    /// Records a distance for the place `name` stands at, over any
    /// recorded there before.
    pub fn insert(&mut self, name: &Token, depth: usize)
        ensures
            final(self)@ == old(self)@.insert(site(name), depth),
    {
        broadcast use vstd::std_specs::hash::group_hash_axioms;

        while self.by_line.len() <= name.line
            invariant
                self@ =~= old(self)@,
            decreases name.line + 1 - self.by_line.len(),
        {
            self.by_line.push(HashMap::new());
        }
        self.by_line[name.line].insert(name.column, depth);
        assert(self@ =~= old(self)@.insert(site(name), depth));
    }
}

} // verus!
