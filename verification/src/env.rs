//! The per-function variable environment.
//!
//! A mapping from a declared name to its storage binding: the stack slot
//! that holds the value and a mutability tag. One environment exists per
//! function body, created fresh when lowering of the body begins and
//! discarded when it completes; nothing leaks across functions. The driver
//! binds every parameter here, and the statement emitter adds bindings for
//! local declarations. A later binding for the same name replaces the
//! earlier one (scoping is function-flat in this stage).

use vstd::prelude::*;

verus! {

/// Whether a binding may be stored to after initialization: a read-only
/// `let` binding or a mutable `var` binding. The statement emitter must
/// consult this before permitting a store.
#[derive(Debug, Clone, Copy, PartialEq, Eq)]
pub enum Mutability {
    Let,
    Var,
}

/// A storage binding: the register that holds the address of the allocated
/// stack slot, and the binding's mutability.
#[derive(Debug, Clone, Copy, PartialEq, Eq)]
pub struct VariableInfo {
    /// Register holding the slot's address (the result of its `alloca`).
    pub ptr: usize,
    pub mutability: Mutability,
}

/// What a lookup finds in a sequence of bindings: the information of the
/// latest binding under the name, if any.
pub open spec fn spec_lookup(entries: Seq<(String, VariableInfo)>, name: Seq<char>) -> Option<
    VariableInfo,
>
    decreases entries.len(),
{
    if entries.len() == 0 {
        None
    } else if entries.last().0@ == name {
        Some(entries.last().1)
    } else {
        spec_lookup(entries.drop_last(), name)
    }
}

/// The variable environment of one function body.
#[derive(Debug)]
pub struct VariableEnv {
    /// Bindings in the order they were made; the latest binding for a name
    /// is the one in force.
    pub entries: Vec<(String, VariableInfo)>,
}

impl VariableEnv {
    /// A fresh, empty environment.
    pub fn new() -> (r: VariableEnv)
        ensures
            r.entries@ == Seq::<(String, VariableInfo)>::empty(),
    {
        VariableEnv { entries: Vec::new() }
    }

    /// Binds `name` to `info`; a previous binding for the same name is
    /// superseded.
    pub fn insert(&mut self, name: String, info: VariableInfo)
        ensures
            final(self).entries@ == old(self).entries@.push((name, info)),
    {
        self.entries.push((name, info));
    }

    /// Looks the name up, returning the latest binding for it.
    pub fn get(&self, name: &String) -> (r: Option<VariableInfo>)
        ensures
            r == spec_lookup(self.entries@, name@),
    {
        let mut i: usize = self.entries.len();
        assert(self.entries@.take(i as int) =~= self.entries@);
        while i > 0
            invariant
                i <= self.entries@.len(),
                spec_lookup(self.entries@.take(i as int), name@) == spec_lookup(
                    self.entries@,
                    name@,
                ),
            decreases i,
        {
            i = i - 1;
            assert(self.entries@.take(i as int + 1).last() == self.entries@[i as int]);
            assert(self.entries@.take(i as int + 1).drop_last() =~= self.entries@.take(i as int));
            let entry = &self.entries[i];
            if entry.0.eq(name) {
                return Some(entry.1);
            }
        }
        assert(self.entries@.take(0) =~= Seq::<(String, VariableInfo)>::empty());
        None
    }
}

} // verus!
