//! The address resolver.
//!
//! Computes the IR-level address (a pointer value) of an lvalue-shaped
//! expression: a bare bound variable resolves to its slot's address; a
//! single dereference of a pointer-valued variable loads the pointer from
//! that variable's slot and the loaded value is the target address. Nested
//! dereference chains and non-lvalue expressions are faults.

use vstd::prelude::*;
use crate::ast::Expression;
use crate::env::{spec_lookup, VariableEnv, VariableInfo};
use crate::ir::{cursor_ok, emit, fresh_reg, Cursor, Instr, Module};
use crate::types::LowerError;

verus! {

/// How an address resolves: directly to a slot's address register, or to
/// the value loaded from a slot (for a dereference).
pub enum Resolution {
    /// The address is the slot's own address.
    Slot(usize),
    /// The address is the pointer value loaded from the slot in the given
    /// register.
    LoadedFrom(usize),
}

/// What address resolution decides for an expression under an environment:
/// a bare bound variable resolves to its slot; a dereference of a bound
/// variable resolves to the value loaded from that slot; an unbound name,
/// a nested dereference, and a non-lvalue shape are the three faults.
pub open spec fn spec_resolve(
    expr: Expression,
    env: Seq<(String, VariableInfo)>,
) -> Result<Resolution, LowerError> {
    match expr {
        Expression::Variable(name) => match spec_lookup(env, name@) {
            Some(info) => Ok(Resolution::Slot(info.ptr)),
            None => Err(LowerError::UndefinedVariable(name)),
        },
        Expression::Deref(inner) => match *inner {
            Expression::Variable(name) => match spec_lookup(env, name@) {
                Some(info) => Ok(Resolution::LoadedFrom(info.ptr)),
                None => Err(LowerError::UndefinedVariable(name)),
            },
            _ => Err(LowerError::UnsupportedNestedDeref),
        },
        Expression::Literal(_) => Err(LowerError::NotAnAddressableExpression),
    }
}

/// Resolves the address of an lvalue-shaped expression, emitting a load at
/// the cursor when the expression dereferences a pointer variable. On any
/// fault, and for a bare variable, the module is left untouched.
pub fn generate_address_ir(
    m: &mut Module,
    cur: Cursor,
    expr: &Expression,
    variables: &VariableEnv,
) -> (r: Result<usize, LowerError>)
    requires
        cursor_ok(*old(m), cur),
        old(m).functions@[cur.func as int].next_reg < usize::MAX,
    ensures
        match spec_resolve(*expr, variables.entries@) {
            Ok(Resolution::Slot(p)) => r == Ok::<usize, LowerError>(p) && *final(m) == *old(m),
            Ok(Resolution::LoadedFrom(p)) => {
                &&& r == Ok::<usize, LowerError>(old(m).functions@[cur.func as int].next_reg)
                &&& final(m).globals == old(m).globals
                &&& final(m).functions@.len() == old(m).functions@.len()
                &&& forall|i: int|
                    0 <= i < old(m).functions@.len() && i != cur.func as int ==> final(m).functions@[i] == old(m).functions@[i]
                &&& final(m).functions@[cur.func as int].name == old(m).functions@[cur.func as int].name
                &&& final(m).functions@[cur.func as int].sig == old(m).functions@[cur.func as int].sig
                &&& final(m).functions@[cur.func as int].next_reg == old(m).functions@[cur.func as int].next_reg + 1
                &&& final(m).functions@[cur.func as int].blocks@.len() == old(m).functions@[cur.func as int].blocks@.len()
                &&& forall|j: int|
                    0 <= j < old(m).functions@[cur.func as int].blocks@.len() && j
                        != cur.block as int ==> final(m).functions@[cur.func as int].blocks@[j]
                        == old(m).functions@[cur.func as int].blocks@[j]
                &&& final(m).functions@[cur.func as int].blocks@[cur.block as int].label == old(m).functions@[cur.func as int].blocks@[cur.block as int].label
                &&& final(m).functions@[cur.func as int].blocks@[cur.block as int].instrs@ == old(m).functions@[cur.func as int].blocks@[cur.block as int].instrs@.push(
                    final(m).functions@[cur.func as int].blocks@[cur.block as int].instrs@.last(),
                )
                &&& (final(m).functions@[cur.func as int].blocks@[cur.block as int].instrs@.last() matches
                    Instr::Load { dest, ptr, name } && dest == old(m).functions@[cur.func as int].next_reg && ptr == p && name@ == "deref_target"@)
            },
            Err(e) => r == Err::<usize, LowerError>(e) && *final(m) == *old(m),
        },
{
    match expr {
        Expression::Variable(name) => match variables.get(name) {
            Some(info) => Ok(info.ptr),
            None => Err(LowerError::UndefinedVariable(name.clone())),
        },
        Expression::Deref(inner) => match &**inner {
            Expression::Variable(name) => match variables.get(name) {
                Some(info) => {
                    let dest = fresh_reg(m, cur.func);
                    emit(
                        m,
                        cur,
                        Instr::Load { dest, ptr: info.ptr, name: "deref_target".to_owned() },
                    );
                    Ok(dest)
                },
                None => Err(LowerError::UndefinedVariable(name.clone())),
            },
            _ => Err(LowerError::UnsupportedNestedDeref),
        },
        Expression::Literal(_) => Err(LowerError::NotAnAddressableExpression),
    }
}

} // verus!
