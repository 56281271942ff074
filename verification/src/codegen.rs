//! The lowering driver: the signature pass and the body pass.
//!
//! Pass one pre-declares every function's IR signature, so a body lowered in
//! pass two can call a function declared later in the source. Pass two, per
//! function, opens the entry block, materializes one stack slot per
//! parameter — initialized from the declared default literal where there is
//! one, else from the caller's positional argument — binds each parameter
//! read-only in a fresh variable environment, dispatches the body statements
//! to the statement emitter, and closes a void function with an implicit
//! void return.

use vstd::prelude::*;
use vstd::slice::slice_to_vec;
use crate::ast::{ASTNode, FunctionNode, Parameter, Value};
use crate::env::{Mutability, VariableEnv, VariableInfo};
use crate::ir::{
    add_global, append_basic_block, cursor_ok, emit, fresh_reg, is_terminator, Cursor,
    GlobalConst, IRFunction, Instr, Module, Operand, Signature,
};
use crate::text::spec_module_text;
use crate::types::{spec_map_wave_type, wave_type_to_llvm_type, IRType, LowerError};

verus! {

// ------------------------------------------------------------------
// Signature pass
// ------------------------------------------------------------------

/// The return slot of a signature: void for an absent return type, else the
/// mapped type, which must be an integer, float or pointer kind — aggregate
/// returns are unsupported and fault rather than truncate.
pub open spec fn spec_ret_sig(decl: FunctionNode) -> Result<Option<IRType>, LowerError> {
    match decl.return_type {
        None => Ok(None),
        Some(t) => match spec_map_wave_type(t) {
            Err(e) => Err(e),
            Ok(ty) => if ty is Array {
                Err(LowerError::UnsupportedReturnType(decl.name))
            } else {
                Ok(Some(ty))
            },
        },
    }
}

/// The mapped parameter types of a declaration, or the first mapping fault.
pub open spec fn spec_param_types(params: Seq<Parameter>) -> Result<Seq<IRType>, LowerError>
    decreases params.len(),
{
    if params.len() == 0 {
        Ok(Seq::empty())
    } else {
        match spec_param_types(params.drop_last()) {
            Err(e) => Err(e),
            Ok(tys) => match spec_map_wave_type(params.last().param_type) {
                Err(e) => Err(e),
                Ok(ty) => Ok(tys.push(ty)),
            },
        }
    }
}

/// The signature the pass derives for one declaration: parameter types
/// first, then the return slot.
pub open spec fn spec_decl_sig(decl: FunctionNode) -> Result<
    (Seq<IRType>, Option<IRType>),
    LowerError,
> {
    match spec_param_types(decl.parameters@) {
        Err(e) => Err(e),
        Ok(tys) => match spec_ret_sig(decl) {
            Err(e) => Err(e),
            Ok(ret) => Ok((tys, ret)),
        },
    }
}

/// The function declarations among the nodes, in source order.
pub open spec fn spec_fn_decls(nodes: Seq<ASTNode>) -> Seq<FunctionNode>
    decreases nodes.len(),
{
    if nodes.len() == 0 {
        Seq::empty()
    } else {
        let rest = spec_fn_decls(nodes.drop_last());
        match nodes.last() {
            ASTNode::Function(d) => rest.push(d),
            _ => rest,
        }
    }
}

/// Whether some earlier node already declares a function of this name.
pub open spec fn spec_dup_name(nodes: Seq<ASTNode>, name: Seq<char>) -> bool {
    exists|i: int|
        0 <= i < nodes.len() && (#[trigger] nodes[i] matches ASTNode::Function(d) && d.name@
            == name)
}

/// The fault the signature pass reports, if any: scanning declarations in
/// source order, a redeclared name faults before the declaration's types
/// are examined; then parameter types fault before the return type.
pub open spec fn spec_signature_fault(nodes: Seq<ASTNode>) -> Option<LowerError>
    decreases nodes.len(),
{
    if nodes.len() == 0 {
        None
    } else {
        match spec_signature_fault(nodes.drop_last()) {
            Some(e) => Some(e),
            None => match nodes.last() {
                ASTNode::Function(decl) => if spec_dup_name(nodes.drop_last(), decl.name@) {
                    Some(LowerError::DuplicateFunction(decl.name))
                } else {
                    match spec_decl_sig(decl) {
                        Err(e) => Some(e),
                        Ok(_) => None,
                    }
                },
                _ => None,
            },
        }
    }
}

/// The index of the first function of this name in the table.
pub open spec fn spec_find_function(fns: Seq<IRFunction>, name: Seq<char>) -> Option<int>
    decreases fns.len(),
{
    if fns.len() == 0 {
        None
    } else if fns[0].name@ == name {
        Some(0int)
    } else {
        match spec_find_function(fns.drop_first(), name) {
            Some(i) => Some(i + 1),
            None => None,
        }
    }
}

/// The module's functions correspond one to one, in order, to the given
/// declarations: same names, and the signatures the pass derives.
pub open spec fn spec_signatures_declared(fns: Seq<IRFunction>, decls: Seq<FunctionNode>) -> bool {
    &&& fns.len() == decls.len()
    &&& forall|k: int|
        0 <= k < decls.len() ==> {
            &&& (#[trigger] fns[k]).name@ == decls[k].name@
            &&& spec_decl_sig(decls[k]) matches Ok(sig) && fns[k].sig.param_types@ == sig.0
                && fns[k].sig.ret == sig.1
        }
}

/// Looks a function up by name, returning the index of the first (and, after
/// a successful signature pass, only) function with that name.
pub fn find_function(m: &Module, name: &String) -> (r: Option<usize>)
    ensures
        match spec_find_function(m.functions@, name@) {
            Some(i) => r matches Some(u) && u as int == i,
            None => r is None,
        },
{
    let n = m.functions.len();
    let mut i: usize = 0;
    while i < n
        invariant
            i <= n,
            n == m.functions@.len(),
            forall|k: int| 0 <= k < i ==> (#[trigger] m.functions@[k]).name@ != name@,
        decreases n - i,
    {
        proof {
            lemma_find_function_skip(m.functions@, name@, i as int);
        }
        if m.functions[i].name.eq(name) {
            proof {
                assert(m.functions@.skip(i as int)[0] == m.functions@[i as int]);
            }
            return Some(i);
        }
        proof {
            assert(m.functions@.skip(i as int)[0] == m.functions@[i as int]);
            assert(m.functions@.skip(i as int).drop_first() =~= m.functions@.skip(i as int + 1));
        }
        i = i + 1;
    }
    proof {
        lemma_find_function_skip(m.functions@, name@, i as int);
    }
    None
}

/// Searching past a prefix without the name finds what searching the whole
/// table finds, shifted by the prefix's length.
proof fn lemma_find_function_skip(fns: Seq<IRFunction>, name: Seq<char>, i: int)
    requires
        0 <= i <= fns.len(),
        forall|k: int| 0 <= k < i ==> (#[trigger] fns[k]).name@ != name,
    ensures
        spec_find_function(fns, name) == match spec_find_function(fns.skip(i), name) {
            Some(j) => Some(i + j),
            None => None::<int>,
        },
    decreases i,
{
    if i == 0 {
        assert(fns.skip(0) =~= fns);
    } else {
        assert(fns[0].name@ != name);
        assert(fns.drop_first() =~= fns.skip(1));
        assert(forall|k: int| 0 <= k < i - 1 ==> (#[trigger] fns.skip(1)[k]).name@ != name) by {
            assert(forall|k: int| 0 <= k < i - 1 ==> fns.skip(1)[k] == fns[k + 1]);
        };
        lemma_find_function_skip(fns.skip(1), name, i - 1);
        assert(fns.skip(1).skip(i - 1) =~= fns.skip(i));
    }
}

/// Whether the module already declares a function of this name.
fn contains_function(m: &Module, name: &String) -> (r: bool)
    ensures
        r == exists|k: int|
            0 <= k < m.functions@.len() && (#[trigger] m.functions@[k]).name@ == name@,
{
    let n = m.functions.len();
    let mut i: usize = 0;
    while i < n
        invariant
            i <= n,
            n == m.functions@.len(),
            forall|k: int| 0 <= k < i ==> (#[trigger] m.functions@[k]).name@ != name@,
        decreases n - i,
    {
        if m.functions[i].name.eq(name) {
            return true;
        }
        i = i + 1;
    }
    false
}

/// A name is a duplicate among the earlier nodes exactly when it already
/// stands among the declarations collected from them.
proof fn lemma_dup_name_in_decls(nodes: Seq<ASTNode>, name: Seq<char>)
    ensures
        spec_dup_name(nodes, name) <==> exists|k: int|
            0 <= k < spec_fn_decls(nodes).len() && (#[trigger] spec_fn_decls(nodes)[k]).name@
                == name,
    decreases nodes.len(),
{
    if nodes.len() == 0 {
    } else {
        lemma_dup_name_in_decls(nodes.drop_last(), name);
        let decls = spec_fn_decls(nodes);
        let rest = spec_fn_decls(nodes.drop_last());
        if spec_dup_name(nodes, name) {
            let i = choose|i: int|
                0 <= i < nodes.len() && (#[trigger] nodes[i] matches ASTNode::Function(d)
                    && d.name@ == name);
            if i == nodes.len() - 1 {
                assert(decls[decls.len() - 1].name@ == name);
            } else {
                assert(nodes.drop_last()[i] == nodes[i]);
                assert(spec_dup_name(nodes.drop_last(), name));
                let k = choose|k: int|
                    0 <= k < rest.len() && (#[trigger] rest[k]).name@ == name;
                assert(decls[k].name@ == name);
            }
        }
        if exists|k: int| 0 <= k < decls.len() && (#[trigger] decls[k]).name@ == name {
            let k = choose|k: int| 0 <= k < decls.len() && (#[trigger] decls[k]).name@ == name;
            match nodes.last() {
                ASTNode::Function(d) => {
                    if k == decls.len() - 1 && d.name@ == name {
                        assert(nodes[nodes.len() - 1] matches ASTNode::Function(dd) && dd.name@
                            == name);
                    } else {
                        assert(decls[k] == rest[k]);
                        assert(exists|j: int|
                            0 <= j < nodes.drop_last().len() && (#[trigger] nodes.drop_last()[j]
                                matches ASTNode::Function(dd) && dd.name@ == name));
                        let j = choose|j: int|
                            0 <= j < nodes.drop_last().len() && (#[trigger] nodes.drop_last()[j]
                                matches ASTNode::Function(dd) && dd.name@ == name);
                        assert(nodes[j] == nodes.drop_last()[j]);
                    }
                },
                _ => {
                    assert(decls[k] == rest[k]);
                    let j = choose|j: int|
                        0 <= j < nodes.drop_last().len() && (#[trigger] nodes.drop_last()[j]
                            matches ASTNode::Function(dd) && dd.name@ == name);
                    assert(nodes[j] == nodes.drop_last()[j]);
                },
            }
        }
    }
}

/// A fault in a prefix of the nodes is the fault of the whole sequence: the
/// pass aborts on the first fault.
proof fn lemma_signature_fault_prefix(nodes: Seq<ASTNode>, i: int)
    requires
        0 <= i <= nodes.len(),
        spec_signature_fault(nodes.take(i)) is Some,
    ensures
        spec_signature_fault(nodes) == spec_signature_fault(nodes.take(i)),
    decreases nodes.len(),
{
    if i == nodes.len() {
        assert(nodes.take(i) =~= nodes);
    } else {
        assert(nodes.drop_last().take(i) =~= nodes.take(i));
        lemma_signature_fault_prefix(nodes.drop_last(), i);
    }
}

/// Pass one: derives every function's signature, in source order, before
/// any body is lowered. Faults on a duplicate name, an unmappable parameter
/// type, and a return type that is not an integer, float or pointer kind.
pub fn declare_signatures(ast_nodes: &Vec<ASTNode>) -> (r: Result<Module, LowerError>)
    ensures
        match spec_signature_fault(ast_nodes@) {
            Some(e) => r == Err::<Module, LowerError>(e),
            None => r matches Ok(m) && {
                &&& m.globals@.len() == 0
                &&& spec_signatures_declared(m.functions@, spec_fn_decls(ast_nodes@))
                &&& forall|k: int|
                    0 <= k < m.functions@.len() ==> (#[trigger] m.functions@[k]).blocks@.len()
                        == 0 && m.functions@[k].next_reg == 0
            },
        },
{
    let mut m = Module::new();
    let n = ast_nodes.len();
    let mut i: usize = 0;
    proof {
        assert(ast_nodes@.take(0) =~= Seq::<ASTNode>::empty());
    }
    while i < n
        invariant
            i <= n,
            n == ast_nodes@.len(),
            spec_signature_fault(ast_nodes@.take(i as int)) is None,
            m.globals@.len() == 0,
            spec_signatures_declared(m.functions@, spec_fn_decls(ast_nodes@.take(i as int))),
            forall|k: int|
                0 <= k < m.functions@.len() ==> (#[trigger] m.functions@[k]).blocks@.len() == 0
                    && m.functions@[k].next_reg == 0,
        decreases n - i,
    {
        let ghost prefix = ast_nodes@.take(i as int);
        let ghost prefix1 = ast_nodes@.take(i as int + 1);
        proof {
            assert(prefix1.drop_last() =~= prefix);
            assert(prefix1.last() == ast_nodes@[i as int]);
        }
        match &ast_nodes[i] {
            ASTNode::Function(decl) => {
                let dup = contains_function(&m, &decl.name);
                proof {
                    lemma_dup_name_in_decls(prefix, decl.name@);
                    let decls = spec_fn_decls(prefix);
                    if dup {
                        let k = choose|k: int|
                            0 <= k < m.functions@.len() && (#[trigger] m.functions@[k]).name@
                                == decl.name@;
                        assert(decls[k].name@ == decl.name@);
                        assert(spec_dup_name(prefix, decl.name@));
                    } else if spec_dup_name(prefix, decl.name@) {
                        let k = choose|k: int|
                            0 <= k < decls.len() && (#[trigger] decls[k]).name@ == decl.name@;
                        assert(m.functions@[k].name@ == decl.name@);
                        assert(false);
                    }
                }
                if dup {
                    proof {
                        assert(spec_signature_fault(prefix1) == Some(
                            LowerError::DuplicateFunction(decl.name),
                        ));
                        lemma_signature_fault_prefix(ast_nodes@, i as int + 1);
                    }
                    return Err(LowerError::DuplicateFunction(decl.name.clone()));
                }
                let param_types = match map_param_types(&decl.parameters) {
                    Ok(tys) => tys,
                    Err(e) => {
                        proof {
                            assert(spec_signature_fault(prefix1) == Some(e));
                            lemma_signature_fault_prefix(ast_nodes@, i as int + 1);
                        }
                        return Err(e);
                    },
                };
                let ret = match &decl.return_type {
                    None => None,
                    Some(t) => match wave_type_to_llvm_type(t) {
                        Err(e) => {
                            proof {
                                assert(spec_signature_fault(prefix1) == Some(e));
                                lemma_signature_fault_prefix(ast_nodes@, i as int + 1);
                            }
                            return Err(e);
                        },
                        Ok(ty) => match ty {
                            IRType::Array(_, _) => {
                                proof {
                                    assert(spec_signature_fault(prefix1) == Some(
                                        LowerError::UnsupportedReturnType(decl.name),
                                    ));
                                    lemma_signature_fault_prefix(ast_nodes@, i as int + 1);
                                }
                                return Err(
                                    LowerError::UnsupportedReturnType(decl.name.clone()),
                                );
                            },
                            _ => Some(ty),
                        },
                    },
                };
                m.functions.push(
                    IRFunction {
                        name: decl.name.clone(),
                        sig: Signature { param_types, ret },
                        blocks: Vec::new(),
                        next_reg: 0,
                    },
                );
            },
            _ => {},
        }
        i = i + 1;
    }
    proof {
        assert(ast_nodes@.take(n as int) =~= ast_nodes@);
    }
    Ok(m)
}

/// Maps every parameter's declared type, in order.
fn map_param_types(params: &Vec<Parameter>) -> (r: Result<Vec<IRType>, LowerError>)
    ensures
        match spec_param_types(params@) {
            Ok(tys) => r matches Ok(v) && v@ == tys,
            Err(e) => r == Err::<Vec<IRType>, LowerError>(e),
        },
{
    let mut out: Vec<IRType> = Vec::new();
    let n = params.len();
    let mut i: usize = 0;
    proof {
        assert(params@.take(0) =~= Seq::<Parameter>::empty());
    }
    while i < n
        invariant
            i <= n,
            n == params@.len(),
            spec_param_types(params@.take(i as int)) matches Ok(tys) && out@ == tys,
        decreases n - i,
    {
        proof {
            assert(params@.take(i as int + 1).drop_last() =~= params@.take(i as int));
            assert(params@.take(i as int + 1).last() == params@[i as int]);
        }
        match wave_type_to_llvm_type(&params[i].param_type) {
            Ok(ty) => out.push(ty),
            Err(e) => {
                proof {
                    lemma_param_types_fault(params@, i as int);
                }
                return Err(e);
            },
        }
        i = i + 1;
    }
    proof {
        assert(params@.take(n as int) =~= params@);
    }
    Ok(out)
}

// ------------------------------------------------------------------
// Body pass: parameter materialization
// ------------------------------------------------------------------

/// The global constant backing a text default is named deterministically
/// from the parameter's name (not from the text's content).
pub open spec fn spec_param_global_name(name: Seq<char>) -> Seq<char> {
    "param_str_"@ + name
}

/// The bytes of a text default's backing global: the text's UTF-8 bytes,
/// null-terminated.
pub open spec fn spec_global_bytes(s: Seq<char>) -> Seq<u8> {
    vstd::utf8::encode_utf8(s).push(0u8)
}

/// A default literal's kind fits the slot's IR type: an integer literal
/// needs an integer slot, a float literal a float slot, and a text literal
/// a pointer-to-byte slot.
pub open spec fn spec_default_matches(v: Value, ty: IRType) -> bool {
    match v {
        Value::Int(_) => ty is Int,
        Value::Float(_) => ty is Float,
        Value::Text(_) => ty == IRType::Pointer(Box::new(IRType::Int(8))),
    }
}

/// The fault materializing one parameter reports, if any: an unmappable
/// type, or a default literal whose kind does not fit the slot.
pub open spec fn spec_param_fault(p: Parameter) -> Option<LowerError> {
    match spec_map_wave_type(p.param_type) {
        Err(e) => Some(e),
        Ok(ty) => match p.initial_value {
            None => None,
            Some(v) => if spec_default_matches(v, ty) {
                None
            } else {
                Some(LowerError::DefaultValueTypeMismatch(p.name))
            },
        },
    }
}

/// The first fault among the parameters, in declaration order.
pub open spec fn spec_params_fault(params: Seq<Parameter>) -> Option<LowerError>
    decreases params.len(),
{
    if params.len() == 0 {
        None
    } else {
        match spec_param_fault(params[0]) {
            Some(e) => Some(e),
            None => spec_params_fault(params.drop_first()),
        }
    }
}

/// The initial value stored into a parameter's slot, by precedence: the
/// declared default literal as a typed constant where there is one (for a
/// text default, the address of its backing global), else the positional
/// caller argument.
pub open spec fn spec_init_operand_ok(op: Operand, p: Parameter, index: int) -> bool {
    match p.initial_value {
        None => op matches Operand::Param { index: j } && j == index,
        Some(v) => match v {
            Value::Int(n) => (spec_map_wave_type(p.param_type) matches Ok(IRType::Int(w)) && op
                == Operand::ConstInt { width: w, value: n }),
            Value::Float(bits) => (spec_map_wave_type(p.param_type) matches Ok(IRType::Float(w))
                && op == Operand::ConstFloat { width: w, bits }),
            Value::Text(_) => (op matches Operand::GlobalAddr { name } && name@
                == spec_param_global_name(p.name@)),
        },
    }
}

/// The backing global of one text default: named from the parameter,
/// holding the text's bytes with the trailing null terminator.
pub open spec fn spec_param_global_ok(g: GlobalConst, pname: Seq<char>, text: Seq<char>) -> bool {
    &&& g.name@ == spec_param_global_name(pname)
    &&& g.bytes@ == spec_global_bytes(text)
}

/// How many of the first `upto` parameters declare a text default (each
/// owns one backing global, in declaration order).
pub open spec fn spec_n_text_defaults(params: Seq<Parameter>, upto: int) -> int
    decreases upto,
{
    if upto <= 0 {
        0
    } else {
        spec_n_text_defaults(params, upto - 1) + if params[upto - 1].initial_value matches Some(
            Value::Text(_),
        ) {
            1int
        } else {
            0int
        }
    }
}

/// Parameter `i`'s slot as it stands in the instructions alone: one
/// `alloca` of the mapped type in register `i`, then one store of the
/// initial value.
pub open spec fn spec_param_slot_instrs_ok(
    params: Seq<Parameter>,
    instrs: Seq<Instr>,
    i: int,
) -> bool {
    let p = params[i];
    &&& (instrs[2 * i] matches Instr::Alloca { dest, ty, name } && dest == i && Ok::<
        IRType,
        LowerError,
    >(ty) == spec_map_wave_type(p.param_type) && name@ == p.name@)
    &&& (instrs[2 * i + 1] matches Instr::Store { ptr, value } && ptr == i
        && spec_init_operand_ok(value, p, i))
}

/// Parameter `i`'s slot stands in the instructions, and a text default's
/// backing global stands among the added globals at its position.
pub open spec fn spec_param_slot_ok(
    params: Seq<Parameter>,
    instrs: Seq<Instr>,
    globals: Seq<GlobalConst>,
    i: int,
) -> bool {
    let p = params[i];
    &&& spec_param_slot_instrs_ok(params, instrs, i)
    &&& (p.initial_value matches Some(Value::Text(s)) ==> 0 <= spec_n_text_defaults(params, i)
        < globals.len() && spec_param_global_ok(
        globals[spec_n_text_defaults(params, i)],
        p.name@,
        s@,
    ))
}

/// The whole entry-block prefix that materializes the parameters: two
/// instructions per parameter, no terminator among them, and one backing
/// global per text default.
pub open spec fn spec_params_instrs_ok(
    params: Seq<Parameter>,
    instrs: Seq<Instr>,
    globals: Seq<GlobalConst>,
) -> bool {
    &&& instrs.len() == 2 * params.len()
    &&& globals.len() == spec_n_text_defaults(params, params.len() as int)
    &&& forall|j: int| 0 <= j < instrs.len() ==> !is_terminator(#[trigger] instrs[j])
    &&& forall|i: int| 0 <= i < params.len() ==> spec_param_slot_ok(params, instrs, globals, i)
}

/// The count of text defaults grows with the prefix it counts over.
proof fn lemma_n_text_defaults_le(params: Seq<Parameter>, a: int, b: int)
    requires
        0 <= a <= b,
    ensures
        spec_n_text_defaults(params, a) <= spec_n_text_defaults(params, b),
    decreases b,
{
    if a < b {
        lemma_n_text_defaults_le(params, a, b - 1);
    }
}

/// The backing globals of the parameters' text defaults stand in the global
/// table as one contiguous run beginning at `o`, in declaration order, each
/// named from its parameter and holding the null-terminated text bytes.
pub open spec fn spec_params_globals_at(
    params: Seq<Parameter>,
    globals: Seq<GlobalConst>,
    o: int,
) -> bool {
    &&& 0 <= o
    &&& o + spec_n_text_defaults(params, params.len() as int) <= globals.len()
    &&& forall|i: int|
        0 <= i < params.len() ==> ((#[trigger] params[i]).initial_value matches Some(
            Value::Text(s),
        ) ==> spec_param_global_ok(
            globals[o + spec_n_text_defaults(params, i)],
            params[i].name@,
            s@,
        ))
}

/// A run of backing globals stays in place when the table only grows after
/// it.
proof fn lemma_params_globals_at_preserved(
    params: Seq<Parameter>,
    g1: Seq<GlobalConst>,
    g2: Seq<GlobalConst>,
    o: int,
)
    requires
        spec_params_globals_at(params, g1, o),
        g1.len() <= g2.len(),
        forall|k: int| 0 <= k < g1.len() ==> #[trigger] g2[k] == g1[k],
    ensures
        spec_params_globals_at(params, g2, o),
{
    assert forall|i: int|
        0 <= i < params.len() implies ((#[trigger] params[i]).initial_value matches Some(
        Value::Text(s),
    ) ==> spec_param_global_ok(g2[o + spec_n_text_defaults(params, i)], params[i].name@, s@)) by {
        match params[i].initial_value {
            Some(Value::Text(_)) => {
                lemma_n_text_defaults_le(params, 0, i);
                assert(spec_n_text_defaults(params, i + 1) == spec_n_text_defaults(params, i) + 1);
                lemma_n_text_defaults_le(params, i + 1, params.len() as int);
                assert(0 <= o + spec_n_text_defaults(params, i) < g1.len());
                assert(g2[o + spec_n_text_defaults(params, i)] == g1[o + spec_n_text_defaults(
                    params,
                    i,
                )]);
            },
            _ => {},
        }
    }
}

/// A materialized parameter slot stays in place when instructions are only
/// appended after it.
proof fn lemma_param_slot_instrs_preserved(
    params: Seq<Parameter>,
    instrs1: Seq<Instr>,
    instrs2: Seq<Instr>,
    k: int,
)
    requires
        spec_param_slot_instrs_ok(params, instrs1, k),
        0 <= k,
        2 * k + 1 < instrs1.len(),
        instrs1.is_prefix_of(instrs2),
    ensures
        spec_param_slot_instrs_ok(params, instrs2, k),
{
    assert(instrs1 == instrs2.subrange(0, instrs1.len() as int));
    assert(instrs2[2 * k] == instrs1[2 * k]);
    assert(instrs2[2 * k + 1] == instrs1[2 * k + 1]);
}

/// The environment binds exactly the parameters, each read-only to its own
/// slot register, in declaration order.
pub open spec fn spec_params_env_ok(
    params: Seq<Parameter>,
    env: Seq<(String, VariableInfo)>,
) -> bool {
    &&& env.len() == params.len()
    &&& forall|i: int|
        0 <= i < params.len() ==> (#[trigger] env[i]).0@ == params[i].name@ && env[i].1
            == (VariableInfo { ptr: i as usize, mutability: Mutability::Let })
}

/// A parameter slot already materialized stays materialized when later
/// instructions and globals are appended.
proof fn lemma_param_slot_preserved(
    params: Seq<Parameter>,
    instrs1: Seq<Instr>,
    instrs2: Seq<Instr>,
    g1: Seq<GlobalConst>,
    g2: Seq<GlobalConst>,
    k: int,
)
    requires
        spec_param_slot_ok(params, instrs1, g1, k),
        0 <= k,
        2 * k + 1 < instrs1.len(),
        instrs1.len() <= instrs2.len(),
        forall|j: int| 0 <= j < instrs1.len() ==> #[trigger] instrs2[j] == instrs1[j],
        g1.len() <= g2.len(),
        forall|j: int| 0 <= j < g1.len() ==> #[trigger] g2[j] == g1[j],
    ensures
        spec_param_slot_ok(params, instrs2, g2, k),
{
    assert(instrs2[2 * k] == instrs1[2 * k]);
    assert(instrs2[2 * k + 1] == instrs1[2 * k + 1]);
    match params[k].initial_value {
        Some(Value::Text(_)) => {
            assert(g2[spec_n_text_defaults(params, k)] == g1[spec_n_text_defaults(params, k)]);
        },
        _ => {},
    }
}

/// Opens the function's entry block and materializes its parameters: one
/// stack slot per parameter in declaration order, initialized by precedence
/// (default literal first, else the positional caller argument), each bound
/// read-only in a fresh environment. Returns the cursor at the entry block
/// and the environment.
#[verifier::loop_isolation(false)]
pub fn begin_function(m: &mut Module, func: usize, decl: &FunctionNode) -> (r: Result<
    (Cursor, VariableEnv),
    LowerError,
>)
    requires
        func < old(m).functions@.len(),
        old(m).functions@[func as int].blocks@.len() == 0,
        old(m).functions@[func as int].next_reg == 0,
    ensures
        final(m).functions@.len() == old(m).functions@.len(),
        forall|i: int|
            0 <= i < old(m).functions@.len() && i != func as int ==> final(m).functions@[i]
                == old(m).functions@[i],
        final(m).functions@[func as int].name == old(m).functions@[func as int].name,
        final(m).functions@[func as int].sig == old(m).functions@[func as int].sig,
        final(m).globals@.len() >= old(m).globals@.len(),
        forall|k: int|
            0 <= k < old(m).globals@.len() ==> final(m).globals@[k] == old(m).globals@[k],
        match spec_params_fault(decl.parameters@) {
            Some(e) => r == Err::<(Cursor, VariableEnv), LowerError>(e),
            None => (r matches Ok((cur, env)) && {
                &&& cur == (Cursor { func, block: 0 })
                &&& final(m).functions@[func as int].blocks@.len() == 1
                &&& final(m).functions@[func as int].blocks@[0].label@ == "entry"@
                &&& final(m).functions@[func as int].next_reg == decl.parameters@.len()
                &&& final(m).globals@.len() == old(m).globals@.len() + spec_n_text_defaults(
                    decl.parameters@,
                    decl.parameters@.len() as int,
                )
                &&& spec_params_instrs_ok(
                    decl.parameters@,
                    final(m).functions@[func as int].blocks@[0].instrs@,
                    final(m).globals@.skip(old(m).globals@.len() as int),
                )
                &&& spec_params_globals_at(
                    decl.parameters@,
                    final(m).globals@,
                    old(m).globals@.len() as int,
                )
                &&& spec_params_env_ok(decl.parameters@, env.entries@)
            }),
        },
{
    let block = append_basic_block(m, func, "entry".to_owned());
    let cur = Cursor { func, block };
    let mut env = VariableEnv::new();
    let ghost m0 = *m;
    let n = decl.parameters.len();
    let mut i: usize = 0;
    proof {
        assert(decl.parameters@.skip(0) =~= decl.parameters@);
        assert(m.globals@.skip(m0.globals@.len() as int) =~= Seq::<GlobalConst>::empty());
    }
    while i < n
        invariant
            i <= n,
            n == decl.parameters@.len(),
            cur == (Cursor { func, block: 0 }),
            func < m.functions@.len(),
            m.functions@.len() == m0.functions@.len(),
            forall|k: int|
                0 <= k < m0.functions@.len() && k != func as int ==> m.functions@[k]
                    == m0.functions@[k],
            m.functions@[func as int].name == m0.functions@[func as int].name,
            m.functions@[func as int].sig == m0.functions@[func as int].sig,
            m.functions@[func as int].blocks@.len() == 1,
            m.functions@[func as int].blocks@[0].label@ == "entry"@,
            m.functions@[func as int].next_reg == i,
            m.globals@.len() >= m0.globals@.len(),
            m.globals@.len() == m0.globals@.len() + spec_n_text_defaults(
                decl.parameters@,
                i as int,
            ),
            forall|k: int| 0 <= k < m0.globals@.len() ==> m.globals@[k] == m0.globals@[k],
            spec_params_fault(decl.parameters@) == spec_params_fault(
                decl.parameters@.skip(i as int),
            ),
            m.functions@[func as int].blocks@[0].instrs@.len() == 2 * i,
            forall|j: int|
                0 <= j < 2 * i ==> !is_terminator(
                    #[trigger] m.functions@[func as int].blocks@[0].instrs@[j],
                ),
            forall|k: int|
                0 <= k < i ==> spec_param_slot_ok(
                    decl.parameters@,
                    m.functions@[func as int].blocks@[0].instrs@,
                    m.globals@.skip(m0.globals@.len() as int),
                    k,
                ),
            spec_params_env_ok(decl.parameters@.take(i as int), env.entries@),
        decreases n - i,
    {
        let ghost params = decl.parameters@;
        let ghost rest = params.skip(i as int);
        let ghost instrs_before = m.functions@[func as int].blocks@[0].instrs@;
        proof {
            assert(rest[0] == params[i as int]);
            assert(rest.drop_first() =~= params.skip(i as int + 1));
        }
        let p = &decl.parameters[i];
        let ty = match wave_type_to_llvm_type(&p.param_type) {
            Ok(t) => t,
            Err(e) => {
                proof {
                    assert(spec_param_fault(params[i as int]) == Some(e));
                }
                return Err(e);
            },
        };
        let ghost globals_before = m.globals@;
        let init: Operand = match &p.initial_value {
            None => Operand::Param { index: i },
            Some(v) => match v {
                Value::Int(val) => match &ty {
                    IRType::Int(w) => Operand::ConstInt { width: *w, value: *val },
                    _ => {
                        proof {
                            assert(spec_param_fault(params[i as int]) == Some(
                                LowerError::DefaultValueTypeMismatch(p.name),
                            ));
                        }
                        return Err(LowerError::DefaultValueTypeMismatch(p.name.clone()));
                    },
                },
                Value::Float(bits) => match &ty {
                    IRType::Float(w) => Operand::ConstFloat { width: *w, bits: *bits },
                    _ => {
                        proof {
                            assert(spec_param_fault(params[i as int]) == Some(
                                LowerError::DefaultValueTypeMismatch(p.name),
                            ));
                        }
                        return Err(LowerError::DefaultValueTypeMismatch(p.name.clone()));
                    },
                },
                Value::Text(s) => {
                    let mut text_ok = false;
                    match &ty {
                        IRType::Pointer(inner) => match &**inner {
                            IRType::Int(w) => if *w == 8 {
                                text_ok = true;
                            },
                            _ => {},
                        },
                        _ => {},
                    }
                    if !text_ok {
                        proof {
                            assert(!spec_default_matches(Value::Text(*s), ty));
                            assert(spec_param_fault(params[i as int]) == Some(
                                LowerError::DefaultValueTypeMismatch(p.name),
                            ));
                        }
                        return Err(LowerError::DefaultValueTypeMismatch(p.name.clone()));
                    }
                    let mut gname = "param_str_".to_owned();
                    gname.append(p.name.as_str());
                    let addr_name = gname.clone();
                    let mut bytes = slice_to_vec(s.as_str().as_bytes());
                    bytes.push(0u8);
                    add_global(m, GlobalConst { name: gname, bytes });
                    Operand::GlobalAddr { name: addr_name }
                },
            },
        };
        proof {
            assert(spec_param_fault(params[i as int]) is None);
        }
        let dest = fresh_reg(m, func);
        emit(m, cur, Instr::Alloca { dest, ty, name: p.name.clone() });
        emit(m, cur, Instr::Store { ptr: dest, value: init });
        env.insert(p.name.clone(), VariableInfo { ptr: dest, mutability: Mutability::Let });
        proof {
            let ghost lg = m0.globals@.len() as int;
            let ghost instrs_new = m.functions@[func as int].blocks@[0].instrs@;
            let ghost added_old = globals_before.skip(lg);
            let ghost added_new = m.globals@.skip(lg);
            assert(decl.parameters@.take(i as int + 1).drop_last() =~= decl.parameters@.take(
                i as int,
            ));
            assert(decl.parameters@.take(i as int + 1).last() == params[i as int]);
            assert(forall|j: int|
                0 <= j < globals_before.len() ==> #[trigger] m.globals@[j] == globals_before[j]);
            assert(forall|idx: int|
                0 <= idx < added_old.len() ==> #[trigger] added_new[idx] == added_old[idx]);
            assert(forall|j: int|
                0 <= j < instrs_before.len() ==> #[trigger] instrs_new[j] == instrs_before[j]);
            assert forall|k: int| 0 <= k < i implies spec_param_slot_ok(
                params,
                instrs_new,
                added_new,
                k,
            ) by {
                assert(spec_param_slot_ok(params, instrs_before, added_old, k));
                lemma_param_slot_preserved(params, instrs_before, instrs_new, added_old, added_new, k);
            }
            assert(spec_param_slot_ok(params, instrs_new, added_new, i as int));
        }
        i = i + 1;
    }
    proof {
        assert(decl.parameters@.skip(n as int).len() == 0);
        let params = decl.parameters@;
        let lg = m0.globals@.len() as int;
        let instrs = m.functions@[func as int].blocks@[0].instrs@;
        let added = m.globals@.skip(lg);
        assert forall|t: int|
            0 <= t < params.len() implies ((#[trigger] params[t]).initial_value matches Some(
            Value::Text(s),
        ) ==> spec_param_global_ok(m.globals@[lg + spec_n_text_defaults(params, t)], params[t].name@, s@)) by {
            assert(spec_param_slot_ok(params, instrs, added, t));
            match params[t].initial_value {
                Some(Value::Text(_)) => {
                    assert(added[spec_n_text_defaults(params, t)] == m.globals@[lg
                        + spec_n_text_defaults(params, t)]);
                },
                _ => {},
            }
        }
        assert(spec_params_globals_at(params, m.globals@, lg));
    }
    Ok((cur, env))
}

// ------------------------------------------------------------------
// Body pass: statement dispatch and the implicit terminator
// ------------------------------------------------------------------

/// How many terminators a block's instructions hold; a well-formed block
/// ends in exactly one.
pub open spec fn spec_terminator_count(instrs: Seq<Instr>) -> int
    decreases instrs.len(),
{
    if instrs.len() == 0 {
        0
    } else {
        spec_terminator_count(instrs.drop_last()) + if is_terminator(instrs.last()) {
            1int
        } else {
            0int
        }
    }
}

/// Instructions without a terminator count zero terminators.
proof fn lemma_no_terminator_count(instrs: Seq<Instr>)
    requires
        forall|j: int| 0 <= j < instrs.len() ==> !is_terminator(#[trigger] instrs[j]),
    ensures
        spec_terminator_count(instrs) == 0,
    decreases instrs.len(),
{
    if instrs.len() > 0 {
        lemma_no_terminator_count(instrs.drop_last());
    }
}

/// Law: a block whose only terminator stands last holds exactly one.
pub proof fn lemma_single_terminator(instrs: Seq<Instr>)
    requires
        instrs.len() >= 1,
        forall|j: int| 0 <= j < instrs.len() - 1 ==> !is_terminator(#[trigger] instrs[j]),
        is_terminator(instrs.last()),
    ensures
        spec_terminator_count(instrs) == 1,
{
    lemma_no_terminator_count(instrs.drop_last());
}

/// The fault dispatching a body reports, if any: some node at function-body
/// top level is neither a variable declaration nor a statement.
pub open spec fn spec_body_fault(decl: FunctionNode) -> Option<LowerError> {
    if exists|i: int| 0 <= i < decl.body@.len() && (#[trigger] decl.body@[i]) is Function {
        Some(LowerError::UnsupportedTopLevelNode(decl.name))
    } else {
        None
    }
}

/// The fault lowering one function's body reports, if any: parameter
/// materialization faults first, then body dispatch.
pub open spec fn spec_lower_fault(decl: FunctionNode) -> Option<LowerError> {
    match spec_params_fault(decl.parameters@) {
        Some(e) => Some(e),
        None => spec_body_fault(decl),
    }
}

/// The statement emitter: the collaborator that lowers individual variable
/// declarations and statements, given the shared insertion cursor, the
/// module, the string counter, the variable environment, the two
/// control-flow target stacks, and the enclosing function. It receives no
/// return value: it works by side effect.
///
/// Its integration contract: the insertion cursor appends, never rewrites.
/// The emitter may append instructions and blocks to the current function,
/// move the cursor within that function, append globals, and bind locals;
/// it must keep every function's name and signature, leave the other
/// functions untouched, keep the existing globals, keep each existing
/// block's label and instructions (in place, as a prefix of that block's
/// final instructions), and leave the cursor on a block of the current
/// function.
pub trait StatementEmitter {
    fn emit_statement(
        &mut self,
        module: &mut Module,
        cursor: &mut Cursor,
        string_counter: &mut u64,
        stmt: &ASTNode,
        variables: &mut VariableEnv,
        loop_exit_stack: &mut Vec<usize>,
        loop_continue_stack: &mut Vec<usize>,
        function: usize,
    )
        requires
            function < old(module).functions@.len(),
            cursor_ok(*old(module), *old(cursor)),
            old(cursor).func == function,
        ensures
            final(module).functions@.len() == old(module).functions@.len(),
            forall|i: int|
                0 <= i < old(module).functions@.len() && i != function as int ==> final(module).functions@[i] == old(module).functions@[i],
            final(module).functions@[function as int].name@ == old(module).functions@[function as int].name@,
            final(module).functions@[function as int].sig.param_types@ == old(module).functions@[function as int].sig.param_types@,
            final(module).functions@[function as int].sig.ret == old(module).functions@[function as int].sig.ret,
            final(module).functions@[function as int].blocks@.len() >= old(module).functions@[function as int].blocks@.len(),
            forall|j: int|
                0 <= j < old(module).functions@[function as int].blocks@.len() ==> (#[trigger] final(module).functions@[function as int].blocks@[j]).label@ == old(module).functions@[function as int].blocks@[j].label@,
            forall|j: int|
                0 <= j < old(module).functions@[function as int].blocks@.len() ==> (#[trigger] old(module).functions@[function as int].blocks@[j]).instrs@.is_prefix_of(final(module).functions@[function as int].blocks@[j].instrs@),
            final(module).globals@.len() >= old(module).globals@.len(),
            forall|k: int|
                0 <= k < old(module).globals@.len() ==> final(module).globals@[k] == old(module).globals@[k],
            cursor_ok(*final(module), *final(cursor)),
            final(cursor).func == function;
}

/// A statement emitter that emits nothing: every statement is left
/// unlowered. It drives the core alone, where only signatures, parameter
/// slots and terminators matter.
pub struct NoOpEmitter;

impl StatementEmitter for NoOpEmitter {
    fn emit_statement(
        &mut self,
        module: &mut Module,
        cursor: &mut Cursor,
        string_counter: &mut u64,
        stmt: &ASTNode,
        variables: &mut VariableEnv,
        loop_exit_stack: &mut Vec<usize>,
        loop_continue_stack: &mut Vec<usize>,
        function: usize,
    ) {
    }
}

/// Lowers one function's body into `m.functions[func]`: entry block,
/// parameter slots, statement dispatch to the emitter, and — for a void
/// function — the implicit void return appended at the cursor after the
/// last statement.
#[verifier::loop_isolation(false)]
pub fn lower_function<E: StatementEmitter>(
    m: &mut Module,
    func: usize,
    decl: &FunctionNode,
    emitter: &mut E,
) -> (r: Result<(), LowerError>)
    requires
        func < old(m).functions@.len(),
        old(m).functions@[func as int].blocks@.len() == 0,
        old(m).functions@[func as int].next_reg == 0,
    ensures
        final(m).functions@.len() == old(m).functions@.len(),
        forall|i: int|
            0 <= i < old(m).functions@.len() && i != func as int ==> final(m).functions@[i]
                == old(m).functions@[i],
        final(m).functions@[func as int].name@ == old(m).functions@[func as int].name@,
        final(m).functions@[func as int].sig.param_types@ == old(m).functions@[func as int].sig.param_types@,
        final(m).functions@[func as int].sig.ret == old(m).functions@[func as int].sig.ret,
        final(m).globals@.len() >= old(m).globals@.len(),
        forall|k: int|
            0 <= k < old(m).globals@.len() ==> final(m).globals@[k] == old(m).globals@[k],
        match spec_lower_fault(*decl) {
            Some(e) => r == Err::<(), LowerError>(e),
            None => r == Ok::<(), LowerError>(()) && {
                &&& final(m).functions@[func as int].blocks@.len() >= 1
                &&& final(m).functions@[func as int].blocks@[0].label@ == "entry"@
                &&& final(m).functions@[func as int].blocks@[0].instrs@.len() >= 2
                    * decl.parameters@.len()
                &&& forall|t: int|
                    0 <= t < decl.parameters@.len() ==> spec_param_slot_instrs_ok(
                        decl.parameters@,
                        final(m).functions@[func as int].blocks@[0].instrs@,
                        t,
                    )
                &&& spec_params_globals_at(
                    decl.parameters@,
                    final(m).globals@,
                    old(m).globals@.len() as int,
                )
                &&& (decl.return_type is None ==> exists|b: int|
                    0 <= b < final(m).functions@[func as int].blocks@.len() && (#[trigger] final(m).functions@[func as int].blocks@[b]).instrs@.len() > 0 && final(m).functions@[func as int].blocks@[b].instrs@.last() == Instr::RetVoid)
                &&& (decl.body@.len() == 0 ==> {
                    let instrs = final(m).functions@[func as int].blocks@[0].instrs@;
                    let added = final(m).globals@.skip(old(m).globals@.len() as int);
                    &&& final(m).functions@[func as int].blocks@.len() == 1
                    &&& final(m).functions@[func as int].next_reg == decl.parameters@.len()
                    &&& final(m).globals@.len() == old(m).globals@.len() + spec_n_text_defaults(
                        decl.parameters@,
                        decl.parameters@.len() as int,
                    )
                    &&& (decl.return_type is Some ==> spec_params_instrs_ok(
                        decl.parameters@,
                        instrs,
                        added,
                    ))
                    &&& (decl.return_type is None ==> instrs.len() == 2 * decl.parameters@.len()
                        + 1 && instrs.last() == Instr::RetVoid && spec_params_instrs_ok(
                        decl.parameters@,
                        instrs.drop_last(),
                        added,
                    ) && spec_terminator_count(instrs) == 1)
                })
            },
        },
{
    let begun = begin_function(m, func, decl);
    let (cursor_start, env_start) = match begun {
        Ok(x) => x,
        Err(e) => {
            return Err(e);
        },
    };
    let mut cursor = cursor_start;
    let mut env = env_start;
    let mut string_counter: u64 = 0;
    let mut loop_exit_stack: Vec<usize> = Vec::new();
    let mut loop_continue_stack: Vec<usize> = Vec::new();
    let ghost m1 = *m;
    proof {
        let params = decl.parameters@;
        let entry0 = m.functions@[func as int].blocks@[0].instrs@;
        let added0 = m.globals@.skip(old(m).globals@.len() as int);
        assert forall|t: int|
            0 <= t < params.len() implies spec_param_slot_instrs_ok(params, entry0, t) by {
            assert(spec_param_slot_ok(params, entry0, added0, t));
        }
    }
    let n = decl.body.len();
    let mut i: usize = 0;
    while i < n
        invariant
            i <= n,
            n == decl.body@.len(),
            forall|j: int| 0 <= j < i ==> !((#[trigger] decl.body@[j]) is Function),
            func < m.functions@.len(),
            m.functions@.len() == m1.functions@.len(),
            forall|k: int|
                0 <= k < m1.functions@.len() && k != func as int ==> m.functions@[k]
                    == m1.functions@[k],
            m.functions@[func as int].name@ == m1.functions@[func as int].name@,
            m.functions@[func as int].sig.param_types@
                == m1.functions@[func as int].sig.param_types@,
            m.functions@[func as int].sig.ret == m1.functions@[func as int].sig.ret,
            m.functions@[func as int].blocks@.len() >= 1,
            m.functions@[func as int].blocks@[0].label@ == "entry"@,
            m.functions@[func as int].blocks@[0].instrs@.len() >= 2 * decl.parameters@.len(),
            forall|t: int|
                0 <= t < decl.parameters@.len() ==> spec_param_slot_instrs_ok(
                    decl.parameters@,
                    m.functions@[func as int].blocks@[0].instrs@,
                    t,
                ),
            m.globals@.len() >= m1.globals@.len(),
            forall|k: int| 0 <= k < m1.globals@.len() ==> m.globals@[k] == m1.globals@[k],
            spec_params_globals_at(decl.parameters@, m.globals@, old(m).globals@.len() as int),
            cursor_ok(*m, cursor),
            cursor.func == func,
            i == 0 ==> *m == m1 && cursor == cursor_start,
        decreases n - i,
    {
        match &decl.body[i] {
            ASTNode::Function(_) => {
                return Err(LowerError::UnsupportedTopLevelNode(decl.name.clone()));
            },
            _ => {
                let ghost m_pre = *m;
                emitter.emit_statement(
                    m,
                    &mut cursor,
                    &mut string_counter,
                    &decl.body[i],
                    &mut env,
                    &mut loop_exit_stack,
                    &mut loop_continue_stack,
                    func,
                );
                proof {
                    let params = decl.parameters@;
                    let entry_pre = m_pre.functions@[func as int].blocks@[0].instrs@;
                    let entry_now = m.functions@[func as int].blocks@[0].instrs@;
                    assert(entry_pre.is_prefix_of(entry_now));
                    assert(entry_pre == entry_now.subrange(0, entry_pre.len() as int));
                    assert forall|t: int|
                        0 <= t < params.len() implies spec_param_slot_instrs_ok(
                        params,
                        entry_now,
                        t,
                    ) by {
                        assert(spec_param_slot_instrs_ok(params, entry_pre, t));
                        lemma_param_slot_instrs_preserved(params, entry_pre, entry_now, t);
                    }
                    lemma_params_globals_at_preserved(
                        params,
                        m_pre.globals@,
                        m.globals@,
                        old(m).globals@.len() as int,
                    );
                }
            },
        }
        i = i + 1;
    }
    if decl.return_type.is_none() {
        let ghost entry_before = m.functions@[func as int].blocks@[0].instrs@;
        emit(m, cursor, Instr::RetVoid);
        proof {
            let params = decl.parameters@;
            let entry_now = m.functions@[func as int].blocks@[0].instrs@;
            assert(entry_before.is_prefix_of(entry_now)) by {
                if cursor.block == 0 {
                    assert(entry_now == entry_before.push(Instr::RetVoid));
                    assert(entry_before =~= entry_now.subrange(0, entry_before.len() as int));
                } else {
                    assert(entry_now == entry_before);
                    assert(entry_before =~= entry_now.subrange(0, entry_before.len() as int));
                }
            }
            assert forall|t: int|
                0 <= t < params.len() implies spec_param_slot_instrs_ok(params, entry_now, t) by {
                assert(spec_param_slot_instrs_ok(params, entry_before, t));
                lemma_param_slot_instrs_preserved(params, entry_before, entry_now, t);
            }
            if decl.body@.len() == 0 {
                assert(cursor == cursor_start);
                assert(entry_now == entry_before.push(Instr::RetVoid));
                assert(entry_now.drop_last() =~= entry_before);
                lemma_single_terminator(entry_now);
            }
        }
    }
    Ok(())
}

// ------------------------------------------------------------------
// The two-pass driver over a whole module
// ------------------------------------------------------------------

/// The first body-pass fault among the function declarations, in source
/// order.
pub open spec fn spec_bodies_fault(nodes: Seq<ASTNode>) -> Option<LowerError>
    decreases nodes.len(),
{
    if nodes.len() == 0 {
        None
    } else {
        match nodes[0] {
            ASTNode::Function(d) => match spec_lower_fault(d) {
                Some(e) => Some(e),
                None => spec_bodies_fault(nodes.drop_first()),
            },
            _ => spec_bodies_fault(nodes.drop_first()),
        }
    }
}

/// The fault lowering a whole module reports, if any: every signature is
/// declared before any body is lowered, so every signature-pass fault
/// precedes every body-pass fault.
pub open spec fn spec_generate_fault(nodes: Seq<ASTNode>) -> Option<LowerError> {
    match spec_signature_fault(nodes) {
        Some(e) => Some(e),
        None => spec_bodies_fault(nodes),
    }
}

/// The entry block of a lowered function whose body held no statements:
/// the parameter slots in order, and, for a void function, the implicit
/// void return as the block's one terminator.
pub open spec fn spec_entry_block_ok(decl: FunctionNode, instrs: Seq<Instr>) -> bool {
    let params = decl.parameters@;
    if decl.return_type is None {
        &&& instrs.len() == 2 * params.len() + 1
        &&& instrs.last() == Instr::RetVoid
        &&& spec_terminator_count(instrs) == 1
        &&& forall|i: int| 0 <= i < params.len() ==> spec_param_slot_instrs_ok(params, instrs, i)
    } else {
        &&& instrs.len() == 2 * params.len()
        &&& forall|i: int| 0 <= i < params.len() ==> spec_param_slot_instrs_ok(params, instrs, i)
    }
}

/// What the body pass guarantees of one lowered function: at least the
/// entry block, first and so named; a trailing void return somewhere for a
/// void function; and — where the body held no statements, so the emitter
/// never ran — the exact entry block.
pub open spec fn spec_function_lowered(f: IRFunction, decl: FunctionNode) -> bool {
    &&& f.blocks@.len() >= 1
    &&& f.blocks@[0].label@ == "entry"@
    &&& f.blocks@[0].instrs@.len() >= 2 * decl.parameters@.len()
    &&& forall|i: int|
        0 <= i < decl.parameters@.len() ==> spec_param_slot_instrs_ok(
            decl.parameters@,
            f.blocks@[0].instrs@,
            i,
        )
    &&& (decl.return_type is None ==> exists|b: int|
        0 <= b < f.blocks@.len() && (#[trigger] f.blocks@[b]).instrs@.len() > 0
            && f.blocks@[b].instrs@.last() == Instr::RetVoid)
    &&& (decl.body@.len() == 0 ==> spec_entry_block_ok(decl, f.blocks@[0].instrs@))
}

/// Somewhere in the module's global table stands the contiguous run of the
/// declaration's text-default backing globals, one per text default, in
/// declaration order, each named from its parameter and holding the
/// null-terminated text bytes.
pub open spec fn spec_fn_globals_present(globals: Seq<GlobalConst>, decl: FunctionNode) -> bool {
    exists|o: int| #[trigger] spec_params_globals_at(decl.parameters@, globals, o)
}

/// What lowering guarantees of the finished module: the declared
/// signatures, every function lowered against its declaration, and every
/// declaration's text-default backing globals present.
pub open spec fn spec_module_lowered(m: Module, nodes: Seq<ASTNode>) -> bool {
    let decls = spec_fn_decls(nodes);
    &&& spec_signatures_declared(m.functions@, decls)
    &&& forall|k: int|
        0 <= k < decls.len() ==> spec_function_lowered(#[trigger] m.functions@[k], decls[k])
    &&& forall|k: int|
        0 <= k < decls.len() ==> spec_fn_globals_present(m.globals@, #[trigger] decls[k])
}

/// A prefix of the nodes declares a prefix of the functions.
proof fn lemma_fn_decls_prefix(nodes: Seq<ASTNode>, i: int)
    requires
        0 <= i <= nodes.len(),
    ensures
        spec_fn_decls(nodes.take(i)).is_prefix_of(spec_fn_decls(nodes)),
    decreases nodes.len(),
{
    if i == nodes.len() {
        assert(nodes.take(i) =~= nodes);
        assert(spec_fn_decls(nodes).is_prefix_of(spec_fn_decls(nodes)));
    } else {
        assert(nodes.drop_last().take(i) =~= nodes.take(i));
        lemma_fn_decls_prefix(nodes.drop_last(), i);
        let rest = spec_fn_decls(nodes.drop_last());
        let pre = spec_fn_decls(nodes.take(i));
        assert(pre.is_prefix_of(rest));
        match nodes.last() {
            ASTNode::Function(d) => {
                assert(spec_fn_decls(nodes) == rest.push(d));
                assert(pre =~= rest.push(d).take(pre.len() as int));
            },
            _ => {
                assert(spec_fn_decls(nodes) == rest);
            },
        }
    }
}

/// A body-pass fault in the remainder is the fault of the whole module once
/// the statement-free prefix is passed.
proof fn lemma_bodies_fault_skip_step(nodes: Seq<ASTNode>, i: int)
    requires
        0 <= i < nodes.len(),
        nodes[i] matches ASTNode::Function(d) ==> spec_lower_fault(d) is None,
    ensures
        spec_bodies_fault(nodes.skip(i)) == spec_bodies_fault(nodes.skip(i + 1)),
{
    assert(nodes.skip(i)[0] == nodes[i]);
    assert(nodes.skip(i).drop_first() =~= nodes.skip(i + 1));
}

/// Lowers a whole module: pass one declares every signature, pass two
/// lowers every body in source order, dispatching statements to the given
/// emitter. Returns the finished module, or the first fault.
#[verifier::loop_isolation(false)]
#[verifier::rlimit(30)]
pub fn lower_module<E: StatementEmitter>(ast_nodes: &Vec<ASTNode>, emitter: &mut E) -> (r: Result<
    Module,
    LowerError,
>)
    ensures
        match spec_generate_fault(ast_nodes@) {
            Some(e) => r == Err::<Module, LowerError>(e),
            None => r matches Ok(m) && spec_module_lowered(m, ast_nodes@),
        },
{
    let mut m = match declare_signatures(ast_nodes) {
        Ok(m) => m,
        Err(e) => {
            return Err(e);
        },
    };
    let ghost decls = spec_fn_decls(ast_nodes@);
    let n = ast_nodes.len();
    let mut i: usize = 0;
    let mut j: usize = 0;
    proof {
        assert(ast_nodes@.take(0) =~= Seq::<ASTNode>::empty());
        assert(ast_nodes@.skip(0) =~= ast_nodes@);
    }
    while i < n
        invariant
            i <= n,
            n == ast_nodes@.len(),
            j as int == spec_fn_decls(ast_nodes@.take(i as int)).len(),
            j <= m.functions@.len(),
            m.functions@.len() == decls.len(),
            spec_signatures_declared(m.functions@, decls),
            spec_bodies_fault(ast_nodes@) == spec_bodies_fault(ast_nodes@.skip(i as int)),
            forall|k: int|
                j <= k < m.functions@.len() ==> (#[trigger] m.functions@[k]).blocks@.len() == 0
                    && m.functions@[k].next_reg == 0,
            forall|k: int|
                0 <= k < j ==> spec_function_lowered(#[trigger] m.functions@[k], decls[k]),
            forall|k: int|
                0 <= k < j ==> spec_fn_globals_present(m.globals@, #[trigger] decls[k]),
        decreases n - i,
    {
        let ghost prefix = ast_nodes@.take(i as int);
        let ghost prefix1 = ast_nodes@.take(i as int + 1);
        proof {
            assert(prefix1.drop_last() =~= prefix);
            assert(prefix1.last() == ast_nodes@[i as int]);
            lemma_fn_decls_prefix(ast_nodes@, i as int);
        }
        match &ast_nodes[i] {
            ASTNode::Function(decl) => {
                proof {
                    assert(spec_fn_decls(prefix1) == spec_fn_decls(prefix).push(*decl));
                    lemma_fn_decls_prefix(ast_nodes@, i as int + 1);
                    assert(spec_fn_decls(prefix1)[j as int] == *decl);
                    assert(decls[j as int] == *decl);
                }
                proof {
                    assert(spec_fn_decls(prefix1).len() <= decls.len());
                    assert(j < decls.len());
                }
                let ghost m_before = m;
                match lower_function(&mut m, j, decl, emitter) {
                    Ok(()) => {},
                    Err(e) => {
                        proof {
                            assert(ast_nodes@.skip(i as int)[0] == ast_nodes@[i as int]);
                            assert(spec_bodies_fault(ast_nodes@.skip(i as int)) == Some(e));
                        }
                        return Err(e);
                    },
                }
                proof {
                    lemma_bodies_fault_skip_step(ast_nodes@, i as int);
                    if decl.body@.len() == 0 {
                        let instrs = m.functions@[j as int].blocks@[0].instrs@;
                        if decl.return_type is None {
                            assert(spec_params_instrs_ok(
                                decl.parameters@,
                                instrs.drop_last(),
                                m.globals@.skip(m_before.globals@.len() as int),
                            ));
                        }
                        assert(spec_entry_block_ok(*decl, instrs));
                    }
                    assert(spec_function_lowered(m.functions@[j as int], decls[j as int]));
                    assert(spec_params_globals_at(
                        decl.parameters@,
                        m.globals@,
                        m_before.globals@.len() as int,
                    ));
                    assert(spec_fn_globals_present(m.globals@, decls[j as int]));
                    assert forall|k: int| 0 <= k < j implies spec_function_lowered(
                        #[trigger] m.functions@[k],
                        decls[k],
                    ) by {
                        assert(m.functions@[k] == m_before.functions@[k]);
                    }
                    assert forall|k: int| 0 <= k < j implies spec_fn_globals_present(
                        m.globals@,
                        #[trigger] decls[k],
                    ) by {
                        let o = choose|o: int|
                            spec_params_globals_at(decls[k].parameters@, m_before.globals@, o);
                        lemma_params_globals_at_preserved(
                            decls[k].parameters@,
                            m_before.globals@,
                            m.globals@,
                            o,
                        );
                    }
                }
                let nfuncs = m.functions.len();
                assert(j < nfuncs);
                j = j + 1;
            },
            _ => {
                proof {
                    assert(spec_fn_decls(prefix1) == spec_fn_decls(prefix));
                    lemma_bodies_fault_skip_step(ast_nodes@, i as int);
                }
            },
        }
        i = i + 1;
    }
    proof {
        assert(ast_nodes@.take(n as int) =~= ast_nodes@);
        assert(ast_nodes@.skip(n as int).len() == 0);
    }
    Ok(m)
}

/// Lowers a whole module and finalizes it to text, invoking the module
/// serialization once after all functions are lowered. Returns the textual
/// IR, or the first fault, which aborts lowering with no partial output.
pub fn generate_ir<E: StatementEmitter>(ast_nodes: &Vec<ASTNode>, emitter: &mut E) -> (r: Result<
    String,
    LowerError,
>)
    ensures
        match spec_generate_fault(ast_nodes@) {
            Some(e) => r == Err::<String, LowerError>(e),
            None => r matches Ok(text) && exists|m: Module|
                #![trigger spec_module_text(m)]
                spec_module_lowered(m, ast_nodes@) && text@ == spec_module_text(m),
        },
{
    match lower_module(ast_nodes, emitter) {
        Ok(m) => {
            let text = m.to_text();
            proof {
                if spec_generate_fault(ast_nodes@) is None {
                    assert(spec_module_lowered(m, ast_nodes@) && text@ == spec_module_text(m));
                }
            }
            Ok(text)
        },
        Err(e) => Err(e),
    }
}

// ------------------------------------------------------------------
// Laws
// ------------------------------------------------------------------

/// Law: default-value precedence. A declared default literal wins: the
/// slot's initial value is the literal as a typed constant (for a text
/// default, the address of its backing global), never the caller's
/// argument; without a default it is the positional caller argument; and a
/// default of the wrong kind for its slot is the named fault of that
/// parameter, not a silent fallback.
pub proof fn lemma_default_value_precedence(p: Parameter, op: Operand, i: int)
    requires
        spec_init_operand_ok(op, p, i),
    ensures
        p.initial_value is Some ==> !(op is Param),
        p.initial_value is None ==> (op matches Operand::Param { index } && index == i),
        (p.initial_value matches Some(Value::Text(_)) && spec_map_wave_type(p.param_type)
            matches Ok(IRType::Int(_))) ==> spec_param_fault(p) == Some(
            LowerError::DefaultValueTypeMismatch(p.name),
        ),
{
}

/// Every Function node's declaration stands among the collected
/// declarations.
proof fn lemma_fn_decl_present(nodes: Seq<ASTNode>, i: int)
    requires
        0 <= i < nodes.len(),
        nodes[i] is Function,
    ensures
        exists|k: int|
            0 <= k < spec_fn_decls(nodes).len() && #[trigger] spec_fn_decls(nodes)[k]
                == nodes[i]->Function_0,
    decreases nodes.len(),
{
    let decls = spec_fn_decls(nodes);
    let rest = spec_fn_decls(nodes.drop_last());
    if i == nodes.len() - 1 {
        assert(decls[decls.len() - 1] == nodes[i]->Function_0);
    } else {
        assert(nodes.drop_last()[i] == nodes[i]);
        lemma_fn_decl_present(nodes.drop_last(), i);
        let k = choose|k: int|
            0 <= k < rest.len() && #[trigger] rest[k] == nodes.drop_last()[i]->Function_0;
        assert(decls[k] == nodes[i]->Function_0);
    }
}

/// A name that stands in the table is found.
proof fn lemma_find_function_some(fns: Seq<IRFunction>, name: Seq<char>)
    requires
        exists|k: int| 0 <= k < fns.len() && (#[trigger] fns[k]).name@ == name,
    ensures
        spec_find_function(fns, name) is Some,
    decreases fns.len(),
{
    if fns[0].name@ != name {
        let k = choose|k: int| 0 <= k < fns.len() && (#[trigger] fns[k]).name@ == name;
        assert(fns.drop_first()[k - 1] == fns[k]);
        lemma_find_function_some(fns.drop_first(), name);
    }
}

/// Law: the signature pass precedes the body pass. Once the signatures are
/// declared, every function declared anywhere in the input — later in the
/// source included — is found in the table, so a body lowered in pass two
/// resolves a call to a function declared after it.
pub proof fn lemma_signature_pass_complete(nodes: Seq<ASTNode>, m: Module, i: int)
    requires
        spec_signatures_declared(m.functions@, spec_fn_decls(nodes)),
        0 <= i < nodes.len(),
        nodes[i] is Function,
    ensures
        spec_find_function(m.functions@, nodes[i]->Function_0.name@) is Some,
{
    lemma_fn_decl_present(nodes, i);
    let decls = spec_fn_decls(nodes);
    let k = choose|k: int| 0 <= k < decls.len() && #[trigger] decls[k] == nodes[i]->Function_0;
    assert(m.functions@[k].name@ == nodes[i]->Function_0.name@);
    lemma_find_function_some(m.functions@, nodes[i]->Function_0.name@);
}

/// Law: the backing global of a text default is named from the parameter
/// name alone, injectively: parameters with distinct names own distinct
/// globals, identical default texts or not.
pub proof fn lemma_param_global_names_distinct(a: Seq<char>, b: Seq<char>)
    requires
        a != b,
    ensures
        spec_param_global_name(a) != spec_param_global_name(b),
{
    let p = "param_str_"@;
    if spec_param_global_name(a) == spec_param_global_name(b) {
        assert((p + a).len() == p.len() + a.len());
        assert((p + b).len() == p.len() + b.len());
        assert(a.len() == b.len());
        assert forall|k: int| 0 <= k < a.len() implies a[k] == b[k] by {
            assert((p + a)[p.len() + k] == a[k]);
            assert((p + b)[p.len() + k] == b[k]);
        }
        assert(a =~= b);
    }
}

/// If the first faulting parameter type is at position `i`, the whole list
/// faults with that parameter's fault.
proof fn lemma_param_types_fault(params: Seq<Parameter>, i: int)
    requires
        0 <= i < params.len(),
        spec_param_types(params.take(i)) is Ok,
        spec_map_wave_type(params[i].param_type) is Err,
    ensures
        spec_param_types(params) == Err::<Seq<IRType>, LowerError>(
            spec_map_wave_type(params[i].param_type)->Err_0,
        ),
    decreases params.len(),
{
    if params.len() == i + 1 {
        assert(params.drop_last() =~= params.take(i));
        assert(params.last() == params[i]);
    } else {
        assert(params.drop_last().take(i) =~= params.take(i));
        assert(params.drop_last()[i] == params[i]);
        lemma_param_types_fault(params.drop_last(), i);
    }
}

} // verus!
