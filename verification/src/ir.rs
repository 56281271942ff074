//! The IR module under construction: functions, basic blocks, instructions,
//! global constants, and the insertion cursor.
//!
//! The module is append-only while lowering runs: blocks and instructions
//! are appended at the cursor, globals at the module's end. Registers are
//! numbered per function; every instruction that produces a value takes the
//! function's next free register.

use vstd::prelude::*;
use crate::types::IRType;

verus! {

/// A value an instruction consumes: a register, a typed constant, the
/// address of a global, or a positional caller argument.
#[derive(Debug, PartialEq, Eq)]
pub enum Operand {
    /// The value a register holds.
    Reg(usize),
    /// An integer constant of the given bit width.
    ConstInt { width: u32, value: i64 },
    /// A floating-point constant of the given bit width, carried as the
    /// IEEE-754 bit pattern of its 64-bit value.
    ConstFloat { width: u32, bits: u64 },
    /// The address of the first element of the named global constant.
    GlobalAddr { name: String },
    /// The caller-supplied argument at the given position.
    Param { index: usize },
}

/// One IR instruction.
#[derive(Debug, PartialEq, Eq)]
pub enum Instr {
    /// Allocates a stack slot of the given type for the lifetime of the
    /// enclosing activation; `dest` receives the slot's address. The name
    /// is the declared name the slot stands for.
    Alloca { dest: usize, ty: IRType, name: String },
    /// Stores the operand's value through the address in register `ptr`.
    Store { ptr: usize, value: Operand },
    /// Loads the value behind the address in register `ptr` into `dest`.
    Load { dest: usize, ptr: usize, name: String },
    /// Returns from a void function; a block terminator.
    RetVoid,
}

/// Whether an instruction transfers control (a terminator). A well-formed
/// block ends in exactly one.
pub open spec fn is_terminator(i: Instr) -> bool {
    i is RetVoid
}

/// A read-only global constant: a null-terminated byte array.
#[derive(Debug, PartialEq, Eq)]
pub struct GlobalConst {
    pub name: String,
    pub bytes: Vec<u8>,
}

/// A basic block: a label and the instructions appended to it so far.
#[derive(Debug, PartialEq, Eq)]
pub struct Block {
    pub label: String,
    pub instrs: Vec<Instr>,
}

/// A function's IR signature: the mapped parameter types and the mapped
/// return type, or `None` for void.
#[derive(Debug, PartialEq, Eq)]
pub struct Signature {
    pub param_types: Vec<IRType>,
    pub ret: Option<IRType>,
}

/// A function in the module: its name and signature from the signature
/// pass, the blocks the body pass appends, and the next free register.
#[derive(Debug, PartialEq, Eq)]
pub struct IRFunction {
    pub name: String,
    pub sig: Signature,
    pub blocks: Vec<Block>,
    pub next_reg: usize,
}

/// The module being lowered: global constants and functions, both
/// append-only during lowering, finalized to text at the end.
#[derive(Debug, PartialEq, Eq)]
pub struct Module {
    pub globals: Vec<GlobalConst>,
    pub functions: Vec<IRFunction>,
}

/// The insertion cursor: the block (within its function) where the next
/// instruction is appended.
#[derive(Debug, Clone, Copy, PartialEq, Eq)]
pub struct Cursor {
    pub func: usize,
    pub block: usize,
}

/// The cursor points at a block that exists in the module.
pub open spec fn cursor_ok(m: Module, c: Cursor) -> bool {
    &&& c.func < m.functions@.len()
    &&& c.block < m.functions@[c.func as int].blocks@.len()
}

impl Module {
    /// An empty module.
    pub fn new() -> (r: Module)
        ensures
            r.globals@ == Seq::<GlobalConst>::empty(),
            r.functions@ == Seq::<IRFunction>::empty(),
    {
        Module { globals: Vec::new(), functions: Vec::new() }
    }
}

/// Appends a new, empty basic block to the function and returns its index.
pub fn append_basic_block(m: &mut Module, func: usize, label: String) -> (r: usize)
    requires
        func < old(m).functions@.len(),
    ensures
        final(m).globals == old(m).globals,
        final(m).functions@.len() == old(m).functions@.len(),
        forall|i: int|
            0 <= i < old(m).functions@.len() && i != func as int ==> final(m).functions@[i]
                == old(m).functions@[i],
        final(m).functions@[func as int].name == old(m).functions@[func as int].name,
        final(m).functions@[func as int].sig == old(m).functions@[func as int].sig,
        final(m).functions@[func as int].next_reg == old(m).functions@[func as int].next_reg,
        final(m).functions@[func as int].blocks@.len() == old(m).functions@[func as int].blocks@.len()
            + 1,
        forall|j: int|
            0 <= j < old(m).functions@[func as int].blocks@.len() ==> final(m).functions@[func as int].blocks@[j] == old(m).functions@[func as int].blocks@[j],
        final(m).functions@[func as int].blocks@.last().label == label,
        final(m).functions@[func as int].blocks@.last().instrs@ == Seq::<Instr>::empty(),
        r == old(m).functions@[func as int].blocks@.len(),
{
    let r = m.functions[func].blocks.len();
    m.functions[func].blocks.push(Block { label, instrs: Vec::new() });
    r
}

/// Appends one instruction at the cursor.
pub fn emit(m: &mut Module, cur: Cursor, instr: Instr)
    requires
        cursor_ok(*old(m), cur),
    ensures
        final(m).globals == old(m).globals,
        final(m).functions@.len() == old(m).functions@.len(),
        forall|i: int|
            0 <= i < old(m).functions@.len() && i != cur.func as int ==> final(m).functions@[i]
                == old(m).functions@[i],
        final(m).functions@[cur.func as int].name == old(m).functions@[cur.func as int].name,
        final(m).functions@[cur.func as int].sig == old(m).functions@[cur.func as int].sig,
        final(m).functions@[cur.func as int].next_reg == old(m).functions@[cur.func as int].next_reg,
        final(m).functions@[cur.func as int].blocks@.len() == old(m).functions@[cur.func as int].blocks@.len(),
        forall|j: int|
            0 <= j < old(m).functions@[cur.func as int].blocks@.len() && j != cur.block as int
                ==> final(m).functions@[cur.func as int].blocks@[j] == old(m).functions@[cur.func as int].blocks@[j],
        final(m).functions@[cur.func as int].blocks@[cur.block as int].label == old(m).functions@[cur.func as int].blocks@[cur.block as int].label,
        final(m).functions@[cur.func as int].blocks@[cur.block as int].instrs@ == old(m).functions@[cur.func as int].blocks@[cur.block as int].instrs@.push(instr),
{
    m.functions[cur.func].blocks[cur.block].instrs.push(instr);
}

/// Takes the function's next free register.
pub fn fresh_reg(m: &mut Module, func: usize) -> (r: usize)
    requires
        func < old(m).functions@.len(),
        old(m).functions@[func as int].next_reg < usize::MAX,
    ensures
        final(m).globals == old(m).globals,
        final(m).functions@.len() == old(m).functions@.len(),
        forall|i: int|
            0 <= i < old(m).functions@.len() && i != func as int ==> final(m).functions@[i]
                == old(m).functions@[i],
        final(m).functions@[func as int].name == old(m).functions@[func as int].name,
        final(m).functions@[func as int].sig == old(m).functions@[func as int].sig,
        final(m).functions@[func as int].blocks == old(m).functions@[func as int].blocks,
        final(m).functions@[func as int].next_reg == old(m).functions@[func as int].next_reg + 1,
        r == old(m).functions@[func as int].next_reg,
{
    let r = m.functions[func].next_reg;
    m.functions[func].next_reg = r + 1;
    r
}

/// Appends a global constant to the module.
pub fn add_global(m: &mut Module, g: GlobalConst)
    ensures
        final(m).functions == old(m).functions,
        final(m).globals@ == old(m).globals@.push(g),
{
    m.globals.push(g);
}

/// Allocates one 32-bit integer stack slot at the cursor under the given
/// name and returns the register holding the slot's address.
pub fn create_alloc(m: &mut Module, cur: Cursor, name: String) -> (r: usize)
    requires
        cursor_ok(*old(m), cur),
        old(m).functions@[cur.func as int].next_reg < usize::MAX,
    ensures
        final(m).globals == old(m).globals,
        final(m).functions@.len() == old(m).functions@.len(),
        forall|i: int|
            0 <= i < old(m).functions@.len() && i != cur.func as int ==> final(m).functions@[i]
                == old(m).functions@[i],
        final(m).functions@[cur.func as int].name == old(m).functions@[cur.func as int].name,
        final(m).functions@[cur.func as int].sig == old(m).functions@[cur.func as int].sig,
        final(m).functions@[cur.func as int].next_reg == old(m).functions@[cur.func as int].next_reg
            + 1,
        r == old(m).functions@[cur.func as int].next_reg,
        final(m).functions@[cur.func as int].blocks@.len() == old(m).functions@[cur.func as int].blocks@.len(),
        forall|j: int|
            0 <= j < old(m).functions@[cur.func as int].blocks@.len() && j != cur.block as int
                ==> final(m).functions@[cur.func as int].blocks@[j] == old(m).functions@[cur.func as int].blocks@[j],
        final(m).functions@[cur.func as int].blocks@[cur.block as int].label == old(m).functions@[cur.func as int].blocks@[cur.block as int].label,
        final(m).functions@[cur.func as int].blocks@[cur.block as int].instrs@ == old(m).functions@[cur.func as int].blocks@[cur.block as int].instrs@.push(
            Instr::Alloca { dest: old(m).functions@[cur.func as int].next_reg, ty: IRType::Int(32), name },
        ),
{
    let dest = fresh_reg(m, cur.func);
    emit(m, cur, Instr::Alloca { dest, ty: IRType::Int(32), name });
    dest
}

} // verus!
