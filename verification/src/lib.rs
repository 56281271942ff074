//! Function-level lowering stage of a small compiler.
//!
//! The crate consumes a statically typed abstract syntax tree of top-level
//! function declarations and produces a typed, basic-block-structured
//! intermediate representation (IR) module, finalized to text for a
//! downstream native-code backend.
//!
//! Lowering runs in two passes: a signature pass that pre-declares every
//! function's IR signature (so forward and mutually recursive calls resolve),
//! and a body pass that opens an entry block per function, materializes one
//! stack slot per parameter (initialized from a declared default literal or
//! from the caller's positional argument), and delegates body statements to a
//! statement emitter supplied by the caller.

pub mod ast;
pub mod format;
pub mod codegen;
pub mod env;
pub mod ir;
pub mod resolve;
pub mod text;
pub mod types;

pub use ast::{ASTNode, Expression, FunctionNode, Parameter, StatementNode, Value, VariableNode};
pub use codegen::{
    begin_function, declare_signatures, find_function, generate_ir, lower_function, lower_module,
    NoOpEmitter, StatementEmitter,
};
pub use env::{Mutability, VariableEnv, VariableInfo};
pub use format::wave_format_to_c;
pub use ir::{
    create_alloc, Block, Cursor, GlobalConst, IRFunction, Instr, Module, Operand, Signature,
};
pub use resolve::generate_address_ir;
pub use types::{get_llvm_type, wave_type_to_llvm_type, IRType, LowerError, TokenType, WaveType};
