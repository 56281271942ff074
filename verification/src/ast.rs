//! The abstract syntax tree the lowering stage consumes.
//!
//! The parser hands the lowering driver an ordered sequence of top-level
//! nodes, already name-annotated and type-annotated. The driver reads
//! function declarations; variable declarations and statements inside a
//! body are delegated to the statement emitter.

use vstd::prelude::*;
use crate::env::Mutability;
use crate::types::WaveType;

verus! {

/// A literal default value of a parameter: an integer, a float, or text —
/// never an expression. The float literal is carried as the IEEE-754 bit
/// pattern of its 64-bit value, so the lowering stage never computes on it.
#[derive(Debug, Clone, PartialEq, Eq)]
pub enum Value {
    Int(i64),
    /// IEEE-754 bit pattern of a 64-bit floating-point literal.
    Float(u64),
    Text(String),
}

/// An expression, as far as this stage reads one: only lvalue shapes are
/// inspected (a bare variable, a dereference); everything else is carried
/// through to the statement emitter.
#[derive(Debug, PartialEq, Eq)]
pub enum Expression {
    /// A reference to a declared name.
    Variable(String),
    /// A single-level pointer dereference.
    Deref(Box<Expression>),
    /// A literal value; not addressable.
    Literal(Value),
}

/// One declared parameter: a unique name within its function, a declared
/// surface type, and an optional default literal.
#[derive(Debug, PartialEq, Eq)]
pub struct Parameter {
    pub name: String,
    pub param_type: WaveType,
    pub initial_value: Option<Value>,
}

/// A statement inside a function body. The lowering driver never looks
/// inside one; the statement emitter does.
#[derive(Debug, PartialEq, Eq)]
pub enum StatementNode {
    /// An expression evaluated for its effect.
    Expression(Expression),
    /// A formatted print of interpolated arguments.
    Println { format: String, args: Vec<Expression> },
    /// A return, with or without a value.
    Return(Option<Expression>),
}

/// A local variable declaration inside a function body; lowered by the
/// statement emitter, not by the driver.
#[derive(Debug, PartialEq, Eq)]
pub struct VariableNode {
    pub name: String,
    pub var_type: WaveType,
    pub initializer: Option<Expression>,
    pub mutability: Mutability,
}

/// A top-level function declaration: a module-unique name, the ordered
/// parameter list, an optional return type (absent means void), and the
/// ordered statement body.
#[derive(Debug, PartialEq, Eq)]
pub struct FunctionNode {
    pub name: String,
    pub parameters: Vec<Parameter>,
    pub return_type: Option<WaveType>,
    pub body: Vec<ASTNode>,
}

/// A node of the abstract syntax tree. At module top level only `Function`
/// nodes are read; inside a body, `Variable` and `Statement` nodes are the
/// recognized statement forms.
#[derive(Debug, PartialEq, Eq)]
pub enum ASTNode {
    Function(FunctionNode),
    Variable(VariableNode),
    Statement(StatementNode),
}

} // verus!
