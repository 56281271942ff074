//! Surface types, IR types, and the type mapper.
//!
//! The mapper converts a surface type descriptor into the corresponding IR
//! type: integers keep their bit width (sign is not encoded in the IR type),
//! booleans become 1-bit integers, bytes and characters 8-bit integers, text
//! a pointer to 8-bit integers, and pointers and arrays map recursively.

use vstd::prelude::*;

verus! {

/// A surface (source-language) type descriptor, as the parser annotates it.
#[derive(Debug, PartialEq, Eq)]
pub enum WaveType {
    /// Signed integer of the given bit width.
    Int(u32),
    /// Unsigned integer of the given bit width.
    Uint(u32),
    /// Floating-point number of the given bit width (only 32 and 64 lower).
    Float(u32),
    Bool,
    Char,
    Byte,
    /// Text; lowers to a pointer to 8-bit integers.
    String,
    /// Pointer to the inner type.
    Pointer(Box<WaveType>),
    /// Fixed-length array of the inner type.
    Array(Box<WaveType>, u32),
}

/// A type-descriptor token as the tokenizer produces it, before the parser
/// folds it into a surface type.
#[derive(Debug, PartialEq, Eq)]
pub enum TokenType {
    TypeInt(u32),
    TypeUint(u32),
    TypeFloat(u32),
    TypeBool,
    TypeChar,
    TypeByte,
    TypePointer(Box<TokenType>),
    TypeArray(Box<TokenType>, u32),
    TypeString,
}

/// A type of the target IR: fixed-width integers, floats, explicit pointer
/// levels, and fixed-length arrays. Recursive, mirroring the finite surface
/// type tree; no cycles are possible.
#[derive(Debug, PartialEq, Eq)]
pub enum IRType {
    /// Integer of the given bit width (1-bit integers stand for booleans).
    Int(u32),
    /// Float of the given bit width.
    Float(u32),
    /// Pointer to the inner type.
    Pointer(Box<IRType>),
    /// Array of the inner type with the given length.
    Array(Box<IRType>, u32),
}

/// An unrecoverable compiler-internal fault. Lowering of the module aborts
/// on the first fault; no partial IR is valid output. Each variant carries
/// the function, parameter or variable name (or the offending width) so a
/// diagnostics layer upstream can present it.
#[derive(Debug, Clone, PartialEq, Eq)]
pub enum LowerError {
    /// Two function declarations share a name.
    DuplicateFunction(String),
    /// A function's return type is not an integer, float or pointer kind.
    UnsupportedReturnType(String),
    /// A floating-point surface type has a width the IR does not support.
    UnsupportedWidth(u32),
    /// A parameter's default literal kind does not fit its slot's IR type.
    DefaultValueTypeMismatch(String),
    /// A node other than a variable declaration or statement stands at
    /// function-body top level.
    UnsupportedTopLevelNode(String),
    /// An address was requested for a name with no binding.
    UndefinedVariable(String),
    /// A dereference of anything but a bare variable.
    UnsupportedNestedDeref,
    /// An address was requested for an expression that is not lvalue-shaped.
    NotAnAddressableExpression,
}

/// What the type mapper returns for a surface type: its IR type, or the
/// fault for an unsupported floating-point width.
pub open spec fn spec_map_wave_type(t: WaveType) -> Result<IRType, LowerError>
    decreases t,
{
    match t {
        WaveType::Int(bits) => Ok(IRType::Int(bits)),
        WaveType::Uint(bits) => Ok(IRType::Int(bits)),
        WaveType::Float(bits) => if bits == 32 || bits == 64 {
            Ok(IRType::Float(bits))
        } else {
            Err(LowerError::UnsupportedWidth(bits))
        },
        WaveType::Bool => Ok(IRType::Int(1)),
        WaveType::Char => Ok(IRType::Int(8)),
        WaveType::Byte => Ok(IRType::Int(8)),
        WaveType::String => Ok(IRType::Pointer(Box::new(IRType::Int(8)))),
        WaveType::Pointer(inner) => match spec_map_wave_type(*inner) {
            Ok(ty) => Ok(IRType::Pointer(Box::new(ty))),
            Err(e) => Err(e),
        },
        WaveType::Array(inner, size) => match spec_map_wave_type(*inner) {
            Ok(ty) => Ok(IRType::Array(Box::new(ty), size)),
            Err(e) => Err(e),
        },
    }
}

/// A surface type is supported when every floating-point width in it is
/// 32 or 64.
pub open spec fn wave_type_supported(t: WaveType) -> bool
    decreases t,
{
    match t {
        WaveType::Float(bits) => bits == 32 || bits == 64,
        WaveType::Pointer(inner) => wave_type_supported(*inner),
        WaveType::Array(inner, _) => wave_type_supported(*inner),
        _ => true,
    }
}

/// Maps a surface type to its IR type. Total and pure over the supported
/// surface types; an unsupported floating-point width is the one fault.
pub fn wave_type_to_llvm_type(wave_type: &WaveType) -> (r: Result<IRType, LowerError>)
    ensures
        r == spec_map_wave_type(*wave_type),
    decreases *wave_type,
{
    match wave_type {
        WaveType::Int(bits) => Ok(IRType::Int(*bits)),
        WaveType::Uint(bits) => Ok(IRType::Int(*bits)),
        WaveType::Float(bits) => if *bits == 32 || *bits == 64 {
            Ok(IRType::Float(*bits))
        } else {
            Err(LowerError::UnsupportedWidth(*bits))
        },
        WaveType::Bool => Ok(IRType::Int(1)),
        WaveType::Char => Ok(IRType::Int(8)),
        WaveType::Byte => Ok(IRType::Int(8)),
        WaveType::String => Ok(IRType::Pointer(Box::new(IRType::Int(8)))),
        WaveType::Pointer(inner) => match wave_type_to_llvm_type(inner) {
            Ok(ty) => Ok(IRType::Pointer(Box::new(ty))),
            Err(e) => Err(e),
        },
        WaveType::Array(inner, size) => match wave_type_to_llvm_type(inner) {
            Ok(ty) => Ok(IRType::Array(Box::new(ty), *size)),
            Err(e) => Err(e),
        },
    }
}

/// What the token-level mapper returns: the same mapping as the surface
/// mapper, kind for kind (see `lemma_token_mapping_agrees`).
pub open spec fn spec_map_token_type(t: TokenType) -> Result<IRType, LowerError>
    decreases t,
{
    match t {
        TokenType::TypeInt(bits) => Ok(IRType::Int(bits)),
        TokenType::TypeUint(bits) => Ok(IRType::Int(bits)),
        TokenType::TypeFloat(bits) => if bits == 32 || bits == 64 {
            Ok(IRType::Float(bits))
        } else {
            Err(LowerError::UnsupportedWidth(bits))
        },
        TokenType::TypeBool => Ok(IRType::Int(1)),
        TokenType::TypeChar => Ok(IRType::Int(8)),
        TokenType::TypeByte => Ok(IRType::Int(8)),
        TokenType::TypeString => Ok(IRType::Pointer(Box::new(IRType::Int(8)))),
        TokenType::TypePointer(inner) => match spec_map_token_type(*inner) {
            Ok(ty) => Ok(IRType::Pointer(Box::new(ty))),
            Err(e) => Err(e),
        },
        TokenType::TypeArray(inner, size) => match spec_map_token_type(*inner) {
            Ok(ty) => Ok(IRType::Array(Box::new(ty), size)),
            Err(e) => Err(e),
        },
    }
}

/// Maps a type-descriptor token to its IR type.
pub fn get_llvm_type(ty: &TokenType) -> (r: Result<IRType, LowerError>)
    ensures
        r == spec_map_token_type(*ty),
    decreases *ty,
{
    match ty {
        TokenType::TypeInt(bits) => Ok(IRType::Int(*bits)),
        TokenType::TypeUint(bits) => Ok(IRType::Int(*bits)),
        TokenType::TypeFloat(bits) => if *bits == 32 || *bits == 64 {
            Ok(IRType::Float(*bits))
        } else {
            Err(LowerError::UnsupportedWidth(*bits))
        },
        TokenType::TypeBool => Ok(IRType::Int(1)),
        TokenType::TypeChar => Ok(IRType::Int(8)),
        TokenType::TypeByte => Ok(IRType::Int(8)),
        TokenType::TypeString => Ok(IRType::Pointer(Box::new(IRType::Int(8)))),
        TokenType::TypePointer(inner) => match get_llvm_type(inner) {
            Ok(ty) => Ok(IRType::Pointer(Box::new(ty))),
            Err(e) => Err(e),
        },
        TokenType::TypeArray(inner, size) => match get_llvm_type(inner) {
            Ok(ty) => Ok(IRType::Array(Box::new(ty), *size)),
            Err(e) => Err(e),
        },
    }
}

/// The surface type a type-descriptor token denotes, kind for kind.
pub open spec fn spec_token_surface_type(t: TokenType) -> WaveType
    decreases t,
{
    match t {
        TokenType::TypeInt(bits) => WaveType::Int(bits),
        TokenType::TypeUint(bits) => WaveType::Uint(bits),
        TokenType::TypeFloat(bits) => WaveType::Float(bits),
        TokenType::TypeBool => WaveType::Bool,
        TokenType::TypeChar => WaveType::Char,
        TokenType::TypeByte => WaveType::Byte,
        TokenType::TypeString => WaveType::String,
        TokenType::TypePointer(inner) => WaveType::Pointer(
            Box::new(spec_token_surface_type(*inner)),
        ),
        TokenType::TypeArray(inner, size) => WaveType::Array(
            Box::new(spec_token_surface_type(*inner)),
            size,
        ),
    }
}

/// Law: the two mappers agree: a type-descriptor token maps exactly as the
/// surface type it denotes, on every kind, faults included.
pub proof fn lemma_token_mapping_agrees(t: TokenType)
    ensures
        spec_map_token_type(t) == spec_map_wave_type(spec_token_surface_type(t)),
    decreases t,
{
    match t {
        TokenType::TypePointer(inner) => lemma_token_mapping_agrees(*inner),
        TokenType::TypeArray(inner, _) => lemma_token_mapping_agrees(*inner),
        _ => (),
    }
}

/// Law: type mapping is total on the supported surface types and fails
/// exactly on an unsupported floating-point width, with that width named
/// in the fault.
pub proof fn lemma_type_mapping_total(t: WaveType)
    ensures
        spec_map_wave_type(t) is Ok <==> wave_type_supported(t),
        !wave_type_supported(t) ==> (spec_map_wave_type(t) matches Err(e) && e is UnsupportedWidth),
    decreases t,
{
    match t {
        WaveType::Pointer(inner) => lemma_type_mapping_total(*inner),
        WaveType::Array(inner, _) => lemma_type_mapping_total(*inner),
        _ => (),
    }
}

/// Law: type mapping is deterministic: any two results obtained for the
/// same surface type are the same IR type (or the same fault).
pub proof fn lemma_type_mapping_deterministic(
    t: WaveType,
    r1: Result<IRType, LowerError>,
    r2: Result<IRType, LowerError>,
)
    requires
        r1 == spec_map_wave_type(t),
        r2 == spec_map_wave_type(t),
    ensures
        r1 == r2,
{
}

} // verus!
