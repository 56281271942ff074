use wave_lowering::{
    generate_address_ir, get_llvm_type, wave_format_to_c, wave_type_to_llvm_type, Cursor,
    Expression, IRFunction, IRType, Instr, LowerError, Module, Mutability, Signature, TokenType,
    VariableEnv, VariableInfo, WaveType,
};

fn ptr_to_i8() -> IRType {
    IRType::Pointer(Box::new(IRType::Int(8)))
}

#[test]
fn map_integer_widths() {
    assert_eq!(wave_type_to_llvm_type(&WaveType::Int(32)), Ok(IRType::Int(32)));
    assert_eq!(wave_type_to_llvm_type(&WaveType::Uint(64)), Ok(IRType::Int(64)));
}

#[test]
fn map_floats() {
    assert_eq!(wave_type_to_llvm_type(&WaveType::Float(32)), Ok(IRType::Float(32)));
    assert_eq!(wave_type_to_llvm_type(&WaveType::Float(64)), Ok(IRType::Float(64)));
}

#[test]
fn map_unsupported_float_width_faults() {
    assert_eq!(
        wave_type_to_llvm_type(&WaveType::Float(16)),
        Err(LowerError::UnsupportedWidth(16))
    );
}

#[test]
fn map_bool_byte_char_string() {
    assert_eq!(wave_type_to_llvm_type(&WaveType::Bool), Ok(IRType::Int(1)));
    assert_eq!(wave_type_to_llvm_type(&WaveType::Byte), Ok(IRType::Int(8)));
    assert_eq!(wave_type_to_llvm_type(&WaveType::Char), Ok(IRType::Int(8)));
    assert_eq!(wave_type_to_llvm_type(&WaveType::String), Ok(ptr_to_i8()));
}

#[test]
fn map_pointer_and_array_recursively() {
    assert_eq!(
        wave_type_to_llvm_type(&WaveType::Pointer(Box::new(WaveType::Int(16)))),
        Ok(IRType::Pointer(Box::new(IRType::Int(16))))
    );
    assert_eq!(
        wave_type_to_llvm_type(&WaveType::Array(Box::new(WaveType::Bool), 4)),
        Ok(IRType::Array(Box::new(IRType::Int(1)), 4))
    );
    assert_eq!(
        wave_type_to_llvm_type(&WaveType::Pointer(Box::new(WaveType::Float(16)))),
        Err(LowerError::UnsupportedWidth(16))
    );
}

#[test]
fn map_is_deterministic_on_repeated_calls() {
    let t = WaveType::Array(Box::new(WaveType::Pointer(Box::new(WaveType::String))), 3);
    let first = wave_type_to_llvm_type(&t);
    let second = wave_type_to_llvm_type(&t);
    assert_eq!(first, second);
}

#[test]
fn token_mapper_agrees_with_surface_mapper() {
    assert_eq!(get_llvm_type(&TokenType::TypeFloat(32)), Ok(IRType::Float(32)));
    assert_eq!(get_llvm_type(&TokenType::TypeFloat(64)), Ok(IRType::Float(64)));
    assert_eq!(get_llvm_type(&TokenType::TypeFloat(128)), Err(LowerError::UnsupportedWidth(128)));
    assert_eq!(get_llvm_type(&TokenType::TypeFloat(13)), Err(LowerError::UnsupportedWidth(13)));
    assert_eq!(get_llvm_type(&TokenType::TypeString), Ok(ptr_to_i8()));
    assert_eq!(
        get_llvm_type(&TokenType::TypeArray(Box::new(TokenType::TypeByte), 7)),
        Ok(IRType::Array(Box::new(IRType::Int(8)), 7))
    );
}

#[test]
fn format_float_placeholder() {
    let out = wave_format_to_c("value: {}", &[IRType::Float(32)]);
    assert_eq!(out, "value: %f");
}

#[test]
fn format_int_and_string_placeholders() {
    let out = wave_format_to_c("{} and {}", &[IRType::Int(32), ptr_to_i8()]);
    assert_eq!(out, "%d and %s");
}

#[test]
fn format_no_placeholder_unchanged() {
    let out = wave_format_to_c("no placeholder", &[]);
    assert_eq!(out, "no placeholder");
}

#[test]
fn format_lone_brace_passes_through() {
    let out = wave_format_to_c("a { b", &[]);
    assert_eq!(out, "a { b");
}

#[test]
fn format_other_pointer_and_fallback() {
    let out = wave_format_to_c(
        "{} {}",
        &[
            IRType::Pointer(Box::new(IRType::Int(32))),
            IRType::Array(Box::new(IRType::Int(8)), 2),
        ],
    );
    assert_eq!(out, "%ld %d");
}

#[test]
fn format_placeholder_beyond_args_stays_literal() {
    let out = wave_format_to_c("{} {}", &[IRType::Int(32)]);
    assert_eq!(out, "%d {}");
}

fn one_function_module() -> (Module, Cursor) {
    let m = Module {
        globals: Vec::new(),
        functions: vec![IRFunction {
            name: "f".to_string(),
            sig: Signature { param_types: Vec::new(), ret: None },
            blocks: vec![wave_lowering::Block { label: "entry".to_string(), instrs: Vec::new() }],
            next_reg: 2,
        }],
    };
    (m, Cursor { func: 0, block: 0 })
}

fn env_with(name: &str, ptr: usize) -> VariableEnv {
    let mut env = VariableEnv::new();
    env.insert(name.to_string(), VariableInfo { ptr, mutability: Mutability::Let });
    env
}

#[test]
fn address_of_bound_variable_is_its_slot() {
    let (mut m, cur) = one_function_module();
    let env = env_with("x", 1);
    let r = generate_address_ir(&mut m, cur, &Expression::Variable("x".to_string()), &env);
    assert_eq!(r, Ok(1));
    assert!(m.functions[0].blocks[0].instrs.is_empty());
}

#[test]
fn address_of_deref_loads_the_pointer() {
    let (mut m, cur) = one_function_module();
    let env = env_with("p", 1);
    let expr = Expression::Deref(Box::new(Expression::Variable("p".to_string())));
    let r = generate_address_ir(&mut m, cur, &expr, &env);
    assert_eq!(r, Ok(2));
    assert_eq!(m.functions[0].next_reg, 3);
    assert_eq!(
        m.functions[0].blocks[0].instrs,
        vec![Instr::Load { dest: 2, ptr: 1, name: "deref_target".to_string() }]
    );
}

#[test]
fn address_of_undeclared_variable_faults() {
    let (mut m, cur) = one_function_module();
    let env = VariableEnv::new();
    let r = generate_address_ir(&mut m, cur, &Expression::Variable("y".to_string()), &env);
    assert_eq!(r, Err(LowerError::UndefinedVariable("y".to_string())));
}

#[test]
fn address_of_double_deref_faults() {
    let (mut m, cur) = one_function_module();
    let env = env_with("p", 1);
    let expr = Expression::Deref(Box::new(Expression::Deref(Box::new(Expression::Variable(
        "p".to_string(),
    )))));
    let r = generate_address_ir(&mut m, cur, &expr, &env);
    assert_eq!(r, Err(LowerError::UnsupportedNestedDeref));
}

#[test]
fn address_of_literal_faults() {
    let (mut m, cur) = one_function_module();
    let env = VariableEnv::new();
    let expr = Expression::Literal(wave_lowering::Value::Int(3));
    let r = generate_address_ir(&mut m, cur, &expr, &env);
    assert_eq!(r, Err(LowerError::NotAnAddressableExpression));
}

#[test]
fn environment_lookup_takes_latest_binding() {
    let mut env = VariableEnv::new();
    env.insert("x".to_string(), VariableInfo { ptr: 0, mutability: Mutability::Let });
    env.insert("x".to_string(), VariableInfo { ptr: 5, mutability: Mutability::Var });
    let found = env.get(&"x".to_string()).unwrap();
    assert_eq!(found.ptr, 5);
    assert_eq!(found.mutability, Mutability::Var);
    assert!(env.get(&"absent".to_string()).is_none());
}

#[test]
fn create_alloc_emits_an_i32_slot() {
    let (mut m, cur) = one_function_module();
    let r = wave_lowering::create_alloc(&mut m, cur, "tmp".to_string());
    assert_eq!(r, 2);
    assert_eq!(
        m.functions[0].blocks[0].instrs,
        vec![Instr::Alloca { dest: 2, ty: IRType::Int(32), name: "tmp".to_string() }]
    );
}
