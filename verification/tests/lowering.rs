use wave_lowering::{
    declare_signatures, find_function, generate_ir, lower_module, ASTNode, Cursor, Expression,
    FunctionNode, IRType, Instr, LowerError, Module, NoOpEmitter, Operand, Parameter,
    StatementEmitter, StatementNode, Value, VariableEnv, WaveType,
};

fn fn_decl(name: &str, params: Vec<Parameter>, ret: Option<WaveType>, body: Vec<ASTNode>) -> ASTNode {
    ASTNode::Function(FunctionNode {
        name: name.to_string(),
        parameters: params,
        return_type: ret,
        body,
    })
}

fn param(name: &str, ty: WaveType, default: Option<Value>) -> Parameter {
    Parameter { name: name.to_string(), param_type: ty, initial_value: default }
}

fn terminator_count(instrs: &[Instr]) -> usize {
    instrs.iter().filter(|i| matches!(i, Instr::RetVoid)).count()
}

#[test]
fn signature_pass_declares_in_source_order() {
    let ast = vec![
        fn_decl("a", vec![param("x", WaveType::Int(32), None)], Some(WaveType::Int(32)), vec![]),
        fn_decl("b", vec![], None, vec![]),
    ];
    let m = declare_signatures(&ast).unwrap();
    assert_eq!(m.functions.len(), 2);
    assert_eq!(m.functions[0].name, "a");
    assert_eq!(m.functions[0].sig.param_types, vec![IRType::Int(32)]);
    assert_eq!(m.functions[0].sig.ret, Some(IRType::Int(32)));
    assert_eq!(m.functions[1].name, "b");
    assert_eq!(m.functions[1].sig.ret, None);
}

#[test]
fn duplicate_function_name_faults() {
    let ast = vec![fn_decl("a", vec![], None, vec![]), fn_decl("a", vec![], None, vec![])];
    assert_eq!(
        declare_signatures(&ast),
        Err(LowerError::DuplicateFunction("a".to_string()))
    );
}

#[test]
fn aggregate_return_type_faults() {
    let ast = vec![fn_decl(
        "a",
        vec![],
        Some(WaveType::Array(Box::new(WaveType::Int(8)), 3)),
        vec![],
    )];
    assert_eq!(
        declare_signatures(&ast),
        Err(LowerError::UnsupportedReturnType("a".to_string()))
    );
}

#[test]
fn unsupported_parameter_width_faults() {
    let ast = vec![fn_decl("a", vec![param("x", WaveType::Float(16), None)], None, vec![])];
    assert_eq!(declare_signatures(&ast), Err(LowerError::UnsupportedWidth(16)));
}

/// A statement emitter that treats a bare-variable expression statement as a
/// call and records whether the callee's signature is already in the table.
struct CallLookupEmitter {
    resolved: Vec<String>,
    missing: Vec<String>,
}

impl StatementEmitter for CallLookupEmitter {
    fn emit_statement(
        &mut self,
        module: &mut Module,
        _cursor: &mut Cursor,
        _string_counter: &mut u64,
        stmt: &ASTNode,
        _variables: &mut VariableEnv,
        _loop_exit_stack: &mut Vec<usize>,
        _loop_continue_stack: &mut Vec<usize>,
        _function: usize,
    ) {
        if let ASTNode::Statement(StatementNode::Expression(Expression::Variable(callee))) = stmt {
            if find_function(module, callee).is_some() {
                self.resolved.push(callee.clone());
            } else {
                self.missing.push(callee.clone());
            }
        }
    }
}

#[test]
fn body_pass_sees_later_declared_functions() {
    // `a` calls `b`, and `b` is declared after `a` in the input sequence.
    let call_b = ASTNode::Statement(StatementNode::Expression(Expression::Variable(
        "b".to_string(),
    )));
    let ast = vec![fn_decl("a", vec![], None, vec![call_b]), fn_decl("b", vec![], None, vec![])];
    let mut emitter = CallLookupEmitter { resolved: vec![], missing: vec![] };
    let result = generate_ir(&ast, &mut emitter);
    assert!(result.is_ok());
    assert_eq!(emitter.resolved, vec!["b".to_string()]);
    assert!(emitter.missing.is_empty());
}

#[test]
fn default_integer_literal_initializes_slot() {
    let ast = vec![fn_decl(
        "f",
        vec![param("x", WaveType::Int(32), Some(Value::Int(5)))],
        None,
        vec![],
    )];
    let m = lower_module(&ast, &mut NoOpEmitter).unwrap();
    let instrs = &m.functions[0].blocks[0].instrs;
    assert_eq!(instrs[0], Instr::Alloca { dest: 0, ty: IRType::Int(32), name: "x".to_string() });
    assert_eq!(instrs[1], Instr::Store { ptr: 0, value: Operand::ConstInt { width: 32, value: 5 } });
}

#[test]
fn missing_default_takes_caller_argument() {
    let ast = vec![fn_decl(
        "f",
        vec![param("x", WaveType::Int(32), None), param("y", WaveType::Bool, None)],
        None,
        vec![],
    )];
    let m = lower_module(&ast, &mut NoOpEmitter).unwrap();
    let instrs = &m.functions[0].blocks[0].instrs;
    assert_eq!(instrs[1], Instr::Store { ptr: 0, value: Operand::Param { index: 0 } });
    assert_eq!(instrs[3], Instr::Store { ptr: 1, value: Operand::Param { index: 1 } });
}

#[test]
fn text_default_for_integer_parameter_faults() {
    let ast = vec![fn_decl(
        "f",
        vec![param("x", WaveType::Int(32), Some(Value::Text("hi".to_string())))],
        None,
        vec![],
    )];
    assert_eq!(
        lower_module(&ast, &mut NoOpEmitter),
        Err(LowerError::DefaultValueTypeMismatch("x".to_string()))
    );
}

#[test]
fn float_default_initializes_float_slot() {
    let bits = 0x4004000000000000u64; // 2.5 as a 64-bit pattern
    let ast = vec![fn_decl(
        "f",
        vec![param("x", WaveType::Float(64), Some(Value::Float(bits)))],
        None,
        vec![],
    )];
    let m = lower_module(&ast, &mut NoOpEmitter).unwrap();
    let instrs = &m.functions[0].blocks[0].instrs;
    assert_eq!(instrs[1], Instr::Store { ptr: 0, value: Operand::ConstFloat { width: 64, bits } });
}

#[test]
fn identical_text_defaults_make_distinct_globals() {
    let ast = vec![fn_decl(
        "f",
        vec![
            param("first", WaveType::String, Some(Value::Text("hi".to_string()))),
            param("second", WaveType::String, Some(Value::Text("hi".to_string()))),
        ],
        None,
        vec![],
    )];
    let m = lower_module(&ast, &mut NoOpEmitter).unwrap();
    assert_eq!(m.globals.len(), 2);
    assert_eq!(m.globals[0].name, "param_str_first");
    assert_eq!(m.globals[1].name, "param_str_second");
    // byte content, trailing null terminator included
    assert_eq!(m.globals[0].bytes, vec![b'h', b'i', 0]);
    assert_eq!(m.globals[1].bytes, vec![b'h', b'i', 0]);
    // the slots are initialized from each parameter's own global
    let instrs = &m.functions[0].blocks[0].instrs;
    assert_eq!(
        instrs[1],
        Instr::Store { ptr: 0, value: Operand::GlobalAddr { name: "param_str_first".to_string() } }
    );
    assert_eq!(
        instrs[3],
        Instr::Store { ptr: 1, value: Operand::GlobalAddr { name: "param_str_second".to_string() } }
    );
    // both globals stand in the output text with their byte content
    let text = m.to_text();
    assert!(text.contains("@param_str_first = constant [3 x i8] c\"\\68\\69\\00\""));
    assert!(text.contains("@param_str_second = constant [3 x i8] c\"\\68\\69\\00\""));
}

#[test]
fn void_function_gets_exactly_one_implicit_terminator() {
    let ast = vec![fn_decl("f", vec![param("x", WaveType::Int(32), None)], None, vec![])];
    let m = lower_module(&ast, &mut NoOpEmitter).unwrap();
    let instrs = &m.functions[0].blocks[0].instrs;
    assert_eq!(m.functions[0].blocks.len(), 1);
    assert_eq!(m.functions[0].blocks[0].label, "entry");
    assert_eq!(instrs.last(), Some(&Instr::RetVoid));
    assert_eq!(terminator_count(instrs), 1);
}

#[test]
fn void_function_with_statements_still_one_terminator_per_block() {
    let stmt = ASTNode::Statement(StatementNode::Return(None));
    let ast = vec![fn_decl("f", vec![], None, vec![stmt])];
    let m = lower_module(&ast, &mut NoOpEmitter).unwrap();
    for block in &m.functions[0].blocks {
        assert_eq!(terminator_count(&block.instrs), 1);
    }
}

#[test]
fn non_void_function_gets_no_implicit_terminator() {
    let ast = vec![fn_decl("f", vec![], Some(WaveType::Int(32)), vec![])];
    let m = lower_module(&ast, &mut NoOpEmitter).unwrap();
    assert_eq!(terminator_count(&m.functions[0].blocks[0].instrs), 0);
}

#[test]
fn function_node_in_body_faults() {
    let inner = fn_decl("g", vec![], None, vec![]);
    let ast = vec![fn_decl("f", vec![], None, vec![inner])];
    assert_eq!(
        lower_module(&ast, &mut NoOpEmitter),
        Err(LowerError::UnsupportedTopLevelNode("f".to_string()))
    );
}

#[test]
fn non_function_nodes_at_top_level_are_skipped() {
    let loose = ASTNode::Statement(StatementNode::Return(None));
    let ast = vec![loose, fn_decl("f", vec![], None, vec![])];
    let m = lower_module(&ast, &mut NoOpEmitter).unwrap();
    assert_eq!(m.functions.len(), 1);
    assert_eq!(m.functions[0].name, "f");
}

#[test]
fn generate_ir_serializes_the_module() {
    let ast = vec![fn_decl(
        "f",
        vec![param("x", WaveType::Int(32), Some(Value::Int(-7)))],
        None,
        vec![],
    )];
    let text = generate_ir(&ast, &mut NoOpEmitter).unwrap();
    assert_eq!(
        text,
        "define void @f(i32) {\nentry:\n  %r0 = alloca i32 ; x\n  store i32 -7, %r0\n  ret void\n}\n"
    );
}

#[test]
fn generate_ir_reports_first_fault() {
    let ast = vec![
        fn_decl("a", vec![param("x", WaveType::Float(16), None)], None, vec![]),
        fn_decl("a", vec![], None, vec![]),
    ];
    // the parameter fault of `a` comes before the duplicate of the later node
    assert_eq!(
        generate_ir(&ast, &mut NoOpEmitter),
        Err(LowerError::UnsupportedWidth(16))
    );
}

#[test]
fn find_function_reports_first_index() {
    let ast = vec![fn_decl("a", vec![], None, vec![]), fn_decl("b", vec![], None, vec![])];
    let m = declare_signatures(&ast).unwrap();
    assert_eq!(find_function(&m, &"b".to_string()), Some(1));
    assert_eq!(find_function(&m, &"c".to_string()), None);
}

#[test]
fn float_constant_prints_as_bit_pattern() {
    let bits = 2.5f64.to_bits();
    let ast = vec![fn_decl(
        "f",
        vec![param("x", WaveType::Float(64), Some(Value::Float(bits)))],
        None,
        vec![],
    )];
    let text = generate_ir(&ast, &mut NoOpEmitter).unwrap();
    assert!(text.contains("store double 0x4004000000000000, %r0"));
}

/// A statement emitter that resolves the address of an expression statement,
/// emitting a load at the cursor for a dereference.
struct AddressEmitter;

impl StatementEmitter for AddressEmitter {
    fn emit_statement(
        &mut self,
        module: &mut Module,
        cursor: &mut Cursor,
        _string_counter: &mut u64,
        stmt: &ASTNode,
        variables: &mut VariableEnv,
        _loop_exit_stack: &mut Vec<usize>,
        _loop_continue_stack: &mut Vec<usize>,
        _function: usize,
    ) {
        if let ASTNode::Statement(StatementNode::Expression(expr)) = stmt {
            wave_lowering::generate_address_ir(module, *cursor, expr, variables)
                .expect("address resolution failed");
        }
    }
}

#[test]
fn emitter_resolves_parameter_addresses_at_the_cursor() {
    let body = vec![ASTNode::Statement(StatementNode::Expression(Expression::Deref(
        Box::new(Expression::Variable("p".to_string())),
    )))];
    let ast = vec![fn_decl(
        "f",
        vec![param("p", WaveType::Pointer(Box::new(WaveType::Int(32))), None)],
        None,
        body,
    )];
    let m = lower_module(&ast, &mut AddressEmitter).unwrap();
    let instrs = &m.functions[0].blocks[0].instrs;
    assert_eq!(instrs.len(), 4);
    assert_eq!(instrs[2], Instr::Load { dest: 1, ptr: 0, name: "deref_target".to_string() });
    assert_eq!(instrs[3], Instr::RetVoid);
    assert_eq!(terminator_count(instrs), 1);
}

#[test]
fn pointer_and_array_types_print_in_signatures() {
    let ast = vec![fn_decl(
        "f",
        vec![
            param("p", WaveType::Pointer(Box::new(WaveType::Int(32))), None),
            param("a", WaveType::Array(Box::new(WaveType::Byte), 4), None),
            param("g", WaveType::Float(64), None),
        ],
        Some(WaveType::String),
        vec![],
    )];
    let text = generate_ir(&ast, &mut NoOpEmitter).unwrap();
    assert!(text.starts_with("define i8* @f(i32*, [4 x i8], double) {\n"));
}

#[test]
fn text_default_global_survives_statement_lowering() {
    let body = vec![ASTNode::Statement(StatementNode::Return(None))];
    let ast = vec![fn_decl(
        "f",
        vec![param("s", WaveType::String, Some(Value::Text("ok".to_string())))],
        None,
        body,
    )];
    let m = lower_module(&ast, &mut NoOpEmitter).unwrap();
    assert_eq!(m.globals.len(), 1);
    assert_eq!(m.globals[0].name, "param_str_s");
    assert_eq!(m.globals[0].bytes, vec![b'o', b'k', 0]);
    // the parameter slots stay the entry block's leading instructions
    let instrs = &m.functions[0].blocks[0].instrs;
    assert_eq!(
        instrs[1],
        Instr::Store { ptr: 0, value: Operand::GlobalAddr { name: "param_str_s".to_string() } }
    );
}
