use sysy_lower::codegen::{
    function_header_string, load_line_string, reg_string, return_load_string,
    return_move_string, select_string, BinaryOp, EmitCtx, EmitError, IrFunction, IrProgram, Reg,
    ValueKind,
};

fn program(values: Vec<ValueKind>, insts: Vec<usize>) -> IrProgram {
    IrProgram { values, funcs: vec![IrFunction { name: "@main".to_string(), insts }] }
}

#[test]
fn one_plus_two_times_three_in_assembly() {
    let p = program(
        vec![
            ValueKind::Integer(2),
            ValueKind::Integer(3),
            ValueKind::Binary(BinaryOp::Mul, 0, 1),
            ValueKind::Integer(1),
            ValueKind::Binary(BinaryOp::Add, 3, 2),
            ValueKind::Return(4),
        ],
        vec![2, 4, 5],
    );
    assert!(p.well_formed());
    let lines = [
        "  .text\n",
        "  .globl main\n",
        "main:\n",
        "  li    t0, 2\n",
        "  li    t1, 3\n",
        "  mul   t2, t0, t1\n",
        "  li    t3, 1\n",
        "  add   t4, t3, t2\n",
        "  mv    a0, t4\n",
        "  ret",
    ];
    let expected = lines.concat();
    assert_eq!(p.emit(), Ok(expected.clone()));
    assert_eq!(p.generate(), Ok(expected));
}

#[test]
fn return_of_an_unvisited_zero_literal_loads_it() {
    let p = program(vec![ValueKind::Integer(0), ValueKind::Return(0)], vec![1]);
    assert_eq!(p.emit(), Ok("  .text\n  .globl main\nmain:\n  li    a0, 0\n  ret".to_string()));
}

#[test]
fn return_of_a_visited_zero_literal_moves_from_the_zero_register() {
    let p = program(vec![ValueKind::Integer(0), ValueKind::Return(0)], vec![0, 1]);
    let text = p.emit().unwrap();
    assert_eq!(text, "  .text\n  .globl main\nmain:\n  mv    a0, x0\n  ret");
    assert!(!text.contains("li"));
}

#[test]
fn return_of_a_literal_and_of_a_named_value() {
    let p = program(vec![ValueKind::Integer(-7), ValueKind::Return(0)], vec![1]);
    let mut ctx = EmitCtx::new();
    assert_eq!(p.generate_value(&mut ctx, 1), Ok("  li    a0, -7\n  ret".to_string()));
    assert_eq!(ctx.names.len(), 0);
    assert_eq!(ctx.count, 0);
    assert_eq!(p.generate_value(&mut ctx, 0), Ok("  li    t0, -7\n".to_string()));
    assert_eq!(p.generate_value(&mut ctx, 1), Ok("  mv    a0, t0\n  ret".to_string()));
}

#[test]
fn unresolved_return_is_an_error() {
    let p = program(
        vec![
            ValueKind::Integer(1),
            ValueKind::Integer(2),
            ValueKind::Binary(BinaryOp::Add, 0, 1),
            ValueKind::Return(2),
        ],
        vec![3],
    );
    assert_eq!(p.emit(), Err(EmitError::UnresolvedReturn));
    let q = program(vec![ValueKind::Return(0)], vec![0]);
    assert!(q.well_formed());
    assert_eq!(q.emit(), Err(EmitError::UnresolvedReturn));
}

#[test]
fn second_emission_of_a_value_is_empty() {
    let p = program(
        vec![
            ValueKind::Integer(5),
            ValueKind::Integer(0),
            ValueKind::Binary(BinaryOp::Sub, 1, 0),
        ],
        vec![2],
    );
    let mut ctx = EmitCtx::new();
    assert_eq!(
        p.generate_value(&mut ctx, 2),
        Ok("  li    t0, 5\n  sub   t1, x0, t0\n".to_string())
    );
    assert_eq!(ctx.names.len(), 3);
    assert_eq!(ctx.count, 2);
    assert_eq!(p.generate_value(&mut ctx, 2), Ok("".to_string()));
    assert_eq!(p.generate_value(&mut ctx, 0), Ok("".to_string()));
    assert_eq!(p.generate_value(&mut ctx, 1), Ok("".to_string()));
    assert_eq!(p.materialize(&mut ctx, 2), Ok("".to_string()));
    assert_eq!(ctx.names.len(), 3);
    assert_eq!(ctx.count, 2);
    assert_eq!(ctx.name_of(2), Some(Reg::Temp(1)));
    assert_eq!(ctx.name_of(1), Some(Reg::Zero));
    assert_eq!(ctx.name_of(0), Some(Reg::Temp(0)));
}

#[test]
fn shared_operand_is_emitted_once() {
    let p = program(
        vec![ValueKind::Integer(4), ValueKind::Binary(BinaryOp::Add, 0, 0)],
        vec![1],
    );
    let mut ctx = EmitCtx::new();
    assert_eq!(
        p.generate_value(&mut ctx, 1),
        Ok("  li    t0, 4\n  add   t1, t0, t0\n".to_string())
    );
}

#[test]
fn zero_literal_takes_the_zero_register() {
    let p = program(vec![ValueKind::Integer(0)], vec![0]);
    let mut ctx = EmitCtx::new();
    assert_eq!(p.generate_value(&mut ctx, 0), Ok("".to_string()));
    assert_eq!(ctx.name_of(0), Some(Reg::Zero));
    assert_eq!(ctx.count, 0);
}

#[test]
fn weak_comparisons_take_two_instructions() {
    let d = Reg::Temp(2);
    let l = Reg::Temp(0);
    let r = Reg::Temp(1);
    assert_eq!(select_string(BinaryOp::Le, d, l, r), "  sgt   t2, t0, t1\n  seqz  t2, t2\n");
    assert_eq!(select_string(BinaryOp::Ge, d, l, r), "  slt   t2, t0, t1\n  seqz  t2, t2\n");
    assert_eq!(select_string(BinaryOp::Le, d, l, r).lines().count(), 2);
    assert_eq!(select_string(BinaryOp::Ge, d, l, r).lines().count(), 2);
}

#[test]
fn one_instruction_templates() {
    let d = Reg::Temp(2);
    let l = Reg::Zero;
    let r = Reg::Temp(1);
    assert_eq!(select_string(BinaryOp::Sub, d, l, r), "  sub   t2, x0, t1\n");
    assert_eq!(select_string(BinaryOp::Xor, d, l, r), "  xor   t2, x0, t1\n");
    assert_eq!(select_string(BinaryOp::Add, d, l, r), "  add   t2, x0, t1\n");
    assert_eq!(select_string(BinaryOp::And, d, l, r), "  and   t2, x0, t1\n");
    assert_eq!(select_string(BinaryOp::Or, d, l, r), "  or    t2, x0, t1\n");
    assert_eq!(select_string(BinaryOp::Lt, d, l, r), "  slt   t2, x0, t1\n");
    assert_eq!(select_string(BinaryOp::Gt, d, l, r), "  sgt   t2, x0, t1\n");
    assert_eq!(select_string(BinaryOp::Eq, d, l, r), "  seqz  t2, t1\n");
    assert_eq!(select_string(BinaryOp::NotEq, d, l, r), "  snez  t2, t1\n");
}

#[test]
fn multiply_divide_and_remainder_all_select_mul() {
    let d = Reg::Temp(2);
    let l = Reg::Temp(0);
    let r = Reg::Temp(1);
    assert_eq!(select_string(BinaryOp::Mul, d, l, r), "  mul   t2, t0, t1\n");
    assert_eq!(select_string(BinaryOp::Div, d, l, r), "  mul   t2, t0, t1\n");
    assert_eq!(select_string(BinaryOp::Mod, d, l, r), "  mul   t2, t0, t1\n");
}

#[test]
fn text_builders() {
    assert_eq!(reg_string(Reg::Zero), "x0");
    assert_eq!(reg_string(Reg::Temp(0)), "t0");
    assert_eq!(reg_string(Reg::Temp(4294967295)), "t4294967295");
    assert_eq!(load_line_string("t3", -12), "  li    t3, -12\n");
    assert_eq!(return_move_string(Reg::Temp(9)), "  mv    a0, t9\n  ret");
    assert_eq!(return_load_string(0), "  li    a0, 0\n  ret");
    assert_eq!(function_header_string("@main"), "  .globl main\nmain:\n");
    assert_eq!(function_header_string("@"), "  .globl \n:\n");
}

#[test]
fn functions_share_the_cache_and_the_counter() {
    let p = IrProgram {
        values: vec![
            ValueKind::Integer(1),
            ValueKind::Return(0),
            ValueKind::Integer(2),
            ValueKind::Return(2),
        ],
        funcs: vec![
            IrFunction { name: "@f".to_string(), insts: vec![0, 1] },
            IrFunction { name: "@g".to_string(), insts: vec![2, 0, 3] },
        ],
    };
    assert_eq!(
        p.emit(),
        Ok("  .text\n  .globl f\nf:\n  li    t0, 1\n  mv    a0, t0\n  ret  .globl g\ng:\n  li    t1, 2\n  mv    a0, t1\n  ret"
            .to_string())
    );
    let mut ctx = EmitCtx::new();
    assert_eq!(
        p.generate_function(&mut ctx, 1),
        Ok("  .globl g\ng:\n  li    t0, 2\n  li    t1, 1\n  mv    a0, t0\n  ret".to_string())
    );
}

#[test]
fn program_without_functions() {
    let p = IrProgram { values: vec![], funcs: vec![] };
    assert_eq!(p.emit(), Ok("  .text\n".to_string()));
}

#[test]
fn malformed_programs_are_rejected() {
    let forward = program(
        vec![ValueKind::Binary(BinaryOp::Add, 1, 1), ValueKind::Integer(1)],
        vec![0],
    );
    assert!(!forward.well_formed());
    assert_eq!(forward.emit(), Err(EmitError::Malformed));
    let of_return = program(
        vec![
            ValueKind::Integer(1),
            ValueKind::Return(0),
            ValueKind::Binary(BinaryOp::Add, 0, 1),
        ],
        vec![2],
    );
    assert_eq!(of_return.emit(), Err(EmitError::Malformed));
    let dangling_return = program(vec![ValueKind::Return(3)], vec![0]);
    assert_eq!(dangling_return.emit(), Err(EmitError::Malformed));
    let dangling_inst = program(vec![ValueKind::Integer(1)], vec![1]);
    assert_eq!(dangling_inst.emit(), Err(EmitError::Malformed));
    let nameless = IrProgram {
        values: vec![],
        funcs: vec![IrFunction { name: "".to_string(), insts: vec![] }],
    };
    assert_eq!(nameless.emit(), Err(EmitError::Malformed));
}

#[test]
fn temporaries_run_out() {
    let p = program(
        vec![
            ValueKind::Integer(1),
            ValueKind::Integer(2),
            ValueKind::Binary(BinaryOp::Add, 0, 1),
        ],
        vec![2],
    );
    let mut ctx = EmitCtx::new();
    ctx.count = u32::MAX;
    assert_eq!(p.generate_value(&mut ctx, 0), Err(EmitError::TemporariesExhausted));
    let mut ctx = EmitCtx::new();
    ctx.count = u32::MAX - 2;
    assert_eq!(p.generate_value(&mut ctx, 2), Err(EmitError::TemporariesExhausted));
    let mut ctx = EmitCtx::new();
    ctx.count = u32::MAX - 3;
    assert_eq!(
        p.generate_value(&mut ctx, 2),
        Ok("  li    t4294967292, 1\n  li    t4294967293, 2\n  add   t4294967294, t4294967292, t4294967293\n"
            .to_string())
    );
    assert_eq!(ctx.count, u32::MAX);
}

#[test]
fn fresh_and_assign() {
    let mut ctx = EmitCtx::new();
    assert_eq!(ctx.fresh(), Some(Reg::Temp(0)));
    assert_eq!(ctx.fresh(), Some(Reg::Temp(1)));
    assert_eq!(ctx.name_of(5), None);
    ctx.assign(5, Reg::Temp(1));
    assert_eq!(ctx.name_of(5), Some(Reg::Temp(1)));
    ctx.count = u32::MAX;
    assert_eq!(ctx.fresh(), None);
}

#[test]
fn failed_emission_keeps_the_registers_assigned() {
    let p = program(
        vec![
            ValueKind::Integer(0),
            ValueKind::Integer(2),
            ValueKind::Binary(BinaryOp::Add, 0, 1),
            ValueKind::Return(2),
        ],
        vec![0, 3],
    );
    let mut ctx = EmitCtx::new();
    assert_eq!(p.generate_function(&mut ctx, 0), Err(EmitError::UnresolvedReturn));
    assert_eq!(ctx.name_of(0), Some(Reg::Zero));
    assert_eq!(ctx.count, 0);
    ctx.count = u32::MAX - 1;
    assert_eq!(p.generate_value(&mut ctx, 2), Err(EmitError::TemporariesExhausted));
    assert_eq!(ctx.name_of(0), Some(Reg::Zero));
    assert!(ctx.count >= u32::MAX - 1);
}

#[test]
fn operands_take_their_registers_before_the_result() {
    let p = program(
        vec![
            ValueKind::Integer(7),
            ValueKind::Integer(8),
            ValueKind::Binary(BinaryOp::Le, 0, 1),
            ValueKind::Integer(9),
            ValueKind::Binary(BinaryOp::Xor, 2, 3),
        ],
        vec![2, 4],
    );
    let mut ctx = EmitCtx::new();
    assert_eq!(
        p.generate_function(&mut ctx, 0),
        Ok("  .globl main\nmain:\n  li    t0, 7\n  li    t1, 8\n  sgt   t2, t0, t1\n  seqz  t2, t2\n  li    t3, 9\n  xor   t4, t2, t3\n"
            .to_string())
    );
    assert_eq!(ctx.count, 5);
    assert_eq!(ctx.names.len(), 5);
}
