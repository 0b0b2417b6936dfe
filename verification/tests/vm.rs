use cbd_vm::code::CodeEntry::{BlockType, I32Imm, Op};
use cbd_vm::code::Opcode::{Block, Br, BrIf, End, I32Add, I32Const, LocalGet, LocalSet, LocalTee, Loop};
use cbd_vm::code::{sum_code, CodeEntry, CodePtr, Opcode, VmError};
use cbd_vm::eval::{Eval, STEntry};
use cbd_vm::pipeline::validate_and_build;
use cbd_vm::validate::{CtlEntry, CtlType, SidetableMeta, TypedValidate};

fn make_sidetable(code: &Vec<CodeEntry>, nlocals: usize) -> Vec<STEntry> {
    let mut validate = TypedValidate::new(code.clone(), nlocals);
    validate.dispatch().unwrap();
    validate.build_sidetable().unwrap()
}

fn eval_program(code: Vec<CodeEntry>, nlocals: usize) -> Eval {
    let sidetable = make_sidetable(&code, nlocals);
    let mut eval = Eval {
        stack: vec![],
        locals: vec![0; nlocals],
        codeptr: CodePtr { code, ip: 0 },
        sidetable,
        stp: 0,
    };
    assert_eq!(eval.dispatch(1_000_000), Ok(true));
    eval
}

#[test]
fn add_two_constants() {
    let code = vec![Op(I32Const), I32Imm(7), Op(I32Const), I32Imm(8), Op(I32Add)];
    let eval = eval_program(code, 0);
    assert_eq!(eval.stack, vec![15]);
}

#[test]
fn br_skips_rest_of_block() {
    let code = vec![
        Op(Block),
        BlockType(0),
        Op(I32Const),
        I32Imm(1),
        Op(Br),
        I32Imm(0),
        Op(I32Const),
        I32Imm(2),
        Op(End),
    ];
    let eval = eval_program(code, 0);
    assert_eq!(eval.stack, vec![1]);
}

#[test]
fn br_if_zero_falls_through() {
    let code = vec![
        Op(Block),
        BlockType(0),
        Op(I32Const),
        I32Imm(0),
        Op(BrIf),
        I32Imm(0),
        Op(I32Const),
        I32Imm(42),
        Op(End),
    ];
    let eval = eval_program(code, 0);
    assert_eq!(eval.stack, vec![42]);
}

#[test]
fn br_if_nonzero_branches() {
    let code = vec![
        Op(Block),
        BlockType(0),
        Op(I32Const),
        I32Imm(1),
        Op(BrIf),
        I32Imm(0),
        Op(I32Const),
        I32Imm(42),
        Op(End),
    ];
    let eval = eval_program(code, 0);
    assert_eq!(eval.stack, Vec::<i32>::new());
}

#[test]
fn br_in_block_jumps_past_end() {
    // The branch skips the rest of the block; the constant after the end
    // still runs.
    let code = vec![
        Op(Block),
        BlockType(0),
        Op(Br),
        I32Imm(0),
        Op(I32Const),
        I32Imm(-999),
        Op(End),
        Op(I32Const),
        I32Imm(3),
    ];
    let eval = eval_program(code, 0);
    assert_eq!(eval.stack, vec![3]);
}

#[test]
fn br_to_loop_jumps_back_to_entry() {
    // A sidetable entry targeting a loop frame carries the branch back to
    // the instruction right after the loop header.
    let code = vec![
        Op(Loop),
        BlockType(0),
        Op(I32Const),
        I32Imm(0),
        Op(BrIf),
        I32Imm(0),
        Op(End),
    ];
    let st = make_sidetable(&code, 0);
    // Entries: the sentinel, then the single br_if. Its branch lands at
    // ip 2 (the loop entry) coming from ip 6 (after the depth immediate).
    assert_eq!(st.len(), 2);
    assert_eq!(st[1].ip_delta, 2 - 6);
    let eval = eval_program(code, 0);
    assert_eq!(eval.stack, Vec::<i32>::new());
}

#[test]
fn block_branch_resolves_past_matching_end() {
    let code = vec![Op(Block), BlockType(0), Op(Br), I32Imm(0), Op(End)];
    let st = make_sidetable(&code, 0);
    // The br at ip 2 (immediate at 3, so br_ip 4) lands at ip 5, just past
    // the end; no other branch exists, so the pointer delta is zero.
    assert_eq!(st.len(), 2);
    assert_eq!(st[1], STEntry { ip_delta: 1, stp_delta: 0 });
}

#[test]
fn sum_program_evaluates() {
    // The block leaves 5 + (-15 + 20) = 10 in local 0; the loop then
    // accumulates 10 + 9 + ... + 1 = 55 into local 1.
    let eval = eval_program(sum_code(), 2);
    assert_eq!(eval.stack, vec![55]);
    assert_eq!(eval.locals, vec![0, 55]);
}

#[test]
fn sum_program_with_zero_leading_constant() {
    // With a zero in place of the leading constant, the block leaves
    // 0 + (-15 + 20) = 5 in local 0, the loop runs five times, and local 1
    // accumulates 5 + 4 + 3 + 2 + 1 = 15.
    let mut code = sum_code();
    code[1] = I32Imm(0);
    let eval = eval_program(code, 2);
    assert_eq!(eval.stack, vec![15]);
    assert_eq!(eval.locals, vec![0, 15]);
}

#[test]
fn const_then_set_then_get_leaves_const_stack() {
    let with_roundtrip = vec![
        Op(I32Const),
        I32Imm(7),
        Op(LocalSet),
        I32Imm(0),
        Op(LocalGet),
        I32Imm(0),
    ];
    let plain = vec![Op(I32Const), I32Imm(7)];
    let a = eval_program(with_roundtrip, 1);
    let b = eval_program(plain, 1);
    assert_eq!(a.stack, b.stack);
}

#[test]
fn local_tee_keeps_value_on_stack() {
    let code = vec![Op(I32Const), I32Imm(9), Op(LocalTee), I32Imm(0)];
    let eval = eval_program(code, 1);
    assert_eq!(eval.stack, vec![9]);
    assert_eq!(eval.locals, vec![9]);
}

#[test]
fn add_wraps_around() {
    let code = vec![
        Op(I32Const),
        I32Imm(i32::MAX),
        Op(I32Const),
        I32Imm(1),
        Op(I32Add),
    ];
    let eval = eval_program(code, 0);
    assert_eq!(eval.stack, vec![i32::MIN]);
}

#[test]
fn sidetable_counts_static_branches() {
    // One entry per static br / br_if, plus the sentinel at index zero.
    let st = make_sidetable(&sum_code(), 2);
    assert_eq!(st.len(), 3);
}

#[test]
fn validator_rejects_empty_stack_add() {
    let code = vec![Op(I32Add)];
    let mut validate = TypedValidate::new(code, 0);
    assert_eq!(validate.dispatch(), Err(VmError::ValidationFault));
}

#[test]
fn validator_rejects_unknown_local() {
    let code = vec![Op(LocalGet), I32Imm(3)];
    let mut validate = TypedValidate::new(code, 1);
    assert_eq!(validate.dispatch(), Err(VmError::ValidationFault));
}

#[test]
fn validator_rejects_control_stack_underflow() {
    let code = vec![Op(End), Op(End)];
    let mut validate = TypedValidate::new(code, 0);
    assert_eq!(validate.dispatch(), Err(VmError::ValidationFault));
}

#[test]
fn validator_rejects_branch_depth_out_of_range() {
    let code = vec![Op(Br), I32Imm(7)];
    let mut validate = TypedValidate::new(code, 0);
    assert_eq!(validate.dispatch(), Err(VmError::ValidationFault));
}

#[test]
fn wrong_entry_kind_is_a_decode_fault() {
    // An operand entry where an opcode belongs.
    let code = vec![I32Imm(5)];
    let mut validate = TypedValidate::new(code.clone(), 0);
    assert_eq!(validate.dispatch(), Err(VmError::DecodeFault));
    let mut eval = Eval {
        stack: vec![],
        locals: vec![],
        codeptr: CodePtr { code, ip: 0 },
        sidetable: vec![],
        stp: 0,
    };
    assert_eq!(eval.dispatch(100), Err(VmError::DecodeFault));
    // An opcode where an immediate belongs.
    let code2 = vec![Op(I32Const), Op(End)];
    let mut validate2 = TypedValidate::new(code2, 0);
    assert_eq!(validate2.dispatch(), Err(VmError::DecodeFault));
}

#[test]
fn empty_stack_pop_is_a_runtime_fault() {
    let code = vec![Op(I32Add)];
    let mut eval = Eval {
        stack: vec![],
        locals: vec![],
        codeptr: CodePtr { code, ip: 0 },
        sidetable: vec![],
        stp: 0,
    };
    assert_eq!(eval.dispatch(100), Err(VmError::RuntimeFault));
}

#[test]
fn out_of_range_local_is_a_runtime_fault() {
    let code = vec![Op(I32Const), I32Imm(1), Op(LocalSet), I32Imm(5)];
    let sidetable = Vec::new();
    let mut eval = Eval {
        stack: vec![],
        locals: vec![0],
        codeptr: CodePtr { code, ip: 0 },
        sidetable,
        stp: 0,
    };
    assert_eq!(eval.dispatch(100), Err(VmError::RuntimeFault));
}

#[test]
fn fuel_runs_out_on_unbounded_loop() {
    // br 0 back to the loop entry, forever.
    let code = vec![Op(Loop), BlockType(0), Op(Br), I32Imm(0), Op(End)];
    let sidetable = make_sidetable(&code, 0);
    let mut eval = Eval {
        stack: vec![],
        locals: vec![],
        codeptr: CodePtr { code, ip: 0 },
        sidetable,
        stp: 0,
    };
    assert_eq!(eval.dispatch(1000), Ok(false));
}

#[test]
fn cursor_readers_check_entry_kinds() {
    let code = vec![Op(I32Const), I32Imm(4), BlockType(9)];
    let mut ptr = CodePtr { code, ip: 0 };
    assert_eq!(ptr.next(), Some(Op(I32Const)));
    assert_eq!(ptr.read_imm_i32(), Ok(4));
    assert_eq!(ptr.read_imm_i32(), Err(VmError::DecodeFault));
    let mut ptr2 = CodePtr { code: vec![BlockType(9)], ip: 0 };
    assert_eq!(ptr2.read_block_type(), Ok(9));
    assert_eq!(ptr2.read_op(), Ok(None));
    let mut ptr3 = CodePtr { code: vec![I32Imm(1)], ip: 0 };
    assert_eq!(ptr3.read_op(), Err(VmError::DecodeFault));
}

#[test]
fn build_sidetable_needs_resolved_targets() {
    // A record pointing at no frame cannot be resolved.
    let v = TypedValidate {
        stack: vec![],
        locals: vec![],
        ctl_entries: vec![CtlEntry { tipe: CtlType::Func, cont_ip: 0, cont_stp: 0 }],
        ctl_stack: vec![0],
        codeptr: CodePtr { code: vec![], ip: 0 },
        sidetable_meta: vec![SidetableMeta { br_ip: 0, target_ctl_idx: 9 }],
    };
    assert_eq!(v.build_sidetable(), Err(VmError::ValidationFault));
}

#[test]
fn pipeline_builds_the_same_sidetable() {
    let code = sum_code();
    let st = validate_and_build(code.clone(), 2).unwrap();
    assert_eq!(st, make_sidetable(&code, 2));
    let mut eval = Eval {
        stack: vec![],
        locals: vec![0; 2],
        codeptr: CodePtr { code, ip: 0 },
        sidetable: st,
        stp: 0,
    };
    assert_eq!(eval.dispatch(1_000_000), Ok(true));
    assert_eq!(eval.stack, vec![55]);
}

#[test]
fn pipeline_rejects_unbalanced_programs() {
    let code = vec![Op(Block), BlockType(0)];
    assert_eq!(validate_and_build(code, 0), Err(VmError::ValidationFault));
}
