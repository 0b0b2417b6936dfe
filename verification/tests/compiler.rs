use cbd_vm::balloon::{Balloon, Idk};
use cbd_vm::code::CodeEntry::{BlockType, I32Imm, Op};
use cbd_vm::code::Opcode::{Block, Br, BrIf, I32Add, I32Const, LocalGet, LocalSet, Loop};
use cbd_vm::code::Opcode::End as OpEnd;
use cbd_vm::code::{sum_code, CodeEntry, CodePtr, Opcode};
use cbd_vm::compile::{AbstractCompiler, Merge, Stmt, TypedCompiler};
use cbd_vm::cps::WASMFun;

#[test]
fn abstract_compiler_emits_sum_blocks() {
    let code = sum_code();
    let w = WASMFun::new(code.clone()).unwrap();
    let mut ac = AbstractCompiler {
        block_bodies: vec![vec![]; w.cont_blocks.len()],
        var_idx: 0,
        cont_blocks: w.cont_blocks.clone(),
        codeptr: CodePtr { code, ip: 0 },
        stp: 0,
    };
    ac.run().unwrap();
    assert_eq!(ac.block_bodies.len(), 6);
    assert_eq!(
        ac.block_bodies[0],
        vec![
            Stmt::PushiImm(5),
            Stmt::StartBlock(0),
            Stmt::PushiImm(-15),
            Stmt::PushiImm(20),
            Stmt::Popi(1),
            Stmt::Popi(2),
            Stmt::Add(3, 1, 2),
            Stmt::Pushi(3),
            Stmt::Popi(4),
            Stmt::Popi(5),
            Stmt::Add(6, 4, 5),
            Stmt::Pushi(6),
            Stmt::PushWork(2),
        ]
    );
    assert_eq!(ac.block_bodies[1], vec![Stmt::PushiImm(-999), Stmt::End, Stmt::PushWork(2)]);
    assert_eq!(
        ac.block_bodies[2],
        vec![
            Stmt::Pop(7),
            Stmt::SetLocal(0, 7),
            Stmt::PushiImm(0),
            Stmt::Pop(8),
            Stmt::SetLocal(1, 8),
            Stmt::PushWork(3),
        ]
    );
    assert_eq!(
        ac.block_bodies[3],
        vec![
            Stmt::StartLoop(0),
            Stmt::GetLocal(9, 0),
            Stmt::Pushi(9),
            Stmt::GetLocal(10, 1),
            Stmt::Pushi(10),
            Stmt::Popi(11),
            Stmt::Popi(12),
            Stmt::Add(13, 11, 12),
            Stmt::Pushi(13),
            Stmt::Pop(14),
            Stmt::SetLocal(1, 14),
            Stmt::GetLocal(15, 0),
            Stmt::Pushi(15),
            Stmt::PushiImm(-1),
            Stmt::Popi(16),
            Stmt::Popi(17),
            Stmt::Add(18, 16, 17),
            Stmt::Pushi(18),
            Stmt::Pop(19),
            Stmt::SetLocal(0, 19),
            Stmt::GetLocal(20, 0),
            Stmt::Pushi(20),
            Stmt::Popi(21),
            Stmt::Eqz(22, 21),
            Stmt::CondXfer(22, 4, 3),
        ]
    );
    assert_eq!(ac.block_bodies[4], vec![Stmt::End, Stmt::PushWork(5)]);
    assert_eq!(ac.block_bodies[5], vec![Stmt::GetLocal(23, 1), Stmt::Pushi(23)]);
    assert_eq!(ac.var_idx, 23);
}

#[test]
fn fresh_variables_are_consecutive() {
    let code = vec![Op(I32Add)];
    let w = WASMFun::new(code.clone()).unwrap();
    let mut ac = AbstractCompiler {
        block_bodies: vec![vec![]; w.cont_blocks.len()],
        var_idx: 0,
        cont_blocks: w.cont_blocks.clone(),
        codeptr: CodePtr { code, ip: 0 },
        stp: 0,
    };
    assert_eq!(ac.fv(), 1);
    assert_eq!(ac.fv(), 2);
    assert_eq!(ac.fv(), 3);
}

#[test]
fn listing_compiler_lists_a_small_program() {
    let code = vec![
        Op(Block),
        BlockType(0),
        Op(I32Const),
        I32Imm(1),
        Op(BrIf),
        I32Imm(0),
        Op(OpEnd),
    ];
    let mut tc = TypedCompiler { gen: vec![], codeptr: CodePtr { code, ip: 0 }, ic: 0 };
    tc.dispatch().unwrap();
    assert_eq!(
        tc.gen,
        vec![
            Stmt::StartBlock(0),
            Stmt::PushiImm(1),
            Stmt::Popi(1),
            Stmt::Eqz(2, 1),
            Stmt::CondBranchDepth(2, 0),
            Stmt::End,
        ]
    );
    assert_eq!(tc.ic, 2);
}

#[test]
fn listing_compiler_keeps_branch_depths() {
    let code = vec![Op(Block), BlockType(0), Op(Br), I32Imm(0), Op(OpEnd)];
    let mut tc = TypedCompiler { gen: vec![], codeptr: CodePtr { code, ip: 0 }, ic: 0 };
    tc.dispatch().unwrap();
    assert_eq!(tc.gen, vec![Stmt::StartBlock(0), Stmt::BranchDepth(0), Stmt::End]);
}

#[test]
fn balloons_answer_their_sides() {
    assert!(true.maybe_true());
    assert!(!true.maybe_false());
    assert!(!false.maybe_true());
    assert!(false.maybe_false());
    assert!(Idk.maybe_true());
    assert!(Idk.maybe_false());
    assert!(7usize.maybe_true());
    assert!(7usize.maybe_false());
}

#[test]
fn merge_tokens_are_inert() {
    let mut a: usize = 3;
    a.merge(&9);
    assert_eq!(a, 3);
    let mut u = ();
    u.merge(&());
}
