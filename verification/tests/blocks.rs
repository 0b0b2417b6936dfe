use std::collections::VecDeque;

use cbd_vm::code::CodeEntry::{BlockType, I32Imm, Op};
use cbd_vm::code::Opcode::{Block, Br, BrIf, End, I32Add, I32Const, LocalGet, LocalSet, LocalTee, Loop};
use cbd_vm::code::{sum_code, CodeEntry, CodePtr, Opcode};
use cbd_vm::cps::{CPSEval, WASMFun};
use cbd_vm::eval::Eval;
use cbd_vm::validate::TypedValidate;

#[test]
fn partitioner_cuts_sum_program() {
    let w = WASMFun::new(sum_code()).unwrap();
    let cont_ips: Vec<usize> = w.conts.iter().map(|c| c.ip).collect();
    assert_eq!(cont_ips, vec![0, 12, 15, 23, 41, 42]);
    let tgts: Vec<usize> = w.branches.iter().map(|b| b.tgt_idx).collect();
    assert_eq!(tgts, vec![1, 2]);
    let blocks: Vec<(usize, usize)> = w.cont_blocks.iter().map(|b| (b.ip, b.br_tgt)).collect();
    assert_eq!(blocks, vec![(0, 2), (12, 0), (15, 0), (23, 3), (41, 0), (42, 0)]);
}

#[test]
fn continuations_cover_the_code() {
    let code = sum_code();
    let len = code.len();
    let w = WASMFun::new(code).unwrap();
    assert_eq!(w.conts[0].ip, 0);
    for i in 1..w.conts.len() {
        assert!(w.conts[i - 1].ip < w.conts[i].ip);
        assert!(w.conts[i].ip <= len);
    }
    assert_eq!(w.cont_blocks.len(), w.conts.len());
    for i in 0..w.conts.len() {
        assert_eq!(w.cont_blocks[i].ip, w.conts[i].ip);
    }
}

#[test]
fn partitioner_and_validator_agree_on_frames() {
    let code = sum_code();
    let w = WASMFun::new(code.clone()).unwrap();
    let mut v = TypedValidate::new(code, 2);
    v.dispatch().unwrap();
    // Same number of branch records (the validator keeps a sentinel) with
    // the same target frames, in the same order.
    assert_eq!(v.sidetable_meta.len(), w.branches.len() + 1);
    for j in 0..w.branches.len() {
        assert_eq!(v.sidetable_meta[j + 1].target_ctl_idx, w.branches[j].tgt_idx);
    }
}

#[test]
fn block_driver_matches_direct_evaluation() {
    let code = sum_code();
    let nlocals = 2;
    let mut v = TypedValidate::new(code.clone(), nlocals);
    v.dispatch().unwrap();
    let sidetable = v.build_sidetable().unwrap();
    let mut direct = Eval {
        stack: vec![],
        locals: vec![0; nlocals],
        codeptr: CodePtr { code: code.clone(), ip: 0 },
        sidetable,
        stp: 0,
    };
    assert_eq!(direct.dispatch(1_000_000), Ok(true));
    let w = WASMFun::new(code).unwrap();
    let mut interp = CPSEval { stack: vec![], locals: vec![0; nlocals] };
    assert_eq!(w.run(&mut interp, 1_000_000), Ok(true));
    assert_eq!(interp.stack, direct.stack);
    assert_eq!(interp.locals, direct.locals);
}

fn block_0(i: &mut CPSEval, wl: &mut VecDeque<usize>) {
    i.pushi_imm(5);
    i.cbd_block(0);
    i.pushi_imm(-15);
    i.pushi_imm(20);
    let x1 = i.popi().unwrap();
    let x2 = i.popi().unwrap();
    let x3 = i.i32_add(x1, x2);
    i.pushi(x3);
    let x4 = i.popi().unwrap();
    let x5 = i.popi().unwrap();
    let x6 = i.i32_add(x4, x5);
    i.pushi(x6);
    wl.push_back(2);
}

fn block_1(i: &mut CPSEval, wl: &mut VecDeque<usize>) {
    i.pushi_imm(-999);
    i.cbd_end();
    wl.push_back(2);
}

fn block_2(i: &mut CPSEval, wl: &mut VecDeque<usize>) {
    let x7 = i.pop().unwrap();
    i.set_local(0, x7).unwrap();
    i.pushi_imm(0);
    let x8 = i.pop().unwrap();
    i.set_local(1, x8).unwrap();
    wl.push_back(3);
}

fn block_3(i: &mut CPSEval, wl: &mut VecDeque<usize>) {
    i.cbd_loop(0);
    let x9 = i.get_local(0).unwrap();
    i.pushi(x9);
    let x10 = i.get_local(1).unwrap();
    i.pushi(x10);
    let x11 = i.popi().unwrap();
    let x12 = i.popi().unwrap();
    let x13 = i.i32_add(x11, x12);
    i.pushi(x13);
    let x14 = i.pop().unwrap();
    i.set_local(1, x14).unwrap();
    let x15 = i.get_local(0).unwrap();
    i.pushi(x15);
    i.pushi_imm(-1);
    let x16 = i.popi().unwrap();
    let x17 = i.popi().unwrap();
    let x18 = i.i32_add(x16, x17);
    i.pushi(x18);
    let x19 = i.pop().unwrap();
    i.set_local(0, x19).unwrap();
    let x20 = i.get_local(0).unwrap();
    i.pushi(x20);
    let x21 = i.popi().unwrap();
    let x22 = i.i32_eqz(x21);
    if x22 {
        wl.push_back(4);
    }
    if !x22 {
        wl.push_back(3);
    }
}

fn block_4(i: &mut CPSEval, wl: &mut VecDeque<usize>) {
    i.cbd_end();
    wl.push_back(5);
}

fn block_5(i: &mut CPSEval, _wl: &mut VecDeque<usize>) {
    let x23 = i.get_local(1).unwrap();
    i.pushi(x23);
}

#[test]
fn test_gen() {
    // The emitted blocks of the sum program, written out by hand and run
    // under the worklist driver against the concrete primitives. The
    // unscheduled block 1 holds the skipped constant.
    let blocks: [fn(&mut CPSEval, &mut VecDeque<usize>); 6] =
        [block_0, block_1, block_2, block_3, block_4, block_5];
    let nlocals = 2;
    let mut interpreter = CPSEval { stack: vec![], locals: vec![0; nlocals] };
    let mut wl = VecDeque::<usize>::new();
    wl.push_back(0);
    while let Some(b) = wl.pop_front() {
        blocks[b](&mut interpreter, &mut wl);
    }
    // The same final stack and locals as the direct evaluator on the same
    // input.
    let code = sum_code();
    let mut v = TypedValidate::new(code.clone(), nlocals);
    v.dispatch().unwrap();
    let sidetable = v.build_sidetable().unwrap();
    let mut direct = Eval {
        stack: vec![],
        locals: vec![0; nlocals],
        codeptr: CodePtr { code, ip: 0 },
        sidetable,
        stp: 0,
    };
    assert_eq!(direct.dispatch(1_000_000), Ok(true));
    assert_eq!(interpreter.stack, direct.stack);
    assert_eq!(interpreter.locals, direct.locals);
    assert_eq!(interpreter.stack, vec![55]);
}

#[test]
fn block_driver_runs_out_of_fuel_on_unbounded_loop() {
    let code = vec![Op(Loop), BlockType(0), Op(Br), I32Imm(0), Op(End)];
    let w = WASMFun::new(code).unwrap();
    let mut interp = CPSEval { stack: vec![], locals: vec![] };
    assert_eq!(w.run(&mut interp, 1000), Ok(false));
}
