//! The abstract compiler: a symbolic interpretation whose every primitive
//! appends a statement of target code to a per-block buffer, keyed by the
//! compiler's own block pointer. Values are symbolic variable indices minted
//! by a monotonic counter; a conditional branch emits both guarded control
//! transfers, so both arms are explored.
//!
//! The mathematical model is the small-step function [`comp_step`]; the
//! executable compiler is proved to follow it step for step.

use vstd::prelude::*;
use crate::code::{CodeEntry, CodePtr, Opcode, VmError};
use crate::cps::ContBlock;
use crate::eval::{imm_at, block_type_at};

verus! {

/// Merging of interpretation states at control-flow join points.
pub trait Merge {
    /// Merge `other` into `self`.
    fn merge(&mut self, other: &Self);
}

/// The concrete evaluator needs no join information.
impl Merge for () {
    fn merge(&mut self, _other: &()) {
    }
}

/// The abstract compiler tracks merge states as block indices; the join is
/// recorded in the emitted code, not here.
impl Merge for usize {
    fn merge(&mut self, _other: &usize) {
    }
}

/// One statement of emitted target code. Symbolic values are variable
/// indices `xN`; `PushWork(b)` schedules block `b` on the worklist;
/// `CondXfer(c, f, t)` stands for the pair of guarded lines that merge into
/// and schedule the fall-through block `f` when `c` may be true and the
/// branch target `t` when `c` may be false; `MergeState(a, b)` merges block
/// `b`'s state sentinel into block `a`'s. The flat listing compiler leaves
/// branches unresolved as `BranchDepth` and `CondBranchDepth`, keeping the
/// label depth as written.
#[derive(Clone, Copy, Debug, PartialEq, Eq, Structural)]
pub enum Stmt {
    Popi(usize),
    PushiImm(i32),
    Pushi(usize),
    Pop(usize),
    SetLocal(i32, usize),
    GetLocal(usize, i32),
    StartBlock(usize),
    StartLoop(usize),
    End,
    Add(usize, usize, usize),
    Eqz(usize, usize),
    PushWork(usize),
    CondXfer(usize, usize, usize),
    MergeState(usize, usize),
    BranchDepth(i32),
    CondBranchDepth(usize, i32),
}

/// The compiler's state, as mathematics: the per-block statement buffers,
/// the variable counter, the cursor, and the block pointer.
#[verifier::ext_equal]
pub struct CompState {
    pub bodies: Seq<Seq<Stmt>>,
    pub var: int,
    pub ip: int,
    pub stp: int,
}

/// What one compilation step can do.
#[verifier::ext_equal]
pub enum CompOutcome {
    Next(CompState),
    Done(CompState),
    Fault(VmError),
}

/// Append statements to the buffer of the current block.
pub open spec fn emit_to(bodies: Seq<Seq<Stmt>>, stp: int, stmts: Seq<Stmt>) -> Seq<Seq<Stmt>> {
    bodies.update(stp, bodies[stp] + stmts)
}

/// One compilation step from an opcode boundary: decode the opcode, mint
/// the variables its handler needs, and append its statements to the
/// current block's buffer, moving to the next block at each cut.
pub open spec fn comp_step(
    code: Seq<CodeEntry>,
    blocks: Seq<ContBlock>,
    s: CompState,
) -> CompOutcome {
    if s.ip >= code.len() {
        CompOutcome::Done(s)
    } else if s.ip < 0 || !(0 <= s.stp < s.bodies.len()) {
        CompOutcome::Fault(VmError::RuntimeFault)
    } else {
        match code[s.ip] {
            CodeEntry::Op(op) => {
                let q = s.ip + 1;
                let v = s.var;
                match op {
                    Opcode::I32Const => match imm_at(code, q) {
                        Some(x) => CompOutcome::Next(
                            CompState {
                                bodies: emit_to(s.bodies, s.stp, seq![Stmt::PushiImm(x)]),
                                ip: q + 1,
                                ..s
                            },
                        ),
                        None => CompOutcome::Fault(VmError::DecodeFault),
                    },
                    Opcode::I32Add => {
                        if v + 3 > usize::MAX {
                            CompOutcome::Fault(VmError::RuntimeFault)
                        } else {
                            CompOutcome::Next(
                                CompState {
                                    bodies: emit_to(
                                        s.bodies,
                                        s.stp,
                                        seq![
                                            Stmt::Popi((v + 1) as usize),
                                            Stmt::Popi((v + 2) as usize),
                                            Stmt::Add(
                                                (v + 3) as usize,
                                                (v + 1) as usize,
                                                (v + 2) as usize,
                                            ),
                                            Stmt::Pushi((v + 3) as usize),
                                        ],
                                    ),
                                    var: v + 3,
                                    ip: q,
                                    ..s
                                },
                            )
                        }
                    }
                    Opcode::LocalSet => match imm_at(code, q) {
                        Some(idx) => {
                            if v + 1 > usize::MAX {
                                CompOutcome::Fault(VmError::RuntimeFault)
                            } else {
                                CompOutcome::Next(
                                    CompState {
                                        bodies: emit_to(
                                            s.bodies,
                                            s.stp,
                                            seq![
                                                Stmt::Pop((v + 1) as usize),
                                                Stmt::SetLocal(idx, (v + 1) as usize),
                                            ],
                                        ),
                                        var: v + 1,
                                        ip: q + 1,
                                        ..s
                                    },
                                )
                            }
                        }
                        None => CompOutcome::Fault(VmError::DecodeFault),
                    },
                    Opcode::LocalGet => match imm_at(code, q) {
                        Some(idx) => {
                            if v + 1 > usize::MAX {
                                CompOutcome::Fault(VmError::RuntimeFault)
                            } else {
                                CompOutcome::Next(
                                    CompState {
                                        bodies: emit_to(
                                            s.bodies,
                                            s.stp,
                                            seq![
                                                Stmt::GetLocal((v + 1) as usize, idx),
                                                Stmt::Pushi((v + 1) as usize),
                                            ],
                                        ),
                                        var: v + 1,
                                        ip: q + 1,
                                        ..s
                                    },
                                )
                            }
                        }
                        None => CompOutcome::Fault(VmError::DecodeFault),
                    },
                    Opcode::LocalTee => match imm_at(code, q) {
                        Some(idx) => {
                            if v + 1 > usize::MAX {
                                CompOutcome::Fault(VmError::RuntimeFault)
                            } else {
                                CompOutcome::Next(
                                    CompState {
                                        bodies: emit_to(
                                            s.bodies,
                                            s.stp,
                                            seq![
                                                Stmt::Pop((v + 1) as usize),
                                                Stmt::Pushi((v + 1) as usize),
                                                Stmt::SetLocal(idx, (v + 1) as usize),
                                            ],
                                        ),
                                        var: v + 1,
                                        ip: q + 1,
                                        ..s
                                    },
                                )
                            }
                        }
                        None => CompOutcome::Fault(VmError::DecodeFault),
                    },
                    Opcode::Block => match block_type_at(code, q) {
                        Some(t) => CompOutcome::Next(
                            CompState {
                                bodies: emit_to(s.bodies, s.stp, seq![Stmt::StartBlock(t)]),
                                ip: q + 1,
                                ..s
                            },
                        ),
                        None => CompOutcome::Fault(VmError::DecodeFault),
                    },
                    Opcode::Loop => match block_type_at(code, q) {
                        Some(t) => {
                            if s.stp + 1 >= s.bodies.len() {
                                CompOutcome::Fault(VmError::RuntimeFault)
                            } else {
                                CompOutcome::Next(
                                    CompState {
                                        bodies: emit_to(
                                            emit_to(
                                                s.bodies,
                                                s.stp,
                                                seq![Stmt::PushWork((s.stp + 1) as usize)],
                                            ),
                                            s.stp + 1,
                                            seq![Stmt::StartLoop(t)],
                                        ),
                                        stp: s.stp + 1,
                                        ip: q + 1,
                                        ..s
                                    },
                                )
                            }
                        }
                        None => CompOutcome::Fault(VmError::DecodeFault),
                    },
                    Opcode::End => {
                        if s.stp + 1 > usize::MAX {
                            CompOutcome::Fault(VmError::RuntimeFault)
                        } else {
                            CompOutcome::Next(
                                CompState {
                                    bodies: emit_to(
                                        s.bodies,
                                        s.stp,
                                        seq![
                                            Stmt::End,
                                            Stmt::PushWork((s.stp + 1) as usize),
                                        ],
                                    ),
                                    stp: s.stp + 1,
                                    ip: q,
                                    ..s
                                },
                            )
                        }
                    }
                    Opcode::Br => match imm_at(code, q) {
                        Some(_) => {
                            if !(s.stp < blocks.len()) || s.stp + 1 > usize::MAX {
                                CompOutcome::Fault(VmError::RuntimeFault)
                            } else {
                                CompOutcome::Next(
                                    CompState {
                                        bodies: emit_to(
                                            s.bodies,
                                            s.stp,
                                            seq![Stmt::PushWork(blocks[s.stp].br_tgt)],
                                        ),
                                        stp: s.stp + 1,
                                        ip: q + 1,
                                        ..s
                                    },
                                )
                            }
                        }
                        None => CompOutcome::Fault(VmError::DecodeFault),
                    },
                    Opcode::BrIf => match imm_at(code, q) {
                        Some(_) => {
                            if v + 2 > usize::MAX || !(s.stp < blocks.len()) || s.stp + 2
                                > usize::MAX {
                                CompOutcome::Fault(VmError::RuntimeFault)
                            } else {
                                CompOutcome::Next(
                                    CompState {
                                        bodies: emit_to(
                                            s.bodies,
                                            s.stp,
                                            seq![
                                                Stmt::Popi((v + 1) as usize),
                                                Stmt::Eqz((v + 2) as usize, (v + 1) as usize),
                                                Stmt::CondXfer(
                                                    (v + 2) as usize,
                                                    (s.stp + 1) as usize,
                                                    blocks[s.stp].br_tgt,
                                                ),
                                            ],
                                        ),
                                        var: v + 2,
                                        stp: s.stp + 1,
                                        ip: q + 1,
                                        ..s
                                    },
                                )
                            }
                        }
                        None => CompOutcome::Fault(VmError::DecodeFault),
                    },
                }
            }
            _ => CompOutcome::Fault(VmError::DecodeFault),
        }
    }
}

/// `n` compilation steps, with `Done` and `Fault` absorbing.
pub open spec fn comp_run(
    code: Seq<CodeEntry>,
    blocks: Seq<ContBlock>,
    s: CompState,
    n: nat,
) -> CompOutcome
    decreases n,
{
    if n == 0 {
        CompOutcome::Next(s)
    } else {
        match comp_run(code, blocks, s, (n - 1) as nat) {
            CompOutcome::Next(t) => comp_step(code, blocks, t),
            o => o,
        }
    }
}

/// The abstract compiler: per-block statement buffers, the variable
/// counter, the continuation blocks that resolve branch targets, the
/// cursor, and the block pointer.
pub struct AbstractCompiler {
    pub block_bodies: Vec<Vec<Stmt>>,
    pub var_idx: usize,
    pub cont_blocks: Vec<ContBlock>,
    pub codeptr: CodePtr,
    pub stp: usize,
}

impl AbstractCompiler {
    /// The compiler's state as mathematics.
    pub open spec fn to_state(&self) -> CompState {
        CompState {
            bodies: Seq::new(self.block_bodies@.len(), |i: int| self.block_bodies@[i]@),
            var: self.var_idx as int,
            ip: self.codeptr.ip as int,
            stp: self.stp as int,
        }
    }

    /// Mint a fresh symbolic variable index.
    pub fn fv(&mut self) -> (r: usize)
        requires
            old(self).var_idx < usize::MAX,
        ensures
            final(self).block_bodies == old(self).block_bodies,
            final(self).cont_blocks == old(self).cont_blocks,
            final(self).codeptr == old(self).codeptr,
            final(self).block_bodies@.len() == old(self).block_bodies@.len(),
            final(self).stp == old(self).stp,
            final(self).var_idx == old(self).var_idx + 1,
            r == final(self).var_idx,
    {
        self.var_idx = self.var_idx + 1;
        self.var_idx
    }

    /// Append one statement to the current block's buffer.
    fn emit_stmt(&mut self, st: Stmt)
        requires
            old(self).stp < old(self).block_bodies@.len(),
        ensures
            final(self).cont_blocks == old(self).cont_blocks,
            final(self).codeptr == old(self).codeptr,
            final(self).block_bodies@.len() == old(self).block_bodies@.len(),
            final(self).stp == old(self).stp,
            final(self).var_idx == old(self).var_idx,
            final(self).to_state().bodies == emit_to(
                old(self).to_state().bodies,
                old(self).stp as int,
                seq![st],
            ),
    {
        let mut row = self.block_bodies.remove(self.stp);
        row.push(st);
        self.block_bodies.insert(self.stp, row);
        proof {
            assert(self.to_state().bodies =~~= emit_to(
                old(self).to_state().bodies,
                old(self).stp as int,
                seq![st],
            ));
        }
    }

    /// Pop a symbolic integer: mint a fresh variable and record its
    /// definition.
    fn popi(&mut self) -> (r: usize)
        requires
            old(self).stp < old(self).block_bodies@.len(),
            old(self).var_idx < usize::MAX,
        ensures
            final(self).cont_blocks == old(self).cont_blocks,
            final(self).codeptr == old(self).codeptr,
            final(self).block_bodies@.len() == old(self).block_bodies@.len(),
            final(self).stp == old(self).stp,
            final(self).var_idx == old(self).var_idx + 1,
            r == old(self).var_idx + 1,
            final(self).to_state().bodies == emit_to(
                old(self).to_state().bodies,
                old(self).stp as int,
                seq![Stmt::Popi((old(self).var_idx + 1) as usize)],
            ),
    {
        let i = self.fv();
        self.emit_stmt(Stmt::Popi(i));
        i
    }

    /// Record the push of an immediate.
    fn pushi_imm(&mut self, x: i32)
        requires
            old(self).stp < old(self).block_bodies@.len(),
        ensures
            final(self).cont_blocks == old(self).cont_blocks,
            final(self).codeptr == old(self).codeptr,
            final(self).block_bodies@.len() == old(self).block_bodies@.len(),
            final(self).stp == old(self).stp,
            final(self).var_idx == old(self).var_idx,
            final(self).to_state().bodies == emit_to(
                old(self).to_state().bodies,
                old(self).stp as int,
                seq![Stmt::PushiImm(x)],
            ),
    {
        self.emit_stmt(Stmt::PushiImm(x));
    }

    /// Record the push of a symbolic integer.
    fn pushi(&mut self, x: usize)
        requires
            old(self).stp < old(self).block_bodies@.len(),
        ensures
            final(self).cont_blocks == old(self).cont_blocks,
            final(self).codeptr == old(self).codeptr,
            final(self).block_bodies@.len() == old(self).block_bodies@.len(),
            final(self).stp == old(self).stp,
            final(self).var_idx == old(self).var_idx,
            final(self).to_state().bodies == emit_to(
                old(self).to_state().bodies,
                old(self).stp as int,
                seq![Stmt::Pushi(x)],
            ),
    {
        self.emit_stmt(Stmt::Pushi(x));
    }

    /// Record the push of a symbolic stack value; emitted as `pushi` is.
    fn push(&mut self, x: usize)
        requires
            old(self).stp < old(self).block_bodies@.len(),
        ensures
            final(self).cont_blocks == old(self).cont_blocks,
            final(self).codeptr == old(self).codeptr,
            final(self).block_bodies@.len() == old(self).block_bodies@.len(),
            final(self).stp == old(self).stp,
            final(self).var_idx == old(self).var_idx,
            final(self).to_state().bodies == emit_to(
                old(self).to_state().bodies,
                old(self).stp as int,
                seq![Stmt::Pushi(x)],
            ),
    {
        self.emit_stmt(Stmt::Pushi(x));
    }

    /// Pop a symbolic stack value: mint a fresh variable and record its
    /// definition.
    fn pop(&mut self) -> (r: usize)
        requires
            old(self).stp < old(self).block_bodies@.len(),
            old(self).var_idx < usize::MAX,
        ensures
            final(self).cont_blocks == old(self).cont_blocks,
            final(self).codeptr == old(self).codeptr,
            final(self).block_bodies@.len() == old(self).block_bodies@.len(),
            final(self).stp == old(self).stp,
            final(self).var_idx == old(self).var_idx + 1,
            r == old(self).var_idx + 1,
            final(self).to_state().bodies == emit_to(
                old(self).to_state().bodies,
                old(self).stp as int,
                seq![Stmt::Pop((old(self).var_idx + 1) as usize)],
            ),
    {
        let i = self.fv();
        self.emit_stmt(Stmt::Pop(i));
        i
    }

    /// Record a store to a local.
    fn set_local(&mut self, idx: i32, val: usize)
        requires
            old(self).stp < old(self).block_bodies@.len(),
        ensures
            final(self).cont_blocks == old(self).cont_blocks,
            final(self).codeptr == old(self).codeptr,
            final(self).block_bodies@.len() == old(self).block_bodies@.len(),
            final(self).stp == old(self).stp,
            final(self).var_idx == old(self).var_idx,
            final(self).to_state().bodies == emit_to(
                old(self).to_state().bodies,
                old(self).stp as int,
                seq![Stmt::SetLocal(idx, val)],
            ),
    {
        self.emit_stmt(Stmt::SetLocal(idx, val));
    }

    /// Read a local: mint a fresh variable and record its definition.
    fn get_local(&mut self, idx: i32) -> (r: usize)
        requires
            old(self).stp < old(self).block_bodies@.len(),
            old(self).var_idx < usize::MAX,
        ensures
            final(self).cont_blocks == old(self).cont_blocks,
            final(self).codeptr == old(self).codeptr,
            final(self).block_bodies@.len() == old(self).block_bodies@.len(),
            final(self).stp == old(self).stp,
            final(self).var_idx == old(self).var_idx + 1,
            r == old(self).var_idx + 1,
            final(self).to_state().bodies == emit_to(
                old(self).to_state().bodies,
                old(self).stp as int,
                seq![Stmt::GetLocal((old(self).var_idx + 1) as usize, idx)],
            ),
    {
        let i = self.fv();
        self.emit_stmt(Stmt::GetLocal(i, idx));
        i
    }

    /// Entering a block emits its marker; the block pointer is unchanged.
    fn start_block(&mut self, ty_index: usize)
        requires
            old(self).stp < old(self).block_bodies@.len(),
        ensures
            final(self).cont_blocks == old(self).cont_blocks,
            final(self).codeptr == old(self).codeptr,
            final(self).block_bodies@.len() == old(self).block_bodies@.len(),
            final(self).stp == old(self).stp,
            final(self).var_idx == old(self).var_idx,
            final(self).to_state().bodies == emit_to(
                old(self).to_state().bodies,
                old(self).stp as int,
                seq![Stmt::StartBlock(ty_index)],
            ),
    {
        self.emit_stmt(Stmt::StartBlock(ty_index));
    }

    /// Entering a loop schedules the next block — the loop body is the
    /// successor cut — then advances to it and emits its marker there.
    fn start_loop(&mut self, ty_index: usize)
        requires
            old(self).stp + 1 < old(self).block_bodies@.len(),
            old(self).stp < usize::MAX,
        ensures
            final(self).cont_blocks == old(self).cont_blocks,
            final(self).codeptr == old(self).codeptr,
            final(self).block_bodies@.len() == old(self).block_bodies@.len(),
            final(self).stp == old(self).stp + 1,
            final(self).var_idx == old(self).var_idx,
            final(self).to_state().bodies == emit_to(
                emit_to(
                    old(self).to_state().bodies,
                    old(self).stp as int,
                    seq![Stmt::PushWork((old(self).stp + 1) as usize)],
                ),
                old(self).stp + 1,
                seq![Stmt::StartLoop(ty_index)],
            ),
    {
        let f = self.stp + 1;
        self.emit_stmt(Stmt::PushWork(f));
        self.stp = f;
        self.emit_stmt(Stmt::StartLoop(ty_index));
    }

    /// Closing a frame emits its marker, schedules the next block, and
    /// advances to it.
    fn end(&mut self)
        requires
            old(self).stp < old(self).block_bodies@.len(),
            old(self).stp < usize::MAX,
        ensures
            final(self).cont_blocks == old(self).cont_blocks,
            final(self).codeptr == old(self).codeptr,
            final(self).block_bodies@.len() == old(self).block_bodies@.len(),
            final(self).stp == old(self).stp + 1,
            final(self).var_idx == old(self).var_idx,
            final(self).to_state().bodies == emit_to(
                emit_to(
                    old(self).to_state().bodies,
                    old(self).stp as int,
                    seq![Stmt::End],
                ),
                old(self).stp as int,
                seq![Stmt::PushWork((old(self).stp + 1) as usize)],
            ),
    {
        self.emit_stmt(Stmt::End);
        let f = self.stp + 1;
        self.emit_stmt(Stmt::PushWork(f));
        self.stp = f;
    }

    /// Symbolic addition: mint the result variable and record the sum.
    fn i32_add(&mut self, x: usize, y: usize) -> (r: usize)
        requires
            old(self).stp < old(self).block_bodies@.len(),
            old(self).var_idx < usize::MAX,
        ensures
            final(self).cont_blocks == old(self).cont_blocks,
            final(self).codeptr == old(self).codeptr,
            final(self).block_bodies@.len() == old(self).block_bodies@.len(),
            final(self).stp == old(self).stp,
            final(self).var_idx == old(self).var_idx + 1,
            r == old(self).var_idx + 1,
            final(self).to_state().bodies == emit_to(
                old(self).to_state().bodies,
                old(self).stp as int,
                seq![Stmt::Add((old(self).var_idx + 1) as usize, x, y)],
            ),
    {
        let i = self.fv();
        self.emit_stmt(Stmt::Add(i, x, y));
        i
    }

    /// Symbolic test against zero: the result is a symbolic condition, a
    /// balloon whose two sides both answer true.
    fn i32_eqz(&mut self, x: usize) -> (r: usize)
        requires
            old(self).stp < old(self).block_bodies@.len(),
            old(self).var_idx < usize::MAX,
        ensures
            final(self).cont_blocks == old(self).cont_blocks,
            final(self).codeptr == old(self).codeptr,
            final(self).block_bodies@.len() == old(self).block_bodies@.len(),
            final(self).stp == old(self).stp,
            final(self).var_idx == old(self).var_idx + 1,
            r == old(self).var_idx + 1,
            final(self).to_state().bodies == emit_to(
                old(self).to_state().bodies,
                old(self).stp as int,
                seq![Stmt::Eqz((old(self).var_idx + 1) as usize, x)],
            ),
    {
        let i = self.fv();
        self.emit_stmt(Stmt::Eqz(i, x));
        i
    }

    /// An unconditional branch schedules its block's recorded target and
    /// advances the block pointer; the target is the merge token.
    fn branch(&mut self) -> (r: usize)
        requires
            old(self).stp < old(self).block_bodies@.len(),
            old(self).stp < old(self).cont_blocks@.len(),
            old(self).stp < usize::MAX,
        ensures
            final(self).cont_blocks == old(self).cont_blocks,
            final(self).codeptr == old(self).codeptr,
            final(self).block_bodies@.len() == old(self).block_bodies@.len(),
            final(self).stp == old(self).stp + 1,
            final(self).var_idx == old(self).var_idx,
            r == old(self).cont_blocks@[old(self).stp as int].br_tgt,
            final(self).to_state().bodies == emit_to(
                old(self).to_state().bodies,
                old(self).stp as int,
                seq![Stmt::PushWork(old(self).cont_blocks@[old(self).stp as int].br_tgt)],
            ),
    {
        let tgt = self.cont_blocks[self.stp].br_tgt;
        self.emit_stmt(Stmt::PushWork(tgt));
        self.stp = self.stp + 1;
        tgt
    }

    /// A fall-through schedules the next block and advances to it; the new
    /// block index is the merge token.
    fn fallthru(&mut self) -> (r: usize)
        requires
            old(self).stp < old(self).block_bodies@.len(),
            old(self).stp < usize::MAX,
        ensures
            final(self).cont_blocks == old(self).cont_blocks,
            final(self).codeptr == old(self).codeptr,
            final(self).block_bodies@.len() == old(self).block_bodies@.len(),
            final(self).stp == old(self).stp + 1,
            final(self).var_idx == old(self).var_idx,
            r == old(self).stp + 1,
            final(self).to_state().bodies == emit_to(
                old(self).to_state().bodies,
                old(self).stp as int,
                seq![Stmt::PushWork((old(self).stp + 1) as usize)],
            ),
    {
        let f = self.stp + 1;
        self.emit_stmt(Stmt::PushWork(f));
        self.stp = f;
        self.stp
    }

    /// Record an explicit join: the current block's state sentinel absorbs
    /// the other block's.
    fn merge(&mut self, other: usize)
        requires
            old(self).stp < old(self).block_bodies@.len(),
        ensures
            final(self).cont_blocks == old(self).cont_blocks,
            final(self).codeptr == old(self).codeptr,
            final(self).block_bodies@.len() == old(self).block_bodies@.len(),
            final(self).stp == old(self).stp,
            final(self).var_idx == old(self).var_idx,
            final(self).to_state().bodies == emit_to(
                old(self).to_state().bodies,
                old(self).stp as int,
                seq![Stmt::MergeState(old(self).stp, other)],
            ),
    {
        let here = self.stp;
        self.emit_stmt(Stmt::MergeState(here, other));
    }

    /// Run the handler set over the whole code against this symbolic
    /// backend: every instruction appends its statements to the current
    /// block's buffer, and each cut advances the block pointer. A finished
    /// run is exactly a terminating run of the compilation model; a failed
    /// one is exactly a run of the model into the same fault.
    #[verifier::rlimit(100)]
    pub fn run(&mut self) -> (r: Result<(), VmError>)
        ensures
            final(self).codeptr.code@ == old(self).codeptr.code@,
            final(self).cont_blocks@ == old(self).cont_blocks@,
            r matches Ok(_) ==> exists|n: nat|
                comp_run(old(self).codeptr.code@, old(self).cont_blocks@, old(self).to_state(), n)
                    == CompOutcome::Done(final(self).to_state()),
            r matches Err(e) ==> exists|n: nat|
                comp_run(old(self).codeptr.code@, old(self).cont_blocks@, old(self).to_state(), n)
                    == CompOutcome::Fault(e),
    {
        let ghost code = self.codeptr.code@;
        let ghost blocks = self.cont_blocks@;
        let ghost init = self.to_state();
        let ghost mut n: nat = 0;
        loop
            invariant
                code == old(self).codeptr.code@,
                blocks == old(self).cont_blocks@,
                init == old(self).to_state(),
                self.codeptr.code@ == code,
                self.cont_blocks@ == blocks,
                comp_run(code, blocks, init, n) == CompOutcome::Next(self.to_state()),
            decreases self.codeptr.code.len() - self.codeptr.ip,
        {
            let ghost pre = self.to_state();
            if self.codeptr.ip >= self.codeptr.code.len() {
                proof {
                    assert(comp_step(code, blocks, pre) == CompOutcome::Done(pre));
                    assert(comp_run(code, blocks, init, n + 1) == CompOutcome::Done(pre));
                }
                return Ok(());
            }
            if self.stp >= self.block_bodies.len() {
                proof {
                    assert(comp_step(code, blocks, pre)
                        == CompOutcome::Fault(VmError::RuntimeFault));
                    assert(comp_run(code, blocks, init, n + 1)
                        == CompOutcome::Fault(VmError::RuntimeFault));
                }
                return Err(VmError::RuntimeFault);
            }
            let op = match self.codeptr.read_op() {
                Ok(Some(o)) => o,
                Ok(None) => {
                    proof {
                        assert(false);
                    }
                    return Err(VmError::DecodeFault);
                }
                Err(e) => {
                    proof {
                        assert(comp_step(code, blocks, pre) == CompOutcome::Fault(e));
                        assert(comp_run(code, blocks, init, n + 1) == CompOutcome::Fault(e));
                    }
                    return Err(e);
                }
            };
            let ghost v0 = self.var_idx as int;
            let ghost stp0 = self.stp as int;
            match op {
                Opcode::I32Const => {
                    let x = match self.codeptr.read_imm_i32() {
                        Ok(x) => x,
                        Err(e) => {
                            proof {
                                assert(comp_step(code, blocks, pre) == CompOutcome::Fault(e));
                                assert(comp_run(code, blocks, init, n + 1)
                                    == CompOutcome::Fault(e));
                            }
                            return Err(e);
                        }
                    };
                    self.pushi_imm(x);
                }
                Opcode::I32Add => {
                    if self.var_idx > usize::MAX - 3 {
                        proof {
                            assert(comp_step(code, blocks, pre)
                                == CompOutcome::Fault(VmError::RuntimeFault));
                            assert(comp_run(code, blocks, init, n + 1)
                                == CompOutcome::Fault(VmError::RuntimeFault));
                        }
                        return Err(VmError::RuntimeFault);
                    }
                    let x = self.popi();
                    let y = self.popi();
                    let z = self.i32_add(x, y);
                    self.pushi(z);
                    proof {
                        assert(self.to_state().bodies =~~= emit_to(
                            pre.bodies,
                            stp0,
                            seq![
                                Stmt::Popi((v0 + 1) as usize),
                                Stmt::Popi((v0 + 2) as usize),
                                Stmt::Add((v0 + 3) as usize, (v0 + 1) as usize, (v0 + 2) as usize),
                                Stmt::Pushi((v0 + 3) as usize),
                            ],
                        ));
                    }
                }
                Opcode::LocalSet => {
                    let idx = match self.codeptr.read_imm_i32() {
                        Ok(x) => x,
                        Err(e) => {
                            proof {
                                assert(comp_step(code, blocks, pre) == CompOutcome::Fault(e));
                                assert(comp_run(code, blocks, init, n + 1)
                                    == CompOutcome::Fault(e));
                            }
                            return Err(e);
                        }
                    };
                    if self.var_idx == usize::MAX {
                        proof {
                            assert(comp_step(code, blocks, pre)
                                == CompOutcome::Fault(VmError::RuntimeFault));
                            assert(comp_run(code, blocks, init, n + 1)
                                == CompOutcome::Fault(VmError::RuntimeFault));
                        }
                        return Err(VmError::RuntimeFault);
                    }
                    let val = self.pop();
                    self.set_local(idx, val);
                    proof {
                        assert(self.to_state().bodies =~~= emit_to(
                            pre.bodies,
                            stp0,
                            seq![
                                Stmt::Pop((v0 + 1) as usize),
                                Stmt::SetLocal(idx, (v0 + 1) as usize),
                            ],
                        ));
                    }
                }
                Opcode::LocalGet => {
                    let idx = match self.codeptr.read_imm_i32() {
                        Ok(x) => x,
                        Err(e) => {
                            proof {
                                assert(comp_step(code, blocks, pre) == CompOutcome::Fault(e));
                                assert(comp_run(code, blocks, init, n + 1)
                                    == CompOutcome::Fault(e));
                            }
                            return Err(e);
                        }
                    };
                    if self.var_idx == usize::MAX {
                        proof {
                            assert(comp_step(code, blocks, pre)
                                == CompOutcome::Fault(VmError::RuntimeFault));
                            assert(comp_run(code, blocks, init, n + 1)
                                == CompOutcome::Fault(VmError::RuntimeFault));
                        }
                        return Err(VmError::RuntimeFault);
                    }
                    let local = self.get_local(idx);
                    self.push(local);
                    proof {
                        assert(self.to_state().bodies =~~= emit_to(
                            pre.bodies,
                            stp0,
                            seq![
                                Stmt::GetLocal((v0 + 1) as usize, idx),
                                Stmt::Pushi((v0 + 1) as usize),
                            ],
                        ));
                    }
                }
                Opcode::LocalTee => {
                    let idx = match self.codeptr.read_imm_i32() {
                        Ok(x) => x,
                        Err(e) => {
                            proof {
                                assert(comp_step(code, blocks, pre) == CompOutcome::Fault(e));
                                assert(comp_run(code, blocks, init, n + 1)
                                    == CompOutcome::Fault(e));
                            }
                            return Err(e);
                        }
                    };
                    if self.var_idx == usize::MAX {
                        proof {
                            assert(comp_step(code, blocks, pre)
                                == CompOutcome::Fault(VmError::RuntimeFault));
                            assert(comp_run(code, blocks, init, n + 1)
                                == CompOutcome::Fault(VmError::RuntimeFault));
                        }
                        return Err(VmError::RuntimeFault);
                    }
                    let val = self.pop();
                    self.push(val);
                    self.set_local(idx, val);
                    proof {
                        assert(self.to_state().bodies =~~= emit_to(
                            pre.bodies,
                            stp0,
                            seq![
                                Stmt::Pop((v0 + 1) as usize),
                                Stmt::Pushi((v0 + 1) as usize),
                                Stmt::SetLocal(idx, (v0 + 1) as usize),
                            ],
                        ));
                    }
                }
                Opcode::Block => {
                    let ty = match self.codeptr.read_block_type() {
                        Ok(t) => t,
                        Err(e) => {
                            proof {
                                assert(comp_step(code, blocks, pre) == CompOutcome::Fault(e));
                                assert(comp_run(code, blocks, init, n + 1)
                                    == CompOutcome::Fault(e));
                            }
                            return Err(e);
                        }
                    };
                    self.start_block(ty);
                }
                Opcode::Loop => {
                    let ty = match self.codeptr.read_block_type() {
                        Ok(t) => t,
                        Err(e) => {
                            proof {
                                assert(comp_step(code, blocks, pre) == CompOutcome::Fault(e));
                                assert(comp_run(code, blocks, init, n + 1)
                                    == CompOutcome::Fault(e));
                            }
                            return Err(e);
                        }
                    };
                    if self.stp >= self.block_bodies.len() - 1 {
                        proof {
                            assert(comp_step(code, blocks, pre)
                                == CompOutcome::Fault(VmError::RuntimeFault));
                            assert(comp_run(code, blocks, init, n + 1)
                                == CompOutcome::Fault(VmError::RuntimeFault));
                        }
                        return Err(VmError::RuntimeFault);
                    }
                    self.start_loop(ty);
                }
                Opcode::End => {
                    if self.stp == usize::MAX {
                        proof {
                            assert(comp_step(code, blocks, pre)
                                == CompOutcome::Fault(VmError::RuntimeFault));
                            assert(comp_run(code, blocks, init, n + 1)
                                == CompOutcome::Fault(VmError::RuntimeFault));
                        }
                        return Err(VmError::RuntimeFault);
                    }
                    self.end();
                    proof {
                        assert(self.to_state().bodies =~~= emit_to(
                            pre.bodies,
                            stp0,
                            seq![Stmt::End, Stmt::PushWork((stp0 + 1) as usize)],
                        ));
                    }
                }
                Opcode::Br => {
                    match self.codeptr.read_imm_i32() {
                        Ok(_) => {}
                        Err(e) => {
                            proof {
                                assert(comp_step(code, blocks, pre) == CompOutcome::Fault(e));
                                assert(comp_run(code, blocks, init, n + 1)
                                    == CompOutcome::Fault(e));
                            }
                            return Err(e);
                        }
                    }
                    if self.stp >= self.cont_blocks.len() || self.stp == usize::MAX {
                        proof {
                            assert(comp_step(code, blocks, pre)
                                == CompOutcome::Fault(VmError::RuntimeFault));
                            assert(comp_run(code, blocks, init, n + 1)
                                == CompOutcome::Fault(VmError::RuntimeFault));
                        }
                        return Err(VmError::RuntimeFault);
                    }
                    self.branch();
                }
                Opcode::BrIf => {
                    match self.codeptr.read_imm_i32() {
                        Ok(_) => {}
                        Err(e) => {
                            proof {
                                assert(comp_step(code, blocks, pre) == CompOutcome::Fault(e));
                                assert(comp_run(code, blocks, init, n + 1)
                                    == CompOutcome::Fault(e));
                            }
                            return Err(e);
                        }
                    }
                    if self.var_idx > usize::MAX - 2 || self.stp >= self.cont_blocks.len()
                        || self.stp >= usize::MAX - 1 {
                        proof {
                            assert(comp_step(code, blocks, pre)
                                == CompOutcome::Fault(VmError::RuntimeFault));
                            assert(comp_run(code, blocks, init, n + 1)
                                == CompOutcome::Fault(VmError::RuntimeFault));
                        }
                        return Err(VmError::RuntimeFault);
                    }
                    let condv = self.popi();
                    let condb = self.i32_eqz(condv);
                    let fallthru_idx = self.stp + 1;
                    let tgt = self.cont_blocks[self.stp].br_tgt;
                    self.emit_stmt(Stmt::CondXfer(condb, fallthru_idx, tgt));
                    self.stp = self.stp + 1;
                    proof {
                        assert(self.to_state().bodies =~~= emit_to(
                            pre.bodies,
                            stp0,
                            seq![
                                Stmt::Popi((v0 + 1) as usize),
                                Stmt::Eqz((v0 + 2) as usize, (v0 + 1) as usize),
                                Stmt::CondXfer(
                                    (v0 + 2) as usize,
                                    (stp0 + 1) as usize,
                                    blocks[stp0].br_tgt,
                                ),
                            ],
                        ));
                    }
                }
            }
            proof {
                assert(comp_step(code, blocks, pre) == CompOutcome::Next(self.to_state()));
                assert(comp_run(code, blocks, init, n + 1) == CompOutcome::Next(self.to_state()));
                n = n + 1;
            }
        }
    }
}

/// The flat listing compiler's state, as mathematics: the statement
/// buffer, the instruction counter for fresh variables, and the cursor.
#[verifier::ext_equal]
pub struct TcState {
    pub gen: Seq<Stmt>,
    pub var: int,
    pub ip: int,
}

/// What one listing step can do.
#[verifier::ext_equal]
pub enum TcOutcome {
    Next(TcState),
    Done(TcState),
    Fault(VmError),
}

/// One listing step from an opcode boundary: decode the opcode and append
/// its handler's statements to the single flat buffer. Structure markers
/// are listed as they stand and branches keep their label depths: nothing
/// is resolved here.
pub open spec fn tc_step(code: Seq<CodeEntry>, s: TcState) -> TcOutcome {
    if s.ip >= code.len() {
        TcOutcome::Done(s)
    } else if s.ip < 0 {
        TcOutcome::Fault(VmError::RuntimeFault)
    } else {
        match code[s.ip] {
            CodeEntry::Op(op) => {
                let q = s.ip + 1;
                let v = s.var;
                match op {
                    Opcode::I32Const => match imm_at(code, q) {
                        Some(x) => TcOutcome::Next(
                            TcState { gen: s.gen + seq![Stmt::PushiImm(x)], ip: q + 1, ..s },
                        ),
                        None => TcOutcome::Fault(VmError::DecodeFault),
                    },
                    Opcode::I32Add => {
                        if v + 3 > usize::MAX {
                            TcOutcome::Fault(VmError::RuntimeFault)
                        } else {
                            TcOutcome::Next(
                                TcState {
                                    gen: s.gen + seq![
                                        Stmt::Popi((v + 1) as usize),
                                        Stmt::Popi((v + 2) as usize),
                                        Stmt::Add(
                                            (v + 3) as usize,
                                            (v + 1) as usize,
                                            (v + 2) as usize,
                                        ),
                                        Stmt::Pushi((v + 3) as usize),
                                    ],
                                    var: v + 3,
                                    ip: q,
                                },
                            )
                        }
                    }
                    Opcode::LocalSet => match imm_at(code, q) {
                        Some(idx) => {
                            if v + 1 > usize::MAX {
                                TcOutcome::Fault(VmError::RuntimeFault)
                            } else {
                                TcOutcome::Next(
                                    TcState {
                                        gen: s.gen + seq![
                                            Stmt::Pop((v + 1) as usize),
                                            Stmt::SetLocal(idx, (v + 1) as usize),
                                        ],
                                        var: v + 1,
                                        ip: q + 1,
                                    },
                                )
                            }
                        }
                        None => TcOutcome::Fault(VmError::DecodeFault),
                    },
                    Opcode::LocalGet => match imm_at(code, q) {
                        Some(idx) => {
                            if v + 1 > usize::MAX {
                                TcOutcome::Fault(VmError::RuntimeFault)
                            } else {
                                TcOutcome::Next(
                                    TcState {
                                        gen: s.gen + seq![
                                            Stmt::GetLocal((v + 1) as usize, idx),
                                            Stmt::Pushi((v + 1) as usize),
                                        ],
                                        var: v + 1,
                                        ip: q + 1,
                                    },
                                )
                            }
                        }
                        None => TcOutcome::Fault(VmError::DecodeFault),
                    },
                    Opcode::LocalTee => match imm_at(code, q) {
                        Some(idx) => {
                            if v + 1 > usize::MAX {
                                TcOutcome::Fault(VmError::RuntimeFault)
                            } else {
                                TcOutcome::Next(
                                    TcState {
                                        gen: s.gen + seq![
                                            Stmt::Pop((v + 1) as usize),
                                            Stmt::Pushi((v + 1) as usize),
                                            Stmt::SetLocal(idx, (v + 1) as usize),
                                        ],
                                        var: v + 1,
                                        ip: q + 1,
                                    },
                                )
                            }
                        }
                        None => TcOutcome::Fault(VmError::DecodeFault),
                    },
                    Opcode::Block => match block_type_at(code, q) {
                        Some(t) => TcOutcome::Next(
                            TcState { gen: s.gen + seq![Stmt::StartBlock(t)], ip: q + 1, ..s },
                        ),
                        None => TcOutcome::Fault(VmError::DecodeFault),
                    },
                    Opcode::Loop => match block_type_at(code, q) {
                        Some(t) => TcOutcome::Next(
                            TcState { gen: s.gen + seq![Stmt::StartLoop(t)], ip: q + 1, ..s },
                        ),
                        None => TcOutcome::Fault(VmError::DecodeFault),
                    },
                    Opcode::End => TcOutcome::Next(
                        TcState { gen: s.gen + seq![Stmt::End], ip: q, ..s },
                    ),
                    Opcode::Br => match imm_at(code, q) {
                        Some(d) => TcOutcome::Next(
                            TcState { gen: s.gen + seq![Stmt::BranchDepth(d)], ip: q + 1, ..s },
                        ),
                        None => TcOutcome::Fault(VmError::DecodeFault),
                    },
                    Opcode::BrIf => match imm_at(code, q) {
                        Some(d) => {
                            if v + 2 > usize::MAX {
                                TcOutcome::Fault(VmError::RuntimeFault)
                            } else {
                                TcOutcome::Next(
                                    TcState {
                                        gen: s.gen + seq![
                                            Stmt::Popi((v + 1) as usize),
                                            Stmt::Eqz((v + 2) as usize, (v + 1) as usize),
                                            Stmt::CondBranchDepth((v + 2) as usize, d),
                                        ],
                                        var: v + 2,
                                        ip: q + 1,
                                    },
                                )
                            }
                        }
                        None => TcOutcome::Fault(VmError::DecodeFault),
                    },
                }
            }
            _ => TcOutcome::Fault(VmError::DecodeFault),
        }
    }
}

/// `n` listing steps, with `Done` and `Fault` absorbing.
pub open spec fn tc_run(code: Seq<CodeEntry>, s: TcState, n: nat) -> TcOutcome
    decreases n,
{
    if n == 0 {
        TcOutcome::Next(s)
    } else {
        match tc_run(code, s, (n - 1) as nat) {
            TcOutcome::Next(t) => tc_step(code, t),
            o => o,
        }
    }
}

/// A flat listing compiler: the cursor-handler interpretation that emits
/// one straight-line statement listing for the whole code, with structure
/// markers kept and branches left at their label depths.
pub struct TypedCompiler {
    pub gen: Vec<Stmt>,
    pub codeptr: CodePtr,
    pub ic: usize,
}

impl TypedCompiler {
    /// The listing compiler's state as mathematics.
    pub open spec fn to_state(&self) -> TcState {
        TcState { gen: self.gen@, var: self.ic as int, ip: self.codeptr.ip as int }
    }

    /// Drive the listing over the whole code: read each opcode and append
    /// its handler's statements until the cursor leaves the code or a fault
    /// stops the listing. A finished listing is exactly a terminating run
    /// of the listing model; a failed one is exactly a run of the model
    /// into the same fault.
    #[verifier::rlimit(100)]
    pub fn dispatch(&mut self) -> (r: Result<(), VmError>)
        ensures
            final(self).codeptr.code@ == old(self).codeptr.code@,
            r matches Ok(_) ==> exists|n: nat|
                tc_run(old(self).codeptr.code@, old(self).to_state(), n)
                    == TcOutcome::Done(final(self).to_state()),
            r matches Err(e) ==> exists|n: nat|
                tc_run(old(self).codeptr.code@, old(self).to_state(), n)
                    == TcOutcome::Fault(e),
    {
        let ghost code = self.codeptr.code@;
        let ghost init = self.to_state();
        let ghost mut n: nat = 0;
        loop
            invariant
                code == old(self).codeptr.code@,
                init == old(self).to_state(),
                self.codeptr.code@ == code,
                tc_run(code, init, n) == TcOutcome::Next(self.to_state()),
            decreases self.codeptr.code.len() - self.codeptr.ip,
        {
            let ghost pre = self.to_state();
            let op = match self.codeptr.read_op() {
                Ok(Some(o)) => o,
                Ok(None) => {
                    proof {
                        assert(tc_step(code, pre) == TcOutcome::Done(pre));
                        assert(tc_run(code, init, n + 1) == TcOutcome::Done(pre));
                    }
                    return Ok(());
                }
                Err(e) => {
                    proof {
                        assert(tc_step(code, pre) == TcOutcome::Fault(e));
                        assert(tc_run(code, init, n + 1) == TcOutcome::Fault(e));
                    }
                    return Err(e);
                }
            };
            let ghost v0 = self.ic as int;
            match op {
                Opcode::I32Const => {
                    let x = match self.codeptr.read_imm_i32() {
                        Ok(x) => x,
                        Err(e) => {
                            proof {
                                assert(tc_step(code, pre) == TcOutcome::Fault(e));
                                assert(tc_run(code, init, n + 1) == TcOutcome::Fault(e));
                            }
                            return Err(e);
                        }
                    };
                    self.gen.push(Stmt::PushiImm(x));
                }
                Opcode::I32Add => {
                    if self.ic > usize::MAX - 3 {
                        proof {
                            assert(tc_step(code, pre) == TcOutcome::Fault(VmError::RuntimeFault));
                            assert(tc_run(code, init, n + 1)
                                == TcOutcome::Fault(VmError::RuntimeFault));
                        }
                        return Err(VmError::RuntimeFault);
                    }
                    let x1 = self.ic + 1;
                    let x2 = self.ic + 2;
                    let x3 = self.ic + 3;
                    self.ic = x3;
                    self.gen.push(Stmt::Popi(x1));
                    self.gen.push(Stmt::Popi(x2));
                    self.gen.push(Stmt::Add(x3, x1, x2));
                    self.gen.push(Stmt::Pushi(x3));
                }
                Opcode::LocalSet => {
                    let idx = match self.codeptr.read_imm_i32() {
                        Ok(x) => x,
                        Err(e) => {
                            proof {
                                assert(tc_step(code, pre) == TcOutcome::Fault(e));
                                assert(tc_run(code, init, n + 1) == TcOutcome::Fault(e));
                            }
                            return Err(e);
                        }
                    };
                    if self.ic == usize::MAX {
                        proof {
                            assert(tc_step(code, pre) == TcOutcome::Fault(VmError::RuntimeFault));
                            assert(tc_run(code, init, n + 1)
                                == TcOutcome::Fault(VmError::RuntimeFault));
                        }
                        return Err(VmError::RuntimeFault);
                    }
                    let x1 = self.ic + 1;
                    self.ic = x1;
                    self.gen.push(Stmt::Pop(x1));
                    self.gen.push(Stmt::SetLocal(idx, x1));
                }
                Opcode::LocalGet => {
                    let idx = match self.codeptr.read_imm_i32() {
                        Ok(x) => x,
                        Err(e) => {
                            proof {
                                assert(tc_step(code, pre) == TcOutcome::Fault(e));
                                assert(tc_run(code, init, n + 1) == TcOutcome::Fault(e));
                            }
                            return Err(e);
                        }
                    };
                    if self.ic == usize::MAX {
                        proof {
                            assert(tc_step(code, pre) == TcOutcome::Fault(VmError::RuntimeFault));
                            assert(tc_run(code, init, n + 1)
                                == TcOutcome::Fault(VmError::RuntimeFault));
                        }
                        return Err(VmError::RuntimeFault);
                    }
                    let x1 = self.ic + 1;
                    self.ic = x1;
                    self.gen.push(Stmt::GetLocal(x1, idx));
                    self.gen.push(Stmt::Pushi(x1));
                }
                Opcode::LocalTee => {
                    let idx = match self.codeptr.read_imm_i32() {
                        Ok(x) => x,
                        Err(e) => {
                            proof {
                                assert(tc_step(code, pre) == TcOutcome::Fault(e));
                                assert(tc_run(code, init, n + 1) == TcOutcome::Fault(e));
                            }
                            return Err(e);
                        }
                    };
                    if self.ic == usize::MAX {
                        proof {
                            assert(tc_step(code, pre) == TcOutcome::Fault(VmError::RuntimeFault));
                            assert(tc_run(code, init, n + 1)
                                == TcOutcome::Fault(VmError::RuntimeFault));
                        }
                        return Err(VmError::RuntimeFault);
                    }
                    let x1 = self.ic + 1;
                    self.ic = x1;
                    self.gen.push(Stmt::Pop(x1));
                    self.gen.push(Stmt::Pushi(x1));
                    self.gen.push(Stmt::SetLocal(idx, x1));
                }
                Opcode::Block => {
                    let ty = match self.codeptr.read_block_type() {
                        Ok(t) => t,
                        Err(e) => {
                            proof {
                                assert(tc_step(code, pre) == TcOutcome::Fault(e));
                                assert(tc_run(code, init, n + 1) == TcOutcome::Fault(e));
                            }
                            return Err(e);
                        }
                    };
                    self.gen.push(Stmt::StartBlock(ty));
                }
                Opcode::Loop => {
                    let ty = match self.codeptr.read_block_type() {
                        Ok(t) => t,
                        Err(e) => {
                            proof {
                                assert(tc_step(code, pre) == TcOutcome::Fault(e));
                                assert(tc_run(code, init, n + 1) == TcOutcome::Fault(e));
                            }
                            return Err(e);
                        }
                    };
                    self.gen.push(Stmt::StartLoop(ty));
                }
                Opcode::End => {
                    self.gen.push(Stmt::End);
                }
                Opcode::Br => {
                    let d = match self.codeptr.read_imm_i32() {
                        Ok(x) => x,
                        Err(e) => {
                            proof {
                                assert(tc_step(code, pre) == TcOutcome::Fault(e));
                                assert(tc_run(code, init, n + 1) == TcOutcome::Fault(e));
                            }
                            return Err(e);
                        }
                    };
                    self.gen.push(Stmt::BranchDepth(d));
                }
                Opcode::BrIf => {
                    let d = match self.codeptr.read_imm_i32() {
                        Ok(x) => x,
                        Err(e) => {
                            proof {
                                assert(tc_step(code, pre) == TcOutcome::Fault(e));
                                assert(tc_run(code, init, n + 1) == TcOutcome::Fault(e));
                            }
                            return Err(e);
                        }
                    };
                    if self.ic > usize::MAX - 2 {
                        proof {
                            assert(tc_step(code, pre) == TcOutcome::Fault(VmError::RuntimeFault));
                            assert(tc_run(code, init, n + 1)
                                == TcOutcome::Fault(VmError::RuntimeFault));
                        }
                        return Err(VmError::RuntimeFault);
                    }
                    let x1 = self.ic + 1;
                    let x2 = self.ic + 2;
                    self.ic = x2;
                    self.gen.push(Stmt::Popi(x1));
                    self.gen.push(Stmt::Eqz(x2, x1));
                    self.gen.push(Stmt::CondBranchDepth(x2, d));
                }
            }
            proof {
                assert(self.to_state().gen =~= pre.gen + (self.to_state().gen.skip(
                    pre.gen.len() as int,
                )));
                assert(tc_step(code, pre) == TcOutcome::Next(self.to_state()));
                assert(tc_run(code, init, n + 1) == TcOutcome::Next(self.to_state()));
                n = n + 1;
            }
        }
    }
}

} // verus!
