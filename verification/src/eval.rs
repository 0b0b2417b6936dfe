//! The direct evaluator: a concrete interpretation over 32-bit integers that
//! services structured branches in constant time through the sidetable.
//!
//! The mathematical model is the small-step function [`eval_step`]; the
//! executable machine is proved to follow it step for step.

use vstd::prelude::*;
use vstd::wrapping::i32_specs;
use crate::balloon::Balloon;
use crate::code::{CodeEntry, CodePtr, Opcode, VmError};

verus! {

/// One sidetable entry: the relative jump a taken branch applies to the
/// instruction pointer and to the sidetable pointer.
#[derive(Clone, Copy, Debug, PartialEq, Eq, Structural)]
pub struct STEntry {
    pub ip_delta: isize,
    pub stp_delta: isize,
}

/// The evaluator's state, as mathematics: the value stack, the locals, the
/// instruction pointer and the sidetable pointer.
#[verifier::ext_equal]
pub struct EvalState {
    pub stack: Seq<i32>,
    pub locals: Seq<i32>,
    pub ip: int,
    pub stp: int,
}

/// What one step of evaluation can do: continue in a new state, stop at the
/// end of the code, or hit a fatal fault.
#[verifier::ext_equal]
pub enum EvalOutcome {
    Next(EvalState),
    Done(EvalState),
    Fault(VmError),
}

/// The 32-bit immediate at position `p`, if that position holds one.
pub open spec fn imm_at(code: Seq<CodeEntry>, p: int) -> Option<i32> {
    if 0 <= p < code.len() {
        match code[p] {
            CodeEntry::I32Imm(v) => Some(v),
            _ => None,
        }
    } else {
        None
    }
}

/// The block-type index at position `p`, if that position holds one.
pub open spec fn block_type_at(code: Seq<CodeEntry>, p: int) -> Option<usize> {
    if 0 <= p < code.len() {
        match code[p] {
            CodeEntry::BlockType(t) => Some(t),
            _ => None,
        }
    } else {
        None
    }
}

/// A taken branch: advance the sidetable pointer by one, then apply the
/// entry's two deltas. `s.ip` already points past the branch's immediate.
pub open spec fn branch_step(st: Seq<STEntry>, s: EvalState) -> EvalOutcome {
    let i = s.stp + 1;
    if !(0 <= i < st.len()) {
        EvalOutcome::Fault(VmError::RuntimeFault)
    } else {
        let ip2 = s.ip + st[i].ip_delta;
        let stp2 = i + st[i].stp_delta;
        if ip2 < 0 || ip2 > usize::MAX || stp2 < 0 || stp2 > usize::MAX {
            EvalOutcome::Fault(VmError::RuntimeFault)
        } else {
            EvalOutcome::Next(EvalState { ip: ip2, stp: stp2, ..s })
        }
    }
}

/// A branch not taken: advance the sidetable pointer past the entry for the
/// branch being skipped.
pub open spec fn fallthru_step(s: EvalState) -> EvalOutcome {
    if s.stp + 1 > usize::MAX {
        EvalOutcome::Fault(VmError::RuntimeFault)
    } else {
        EvalOutcome::Next(EvalState { stp: s.stp + 1, ..s })
    }
}

/// The effect of the handler for `op`, invoked once the opcode entry itself
/// has been consumed: `s.ip` points at the operand position.
pub open spec fn handler_step(
    code: Seq<CodeEntry>,
    st: Seq<STEntry>,
    s: EvalState,
    op: Opcode,
) -> EvalOutcome {
    let q = s.ip;
    match op {
        Opcode::I32Const => match imm_at(code, q) {
            Some(v) => EvalOutcome::Next(
                EvalState { stack: s.stack.push(v), ip: q + 1, ..s },
            ),
            None => EvalOutcome::Fault(VmError::DecodeFault),
        },
        Opcode::I32Add => {
            if s.stack.len() < 2 {
                EvalOutcome::Fault(VmError::RuntimeFault)
            } else {
                let x = s.stack.last();
                let y = s.stack.drop_last().last();
                let z = i32_specs::wrapping_add(x, y);
                EvalOutcome::Next(
                    EvalState { stack: s.stack.drop_last().drop_last().push(z), ..s },
                )
            }
        }
        Opcode::LocalSet => match imm_at(code, q) {
            Some(idx) => {
                if s.stack.len() == 0 || idx < 0 || idx >= s.locals.len() {
                    EvalOutcome::Fault(VmError::RuntimeFault)
                } else {
                    EvalOutcome::Next(
                        EvalState {
                            stack: s.stack.drop_last(),
                            locals: s.locals.update(idx as int, s.stack.last()),
                            ip: q + 1,
                            ..s
                        },
                    )
                }
            }
            None => EvalOutcome::Fault(VmError::DecodeFault),
        },
        Opcode::LocalGet => match imm_at(code, q) {
            Some(idx) => {
                if idx < 0 || idx >= s.locals.len() {
                    EvalOutcome::Fault(VmError::RuntimeFault)
                } else {
                    EvalOutcome::Next(
                        EvalState { stack: s.stack.push(s.locals[idx as int]), ip: q + 1, ..s },
                    )
                }
            }
            None => EvalOutcome::Fault(VmError::DecodeFault),
        },
        Opcode::LocalTee => match imm_at(code, q) {
            Some(idx) => {
                if s.stack.len() == 0 || idx < 0 || idx >= s.locals.len() {
                    EvalOutcome::Fault(VmError::RuntimeFault)
                } else {
                    EvalOutcome::Next(
                        EvalState {
                            locals: s.locals.update(idx as int, s.stack.last()),
                            ip: q + 1,
                            ..s
                        },
                    )
                }
            }
            None => EvalOutcome::Fault(VmError::DecodeFault),
        },
        Opcode::Block | Opcode::Loop => match block_type_at(code, q) {
            Some(_) => EvalOutcome::Next(EvalState { ip: q + 1, ..s }),
            None => EvalOutcome::Fault(VmError::DecodeFault),
        },
        Opcode::End => EvalOutcome::Next(s),
        Opcode::Br => match imm_at(code, q) {
            Some(_) => branch_step(st, EvalState { ip: q + 1, ..s }),
            None => EvalOutcome::Fault(VmError::DecodeFault),
        },
        Opcode::BrIf => match imm_at(code, q) {
            Some(_) => {
                if s.stack.len() == 0 {
                    EvalOutcome::Fault(VmError::RuntimeFault)
                } else {
                    let c = s.stack.last();
                    let popped = EvalState { stack: s.stack.drop_last(), ip: q + 1, ..s };
                    if c == 0 {
                        fallthru_step(popped)
                    } else {
                        branch_step(st, popped)
                    }
                }
            }
            None => EvalOutcome::Fault(VmError::DecodeFault),
        },
    }
}

/// One full evaluation step from an opcode boundary: done at the end of the
/// code, a decode fault on an operand entry, else the opcode's handler.
pub open spec fn eval_step(code: Seq<CodeEntry>, st: Seq<STEntry>, s: EvalState) -> EvalOutcome {
    if s.ip >= code.len() {
        EvalOutcome::Done(s)
    } else if s.ip < 0 {
        EvalOutcome::Fault(VmError::RuntimeFault)
    } else {
        match code[s.ip] {
            CodeEntry::Op(op) => handler_step(code, st, EvalState { ip: s.ip + 1, ..s }, op),
            _ => EvalOutcome::Fault(VmError::DecodeFault),
        }
    }
}

/// `n` steps of evaluation, with `Done` and `Fault` absorbing.
pub open spec fn eval_run(
    code: Seq<CodeEntry>,
    st: Seq<STEntry>,
    s: EvalState,
    n: nat,
) -> EvalOutcome
    decreases n,
{
    if n == 0 {
        EvalOutcome::Next(s)
    } else {
        match eval_run(code, st, s, (n - 1) as nat) {
            EvalOutcome::Next(t) => eval_step(code, st, t),
            o => o,
        }
    }
}

/// Relates a handler's outcome to what the executable handler returned: a
/// `Next` outcome must be matched by `Ok` and the predicted state, a `Fault`
/// by the same error.
pub open spec fn follows(o: EvalOutcome, r: Result<(), VmError>, t: EvalState) -> bool {
    match o {
        EvalOutcome::Next(t2) => r == Ok::<(), VmError>(()) && t == t2,
        EvalOutcome::Fault(e) => r == Err::<(), VmError>(e),
        EvalOutcome::Done(_) => false,
    }
}

/// The direct evaluator: value stack, integer locals, cursor, sidetable and
/// sidetable pointer.
pub struct Eval {
    pub stack: Vec<i32>,
    pub locals: Vec<i32>,
    pub codeptr: CodePtr,
    pub sidetable: Vec<STEntry>,
    pub stp: usize,
}

impl Eval {
    /// The machine's state as mathematics.
    pub open spec fn to_state(&self) -> EvalState {
        EvalState {
            stack: self.stack@,
            locals: self.locals@,
            ip: self.codeptr.ip as int,
            stp: self.stp as int,
        }
    }

    /// Pop the integer on top of the value stack; an empty stack is a fatal
    /// runtime fault.
    pub fn popi(&mut self) -> (r: Result<i32, VmError>)
        ensures
            final(self).codeptr == old(self).codeptr,
            final(self).sidetable == old(self).sidetable,
            final(self).locals == old(self).locals,
            final(self).stp == old(self).stp,
            old(self).stack@.len() > 0 ==> r == Ok::<i32, VmError>(old(self).stack@.last())
                && final(self).stack@ == old(self).stack@.drop_last(),
            old(self).stack@.len() == 0 ==> r == Err::<i32, VmError>(VmError::RuntimeFault)
                && final(self).stack@ == old(self).stack@,
    {
        match self.stack.pop() {
            Some(x) => Ok(x),
            None => Err(VmError::RuntimeFault),
        }
    }

    /// Push an immediate integer.
    pub fn pushi_imm(&mut self, x: i32)
        ensures
            final(self).codeptr == old(self).codeptr,
            final(self).sidetable == old(self).sidetable,
            final(self).locals == old(self).locals,
            final(self).stp == old(self).stp,
            final(self).stack@ == old(self).stack@.push(x),
    {
        self.pushi(x)
    }

    /// Push an integer value.
    pub fn pushi(&mut self, x: i32)
        ensures
            final(self).codeptr == old(self).codeptr,
            final(self).sidetable == old(self).sidetable,
            final(self).locals == old(self).locals,
            final(self).stp == old(self).stp,
            final(self).stack@ == old(self).stack@.push(x),
    {
        self.stack.push(x)
    }

    /// Push a stack value; for this interpretation the same as `pushi`.
    pub fn push(&mut self, x: i32)
        ensures
            final(self).codeptr == old(self).codeptr,
            final(self).sidetable == old(self).sidetable,
            final(self).locals == old(self).locals,
            final(self).stp == old(self).stp,
            final(self).stack@ == old(self).stack@.push(x),
    {
        self.stack.push(x)
    }

    /// Pop a stack value; for this interpretation the same as `popi`.
    pub fn pop(&mut self) -> (r: Result<i32, VmError>)
        ensures
            final(self).codeptr == old(self).codeptr,
            final(self).sidetable == old(self).sidetable,
            final(self).locals == old(self).locals,
            final(self).stp == old(self).stp,
            old(self).stack@.len() > 0 ==> r == Ok::<i32, VmError>(old(self).stack@.last())
                && final(self).stack@ == old(self).stack@.drop_last(),
            old(self).stack@.len() == 0 ==> r == Err::<i32, VmError>(VmError::RuntimeFault)
                && final(self).stack@ == old(self).stack@,
    {
        match self.stack.pop() {
            Some(x) => Ok(x),
            None => Err(VmError::RuntimeFault),
        }
    }

    /// Store a value into a local; a negative or out-of-range index is a
    /// fatal runtime fault.
    pub fn set_local(&mut self, idx: i32, val: i32) -> (r: Result<(), VmError>)
        ensures
            final(self).codeptr == old(self).codeptr,
            final(self).sidetable == old(self).sidetable,
            final(self).stack == old(self).stack,
            final(self).stp == old(self).stp,
            (0 <= idx < old(self).locals@.len()) ==> r == Ok::<(), VmError>(())
                && final(self).locals@ == old(self).locals@.update(idx as int, val),
            !(0 <= idx < old(self).locals@.len()) ==> r == Err::<(), VmError>(
                VmError::RuntimeFault,
            ) && final(self).locals == old(self).locals,
    {
        if idx >= 0 && (idx as usize) < self.locals.len() {
            self.locals[idx as usize] = val;
            Ok(())
        } else {
            Err(VmError::RuntimeFault)
        }
    }

    /// Load a value from a local; a negative or out-of-range index is a
    /// fatal runtime fault.
    pub fn get_local(&mut self, idx: i32) -> (r: Result<i32, VmError>)
        ensures
            *final(self) == *old(self),
            (0 <= idx < old(self).locals@.len()) ==> r == Ok::<i32, VmError>(
                old(self).locals@[idx as int],
            ),
            !(0 <= idx < old(self).locals@.len()) ==> r == Err::<i32, VmError>(
                VmError::RuntimeFault,
            ),
    {
        if idx >= 0 && (idx as usize) < self.locals.len() {
            Ok(self.locals[idx as usize])
        } else {
            Err(VmError::RuntimeFault)
        }
    }

    /// Entering a block is a no-op: the structure is already encoded in the
    /// sidetable.
    pub fn start_block(&mut self, _ty_index: usize)
        ensures
            *final(self) == *old(self),
    {
    }

    /// Entering a loop is a no-op, as `start_block` is.
    pub fn start_loop(&mut self, _ty_index: usize)
        ensures
            *final(self) == *old(self),
    {
    }

    /// Closing a block or loop is a no-op, as `start_block` is.
    pub fn end(&mut self)
        ensures
            *final(self) == *old(self),
    {
    }

    /// Two's-complement 32-bit addition.
    pub fn addi32(x: i32, y: i32) -> (r: i32)
        ensures
            r == i32_specs::wrapping_add(x, y),
    {
        x.wrapping_add(y)
    }

    /// The branch condition: is the integer zero? Zero means "fall through".
    pub fn i32_eqz(x: i32) -> (r: bool)
        ensures
            r == (x == 0),
    {
        x == 0
    }

    /// Take a branch: advance the sidetable pointer to this branch's entry,
    /// then apply its deltas to the instruction and sidetable pointers. The
    /// label depth is already resolved into the sidetable and is ignored.
    pub fn branch(&mut self, _label_idx: i32) -> (r: Result<(), VmError>)
        ensures
            final(self).codeptr.code == old(self).codeptr.code,
            final(self).sidetable == old(self).sidetable,
            final(self).stack == old(self).stack,
            final(self).locals == old(self).locals,
            follows(branch_step(old(self).sidetable@, old(self).to_state()), r, final(self).to_state()),
            r matches Err(_) ==> *final(self) == *old(self),
    {
        let n = self.sidetable.len();
        if n == 0 || self.stp >= n - 1 {
            return Err(VmError::RuntimeFault);
        }
        let i = self.stp + 1;
        let ste = self.sidetable[i];
        let ip2: i128 = (self.codeptr.ip as i128) + (ste.ip_delta as i128);
        let stp2: i128 = (i as i128) + (ste.stp_delta as i128);
        if ip2 < 0 || ip2 > (usize::MAX as i128) || stp2 < 0 || stp2 > (usize::MAX as i128) {
            return Err(VmError::RuntimeFault);
        }
        self.codeptr.ip = ip2 as usize;
        self.stp = stp2 as usize;
        Ok(())
    }

    /// Skip a branch not taken: advance the sidetable pointer past this
    /// branch's entry so later branches stay in step.
    pub fn fallthru(&mut self) -> (r: Result<(), VmError>)
        ensures
            final(self).codeptr == old(self).codeptr,
            final(self).sidetable == old(self).sidetable,
            final(self).stack == old(self).stack,
            final(self).locals == old(self).locals,
            follows(fallthru_step(old(self).to_state()), r, final(self).to_state()),
            r matches Err(_) ==> *final(self) == *old(self),
    {
        if self.stp == usize::MAX {
            return Err(VmError::RuntimeFault);
        }
        self.stp = self.stp + 1;
        Ok(())
    }

    /// Handler for `i32.const`: read the immediate and push it.
    pub fn cbd_i32_const(&mut self) -> (r: Result<(), VmError>)
        ensures
            final(self).codeptr.code == old(self).codeptr.code,
            final(self).sidetable == old(self).sidetable,
            follows(
                handler_step(
                    old(self).codeptr.code@,
                    old(self).sidetable@,
                    old(self).to_state(),
                    Opcode::I32Const,
                ),
                r,
                final(self).to_state(),
            ),
    {
        let x = match self.codeptr.read_imm_i32() {
            Ok(v) => v,
            Err(e) => return Err(e),
        };
        self.pushi_imm(x);
        Ok(())
    }

    /// Handler for `i32.add`: pop two values, add them, push the sum.
    pub fn cbd_i32_add(&mut self) -> (r: Result<(), VmError>)
        ensures
            final(self).codeptr.code == old(self).codeptr.code,
            final(self).sidetable == old(self).sidetable,
            follows(
                handler_step(
                    old(self).codeptr.code@,
                    old(self).sidetable@,
                    old(self).to_state(),
                    Opcode::I32Add,
                ),
                r,
                final(self).to_state(),
            ),
    {
        let x = match self.popi() {
            Ok(v) => v,
            Err(e) => return Err(e),
        };
        let y = match self.popi() {
            Ok(v) => v,
            Err(e) => return Err(e),
        };
        let z = Self::addi32(x, y);
        self.pushi(z);
        Ok(())
    }

    /// Handler for `local.set`: read the index, pop a value, store it.
    pub fn cbd_local_set(&mut self) -> (r: Result<(), VmError>)
        ensures
            final(self).codeptr.code == old(self).codeptr.code,
            final(self).sidetable == old(self).sidetable,
            follows(
                handler_step(
                    old(self).codeptr.code@,
                    old(self).sidetable@,
                    old(self).to_state(),
                    Opcode::LocalSet,
                ),
                r,
                final(self).to_state(),
            ),
    {
        let idx = match self.codeptr.read_imm_i32() {
            Ok(v) => v,
            Err(e) => return Err(e),
        };
        let val = match self.pop() {
            Ok(v) => v,
            Err(e) => return Err(e),
        };
        self.set_local(idx, val)
    }

    /// Handler for `local.get`: read the index, load the local, push it.
    pub fn cbd_local_get(&mut self) -> (r: Result<(), VmError>)
        ensures
            final(self).codeptr.code == old(self).codeptr.code,
            final(self).sidetable == old(self).sidetable,
            follows(
                handler_step(
                    old(self).codeptr.code@,
                    old(self).sidetable@,
                    old(self).to_state(),
                    Opcode::LocalGet,
                ),
                r,
                final(self).to_state(),
            ),
    {
        let idx = match self.codeptr.read_imm_i32() {
            Ok(v) => v,
            Err(e) => return Err(e),
        };
        let local = match self.get_local(idx) {
            Ok(v) => v,
            Err(e) => return Err(e),
        };
        self.push(local);
        Ok(())
    }

    /// Handler for `local.tee`: read the index, pop a value, push it back,
    /// and store a copy.
    pub fn cbd_local_tee(&mut self) -> (r: Result<(), VmError>)
        ensures
            final(self).codeptr.code == old(self).codeptr.code,
            final(self).sidetable == old(self).sidetable,
            follows(
                handler_step(
                    old(self).codeptr.code@,
                    old(self).sidetable@,
                    old(self).to_state(),
                    Opcode::LocalTee,
                ),
                r,
                final(self).to_state(),
            ),
    {
        let ghost pre_stack = self.stack@;
        let idx = match self.codeptr.read_imm_i32() {
            Ok(v) => v,
            Err(e) => return Err(e),
        };
        let val = match self.pop() {
            Ok(v) => v,
            Err(e) => return Err(e),
        };
        self.push(val);
        proof {
            assert(self.stack@ =~= pre_stack);
        }
        self.set_local(idx, val)
    }

    /// Handler for `block`: read the block-type index and enter the block.
    pub fn cbd_block(&mut self) -> (r: Result<(), VmError>)
        ensures
            final(self).codeptr.code == old(self).codeptr.code,
            final(self).sidetable == old(self).sidetable,
            follows(
                handler_step(
                    old(self).codeptr.code@,
                    old(self).sidetable@,
                    old(self).to_state(),
                    Opcode::Block,
                ),
                r,
                final(self).to_state(),
            ),
    {
        let ty = match self.codeptr.read_block_type() {
            Ok(v) => v,
            Err(e) => return Err(e),
        };
        self.start_block(ty);
        Ok(())
    }

    /// Handler for `loop`: read the block-type index and enter the loop.
    pub fn cbd_loop(&mut self) -> (r: Result<(), VmError>)
        ensures
            final(self).codeptr.code == old(self).codeptr.code,
            final(self).sidetable == old(self).sidetable,
            follows(
                handler_step(
                    old(self).codeptr.code@,
                    old(self).sidetable@,
                    old(self).to_state(),
                    Opcode::Loop,
                ),
                r,
                final(self).to_state(),
            ),
    {
        let ty = match self.codeptr.read_block_type() {
            Ok(v) => v,
            Err(e) => return Err(e),
        };
        self.start_loop(ty);
        Ok(())
    }

    /// Handler for `br`: read the label depth and take the branch.
    pub fn cbd_br(&mut self) -> (r: Result<(), VmError>)
        ensures
            final(self).codeptr.code == old(self).codeptr.code,
            final(self).sidetable == old(self).sidetable,
            follows(
                handler_step(
                    old(self).codeptr.code@,
                    old(self).sidetable@,
                    old(self).to_state(),
                    Opcode::Br,
                ),
                r,
                final(self).to_state(),
            ),
    {
        let label_idx = match self.codeptr.read_imm_i32() {
            Ok(v) => v,
            Err(e) => return Err(e),
        };
        self.branch(label_idx)
    }

    /// Handler for `br_if`: read the label depth, pop the condition and test
    /// it against zero; zero falls through, anything else branches.
    pub fn cbd_br_if(&mut self) -> (r: Result<(), VmError>)
        ensures
            final(self).codeptr.code == old(self).codeptr.code,
            final(self).sidetable == old(self).sidetable,
            follows(
                handler_step(
                    old(self).codeptr.code@,
                    old(self).sidetable@,
                    old(self).to_state(),
                    Opcode::BrIf,
                ),
                r,
                final(self).to_state(),
            ),
    {
        let label_idx = match self.codeptr.read_imm_i32() {
            Ok(v) => v,
            Err(e) => return Err(e),
        };
        let condv = match self.popi() {
            Ok(v) => v,
            Err(e) => return Err(e),
        };
        let condb = Self::i32_eqz(condv);
        let mut rr: Result<(), VmError> = Ok(());
        if condb.maybe_true() {
            rr = self.fallthru();
        }
        if condb.maybe_false() {
            rr = self.branch(label_idx);
        }
        rr
    }

    /// Handler for `end`: close the current block or loop.
    pub fn cbd_end(&mut self) -> (r: Result<(), VmError>)
        ensures
            final(self).codeptr.code == old(self).codeptr.code,
            final(self).sidetable == old(self).sidetable,
            follows(
                handler_step(
                    old(self).codeptr.code@,
                    old(self).sidetable@,
                    old(self).to_state(),
                    Opcode::End,
                ),
                r,
                final(self).to_state(),
            ),
    {
        self.end();
        Ok(())
    }

    /// Drive the machine: read each opcode and invoke its handler until the
    /// cursor leaves the code, a fault stops the run, or `fuel` opcodes have
    /// been handled (a loop whose backward branch is always taken never
    /// stops, so a run must carry a budget). `Ok(true)` is a finished run of
    /// the step model; `Ok(false)` says the budget ran out and the machine
    /// stands exactly `fuel` model steps in; an error is exactly a run of the
    /// model into the same fault.
    pub fn dispatch(&mut self, fuel: usize) -> (r: Result<bool, VmError>)
        ensures
            final(self).codeptr.code@ == old(self).codeptr.code@,
            final(self).sidetable@ == old(self).sidetable@,
            r == Ok::<bool, VmError>(true) ==> exists|n: nat|
                eval_run(old(self).codeptr.code@, old(self).sidetable@, old(self).to_state(), n)
                    == EvalOutcome::Done(final(self).to_state()),
            r == Ok::<bool, VmError>(false) ==> eval_run(
                old(self).codeptr.code@,
                old(self).sidetable@,
                old(self).to_state(),
                fuel as nat,
            ) == EvalOutcome::Next(final(self).to_state()),
            r matches Err(e) ==> exists|n: nat|
                eval_run(old(self).codeptr.code@, old(self).sidetable@, old(self).to_state(), n)
                    == EvalOutcome::Fault(e),
    {
        let ghost code = self.codeptr.code@;
        let ghost st = self.sidetable@;
        let ghost init = self.to_state();
        let ghost mut n: nat = 0;
        let mut remaining: usize = fuel;
        loop
            invariant
                code == old(self).codeptr.code@,
                st == old(self).sidetable@,
                init == old(self).to_state(),
                self.codeptr.code@ == code,
                self.sidetable@ == st,
                remaining <= fuel,
                n == fuel - remaining,
                eval_run(code, st, init, n) == EvalOutcome::Next(self.to_state()),
            decreases remaining,
        {
            if remaining == 0 {
                return Ok(false);
            }
            remaining = remaining - 1;
            let ghost pre = self.to_state();
            let op_opt = match self.codeptr.read_op() {
                Ok(o) => o,
                Err(e) => {
                    proof {
                        assert(eval_step(code, st, pre) == EvalOutcome::Fault(e));
                        assert(eval_run(code, st, init, n + 1) == EvalOutcome::Fault(e));
                    }
                    return Err(e);
                }
            };
            let op = match op_opt {
                Some(o) => o,
                None => {
                    proof {
                        assert(eval_step(code, st, pre) == EvalOutcome::Done(pre));
                        assert(eval_run(code, st, init, n + 1)
                            == EvalOutcome::Done(self.to_state()));
                    }
                    return Ok(true);
                }
            };
            let rr = match op {
                Opcode::I32Const => self.cbd_i32_const(),
                Opcode::I32Add => self.cbd_i32_add(),
                Opcode::LocalSet => self.cbd_local_set(),
                Opcode::LocalGet => self.cbd_local_get(),
                Opcode::LocalTee => self.cbd_local_tee(),
                Opcode::Block => self.cbd_block(),
                Opcode::Loop => self.cbd_loop(),
                Opcode::End => self.cbd_end(),
                Opcode::Br => self.cbd_br(),
                Opcode::BrIf => self.cbd_br_if(),
            };
            match rr {
                Ok(_) => {
                    proof {
                        assert(eval_step(code, st, pre) == EvalOutcome::Next(self.to_state()));
                        assert(eval_run(code, st, init, n + 1)
                            == EvalOutcome::Next(self.to_state()));
                        n = n + 1;
                    }
                }
                Err(e) => {
                    proof {
                        assert(eval_step(code, st, pre) == EvalOutcome::Fault(e));
                        assert(eval_run(code, st, init, n + 1) == EvalOutcome::Fault(e));
                    }
                    return Err(e);
                }
            }
        }
    }
}

} // verus!
