//! The validator: a typed interpretation that checks the program, builds the
//! control-frame array, and resolves every static branch into a sidetable
//! entry.
//!
//! The mathematical model is the small-step function [`val_step`]; the
//! executable validator is proved to follow it step for step.

use vstd::prelude::*;
use crate::balloon::{Balloon, Idk};
use crate::code::{CodeEntry, CodePtr, Opcode, VmError};
use crate::eval::{imm_at, block_type_at, STEntry};

verus! {

/// The single value type of the prototype.
#[derive(Clone, Copy, Debug, PartialEq, Eq, Structural)]
pub enum Type {
    I32,
}

/// The kind of a control frame.
#[derive(Clone, Copy, Debug, PartialEq, Eq, Structural)]
pub enum CtlType {
    Func,
    Block,
    Loop,
}

/// A control frame: its kind, the instruction index a branch to it continues
/// at, and the first sidetable index at which such a branch may resolve.
#[derive(Clone, Copy, Debug, PartialEq, Eq, Structural)]
pub struct CtlEntry {
    pub tipe: CtlType,
    pub cont_ip: usize,
    pub cont_stp: usize,
}

/// One raw branch record: where the branch sits and which control frame it
/// targets; resolved into an [`STEntry`] once all frames are closed.
#[derive(Clone, Copy, Debug, PartialEq, Eq, Structural)]
pub struct SidetableMeta {
    pub br_ip: usize,
    pub target_ctl_idx: usize,
}

/// The validator's state, as mathematics.
#[verifier::ext_equal]
pub struct ValState {
    pub stack: Seq<Type>,
    pub locals: Seq<Type>,
    pub ctls: Seq<CtlEntry>,
    pub ctl_stack: Seq<usize>,
    pub ip: int,
    pub metas: Seq<SidetableMeta>,
}

/// What one validation step can do.
#[verifier::ext_equal]
pub enum ValOutcome {
    Next(ValState),
    Done(ValState),
    Fault(VmError),
}

/// The effect of the validator's handler for `op`, invoked once the opcode
/// entry itself has been consumed: `s.ip` points at the operand position.
pub open spec fn val_handler_step(code: Seq<CodeEntry>, s: ValState, op: Opcode) -> ValOutcome {
    let q = s.ip;
    match op {
        Opcode::I32Const => match imm_at(code, q) {
            Some(_) => ValOutcome::Next(
                ValState { stack: s.stack.push(Type::I32), ip: q + 1, ..s },
            ),
            None => ValOutcome::Fault(VmError::DecodeFault),
        },
        Opcode::I32Add => {
            if s.stack.len() < 2 {
                ValOutcome::Fault(VmError::ValidationFault)
            } else {
                ValOutcome::Next(
                    ValState {
                        stack: s.stack.drop_last().drop_last().push(Type::I32),
                        ..s
                    },
                )
            }
        }
        Opcode::LocalSet => match imm_at(code, q) {
            Some(idx) => {
                if s.stack.len() == 0 || idx < 0 || idx >= s.locals.len() {
                    ValOutcome::Fault(VmError::ValidationFault)
                } else {
                    ValOutcome::Next(
                        ValState {
                            stack: s.stack.drop_last(),
                            locals: s.locals.update(idx as int, s.stack.last()),
                            ip: q + 1,
                            ..s
                        },
                    )
                }
            }
            None => ValOutcome::Fault(VmError::DecodeFault),
        },
        Opcode::LocalGet => match imm_at(code, q) {
            Some(idx) => {
                if idx < 0 || idx >= s.locals.len() {
                    ValOutcome::Fault(VmError::ValidationFault)
                } else {
                    ValOutcome::Next(
                        ValState { stack: s.stack.push(s.locals[idx as int]), ip: q + 1, ..s },
                    )
                }
            }
            None => ValOutcome::Fault(VmError::DecodeFault),
        },
        Opcode::LocalTee => match imm_at(code, q) {
            Some(idx) => {
                if s.stack.len() == 0 || idx < 0 || idx >= s.locals.len() {
                    ValOutcome::Fault(VmError::ValidationFault)
                } else {
                    ValOutcome::Next(
                        ValState {
                            locals: s.locals.update(idx as int, s.stack.last()),
                            ip: q + 1,
                            ..s
                        },
                    )
                }
            }
            None => ValOutcome::Fault(VmError::DecodeFault),
        },
        Opcode::Block => match block_type_at(code, q) {
            Some(_) => {
                if s.metas.len() == 0 {
                    ValOutcome::Fault(VmError::ValidationFault)
                } else {
                    ValOutcome::Next(
                        ValState {
                            ctl_stack: s.ctl_stack.push(s.ctls.len() as usize),
                            ctls: s.ctls.push(
                                CtlEntry {
                                    tipe: CtlType::Block,
                                    cont_ip: 0,
                                    cont_stp: (s.metas.len() - 1) as usize,
                                },
                            ),
                            ip: q + 1,
                            ..s
                        },
                    )
                }
            }
            None => ValOutcome::Fault(VmError::DecodeFault),
        },
        Opcode::Loop => match block_type_at(code, q) {
            Some(_) => {
                if s.metas.len() == 0 {
                    ValOutcome::Fault(VmError::ValidationFault)
                } else {
                    ValOutcome::Next(
                        ValState {
                            ctl_stack: s.ctl_stack.push(s.ctls.len() as usize),
                            ctls: s.ctls.push(
                                CtlEntry {
                                    tipe: CtlType::Loop,
                                    cont_ip: (q + 1) as usize,
                                    cont_stp: (s.metas.len() - 1) as usize,
                                },
                            ),
                            ip: q + 1,
                            ..s
                        },
                    )
                }
            }
            None => ValOutcome::Fault(VmError::DecodeFault),
        },
        Opcode::End => {
            if s.ctl_stack.len() == 0 {
                ValOutcome::Fault(VmError::ValidationFault)
            } else {
                let k = s.ctl_stack.last();
                if k >= s.ctls.len() {
                    ValOutcome::Fault(VmError::ValidationFault)
                } else if (s.ctls[k as int].tipe matches CtlType::Block) {
                    if s.metas.len() == 0 {
                        ValOutcome::Fault(VmError::ValidationFault)
                    } else {
                        ValOutcome::Next(
                            ValState {
                                ctl_stack: s.ctl_stack.drop_last(),
                                ctls: s.ctls.update(
                                    k as int,
                                    CtlEntry {
                                        tipe: CtlType::Block,
                                        cont_ip: q as usize,
                                        cont_stp: (s.metas.len() - 1) as usize,
                                    },
                                ),
                                ..s
                            },
                        )
                    }
                } else {
                    ValOutcome::Next(ValState { ctl_stack: s.ctl_stack.drop_last(), ..s })
                }
            }
        }
        Opcode::Br => match imm_at(code, q) {
            Some(d) => {
                if d < 0 || d >= s.ctl_stack.len() {
                    ValOutcome::Fault(VmError::ValidationFault)
                } else {
                    ValOutcome::Next(
                        ValState {
                            metas: s.metas.push(
                                SidetableMeta {
                                    br_ip: (q + 1) as usize,
                                    target_ctl_idx: s.ctl_stack[s.ctl_stack.len() - 1 - d],
                                },
                            ),
                            ip: q + 1,
                            ..s
                        },
                    )
                }
            }
            None => ValOutcome::Fault(VmError::DecodeFault),
        },
        Opcode::BrIf => match imm_at(code, q) {
            Some(d) => {
                if s.stack.len() == 0 {
                    ValOutcome::Fault(VmError::ValidationFault)
                } else if d < 0 || d >= s.ctl_stack.len() {
                    ValOutcome::Fault(VmError::ValidationFault)
                } else {
                    ValOutcome::Next(
                        ValState {
                            stack: s.stack.drop_last(),
                            metas: s.metas.push(
                                SidetableMeta {
                                    br_ip: (q + 1) as usize,
                                    target_ctl_idx: s.ctl_stack[s.ctl_stack.len() - 1 - d],
                                },
                            ),
                            ip: q + 1,
                            ..s
                        },
                    )
                }
            }
            None => ValOutcome::Fault(VmError::DecodeFault),
        },
    }
}

/// One full validation step from an opcode boundary.
pub open spec fn val_step(code: Seq<CodeEntry>, s: ValState) -> ValOutcome {
    if s.ip >= code.len() {
        ValOutcome::Done(s)
    } else if s.ip < 0 {
        ValOutcome::Fault(VmError::ValidationFault)
    } else {
        match code[s.ip] {
            CodeEntry::Op(op) => val_handler_step(code, ValState { ip: s.ip + 1, ..s }, op),
            _ => ValOutcome::Fault(VmError::DecodeFault),
        }
    }
}

/// `n` validation steps, with `Done` and `Fault` absorbing.
pub open spec fn val_run(code: Seq<CodeEntry>, s: ValState, n: nat) -> ValOutcome
    decreases n,
{
    if n == 0 {
        ValOutcome::Next(s)
    } else {
        match val_run(code, s, (n - 1) as nat) {
            ValOutcome::Next(t) => val_step(code, t),
            o => o,
        }
    }
}

/// Relates a model outcome to what an executable handler returned.
pub open spec fn follows_v(o: ValOutcome, r: Result<(), VmError>, t: ValState) -> bool {
    match o {
        ValOutcome::Next(t2) => r == Ok::<(), VmError>(()) && t == t2,
        ValOutcome::Fault(e) => r == Err::<(), VmError>(e),
        ValOutcome::Done(_) => false,
    }
}

/// The state the validator starts from: empty typed stack, `nlocals` integer
/// locals, the root `Func` frame whose continuation is the end of the code,
/// that frame on the frame stack, the cursor at the start, and the sentinel
/// branch record that aligns the evaluator's pre-increment discipline.
pub open spec fn val_init(code: Seq<CodeEntry>, nlocals: nat) -> ValState {
    ValState {
        stack: Seq::empty(),
        locals: Seq::new(nlocals, |i: int| Type::I32),
        ctls: seq![
            CtlEntry { tipe: CtlType::Func, cont_ip: code.len() as usize, cont_stp: 0 },
        ],
        ctl_stack: seq![0usize],
        ip: 0,
        metas: seq![SidetableMeta { br_ip: 0, target_ctl_idx: 0 }],
    }
}

/// What resolving record `m` (at index `j`) against its target frame `c`
/// yields: the instruction-pointer delta from the branch to the frame's
/// continuation, and the sidetable-pointer delta from this entry to the
/// frame's first own entry.
pub open spec fn st_entry_for(c: CtlEntry, m: SidetableMeta, j: int, e: STEntry) -> bool {
    &&& e.ip_delta == c.cont_ip - m.br_ip
    &&& e.stp_delta == c.cont_stp - j
}

/// Record `j` resolves to deltas that fit the sidetable's entry type.
pub open spec fn meta_resolvable(
    ctls: Seq<CtlEntry>,
    metas: Seq<SidetableMeta>,
    j: int,
) -> bool {
    &&& metas[j].target_ctl_idx < ctls.len()
    &&& isize::MIN <= ctls[metas[j].target_ctl_idx as int].cont_ip - metas[j].br_ip
        <= isize::MAX
    &&& isize::MIN <= ctls[metas[j].target_ctl_idx as int].cont_stp - j <= isize::MAX
}

/// The validator: typed stack and locals, frames array, frame-index stack,
/// cursor, and the raw branch records the sidetable is later built from.
pub struct TypedValidate {
    pub stack: Vec<Type>,
    pub locals: Vec<Type>,
    pub ctl_entries: Vec<CtlEntry>,
    pub ctl_stack: Vec<usize>,
    pub codeptr: CodePtr,
    pub sidetable_meta: Vec<SidetableMeta>,
}

impl TypedValidate {
    /// The validator's state as mathematics.
    pub open spec fn to_state(&self) -> ValState {
        ValState {
            stack: self.stack@,
            locals: self.locals@,
            ctls: self.ctl_entries@,
            ctl_stack: self.ctl_stack@,
            ip: self.codeptr.ip as int,
            metas: self.sidetable_meta@,
        }
    }

    /// Pop the top of the typed stack, checking that it is `I32`; an empty
    /// stack is a validation fault.
    pub fn popi(&mut self) -> (r: Result<Type, VmError>)
        ensures
            final(self).codeptr == old(self).codeptr,
            final(self).locals == old(self).locals,
            final(self).ctl_entries == old(self).ctl_entries,
            final(self).ctl_stack == old(self).ctl_stack,
            final(self).sidetable_meta == old(self).sidetable_meta,
            old(self).stack@.len() > 0 ==> r == Ok::<Type, VmError>(Type::I32)
                && final(self).stack@ == old(self).stack@.drop_last(),
            old(self).stack@.len() == 0 ==> r == Err::<Type, VmError>(VmError::ValidationFault)
                && final(self).stack@ == old(self).stack@,
    {
        match self.stack.pop() {
            Some(Type::I32) => Ok(Type::I32),
            None => Err(VmError::ValidationFault),
        }
    }

    /// An immediate always types as `I32`.
    pub fn pushi_imm(&mut self, _x: i32)
        ensures
            final(self).codeptr == old(self).codeptr,
            final(self).locals == old(self).locals,
            final(self).ctl_entries == old(self).ctl_entries,
            final(self).ctl_stack == old(self).ctl_stack,
            final(self).sidetable_meta == old(self).sidetable_meta,
            final(self).stack@ == old(self).stack@.push(Type::I32),
    {
        self.stack.push(Type::I32)
    }

    /// Push an integer-typed value.
    pub fn pushi(&mut self, _t: Type)
        ensures
            final(self).codeptr == old(self).codeptr,
            final(self).locals == old(self).locals,
            final(self).ctl_entries == old(self).ctl_entries,
            final(self).ctl_stack == old(self).ctl_stack,
            final(self).sidetable_meta == old(self).sidetable_meta,
            final(self).stack@ == old(self).stack@.push(Type::I32),
    {
        self.stack.push(Type::I32)
    }

    /// Push a typed value unchanged.
    pub fn push(&mut self, t: Type)
        ensures
            final(self).codeptr == old(self).codeptr,
            final(self).locals == old(self).locals,
            final(self).ctl_entries == old(self).ctl_entries,
            final(self).ctl_stack == old(self).ctl_stack,
            final(self).sidetable_meta == old(self).sidetable_meta,
            final(self).stack@ == old(self).stack@.push(t),
    {
        self.stack.push(t)
    }

    /// Pop a typed value; an empty stack is a validation fault.
    pub fn pop(&mut self) -> (r: Result<Type, VmError>)
        ensures
            final(self).codeptr == old(self).codeptr,
            final(self).locals == old(self).locals,
            final(self).ctl_entries == old(self).ctl_entries,
            final(self).ctl_stack == old(self).ctl_stack,
            final(self).sidetable_meta == old(self).sidetable_meta,
            old(self).stack@.len() > 0 ==> r == Ok::<Type, VmError>(old(self).stack@.last())
                && final(self).stack@ == old(self).stack@.drop_last(),
            old(self).stack@.len() == 0 ==> r == Err::<Type, VmError>(VmError::ValidationFault)
                && final(self).stack@ == old(self).stack@,
    {
        match self.stack.pop() {
            Some(t) => Ok(t),
            None => Err(VmError::ValidationFault),
        }
    }

    /// Record the type of a local; an unknown local is a validation fault.
    pub fn set_local(&mut self, idx: i32, val: Type) -> (r: Result<(), VmError>)
        ensures
            final(self).codeptr == old(self).codeptr,
            final(self).stack == old(self).stack,
            final(self).ctl_entries == old(self).ctl_entries,
            final(self).ctl_stack == old(self).ctl_stack,
            final(self).sidetable_meta == old(self).sidetable_meta,
            (0 <= idx < old(self).locals@.len()) ==> r == Ok::<(), VmError>(())
                && final(self).locals@ == old(self).locals@.update(idx as int, val),
            !(0 <= idx < old(self).locals@.len()) ==> r == Err::<(), VmError>(
                VmError::ValidationFault,
            ) && final(self).locals == old(self).locals,
    {
        if idx >= 0 && (idx as usize) < self.locals.len() {
            self.locals[idx as usize] = val;
            Ok(())
        } else {
            Err(VmError::ValidationFault)
        }
    }

    /// Look up the type of a local; an unknown local is a validation fault.
    pub fn get_local(&mut self, idx: i32) -> (r: Result<Type, VmError>)
        ensures
            *final(self) == *old(self),
            (0 <= idx < old(self).locals@.len()) ==> r == Ok::<Type, VmError>(
                old(self).locals@[idx as int],
            ),
            !(0 <= idx < old(self).locals@.len()) ==> r == Err::<Type, VmError>(
                VmError::ValidationFault,
            ),
    {
        if idx >= 0 && (idx as usize) < self.locals.len() {
            Ok(self.locals[idx as usize])
        } else {
            Err(VmError::ValidationFault)
        }
    }

    /// Open a `block` frame: its continuation is filled in at its `end`; the
    /// sidetable index recorded now is where its branches start resolving.
    pub fn start_block(&mut self, _ty_index: usize) -> (r: Result<(), VmError>)
        ensures
            final(self).codeptr == old(self).codeptr,
            final(self).stack == old(self).stack,
            final(self).locals == old(self).locals,
            final(self).sidetable_meta == old(self).sidetable_meta,
            old(self).sidetable_meta@.len() == 0 ==> r == Err::<(), VmError>(
                VmError::ValidationFault,
            ) && final(self).ctl_entries == old(self).ctl_entries
                && final(self).ctl_stack == old(self).ctl_stack,
            old(self).sidetable_meta@.len() > 0 ==> r == Ok::<(), VmError>(())
                && final(self).ctl_stack@ == old(self).ctl_stack@.push(
                    old(self).ctl_entries@.len() as usize,
                )
                && final(self).ctl_entries@ == old(self).ctl_entries@.push(
                    CtlEntry {
                        tipe: CtlType::Block,
                        cont_ip: 0,
                        cont_stp: (old(self).sidetable_meta@.len() - 1) as usize,
                    },
                ),
    {
        let m = self.sidetable_meta.len();
        if m == 0 {
            return Err(VmError::ValidationFault);
        }
        let k = self.ctl_entries.len();
        self.ctl_stack.push(k);
        self.ctl_entries.push(
            CtlEntry { tipe: CtlType::Block, cont_ip: 0, cont_stp: m - 1 },
        );
        Ok(())
    }

    /// Open a `loop` frame: its continuation is the instruction right after
    /// the `loop` opcode, so branches to it jump back to the top.
    pub fn start_loop(&mut self, _ty_index: usize) -> (r: Result<(), VmError>)
        ensures
            final(self).codeptr == old(self).codeptr,
            final(self).stack == old(self).stack,
            final(self).locals == old(self).locals,
            final(self).sidetable_meta == old(self).sidetable_meta,
            old(self).sidetable_meta@.len() == 0 ==> r == Err::<(), VmError>(
                VmError::ValidationFault,
            ) && final(self).ctl_entries == old(self).ctl_entries
                && final(self).ctl_stack == old(self).ctl_stack,
            old(self).sidetable_meta@.len() > 0 ==> r == Ok::<(), VmError>(())
                && final(self).ctl_stack@ == old(self).ctl_stack@.push(
                    old(self).ctl_entries@.len() as usize,
                )
                && final(self).ctl_entries@ == old(self).ctl_entries@.push(
                    CtlEntry {
                        tipe: CtlType::Loop,
                        cont_ip: old(self).codeptr.ip,
                        cont_stp: (old(self).sidetable_meta@.len() - 1) as usize,
                    },
                ),
    {
        let m = self.sidetable_meta.len();
        if m == 0 {
            return Err(VmError::ValidationFault);
        }
        let k = self.ctl_entries.len();
        self.ctl_stack.push(k);
        self.ctl_entries.push(
            CtlEntry { tipe: CtlType::Loop, cont_ip: self.codeptr.ip, cont_stp: m - 1 },
        );
        Ok(())
    }

    /// Addition of two integer types is an integer type.
    pub fn i32_add(&mut self, _x: Type, _y: Type) -> (r: Type)
        ensures
            *final(self) == *old(self),
            r == Type::I32,
    {
        Type::I32
    }

    /// Testing an integer against zero yields the universal balloon: the
    /// validator explores both arms of a conditional branch.
    pub fn i32_eqz(&mut self, _t: Type) -> (r: Idk)
        ensures
            *final(self) == *old(self),
    {
        Idk
    }

    /// Record a branch: look up the frame `label_idx` levels up the frame
    /// stack and append a raw branch record targeting it.
    pub fn branch(&mut self, label_idx: usize) -> (r: Result<(), VmError>)
        ensures
            final(self).codeptr == old(self).codeptr,
            final(self).stack == old(self).stack,
            final(self).locals == old(self).locals,
            final(self).ctl_entries == old(self).ctl_entries,
            final(self).ctl_stack == old(self).ctl_stack,
            label_idx >= old(self).ctl_stack@.len() ==> r == Err::<(), VmError>(
                VmError::ValidationFault,
            ) && final(self).sidetable_meta == old(self).sidetable_meta,
            label_idx < old(self).ctl_stack@.len() ==> r == Ok::<(), VmError>(())
                && final(self).sidetable_meta@ == old(self).sidetable_meta@.push(
                    SidetableMeta {
                        br_ip: old(self).codeptr.ip,
                        target_ctl_idx: old(self).ctl_stack@[
                            old(self).ctl_stack@.len() - 1 - label_idx
                        ],
                    },
                ),
    {
        let dlen = self.ctl_stack.len();
        if label_idx >= dlen {
            return Err(VmError::ValidationFault);
        }
        let ctl_idx = self.ctl_stack[dlen - 1 - label_idx];
        self.sidetable_meta.push(
            SidetableMeta { br_ip: self.codeptr.ip, target_ctl_idx: ctl_idx },
        );
        Ok(())
    }

    /// A branch not taken needs no record here: it is purely structural.
    pub fn fallthru(&mut self)
        ensures
            *final(self) == *old(self),
    {
    }

    /// Close the innermost frame. A `block`'s continuation is only now
    /// known: the instruction after its `end`, and the current sidetable
    /// index.
    pub fn end(&mut self) -> (r: Result<(), VmError>)
        ensures
            final(self).codeptr == old(self).codeptr,
            final(self).stack == old(self).stack,
            final(self).locals == old(self).locals,
            final(self).sidetable_meta == old(self).sidetable_meta,
            ({
                let cs = old(self).ctl_stack@;
                let cts = old(self).ctl_entries@;
                let m = old(self).sidetable_meta@.len();
                if cs.len() == 0 {
                    r == Err::<(), VmError>(VmError::ValidationFault)
                        && final(self).ctl_stack@ == cs
                        && final(self).ctl_entries == old(self).ctl_entries
                } else if cs.last() >= cts.len() {
                    r == Err::<(), VmError>(VmError::ValidationFault)
                } else if (cts[cs.last() as int].tipe matches CtlType::Block) {
                    if m == 0 {
                        r == Err::<(), VmError>(VmError::ValidationFault)
                    } else {
                        r == Ok::<(), VmError>(())
                            && final(self).ctl_stack@ == cs.drop_last()
                            && final(self).ctl_entries@ == cts.update(
                                cs.last() as int,
                                CtlEntry {
                                    tipe: CtlType::Block,
                                    cont_ip: old(self).codeptr.ip,
                                    cont_stp: (m - 1) as usize,
                                },
                            )
                    }
                } else {
                    r == Ok::<(), VmError>(())
                        && final(self).ctl_stack@ == cs.drop_last()
                        && final(self).ctl_entries == old(self).ctl_entries
                }
            }),
    {
        let k = match self.ctl_stack.pop() {
            Some(k) => k,
            None => return Err(VmError::ValidationFault),
        };
        if k >= self.ctl_entries.len() {
            return Err(VmError::ValidationFault);
        }
        let c = self.ctl_entries[k];
        match c.tipe {
            CtlType::Block => {
                let m = self.sidetable_meta.len();
                if m == 0 {
                    return Err(VmError::ValidationFault);
                }
                self.ctl_entries[k] = CtlEntry {
                    tipe: CtlType::Block,
                    cont_ip: self.codeptr.ip,
                    cont_stp: m - 1,
                };
                Ok(())
            }
            _ => Ok(()),
        }
    }

    /// Handler for `i32.const`: read the immediate and push its type.
    pub fn cbd_i32_const(&mut self) -> (r: Result<(), VmError>)
        ensures
            final(self).codeptr.code == old(self).codeptr.code,
            follows_v(
                val_handler_step(old(self).codeptr.code@, old(self).to_state(), Opcode::I32Const),
                r,
                final(self).to_state(),
            ),
    {
        let x = match self.codeptr.read_imm_i32() {
            Ok(v) => v,
            Err(e) => return Err(e),
        };
        self.pushi_imm(x);
        Ok(())
    }

    /// Handler for `i32.add`: pop two integer types, push the sum's type.
    pub fn cbd_i32_add(&mut self) -> (r: Result<(), VmError>)
        ensures
            final(self).codeptr.code == old(self).codeptr.code,
            follows_v(
                val_handler_step(old(self).codeptr.code@, old(self).to_state(), Opcode::I32Add),
                r,
                final(self).to_state(),
            ),
    {
        let x = match self.popi() {
            Ok(v) => v,
            Err(e) => return Err(e),
        };
        let y = match self.popi() {
            Ok(v) => v,
            Err(e) => return Err(e),
        };
        let z = self.i32_add(x, y);
        self.pushi(z);
        Ok(())
    }

    /// Handler for `local.set`: read the index, pop a type, record it.
    pub fn cbd_local_set(&mut self) -> (r: Result<(), VmError>)
        ensures
            final(self).codeptr.code == old(self).codeptr.code,
            follows_v(
                val_handler_step(old(self).codeptr.code@, old(self).to_state(), Opcode::LocalSet),
                r,
                final(self).to_state(),
            ),
    {
        let idx = match self.codeptr.read_imm_i32() {
            Ok(v) => v,
            Err(e) => return Err(e),
        };
        let val = match self.pop() {
            Ok(v) => v,
            Err(e) => return Err(e),
        };
        self.set_local(idx, val)
    }

    /// Handler for `local.get`: read the index, look the type up, push it.
    pub fn cbd_local_get(&mut self) -> (r: Result<(), VmError>)
        ensures
            final(self).codeptr.code == old(self).codeptr.code,
            follows_v(
                val_handler_step(old(self).codeptr.code@, old(self).to_state(), Opcode::LocalGet),
                r,
                final(self).to_state(),
            ),
    {
        let idx = match self.codeptr.read_imm_i32() {
            Ok(v) => v,
            Err(e) => return Err(e),
        };
        let local = match self.get_local(idx) {
            Ok(v) => v,
            Err(e) => return Err(e),
        };
        self.push(local);
        Ok(())
    }

    /// Handler for `local.tee`: read the index, pop a type, push it back and
    /// record a copy.
    pub fn cbd_local_tee(&mut self) -> (r: Result<(), VmError>)
        ensures
            final(self).codeptr.code == old(self).codeptr.code,
            follows_v(
                val_handler_step(old(self).codeptr.code@, old(self).to_state(), Opcode::LocalTee),
                r,
                final(self).to_state(),
            ),
    {
        let ghost pre_stack = self.stack@;
        let idx = match self.codeptr.read_imm_i32() {
            Ok(v) => v,
            Err(e) => return Err(e),
        };
        let val = match self.pop() {
            Ok(v) => v,
            Err(e) => return Err(e),
        };
        self.push(val);
        proof {
            assert(self.stack@ =~= pre_stack);
        }
        self.set_local(idx, val)
    }

    /// Handler for `block`: read the block-type index and open the frame.
    pub fn cbd_block(&mut self) -> (r: Result<(), VmError>)
        ensures
            final(self).codeptr.code == old(self).codeptr.code,
            follows_v(
                val_handler_step(old(self).codeptr.code@, old(self).to_state(), Opcode::Block),
                r,
                final(self).to_state(),
            ),
    {
        let ty = match self.codeptr.read_block_type() {
            Ok(v) => v,
            Err(e) => return Err(e),
        };
        self.start_block(ty)
    }

    /// Handler for `loop`: read the block-type index and open the frame.
    pub fn cbd_loop(&mut self) -> (r: Result<(), VmError>)
        ensures
            final(self).codeptr.code == old(self).codeptr.code,
            follows_v(
                val_handler_step(old(self).codeptr.code@, old(self).to_state(), Opcode::Loop),
                r,
                final(self).to_state(),
            ),
    {
        let ty = match self.codeptr.read_block_type() {
            Ok(v) => v,
            Err(e) => return Err(e),
        };
        self.start_loop(ty)
    }

    /// Handler for `br`: read the label depth and record the branch.
    pub fn cbd_br(&mut self) -> (r: Result<(), VmError>)
        ensures
            final(self).codeptr.code == old(self).codeptr.code,
            follows_v(
                val_handler_step(old(self).codeptr.code@, old(self).to_state(), Opcode::Br),
                r,
                final(self).to_state(),
            ),
    {
        let label_idx = match self.codeptr.read_imm_i32() {
            Ok(v) => v,
            Err(e) => return Err(e),
        };
        if label_idx < 0 {
            return Err(VmError::ValidationFault);
        }
        self.branch(label_idx as usize)
    }

    /// Handler for `br_if`: read the label depth, pop the condition's type,
    /// and — the condition being the universal balloon — walk both arms: the
    /// structural fall-through and the recorded branch.
    pub fn cbd_br_if(&mut self) -> (r: Result<(), VmError>)
        ensures
            final(self).codeptr.code == old(self).codeptr.code,
            follows_v(
                val_handler_step(old(self).codeptr.code@, old(self).to_state(), Opcode::BrIf),
                r,
                final(self).to_state(),
            ),
    {
        let label_idx = match self.codeptr.read_imm_i32() {
            Ok(v) => v,
            Err(e) => return Err(e),
        };
        let condv = match self.popi() {
            Ok(v) => v,
            Err(e) => return Err(e),
        };
        let condb = self.i32_eqz(condv);
        if condb.maybe_true() {
            self.fallthru();
        }
        if condb.maybe_false() {
            if label_idx < 0 {
                return Err(VmError::ValidationFault);
            }
            return self.branch(label_idx as usize);
        }
        Ok(())
    }

    /// Handler for `end`: close the innermost frame.
    pub fn cbd_end(&mut self) -> (r: Result<(), VmError>)
        ensures
            final(self).codeptr.code == old(self).codeptr.code,
            follows_v(
                val_handler_step(old(self).codeptr.code@, old(self).to_state(), Opcode::End),
                r,
                final(self).to_state(),
            ),
    {
        self.end()
    }

    /// Seed a validator for `code` with `nlocals` integer locals: the root
    /// `Func` frame open on the frame stack, and the sentinel branch record
    /// that lines the evaluator's pre-increment discipline up with the
    /// indices recorded here.
    pub fn new(code: Vec<CodeEntry>, nlocals: usize) -> (r: TypedValidate)
        ensures
            r.to_state() == val_init(code@, nlocals as nat),
            r.codeptr.code == code,
    {
        let locals: Vec<Type> = vec![Type::I32; nlocals];
        let ctl_entries: Vec<CtlEntry> = vec![
            CtlEntry { tipe: CtlType::Func, cont_ip: code.len(), cont_stp: 0 },
        ];
        let ctl_stack: Vec<usize> = vec![0];
        let sidetable_meta: Vec<SidetableMeta> = vec![
            SidetableMeta { br_ip: 0, target_ctl_idx: 0 },
        ];
        let r = TypedValidate {
            stack: Vec::new(),
            locals,
            ctl_entries,
            ctl_stack,
            codeptr: CodePtr { code, ip: 0 },
            sidetable_meta,
        };
        proof {
            assert(r.to_state() =~= val_init(r.codeptr.code@, nlocals as nat));
        }
        r
    }

    /// Resolve every raw branch record against the frames array: entry `j`'s
    /// deltas carry the evaluator from record `j`'s branch to its target
    /// frame's continuation point and first own sidetable index. An error
    /// comes exactly when some record targets no frame or resolves to a
    /// delta that does not fit an entry.
    pub fn build_sidetable(&self) -> (r: Result<Vec<STEntry>, VmError>)
        ensures
            ({
                let metas = self.sidetable_meta@;
                let ctls = self.ctl_entries@;
                match r {
                    Ok(st) => {
                        &&& st@.len() == metas.len()
                        &&& forall|j: int| 0 <= j < metas.len() ==> #[trigger] meta_resolvable(
                            ctls,
                            metas,
                            j,
                        ) && st_entry_for(
                            ctls[metas[j].target_ctl_idx as int],
                            metas[j],
                            j,
                            st@[j],
                        )
                    }
                    Err(e) => {
                        &&& e == VmError::ValidationFault
                        &&& exists|j: int| 0 <= j < metas.len() && !meta_resolvable(
                            ctls,
                            metas,
                            j,
                        )
                    }
                }
            }),
    {
        let mut out: Vec<STEntry> = Vec::new();
        let mut j: usize = 0;
        let mlen = self.sidetable_meta.len();
        while j < mlen
            invariant
                j <= mlen,
                mlen == self.sidetable_meta@.len(),
                out@.len() == j,
                forall|i: int| 0 <= i < j ==> #[trigger] meta_resolvable(
                    self.ctl_entries@,
                    self.sidetable_meta@,
                    i,
                ) && st_entry_for(
                    self.ctl_entries@[self.sidetable_meta@[i].target_ctl_idx as int],
                    self.sidetable_meta@[i],
                    i,
                    out@[i],
                ),
            decreases mlen - j,
        {
            let m = self.sidetable_meta[j];
            if m.target_ctl_idx >= self.ctl_entries.len() {
                proof {
                    assert(!meta_resolvable(self.ctl_entries@, self.sidetable_meta@, j as int));
                }
                return Err(VmError::ValidationFault);
            }
            let target = self.ctl_entries[m.target_ctl_idx];
            let ip_delta: i128 = (target.cont_ip as i128) - (m.br_ip as i128);
            let stp_delta: i128 = (target.cont_stp as i128) - (j as i128);
            if ip_delta < (isize::MIN as i128) || ip_delta > (isize::MAX as i128)
                || stp_delta < (isize::MIN as i128) || stp_delta > (isize::MAX as i128) {
                proof {
                    assert(!meta_resolvable(self.ctl_entries@, self.sidetable_meta@, j as int));
                }
                return Err(VmError::ValidationFault);
            }
            out.push(STEntry { ip_delta: ip_delta as isize, stp_delta: stp_delta as isize });
            j = j + 1;
        }
        Ok(out)
    }

    /// Drive the validator over the whole code: read each opcode and invoke
    /// its handler until the cursor leaves the code or a fault rejects the
    /// program. The scan only ever moves forward, so it terminates. A
    /// finished run is exactly a terminating run of the validation model; a
    /// failed one is exactly a run of the model into the same fault, and no
    /// sidetable is owed.
    pub fn dispatch(&mut self) -> (r: Result<(), VmError>)
        ensures
            final(self).codeptr.code@ == old(self).codeptr.code@,
            r matches Ok(_) ==> exists|n: nat|
                val_run(old(self).codeptr.code@, old(self).to_state(), n)
                    == ValOutcome::Done(final(self).to_state()),
            r matches Err(e) ==> exists|n: nat|
                val_run(old(self).codeptr.code@, old(self).to_state(), n)
                    == ValOutcome::Fault(e),
    {
        let ghost code = self.codeptr.code@;
        let ghost init = self.to_state();
        let ghost mut n: nat = 0;
        loop
            invariant
                code == old(self).codeptr.code@,
                init == old(self).to_state(),
                self.codeptr.code@ == code,
                val_run(code, init, n) == ValOutcome::Next(self.to_state()),
            decreases self.codeptr.code.len() - self.codeptr.ip,
        {
            let ghost pre = self.to_state();
            let op_opt = match self.codeptr.read_op() {
                Ok(o) => o,
                Err(e) => {
                    proof {
                        assert(val_step(code, pre) == ValOutcome::Fault(e));
                        assert(val_run(code, init, n + 1) == ValOutcome::Fault(e));
                    }
                    return Err(e);
                }
            };
            let op = match op_opt {
                Some(o) => o,
                None => {
                    proof {
                        assert(val_step(code, pre) == ValOutcome::Done(pre));
                        assert(val_run(code, init, n + 1) == ValOutcome::Done(self.to_state()));
                    }
                    return Ok(());
                }
            };
            let rr = match op {
                Opcode::I32Const => self.cbd_i32_const(),
                Opcode::I32Add => self.cbd_i32_add(),
                Opcode::LocalSet => self.cbd_local_set(),
                Opcode::LocalGet => self.cbd_local_get(),
                Opcode::LocalTee => self.cbd_local_tee(),
                Opcode::Block => self.cbd_block(),
                Opcode::Loop => self.cbd_loop(),
                Opcode::End => self.cbd_end(),
                Opcode::Br => self.cbd_br(),
                Opcode::BrIf => self.cbd_br_if(),
            };
            match rr {
                Ok(_) => {
                    proof {
                        assert(val_step(code, pre) == ValOutcome::Next(self.to_state()));
                        assert(val_run(code, init, n + 1) == ValOutcome::Next(self.to_state()));
                        n = n + 1;
                    }
                }
                Err(e) => {
                    proof {
                        assert(val_step(code, pre) == ValOutcome::Fault(e));
                        assert(val_run(code, init, n + 1) == ValOutcome::Fault(e));
                    }
                    return Err(e);
                }
            }
        }
    }
}

} // verus!
