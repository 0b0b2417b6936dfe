//! The bytecode model: opcodes, code entries, and the position cursor with
//! its typed operand readers.

use vstd::prelude::*;

verus! {

/// The opcodes of the prototype instruction set.
#[derive(Clone, Copy, Debug, PartialEq, Eq, Structural)]
pub enum Opcode {
    I32Const,
    I32Add,
    LocalSet,
    LocalGet,
    LocalTee,
    Block,
    Loop,
    End,
    Br,
    BrIf,
}

/// One entry of the flat code sequence: an opcode, an inline 32-bit
/// immediate, or a block-type index.
#[derive(Clone, Copy, Debug, PartialEq, Eq, Structural)]
pub enum CodeEntry {
    Op(Opcode),
    I32Imm(i32),
    BlockType(usize),
}

/// The three fatal failure classes: a typed reader met the wrong entry kind,
/// the validator rejected the program, or the evaluator hit a bad state.
#[derive(Clone, Copy, Debug, PartialEq, Eq, Structural)]
pub enum VmError {
    DecodeFault,
    ValidationFault,
    RuntimeFault,
}

/// How many operand entries follow an opcode.
pub open spec fn imm_count(op: Opcode) -> int {
    match op {
        Opcode::I32Add => 0,
        Opcode::End => 0,
        _ => 1,
    }
}

/// Is `e` an entry of the right kind to serve as `op`'s operand?
pub open spec fn operand_ok(op: Opcode, e: CodeEntry) -> bool {
    match op {
        Opcode::Block | Opcode::Loop => e matches CodeEntry::BlockType(_),
        Opcode::I32Add | Opcode::End => true,
        _ => e matches CodeEntry::I32Imm(_),
    }
}

/// Does this entry hold a branch opcode?
pub open spec fn is_branch(e: CodeEntry) -> bool {
    e matches CodeEntry::Op(Opcode::Br) || e matches CodeEntry::Op(Opcode::BrIf)
}

/// From position `p` to the end of the code, the entries parse as a sequence
/// of opcodes, each followed by the operand entries its opcode requires.
pub open spec fn decodes(code: Seq<CodeEntry>, p: int) -> bool
    decreases code.len() - p,
{
    if p == code.len() {
        true
    } else if 0 <= p < code.len() {
        match code[p] {
            CodeEntry::Op(op) => {
                if p + 1 + imm_count(op) <= code.len() {
                    &&& (imm_count(op) == 1 ==> operand_ok(op, code[p + 1]))
                    &&& decodes(code, p + 1 + imm_count(op))
                } else {
                    false
                }
            }
            _ => false,
        }
    } else {
        false
    }
}

/// The number of branch opcodes among the entries at positions below `p`.
/// A branch's static index is the number of branches before it.
pub open spec fn branches_before(code: Seq<CodeEntry>, p: int) -> int
    decreases p,
{
    if p <= 0 {
        0
    } else {
        branches_before(code, p - 1)
            + if p - 1 < code.len() && is_branch(code[p - 1]) { 1int } else { 0int }
    }
}

/// Counts are non-negative, grow with the position, and grow by at most the
/// number of positions stepped over.
pub proof fn lemma_branches_before_bounds(code: Seq<CodeEntry>, p: int, q: int)
    requires
        p <= q,
    ensures
        branches_before(code, p) <= branches_before(code, q),
        branches_before(code, q) <= branches_before(code, p) + (q - p),
    decreases q - p,
{
    if p < q {
        lemma_branches_before_bounds(code, p, q - 1);
    }
}

/// The count up to any position is non-negative.
pub proof fn lemma_branches_before_nonneg(code: Seq<CodeEntry>, p: int)
    ensures
        0 <= branches_before(code, p),
    decreases p,
{
    if p > 0 {
        lemma_branches_before_nonneg(code, p - 1);
    }
}

/// From position `p` with `open` frames still open, the code's control
/// structure balances: every `block` and `loop` opens a frame, every `end`
/// closes one that is open, and exactly the `open` outstanding frames have
/// been closed when the code runs out.
pub open spec fn balanced_from(code: Seq<CodeEntry>, p: int, open: nat) -> bool
    decreases code.len() - p,
{
    if p == code.len() {
        open == 0
    } else if 0 <= p < code.len() {
        match code[p] {
            CodeEntry::Op(op) => {
                if p + 1 + imm_count(op) <= code.len() {
                    match op {
                        Opcode::Block | Opcode::Loop => balanced_from(
                            code,
                            p + 1 + imm_count(op),
                            open + 1,
                        ),
                        Opcode::End => open > 0 && balanced_from(
                            code,
                            p + 1 + imm_count(op),
                            (open - 1) as nat,
                        ),
                        _ => balanced_from(code, p + 1 + imm_count(op), open),
                    }
                } else {
                    false
                }
            }
            _ => false,
        }
    } else {
        false
    }
}

/// The demonstration program, as mathematics: a block computing the loop
/// bound, then a loop summing that bound down to zero into local 1. It
/// expects two integer locals.
pub open spec fn sum_code_spec() -> Seq<CodeEntry> {
    seq![
        CodeEntry::Op(Opcode::I32Const),
        CodeEntry::I32Imm(5),
        CodeEntry::Op(Opcode::Block),
        CodeEntry::BlockType(0),
        CodeEntry::Op(Opcode::I32Const),
        CodeEntry::I32Imm(-15i32),
        CodeEntry::Op(Opcode::I32Const),
        CodeEntry::I32Imm(20),
        CodeEntry::Op(Opcode::I32Add),
        CodeEntry::Op(Opcode::I32Add),
        CodeEntry::Op(Opcode::Br),
        CodeEntry::I32Imm(0),
        CodeEntry::Op(Opcode::I32Const),
        CodeEntry::I32Imm(-999i32),
        CodeEntry::Op(Opcode::End),
        CodeEntry::Op(Opcode::LocalSet),
        CodeEntry::I32Imm(0),
        CodeEntry::Op(Opcode::I32Const),
        CodeEntry::I32Imm(0),
        CodeEntry::Op(Opcode::LocalSet),
        CodeEntry::I32Imm(1),
        CodeEntry::Op(Opcode::Loop),
        CodeEntry::BlockType(0),
        CodeEntry::Op(Opcode::LocalGet),
        CodeEntry::I32Imm(0),
        CodeEntry::Op(Opcode::LocalGet),
        CodeEntry::I32Imm(1),
        CodeEntry::Op(Opcode::I32Add),
        CodeEntry::Op(Opcode::LocalSet),
        CodeEntry::I32Imm(1),
        CodeEntry::Op(Opcode::LocalGet),
        CodeEntry::I32Imm(0),
        CodeEntry::Op(Opcode::I32Const),
        CodeEntry::I32Imm(-1i32),
        CodeEntry::Op(Opcode::I32Add),
        CodeEntry::Op(Opcode::LocalSet),
        CodeEntry::I32Imm(0),
        CodeEntry::Op(Opcode::LocalGet),
        CodeEntry::I32Imm(0),
        CodeEntry::Op(Opcode::BrIf),
        CodeEntry::I32Imm(0),
        CodeEntry::Op(Opcode::End),
        CodeEntry::Op(Opcode::LocalGet),
        CodeEntry::I32Imm(1),
    ]
}

/// Build the demonstration program: the code whose direct evaluation with
/// two zero-initialised integer locals leaves `5+4+3+2+1` on the stack.
pub fn sum_code() -> (r: Vec<CodeEntry>)
    ensures
        r@ == sum_code_spec(),
{
    let r: Vec<CodeEntry> = vec![
        CodeEntry::Op(Opcode::I32Const),
        CodeEntry::I32Imm(5),
        CodeEntry::Op(Opcode::Block),
        CodeEntry::BlockType(0),
        CodeEntry::Op(Opcode::I32Const),
        CodeEntry::I32Imm(-15),
        CodeEntry::Op(Opcode::I32Const),
        CodeEntry::I32Imm(20),
        CodeEntry::Op(Opcode::I32Add),
        CodeEntry::Op(Opcode::I32Add),
        CodeEntry::Op(Opcode::Br),
        CodeEntry::I32Imm(0),
        CodeEntry::Op(Opcode::I32Const),
        CodeEntry::I32Imm(-999),
        CodeEntry::Op(Opcode::End),
        CodeEntry::Op(Opcode::LocalSet),
        CodeEntry::I32Imm(0),
        CodeEntry::Op(Opcode::I32Const),
        CodeEntry::I32Imm(0),
        CodeEntry::Op(Opcode::LocalSet),
        CodeEntry::I32Imm(1),
        CodeEntry::Op(Opcode::Loop),
        CodeEntry::BlockType(0),
        CodeEntry::Op(Opcode::LocalGet),
        CodeEntry::I32Imm(0),
        CodeEntry::Op(Opcode::LocalGet),
        CodeEntry::I32Imm(1),
        CodeEntry::Op(Opcode::I32Add),
        CodeEntry::Op(Opcode::LocalSet),
        CodeEntry::I32Imm(1),
        CodeEntry::Op(Opcode::LocalGet),
        CodeEntry::I32Imm(0),
        CodeEntry::Op(Opcode::I32Const),
        CodeEntry::I32Imm(-1),
        CodeEntry::Op(Opcode::I32Add),
        CodeEntry::Op(Opcode::LocalSet),
        CodeEntry::I32Imm(0),
        CodeEntry::Op(Opcode::LocalGet),
        CodeEntry::I32Imm(0),
        CodeEntry::Op(Opcode::BrIf),
        CodeEntry::I32Imm(0),
        CodeEntry::Op(Opcode::End),
        CodeEntry::Op(Opcode::LocalGet),
        CodeEntry::I32Imm(1),
    ];
    proof {
        assert(r@ =~= sum_code_spec());
    }
    r
}

/// A cursor over the code: the sequence of entries and an index into it.
pub struct CodePtr {
    pub code: Vec<CodeEntry>,
    pub ip: usize,
}

impl CodePtr {
    /// Read the entry under the cursor, advancing past it; `None` at the end
    /// of the code.
    pub fn next(&mut self) -> (r: Option<CodeEntry>)
        ensures
            final(self).code == old(self).code,
            old(self).ip < old(self).code@.len() ==> {
                &&& r == Some(old(self).code@[old(self).ip as int])
                &&& final(self).ip == old(self).ip + 1
            },
            old(self).ip >= old(self).code@.len() ==> {
                &&& r is None
                &&& final(self).ip == old(self).ip
            },
    {
        if self.ip < self.code.len() {
            let e = self.code[self.ip];
            self.ip = self.ip + 1;
            Some(e)
        } else {
            None
        }
    }

    /// Read an opcode entry: `Ok(None)` at the end of the code, a decode
    /// fault on an operand entry.
    pub fn read_op(&mut self) -> (r: Result<Option<Opcode>, VmError>)
        ensures
            final(self).code == old(self).code,
            ({
                let c = old(self).code@;
                let i = old(self).ip as int;
                if i >= c.len() {
                    &&& r == Ok::<Option<Opcode>, VmError>(None)
                    &&& final(self).ip == old(self).ip
                } else {
                    match c[i] {
                        CodeEntry::Op(op) => {
                            &&& r == Ok::<Option<Opcode>, VmError>(Some(op))
                            &&& final(self).ip == i + 1
                        }
                        _ => {
                            &&& r == Err::<Option<Opcode>, VmError>(VmError::DecodeFault)
                            &&& final(self).ip == i + 1
                        }
                    }
                }
            }),
    {
        match self.next() {
            Some(CodeEntry::Op(o)) => Ok(Some(o)),
            Some(_) => Err(VmError::DecodeFault),
            None => Ok(None),
        }
    }

    /// Read a block-type operand; any other entry kind is a decode fault.
    pub fn read_block_type(&mut self) -> (r: Result<usize, VmError>)
        ensures
            final(self).code == old(self).code,
            ({
                let c = old(self).code@;
                let i = old(self).ip as int;
                if i >= c.len() {
                    &&& r == Err::<usize, VmError>(VmError::DecodeFault)
                    &&& final(self).ip == i
                } else {
                    match c[i] {
                        CodeEntry::BlockType(t) => {
                            &&& r == Ok::<usize, VmError>(t)
                            &&& final(self).ip == i + 1
                        }
                        _ => {
                            &&& r == Err::<usize, VmError>(VmError::DecodeFault)
                            &&& final(self).ip == i + 1
                        }
                    }
                }
            }),
    {
        match self.next() {
            Some(CodeEntry::BlockType(t)) => Ok(t),
            _ => Err(VmError::DecodeFault),
        }
    }

    /// Read a 32-bit immediate operand; any other entry kind is a decode
    /// fault.
    pub fn read_imm_i32(&mut self) -> (r: Result<i32, VmError>)
        ensures
            final(self).code == old(self).code,
            ({
                let c = old(self).code@;
                let i = old(self).ip as int;
                if i >= c.len() {
                    &&& r == Err::<i32, VmError>(VmError::DecodeFault)
                    &&& final(self).ip == i
                } else {
                    match c[i] {
                        CodeEntry::I32Imm(v) => {
                            &&& r == Ok::<i32, VmError>(v)
                            &&& final(self).ip == i + 1
                        }
                        _ => {
                            &&& r == Err::<i32, VmError>(VmError::DecodeFault)
                            &&& final(self).ip == i + 1
                        }
                    }
                }
            }),
    {
        match self.next() {
            Some(CodeEntry::I32Imm(v)) => Ok(v),
            _ => Err(VmError::DecodeFault),
        }
    }
}

} // verus!
