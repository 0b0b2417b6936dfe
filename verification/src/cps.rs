//! The block partitioner and the block-driven interpretation: one linear
//! scan cuts the code at `block` / `loop` / `end` / `br` / `br_if`
//! boundaries into continuation blocks with recorded branch targets, and a
//! driver executes the code block by block against the continuation-passing
//! handler set.
//!
//! The scan's mathematical model is the small-step function [`part_step`];
//! the executable partitioner is proved to follow it step for step.

use vstd::prelude::*;
use vstd::wrapping::i32_specs;
use crate::code::{CodeEntry, CodePtr, Opcode, VmError, is_branch};
use crate::eval::{imm_at, block_type_at};
use crate::validate::CtlType;

verus! {

/// A continuation marker: an instruction index at which execution may
/// resume.
#[derive(Clone, Copy, Debug, PartialEq, Eq, Structural)]
pub struct Cont {
    pub ip: usize,
}

/// A branch record: the frame index a static branch targets, in program
/// order.
#[derive(Clone, Copy, Debug, PartialEq, Eq, Structural)]
pub struct Branch {
    pub tgt_idx: usize,
}

/// A continuation block: the straight-line region starting at `ip`; if the
/// region ends in a branch, `br_tgt` is the continuation index of that
/// branch's target, else zero and unused.
#[derive(Clone, Copy, Debug, PartialEq, Eq, Structural)]
pub struct ContBlock {
    pub ip: usize,
    pub br_tgt: usize,
}

/// A control frame as the partitioner sees it: its kind, where its body
/// starts, which continuation a branch to it lands on, and where execution
/// falls through to at its `end`.
#[derive(Clone, Copy, Debug, PartialEq, Eq, Structural)]
pub struct CtlEntry {
    pub ty: CtlType,
    pub entry_ip: usize,
    pub cont_idx: usize,
    pub fallthru_ip: usize,
}

/// The partitioner's scan state, as mathematics.
#[verifier::ext_equal]
pub struct PartState {
    pub ctls: Seq<CtlEntry>,
    pub ctl_stack: Seq<usize>,
    pub conts: Seq<Cont>,
    pub branches: Seq<Branch>,
    pub ip: int,
}

/// What one scan step can do.
#[verifier::ext_equal]
pub enum PartOutcome {
    Next(PartState),
    Done(PartState),
    Fault(VmError),
}

/// The scan's starting state: the root `Func` frame open on the frame
/// stack, and the entry continuation at instruction zero.
pub open spec fn part_init(code: Seq<CodeEntry>) -> PartState {
    PartState {
        ctls: seq![
            CtlEntry {
                ty: CtlType::Func,
                entry_ip: 0,
                cont_idx: 0,
                fallthru_ip: code.len() as usize,
            },
        ],
        ctl_stack: seq![0usize],
        conts: seq![Cont { ip: 0 }],
        branches: Seq::empty(),
        ip: 0,
    }
}

/// One scan step from an opcode boundary.
pub open spec fn part_step(code: Seq<CodeEntry>, s: PartState) -> PartOutcome {
    if s.ip >= code.len() {
        PartOutcome::Done(s)
    } else if s.ip < 0 {
        PartOutcome::Fault(VmError::ValidationFault)
    } else {
        match code[s.ip] {
            CodeEntry::Op(op) => {
                let q = s.ip + 1;
                match op {
                    Opcode::I32Const | Opcode::LocalSet | Opcode::LocalGet
                    | Opcode::LocalTee => match imm_at(code, q) {
                        Some(_) => PartOutcome::Next(PartState { ip: q + 1, ..s }),
                        None => PartOutcome::Fault(VmError::DecodeFault),
                    },
                    Opcode::I32Add => PartOutcome::Next(PartState { ip: q, ..s }),
                    Opcode::Block => match block_type_at(code, q) {
                        Some(_) => PartOutcome::Next(
                            PartState {
                                ctl_stack: s.ctl_stack.push(s.ctls.len() as usize),
                                ctls: s.ctls.push(
                                    CtlEntry {
                                        ty: CtlType::Block,
                                        entry_ip: (q + 1) as usize,
                                        cont_idx: 0,
                                        fallthru_ip: 0,
                                    },
                                ),
                                ip: q + 1,
                                ..s
                            },
                        ),
                        None => PartOutcome::Fault(VmError::DecodeFault),
                    },
                    Opcode::Loop => match block_type_at(code, q) {
                        Some(_) => PartOutcome::Next(
                            PartState {
                                ctl_stack: s.ctl_stack.push(s.ctls.len() as usize),
                                ctls: s.ctls.push(
                                    CtlEntry {
                                        ty: CtlType::Loop,
                                        entry_ip: (q + 1) as usize,
                                        cont_idx: s.conts.len() as usize,
                                        fallthru_ip: 0,
                                    },
                                ),
                                conts: s.conts.push(Cont { ip: (q + 1) as usize }),
                                ip: q + 1,
                                ..s
                            },
                        ),
                        None => PartOutcome::Fault(VmError::DecodeFault),
                    },
                    Opcode::End => {
                        if s.ctl_stack.len() == 0 {
                            PartOutcome::Fault(VmError::ValidationFault)
                        } else {
                            let k = s.ctl_stack.last();
                            if k >= s.ctls.len() {
                                PartOutcome::Fault(VmError::ValidationFault)
                            } else {
                                let c = s.ctls[k as int];
                                let cont_idx = if (c.ty matches CtlType::Block) {
                                    s.conts.len() as usize
                                } else {
                                    c.cont_idx
                                };
                                PartOutcome::Next(
                                    PartState {
                                        ctl_stack: s.ctl_stack.drop_last(),
                                        ctls: s.ctls.update(
                                            k as int,
                                            CtlEntry {
                                                ty: c.ty,
                                                entry_ip: c.entry_ip,
                                                cont_idx,
                                                fallthru_ip: q as usize,
                                            },
                                        ),
                                        conts: s.conts.push(Cont { ip: q as usize }),
                                        ip: q,
                                        ..s
                                    },
                                )
                            }
                        }
                    }
                    Opcode::Br | Opcode::BrIf => match imm_at(code, q) {
                        Some(d) => {
                            if d < 0 || d >= s.ctl_stack.len() {
                                PartOutcome::Fault(VmError::ValidationFault)
                            } else {
                                PartOutcome::Next(
                                    PartState {
                                        conts: s.conts.push(Cont { ip: (q + 1) as usize }),
                                        branches: s.branches.push(
                                            Branch {
                                                tgt_idx: s.ctl_stack[s.ctl_stack.len() - 1 - d],
                                            },
                                        ),
                                        ip: q + 1,
                                        ..s
                                    },
                                )
                            }
                        }
                        None => PartOutcome::Fault(VmError::DecodeFault),
                    },
                }
            }
            _ => PartOutcome::Fault(VmError::DecodeFault),
        }
    }
}

/// `n` scan steps, with `Done` and `Fault` absorbing.
pub open spec fn part_run(code: Seq<CodeEntry>, s: PartState, n: nat) -> PartOutcome
    decreases n,
{
    if n == 0 {
        PartOutcome::Next(s)
    } else {
        match part_run(code, s, (n - 1) as nat) {
            PartOutcome::Next(t) => part_step(code, t),
            o => o,
        }
    }
}

/// Continuation `j` was cut by a branch: the entry two back from it — one
/// for the opcode, one for the depth immediate — is a `br` or `br_if`.
pub open spec fn br_cont(code: Seq<CodeEntry>, conts: Seq<Cont>, j: int) -> bool {
    &&& conts[j].ip >= 2
    &&& conts[j].ip - 2 < code.len()
    &&& is_branch(code[conts[j].ip - 2])
}

/// How many of the continuations with index in `[1, j)` were cut by a
/// branch. The entry continuation is never counted.
pub open spec fn br_conts_upto(code: Seq<CodeEntry>, conts: Seq<Cont>, j: int) -> int
    decreases j,
{
    if j <= 1 {
        0
    } else {
        br_conts_upto(code, conts, j - 1) + if br_cont(code, conts, j - 1) {
            1int
        } else {
            0int
        }
    }
}

/// The branch records line up with the branch-cut continuations: the zip
/// pass consuming them with one running index finds each in bounds.
pub open spec fn zip_sync(code: Seq<CodeEntry>, d: PartState) -> bool {
    forall|t: int| 0 <= t < d.conts.len() - 1 && #[trigger] br_cont(code, d.conts, t + 1) ==> {
        let bi = br_conts_upto(code, d.conts, t + 1);
        0 <= bi < d.branches.len() && d.branches[bi].tgt_idx < d.ctls.len()
    }
}

/// Block `t`, which runs up to continuation `t + 1`: if that continuation
/// was cut by a branch, the block carries the continuation index of the
/// branch's target frame, consumed from the branch records in order; all
/// other blocks carry zero.
pub open spec fn block_entry_ok(
    code: Seq<CodeEntry>,
    ctls: Seq<CtlEntry>,
    conts: Seq<Cont>,
    branches: Seq<Branch>,
    blocks: Seq<ContBlock>,
    t: int,
) -> bool {
    let bi = br_conts_upto(code, conts, t + 1);
    if br_cont(code, conts, t + 1) {
        &&& 0 <= bi < branches.len()
        &&& branches[bi].tgt_idx < ctls.len()
        &&& blocks[t].br_tgt == ctls[branches[bi].tgt_idx as int].cont_idx
    } else {
        blocks[t].br_tgt == 0
    }
}

/// What the zip pass produces: one block per continuation, carrying its
/// `ip`; a block whose region ends in a branch carries the continuation
/// index of the branch's target frame, all others carry zero; the final
/// sentinel block repeats the last continuation and marks the tail.
pub open spec fn zip_ok(
    code: Seq<CodeEntry>,
    ctls: Seq<CtlEntry>,
    conts: Seq<Cont>,
    branches: Seq<Branch>,
    blocks: Seq<ContBlock>,
) -> bool {
    &&& conts.len() >= 1
    &&& blocks.len() == conts.len()
    &&& forall|t: int| 0 <= t < conts.len() ==> (#[trigger] blocks[t]).ip == conts[t].ip
    &&& blocks[blocks.len() - 1].br_tgt == 0
    &&& forall|t: int| 0 <= t < conts.len() - 1 ==> #[trigger] block_entry_ok(
        code,
        ctls,
        conts,
        branches,
        blocks,
        t,
    )
}

/// The partitioned function: the code, its continuation markers, its branch
/// records, and the continuation blocks zipped from them.
pub struct WASMFun {
    pub code: Vec<CodeEntry>,
    pub conts: Vec<Cont>,
    pub branches: Vec<Branch>,
    pub cont_blocks: Vec<ContBlock>,
}

impl WASMFun {
    /// Partition `code`: one linear scan records a continuation at the
    /// entry, after every branch, and after every `loop` header and `end`,
    /// together with one branch record per static branch; a second pass zips
    /// consecutive continuations into continuation blocks, resolving each
    /// branch-terminated block's target. An error comes when the scan faults
    /// or when the recorded branches do not line up with the cuts.
    pub fn new(code: Vec<CodeEntry>) -> (r: Result<WASMFun, VmError>)
        ensures
            match r {
                Ok(w) => {
                    &&& w.code@ == code@
                    &&& exists|n: nat, d: PartState|
                        #![trigger part_run(code@, part_init(code@), n), zip_ok(code@, d.ctls, d.conts, d.branches, w.cont_blocks@)]
                    {
                        &&& part_run(code@, part_init(code@), n)
                            == PartOutcome::Done(d)
                        &&& w.conts@ == d.conts
                        &&& w.branches@ == d.branches
                        &&& zip_ok(code@, d.ctls, d.conts, d.branches, w.cont_blocks@)
                    }
                },
                Err(e) => (exists|n: nat| part_run(code@, part_init(code@), n)
                    == PartOutcome::Fault(e)) || (e == VmError::ValidationFault
                    && exists|n: nat, d: PartState|
                        #![trigger part_run(code@, part_init(code@), n), zip_sync(code@, d)]
                        part_run(code@, part_init(code@), n) == PartOutcome::Done(d)
                            && !zip_sync(code@, d)),
            },
    {
        let ghost cseq = code@;
        let mut ctls: Vec<CtlEntry> = vec![
            CtlEntry { ty: CtlType::Func, entry_ip: 0, cont_idx: 0, fallthru_ip: code.len() },
        ];
        let mut ctl_stack: Vec<usize> = vec![0];
        let mut codeptr = CodePtr { code, ip: 0 };
        let mut conts: Vec<Cont> = vec![Cont { ip: 0 }];
        let mut branches: Vec<Branch> = Vec::new();
        let ghost init = part_init(cseq);
        proof {
            assert(init.ctls =~= ctls@);
            assert(init.ctl_stack =~= ctl_stack@);
            assert(init.conts =~= conts@);
            assert(init.branches =~= branches@);
        }
        let ghost mut n: nat = 0;
        loop
            invariant_except_break
                cseq == code@,
                cseq == codeptr.code@,
                init == part_init(cseq),
                codeptr.ip <= codeptr.code.len(),
                conts@.len() >= 1,
                part_run(cseq, init, n) == PartOutcome::Next(
                    PartState {
                        ctls: ctls@,
                        ctl_stack: ctl_stack@,
                        conts: conts@,
                        branches: branches@,
                        ip: codeptr.ip as int,
                    },
                ),
            ensures
                cseq == code@,
                cseq == codeptr.code@,
                conts@.len() >= 1,
                exists|m: nat| #[trigger] part_run(cseq, init, m) == PartOutcome::Done(
                    PartState {
                        ctls: ctls@,
                        ctl_stack: ctl_stack@,
                        conts: conts@,
                        branches: branches@,
                        ip: codeptr.ip as int,
                    },
                ),
            decreases codeptr.code.len() - codeptr.ip,
        {
            let ghost pre = PartState {
                ctls: ctls@,
                ctl_stack: ctl_stack@,
                conts: conts@,
                branches: branches@,
                ip: codeptr.ip as int,
            };
            let op_opt = match codeptr.read_op() {
                Ok(o) => o,
                Err(e) => {
                    proof {
                        assert(part_step(cseq, pre) == PartOutcome::Fault(e));
                        assert(part_run(cseq, init, n + 1) == PartOutcome::Fault(e));
                    }
                    return Err(e);
                }
            };
            let op = match op_opt {
                Some(o) => o,
                None => {
                    proof {
                        assert(part_step(cseq, pre) == PartOutcome::Done(pre));
                        assert(part_run(cseq, init, n + 1) == PartOutcome::Done(pre));
                    }
                    break;
                }
            };
            match op {
                Opcode::I32Const | Opcode::LocalSet | Opcode::LocalGet | Opcode::LocalTee => {
                    match codeptr.read_imm_i32() {
                        Ok(_) => {}
                        Err(e) => {
                            proof {
                                assert(part_step(cseq, pre) == PartOutcome::Fault(e));
                                assert(part_run(cseq, init, n + 1) == PartOutcome::Fault(e));
                            }
                            return Err(e);
                        }
                    }
                }
                Opcode::I32Add => {}
                Opcode::Block => {
                    match codeptr.read_block_type() {
                        Ok(_) => {}
                        Err(e) => {
                            proof {
                                assert(part_step(cseq, pre) == PartOutcome::Fault(e));
                                assert(part_run(cseq, init, n + 1) == PartOutcome::Fault(e));
                            }
                            return Err(e);
                        }
                    }
                    let k = ctls.len();
                    ctl_stack.push(k);
                    ctls.push(
                        CtlEntry {
                            ty: CtlType::Block,
                            entry_ip: codeptr.ip,
                            cont_idx: 0,
                            fallthru_ip: 0,
                        },
                    );
                }
                Opcode::Loop => {
                    match codeptr.read_block_type() {
                        Ok(_) => {}
                        Err(e) => {
                            proof {
                                assert(part_step(cseq, pre) == PartOutcome::Fault(e));
                                assert(part_run(cseq, init, n + 1) == PartOutcome::Fault(e));
                            }
                            return Err(e);
                        }
                    }
                    let k = ctls.len();
                    ctl_stack.push(k);
                    ctls.push(
                        CtlEntry {
                            ty: CtlType::Loop,
                            entry_ip: codeptr.ip,
                            cont_idx: conts.len(),
                            fallthru_ip: 0,
                        },
                    );
                    conts.push(Cont { ip: codeptr.ip });
                }
                Opcode::End => {
                    let k = match ctl_stack.pop() {
                        Some(k) => k,
                        None => {
                            proof {
                                assert(part_step(cseq, pre)
                                    == PartOutcome::Fault(VmError::ValidationFault));
                                assert(part_run(cseq, init, n + 1)
                                    == PartOutcome::Fault(VmError::ValidationFault));
                            }
                            return Err(VmError::ValidationFault);
                        }
                    };
                    if k >= ctls.len() {
                        proof {
                            assert(part_step(cseq, pre)
                                == PartOutcome::Fault(VmError::ValidationFault));
                            assert(part_run(cseq, init, n + 1)
                                == PartOutcome::Fault(VmError::ValidationFault));
                        }
                        return Err(VmError::ValidationFault);
                    }
                    let c = ctls[k];
                    let cont_idx = match c.ty {
                        CtlType::Block => conts.len(),
                        _ => c.cont_idx,
                    };
                    ctls[k] = CtlEntry {
                        ty: c.ty,
                        entry_ip: c.entry_ip,
                        cont_idx,
                        fallthru_ip: codeptr.ip,
                    };
                    conts.push(Cont { ip: codeptr.ip });
                }
                Opcode::Br | Opcode::BrIf => {
                    let depth = match codeptr.read_imm_i32() {
                        Ok(d) => d,
                        Err(e) => {
                            proof {
                                assert(part_step(cseq, pre) == PartOutcome::Fault(e));
                                assert(part_run(cseq, init, n + 1) == PartOutcome::Fault(e));
                            }
                            return Err(e);
                        }
                    };
                    if depth < 0 {
                        proof {
                            assert(part_step(cseq, pre)
                                == PartOutcome::Fault(VmError::ValidationFault));
                            assert(part_run(cseq, init, n + 1)
                                == PartOutcome::Fault(VmError::ValidationFault));
                        }
                        return Err(VmError::ValidationFault);
                    }
                    conts.push(Cont { ip: codeptr.ip });
                    let d = depth as usize;
                    if d >= ctl_stack.len() {
                        proof {
                            assert(part_step(cseq, pre)
                                == PartOutcome::Fault(VmError::ValidationFault));
                            assert(part_run(cseq, init, n + 1)
                                == PartOutcome::Fault(VmError::ValidationFault));
                        }
                        return Err(VmError::ValidationFault);
                    }
                    let tgt = ctl_stack[ctl_stack.len() - 1 - d];
                    branches.push(Branch { tgt_idx: tgt });
                }
            }
            proof {
                assert(part_step(cseq, pre) == PartOutcome::Next(
                    PartState {
                        ctls: ctls@,
                        ctl_stack: ctl_stack@,
                        conts: conts@,
                        branches: branches@,
                        ip: codeptr.ip as int,
                    },
                ));
                assert(part_run(cseq, init, n + 1) == PartOutcome::Next(
                    PartState {
                        ctls: ctls@,
                        ctl_stack: ctl_stack@,
                        conts: conts@,
                        branches: branches@,
                        ip: codeptr.ip as int,
                    },
                ));
                n = n + 1;
            }
        }
        let ghost d = PartState {
            ctls: ctls@,
            ctl_stack: ctl_stack@,
            conts: conts@,
            branches: branches@,
            ip: codeptr.ip as int,
        };
        let clen = conts.len();
        let mut cont_blocks: Vec<ContBlock> = Vec::new();
        let mut br_idx: usize = 0;
        let mut i: usize = 0;
        while i < clen - 1
            invariant
                cseq == code@,
                cseq == codeptr.code@,
                d.ctls == ctls@ && d.conts == conts@ && d.branches == branches@,
                exists|m: nat| #[trigger] part_run(cseq, part_init(cseq), m)
                    == PartOutcome::Done(d),
                clen == conts@.len(),
                clen >= 1,
                i <= clen - 1,
                cont_blocks@.len() == i,
                br_idx == br_conts_upto(cseq, conts@, i + 1),
                forall|t: int| 0 <= t < i ==> (#[trigger] cont_blocks@[t]).ip
                    == conts@[t].ip,
                forall|t: int| 0 <= t < i ==> #[trigger] block_entry_ok(
                    cseq,
                    ctls@,
                    conts@,
                    branches@,
                    cont_blocks@,
                    t,
                ),
            decreases clen - 1 - i,
        {
            let next_ip = conts[i + 1].ip;
            let this_ip = conts[i].ip;
            let is_br = if next_ip >= 2 && next_ip - 2 < codeptr.code.len() {
                match codeptr.code[next_ip - 2] {
                    CodeEntry::Op(Opcode::Br) => true,
                    CodeEntry::Op(Opcode::BrIf) => true,
                    _ => false,
                }
            } else {
                false
            };
            proof {
                assert(is_br == br_cont(cseq, conts@, i + 1));
                assert(br_conts_upto(cseq, conts@, i + 2) == br_conts_upto(cseq, conts@, i + 1)
                    + if br_cont(cseq, conts@, i + 1) { 1int } else { 0int });
            }
            let ghost bi0 = br_idx as int;
            let ghost old_blocks = cont_blocks@;
            let br_tgt = if is_br {
                if br_idx >= branches.len() {
                    proof {
                        assert(br_cont(cseq, d.conts, i + 1));
                        assert(!zip_sync(cseq, d)) by {
                            if zip_sync(cseq, d) {
                                assert(0 <= i < d.conts.len() - 1);
                                assert(br_cont(cseq, d.conts, i + 1));
                                assert(false);
                            }
                        }
                    }
                    return Err(VmError::ValidationFault);
                }
                let tgt = branches[br_idx].tgt_idx;
                if tgt >= ctls.len() {
                    proof {
                        assert(br_cont(cseq, d.conts, i + 1));
                        assert(!zip_sync(cseq, d)) by {
                            if zip_sync(cseq, d) {
                                assert(0 <= i < d.conts.len() - 1);
                                assert(br_cont(cseq, d.conts, i + 1));
                                assert(false);
                            }
                        }
                    }
                    return Err(VmError::ValidationFault);
                }
                let ci = ctls[tgt].cont_idx;
                br_idx = br_idx + 1;
                ci
            } else {
                0
            };
            cont_blocks.push(ContBlock { ip: this_ip, br_tgt });
            proof {
                assert forall|t: int| 0 <= t < i + 1 implies #[trigger] block_entry_ok(
                    cseq,
                    ctls@,
                    conts@,
                    branches@,
                    cont_blocks@,
                    t,
                ) by {
                    if t == i {
                        assert(br_conts_upto(cseq, conts@, i + 1) == bi0);
                        assert(cont_blocks@[t].br_tgt == br_tgt);
                    } else {
                        assert(block_entry_ok(cseq, ctls@, conts@, branches@, old_blocks, t));
                        assert(cont_blocks@[t] == old_blocks[t]);
                    }
                }
            }
            i = i + 1;
        }
        let ghost pre_sentinel = cont_blocks@;
        cont_blocks.push(ContBlock { ip: conts[clen - 1].ip, br_tgt: 0 });
        let w = WASMFun { code: codeptr.code, conts, branches, cont_blocks };
        proof {
            assert forall|t: int| 0 <= t < w.conts@.len() implies (#[trigger] w.cont_blocks@[t]).ip
                == w.conts@[t].ip by {}
            assert forall|t: int| 0 <= t < w.conts@.len() - 1 implies #[trigger] block_entry_ok(
                cseq,
                d.ctls,
                d.conts,
                d.branches,
                w.cont_blocks@,
                t,
            ) by {
                assert(block_entry_ok(cseq, d.ctls, d.conts, d.branches, pre_sentinel, t));
                assert(w.cont_blocks@[t] == pre_sentinel[t]);
            }
            assert(zip_ok(cseq, d.ctls, d.conts, d.branches, w.cont_blocks@));
            let m0 = choose|m: nat| part_run(cseq, part_init(cseq), m) == PartOutcome::Done(d);
            assert(part_run(code@, part_init(code@), m0) == PartOutcome::Done(d));
            assert(zip_ok(code@, d.ctls, d.conts, d.branches, w.cont_blocks@));
            assert(w.conts@ == d.conts && w.branches@ == d.branches);
            assert(exists|n: nat, d2: PartState|
                #![trigger part_run(code@, part_init(code@), n), zip_ok(code@, d2.ctls, d2.conts, d2.branches, w.cont_blocks@)]
                {
                    &&& part_run(code@, part_init(code@), n) == PartOutcome::Done(d2)
                    &&& w.conts@ == d2.conts
                    &&& w.branches@ == d2.branches
                    &&& zip_ok(code@, d2.ctls, d2.conts, d2.branches, w.cont_blocks@)
                });
        }
        Ok(w)
    }
}

/// The state of a block-driven evaluation, as mathematics: the value stack
/// and locals of the interpretation, the cursor, and the current block.
#[verifier::ext_equal]
pub struct BlockState {
    pub stack: Seq<i32>,
    pub locals: Seq<i32>,
    pub ip: int,
    pub cur: int,
}

/// What one block-driven step can do.
#[verifier::ext_equal]
pub enum BlockOutcome {
    Next(BlockState),
    Done(BlockState),
    Fault(VmError),
}

/// One step of the block-driven evaluation: as the direct evaluator, except
/// that control transfer goes through the continuation blocks — a branch
/// moves to its block's recorded target, a fall-through to the next block —
/// and `loop` / `end` advance the current block as the cuts do.
pub open spec fn block_step(
    code: Seq<CodeEntry>,
    blocks: Seq<ContBlock>,
    s: BlockState,
) -> BlockOutcome {
    if s.ip >= code.len() {
        BlockOutcome::Done(s)
    } else if s.ip < 0 {
        BlockOutcome::Fault(VmError::RuntimeFault)
    } else {
        match code[s.ip] {
            CodeEntry::Op(op) => {
                let q = s.ip + 1;
                match op {
                    Opcode::I32Const => match imm_at(code, q) {
                        Some(v) => BlockOutcome::Next(
                            BlockState { stack: s.stack.push(v), ip: q + 1, ..s },
                        ),
                        None => BlockOutcome::Fault(VmError::DecodeFault),
                    },
                    Opcode::I32Add => {
                        if s.stack.len() < 2 {
                            BlockOutcome::Fault(VmError::RuntimeFault)
                        } else {
                            let x = s.stack.last();
                            let y = s.stack.drop_last().last();
                            let z = i32_specs::wrapping_add(x, y);
                            BlockOutcome::Next(
                                BlockState {
                                    stack: s.stack.drop_last().drop_last().push(z),
                                    ip: q,
                                    ..s
                                },
                            )
                        }
                    }
                    Opcode::LocalSet => match imm_at(code, q) {
                        Some(idx) => {
                            if s.stack.len() == 0 || idx < 0 || idx >= s.locals.len() {
                                BlockOutcome::Fault(VmError::RuntimeFault)
                            } else {
                                BlockOutcome::Next(
                                    BlockState {
                                        stack: s.stack.drop_last(),
                                        locals: s.locals.update(idx as int, s.stack.last()),
                                        ip: q + 1,
                                        ..s
                                    },
                                )
                            }
                        }
                        None => BlockOutcome::Fault(VmError::DecodeFault),
                    },
                    Opcode::LocalGet => match imm_at(code, q) {
                        Some(idx) => {
                            if idx < 0 || idx >= s.locals.len() {
                                BlockOutcome::Fault(VmError::RuntimeFault)
                            } else {
                                BlockOutcome::Next(
                                    BlockState {
                                        stack: s.stack.push(s.locals[idx as int]),
                                        ip: q + 1,
                                        ..s
                                    },
                                )
                            }
                        }
                        None => BlockOutcome::Fault(VmError::DecodeFault),
                    },
                    Opcode::LocalTee => match imm_at(code, q) {
                        Some(idx) => {
                            if s.stack.len() == 0 || idx < 0 || idx >= s.locals.len() {
                                BlockOutcome::Fault(VmError::RuntimeFault)
                            } else {
                                BlockOutcome::Next(
                                    BlockState {
                                        locals: s.locals.update(idx as int, s.stack.last()),
                                        ip: q + 1,
                                        ..s
                                    },
                                )
                            }
                        }
                        None => BlockOutcome::Fault(VmError::DecodeFault),
                    },
                    Opcode::Block => match block_type_at(code, q) {
                        Some(_) => BlockOutcome::Next(BlockState { ip: q + 1, ..s }),
                        None => BlockOutcome::Fault(VmError::DecodeFault),
                    },
                    Opcode::Loop => match block_type_at(code, q) {
                        Some(_) => {
                            if s.cur + 1 > usize::MAX {
                                BlockOutcome::Fault(VmError::RuntimeFault)
                            } else {
                                BlockOutcome::Next(
                                    BlockState { ip: q + 1, cur: s.cur + 1, ..s },
                                )
                            }
                        }
                        None => BlockOutcome::Fault(VmError::DecodeFault),
                    },
                    Opcode::End => {
                        if s.cur + 1 > usize::MAX {
                            BlockOutcome::Fault(VmError::RuntimeFault)
                        } else {
                            BlockOutcome::Next(BlockState { ip: q, cur: s.cur + 1, ..s })
                        }
                    }
                    Opcode::Br => match imm_at(code, q) {
                        Some(_) => {
                            if !(0 <= s.cur < blocks.len()) {
                                BlockOutcome::Fault(VmError::RuntimeFault)
                            } else {
                                let tgt = blocks[s.cur].br_tgt;
                                if tgt >= blocks.len() {
                                    BlockOutcome::Fault(VmError::RuntimeFault)
                                } else {
                                    BlockOutcome::Next(
                                        BlockState {
                                            ip: blocks[tgt as int].ip as int,
                                            cur: tgt as int,
                                            ..s
                                        },
                                    )
                                }
                            }
                        }
                        None => BlockOutcome::Fault(VmError::DecodeFault),
                    },
                    Opcode::BrIf => match imm_at(code, q) {
                        Some(_) => {
                            if !(0 <= s.cur < blocks.len()) {
                                BlockOutcome::Fault(VmError::RuntimeFault)
                            } else if s.stack.len() == 0 {
                                BlockOutcome::Fault(VmError::RuntimeFault)
                            } else {
                                let c = s.stack.last();
                                let tgt = blocks[s.cur].br_tgt;
                                let e = if c == 0 { s.cur + 1 } else { tgt as int };
                                if !(0 <= e < blocks.len()) {
                                    BlockOutcome::Fault(VmError::RuntimeFault)
                                } else {
                                    BlockOutcome::Next(
                                        BlockState {
                                            stack: s.stack.drop_last(),
                                            ip: blocks[e].ip as int,
                                            cur: e,
                                            ..s
                                        },
                                    )
                                }
                            }
                        }
                        None => BlockOutcome::Fault(VmError::DecodeFault),
                    },
                }
            }
            _ => BlockOutcome::Fault(VmError::DecodeFault),
        }
    }
}

/// `n` block-driven steps, with `Done` and `Fault` absorbing.
pub open spec fn block_run(
    code: Seq<CodeEntry>,
    blocks: Seq<ContBlock>,
    s: BlockState,
    n: nat,
) -> BlockOutcome
    decreases n,
{
    if n == 0 {
        BlockOutcome::Next(s)
    } else {
        match block_run(code, blocks, s, (n - 1) as nat) {
            BlockOutcome::Next(t) => block_step(code, blocks, t),
            o => o,
        }
    }
}

/// The concrete interpretation for the block-driven driver: a value stack
/// and integer locals; control lives in the driver, not here.
#[derive(Debug)]
pub struct CPSEval {
    pub stack: Vec<i32>,
    pub locals: Vec<i32>,
}

impl CPSEval {
    /// Pop an integer; an empty stack is a fatal runtime fault.
    pub fn popi(&mut self) -> (r: Result<i32, VmError>)
        ensures
            final(self).locals == old(self).locals,
            old(self).stack@.len() > 0 ==> r == Ok::<i32, VmError>(old(self).stack@.last())
                && final(self).stack@ == old(self).stack@.drop_last(),
            old(self).stack@.len() == 0 ==> r == Err::<i32, VmError>(VmError::RuntimeFault)
                && final(self).stack@ == old(self).stack@,
    {
        match self.stack.pop() {
            Some(x) => Ok(x),
            None => Err(VmError::RuntimeFault),
        }
    }

    /// Push an immediate integer.
    pub fn pushi_imm(&mut self, x: i32)
        ensures
            final(self).locals == old(self).locals,
            final(self).stack@ == old(self).stack@.push(x),
    {
        self.pushi(x)
    }

    /// Push an integer value.
    pub fn pushi(&mut self, x: i32)
        ensures
            final(self).locals == old(self).locals,
            final(self).stack@ == old(self).stack@.push(x),
    {
        self.stack.push(x)
    }

    /// Push a stack value; the same as `pushi` here.
    pub fn push(&mut self, x: i32)
        ensures
            final(self).locals == old(self).locals,
            final(self).stack@ == old(self).stack@.push(x),
    {
        self.stack.push(x)
    }

    /// Pop a stack value; the same as `popi` here.
    pub fn pop(&mut self) -> (r: Result<i32, VmError>)
        ensures
            final(self).locals == old(self).locals,
            old(self).stack@.len() > 0 ==> r == Ok::<i32, VmError>(old(self).stack@.last())
                && final(self).stack@ == old(self).stack@.drop_last(),
            old(self).stack@.len() == 0 ==> r == Err::<i32, VmError>(VmError::RuntimeFault)
                && final(self).stack@ == old(self).stack@,
    {
        match self.stack.pop() {
            Some(x) => Ok(x),
            None => Err(VmError::RuntimeFault),
        }
    }

    /// Store a value into a local; a bad index is a fatal runtime fault.
    pub fn set_local(&mut self, idx: i32, val: i32) -> (r: Result<(), VmError>)
        ensures
            final(self).stack == old(self).stack,
            (0 <= idx < old(self).locals@.len()) ==> r == Ok::<(), VmError>(())
                && final(self).locals@ == old(self).locals@.update(idx as int, val),
            !(0 <= idx < old(self).locals@.len()) ==> r == Err::<(), VmError>(
                VmError::RuntimeFault,
            ) && final(self).locals == old(self).locals,
    {
        if idx >= 0 && (idx as usize) < self.locals.len() {
            self.locals[idx as usize] = val;
            Ok(())
        } else {
            Err(VmError::RuntimeFault)
        }
    }

    /// Load a value from a local; a bad index is a fatal runtime fault.
    pub fn get_local(&mut self, idx: i32) -> (r: Result<i32, VmError>)
        ensures
            *final(self) == *old(self),
            (0 <= idx < old(self).locals@.len()) ==> r == Ok::<i32, VmError>(
                old(self).locals@[idx as int],
            ),
            !(0 <= idx < old(self).locals@.len()) ==> r == Err::<i32, VmError>(
                VmError::RuntimeFault,
            ),
    {
        if idx >= 0 && (idx as usize) < self.locals.len() {
            Ok(self.locals[idx as usize])
        } else {
            Err(VmError::RuntimeFault)
        }
    }

    /// Two's-complement 32-bit addition.
    pub fn i32_add(&mut self, x: i32, y: i32) -> (r: i32)
        ensures
            *final(self) == *old(self),
            r == i32_specs::wrapping_add(x, y),
    {
        x.wrapping_add(y)
    }

    /// The branch condition: is the integer zero? Zero means "fall through".
    pub fn i32_eqz(&mut self, x: i32) -> (r: bool)
        ensures
            *final(self) == *old(self),
            r == (x == 0),
    {
        x == 0
    }

    /// Unconditional control transfer hands back the target block index.
    pub fn xfer_state(&mut self, stp: usize) -> (r: usize)
        ensures
            *final(self) == *old(self),
            r == stp,
    {
        stp
    }

    /// Conditional control transfer picks the left block when the condition
    /// holds, the right one otherwise.
    pub fn cond_xfer_state(&mut self, cond: bool, left_stp: usize, right_stp: usize) -> (r:
        usize)
        ensures
            *final(self) == *old(self),
            r == if cond { left_stp } else { right_stp },
    {
        if cond {
            left_stp
        } else {
            right_stp
        }
    }

    /// Handler for `i32.const`, with the immediate already decoded.
    pub fn cbd_i32_const(&mut self, x: i32)
        ensures
            final(self).locals == old(self).locals,
            final(self).stack@ == old(self).stack@.push(x),
    {
        self.pushi_imm(x)
    }

    /// Handler for `i32.add`: pop two values, add them, push the sum.
    pub fn cbd_i32_add(&mut self) -> (r: Result<(), VmError>)
        ensures
            final(self).locals == old(self).locals,
            old(self).stack@.len() >= 2 ==> r == Ok::<(), VmError>(())
                && final(self).stack@ == old(self).stack@.drop_last().drop_last().push(
                i32_specs::wrapping_add(
                    old(self).stack@.last(),
                    old(self).stack@.drop_last().last(),
                ),
            ),
            old(self).stack@.len() < 2 ==> r == Err::<(), VmError>(VmError::RuntimeFault),
    {
        let x = match self.popi() {
            Ok(v) => v,
            Err(e) => return Err(e),
        };
        let y = match self.popi() {
            Ok(v) => v,
            Err(e) => return Err(e),
        };
        let z = self.i32_add(x, y);
        self.pushi(z);
        Ok(())
    }

    /// Handler for `local.set`, with the index already decoded.
    pub fn cbd_local_set(&mut self, idx: i32) -> (r: Result<(), VmError>)
        ensures
            (old(self).stack@.len() > 0 && 0 <= idx < old(self).locals@.len()) ==> r
                == Ok::<(), VmError>(()) && final(self).stack@ == old(self).stack@.drop_last()
                && final(self).locals@ == old(self).locals@.update(
                idx as int,
                old(self).stack@.last(),
            ),
            !(old(self).stack@.len() > 0 && 0 <= idx < old(self).locals@.len()) ==> r
                == Err::<(), VmError>(VmError::RuntimeFault),
    {
        let val = match self.pop() {
            Ok(v) => v,
            Err(e) => return Err(e),
        };
        self.set_local(idx, val)
    }

    /// Handler for `local.get`, with the index already decoded.
    pub fn cbd_local_get(&mut self, idx: i32) -> (r: Result<(), VmError>)
        ensures
            final(self).locals == old(self).locals,
            (0 <= idx < old(self).locals@.len()) ==> r == Ok::<(), VmError>(())
                && final(self).stack@ == old(self).stack@.push(old(self).locals@[idx as int]),
            !(0 <= idx < old(self).locals@.len()) ==> r == Err::<(), VmError>(
                VmError::RuntimeFault,
            ) && final(self).stack@ == old(self).stack@,
    {
        let local = match self.get_local(idx) {
            Ok(v) => v,
            Err(e) => return Err(e),
        };
        self.push(local);
        Ok(())
    }

    /// Handler for `local.tee`, with the index already decoded: the value
    /// stays on the stack and a copy lands in the local.
    pub fn cbd_local_tee(&mut self, idx: i32) -> (r: Result<(), VmError>)
        ensures
            (old(self).stack@.len() > 0 && 0 <= idx < old(self).locals@.len()) ==> r
                == Ok::<(), VmError>(()) && final(self).stack@ == old(self).stack@
                && final(self).locals@ == old(self).locals@.update(
                idx as int,
                old(self).stack@.last(),
            ),
            !(old(self).stack@.len() > 0 && 0 <= idx < old(self).locals@.len()) ==> r
                == Err::<(), VmError>(VmError::RuntimeFault),
    {
        let ghost pre_stack = self.stack@;
        let val = match self.pop() {
            Ok(v) => v,
            Err(e) => return Err(e),
        };
        self.push(val);
        proof {
            assert(self.stack@ =~= pre_stack);
        }
        self.set_local(idx, val)
    }

    /// Handler for `block`: structure lives in the continuation blocks.
    pub fn cbd_block(&mut self, _typ_idx: usize)
        ensures
            *final(self) == *old(self),
    {
    }

    /// Handler for `loop`: structure lives in the continuation blocks.
    pub fn cbd_loop(&mut self, _typ_idx: usize)
        ensures
            *final(self) == *old(self),
    {
    }

    /// Handler for `br`, with the target block already looked up: hand the
    /// target back as the block to continue at.
    pub fn cbd_br(&mut self, target_stp: usize) -> (r: usize)
        ensures
            *final(self) == *old(self),
            r == target_stp,
    {
        self.xfer_state(target_stp)
    }

    /// Handler for `br_if`: pop the condition and pick the fall-through
    /// block on zero, the branch target otherwise.
    pub fn cbd_br_if(&mut self, target_stp: usize, fallthru_stp: usize) -> (r: Result<
        usize,
        VmError,
    >)
        ensures
            final(self).locals == old(self).locals,
            old(self).stack@.len() == 0 ==> r == Err::<usize, VmError>(VmError::RuntimeFault),
            old(self).stack@.len() > 0 ==> final(self).stack@ == old(self).stack@.drop_last()
                && r == Ok::<usize, VmError>(
                if old(self).stack@.last() == 0 {
                    fallthru_stp
                } else {
                    target_stp
                },
            ),
    {
        let condv = match self.popi() {
            Ok(v) => v,
            Err(e) => return Err(e),
        };
        let condb = self.i32_eqz(condv);
        Ok(self.cond_xfer_state(condb, fallthru_stp, target_stp))
    }

    /// Handler for `end`: structure lives in the continuation blocks.
    pub fn cbd_end(&mut self)
        ensures
            *final(self) == *old(self),
    {
    }
}

impl WASMFun {
    /// Drive the interpretation over the code block by block: straight-line
    /// opcodes run directly, a branch jumps to its block's recorded target,
    /// and `loop` / `end` advance the current block in step with the cuts.
    /// `Ok(true)` is a finished run of the block-step model; `Ok(false)`
    /// says the budget of `fuel` opcodes ran out; an error is exactly a run
    /// of the model into the same fault.
    pub fn run(&self, interpreter: &mut CPSEval, fuel: usize) -> (r: Result<bool, VmError>)
        ensures
            ({
                let init = BlockState {
                    stack: old(interpreter).stack@,
                    locals: old(interpreter).locals@,
                    ip: 0,
                    cur: 0,
                };
                &&& (r == Ok::<bool, VmError>(true) ==> exists|n: nat|
                    (#[trigger] block_run(self.code@, self.cont_blocks@, init, n) matches
                        BlockOutcome::Done(d) && d.stack == final(interpreter).stack@
                        && d.locals == final(interpreter).locals@))
                &&& (r == Ok::<bool, VmError>(false) ==> (block_run(
                    self.code@,
                    self.cont_blocks@,
                    init,
                    fuel as nat,
                ) matches BlockOutcome::Next(d) && d.stack == final(interpreter).stack@
                    && d.locals == final(interpreter).locals@))
                &&& (r matches Err(e) ==> exists|n: nat|
                    block_run(self.code@, self.cont_blocks@, init, n)
                        == BlockOutcome::Fault(e))
            }),
    {
        let ghost code = self.code@;
        let ghost blocks = self.cont_blocks@;
        let ghost init = BlockState {
            stack: interpreter.stack@,
            locals: interpreter.locals@,
            ip: 0,
            cur: 0,
        };
        let mut ip: usize = 0;
        let mut current_block: usize = 0;
        let ghost mut n: nat = 0;
        let mut remaining: usize = fuel;
        loop
            invariant
                code == self.code@,
                blocks == self.cont_blocks@,
                init == (BlockState {
                    stack: old(interpreter).stack@,
                    locals: old(interpreter).locals@,
                    ip: 0,
                    cur: 0,
                }),
                remaining <= fuel,
                n == fuel - remaining,
                block_run(code, blocks, init, n) == BlockOutcome::Next(
                    BlockState {
                        stack: interpreter.stack@,
                        locals: interpreter.locals@,
                        ip: ip as int,
                        cur: current_block as int,
                    },
                ),
            decreases remaining,
        {
            let ghost pre = BlockState {
                stack: interpreter.stack@,
                locals: interpreter.locals@,
                ip: ip as int,
                cur: current_block as int,
            };
            if remaining == 0 {
                return Ok(false);
            }
            remaining = remaining - 1;
            if ip >= self.code.len() {
                proof {
                    assert(block_step(code, blocks, pre) == BlockOutcome::Done(pre));
                    assert(block_run(code, blocks, init, n + 1) == BlockOutcome::Done(pre));
                }
                return Ok(true);
            }
            let op = match self.code[ip] {
                CodeEntry::Op(o) => o,
                _ => {
                    proof {
                        assert(block_step(code, blocks, pre)
                            == BlockOutcome::Fault(VmError::DecodeFault));
                        assert(block_run(code, blocks, init, n + 1)
                            == BlockOutcome::Fault(VmError::DecodeFault));
                    }
                    return Err(VmError::DecodeFault);
                }
            };
            ip = ip + 1;
            let rr: Result<(), VmError> = match op {
                Opcode::I32Const => {
                    match self.read_imm(ip) {
                        Ok(v) => {
                            ip = ip + 1;
                            interpreter.cbd_i32_const(v);
                            Ok(())
                        }
                        Err(e) => Err(e),
                    }
                }
                Opcode::I32Add => interpreter.cbd_i32_add(),
                Opcode::LocalSet => {
                    match self.read_imm(ip) {
                        Ok(v) => {
                            ip = ip + 1;
                            interpreter.cbd_local_set(v)
                        }
                        Err(e) => Err(e),
                    }
                }
                Opcode::LocalGet => {
                    match self.read_imm(ip) {
                        Ok(v) => {
                            ip = ip + 1;
                            interpreter.cbd_local_get(v)
                        }
                        Err(e) => Err(e),
                    }
                }
                Opcode::LocalTee => {
                    match self.read_imm(ip) {
                        Ok(v) => {
                            ip = ip + 1;
                            interpreter.cbd_local_tee(v)
                        }
                        Err(e) => Err(e),
                    }
                }
                Opcode::Block => {
                    match self.read_block_type(ip) {
                        Ok(t) => {
                            ip = ip + 1;
                            interpreter.cbd_block(t);
                            Ok(())
                        }
                        Err(e) => Err(e),
                    }
                }
                Opcode::Loop => {
                    match self.read_block_type(ip) {
                        Ok(t) => {
                            ip = ip + 1;
                            interpreter.cbd_loop(t);
                            if current_block == usize::MAX {
                                Err(VmError::RuntimeFault)
                            } else {
                                current_block = current_block + 1;
                                Ok(())
                            }
                        }
                        Err(e) => Err(e),
                    }
                }
                Opcode::End => {
                    interpreter.cbd_end();
                    if current_block == usize::MAX {
                        Err(VmError::RuntimeFault)
                    } else {
                        current_block = current_block + 1;
                        Ok(())
                    }
                }
                Opcode::Br => {
                    match self.read_imm(ip) {
                        Ok(_) => {
                            ip = ip + 1;
                            if current_block >= self.cont_blocks.len() {
                                Err(VmError::RuntimeFault)
                            } else {
                                let tgt = self.cont_blocks[current_block].br_tgt;
                                if tgt >= self.cont_blocks.len() {
                                    Err(VmError::RuntimeFault)
                                } else {
                                    let end_block = interpreter.cbd_br(tgt);
                                    current_block = end_block;
                                    ip = self.cont_blocks[current_block].ip;
                                    Ok(())
                                }
                            }
                        }
                        Err(e) => Err(e),
                    }
                }
                Opcode::BrIf => {
                    match self.read_imm(ip) {
                        Ok(_) => {
                            ip = ip + 1;
                            if current_block >= self.cont_blocks.len() {
                                Err(VmError::RuntimeFault)
                            } else {
                                let tgt = self.cont_blocks[current_block].br_tgt;
                                match interpreter.cbd_br_if(tgt, current_block + 1) {
                                    Ok(end_block) => {
                                        if end_block >= self.cont_blocks.len() {
                                            Err(VmError::RuntimeFault)
                                        } else {
                                            current_block = end_block;
                                            ip = self.cont_blocks[current_block].ip;
                                            Ok(())
                                        }
                                    }
                                    Err(e) => Err(e),
                                }
                            }
                        }
                        Err(e) => Err(e),
                    }
                }
            };
            match rr {
                Ok(_) => {
                    proof {
                        assert(block_step(code, blocks, pre) == BlockOutcome::Next(
                            BlockState {
                                stack: interpreter.stack@,
                                locals: interpreter.locals@,
                                ip: ip as int,
                                cur: current_block as int,
                            },
                        ));
                        assert(block_run(code, blocks, init, n + 1) == BlockOutcome::Next(
                            BlockState {
                                stack: interpreter.stack@,
                                locals: interpreter.locals@,
                                ip: ip as int,
                                cur: current_block as int,
                            },
                        ));
                        n = n + 1;
                    }
                }
                Err(e) => {
                    proof {
                        assert(block_step(code, blocks, pre) == BlockOutcome::Fault(e));
                        assert(block_run(code, blocks, init, n + 1) == BlockOutcome::Fault(e));
                    }
                    return Err(e);
                }
            }
        }
    }

    /// Read the 32-bit immediate at `p`; any other entry kind is a decode
    /// fault.
    fn read_imm(&self, p: usize) -> (r: Result<i32, VmError>)
        ensures
            match imm_at(self.code@, p as int) {
                Some(v) => r == Ok::<i32, VmError>(v),
                None => r == Err::<i32, VmError>(VmError::DecodeFault),
            },
    {
        if p < self.code.len() {
            match self.code[p] {
                CodeEntry::I32Imm(v) => Ok(v),
                _ => Err(VmError::DecodeFault),
            }
        } else {
            Err(VmError::DecodeFault)
        }
    }

    /// Read the block-type operand at `p`; any other entry kind is a decode
    /// fault.
    fn read_block_type(&self, p: usize) -> (r: Result<usize, VmError>)
        ensures
            match block_type_at(self.code@, p as int) {
                Some(t) => r == Ok::<usize, VmError>(t),
                None => r == Err::<usize, VmError>(VmError::DecodeFault),
            },
    {
        if p < self.code.len() {
            match self.code[p] {
                CodeEntry::BlockType(t) => Ok(t),
                _ => Err(VmError::DecodeFault),
            }
        } else {
            Err(VmError::DecodeFault)
        }
    }
}

} // verus!
