//! The properties that tie the three interpretations together: what the
//! validator's scan guarantees about frames and branch records, that the
//! sidetable it builds agrees with the code, and that the evaluator's
//! sidetable pointer stays in step with the static branch numbering.

use vstd::prelude::*;
use crate::code::{
    CodeEntry, Opcode, balanced_from, branches_before, decodes, imm_count, is_branch,
    lemma_branches_before_bounds, lemma_branches_before_nonneg,
};
use crate::eval::{EvalState, EvalOutcome, STEntry, eval_run, eval_step};
use crate::cps::{
    BlockOutcome, BlockState, ContBlock, PartOutcome, PartState, block_step, br_cont,
    br_conts_upto, part_init, part_run, part_step, zip_sync,
};
use crate::validate::{
    CtlEntry, CtlType, SidetableMeta, ValOutcome, ValState, st_entry_for, val_init, val_run,
    val_step,
};

verus! {

/// A frame whose continuation is settled: the continuation index is a valid
/// opcode boundary, its recorded sidetable index is the number of branches
/// before it, and the entry just before it is the opcode that created it.
pub open spec fn frame_resolved(code: Seq<CodeEntry>, c: CtlEntry) -> bool {
    &&& c.cont_ip <= code.len()
    &&& decodes(code, c.cont_ip as int)
    &&& c.cont_stp == branches_before(code, c.cont_ip as int)
    &&& (c.tipe matches CtlType::Loop ==> c.cont_ip >= 2 && code[c.cont_ip - 2]
        == CodeEntry::Op(Opcode::Loop))
    &&& (c.tipe matches CtlType::Block ==> c.cont_ip >= 1 && code[c.cont_ip - 1]
        == CodeEntry::Op(Opcode::End))
}

/// Every frame is accounted for: the root is the `Func` frame, a `Loop`
/// frame is resolved the moment it is opened, and a `Block` frame is either
/// still open (on the frame stack) or resolved by its `end`.
pub open spec fn frame_ok(code: Seq<CodeEntry>, s: ValState, k: int) -> bool {
    let c = s.ctls[k];
    match c.tipe {
        CtlType::Func => k == 0,
        CtlType::Loop => frame_resolved(code, c),
        CtlType::Block => s.ctl_stack.contains(k as usize) || frame_resolved(code, c),
    }
}

/// The branch at position `p` owns the record whose index is its static
/// branch number plus one (for the sentinel): the record points just past
/// the branch's immediate and at a real frame.
pub open spec fn meta_ok(code: Seq<CodeEntry>, s: ValState, p: int) -> bool {
    let j = branches_before(code, p) + 1;
    &&& 0 <= j < s.metas.len()
    &&& s.metas[j].br_ip == p + 2
    &&& s.metas[j].target_ctl_idx < s.ctls.len()
}

/// The validator's scan invariant, at every opcode boundary.
pub open spec fn val_inv(code: Seq<CodeEntry>, s: ValState) -> bool {
    &&& code.len() <= 0x7fff_ffff
    &&& 0 <= s.ip <= code.len()
    &&& decodes(code, s.ip)
    &&& s.metas.len() == 1 + branches_before(code, s.ip)
    &&& 1 <= s.ctls.len() <= 1 + s.ip
    &&& s.ctls[0].tipe == CtlType::Func
    &&& s.ctls[0].cont_ip == code.len()
    &&& s.ctls[0].cont_stp == 0
    &&& forall|a: int, b: int| 0 <= a < b < s.ctl_stack.len()
        ==> #[trigger] s.ctl_stack[a] < #[trigger] s.ctl_stack[b]
    &&& forall|a: int| 0 <= a < s.ctl_stack.len() ==> (#[trigger] s.ctl_stack[a])
        < s.ctls.len()
    &&& forall|k: int| 0 <= k < s.ctls.len() ==> #[trigger] frame_ok(code, s, k)
    &&& forall|p: int| 0 <= p < s.ip && is_branch(#[trigger] code[p]) ==> meta_ok(code, s, p)
}

/// The invariant holds of the initial state.
pub proof fn lemma_val_inv_init(code: Seq<CodeEntry>, nlocals: nat)
    requires
        decodes(code, 0),
        code.len() <= 0x7fff_ffff,
    ensures
        val_inv(code, val_init(code, nlocals)),
{
    let s = val_init(code, nlocals);
    assert(s.ctl_stack[0] == 0usize);
    assert(frame_ok(code, s, 0));
}

/// One validation step preserves the invariant, and the cursor strictly
/// advances.
pub proof fn lemma_val_inv_step(code: Seq<CodeEntry>, s: ValState, t: ValState)
    requires
        val_inv(code, s),
        val_step(code, s) == ValOutcome::Next(t),
    ensures
        val_inv(code, t),
        s.ip < t.ip <= code.len(),
{
    lemma_branches_before_nonneg(code, s.ip);
    lemma_branches_before_bounds(code, 0, s.ip);
    let p = s.ip;
    assert(p < code.len());
    match code[p] {
        CodeEntry::Op(op) => {
            let q = p + 1;
            assert(branches_before(code, p + 1)
                == branches_before(code, p) + if is_branch(code[p]) { 1int } else { 0int });
            if p + 2 <= code.len() {
                assert(branches_before(code, p + 2)
                    == branches_before(code, p + 1)
                        + if is_branch(code[p + 1]) { 1int } else { 0int });
            }
            match op {
                Opcode::I32Const | Opcode::LocalSet | Opcode::LocalGet | Opcode::LocalTee => {
                    assert(t.ctls == s.ctls && t.ctl_stack == s.ctl_stack && t.metas == s.metas);
                    assert forall|k: int| 0 <= k < t.ctls.len() implies #[trigger] frame_ok(
                        code,
                        t,
                        k,
                    ) by {
                        assert(frame_ok(code, s, k));
                    }
                    assert forall|pp: int|
                        0 <= pp < t.ip && is_branch(#[trigger] code[pp]) implies meta_ok(
                        code,
                        t,
                        pp,
                    ) by {
                        assert(meta_ok(code, s, pp));
                    }
                }
                Opcode::I32Add | Opcode::End => {
                    if (op matches Opcode::I32Add) {
                        assert(t.ctls == s.ctls && t.ctl_stack == s.ctl_stack
                            && t.metas == s.metas);
                        assert forall|k: int| 0 <= k < t.ctls.len() implies #[trigger] frame_ok(
                            code,
                            t,
                            k,
                        ) by {
                            assert(frame_ok(code, s, k));
                        }
                    } else {
                        let cs = s.ctl_stack;
                        let k0 = cs.last();
                        assert(cs.len() >= 1);
                        assert(cs[cs.len() - 1] < s.ctls.len());
                        assert(t.ctl_stack == cs.drop_last());
                        assert forall|k: int| 0 <= k < t.ctls.len() implies #[trigger] frame_ok(
                            code,
                            t,
                            k,
                        ) by {
                            assert(frame_ok(code, s, k));
                            if (s.ctls[k].tipe matches CtlType::Block)
                                && s.ctl_stack.contains(k as usize) && k != k0 {
                                let i = choose|i: int|
                                    0 <= i < cs.len() && cs[i] == k as usize;
                                assert(i < cs.len() - 1);
                                assert(t.ctl_stack[i] == k as usize);
                                assert(t.ctl_stack.contains(k as usize));
                            }
                            if (s.ctls[k0 as int].tipe matches CtlType::Block) && k == k0 {
                                assert(t.ctls[k] == CtlEntry {
                                    tipe: CtlType::Block,
                                    cont_ip: q as usize,
                                    cont_stp: (s.metas.len() - 1) as usize,
                                });
                                assert(frame_resolved(code, t.ctls[k]));
                            }
                        }
                    }
                    assert forall|pp: int|
                        0 <= pp < t.ip && is_branch(#[trigger] code[pp]) implies meta_ok(
                        code,
                        t,
                        pp,
                    ) by {
                        assert(meta_ok(code, s, pp));
                    }
                }
                Opcode::Block | Opcode::Loop => {
                    let knew = s.ctls.len();
                    assert(t.ctl_stack == s.ctl_stack.push(knew as usize));
                    assert(t.ctl_stack.last() == knew as usize);
                    assert forall|a: int, b: int| 0 <= a < b < t.ctl_stack.len()
                        implies #[trigger] t.ctl_stack[a] < #[trigger] t.ctl_stack[b] by {
                        if b < t.ctl_stack.len() - 1 {
                            assert(t.ctl_stack[a] == s.ctl_stack[a]);
                            assert(t.ctl_stack[b] == s.ctl_stack[b]);
                        } else {
                            assert(t.ctl_stack[a] == s.ctl_stack[a]);
                            assert(s.ctl_stack[a] < s.ctls.len());
                        }
                    }
                    assert forall|k: int| 0 <= k < t.ctls.len() implies #[trigger] frame_ok(
                        code,
                        t,
                        k,
                    ) by {
                        if k < knew {
                            assert(frame_ok(code, s, k));
                            assert(t.ctls[k] == s.ctls[k]);
                            if (s.ctls[k].tipe matches CtlType::Block)
                                && s.ctl_stack.contains(k as usize) {
                                let i = choose|i: int|
                                    0 <= i < s.ctl_stack.len() && s.ctl_stack[i] == k as usize;
                                assert(t.ctl_stack[i] == k as usize);
                                assert(t.ctl_stack.contains(k as usize));
                            }
                        } else {
                            if (op matches Opcode::Block) {
                                assert(t.ctl_stack.contains(knew as usize));
                            } else {
                                assert(frame_resolved(code, t.ctls[k]));
                            }
                        }
                    }
                    assert forall|pp: int|
                        0 <= pp < t.ip && is_branch(#[trigger] code[pp]) implies meta_ok(
                        code,
                        t,
                        pp,
                    ) by {
                        assert(meta_ok(code, s, pp));
                    }
                }
                Opcode::Br | Opcode::BrIf => {
                    let d = crate::eval::imm_at(code, q)->Some_0;
                    let tgt = s.ctl_stack[s.ctl_stack.len() - 1 - d];
                    assert(s.ctl_stack[s.ctl_stack.len() - 1 - d] < s.ctls.len());
                    assert(t.metas == s.metas.push(
                        SidetableMeta { br_ip: (q + 1) as usize, target_ctl_idx: tgt },
                    ));
                    assert forall|k: int| 0 <= k < t.ctls.len() implies #[trigger] frame_ok(
                        code,
                        t,
                        k,
                    ) by {
                        assert(frame_ok(code, s, k));
                    }
                    assert forall|pp: int|
                        0 <= pp < t.ip && is_branch(#[trigger] code[pp]) implies meta_ok(
                        code,
                        t,
                        pp,
                    ) by {
                        if pp < p {
                            assert(meta_ok(code, s, pp));
                            lemma_branches_before_bounds(code, pp + 1, p);
                            assert(branches_before(code, pp + 1)
                                == branches_before(code, pp) + 1);
                            assert(branches_before(code, pp) + 1 < s.metas.len());
                            assert(t.metas[branches_before(code, pp) + 1]
                                == s.metas[branches_before(code, pp) + 1]);
                        } else {
                            assert(pp == p);
                            assert(t.metas[s.metas.len() as int]
                                == SidetableMeta { br_ip: (q + 1) as usize, target_ctl_idx: tgt });
                        }
                    }
                }
            }
        }
        _ => {
            assert(false);
        }
    }
}

/// The invariant holds along the whole scan; a finished scan stands exactly
/// at the end of the code.
pub proof fn lemma_val_inv_run(code: Seq<CodeEntry>, s0: ValState, n: nat)
    requires
        val_inv(code, s0),
    ensures
        match val_run(code, s0, n) {
            ValOutcome::Next(t) => val_inv(code, t),
            ValOutcome::Done(d) => val_inv(code, d) && d.ip == code.len(),
            ValOutcome::Fault(_) => true,
        },
    decreases n,
{
    if n > 0 {
        lemma_val_inv_run(code, s0, (n - 1) as nat);
        match val_run(code, s0, (n - 1) as nat) {
            ValOutcome::Next(u) => {
                match val_step(code, u) {
                    ValOutcome::Next(t) => {
                        lemma_val_inv_step(code, u, t);
                    }
                    _ => {}
                }
            }
            _ => {}
        }
    }
}

/// A step backwards: if the code decodes from where a step lands, it decodes
/// from where the step began — each step consumes one whole instruction.
pub proof fn lemma_val_step_back(code: Seq<CodeEntry>, u: ValState, t: ValState)
    requires
        0 <= u.ip <= code.len(),
        val_step(code, u) == ValOutcome::Next(t),
    ensures
        0 <= t.ip <= code.len(),
        decodes(code, t.ip) ==> decodes(code, u.ip),
{
}

/// A scan that runs to completion certifies that the whole code decodes:
/// the cursor visits every instruction in turn.
pub proof fn lemma_val_run_decodes(code: Seq<CodeEntry>, s0: ValState, n: nat)
    requires
        0 <= s0.ip <= code.len(),
    ensures
        match val_run(code, s0, n) {
            ValOutcome::Next(u) => (decodes(code, u.ip) ==> decodes(code, s0.ip)) && 0 <= u.ip
                <= code.len(),
            ValOutcome::Done(_) => decodes(code, s0.ip),
            ValOutcome::Fault(_) => true,
        },
    decreases n,
{
    if n > 0 {
        lemma_val_run_decodes(code, s0, (n - 1) as nat);
        match val_run(code, s0, (n - 1) as nat) {
            ValOutcome::Next(u) => {
                match val_step(code, u) {
                    ValOutcome::Next(t) => {
                        lemma_val_step_back(code, u, t);
                    }
                    ValOutcome::Done(_) => {
                        assert(u.ip == code.len());
                    }
                    ValOutcome::Fault(_) => {}
                }
            }
            _ => {}
        }
    }
}

/// The frame discipline of a scan over balanced code: the root frame's
/// index sits at the bottom of the frame stack, and the frames open above
/// it are exactly the `block`s and `loop`s not yet closed at the cursor.
pub open spec fn frames_inv(code: Seq<CodeEntry>, s: ValState) -> bool {
    &&& s.ctl_stack.len() >= 1
    &&& s.ctl_stack[0] == 0usize
    &&& balanced_from(code, s.ip, (s.ctl_stack.len() - 1) as nat)
}

/// One validation step preserves the frame discipline: an opener pushes one
/// frame, an `end` pops one frame that is not the root, and every other
/// opcode leaves the frame stack alone.
pub proof fn lemma_frames_inv_step(code: Seq<CodeEntry>, s: ValState, t: ValState)
    requires
        frames_inv(code, s),
        val_step(code, s) == ValOutcome::Next(t),
    ensures
        frames_inv(code, t),
{
    let p = s.ip;
    let open = (s.ctl_stack.len() - 1) as nat;
    assert(p < code.len());
    match code[p] {
        CodeEntry::Op(op) => {
            let q = p + 1 + imm_count(op);
            match op {
                Opcode::I32Const | Opcode::LocalSet | Opcode::LocalGet | Opcode::LocalTee
                    | Opcode::I32Add | Opcode::Br | Opcode::BrIf => {
                    assert(t.ctl_stack == s.ctl_stack);
                    assert(t.ip == q);
                    assert(balanced_from(code, q, open));
                }
                Opcode::Block | Opcode::Loop => {
                    assert(t.ctl_stack == s.ctl_stack.push(s.ctls.len() as usize));
                    assert(t.ctl_stack[0] == s.ctl_stack[0]);
                    assert(t.ip == q);
                    assert(balanced_from(code, q, open + 1));
                }
                Opcode::End => {
                    assert(open > 0);
                    assert(t.ctl_stack == s.ctl_stack.drop_last());
                    assert(t.ctl_stack[0] == s.ctl_stack[0]);
                    assert(t.ip == q);
                    assert(balanced_from(code, q, (open - 1) as nat));
                }
            }
        }
        _ => {
            assert(false);
        }
    }
}

/// The frame discipline holds along the whole scan, and when the scan
/// finishes, every frame an opener pushed has been popped by its `end`:
/// only the root frame is still open.
pub proof fn lemma_frames_inv_run(code: Seq<CodeEntry>, s0: ValState, n: nat)
    requires
        frames_inv(code, s0),
    ensures
        match val_run(code, s0, n) {
            ValOutcome::Next(t) => frames_inv(code, t),
            ValOutcome::Done(d) => d.ctl_stack =~= seq![0usize],
            ValOutcome::Fault(_) => true,
        },
    decreases n,
{
    if n > 0 {
        lemma_frames_inv_run(code, s0, (n - 1) as nat);
        match val_run(code, s0, (n - 1) as nat) {
            ValOutcome::Next(u) => {
                match val_step(code, u) {
                    ValOutcome::Next(t) => {
                        lemma_frames_inv_step(code, u, t);
                    }
                    ValOutcome::Done(d) => {
                        assert(d == u);
                        assert(u.ip >= code.len());
                        assert(u.ip == code.len());
                        assert((u.ctl_stack.len() - 1) as nat == 0);
                        assert(d.ctl_stack =~= seq![0usize]);
                    }
                    ValOutcome::Fault(_) => {}
                }
            }
            _ => {}
        }
    }
}

/// The frames stack closes back down to the root at program end: over code
/// whose control structure balances — every `block` and `loop` matched by
/// its `end`, every `end` closing an open frame — a validator scan that
/// finishes leaves the frame stack holding exactly the root `Func` frame;
/// no `block` or `loop` frame survives the end of the program.
pub proof fn lemma_balanced_frames_close(
    code: Seq<CodeEntry>,
    nlocals: nat,
    n: nat,
    d: ValState,
)
    requires
        balanced_from(code, 0, 0),
        val_run(code, val_init(code, nlocals), n) == ValOutcome::Done(d),
    ensures
        d.ctl_stack =~= seq![0usize],
{
    let s0 = val_init(code, nlocals);
    assert(frames_inv(code, s0));
    lemma_frames_inv_run(code, s0, n);
}

/// The sidetable agrees with the code: there is one entry past the sentinel
/// for every static branch, in program order, and the entry whose index is a
/// branch's static number plus one carries that branch from the position
/// after its immediate either to the end of the code or to an opcode
/// boundary whose branch count matches the adjusted sidetable pointer.
pub open spec fn sidetable_ok(code: Seq<CodeEntry>, st: Seq<STEntry>) -> bool {
    &&& st.len() == 1 + branches_before(code, code.len() as int)
    &&& forall|p: int| 0 <= p < code.len() && is_branch(#[trigger] code[p]) ==> {
        let j = branches_before(code, p) + 1;
        &&& 0 <= j < st.len()
        &&& 0 <= p + 2 + st[j].ip_delta <= code.len()
        &&& 0 <= j + st[j].stp_delta <= usize::MAX
        &&& (p + 2 + st[j].ip_delta == code.len() || (decodes(code, p + 2 + st[j].ip_delta)
            && j + st[j].stp_delta == branches_before(code, p + 2 + st[j].ip_delta)))
    }
}

/// A validator scan that finishes with only the root frame still open has
/// resolved every frame a branch record can target, and the sidetable built
/// from its records agrees with the code.
pub proof fn lemma_validator_sidetable_ok(
    code: Seq<CodeEntry>,
    nlocals: nat,
    n: nat,
    d: ValState,
    st: Seq<STEntry>,
)
    requires
        code.len() <= 0x7fff_ffff,
        val_run(code, val_init(code, nlocals), n) == ValOutcome::Done(d),
        d.ctl_stack =~= seq![0usize],
        st.len() == d.metas.len(),
        forall|j: int| 0 <= j < d.metas.len() ==> d.metas[j].target_ctl_idx < d.ctls.len()
            && st_entry_for(
            d.ctls[(#[trigger] d.metas[j]).target_ctl_idx as int],
            d.metas[j],
            j,
            st[j],
        ),
    ensures
        decodes(code, 0),
        sidetable_ok(code, st),
        st.len() == 1 + branches_before(code, code.len() as int),
{
    lemma_val_run_decodes(code, val_init(code, nlocals), n);
    lemma_val_inv_init(code, nlocals);
    lemma_val_inv_run(code, val_init(code, nlocals), n);
    assert(val_inv(code, d) && d.ip == code.len());
    assert forall|p: int| 0 <= p < code.len() && is_branch(#[trigger] code[p]) implies {
        let j = branches_before(code, p) + 1;
        &&& 0 <= j < st.len()
        &&& 0 <= p + 2 + st[j].ip_delta <= code.len()
        &&& 0 <= j + st[j].stp_delta <= usize::MAX
        &&& (p + 2 + st[j].ip_delta == code.len() || (decodes(code, p + 2 + st[j].ip_delta)
            && j + st[j].stp_delta == branches_before(code, p + 2 + st[j].ip_delta)))
    } by {
        lemma_branches_before_nonneg(code, p);
        assert(meta_ok(code, d, p));
        let j = branches_before(code, p) + 1;
        let m = d.metas[j];
        let k = m.target_ctl_idx;
        let c = d.ctls[k as int];
        assert(frame_ok(code, d, k as int));
        assert(st_entry_for(c, m, j, st[j]));
        match c.tipe {
            CtlType::Func => {
                assert(k == 0);
                assert(p + 2 + st[j].ip_delta == code.len());
                assert(j + st[j].stp_delta == 0);
            }
            CtlType::Loop => {
                assert(frame_resolved(code, c));
            }
            CtlType::Block => {
                if d.ctl_stack.contains(k) {
                    let i = choose|i: int|
                        0 <= i < d.ctl_stack.len() && d.ctl_stack[i] == k;
                    assert(d.ctl_stack[i] == 0usize);
                    assert(false);
                }
                assert(frame_resolved(code, c));
            }
        }
        lemma_branches_before_nonneg(code, p + 2 + st[j].ip_delta);
    }
}

/// The evaluator is aligned: the cursor stands at an opcode boundary (or at
/// the end), and the sidetable pointer equals the number of static branches
/// before the cursor — so the next pre-increment selects the entry of
/// whichever branch is reached next.
pub open spec fn eval_aligned(code: Seq<CodeEntry>, s: EvalState) -> bool {
    s.ip >= code.len() || (0 <= s.ip && decodes(code, s.ip) && s.stp == branches_before(
        code,
        s.ip,
    ))
}

/// One evaluation step over an agreeing sidetable preserves alignment.
pub proof fn lemma_eval_aligned_step(
    code: Seq<CodeEntry>,
    st: Seq<STEntry>,
    s: EvalState,
    t: EvalState,
)
    requires
        sidetable_ok(code, st),
        eval_aligned(code, s),
        eval_step(code, st, s) == EvalOutcome::Next(t),
    ensures
        eval_aligned(code, t),
{
    let p = s.ip;
    assert(p < code.len());
    assert(decodes(code, p));
    assert(branches_before(code, p + 1)
        == branches_before(code, p) + if is_branch(code[p]) { 1int } else { 0int });
    if p + 2 <= code.len() {
        assert(branches_before(code, p + 2)
            == branches_before(code, p + 1) + if is_branch(code[p + 1]) { 1int } else { 0int });
    }
    match code[p] {
        CodeEntry::Op(op) => {
            match op {
                Opcode::Br | Opcode::BrIf => {
                    assert(is_branch(code[p]));
                }
                _ => {}
            }
        }
        _ => {
            assert(false);
        }
    }
}

/// Alignment holds along any evaluator run that starts at the beginning of
/// the code with the sidetable pointer on the sentinel. In particular, just
/// before any branch opcode is handled, the sidetable pointer after its
/// pre-increment — the branch count before the opcode, plus one — selects
/// exactly that static branch's sidetable entry.
pub proof fn lemma_eval_stp_tracks_branches(
    code: Seq<CodeEntry>,
    st: Seq<STEntry>,
    s0: EvalState,
    n: nat,
)
    requires
        decodes(code, 0),
        sidetable_ok(code, st),
        s0.ip == 0,
        s0.stp == 0,
    ensures
        match eval_run(code, st, s0, n) {
            EvalOutcome::Next(s) => eval_aligned(code, s) && (0 <= s.ip < code.len()
                && is_branch(code[s.ip]) ==> s.stp + 1 == branches_before(code, s.ip) + 1
                && 0 <= s.stp + 1 < st.len()),
            _ => true,
        },
    decreases n,
{
    if n == 0 {
        assert(eval_aligned(code, s0));
    } else {
        lemma_eval_stp_tracks_branches(code, st, s0, (n - 1) as nat);
        match eval_run(code, st, s0, (n - 1) as nat) {
            EvalOutcome::Next(u) => {
                match eval_step(code, st, u) {
                    EvalOutcome::Next(t) => {
                        lemma_eval_aligned_step(code, st, u, t);
                        if 0 <= t.ip < code.len() && is_branch(code[t.ip]) {
                            lemma_branches_before_nonneg(code, t.ip);
                            lemma_branches_before_bounds(code, t.ip + 1, code.len() as int);
                            assert(branches_before(code, t.ip + 1)
                                == branches_before(code, t.ip) + 1);
                        }
                    }
                    _ => {}
                }
            }
            _ => {}
        }
    }
}

/// For every program the validator accepts, the raw branch records — and so
/// the sidetable built from them — number exactly the static `br` / `br_if`
/// opcodes of the code, plus the sentinel.
pub proof fn lemma_sidetable_length(code: Seq<CodeEntry>, nlocals: nat, n: nat, d: ValState)
    requires
        code.len() <= 0x7fff_ffff,
        val_run(code, val_init(code, nlocals), n) == ValOutcome::Done(d),
    ensures
        d.metas.len() == 1 + branches_before(code, code.len() as int),
{
    lemma_val_run_decodes(code, val_init(code, nlocals), n);
    lemma_val_inv_init(code, nlocals);
    lemma_val_inv_run(code, val_init(code, nlocals), n);
}

/// A taken branch lands exactly on its target frame's continuation: for a
/// `loop` frame the entry just after the `loop` opcode (a back edge), for a
/// `block` frame the position just after an `end`, and for the root frame
/// the end of the code.
pub proof fn lemma_branch_lands_on_continuation(
    code: Seq<CodeEntry>,
    nlocals: nat,
    n: nat,
    d: ValState,
    st: Seq<STEntry>,
    p: int,
)
    requires
        code.len() <= 0x7fff_ffff,
        val_run(code, val_init(code, nlocals), n) == ValOutcome::Done(d),
        d.ctl_stack =~= seq![0usize],
        st.len() == d.metas.len(),
        forall|j: int| 0 <= j < d.metas.len() ==> d.metas[j].target_ctl_idx < d.ctls.len()
            && st_entry_for(
            d.ctls[(#[trigger] d.metas[j]).target_ctl_idx as int],
            d.metas[j],
            j,
            st[j],
        ),
        0 <= p < code.len(),
        is_branch(code[p]),
    ensures
        ({
            let j = branches_before(code, p) + 1;
            let c = d.ctls[d.metas[j].target_ctl_idx as int];
            &&& 0 <= j < st.len()
            &&& p + 2 + st[j].ip_delta == c.cont_ip
            &&& (c.tipe matches CtlType::Loop ==> c.cont_ip >= 2 && code[c.cont_ip - 2]
                == CodeEntry::Op(Opcode::Loop))
            &&& (c.tipe matches CtlType::Block ==> c.cont_ip >= 1 && code[c.cont_ip - 1]
                == CodeEntry::Op(Opcode::End))
            &&& (c.tipe matches CtlType::Func ==> c.cont_ip == code.len())
        }),
{
    lemma_val_run_decodes(code, val_init(code, nlocals), n);
    lemma_val_inv_init(code, nlocals);
    lemma_val_inv_run(code, val_init(code, nlocals), n);
    lemma_branches_before_nonneg(code, p);
    assert(meta_ok(code, d, p));
    let j = branches_before(code, p) + 1;
    let m = d.metas[j];
    let k = m.target_ctl_idx;
    let c = d.ctls[k as int];
    assert(frame_ok(code, d, k as int));
    assert(st_entry_for(c, m, j, st[j]));
    match c.tipe {
        CtlType::Func => {
            assert(k == 0);
        }
        CtlType::Loop => {
            assert(frame_resolved(code, c));
        }
        CtlType::Block => {
            if d.ctl_stack.contains(k) {
                let i = choose|i: int| 0 <= i < d.ctl_stack.len() && d.ctl_stack[i] == k;
                assert(d.ctl_stack[i] == 0usize);
                assert(false);
            }
            assert(frame_resolved(code, c));
        }
    }
}

/// `br_if` on a zero condition falls through: the condition is popped, the
/// cursor moves past the immediate, and the sidetable pointer advances past
/// this branch's entry so later branches stay in step.
pub proof fn lemma_br_if_zero_falls_through(
    code: Seq<CodeEntry>,
    st: Seq<STEntry>,
    s: EvalState,
)
    requires
        0 <= s.ip < code.len(),
        code[s.ip] == CodeEntry::Op(Opcode::BrIf),
        crate::eval::imm_at(code, s.ip + 1) is Some,
        s.stack.len() >= 1,
        s.stack.last() == 0,
        0 <= s.stp,
        s.stp + 1 <= usize::MAX,
    ensures
        eval_step(code, st, s) == EvalOutcome::Next(
            EvalState { stack: s.stack.drop_last(), ip: s.ip + 2, stp: s.stp + 1, ..s },
        ),
{
}

/// `br_if` on a non-zero condition takes the branch: the step is exactly the
/// sidetable branch step on the state with the condition popped and the
/// cursor past the immediate.
pub proof fn lemma_br_if_nonzero_branches(
    code: Seq<CodeEntry>,
    st: Seq<STEntry>,
    s: EvalState,
)
    requires
        0 <= s.ip < code.len(),
        code[s.ip] == CodeEntry::Op(Opcode::BrIf),
        crate::eval::imm_at(code, s.ip + 1) is Some,
        s.stack.len() >= 1,
        s.stack.last() != 0,
    ensures
        eval_step(code, st, s) == crate::eval::branch_step(
            st,
            EvalState { stack: s.stack.drop_last(), ip: s.ip + 2, ..s },
        ),
{
}

/// The three-instruction program `i32.const v; local.set i; local.get i`
/// finishes with the same value stack as the one-instruction program
/// `i32.const v` — the store then load of the fresh local restores the
/// pushed value.
pub proof fn lemma_const_set_get_stack(st: Seq<STEntry>, s: EvalState, v: i32, i: i32)
    requires
        s.ip == 0,
        0 <= i < s.locals.len(),
    ensures
        ({
            let code1 = seq![
                CodeEntry::Op(Opcode::I32Const),
                CodeEntry::I32Imm(v),
                CodeEntry::Op(Opcode::LocalSet),
                CodeEntry::I32Imm(i),
                CodeEntry::Op(Opcode::LocalGet),
                CodeEntry::I32Imm(i),
            ];
            let code2 = seq![CodeEntry::Op(Opcode::I32Const), CodeEntry::I32Imm(v)];
            &&& eval_run(code1, st, s, 4) is Done
            &&& eval_run(code2, st, s, 2) is Done
            &&& eval_run(code1, st, s, 4)->Done_0.stack =~= eval_run(code2, st, s, 2)->Done_0.stack
        }),
{
    let code1 = seq![
        CodeEntry::Op(Opcode::I32Const),
        CodeEntry::I32Imm(v),
        CodeEntry::Op(Opcode::LocalSet),
        CodeEntry::I32Imm(i),
        CodeEntry::Op(Opcode::LocalGet),
        CodeEntry::I32Imm(i),
    ];
    let code2 = seq![CodeEntry::Op(Opcode::I32Const), CodeEntry::I32Imm(v)];
    reveal_with_fuel(eval_run, 5);
    let u1 = EvalState { stack: s.stack.push(v), ip: 2, ..s };
    assert(eval_step(code1, st, s) == EvalOutcome::Next(u1));
    assert(eval_run(code1, st, s, 1) == EvalOutcome::Next(u1));
    let u2 = EvalState {
        stack: u1.stack.drop_last(),
        locals: s.locals.update(i as int, v),
        ip: 4,
        ..s
    };
    assert(u1.stack.last() == v);
    assert(eval_step(code1, st, u1) == EvalOutcome::Next(u2));
    assert(eval_run(code1, st, s, 2) == EvalOutcome::Next(u2));
    let u3 = EvalState { stack: u2.stack.push(v), ip: 6, ..u2 };
    assert(u2.locals[i as int] == v);
    assert(eval_step(code1, st, u2) == EvalOutcome::Next(u3));
    assert(eval_run(code1, st, s, 3) == EvalOutcome::Next(u3));
    assert(eval_step(code1, st, u3) == EvalOutcome::Done(u3));
    assert(eval_run(code1, st, s, 4) == EvalOutcome::Done(u3));
    let w1 = EvalState { stack: s.stack.push(v), ip: 2, ..s };
    assert(eval_step(code2, st, s) == EvalOutcome::Next(w1));
    assert(eval_run(code2, st, s, 1) == EvalOutcome::Next(w1));
    assert(eval_step(code2, st, w1) == EvalOutcome::Done(w1));
    assert(eval_run(code2, st, s, 2) == EvalOutcome::Done(w1));
    assert(u3.stack =~= w1.stack);
}

/// Counting branch-cut continuations is stable under extending the
/// continuation sequence past the counted prefix.
pub proof fn lemma_br_conts_upto_push(
    code: Seq<CodeEntry>,
    conts: Seq<crate::cps::Cont>,
    c: crate::cps::Cont,
    j: int,
)
    requires
        j <= conts.len(),
    ensures
        br_conts_upto(code, conts.push(c), j) == br_conts_upto(code, conts, j),
    decreases j,
{
    if j > 1 {
        lemma_br_conts_upto_push(code, conts, c, j - 1);
        assert(conts.push(c)[j - 1] == conts[j - 1]);
    }
}

/// The count of branch-cut continuations grows by at least one past each
/// branch-cut continuation.
pub proof fn lemma_br_conts_upto_mono(
    code: Seq<CodeEntry>,
    conts: Seq<crate::cps::Cont>,
    j: int,
    m: int,
)
    requires
        j <= m,
    ensures
        br_conts_upto(code, conts, j) <= br_conts_upto(code, conts, m),
    decreases m - j,
{
    if j < m {
        lemma_br_conts_upto_mono(code, conts, j, m - 1);
    }
}

/// The partitioner's scan invariant, at every opcode boundary: the cursor
/// stands on an opcode boundary that never directly follows a branch entry,
/// the continuations start at zero and strictly increase within the scanned
/// prefix, every branch record targets a real frame, and the records number
/// exactly the branch-cut continuations.
pub open spec fn part_inv(code: Seq<CodeEntry>, s: PartState) -> bool {
    &&& code.len() <= 0x7fff_ffff
    &&& 0 <= s.ip <= code.len()
    &&& decodes(code, s.ip)
    &&& (s.ip == 0 || !is_branch(code[s.ip - 1]))
    &&& s.conts.len() >= 1
    &&& s.conts[0].ip == 0
    &&& forall|a: int, b: int| 0 <= a < b < s.conts.len()
        ==> (#[trigger] s.conts[a]).ip < (#[trigger] s.conts[b]).ip
    &&& forall|a: int| 0 <= a < s.conts.len() ==> (#[trigger] s.conts[a]).ip <= s.ip
    &&& s.ctls.len() >= 1
    &&& forall|a: int| 0 <= a < s.ctl_stack.len() ==> (#[trigger] s.ctl_stack[a])
        < s.ctls.len()
    &&& forall|jb: int| 0 <= jb < s.branches.len() ==> (#[trigger] s.branches[jb]).tgt_idx
        < s.ctls.len()
    &&& s.branches.len() == br_conts_upto(code, s.conts, s.conts.len() as int)
}

/// The invariant holds of the scan's initial state.
pub proof fn lemma_part_inv_init(code: Seq<CodeEntry>)
    requires
        decodes(code, 0),
        code.len() <= 0x7fff_ffff,
    ensures
        part_inv(code, part_init(code)),
{
    let s = part_init(code);
    assert(s.ctl_stack[0] == 0usize);
    assert(s.conts[0].ip == 0);
}

/// One scan step preserves the invariant, and the cursor strictly advances.
pub proof fn lemma_part_inv_step(code: Seq<CodeEntry>, s: PartState, t: PartState)
    requires
        part_inv(code, s),
        part_step(code, s) == PartOutcome::Next(t),
    ensures
        part_inv(code, t),
        s.ip < t.ip <= code.len(),
{
    let p = s.ip;
    assert(p < code.len());
    match code[p] {
        CodeEntry::Op(op) => {
            let q = p + 1;
            match op {
                Opcode::I32Const | Opcode::LocalSet | Opcode::LocalGet | Opcode::LocalTee
                | Opcode::I32Add | Opcode::Block => {
                    assert(t.conts == s.conts && t.branches == s.branches);
                }
                Opcode::Loop => {
                    let c = crate::cps::Cont { ip: (q + 1) as usize };
                    assert(t.conts == s.conts.push(c));
                    lemma_br_conts_upto_push(code, s.conts, c, s.conts.len() as int);
                    assert(!br_cont(code, t.conts, s.conts.len() as int));
                    assert(br_conts_upto(code, t.conts, t.conts.len() as int)
                        == br_conts_upto(code, t.conts, s.conts.len() as int));
                }
                Opcode::End => {
                    let c = crate::cps::Cont { ip: q as usize };
                    assert(t.conts == s.conts.push(c));
                    lemma_br_conts_upto_push(code, s.conts, c, s.conts.len() as int);
                    if p >= 1 {
                        assert(!is_branch(code[p - 1]));
                    }
                    assert(!br_cont(code, t.conts, s.conts.len() as int));
                    assert(br_conts_upto(code, t.conts, t.conts.len() as int)
                        == br_conts_upto(code, t.conts, s.conts.len() as int));
                }
                Opcode::Br | Opcode::BrIf => {
                    let c = crate::cps::Cont { ip: (q + 1) as usize };
                    assert(t.conts == s.conts.push(c));
                    lemma_br_conts_upto_push(code, s.conts, c, s.conts.len() as int);
                    assert(is_branch(code[p]));
                    assert(t.conts[s.conts.len() as int].ip == p + 2);
                    assert(br_cont(code, t.conts, s.conts.len() as int));
                    assert(br_conts_upto(code, t.conts, t.conts.len() as int)
                        == br_conts_upto(code, t.conts, s.conts.len() as int) + 1);
                }
            }
        }
        _ => {
            assert(false);
        }
    }
}

/// The invariant holds along the whole scan; a finished scan stands exactly
/// at the end of the code.
pub proof fn lemma_part_inv_run(code: Seq<CodeEntry>, s0: PartState, n: nat)
    requires
        part_inv(code, s0),
    ensures
        match part_run(code, s0, n) {
            PartOutcome::Next(t) => part_inv(code, t),
            PartOutcome::Done(d) => part_inv(code, d) && d.ip == code.len(),
            PartOutcome::Fault(_) => true,
        },
    decreases n,
{
    if n > 0 {
        lemma_part_inv_run(code, s0, (n - 1) as nat);
        match part_run(code, s0, (n - 1) as nat) {
            PartOutcome::Next(u) => {
                match part_step(code, u) {
                    PartOutcome::Next(t) => {
                        lemma_part_inv_step(code, u, t);
                    }
                    _ => {}
                }
            }
            _ => {}
        }
    }
}

/// A scan step backwards: if the code decodes from where a step lands, it
/// decodes from where the step began.
pub proof fn lemma_part_step_back(code: Seq<CodeEntry>, u: PartState, t: PartState)
    requires
        0 <= u.ip <= code.len(),
        part_step(code, u) == PartOutcome::Next(t),
    ensures
        0 <= t.ip <= code.len(),
        decodes(code, t.ip) ==> decodes(code, u.ip),
{
}

/// A scan that runs to completion certifies that the whole code decodes.
pub proof fn lemma_part_run_decodes(code: Seq<CodeEntry>, s0: PartState, n: nat)
    requires
        0 <= s0.ip <= code.len(),
    ensures
        match part_run(code, s0, n) {
            PartOutcome::Next(u) => (decodes(code, u.ip) ==> decodes(code, s0.ip)) && 0 <= u.ip
                <= code.len(),
            PartOutcome::Done(_) => decodes(code, s0.ip),
            PartOutcome::Fault(_) => true,
        },
    decreases n,
{
    if n > 0 {
        lemma_part_run_decodes(code, s0, (n - 1) as nat);
        match part_run(code, s0, (n - 1) as nat) {
            PartOutcome::Next(u) => {
                match part_step(code, u) {
                    PartOutcome::Next(t) => {
                        lemma_part_step_back(code, u, t);
                    }
                    PartOutcome::Done(_) => {
                        assert(u.ip == code.len());
                    }
                    PartOutcome::Fault(_) => {}
                }
            }
            _ => {}
        }
    }
}

/// A finished scan of the partitioner covers the code: the continuations
/// start at instruction zero, strictly increase, and stay inside the code;
/// the branch records line up one for one, in order, with the branch-cut
/// continuations, so the zip pass that builds the continuation blocks never
/// runs dry.
pub proof fn lemma_partition_covers_code(code: Seq<CodeEntry>, n: nat, d: PartState)
    requires
        code.len() <= 0x7fff_ffff,
        part_run(code, part_init(code), n) == PartOutcome::Done(d),
    ensures
        decodes(code, 0),
        d.ip == code.len(),
        d.conts.len() >= 1,
        d.conts[0].ip == 0,
        forall|a: int, b: int| 0 <= a < b < d.conts.len()
            ==> (#[trigger] d.conts[a]).ip < (#[trigger] d.conts[b]).ip,
        forall|a: int| 0 <= a < d.conts.len() ==> (#[trigger] d.conts[a]).ip <= code.len(),
        d.branches.len() == br_conts_upto(code, d.conts, d.conts.len() as int),
        zip_sync(code, d),
{
    lemma_part_run_decodes(code, part_init(code), n);
    lemma_part_inv_init(code);
    lemma_part_inv_run(code, part_init(code), n);
    assert forall|t: int|
        0 <= t < d.conts.len() - 1 && #[trigger] br_cont(code, d.conts, t + 1) implies {
        let bi = br_conts_upto(code, d.conts, t + 1);
        0 <= bi < d.branches.len() && d.branches[bi].tgt_idx < d.ctls.len()
    } by {
        lemma_br_conts_upto_mono(code, d.conts, 1, t + 1);
        assert(br_conts_upto(code, d.conts, t + 2) == br_conts_upto(code, d.conts, t + 1)
            + 1);
        lemma_br_conts_upto_mono(code, d.conts, t + 2, d.conts.len() as int);
    }
}

/// The simulation relation between the validator's scan and the
/// partitioner's: same cursor, the same frame-index stack, frame arrays of
/// equal length with matching kinds, and branch records in the same order
/// with the same target frames (the validator's carry the extra sentinel).
pub open spec fn vp_rel(vs: ValState, ps: PartState) -> bool {
    &&& vs.ip == ps.ip
    &&& vs.ctl_stack == ps.ctl_stack
    &&& vs.ctls.len() == ps.ctls.len()
    &&& forall|k: int| 0 <= k < vs.ctls.len() ==> (#[trigger] vs.ctls[k]).tipe
        == ps.ctls[k].ty
    &&& vs.metas.len() == ps.branches.len() + 1
    &&& forall|j: int| 0 <= j < ps.branches.len() ==> vs.metas[j + 1].target_ctl_idx
        == (#[trigger] ps.branches[j]).tgt_idx
}

/// When both scans step, the simulation relation is preserved.
pub proof fn lemma_vp_rel_step(vs: ValState, ps: PartState, code: Seq<CodeEntry>, vt: ValState, pt: PartState)
    requires
        vp_rel(vs, ps),
        val_step(code, vs) == ValOutcome::Next(vt),
        part_step(code, ps) == PartOutcome::Next(pt),
    ensures
        vp_rel(vt, pt),
{
    let p = vs.ip;
    assert(p < code.len());
    match code[p] {
        CodeEntry::Op(op) => {
            match op {
                Opcode::Block | Opcode::Loop => {
                    assert forall|k: int| 0 <= k < vt.ctls.len() implies (#[trigger] vt.ctls[k]).tipe
                        == pt.ctls[k].ty by {
                        if k < vs.ctls.len() {
                            assert(vs.ctls[k].tipe == ps.ctls[k].ty);
                        }
                    }
                }
                Opcode::End => {
                    assert forall|k: int| 0 <= k < vt.ctls.len() implies (#[trigger] vt.ctls[k]).tipe
                        == pt.ctls[k].ty by {
                        assert(vs.ctls[k].tipe == ps.ctls[k].ty);
                    }
                }
                Opcode::Br | Opcode::BrIf => {
                    assert forall|j: int| 0 <= j < pt.branches.len() implies vt.metas[j
                        + 1].target_ctl_idx == (#[trigger] pt.branches[j]).tgt_idx by {
                        if j < ps.branches.len() {
                            assert(vs.metas[j + 1].target_ctl_idx == ps.branches[j].tgt_idx);
                        }
                    }
                }
                _ => {}
            }
        }
        _ => {
            assert(false);
        }
    }
}

/// Run side by side, the two scans stay related until one faults: matching
/// outcomes carry the simulation relation.
pub proof fn lemma_vp_rel_run(code: Seq<CodeEntry>, nlocals: nat, n: nat)
    ensures
        ({
            let rv = val_run(code, val_init(code, nlocals), n);
            let rp = part_run(code, part_init(code), n);
            match rv {
                ValOutcome::Next(u) => (rp matches PartOutcome::Next(w) && vp_rel(u, w))
                    || rp is Fault,
                ValOutcome::Done(u) => (rp matches PartOutcome::Done(w) && vp_rel(u, w))
                    || rp is Fault,
                ValOutcome::Fault(_) => true,
            }
        }),
    decreases n,
{
    if n == 0 {
        assert(vp_rel(val_init(code, nlocals), part_init(code)));
    } else {
        lemma_vp_rel_run(code, nlocals, (n - 1) as nat);
        match val_run(code, val_init(code, nlocals), (n - 1) as nat) {
            ValOutcome::Next(u) => {
                match part_run(code, part_init(code), (n - 1) as nat) {
                    PartOutcome::Next(w) => {
                        match val_step(code, u) {
                            ValOutcome::Next(vt) => {
                                match part_step(code, w) {
                                    PartOutcome::Next(pt) => {
                                        lemma_vp_rel_step(u, w, code, vt, pt);
                                    }
                                    PartOutcome::Done(_) => {
                                        assert(false);
                                    }
                                    PartOutcome::Fault(_) => {}
                                }
                            }
                            ValOutcome::Done(_) => {
                                assert(u.ip >= code.len());
                                assert(part_step(code, w) == PartOutcome::Done(w));
                            }
                            ValOutcome::Fault(_) => {}
                        }
                    }
                    _ => {}
                }
            }
            _ => {}
        }
    }
}

/// Away from the two branch opcodes, the block-driven interpretation and
/// the direct evaluator move in lockstep: from states with equal value
/// stack, locals and cursor, one step of either model faults with the same
/// error, finishes with the same stack and locals, or continues with equal
/// stack, locals and cursor. Only `br` and `br_if` consult the sidetable or
/// the continuation blocks, so only there can the two interpretations part.
pub proof fn lemma_block_step_matches_eval_off_branches(
    code: Seq<CodeEntry>,
    st: Seq<STEntry>,
    blocks: Seq<ContBlock>,
    es: EvalState,
    bs: BlockState,
)
    requires
        es.stack == bs.stack,
        es.locals == bs.locals,
        es.ip == bs.ip,
        0 <= bs.cur,
        bs.cur + 1 <= usize::MAX,
        !(0 <= es.ip < code.len() && is_branch(code[es.ip])),
    ensures
        match (eval_step(code, st, es), block_step(code, blocks, bs)) {
            (EvalOutcome::Next(et), BlockOutcome::Next(bt)) => et.stack == bt.stack
                && et.locals == bt.locals && et.ip == bt.ip,
            (EvalOutcome::Done(ed), BlockOutcome::Done(bd)) => ed.stack == bd.stack
                && ed.locals == bd.locals,
            (EvalOutcome::Fault(e1), BlockOutcome::Fault(e2)) => e1 == e2,
            _ => false,
        },
{
}

/// A run that has finished stays finished, whatever further budget it gets.
pub proof fn lemma_val_run_absorbs(code: Seq<CodeEntry>, s0: ValState, n: nat, m: nat)
    requires
        n <= m,
        !(val_run(code, s0, n) is Next),
    ensures
        val_run(code, s0, m) == val_run(code, s0, n),
    decreases m,
{
    if n < m {
        lemma_val_run_absorbs(code, s0, n, (m - 1) as nat);
    }
}

/// A scan that has finished stays finished, whatever further budget it gets.
pub proof fn lemma_part_run_absorbs(code: Seq<CodeEntry>, s0: PartState, n: nat, m: nat)
    requires
        n <= m,
        !(part_run(code, s0, n) is Next),
    ensures
        part_run(code, s0, m) == part_run(code, s0, n),
    decreases m,
{
    if n < m {
        lemma_part_run_absorbs(code, s0, n, (m - 1) as nat);
    }
}

/// On the same input, the validator and the partitioner produce frame
/// arrays of identical length with matching kinds, and assign every branch
/// record, in order, the same target frame.
pub proof fn lemma_validator_partitioner_agree(
    code: Seq<CodeEntry>,
    nlocals: nat,
    n: nat,
    m: nat,
    dv: ValState,
    dp: PartState,
)
    requires
        val_run(code, val_init(code, nlocals), n) == ValOutcome::Done(dv),
        part_run(code, part_init(code), m) == PartOutcome::Done(dp),
    ensures
        dv.ctls.len() == dp.ctls.len(),
        forall|k: int| 0 <= k < dv.ctls.len() ==> (#[trigger] dv.ctls[k]).tipe
            == dp.ctls[k].ty,
        dv.metas.len() == dp.branches.len() + 1,
        forall|j: int| 0 <= j < dp.branches.len() ==> dv.metas[j + 1].target_ctl_idx
            == (#[trigger] dp.branches[j]).tgt_idx,
{
    let big = n + m;
    lemma_val_run_absorbs(code, val_init(code, nlocals), n, big);
    lemma_part_run_absorbs(code, part_init(code), m, big);
    lemma_vp_rel_run(code, nlocals, big);
    assert(vp_rel(dv, dp));
}

/// End to end: over a sidetable built from a validator scan that finished
/// with only the root frame open, the direct evaluator stays aligned — at
/// every reachable state the sidetable pointer equals the number of static
/// branches before the cursor, so the pre-increment at a branch opcode
/// selects exactly that branch's entry.
pub proof fn lemma_validated_table_keeps_evaluator_aligned(
    code: Seq<CodeEntry>,
    nlocals: nat,
    n: nat,
    d: ValState,
    st: Seq<STEntry>,
    s0: EvalState,
    m: nat,
)
    requires
        code.len() <= 0x7fff_ffff,
        val_run(code, val_init(code, nlocals), n) == ValOutcome::Done(d),
        d.ctl_stack =~= seq![0usize],
        st.len() == d.metas.len(),
        forall|j: int| 0 <= j < d.metas.len() ==> d.metas[j].target_ctl_idx < d.ctls.len()
            && st_entry_for(
            d.ctls[(#[trigger] d.metas[j]).target_ctl_idx as int],
            d.metas[j],
            j,
            st[j],
        ),
        s0.ip == 0,
        s0.stp == 0,
    ensures
        match eval_run(code, st, s0, m) {
            EvalOutcome::Next(s) => eval_aligned(code, s) && (0 <= s.ip < code.len()
                && is_branch(code[s.ip]) ==> s.stp + 1 == branches_before(code, s.ip) + 1
                && 0 <= s.stp + 1 < st.len()),
            _ => true,
        },
{
    lemma_validator_sidetable_ok(code, nlocals, n, d, st);
    lemma_eval_stp_tracks_branches(code, st, s0, m);
}

} // verus!
