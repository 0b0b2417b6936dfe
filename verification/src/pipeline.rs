//! Wiring the validator to the evaluator: scan a program, check that every
//! frame closed back down to the root, and resolve the branch records into
//! a sidetable that provably agrees with the code.

use vstd::prelude::*;
use crate::code::{CodeEntry, VmError, branches_before, decodes};
use crate::eval::STEntry;
use crate::laws::{lemma_validator_sidetable_ok, sidetable_ok};
use crate::validate::{TypedValidate, ValOutcome, meta_resolvable, st_entry_for, val_init, val_run};

verus! {

/// Validate `code` against `nlocals` integer locals and build its
/// sidetable. Success certifies the whole program: the code decodes, the
/// sidetable holds one entry per static branch after the sentinel, and it
/// agrees with the code — each branch's entry carries the evaluator to its
/// target continuation with the branch count intact, so the evaluator's
/// pointer discipline stays aligned. An error comes only when the
/// validation model itself rejects the program: either some run of the
/// model from the seeded state faults with that very error, or the model
/// finishes and what it left behind is unusable — a frame stack that did
/// not close back down to the root alone, or a branch record that no
/// sidetable entry can resolve.
pub fn validate_and_build(code: Vec<CodeEntry>, nlocals: usize) -> (r: Result<
    Vec<STEntry>,
    VmError,
>)
    requires
        code@.len() <= 0x7fff_ffff,
    ensures
        r matches Ok(st) ==> {
            &&& decodes(code@, 0)
            &&& sidetable_ok(code@, st@)
            &&& st@.len() == 1 + branches_before(code@, code@.len() as int)
        },
        r matches Err(e) ==> ({
            let s0 = val_init(code@, nlocals as nat);
            ||| exists|n: nat| val_run(code@, s0, n) == ValOutcome::Fault(e)
            ||| {
                &&& e == VmError::ValidationFault
                &&& exists|n: nat|
                    (#[trigger] val_run(code@, s0, n)) matches ValOutcome::Done(d) && (
                    d.ctl_stack != seq![
                        0usize,
                    ] || exists|j: int|
                        0 <= j < d.metas.len() && !(#[trigger] meta_resolvable(
                            d.ctls,
                            d.metas,
                            j,
                        )))
            }
        }),
{
    let ghost cseq = code@;
    let ghost s0 = val_init(code@, nlocals as nat);
    let mut v = TypedValidate::new(code, nlocals);
    match v.dispatch() {
        Ok(_) => {}
        Err(e) => {
            proof {
                assert(exists|n: nat| val_run(cseq, s0, n) == ValOutcome::Fault(e));
            }
            return Err(e);
        }
    }
    let ghost n0 = choose|n: nat| val_run(cseq, s0, n) == ValOutcome::Done(v.to_state());
    if v.ctl_stack.len() != 1 {
        proof {
            let d = v.to_state();
            assert(seq![0usize].len() == 1);
            assert(d.ctl_stack != seq![0usize]);
            assert(val_run(cseq, s0, n0) matches ValOutcome::Done(d2) && d2.ctl_stack != seq![
                0usize,
            ]);
        }
        return Err(VmError::ValidationFault);
    }
    if v.ctl_stack[0] != 0 {
        proof {
            let d = v.to_state();
            assert(d.ctl_stack != seq![0usize]) by {
                if d.ctl_stack == seq![0usize] {
                    assert(d.ctl_stack[0] == seq![0usize][0]);
                }
            }
            assert(val_run(cseq, s0, n0) matches ValOutcome::Done(d2) && d2.ctl_stack != seq![
                0usize,
            ]);
        }
        return Err(VmError::ValidationFault);
    }
    let st = match v.build_sidetable() {
        Ok(st) => st,
        Err(e) => {
            proof {
                let d = v.to_state();
                assert(val_run(cseq, s0, n0) == ValOutcome::Done(d));
                assert(exists|j: int|
                    0 <= j < d.metas.len() && !(#[trigger] meta_resolvable(d.ctls, d.metas, j)))
                    by {
                    let j0 = choose|j: int|
                        0 <= j < v.sidetable_meta@.len() && !meta_resolvable(
                            v.ctl_entries@,
                            v.sidetable_meta@,
                            j,
                        );
                    assert(0 <= j0 < d.metas.len() && !meta_resolvable(d.ctls, d.metas, j0));
                }
            }
            return Err(e);
        }
    };
    proof {
        let d = v.to_state();
        assert(d.ctl_stack =~= seq![0usize]);
        assert forall|j: int| 0 <= j < d.metas.len() implies d.metas[j].target_ctl_idx
            < d.ctls.len() && st_entry_for(
            d.ctls[(#[trigger] d.metas[j]).target_ctl_idx as int],
            d.metas[j],
            j,
            st@[j],
        ) by {
            assert(meta_resolvable(v.ctl_entries@, v.sidetable_meta@, j));
        }
        lemma_validator_sidetable_ok(cseq, nlocals as nat, n0, d, st@);
    }
    Ok(st)
}

} // verus!
