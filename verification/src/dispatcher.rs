//! The batch dispatcher's sequential core: turn pending operations into
//! envelopes in input order, stop at the first failure, count operations
//! by kind, and verify an envelope against a caller-declared type tag
//! without consulting any registry.

use vstd::prelude::*;
use vstd::bytes::u64_from_le_bytes;
use vstd::string::StringSliceAdditionalSpecFns;
use vstd::slice::slice_subrange;
use crate::backend::ZkpBackend;
use crate::bulletproofs_backend::BulletproofsBackend;
use crate::composition::{BatchOperation, ProofBatch};
use crate::envelope::{spec_decodable, Proof, PROOF_VERSION};
use crate::errors::{ZkpError, ZkpResult};
use crate::proof_helpers::reconstruct_bulletproofs_proof;
use crate::serialization::{push_bytes, push_u64_le, serialize_u64_vec};

verus! {

pub const TAG_RANGE: [u8; 5] = [114u8, 97u8, 110u8, 103u8, 101u8];

pub const TAG_EQUALITY: [u8; 8] = [101u8, 113u8, 117u8, 97u8, 108u8, 105u8, 116u8, 121u8];

pub const TAG_THRESHOLD: [u8; 9] = [116u8, 104u8, 114u8, 101u8, 115u8, 104u8, 111u8, 108u8, 100u8];

pub const TAG_MEMBERSHIP: [u8; 10] = [
    109u8, 101u8, 109u8, 98u8, 101u8, 114u8, 115u8, 104u8, 105u8, 112u8,
];

pub const TAG_IMPROVEMENT: [u8; 11] = [
    105u8, 109u8, 112u8, 114u8, 111u8, 118u8, 101u8, 109u8, 101u8, 110u8, 116u8,
];

pub const TAG_CONSISTENCY: [u8; 11] = [
    99u8, 111u8, 110u8, 115u8, 105u8, 115u8, 116u8, 101u8, 110u8, 99u8, 121u8,
];

/// Counts of pending operations by kind.
#[derive(Debug, Clone, PartialEq, Eq, Structural)]
pub struct BatchStatus {
    pub total_operations: usize,
    pub range_proofs: usize,
    pub equality_proofs: usize,
    pub threshold_proofs: usize,
    pub membership_proofs: usize,
    pub improvement_proofs: usize,
    pub consistency_proofs: usize,
}

/// How many operations of a kind the list holds.
pub open spec fn spec_count_matching(
    ops: Seq<BatchOperation>,
    pred: spec_fn(BatchOperation) -> bool,
) -> nat
    decreases ops.len(),
{
    if ops.len() == 0 {
        0
    } else {
        (if pred(ops[0]) {
            1nat
        } else {
            0nat
        }) + spec_count_matching(ops.drop_first(), pred)
    }
}

proof fn lemma_count_matching_push(
    ops: Seq<BatchOperation>,
    pred: spec_fn(BatchOperation) -> bool,
    x: BatchOperation,
)
    ensures
        spec_count_matching(ops.push(x), pred) == spec_count_matching(ops, pred) + (if pred(x) {
            1nat
        } else {
            0nat
        }),
    decreases ops.len(),
{
    let w = ops.push(x);
    if ops.len() == 0 {
        assert(w[0] == x);
        assert(w.drop_first() =~= Seq::<BatchOperation>::empty());
        assert(spec_count_matching(w.drop_first(), pred) == 0);
        assert(spec_count_matching(ops, pred) == 0);
    } else {
        assert(w[0] == ops[0]);
        assert(w.drop_first() =~= ops.drop_first().push(x));
        lemma_count_matching_push(ops.drop_first(), pred, x);
    }
}

/// Tallies a batch's operations by kind; the total is the batch length
/// and each per-kind count is exact.
pub fn batch_status(batch: &ProofBatch) -> (r: BatchStatus)
    ensures
        r.total_operations == batch.view_ops().len(),
        r.range_proofs == spec_count_matching(batch.view_ops(), |op: BatchOperation| op is RangeProof),
        r.equality_proofs == spec_count_matching(
            batch.view_ops(),
            |op: BatchOperation| op is EqualityProof,
        ),
        r.threshold_proofs == spec_count_matching(
            batch.view_ops(),
            |op: BatchOperation| op is ThresholdProof,
        ),
        r.membership_proofs == spec_count_matching(
            batch.view_ops(),
            |op: BatchOperation| op is MembershipProof,
        ),
        r.improvement_proofs == spec_count_matching(
            batch.view_ops(),
            |op: BatchOperation| op is ImprovementProof,
        ),
        r.consistency_proofs == spec_count_matching(
            batch.view_ops(),
            |op: BatchOperation| op is ConsistencyProof,
        ),
{
    let ops = batch.operations();
    let mut status = BatchStatus {
        total_operations: ops.len(),
        range_proofs: 0,
        equality_proofs: 0,
        threshold_proofs: 0,
        membership_proofs: 0,
        improvement_proofs: 0,
        consistency_proofs: 0,
    };
    let mut i: usize = 0;
    while i < ops.len()
        invariant
            i <= ops@.len(),
            ops@ == batch.view_ops(),
            status.total_operations == ops@.len(),
            status.range_proofs == spec_count_matching(
                ops@.take(i as int),
                |op: BatchOperation| op is RangeProof,
            ),
            status.equality_proofs == spec_count_matching(
                ops@.take(i as int),
                |op: BatchOperation| op is EqualityProof,
            ),
            status.threshold_proofs == spec_count_matching(
                ops@.take(i as int),
                |op: BatchOperation| op is ThresholdProof,
            ),
            status.membership_proofs == spec_count_matching(
                ops@.take(i as int),
                |op: BatchOperation| op is MembershipProof,
            ),
            status.improvement_proofs == spec_count_matching(
                ops@.take(i as int),
                |op: BatchOperation| op is ImprovementProof,
            ),
            status.consistency_proofs == spec_count_matching(
                ops@.take(i as int),
                |op: BatchOperation| op is ConsistencyProof,
            ),
            status.range_proofs <= i && status.equality_proofs <= i && status.threshold_proofs
                <= i && status.membership_proofs <= i && status.improvement_proofs <= i
                && status.consistency_proofs <= i,
        decreases ops@.len() - i,
    {
        proof {
            assert(ops@.take(i + 1) =~= ops@.take(i as int).push(ops@[i as int]));
            lemma_count_matching_push(
                ops@.take(i as int),
                |op: BatchOperation| op is RangeProof,
                ops@[i as int],
            );
            lemma_count_matching_push(
                ops@.take(i as int),
                |op: BatchOperation| op is EqualityProof,
                ops@[i as int],
            );
            lemma_count_matching_push(
                ops@.take(i as int),
                |op: BatchOperation| op is ThresholdProof,
                ops@[i as int],
            );
            lemma_count_matching_push(
                ops@.take(i as int),
                |op: BatchOperation| op is MembershipProof,
                ops@[i as int],
            );
            lemma_count_matching_push(
                ops@.take(i as int),
                |op: BatchOperation| op is ImprovementProof,
                ops@[i as int],
            );
            lemma_count_matching_push(
                ops@.take(i as int),
                |op: BatchOperation| op is ConsistencyProof,
                ops@[i as int],
            );
        }
        match &ops[i] {
            BatchOperation::RangeProof { .. } => {
                status.range_proofs = status.range_proofs + 1;
            },
            BatchOperation::EqualityProof { .. } => {
                status.equality_proofs = status.equality_proofs + 1;
            },
            BatchOperation::ThresholdProof { .. } => {
                status.threshold_proofs = status.threshold_proofs + 1;
            },
            BatchOperation::MembershipProof { .. } => {
                status.membership_proofs = status.membership_proofs + 1;
            },
            BatchOperation::ImprovementProof { .. } => {
                status.improvement_proofs = status.improvement_proofs + 1;
            },
            BatchOperation::ConsistencyProof { .. } => {
                status.consistency_proofs = status.consistency_proofs + 1;
            },
        }
        i = i + 1;
    }
    proof {
        assert(ops@.take(ops@.len() as int) =~= ops@);
    }
    status
}

/// Exactly when a scheme-1 envelope passes the self-contained range
/// check: decodable, correctly tagged, embedded bounds ordered, and the
/// engine accepting the reassembled blob against those bounds.
pub open spec fn spec_tagged_range_ok(data: Seq<u8>) -> bool {
    &&& spec_decodable(data)
    &&& data[0] == PROOF_VERSION
    &&& data[1] == 1
    &&& crate::envelope::spec_proof_field(data).len() >= 16
    &&& {
        let pf = crate::envelope::spec_proof_field(data);
        let mn = vstd::bytes::spec_u64_from_le_bytes(pf.subrange(0, 8));
        let mx = vstd::bytes::spec_u64_from_le_bytes(pf.subrange(8, 16));
        &&& mn <= mx
        &&& crate::envelope::spec_commitment_field(data).len() == 32
        &&& crate::bulletproofs_backend::spec_range_accepts(
            pf + crate::proof_helpers::spec_commit_marker() + crate::envelope::spec_commitment_field(
                data,
            ),
            mn,
            mx,
        )
    }
}

/// Exactly when a scheme-3 envelope passes the self-contained threshold
/// check against its embedded threshold.
pub open spec fn spec_tagged_threshold_ok(data: Seq<u8>) -> bool {
    &&& spec_decodable(data)
    &&& data[0] == PROOF_VERSION
    &&& data[1] == 3
    &&& crate::envelope::spec_proof_field(data).len() >= 8
    &&& crate::envelope::spec_commitment_field(data).len() == 32
    &&& crate::bulletproofs_backend::spec_threshold_accepts(
        crate::envelope::spec_proof_field(data) + crate::proof_helpers::spec_commit_marker()
            + crate::envelope::spec_commitment_field(data),
        vstd::bytes::spec_u64_from_le_bytes(
            crate::envelope::spec_proof_field(data).subrange(0, 8),
        ),
    )
}

/// Exactly when a scheme-6 envelope passes the self-contained consistency
/// check.
pub open spec fn spec_tagged_consistency_ok(data: Seq<u8>) -> bool {
    &&& spec_decodable(data)
    &&& data[0] == PROOF_VERSION
    &&& data[1] == 6
    &&& crate::bulletproofs_backend::spec_consistency_accepts(
        crate::envelope::spec_proof_field(data) + crate::proof_helpers::spec_commit_marker()
            + crate::envelope::spec_commitment_field(data),
    )
}

/// Whether a byte string is the serialised envelope of some payload and
/// commitment under the given scheme tag.
pub open spec fn spec_is_scheme_envelope(v: Seq<u8>, scheme: u8) -> bool {
    exists|p: Seq<u8>, c: Seq<u8>|
        #![auto]
        v == crate::proof_helpers::spec_envelope_bytes(scheme, p, c)
}

/// The envelope scheme tag that an operation's proof carries.
pub open spec fn spec_op_scheme(op: BatchOperation) -> u8 {
    match op {
        BatchOperation::RangeProof { .. } => 1,
        BatchOperation::EqualityProof { .. } => 2,
        BatchOperation::ThresholdProof { .. } => 3,
        BatchOperation::MembershipProof { .. } => 4,
        BatchOperation::ImprovementProof { .. } => 5,
        BatchOperation::ConsistencyProof { .. } => 6,
    }
}

/// Builds the envelope for one pending operation, through the matching
/// predicate operation; the engines for equality, membership and
/// improvement are supplied as type parameters. A produced envelope
/// carries the scheme tag of its operation's kind.
pub fn process_operation<EEq: ZkpBackend, EMem: ZkpBackend, EImp: ZkpBackend>(
    op: &BatchOperation,
) -> (r: ZkpResult<Vec<u8>>)
    ensures
        r matches Ok(v) ==> spec_is_scheme_envelope(v@, spec_op_scheme(*op)),
{
    match op {
        BatchOperation::RangeProof { value, min, max } => {
            let r = crate::range_proof::prove_range(*value, *min, *max);
            proof {
                if r is Ok {
                    let v = r->Ok_0;
                    let (pp, cc) = choose|p: Seq<u8>, c: Seq<u8>|
                        #![auto]
                        v@ == crate::proof_helpers::spec_envelope_bytes(
                            crate::range_proof::SCHEME_ID,
                            p,
                            c,
                        ) && crate::bulletproofs_backend::spec_range_block_wf(
                            p + crate::proof_helpers::spec_commit_marker() + c,
                            *min,
                            *max,
                        );
                    assert(v@ == crate::proof_helpers::spec_envelope_bytes(
                        spec_op_scheme(*op),
                        pp,
                        cc,
                    ));
                }
            }
            r
        },
        BatchOperation::EqualityProof { val1, val2 } => {
            let r = crate::equality_proof::prove_equality::<EEq>(*val1, *val2);
            proof {
                if r is Ok {
                    let v = r->Ok_0;
                    let sp = choose|sp: Seq<u8>|
                        #![auto]
                        sp.len() > 0 && v@ == crate::proof_helpers::spec_envelope_bytes(
                            crate::equality_proof::SCHEME_ID,
                            sp,
                            crate::commitment::spec_commit_value(*val1),
                        );
                    assert(v@ == crate::proof_helpers::spec_envelope_bytes(
                        spec_op_scheme(*op),
                        sp,
                        crate::commitment::spec_commit_value(*val1),
                    ));
                }
            }
            r
        },
        BatchOperation::ThresholdProof { values, threshold } => {
            let vs = vstd::slice::slice_to_vec(values.as_slice());
            let r = crate::threshold_proof::prove_threshold(vs, *threshold);
            proof {
                if r is Ok {
                    let v = r->Ok_0;
                    let (pp, cc) = choose|p: Seq<u8>, c: Seq<u8>|
                        #![auto]
                        v@ == crate::proof_helpers::spec_envelope_bytes(
                            crate::threshold_proof::SCHEME_ID,
                            p,
                            c,
                        ) && crate::bulletproofs_backend::spec_threshold_block_wf(
                            p + crate::proof_helpers::spec_commit_marker() + c,
                            *threshold,
                        );
                    assert(v@ == crate::proof_helpers::spec_envelope_bytes(
                        spec_op_scheme(*op),
                        pp,
                        cc,
                    ));
                }
            }
            r
        },
        BatchOperation::MembershipProof { value, set } => {
            let s = vstd::slice::slice_to_vec(set.as_slice());
            let ghost sv = s@;
            let r = crate::set_membership::prove_membership::<EMem>(*value, s);
            proof {
                if r is Ok {
                    let v = r->Ok_0;
                    let sp = choose|sp: Seq<u8>|
                        #![auto]
                        sp.len() > 0 && v@ == crate::proof_helpers::spec_envelope_bytes(
                            crate::set_membership::SCHEME_ID,
                            crate::serialization::spec_serialize_u64_vec(sv) + sp,
                            crate::commitment::spec_commit_value(*value),
                        );
                    assert(v@ == crate::proof_helpers::spec_envelope_bytes(
                        spec_op_scheme(*op),
                        crate::serialization::spec_serialize_u64_vec(sv) + sp,
                        crate::commitment::spec_commit_value(*value),
                    ));
                }
            }
            r
        },
        BatchOperation::ImprovementProof { old, new } => {
            let r = crate::improvement_proof::prove_improvement::<EImp>(*old, *new);
            proof {
                if r is Ok {
                    let v = r->Ok_0;
                    let sp = choose|sp: Seq<u8>|
                        #![auto]
                        sp.len() > 0 && v@ == crate::proof_helpers::spec_envelope_bytes(
                            crate::improvement_proof::SCHEME_ID,
                            sp,
                            crate::commitment::spec_commit_improvement(*old, *new),
                        );
                    assert(v@ == crate::proof_helpers::spec_envelope_bytes(
                        spec_op_scheme(*op),
                        sp,
                        crate::commitment::spec_commit_improvement(*old, *new),
                    ));
                }
            }
            r
        },
        BatchOperation::ConsistencyProof { data } => {
            let d = vstd::slice::slice_to_vec(data.as_slice());
            let r = crate::consistency_proof::prove_consistency(d);
            proof {
                if r is Ok {
                    let v = r->Ok_0;
                    let (pp, cc) = choose|p: Seq<u8>, c: Seq<u8>|
                        #![auto]
                        v@ == crate::proof_helpers::spec_envelope_bytes(
                            crate::consistency_proof::SCHEME_ID,
                            p,
                            c,
                        ) && crate::bulletproofs_backend::spec_consistency_block_wf(
                            p + crate::proof_helpers::spec_commit_marker() + c,
                        );
                    assert(v@ == crate::proof_helpers::spec_envelope_bytes(
                        spec_op_scheme(*op),
                        pp,
                        cc,
                    ));
                }
            }
            r
        },
    }
}

/// Processes a batch's operations in input order, aborting on the first
/// failure; on success there is exactly one envelope per operation, in
/// the operations' order.
pub fn process_operations<EEq: ZkpBackend, EMem: ZkpBackend, EImp: ZkpBackend>(
    ops: &Vec<BatchOperation>,
) -> (r: ZkpResult<Vec<Vec<u8>>>)
    ensures
        r matches Ok(v) ==> v@.len() == ops@.len() && forall|i: int|
            0 <= i < ops@.len() ==> spec_is_scheme_envelope(
                (#[trigger] v@[i])@,
                spec_op_scheme(ops@[i]),
            ),
{
    let mut results: Vec<Vec<u8>> = Vec::new();
    let mut i: usize = 0;
    while i < ops.len()
        invariant
            i <= ops@.len(),
            results@.len() == i,
            forall|q: int|
                0 <= q < i ==> spec_is_scheme_envelope(
                    (#[trigger] results@[q])@,
                    spec_op_scheme(ops@[q]),
                ),
        decreases ops@.len() - i,
    {
        let envelope = process_operation::<EEq, EMem, EImp>(&ops[i])?;
        let ghost ev = envelope@;
        let ghost prev = results@;
        results.push(envelope);
        proof {
            assert forall|q: int| 0 <= q < i + 1 implies spec_is_scheme_envelope(
                (#[trigger] results@[q])@,
                spec_op_scheme(ops@[q]),
            ) by {
                if q < i {
                    assert(results@[q] == prev[q]);
                } else {
                    assert(results@[q]@ == ev);
                }
            }
        }
        i = i + 1;
    }
    Ok(results)
}

/// Verifies one envelope against a caller-declared type tag. The
/// verification is self-contained: every public input is either embedded
/// in the envelope or part of the tag dispatch, and a tag whose scheme
/// does not match the envelope yields `false`.
pub fn verify_single_proof<EEq: ZkpBackend, EImp: ZkpBackend>(
    proof_data: &[u8],
    proof_type: &str,
) -> (r: bool)
    ensures
        r ==> spec_decodable(proof_data@) && proof_data@[0] == PROOF_VERSION,
        r ==> {
            &&& (proof_type.spec_bytes() == TAG_RANGE@ ==> proof_data@[1] == 1)
            &&& (proof_type.spec_bytes() == TAG_EQUALITY@ ==> proof_data@[1] == 2)
            &&& (proof_type.spec_bytes() == TAG_THRESHOLD@ ==> proof_data@[1] == 3)
            &&& (proof_type.spec_bytes() == TAG_MEMBERSHIP@ ==> proof_data@[1] == 4)
            &&& (proof_type.spec_bytes() == TAG_IMPROVEMENT@ ==> proof_data@[1] == 5)
            &&& (proof_type.spec_bytes() == TAG_CONSISTENCY@ ==> proof_data@[1] == 6)
        },
        proof_type.spec_bytes() == TAG_RANGE@ ==> r == spec_tagged_range_ok(proof_data@),
        proof_type.spec_bytes() == TAG_THRESHOLD@ ==> r == spec_tagged_threshold_ok(proof_data@),
        proof_type.spec_bytes() == TAG_CONSISTENCY@ ==> r == spec_tagged_consistency_ok(
            proof_data@,
        ),
{
    let p = match Proof::from_bytes(proof_data) {
        Some(p) => p,
        None => {
            return false;
        },
    };
    if p.version != PROOF_VERSION {
        return false;
    }
    let tag = proof_type.as_bytes();
    if crate::commitment::bytes_eq(tag, TAG_RANGE.as_slice()) {
        if p.scheme != 1 {
            return false;
        }
        if p.proof.len() < 16 {
            return false;
        }
        proof {
            assert(p.proof@.subrange(0, 8) == crate::envelope::spec_proof_field(
                proof_data@,
            ).subrange(0, 8));
            assert(p.proof@.subrange(8, 16) == crate::envelope::spec_proof_field(
                proof_data@,
            ).subrange(8, 16));
        }
        let min = u64_from_le_bytes(slice_subrange(p.proof.as_slice(), 0, 8));
        let max = u64_from_le_bytes(slice_subrange(p.proof.as_slice(), 8, 16));
        if min > max {
            return false;
        }
        if p.commitment.len() != 32 {
            return false;
        }
        let blob = reconstruct_bulletproofs_proof(p.proof.as_slice(), p.commitment.as_slice());
        BulletproofsBackend::verify_range_with_bounds(blob.as_slice(), min, max)
    } else if crate::commitment::bytes_eq(tag, TAG_EQUALITY.as_slice()) {
        if p.scheme != 2 {
            return false;
        }
        if p.commitment.len() != 32 {
            return false;
        }
        EEq::verify(p.proof.as_slice(), p.commitment.as_slice())
    } else if crate::commitment::bytes_eq(tag, TAG_THRESHOLD.as_slice()) {
        if p.scheme != 3 {
            return false;
        }
        if p.proof.len() < 8 {
            return false;
        }
        proof {
            assert(p.proof@.subrange(0, 8) == crate::envelope::spec_proof_field(
                proof_data@,
            ).subrange(0, 8));
        }
        let threshold = u64_from_le_bytes(slice_subrange(p.proof.as_slice(), 0, 8));
        if p.commitment.len() != 32 {
            return false;
        }
        let blob = reconstruct_bulletproofs_proof(p.proof.as_slice(), p.commitment.as_slice());
        BulletproofsBackend::verify_threshold(blob.as_slice(), threshold)
    } else if crate::commitment::bytes_eq(tag, TAG_MEMBERSHIP.as_slice()) {
        if p.scheme != 4 {
            return false;
        }
        if p.proof.len() < 4 {
            return false;
        }
        let set_size = vstd::bytes::u32_from_le_bytes(
            slice_subrange(p.proof.as_slice(), 0, 4),
        ) as usize;
        if set_size > 268435455usize {
            return false;
        }
        if p.proof.len() < 4 + 8 * set_size {
            return false;
        }
        let mut set: Vec<u64> = Vec::new();
        let mut j: usize = 0;
        while j < set_size
            invariant
                j <= set_size,
                set_size <= 268435455usize,
                4 + 8 * set_size <= p.proof@.len(),
                set@.len() == j,
            decreases set_size - j,
        {
            let v = u64_from_le_bytes(slice_subrange(p.proof.as_slice(), 4 + 8 * j, 12 + 8 * j));
            set.push(v);
            j = j + 1;
        }
        if p.commitment.len() != 32 {
            return false;
        }
        let blob = reconstruct_bulletproofs_proof(p.proof.as_slice(), p.commitment.as_slice());
        BulletproofsBackend::verify_set_membership(blob.as_slice(), set)
    } else if crate::commitment::bytes_eq(tag, TAG_IMPROVEMENT.as_slice()) {
        if p.scheme != 5 {
            return false;
        }
        if p.commitment.len() != 16 {
            return false;
        }
        let diff = u64_from_le_bytes(slice_subrange(p.commitment.as_slice(), 0, 8));
        let new_value = u64_from_le_bytes(slice_subrange(p.commitment.as_slice(), 8, 16));
        if diff == 0 {
            return false;
        }
        let old_value = match new_value.checked_sub(diff) {
            Some(v) => v,
            None => {
                return false;
            },
        };
        let mut data: Vec<u8> = Vec::new();
        push_u64_le(&mut data, old_value);
        push_u64_le(&mut data, new_value);
        EImp::verify(p.proof.as_slice(), data.as_slice())
    } else if crate::commitment::bytes_eq(tag, TAG_CONSISTENCY.as_slice()) {
        if p.scheme != 6 {
            return false;
        }
        let blob = reconstruct_bulletproofs_proof(p.proof.as_slice(), p.commitment.as_slice());
        BulletproofsBackend::verify_consistency(blob.as_slice())
    } else {
        false
    }
}

/// Checks that every envelope in a chain parses; an empty chain passes.
pub fn validate_proof_chain(proof_chain: &Vec<Vec<u8>>) -> (r: bool)
    ensures
        r == (forall|i: int| 0 <= i < proof_chain@.len() ==> spec_decodable(
            (#[trigger] proof_chain@[i])@,
        )),
{
    let mut i: usize = 0;
    while i < proof_chain.len()
        invariant
            i <= proof_chain@.len(),
            forall|q: int| 0 <= q < i ==> spec_decodable((#[trigger] proof_chain@[q])@),
        decreases proof_chain@.len() - i,
    {
        if Proof::from_bytes(proof_chain[i].as_slice()).is_none() {
            proof {
                assert(!spec_decodable(proof_chain@[i as int]@));
            }
            return false;
        }
        i = i + 1;
    }
    true
}

} // verus!
