//! The Bulletproofs engine: range, threshold, consistency and Sigma-protocol
//! set-membership proofs over Ristretto with Pedersen commitments. Every
//! payload is framed as `region ‖ "COMMIT:" ‖ commitment bytes`; commitments
//! to differences are linked to the value commitment through shared
//! blindings, and verification recomputes the linked commitments before
//! checking the inner range proofs.

use vstd::prelude::*;
use vstd::bytes::{spec_u32_from_le_bytes, spec_u64_from_le_bytes, u32_from_le_bytes, u64_from_le_bytes};
use vstd::slice::slice_subrange;
use crate::curve::{
    bp_gens_new, bp_verify, bp_verify_of, compressed_bytes, compressed_from_slice, linked_diff,
    linked_diff_of, pedersen_commit, pedersen_default, point_add, point_compress,
    point_decompress, point_diff, point_diff_of, point_eq, point_scalar_mul,
    random_blinding_bytes, rangeproof_prove_single, rangeproof_to_bytes, scalar_add,
    scalar_from_bytes_mod_order, scalar_from_canonical, scalar_from_u64, scalar_mul, scalar_neg,
    scalar_sub, transcript_new, transcript_append_message, transcript_append_u64,
    transcript_challenge_32,
};
use crate::commitment::bytes_eq;
use crate::proof_helpers::{
    reconstruct_bulletproofs_proof, spec_commit_marker, spec_first_marker_pos, spec_has_marker,
    spec_marker_at,
};
use crate::serialization::{push_bytes, push_u32_le, push_u64_le};
use crate::validation::{find_index, is_ascending_order, spec_ascending, spec_sum};

verus! {

pub const LABEL_RANGE_MIN: [u8; 16] = [
    108u8, 105u8, 98u8, 122u8, 107u8, 112u8, 95u8, 114u8, 97u8, 110u8, 103u8, 101u8, 95u8, 109u8,
    105u8, 110u8,
];

pub const LABEL_RANGE_MAX: [u8; 16] = [
    108u8, 105u8, 98u8, 122u8, 107u8, 112u8, 95u8, 114u8, 97u8, 110u8, 103u8, 101u8, 95u8, 109u8,
    97u8, 120u8,
];

pub const LABEL_THRESHOLD: [u8; 16] = [
    108u8, 105u8, 98u8, 122u8, 107u8, 112u8, 95u8, 116u8, 104u8, 114u8, 101u8, 115u8, 104u8,
    111u8, 108u8, 100u8,
];

pub const LABEL_CONSISTENCY: [u8; 18] = [
    108u8, 105u8, 98u8, 122u8, 107u8, 112u8, 95u8, 99u8, 111u8, 110u8, 115u8, 105u8, 115u8, 116u8,
    101u8, 110u8, 99u8, 121u8,
];

pub const LABEL_MEMBERSHIP: [u8; 17] = [
    108u8, 105u8, 98u8, 122u8, 107u8, 112u8, 95u8, 109u8, 101u8, 109u8, 98u8, 101u8, 114u8, 115u8,
    104u8, 105u8, 112u8,
];

pub const LABEL_BULLETPROOF: [u8; 18] = [
    108u8, 105u8, 98u8, 122u8, 107u8, 112u8, 95u8, 98u8, 117u8, 108u8, 108u8, 101u8, 116u8, 112u8,
    114u8, 111u8, 111u8, 102u8,
];

pub const LABEL_VALUE_COMMIT: [u8; 12] = [
    118u8, 97u8, 108u8, 117u8, 101u8, 95u8, 99u8, 111u8, 109u8, 109u8, 105u8, 116u8,
];

pub const LABEL_INDEX_COMMIT: [u8; 12] = [
    105u8, 110u8, 100u8, 101u8, 120u8, 95u8, 99u8, 111u8, 109u8, 109u8, 105u8, 116u8,
];

pub const LABEL_SET_ELEMENT: [u8; 11] = [
    115u8, 101u8, 116u8, 95u8, 101u8, 108u8, 101u8, 109u8, 101u8, 110u8, 116u8,
];

pub const LABEL_CHALLENGE: [u8; 9] = [99u8, 104u8, 97u8, 108u8, 108u8, 101u8, 110u8, 103u8, 101u8];

/// The engine struct carrying the Bulletproofs operations.
pub struct BulletproofsBackend;

/// Layout of the range payload before the marker: `min(8) ‖ max(8) ‖
/// len1(4) ‖ proof1 ‖ len2(4) ‖ proof2 ‖ diff_min_commit(32) ‖
/// diff_max_commit(32)`, with the embedded bounds equal to the arguments.
pub open spec fn spec_range_payload_wf(p: Seq<u8>, min: u64, max: u64) -> bool {
    &&& p.len() >= 88
    &&& spec_u64_from_le_bytes(p.subrange(0, 8)) == min
    &&& spec_u64_from_le_bytes(p.subrange(8, 16)) == max
    &&& {
        let l1 = spec_u32_from_le_bytes(p.subrange(16, 20)) as int;
        &&& p.len() >= 24 + l1 + 64
        &&& {
            let l2 = spec_u32_from_le_bytes(p.subrange(20 + l1, 24 + l1)) as int;
            p.len() == 24 + l1 + l2 + 64
        }
    }
}

/// An engine blob for the range scheme: a well-formed payload, the marker
/// and a 32-byte value commitment.
pub open spec fn spec_range_block_wf(b: Seq<u8>, min: u64, max: u64) -> bool {
    &&& b.len() >= 127
    &&& spec_marker_at(b, b.len() - 39)
    &&& spec_range_payload_wf(b.take(b.len() - 39), min, max)
}

/// Layout of the threshold payload before the marker: `threshold(8) ‖
/// len(4) ‖ proof ‖ diff_commit(32)`, with the embedded threshold equal to
/// the argument.
pub open spec fn spec_threshold_payload_wf(p: Seq<u8>, threshold: u64) -> bool {
    &&& p.len() >= 44
    &&& spec_u64_from_le_bytes(p.subrange(0, 8)) == threshold
    &&& {
        let l = spec_u32_from_le_bytes(p.subrange(8, 12)) as int;
        p.len() == 12 + l + 32
    }
}

/// An engine blob for the threshold scheme.
pub open spec fn spec_threshold_block_wf(b: Seq<u8>, threshold: u64) -> bool {
    &&& b.len() >= 83
    &&& spec_marker_at(b, b.len() - 39)
    &&& spec_threshold_payload_wf(b.take(b.len() - 39), threshold)
}

/// Exactly when the range verifier accepts a blob: the first marker
/// splits it into a well-formed payload whose embedded bounds equal the
/// arguments and a value commitment, the transmitted difference
/// commitments equal `C - min*B` and `max*B - C` recomputed from the
/// value commitment, and both inner range proofs verify under their
/// domain-separation labels.
pub open spec fn spec_range_accepts(data: Seq<u8>, min: u64, max: u64) -> bool {
    &&& spec_has_marker(data)
    &&& {
        let pos = spec_first_marker_pos(data);
        let p = data.take(pos);
        &&& pos + 39 <= data.len()
        &&& spec_range_payload_wf(p, min, max)
        &&& {
            let cb = data.subrange(pos + 7, pos + 39);
            let l1 = spec_u32_from_le_bytes(p.subrange(16, 20)) as int;
            let l2 = spec_u32_from_le_bytes(p.subrange(20 + l1, 24 + l1)) as int;
            let rp_min = p.subrange(20, 20 + l1);
            let rp_max = p.subrange(24 + l1, 24 + l1 + l2);
            let d_min = p.subrange(24 + l1 + l2, 24 + l1 + l2 + 32);
            let d_max = p.subrange(24 + l1 + l2 + 32, 24 + l1 + l2 + 64);
            &&& linked_diff_of(cb, min, false) == Some(d_min)
            &&& linked_diff_of(cb, max, true) == Some(d_max)
            &&& bp_verify_of(rp_min, d_min, LABEL_RANGE_MIN@, 64)
            &&& bp_verify_of(rp_max, d_max, LABEL_RANGE_MAX@, 64)
        }
    }
}

/// Exactly when the threshold verifier accepts a blob: a well-formed
/// payload with the embedded threshold equal to the argument, the
/// transmitted difference commitment equal to `C_sum - threshold*B`, and
/// the inner range proof verifying under its label.
pub open spec fn spec_threshold_accepts(data: Seq<u8>, threshold: u64) -> bool {
    &&& spec_has_marker(data)
    &&& {
        let pos = spec_first_marker_pos(data);
        let p = data.take(pos);
        &&& pos + 39 <= data.len()
        &&& spec_threshold_payload_wf(p, threshold)
        &&& {
            let cb = data.subrange(pos + 7, pos + 39);
            let l = spec_u32_from_le_bytes(p.subrange(8, 12)) as int;
            let rp = p.subrange(12, 12 + l);
            let d = p.subrange(12 + l, 12 + l + 32);
            &&& linked_diff_of(cb, threshold, false) == Some(d)
            &&& bp_verify_of(rp, d, LABEL_THRESHOLD@, 64)
        }
    }
}

impl BulletproofsBackend {
    /// Proves `min <= v <= max` for the secret `v` behind a fresh Pedersen
    /// commitment, by two linked 64-bit range proofs on `v - min` (same
    /// blinding) and `max - v` (negated blinding).
    pub fn prove_range_with_bounds(value: u64, min: u64, max: u64) -> (r: Result<Vec<u8>, String>)
        ensures
            r is Ok ==> min <= value <= max,
            r matches Ok(out) ==> spec_range_block_wf(out@, min, max),
    {
        if value < min || value > max {
            return Err("value out of range".to_string());
        }
        let pc_gens = pedersen_default();
        let bp_gens = bp_gens_new(64, 2);

        let blinding_bytes = random_blinding_bytes();
        let blinding = scalar_from_bytes_mod_order(blinding_bytes.as_slice());
        let value_scalar = scalar_from_u64(value);
        let value_commit = point_compress(&pedersen_commit(&pc_gens, &value_scalar, &blinding));

        let diff_min = value - min;
        let mut transcript_min = transcript_new(&LABEL_RANGE_MIN);
        let (rp_min, diff_min_commit) = match rangeproof_prove_single(
            &bp_gens,
            &pc_gens,
            &mut transcript_min,
            diff_min,
            &blinding,
            64,
        ) {
            Some(x) => x,
            None => {
                return Err("min range proof generation failed".to_string());
            },
        };

        let diff_max = max - value;
        let neg_blinding = scalar_neg(&blinding);
        let mut transcript_max = transcript_new(&LABEL_RANGE_MAX);
        let (rp_max, diff_max_commit) = match rangeproof_prove_single(
            &bp_gens,
            &pc_gens,
            &mut transcript_max,
            diff_max,
            &neg_blinding,
            64,
        ) {
            Some(x) => x,
            None => {
                return Err("max range proof generation failed".to_string());
            },
        };

        let rp_min_bytes = rangeproof_to_bytes(&rp_min);
        let rp_max_bytes = rangeproof_to_bytes(&rp_max);
        if rp_min_bytes.len() > u32::MAX as usize || rp_max_bytes.len() > u32::MAX as usize {
            return Err("range proof too large".to_string());
        }

        let mut payload: Vec<u8> = Vec::new();
        push_u64_le(&mut payload, min);
        push_u64_le(&mut payload, max);
        push_u32_le(&mut payload, rp_min_bytes.len() as u32);
        push_bytes(&mut payload, rp_min_bytes.as_slice());
        push_u32_le(&mut payload, rp_max_bytes.len() as u32);
        push_bytes(&mut payload, rp_max_bytes.as_slice());
        let d_min_bytes = compressed_bytes(&diff_min_commit);
        let d_max_bytes = compressed_bytes(&diff_max_commit);
        push_bytes(&mut payload, d_min_bytes.as_slice());
        push_bytes(&mut payload, d_max_bytes.as_slice());

        let commit_bytes = compressed_bytes(&value_commit);
        let out = reconstruct_bulletproofs_proof(payload.as_slice(), commit_bytes.as_slice());
        proof {
            let l1 = rp_min_bytes@.len() as int;
            let l2 = rp_max_bytes@.len() as int;
            vstd::bytes::lemma_auto_spec_u64_to_from_le_bytes();
            vstd::bytes::lemma_auto_spec_u32_to_from_le_bytes();
            assert(payload@.len() == 24 + l1 + l2 + 64);
            assert(payload@.subrange(0, 8) =~= vstd::bytes::spec_u64_to_le_bytes(min));
            assert(payload@.subrange(8, 16) =~= vstd::bytes::spec_u64_to_le_bytes(max));
            assert(payload@.subrange(16, 20) =~= vstd::bytes::spec_u32_to_le_bytes(
                rp_min_bytes@.len() as u32,
            ));
            assert(payload@.subrange(20 + l1, 24 + l1) =~= vstd::bytes::spec_u32_to_le_bytes(
                rp_max_bytes@.len() as u32,
            ));
            assert(spec_range_payload_wf(payload@, min, max));
            assert(out@.len() - 39 == payload@.len());
            assert(out@.subrange(payload@.len() as int, payload@.len() as int + 7) =~= spec_commit_marker());
            assert(spec_marker_at(out@, out@.len() - 39));
            assert(out@.take(out@.len() - 39) =~= payload@);
        }
        Ok(out)
    }

    /// Verifies a range blob against the public bounds: parses the layout,
    /// requires the embedded bounds to equal the arguments, recomputes the
    /// linked difference commitments `C_v - min*B` and `max*B - C_v`, and
    /// checks both range proofs against them. Returns exactly the
    /// acceptance predicate.
    pub fn verify_range_with_bounds(proof_data: &[u8], min: u64, max: u64) -> (r: bool)
        ensures
            r == spec_range_accepts(proof_data@, min, max),
    {
        let commit_pos = match crate::proof_helpers::find_commit_marker(proof_data) {
            Some(pos) => pos,
            None => {
                return false;
            },
        };
        let total = proof_data.len();
        proof {
            assert(spec_marker_at(proof_data@, commit_pos as int));
            assert(commit_pos as int == spec_first_marker_pos(proof_data@));
        }
        let ghost p = proof_data@.take(commit_pos as int);
        if total - (commit_pos + 7) < 32 {
            proof {
                assert(!spec_range_accepts(proof_data@, min, max));
            }
            return false;
        }
        if commit_pos < 88 {
            proof {
                assert(!spec_range_accepts(proof_data@, min, max));
            }
            return false;
        }
        proof {
            vstd::bytes::lemma_auto_spec_u64_to_from_le_bytes();
            vstd::bytes::lemma_auto_spec_u32_to_from_le_bytes();
            assert(p.subrange(0, 8) =~= proof_data@.subrange(0, 8));
            assert(p.subrange(8, 16) =~= proof_data@.subrange(8, 16));
            assert(p.subrange(16, 20) =~= proof_data@.subrange(16, 20));
        }
        let proof_min = u64_from_le_bytes(slice_subrange(proof_data, 0, 8));
        let proof_max = u64_from_le_bytes(slice_subrange(proof_data, 8, 16));
        if proof_min != min || proof_max != max {
            proof {
                assert(!spec_range_payload_wf(p, min, max));
                assert(!spec_range_accepts(proof_data@, min, max));
            }
            return false;
        }
        let rp_min_len = u32_from_le_bytes(slice_subrange(proof_data, 16, 20)) as usize;
        if commit_pos - 24 < rp_min_len || commit_pos - 24 - rp_min_len < 64 {
            proof {
                assert(!spec_range_payload_wf(p, min, max));
                assert(!spec_range_accepts(proof_data@, min, max));
            }
            return false;
        }
        proof {
            assert(p.subrange(20 + rp_min_len as int, 24 + rp_min_len as int) =~= proof_data@
                .subrange(20 + rp_min_len as int, 24 + rp_min_len as int));
        }
        let rp_max_len = u32_from_le_bytes(
            slice_subrange(proof_data, 20 + rp_min_len, 24 + rp_min_len),
        ) as usize;
        if commit_pos - 24 - rp_min_len - 64 != rp_max_len {
            proof {
                assert(!spec_range_payload_wf(p, min, max));
                assert(!spec_range_accepts(proof_data@, min, max));
            }
            return false;
        }
        proof {
            assert(spec_range_payload_wf(p, min, max));
        }
        let rp_min_bytes = slice_subrange(proof_data, 20, 20 + rp_min_len);
        let rp_max_start = 24 + rp_min_len;
        let rp_max_bytes = slice_subrange(proof_data, rp_max_start, rp_max_start + rp_max_len);
        let diffs_start = rp_max_start + rp_max_len;
        let diff_min_bytes = slice_subrange(proof_data, diffs_start, diffs_start + 32);
        let diff_max_bytes = slice_subrange(proof_data, diffs_start + 32, diffs_start + 64);
        let cb = slice_subrange(proof_data, commit_pos + 7, commit_pos + 39);
        proof {
            let l1 = rp_min_len as int;
            let l2 = rp_max_len as int;
            assert(rp_min_bytes@ =~= p.subrange(20, 20 + l1));
            assert(rp_max_bytes@ =~= p.subrange(24 + l1, 24 + l1 + l2));
            assert(diff_min_bytes@ =~= p.subrange(24 + l1 + l2, 24 + l1 + l2 + 32));
            assert(diff_max_bytes@ =~= p.subrange(24 + l1 + l2 + 32, 24 + l1 + l2 + 64));
        }

        // Linkage: the transmitted difference commitments must equal the
        // commitments recomputed from the value commitment.
        let expected_min = match linked_diff(cb, min, false) {
            Some(v) => v,
            None => {
                proof {
                    assert(!spec_range_accepts(proof_data@, min, max));
                }
                return false;
            },
        };
        if !bytes_eq(expected_min.as_slice(), diff_min_bytes) {
            proof {
                assert(linked_diff_of(cb@, min, false) != Some(diff_min_bytes@));
                assert(!spec_range_accepts(proof_data@, min, max));
            }
            return false;
        }
        let expected_max = match linked_diff(cb, max, true) {
            Some(v) => v,
            None => {
                proof {
                    assert(!spec_range_accepts(proof_data@, min, max));
                }
                return false;
            },
        };
        if !bytes_eq(expected_max.as_slice(), diff_max_bytes) {
            proof {
                assert(linked_diff_of(cb@, max, true) != Some(diff_max_bytes@));
                assert(!spec_range_accepts(proof_data@, min, max));
            }
            return false;
        }

        if !bp_verify(rp_min_bytes, diff_min_bytes, &LABEL_RANGE_MIN, 64) {
            proof {
                assert(!spec_range_accepts(proof_data@, min, max));
            }
            return false;
        }
        let ok = bp_verify(rp_max_bytes, diff_max_bytes, &LABEL_RANGE_MAX, 64);
        proof {
            if ok {
                assert(spec_range_accepts(proof_data@, min, max));
            } else {
                assert(!spec_range_accepts(proof_data@, min, max));
            }
        }
        ok
    }

    /// Proves that the sum of the values reaches the threshold: commits to
    /// the sum, proves `sum - threshold >= 0` with the same blinding, and
    /// frames the proof with the linked difference commitment.
    pub fn prove_threshold(values: Vec<u64>, threshold: u64) -> (r: Result<Vec<u8>, String>)
        ensures
            r is Ok ==> values@.len() > 0 && spec_sum(values@) <= u64::MAX && spec_sum(values@)
                >= threshold,
            r matches Ok(out) ==> spec_threshold_block_wf(out@, threshold),
    {
        if values.len() == 0 {
            return Err("values cannot be empty".to_string());
        }
        let sum = match crate::validation::safe_sum(values.as_slice()) {
            Ok(s) => s,
            Err(_) => {
                return Err("integer overflow in sum calculation".to_string());
            },
        };
        if sum < threshold {
            return Err("threshold not met".to_string());
        }

        let pc_gens = pedersen_default();
        let party_capacity = if values.len() < 1024 { values.len() + 1 } else { 1024 };
        let bp_gens = bp_gens_new(64, party_capacity);

        let blinding_bytes = random_blinding_bytes();
        let sum_blinding = scalar_from_bytes_mod_order(blinding_bytes.as_slice());
        let sum_scalar = scalar_from_u64(sum);
        let sum_commit = point_compress(&pedersen_commit(&pc_gens, &sum_scalar, &sum_blinding));

        let diff = sum - threshold;
        let mut transcript = transcript_new(&LABEL_THRESHOLD);
        let (range_proof, diff_commit) = match rangeproof_prove_single(
            &bp_gens,
            &pc_gens,
            &mut transcript,
            diff,
            &sum_blinding,
            64,
        ) {
            Some(x) => x,
            None => {
                return Err("range proof generation failed".to_string());
            },
        };

        let rp_bytes = rangeproof_to_bytes(&range_proof);
        if rp_bytes.len() > u32::MAX as usize {
            return Err("range proof too large".to_string());
        }

        let mut payload: Vec<u8> = Vec::new();
        push_u64_le(&mut payload, threshold);
        push_u32_le(&mut payload, rp_bytes.len() as u32);
        push_bytes(&mut payload, rp_bytes.as_slice());
        let d_bytes = compressed_bytes(&diff_commit);
        push_bytes(&mut payload, d_bytes.as_slice());

        let commit_bytes = compressed_bytes(&sum_commit);
        let out = reconstruct_bulletproofs_proof(payload.as_slice(), commit_bytes.as_slice());
        proof {
            let l = rp_bytes@.len() as int;
            vstd::bytes::lemma_auto_spec_u64_to_from_le_bytes();
            vstd::bytes::lemma_auto_spec_u32_to_from_le_bytes();
            assert(payload@.len() == 12 + l + 32);
            assert(payload@.subrange(0, 8) =~= vstd::bytes::spec_u64_to_le_bytes(threshold));
            assert(payload@.subrange(8, 12) =~= vstd::bytes::spec_u32_to_le_bytes(
                rp_bytes@.len() as u32,
            ));
            assert(spec_threshold_payload_wf(payload@, threshold));
            assert(out@.len() - 39 == payload@.len());
            assert(out@.subrange(payload@.len() as int, payload@.len() as int + 7) =~= spec_commit_marker());
            assert(spec_marker_at(out@, out@.len() - 39));
            assert(out@.take(out@.len() - 39) =~= payload@);
        }
        Ok(out)
    }

    /// Verifies a threshold blob: parses the layout, requires the embedded
    /// threshold to equal the argument, recomputes the linked difference
    /// commitment `C_sum - threshold*B`, and checks the range proof.
    /// Returns exactly the acceptance predicate.
    pub fn verify_threshold(proof_data: &[u8], threshold: u64) -> (r: bool)
        ensures
            r == spec_threshold_accepts(proof_data@, threshold),
    {
        let commit_pos = match crate::proof_helpers::find_commit_marker(proof_data) {
            Some(pos) => pos,
            None => {
                return false;
            },
        };
        let total = proof_data.len();
        proof {
            assert(spec_marker_at(proof_data@, commit_pos as int));
            assert(commit_pos as int == spec_first_marker_pos(proof_data@));
        }
        let ghost p = proof_data@.take(commit_pos as int);
        if total - (commit_pos + 7) < 32 {
            proof {
                assert(!spec_threshold_accepts(proof_data@, threshold));
            }
            return false;
        }
        if commit_pos < 44 {
            proof {
                assert(!spec_threshold_accepts(proof_data@, threshold));
            }
            return false;
        }
        proof {
            vstd::bytes::lemma_auto_spec_u64_to_from_le_bytes();
            vstd::bytes::lemma_auto_spec_u32_to_from_le_bytes();
            assert(p.subrange(0, 8) =~= proof_data@.subrange(0, 8));
            assert(p.subrange(8, 12) =~= proof_data@.subrange(8, 12));
        }
        let proof_threshold = u64_from_le_bytes(slice_subrange(proof_data, 0, 8));
        if proof_threshold != threshold {
            proof {
                assert(!spec_threshold_payload_wf(p, threshold));
                assert(!spec_threshold_accepts(proof_data@, threshold));
            }
            return false;
        }
        let rp_len = u32_from_le_bytes(slice_subrange(proof_data, 8, 12)) as usize;
        if commit_pos - 12 < rp_len || commit_pos - 12 - rp_len != 32 {
            proof {
                assert(!spec_threshold_payload_wf(p, threshold));
                assert(!spec_threshold_accepts(proof_data@, threshold));
            }
            return false;
        }
        proof {
            assert(spec_threshold_payload_wf(p, threshold));
        }
        let rp_bytes = slice_subrange(proof_data, 12, 12 + rp_len);
        let diff_bytes = slice_subrange(proof_data, 12 + rp_len, 12 + rp_len + 32);
        let cb = slice_subrange(proof_data, commit_pos + 7, commit_pos + 39);
        proof {
            let l = rp_len as int;
            assert(rp_bytes@ =~= p.subrange(12, 12 + l));
            assert(diff_bytes@ =~= p.subrange(12 + l, 12 + l + 32));
        }
        let expected_diff = match linked_diff(cb, threshold, false) {
            Some(v) => v,
            None => {
                proof {
                    assert(!spec_threshold_accepts(proof_data@, threshold));
                }
                return false;
            },
        };
        if !bytes_eq(expected_diff.as_slice(), diff_bytes) {
            proof {
                assert(linked_diff_of(cb@, threshold, false) != Some(diff_bytes@));
                assert(!spec_threshold_accepts(proof_data@, threshold));
            }
            return false;
        }
        let ok = bp_verify(rp_bytes, diff_bytes, &LABEL_THRESHOLD, 64);
        proof {
            if ok {
                assert(spec_threshold_accepts(proof_data@, threshold));
            } else {
                assert(!spec_threshold_accepts(proof_data@, threshold));
            }
        }
        ok
    }
}

/// A region made of `k` length-prefixed blocks/// A region made of `k` length-prefixed blocks: each a `u32` length then
/// that many bytes, with nothing left over.
pub open spec fn spec_blocks_wf(region: Seq<u8>, k: nat) -> bool
    decreases k,
{
    if k == 0 {
        region.len() == 0
    } else {
        &&& region.len() >= 4
        &&& {
            let l = spec_u32_from_le_bytes(region.subrange(0, 4)) as int;
            &&& region.len() >= 4 + l
            &&& spec_blocks_wf(region.subrange(4 + l, region.len() as int), (k - 1) as nat)
        }
    }
}

/// Appending one complete block extends a well-formed block region.
pub proof fn lemma_blocks_wf_append(region: Seq<u8>, k: nat, block: Seq<u8>)
    requires
        spec_blocks_wf(region, k),
        block.len() >= 4,
        spec_u32_from_le_bytes(block.subrange(0, 4)) == block.len() - 4,
    ensures
        spec_blocks_wf(region + block, k + 1),
    decreases k,
{
    let whole = region + block;
    if k == 0 {
        assert(whole =~= block);
        let l = spec_u32_from_le_bytes(whole.subrange(0, 4)) as int;
        assert(whole.subrange(0, 4) =~= block.subrange(0, 4));
        assert(l == block.len() - 4);
        assert(whole.subrange(4 + l, whole.len() as int) =~= Seq::<u8>::empty());
        assert(spec_blocks_wf(whole.subrange(4 + l, whole.len() as int), (k) as nat));
        assert(spec_blocks_wf(whole, (k + 1) as nat));
    } else {
        assert(whole.subrange(0, 4) =~= region.subrange(0, 4));
        let l = spec_u32_from_le_bytes(region.subrange(0, 4)) as int;
        assert(whole.subrange(4 + l, whole.len() as int) =~= region.subrange(
            4 + l,
            region.len() as int,
        ) + block);
        lemma_blocks_wf_append(region.subrange(4 + l, region.len() as int), (k - 1) as nat, block);
        assert(spec_blocks_wf(whole, (k + 1) as nat));
    }
}

/// The declared value count at the head of a consistency payload or blob.
pub open spec fn spec_consistency_n(p: Seq<u8>) -> int {
    spec_u32_from_le_bytes(p.subrange(0, 4)) as int
}

/// Layout of the consistency payload before the marker: `n(4) ‖ value
/// commitments (n*32) ‖ n-1 length-prefixed range proofs ‖ n-1 difference
/// commitments (32 each)`.
pub open spec fn spec_consistency_payload_wf(p: Seq<u8>) -> bool {
    &&& p.len() >= 4
    &&& {
        let n = spec_consistency_n(p);
        &&& n >= 1
        &&& p.len() >= 4 + 32 * n + 32 * (n - 1)
        &&& spec_blocks_wf(p.subrange(4 + 32 * n, p.len() - 32 * (n - 1)), (n - 1) as nat)
    }
}

/// An engine blob for the consistency scheme: a well-formed payload, the
/// marker, and the framing checksum equal to the transmitted value
/// commitments.
pub open spec fn spec_consistency_block_wf(b: Seq<u8>) -> bool {
    &&& b.len() >= 4
    &&& {
        let n = spec_consistency_n(b);
        &&& n >= 1
        &&& b.len() >= 4 + 32 * n + 32 * (n - 1) + 7 + 32 * n
        &&& spec_marker_at(b, b.len() - 7 - 32 * n)
        &&& spec_consistency_payload_wf(b.take(b.len() - 7 - 32 * n))
        &&& b.subrange(b.len() - 32 * n, b.len() as int) == b.subrange(4, 4 + 32 * n)
    }
}

/// Acceptance of the adjacent-pair checks, peeled from the front of the
/// value-commitment, range-proof and difference-commitment regions: each
/// transmitted difference commitment equals the difference of its two
/// value commitments, and its range proof verifies under the consistency
/// label.
pub open spec fn spec_pairs_accept(
    commits: Seq<u8>,
    rp_region: Seq<u8>,
    diffs: Seq<u8>,
    k: nat,
) -> bool
    decreases k,
{
    if k == 0 {
        true
    } else {
        let l = spec_u32_from_le_bytes(rp_region.subrange(0, 4)) as int;
        &&& point_diff_of(commits.subrange(32, 64), commits.subrange(0, 32)) == Some(
            diffs.subrange(0, 32),
        )
        &&& bp_verify_of(rp_region.subrange(4, 4 + l), diffs.subrange(0, 32), LABEL_CONSISTENCY@, 64)
        &&& spec_pairs_accept(
            commits.skip(32),
            rp_region.subrange(4 + l, rp_region.len() as int),
            diffs.skip(32),
            (k - 1) as nat,
        )
    }
}

/// Exactly when the consistency verifier accepts a blob: the first marker
/// splits it into a well-formed payload, the framing checksum after the
/// marker is exactly the transmitted value commitments, and every
/// adjacent-pair check passes.
pub open spec fn spec_consistency_accepts(data: Seq<u8>) -> bool {
    &&& spec_has_marker(data)
    &&& {
        let pos = spec_first_marker_pos(data);
        let p = data.take(pos);
        &&& spec_consistency_payload_wf(p)
        &&& {
            let n = spec_consistency_n(p);
            &&& data.len() - (pos + 7) == 32 * n
            &&& data.subrange(pos + 7, data.len() as int) == p.subrange(4, 4 + 32 * n)
            &&& spec_pairs_accept(
                p.subrange(4, 4 + 32 * n),
                p.subrange(4 + 32 * n, p.len() - 32 * (n - 1)),
                p.subrange(p.len() - 32 * (n - 1), p.len() as int),
                (n - 1) as nat,
            )
        }
    }
}

/// One well-formed block peels off the front of a block region.
proof fn lemma_blocks_peel(region: Seq<u8>, k: nat)
    requires
        k >= 1,
        region.len() >= 4,
        region.len() >= 4 + spec_u32_from_le_bytes(region.subrange(0, 4)),
    ensures
        spec_blocks_wf(region, k) == spec_blocks_wf(
            region.subrange(
                4 + spec_u32_from_le_bytes(region.subrange(0, 4)) as int,
                region.len() as int,
            ),
            (k - 1) as nat,
        ),
{
}

/// A passing first pair peels off the front of the three regions.
proof fn lemma_pairs_peel(commits: Seq<u8>, rp_region: Seq<u8>, diffs: Seq<u8>, k: nat)
    requires
        k >= 1,
        point_diff_of(commits.subrange(32, 64), commits.subrange(0, 32)) == Some(
            diffs.subrange(0, 32),
        ),
        bp_verify_of(
            rp_region.subrange(4, 4 + spec_u32_from_le_bytes(rp_region.subrange(0, 4)) as int),
            diffs.subrange(0, 32),
            LABEL_CONSISTENCY@,
            64,
        ),
    ensures
        spec_pairs_accept(commits, rp_region, diffs, k) == spec_pairs_accept(
            commits.skip(32),
            rp_region.subrange(
                4 + spec_u32_from_le_bytes(rp_region.subrange(0, 4)) as int,
                rp_region.len() as int,
            ),
            diffs.skip(32),
            (k - 1) as nat,
        ),
{
}

/// A failing first pair refutes the whole pair conjunction.
proof fn lemma_pairs_fail(commits: Seq<u8>, rp_region: Seq<u8>, diffs: Seq<u8>, k: nat)
    requires
        k >= 1,
        !(point_diff_of(commits.subrange(32, 64), commits.subrange(0, 32)) == Some(
            diffs.subrange(0, 32),
        )) || !bp_verify_of(
            rp_region.subrange(4, 4 + spec_u32_from_le_bytes(rp_region.subrange(0, 4)) as int),
            diffs.subrange(0, 32),
            LABEL_CONSISTENCY@,
            64,
        ),
    ensures
        !spec_pairs_accept(commits, rp_region, diffs, k),
{
}

/// Failing block structure refutes acceptance.
proof fn lemma_not_accepts_blocks(data: Seq<u8>, pos: int, n: int)
    requires
        spec_marker_at(data, pos),
        pos == spec_first_marker_pos(data),
        pos >= 4,
        n == spec_consistency_n(data.take(pos)),
        n >= 1,
        data.take(pos).len() >= 4 + 32 * n + 32 * (n - 1),
        !spec_blocks_wf(
            data.take(pos).subrange(4 + 32 * n, data.take(pos).len() - 32 * (n - 1)),
            (n - 1) as nat,
        ),
    ensures
        !spec_consistency_accepts(data),
{
    assert(!spec_consistency_payload_wf(data.take(pos)));
}

/// Failing pair checks refute acceptance.
proof fn lemma_not_accepts_pairs(data: Seq<u8>, pos: int, n: int)
    requires
        spec_marker_at(data, pos),
        pos == spec_first_marker_pos(data),
        n == spec_consistency_n(data.take(pos)),
        !spec_pairs_accept(
            data.take(pos).subrange(4, 4 + 32 * n),
            data.take(pos).subrange(4 + 32 * n, data.take(pos).len() - 32 * (n - 1)),
            data.take(pos).subrange(data.take(pos).len() - 32 * (n - 1), data.take(pos).len() as int),
            (n - 1) as nat,
        ),
    ensures
        !spec_consistency_accepts(data),
{
}

/// The `u64` values embedded after the count of a membership payload.
pub open spec fn spec_embedded_set(p: Seq<u8>, n: int) -> Seq<u64>
    recommends
        n >= 0,
{
    Seq::new(n as nat, |i: int| spec_u64_from_le_bytes(p.subrange(4 + 8 * i, 12 + 8 * i)))
}

/// Two value lists holding exactly the same elements.
pub open spec fn spec_same_elements(a: Seq<u64>, b: Seq<u64>) -> bool {
    forall|x: u64| a.contains(x) <==> b.contains(x)
}

/// Layout of the membership payload before the marker: `n(4) ‖ set values
/// (n*8) ‖ index commitment (32) ‖ challenge (32) ‖ response (32)`, the
/// embedded values naming the same set as the argument, element for
/// element.
pub open spec fn spec_membership_payload_wf(p: Seq<u8>, set: Seq<u64>) -> bool {
    &&& p.len() >= 4
    &&& {
        let n = spec_u32_from_le_bytes(p.subrange(0, 4)) as int;
        &&& n >= 1
        &&& n == set.len()
        &&& p.len() == 4 + 8 * n + 96
        &&& spec_same_elements(spec_embedded_set(p, n), set)
    }
}

/// An engine blob for the membership scheme.
pub open spec fn spec_membership_block_wf(b: Seq<u8>, set: Seq<u64>) -> bool {
    &&& b.len() >= 39
    &&& spec_marker_at(b, b.len() - 39)
    &&& spec_membership_payload_wf(b.take(b.len() - 39), set)
}

/// Whether every element of `a` occurs in `b`.
pub fn all_contained(a: &[u64], b: &[u64]) -> (r: bool)
    ensures
        r == (forall|i: int| 0 <= i < a@.len() ==> b@.contains(#[trigger] a@[i])),
{
    let mut i: usize = 0;
    while i < a.len()
        invariant
            i <= a@.len(),
            forall|j: int| 0 <= j < i ==> b@.contains(#[trigger] a@[j]),
        decreases a@.len() - i,
    {
        let x = *vstd::slice::slice_index_get(a, i);
        if find_index(b, x).is_none() {
            proof {
                assert(!b@.contains(a@[i as int]));
            }
            return false;
        }
        i = i + 1;
    }
    true
}

impl BulletproofsBackend {
    /// Proves that a sequence is monotone nondecreasing: commits to every
    /// value, then proves each adjacent difference nonnegative under the
    /// blinding difference, so that the verifier can recompute each
    /// difference commitment as `C_i - C_{i-1}`.
    #[verifier::rlimit(100)]
    pub fn prove_consistency(data: Vec<u64>) -> (r: Result<Vec<u8>, String>)
        ensures
            r is Ok ==> data@.len() >= 1 && spec_ascending(data@),
            r matches Ok(out) ==> spec_consistency_block_wf(out@) && spec_consistency_n(out@)
                == data@.len(),
    {
        if data.len() == 0 {
            return Err("data cannot be empty".to_string());
        }
        if !is_ascending_order(data.as_slice()) {
            return Err("data inconsistent".to_string());
        }
        if data.len() > u32::MAX as usize {
            return Err("data too large".to_string());
        }
        let n = data.len();
        let pc_gens = pedersen_default();
        let party_capacity = if n < 512 { 2 * n } else { 1024 };
        let bp_gens = bp_gens_new(64, party_capacity);

        let mut blindings: Vec<curve25519_dalek::scalar::Scalar> = Vec::new();
        let mut commit_region: Vec<u8> = Vec::new();
        let mut i: usize = 0;
        while i < n
            invariant
                i <= n,
                n == data@.len(),
                blindings@.len() == i,
                commit_region@.len() == 32 * i,
            decreases n - i,
        {
            let bb = random_blinding_bytes();
            let blinding = scalar_from_bytes_mod_order(bb.as_slice());
            let v = *vstd::slice::slice_index_get(data.as_slice(), i);
            let c = point_compress(&pedersen_commit(&pc_gens, &scalar_from_u64(v), &blinding));
            let cb = compressed_bytes(&c);
            push_bytes(&mut commit_region, cb.as_slice());
            blindings.push(blinding);
            i = i + 1;
        }

        let mut rp_region: Vec<u8> = Vec::new();
        let mut diff_region: Vec<u8> = Vec::new();
        let mut j: usize = 1;
        while j < n
            invariant
                1 <= j <= n,
                n == data@.len(),
                n <= u32::MAX,
                blindings@.len() == n,
                spec_ascending(data@),
                spec_blocks_wf(rp_region@, (j - 1) as nat),
                diff_region@.len() == 32 * (j - 1),
            decreases n - j,
        {
            let prev = *vstd::slice::slice_index_get(data.as_slice(), j - 1);
            let cur = *vstd::slice::slice_index_get(data.as_slice(), j);
            proof {
                assert(data@[j - 1] <= data@[j as int]);
            }
            let diff = cur - prev;
            let diff_blinding = scalar_sub(&blindings[j], &blindings[j - 1]);
            let mut transcript = transcript_new(&LABEL_CONSISTENCY);
            let (rp, dc) = match rangeproof_prove_single(
                &bp_gens,
                &pc_gens,
                &mut transcript,
                diff,
                &diff_blinding,
                64,
            ) {
                Some(x) => x,
                None => {
                    return Err("range proof generation failed".to_string());
                },
            };
            let rp_bytes = rangeproof_to_bytes(&rp);
            if rp_bytes.len() > 4294967291usize {
                return Err("range proof too large".to_string());
            }
            let ghost old_region = rp_region@;
            push_u32_le(&mut rp_region, rp_bytes.len() as u32);
            push_bytes(&mut rp_region, rp_bytes.as_slice());
            proof {
                let block = vstd::bytes::spec_u32_to_le_bytes(rp_bytes@.len() as u32) + rp_bytes@;
                vstd::bytes::lemma_auto_spec_u32_to_from_le_bytes();
                assert(rp_region@ =~= old_region + block);
                assert(block.subrange(0, 4) =~= vstd::bytes::spec_u32_to_le_bytes(
                    rp_bytes@.len() as u32,
                ));
                lemma_blocks_wf_append(old_region, (j - 1) as nat, block);
            }
            let dcb = compressed_bytes(&dc);
            push_bytes(&mut diff_region, dcb.as_slice());
            j = j + 1;
        }

        let mut payload: Vec<u8> = Vec::new();
        push_u32_le(&mut payload, n as u32);
        push_bytes(&mut payload, commit_region.as_slice());
        push_bytes(&mut payload, rp_region.as_slice());
        push_bytes(&mut payload, diff_region.as_slice());
        let out = reconstruct_bulletproofs_proof(payload.as_slice(), commit_region.as_slice());
        proof {
            vstd::bytes::lemma_auto_spec_u32_to_from_le_bytes();
            let ni = n as int;
            assert(payload@.subrange(0, 4) =~= vstd::bytes::spec_u32_to_le_bytes(n as u32));
            assert(spec_consistency_n(payload@) == ni);
            assert(payload@.subrange(4 + 32 * ni, payload@.len() - 32 * (ni - 1)) =~= rp_region@);
            assert(spec_consistency_payload_wf(payload@));
            let bl = out@.len() as int;
            assert(out@.subrange(payload@.len() as int, payload@.len() as int + 7)
                =~= spec_commit_marker());
            assert(spec_marker_at(out@, bl - 7 - 32 * ni));
            assert(out@.take(bl - 7 - 32 * ni) =~= payload@);
            assert(out@.subrange(0, 4) =~= payload@.subrange(0, 4));
            assert(spec_consistency_n(out@) == ni);
            assert(out@.subrange(bl - 32 * ni, bl) =~= commit_region@);
            assert(out@.subrange(4, 4 + 32 * ni) =~= commit_region@);
        }
        Ok(out)
    }

    /// Verifies a consistency blob: parses the layout, requires the
    /// framing checksum after the marker to equal the transmitted value
    /// commitments, recomputes each difference commitment as `C_i -
    /// C_{i-1}`, and checks each range proof against it. Returns exactly
    /// the acceptance predicate.
    #[verifier::rlimit(100)]
    #[verifier::spinoff_prover]
    #[verifier::loop_isolation(true)]
    pub fn verify_consistency(proof_data: &[u8]) -> (r: bool)
        ensures
            r == spec_consistency_accepts(proof_data@),
    {
        let commit_pos = match crate::proof_helpers::find_commit_marker(proof_data) {
            Some(pos) => pos,
            None => {
                return false;
            },
        };
        let total = proof_data.len();
        proof {
            assert(spec_marker_at(proof_data@, commit_pos as int));
            assert(commit_pos as int == spec_first_marker_pos(proof_data@));
        }
        let ghost p = proof_data@.take(commit_pos as int);
        if commit_pos < 4 {
            proof {
                assert(!spec_consistency_accepts(proof_data@));
            }
            return false;
        }
        proof {
            vstd::bytes::lemma_auto_spec_u32_to_from_le_bytes();
            assert(p.subrange(0, 4) =~= proof_data@.subrange(0, 4));
        }
        let num_values = u32_from_le_bytes(slice_subrange(proof_data, 0, 4)) as usize;
        if num_values == 0 {
            proof {
                assert(!spec_consistency_payload_wf(p));
                assert(!spec_consistency_accepts(proof_data@));
            }
            return false;
        }
        // Regions: value commitments, range-proof blocks, differences.
        if num_values > (commit_pos - 4) / 32 {
            proof {
                assert(32 * num_values > commit_pos - 4);
                assert(!spec_consistency_payload_wf(p));
                assert(!spec_consistency_accepts(proof_data@));
            }
            return false;
        }
        if commit_pos - 4 - 32 * num_values < 32 * (num_values - 1) {
            proof {
                assert(!spec_consistency_payload_wf(p));
                assert(!spec_consistency_accepts(proof_data@));
            }
            return false;
        }
        // Framing checksum: the bytes after the marker must equal the
        // transmitted value commitments.
        if total - (commit_pos + 7) != 32 * num_values {
            proof {
                assert(!spec_consistency_accepts(proof_data@));
            }
            return false;
        }
        let commit_region = slice_subrange(proof_data, 4, 4 + 32 * num_values);
        let checksum = slice_subrange(proof_data, commit_pos + 7, total);
        proof {
            assert(commit_region@ =~= p.subrange(4, 4 + 32 * (num_values as int)));
        }
        if !bytes_eq(checksum, commit_region) {
            proof {
                assert(proof_data@.subrange(commit_pos + 7, proof_data@.len() as int) != p
                    .subrange(4, 4 + 32 * (num_values as int)));
                assert(!spec_consistency_accepts(proof_data@));
            }
            return false;
        }

        let rp_start = 4 + 32 * num_values;
        let diffs_start = commit_pos - 32 * (num_values - 1);
        let ghost ni = num_values as int;
        let ghost commits0 = p.subrange(4, 4 + 32 * ni);
        let ghost region0 = p.subrange(rp_start as int, diffs_start as int);
        let ghost diffs0 = p.subrange(diffs_start as int, commit_pos as int);
        let mut offset: usize = rp_start;
        let mut m: usize = 0;
        while m < num_values - 1
            invariant
                1 <= num_values,
                m <= num_values - 1,
                ni == num_values as int,
                commit_pos + 39 <= proof_data@.len(),
                spec_marker_at(proof_data@, commit_pos as int),
                commit_pos as int == spec_first_marker_pos(proof_data@),
                p == proof_data@.take(commit_pos as int),
                rp_start == 4 + 32 * num_values,
                diffs_start == commit_pos - 32 * (num_values - 1),
                rp_start <= offset <= diffs_start <= commit_pos,
                num_values == spec_u32_from_le_bytes(p.subrange(0, 4)),
                commits0 == p.subrange(4, 4 + 32 * ni),
                region0 == p.subrange(rp_start as int, diffs_start as int),
                diffs0 == p.subrange(diffs_start as int, commit_pos as int),
                proof_data@.subrange(commit_pos + 7, proof_data@.len() as int) == commits0,
                proof_data@.len() - (commit_pos + 7) == 32 * ni,
                spec_blocks_wf(region0, (ni - 1) as nat) == spec_blocks_wf(
                    p.subrange(offset as int, diffs_start as int),
                    (ni - 1 - m) as nat,
                ),
                spec_pairs_accept(commits0, region0, diffs0, (ni - 1) as nat)
                    == spec_pairs_accept(
                    p.subrange(4 + 32 * m, 4 + 32 * ni),
                    p.subrange(offset as int, diffs_start as int),
                    p.subrange(diffs_start + 32 * m, commit_pos as int),
                    (ni - 1 - m) as nat,
                ),
            decreases num_values - m,
        {
            let ghost region_m = p.subrange(offset as int, diffs_start as int);
            let ghost commits_m = p.subrange(4 + 32 * m, 4 + 32 * ni);
            let ghost diffs_m = p.subrange(diffs_start + 32 * m, commit_pos as int);
            if diffs_start - offset < 4 {
                proof {
                    assert(!spec_blocks_wf(region_m, (ni - 1 - m) as nat));
                    lemma_not_accepts_blocks(proof_data@, commit_pos as int, ni);
                }
                return false;
            }
            proof {
                vstd::bytes::lemma_auto_spec_u32_to_from_le_bytes();
                assert(region_m.subrange(0, 4) =~= proof_data@.subrange(
                    offset as int,
                    offset + 4,
                ));
            }
            let rp_len = u32_from_le_bytes(slice_subrange(proof_data, offset, offset + 4)) as usize;
            if diffs_start - offset - 4 < rp_len {
                proof {
                    assert(!spec_blocks_wf(region_m, (ni - 1 - m) as nat));
                    lemma_not_accepts_blocks(proof_data@, commit_pos as int, ni);
                }
                return false;
            }
            let rp_bytes = slice_subrange(proof_data, offset + 4, offset + 4 + rp_len);
            let prev_bytes = slice_subrange(proof_data, 4 + 32 * m, 4 + 32 * m + 32);
            let cur_bytes = slice_subrange(proof_data, 4 + 32 * (m + 1), 4 + 32 * (m + 1) + 32);
            let d_bytes = slice_subrange(
                proof_data,
                diffs_start + 32 * m,
                diffs_start + 32 * m + 32,
            );
            proof {
                let l = rp_len as int;
                assert(rp_bytes@ =~= region_m.subrange(4, 4 + l));
                assert(prev_bytes@ =~= commits_m.subrange(0, 32));
                assert(cur_bytes@ =~= commits_m.subrange(32, 64));
                assert(d_bytes@ =~= diffs_m.subrange(0, 32));
            }
            let expected = match point_diff(cur_bytes, prev_bytes) {
                Some(v) => v,
                None => {
                    proof {
                        lemma_pairs_fail(commits_m, region_m, diffs_m, (ni - 1 - m) as nat);
                        lemma_not_accepts_pairs(proof_data@, commit_pos as int, ni);
                    }
                    return false;
                },
            };
            if !bytes_eq(expected.as_slice(), d_bytes) {
                proof {
                    assert(point_diff_of(cur_bytes@, prev_bytes@) != Some(d_bytes@));
                    lemma_pairs_fail(commits_m, region_m, diffs_m, (ni - 1 - m) as nat);
                    lemma_not_accepts_pairs(proof_data@, commit_pos as int, ni);
                }
                return false;
            }
            if !bp_verify(rp_bytes, d_bytes, &LABEL_CONSISTENCY, 64) {
                proof {
                    lemma_pairs_fail(commits_m, region_m, diffs_m, (ni - 1 - m) as nat);
                    lemma_not_accepts_pairs(proof_data@, commit_pos as int, ni);
                }
                return false;
            }
            proof {
                let l = rp_len as int;
                lemma_blocks_peel(region_m, (ni - 1 - m) as nat);
                lemma_pairs_peel(commits_m, region_m, diffs_m, (ni - 1 - m) as nat);
                assert(region_m.subrange(4 + l, region_m.len() as int) =~= p.subrange(
                    offset + 4 + l,
                    diffs_start as int,
                ));
                assert(commits_m.skip(32) =~= p.subrange(4 + 32 * (m + 1), 4 + 32 * ni));
                assert(diffs_m.skip(32) =~= p.subrange(
                    diffs_start + 32 * (m + 1),
                    commit_pos as int,
                ));
            }
            offset = offset + 4 + rp_len;
            m = m + 1;
        }
        if offset != diffs_start {
            proof {
                assert(!spec_blocks_wf(
                    p.subrange(offset as int, diffs_start as int),
                    0,
                ));
                assert(!spec_consistency_payload_wf(p));
                assert(!spec_consistency_accepts(proof_data@));
            }
            return false;
        }
        proof {
            assert(p.subrange(offset as int, diffs_start as int) =~= Seq::<u8>::empty());
            assert(spec_blocks_wf(region0, (ni - 1) as nat));
            assert(spec_consistency_payload_wf(p));
            assert(spec_pairs_accept(commits0, region0, diffs0, (ni - 1) as nat));
            assert(spec_consistency_accepts(proof_data@));
        }
        true
    }

    /// Proves membership of a hidden value in a public set through a
    /// Fiat-Shamir Sigma protocol over the value and index commitments.
    pub fn prove_set_membership(value: u64, set: Vec<u64>) -> (r: Result<Vec<u8>, String>)
        ensures
            r is Ok ==> set@.len() >= 1 && set@.contains(value),
            r matches Ok(out) ==> spec_membership_block_wf(out@, set@),
    {
        if set.len() == 0 {
            return Err("set cannot be empty".to_string());
        }
        let value_index = match find_index(set.as_slice(), value) {
            Some(i) => i,
            None => {
                return Err("value not in set".to_string());
            },
        };
        if set.len() > u32::MAX as usize {
            return Err("set too large".to_string());
        }
        let n = set.len();
        let pc_gens = pedersen_default();

        let vb_bytes = random_blinding_bytes();
        let value_blinding = scalar_from_bytes_mod_order(vb_bytes.as_slice());
        let value_commit = point_compress(
            &pedersen_commit(&pc_gens, &scalar_from_u64(value), &value_blinding),
        );

        let ib_bytes = random_blinding_bytes();
        let index_blinding = scalar_from_bytes_mod_order(ib_bytes.as_slice());
        let index_commit = point_compress(
            &pedersen_commit(&pc_gens, &scalar_from_u64(value_index as u64), &index_blinding),
        );

        let value_commit_bytes = compressed_bytes(&value_commit);
        let index_commit_bytes = compressed_bytes(&index_commit);

        let mut transcript = transcript_new(&LABEL_MEMBERSHIP);
        transcript_append_message(&mut transcript, &LABEL_VALUE_COMMIT, value_commit_bytes.as_slice());
        transcript_append_message(&mut transcript, &LABEL_INDEX_COMMIT, index_commit_bytes.as_slice());
        let mut i: usize = 0;
        while i < n
            invariant
                i <= n,
                n == set@.len(),
            decreases n - i,
        {
            let v = *vstd::slice::slice_index_get(set.as_slice(), i);
            transcript_append_u64(&mut transcript, &LABEL_SET_ELEMENT, v);
            i = i + 1;
        }
        let challenge_bytes = transcript_challenge_32(&mut transcript, &LABEL_CHALLENGE);
        let challenge = scalar_from_bytes_mod_order(challenge_bytes.as_slice());
        let response = scalar_add(&index_blinding, &scalar_mul(&challenge, &value_blinding));

        let mut payload: Vec<u8> = Vec::new();
        push_u32_le(&mut payload, n as u32);
        let mut j: usize = 0;
        while j < n
            invariant
                j <= n,
                n == set@.len(),
                n <= u32::MAX,
                payload@ == vstd::bytes::spec_u32_to_le_bytes(n as u32)
                    + crate::serialization::spec_u64s_le(set@.take(j as int)),
            decreases n - j,
        {
            let v = *vstd::slice::slice_index_get(set.as_slice(), j);
            push_u64_le(&mut payload, v);
            proof {
                assert(set@.take(j + 1) =~= set@.take(j as int).push(set@[j as int]));
                crate::serialization::lemma_u64s_le_push(set@.take(j as int), set@[j as int]);
            }
            j = j + 1;
        }
        proof {
            assert(set@.take(n as int) =~= set@);
        }
        push_bytes(&mut payload, index_commit_bytes.as_slice());
        let challenge_scalar_bytes = crate::curve::scalar_to_bytes(&challenge);
        push_bytes(&mut payload, challenge_scalar_bytes.as_slice());
        let response_bytes = crate::curve::scalar_to_bytes(&response);
        push_bytes(&mut payload, response_bytes.as_slice());

        let out = reconstruct_bulletproofs_proof(payload.as_slice(), value_commit_bytes.as_slice());
        proof {
            let ni = n as int;
            vstd::bytes::lemma_auto_spec_u32_to_from_le_bytes();
            vstd::bytes::lemma_auto_spec_u64_to_from_le_bytes();
            crate::serialization::lemma_u64s_le_len(set@);
            assert(payload@.subrange(0, 4) =~= vstd::bytes::spec_u32_to_le_bytes(n as u32));
            assert(payload@.len() == 4 + 8 * ni + 96);
            assert forall|q: int| 0 <= q < ni implies spec_embedded_set(payload@, ni)[q]
                == set@[q] by {
                crate::serialization::lemma_u64s_le_index(set@, q);
                assert(payload@.subrange(4 + 8 * q, 12 + 8 * q)
                    =~= crate::serialization::spec_u64s_le(set@).subrange(8 * q, 8 * q + 8));
            }
            assert(spec_embedded_set(payload@, ni) =~= set@);
            assert(spec_membership_payload_wf(payload@, set@));
            assert(out@.subrange(payload@.len() as int, payload@.len() as int + 7)
                =~= spec_commit_marker());
            assert(spec_marker_at(out@, out@.len() - 39));
            assert(out@.take(out@.len() - 39) =~= payload@);
        }
        Ok(out)
    }

    /// Verifies a membership blob against a public set: parses the layout,
    /// requires the embedded set to name the same elements as the
    /// argument, recomputes the Fiat-Shamir challenge, and accepts when
    /// some index satisfies the Sigma-protocol equation.
    pub fn verify_set_membership(proof_data: &[u8], set: Vec<u64>) -> (r: bool)
        ensures
            r ==> exists|pos: int|
                #![auto]
                spec_marker_at(proof_data@, pos) && pos + 39 <= proof_data@.len()
                    && spec_membership_payload_wf(proof_data@.take(pos), set@),
    {
        let commit_pos = match crate::proof_helpers::find_commit_marker(proof_data) {
            Some(pos) => pos,
            None => {
                return false;
            },
        };
        let total = proof_data.len();
        proof {
            assert(spec_marker_at(proof_data@, commit_pos as int));
        }
        let commit_start = commit_pos + 7;
        if total - commit_start < 32 {
            return false;
        }
        if commit_pos < 4 {
            return false;
        }
        let set_size = u32_from_le_bytes(slice_subrange(proof_data, 0, 4)) as usize;
        if set_size == 0 || set_size != set.len() {
            return false;
        }
        if set_size > 268435455usize {
            return false;
        }
        if commit_pos - 4 != 8 * set_size + 96 {
            return false;
        }
        let mut embedded: Vec<u64> = Vec::new();
        let mut i: usize = 0;
        while i < set_size
            invariant
                i <= set_size,
                set_size <= 268435455usize,
                4 + 8 * set_size + 96 <= proof_data@.len(),
                embedded@.len() == i,
                forall|q: int| 0 <= q < i ==> embedded@[q] == spec_u64_from_le_bytes(
                    #[trigger] proof_data@.subrange(4 + 8 * q, 12 + 8 * q),
                ),
            decreases set_size - i,
        {
            let v = u64_from_le_bytes(slice_subrange(proof_data, 4 + 8 * i, 12 + 8 * i));
            embedded.push(v);
            i = i + 1;
        }
        if !all_contained(embedded.as_slice(), set.as_slice()) {
            return false;
        }
        if !all_contained(set.as_slice(), embedded.as_slice()) {
            return false;
        }

        let tail_start = 4 + 8 * set_size;
        let index_commit_bytes = slice_subrange(proof_data, tail_start, tail_start + 32);
        let challenge_bytes_in = slice_subrange(proof_data, tail_start + 32, tail_start + 64);
        let response_bytes = slice_subrange(proof_data, tail_start + 64, tail_start + 96);
        let value_commit_bytes = slice_subrange(proof_data, commit_start, commit_start + 32);

        let value_commit = match compressed_from_slice(value_commit_bytes) {
            Some(c) => c,
            None => {
                return false;
            },
        };
        let value_commit_point = match point_decompress(&value_commit) {
            Some(p) => p,
            None => {
                return false;
            },
        };
        let index_commit = match compressed_from_slice(index_commit_bytes) {
            Some(c) => c,
            None => {
                return false;
            },
        };
        let index_commit_point = match point_decompress(&index_commit) {
            Some(p) => p,
            None => {
                return false;
            },
        };
        let challenge = match scalar_from_canonical(challenge_bytes_in) {
            Some(s) => s,
            None => {
                return false;
            },
        };
        let response = match scalar_from_canonical(response_bytes) {
            Some(s) => s,
            None => {
                return false;
            },
        };

        // Recompute the Fiat-Shamir challenge over the embedded set.
        let mut transcript = transcript_new(&LABEL_MEMBERSHIP);
        transcript_append_message(&mut transcript, &LABEL_VALUE_COMMIT, value_commit_bytes);
        transcript_append_message(&mut transcript, &LABEL_INDEX_COMMIT, index_commit_bytes);
        let mut t: usize = 0;
        while t < set_size
            invariant
                t <= set_size,
                embedded@.len() == set_size,
            decreases set_size - t,
        {
            let v = embedded[t];
            transcript_append_u64(&mut transcript, &LABEL_SET_ELEMENT, v);
            t = t + 1;
        }
        let expected_challenge_bytes = transcript_challenge_32(&mut transcript, &LABEL_CHALLENGE);
        let expected_challenge = scalar_from_bytes_mod_order(expected_challenge_bytes.as_slice());
        let challenge_canonical = crate::curve::scalar_to_bytes(&challenge);
        let expected_canonical = crate::curve::scalar_to_bytes(&expected_challenge);
        if !bytes_eq(challenge_canonical.as_slice(), expected_canonical.as_slice()) {
            return false;
        }

        // Accept when some index satisfies
        // index_commit + c * value_commit == commit(i + c * set[i], response).
        let pc_gens = pedersen_default();
        let lhs = point_add(&index_commit_point, &point_scalar_mul(&challenge, &value_commit_point));
        let mut k: usize = 0;
        while k < set_size
            invariant
                k <= set_size,
                embedded@.len() == set_size,
                set_size <= 268435455usize,
                4 + 8 * set_size + 96 <= proof_data@.len(),
                set@.len() == set_size,
                1 <= set_size,
                spec_u32_from_le_bytes(proof_data@.subrange(0, 4)) == set_size,
                commit_pos as int + 39 <= proof_data@.len(),
                spec_marker_at(proof_data@, commit_pos as int),
                commit_pos == 4 + 8 * set_size + 96,
                forall|q: int| 0 <= q < set_size ==> embedded@[q] == spec_u64_from_le_bytes(
                    #[trigger] proof_data@.subrange(4 + 8 * q, 12 + 8 * q),
                ),
                forall|q: int| 0 <= q < embedded@.len() ==> set@.contains(#[trigger] embedded@[q]),
                forall|q: int| 0 <= q < set@.len() ==> embedded@.contains(#[trigger] set@[q]),
            decreases set_size - k,
        {
            let s_k = embedded[k];
            let rhs = pedersen_commit(
                &pc_gens,
                &scalar_add(&scalar_from_u64(k as u64), &scalar_mul(&challenge, &scalar_from_u64(s_k))),
                &response,
            );
            if point_eq(&lhs, &rhs) {
                proof {
                    lemma_membership_payload_from_parse(proof_data@, commit_pos as int, set_size as int, embedded@, set@);
                }
                return true;
            }
            k = k + 1;
        }
        false
    }
}

/// Packages the parse facts of a membership payload into its
/// well-formedness statement.
proof fn lemma_membership_payload_from_parse(
    data: Seq<u8>,
    pos: int,
    n: int,
    embedded: Seq<u64>,
    set: Seq<u64>,
)
    requires
        0 <= pos,
        pos + 39 <= data.len(),
        pos == 4 + 8 * n + 96,
        n >= 1,
        n == set.len(),
        embedded.len() == n,
        spec_u32_from_le_bytes(data.subrange(0, 4)) == n,
        forall|q: int| 0 <= q < n ==> embedded[q] == spec_u64_from_le_bytes(
            #[trigger] data.subrange(4 + 8 * q, 12 + 8 * q),
        ),
        forall|q: int| 0 <= q < embedded.len() ==> set.contains(#[trigger] embedded[q]),
        forall|q: int| 0 <= q < set.len() ==> embedded.contains(#[trigger] set[q]),
    ensures
        spec_membership_payload_wf(data.take(pos), set),
{
    let p = data.take(pos);
    assert(p.subrange(0, 4) =~= data.subrange(0, 4));
    assert forall|q: int| 0 <= q < n implies spec_embedded_set(p, n)[q] == embedded[q] by {
        assert(p.subrange(4 + 8 * q, 12 + 8 * q) =~= data.subrange(4 + 8 * q, 12 + 8 * q));
    }
    assert(spec_embedded_set(p, n) =~= embedded);
    assert forall|x: u64| spec_embedded_set(p, n).contains(x) <==> set.contains(x) by {
        if embedded.contains(x) {
            let q = choose|q: int| 0 <= q < embedded.len() && embedded[q] == x;
            assert(set.contains(embedded[q]));
        }
        if set.contains(x) {
            let q = choose|q: int| 0 <= q < set.len() && set[q] == x;
            assert(embedded.contains(set[q]));
        }
    }
    assert(spec_membership_payload_wf(p, set));
}

} // verus!
