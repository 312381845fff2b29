//! The threshold predicate: prove and check that the sum of secret values
//! reaches a public threshold, through the Bulletproofs engine under
//! scheme tag 3.

use vstd::prelude::*;
use crate::bulletproofs_backend::{
    spec_threshold_accepts, spec_threshold_block_wf, BulletproofsBackend,
};
use crate::envelope::{spec_commitment_field, spec_decodable, spec_proof_field, PROOF_VERSION};
use crate::errors::{ZkpError, ZkpResult};
use crate::proof_helpers::{
    create_proof, extract_bulletproofs_components, parse_and_validate_proof,
    reconstruct_bulletproofs_proof, spec_commit_marker, spec_envelope_bytes, spec_marker_at,
    validate_standard_commitment,
};
use crate::validation::spec_sum;

verus! {

pub const SCHEME_ID: u8 = 3;

/// Proves that the values sum to at least the threshold; rejects empty
/// input, overflow and unmet thresholds, and frames the engine output as a
/// scheme-3 envelope.
pub fn prove_threshold(values: Vec<u64>, threshold: u64) -> (r: ZkpResult<Vec<u8>>)
    ensures
        r is Ok ==> values@.len() > 0 && spec_sum(values@) <= u64::MAX && spec_sum(values@)
            >= threshold,
        r matches Ok(v) ==> exists|p: Seq<u8>, c: Seq<u8>|
            #![auto]
            v@ == spec_envelope_bytes(SCHEME_ID, p, c) && spec_threshold_block_wf(
                p + spec_commit_marker() + c,
                threshold,
            ),
{
    let backend_proof = match BulletproofsBackend::prove_threshold(values, threshold) {
        Ok(b) => b,
        Err(e) => {
            return Err(ZkpError::InvalidInput(e));
        },
    };
    let ghost bp = backend_proof@;
    let (proof_bytes, commitment) = extract_bulletproofs_components(backend_proof.as_slice())?;
    let ghost pb = proof_bytes@;
    let ghost cb = commitment@;
    let out = match create_proof(SCHEME_ID, proof_bytes, commitment) {
        Ok(v) => v,
        Err(e) => {
            return Err(e);
        },
    };
    proof {
        let pos = choose|pos: int|
            {
                &&& spec_marker_at(bp, pos)
                &&& forall|q: int| 0 <= q < pos ==> !spec_marker_at(bp, q)
                &&& pb == bp.take(pos)
                &&& cb == bp.subrange(pos + 7, bp.len() as int)
                &&& cb.len() >= 32
            };
        assert(bp.subrange(pos, pos + 7) == spec_commit_marker());
        assert(pb + spec_commit_marker() + cb =~= bp);
        assert(out@ == spec_envelope_bytes(SCHEME_ID, pb, cb) && spec_threshold_block_wf(
            pb + spec_commit_marker() + cb,
            threshold,
        ));
    }
    Ok(out)
}

/// Checks a scheme-3 envelope against a public threshold: exactly when
/// the envelope decodes under the current version and scheme tag with a
/// 32-byte commitment and the engine accepts the reassembled blob
/// (embedded threshold equal to the argument, linked difference
/// commitment matching, range proof verifying).
pub fn verify_threshold(proof_envelope: Vec<u8>, threshold: u64) -> (r: bool)
    ensures
        r == ({
            &&& spec_decodable(proof_envelope@)
            &&& proof_envelope@[0] == PROOF_VERSION
            &&& proof_envelope@[1] == SCHEME_ID
            &&& spec_commitment_field(proof_envelope@).len() == 32
            &&& spec_threshold_accepts(
                spec_proof_field(proof_envelope@) + spec_commit_marker() + spec_commitment_field(
                    proof_envelope@,
                ),
                threshold,
            )
        }),
{
    let p = match parse_and_validate_proof(proof_envelope.as_slice(), SCHEME_ID) {
        Ok(p) => p,
        Err(_) => {
            return false;
        },
    };
    if validate_standard_commitment(p.commitment.as_slice()).is_err() {
        return false;
    }
    let backend_proof = reconstruct_bulletproofs_proof(p.proof.as_slice(), p.commitment.as_slice());
    BulletproofsBackend::verify_threshold(backend_proof.as_slice(), threshold)
}

} // verus!
