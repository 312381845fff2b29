//! The range predicate: prove and check that a secret value lies in a
//! public interval, through the Bulletproofs engine under scheme tag 1.

use vstd::prelude::*;
use crate::bulletproofs_backend::{
    spec_range_accepts, spec_range_block_wf, BulletproofsBackend,
};
use crate::envelope::{spec_commitment_field, spec_decodable, spec_proof_field, PROOF_VERSION};
use crate::errors::{ZkpError, ZkpResult};
use crate::proof_helpers::{
    create_proof, extract_bulletproofs_components, parse_and_validate_proof,
    reconstruct_bulletproofs_proof, spec_commit_marker, spec_envelope_bytes, spec_marker_at,
    validate_standard_commitment,
};
use crate::validation::validate_range_params;

verus! {

pub const SCHEME_ID: u8 = 1;

/// Proves `min <= value <= max`; rejects out-of-range inputs, and frames
/// the engine output as a scheme-1 envelope.
pub fn prove_range(value: u64, min: u64, max: u64) -> (r: ZkpResult<Vec<u8>>)
    ensures
        r is Ok ==> min <= value <= max,
        !(min <= value <= max) ==> r is Err,
        r matches Ok(v) ==> exists|p: Seq<u8>, c: Seq<u8>|
            #![auto]
            v@ == spec_envelope_bytes(SCHEME_ID, p, c) && spec_range_block_wf(
                p + spec_commit_marker() + c,
                min,
                max,
            ),
{
    validate_range_params(value, min, max)?;
    let backend_proof = match BulletproofsBackend::prove_range_with_bounds(value, min, max) {
        Ok(b) => b,
        Err(e) => {
            return Err(ZkpError::BackendError(e));
        },
    };
    let ghost bp = backend_proof@;
    let (proof_bytes, commitment) = extract_bulletproofs_components(backend_proof.as_slice())?;
    let ghost pb = proof_bytes@;
    let ghost cb = commitment@;
    let out = match create_proof(SCHEME_ID, proof_bytes, commitment) {
        Ok(v) => v,
        Err(e) => {
            return Err(e);
        },
    };
    proof {
        let pos = choose|pos: int|
            {
                &&& spec_marker_at(bp, pos)
                &&& forall|q: int| 0 <= q < pos ==> !spec_marker_at(bp, q)
                &&& pb == bp.take(pos)
                &&& cb == bp.subrange(pos + 7, bp.len() as int)
                &&& cb.len() >= 32
            };
        assert(bp.subrange(pos, pos + 7) == spec_commit_marker());
        assert(pb + spec_commit_marker() + cb =~= bp);
        assert(out@ == spec_envelope_bytes(SCHEME_ID, pb, cb) && spec_range_block_wf(
            pb + spec_commit_marker() + cb,
            min,
            max,
        ));
    }
    Ok(out)
}

/// Checks a scheme-1 envelope against public bounds: exactly when the
/// bounds are ordered, the envelope decodes under the current version and
/// scheme tag with a 32-byte commitment, and the engine accepts the
/// reassembled blob (embedded bounds equal to the arguments, linked
/// difference commitments matching, both range proofs verifying).
pub fn verify_range(proof_envelope: Vec<u8>, min: u64, max: u64) -> (r: bool)
    ensures
        r == ({
            &&& min <= max
            &&& spec_decodable(proof_envelope@)
            &&& proof_envelope@[0] == PROOF_VERSION
            &&& proof_envelope@[1] == SCHEME_ID
            &&& spec_commitment_field(proof_envelope@).len() == 32
            &&& spec_range_accepts(
                spec_proof_field(proof_envelope@) + spec_commit_marker() + spec_commitment_field(
                    proof_envelope@,
                ),
                min,
                max,
            )
        }),
{
    if min > max {
        return false;
    }
    let p = match parse_and_validate_proof(proof_envelope.as_slice(), SCHEME_ID) {
        Ok(p) => p,
        Err(_) => {
            return false;
        },
    };
    if validate_standard_commitment(p.commitment.as_slice()).is_err() {
        return false;
    }
    let backend_proof = reconstruct_bulletproofs_proof(p.proof.as_slice(), p.commitment.as_slice());
    BulletproofsBackend::verify_range_with_bounds(backend_proof.as_slice(), min, max)
}

} // verus!
