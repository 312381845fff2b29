//! The consistency predicate: prove and check that a secret sequence is
//! monotone nondecreasing, through the Bulletproofs engine under scheme
//! tag 6.

use vstd::prelude::*;
use crate::bulletproofs_backend::{
    spec_consistency_accepts, spec_consistency_block_wf, spec_consistency_n, BulletproofsBackend,
};
use crate::envelope::{spec_commitment_field, spec_decodable, spec_proof_field, PROOF_VERSION};
use crate::errors::{ZkpError, ZkpResult};
use crate::proof_helpers::{
    create_proof, extract_bulletproofs_components, parse_and_validate_proof,
    reconstruct_bulletproofs_proof, spec_commit_marker, spec_envelope_bytes, spec_marker_at,
};
use crate::validation::spec_ascending;

verus! {

pub const SCHEME_ID: u8 = 6;

/// Proves that the data is monotone nondecreasing; rejects empty or
/// unordered input, and frames the engine output as a scheme-6 envelope.
pub fn prove_consistency(data: Vec<u64>) -> (r: ZkpResult<Vec<u8>>)
    ensures
        r is Ok ==> data@.len() >= 1 && spec_ascending(data@),
        r matches Ok(v) ==> exists|p: Seq<u8>, c: Seq<u8>|
            #![auto]
            v@ == spec_envelope_bytes(SCHEME_ID, p, c) && spec_consistency_block_wf(
                p + spec_commit_marker() + c,
            ) && spec_consistency_n(p + spec_commit_marker() + c) == data@.len(),
{
    let ghost data_view = data@;
    let backend_proof = match BulletproofsBackend::prove_consistency(data) {
        Ok(b) => b,
        Err(e) => {
            return Err(ZkpError::InvalidInput(e));
        },
    };
    let ghost bp = backend_proof@;
    let (proof_bytes, commitment) = extract_bulletproofs_components(backend_proof.as_slice())?;
    let ghost pb = proof_bytes@;
    let ghost cb = commitment@;
    let out = match create_proof(SCHEME_ID, proof_bytes, commitment) {
        Ok(v) => v,
        Err(e) => {
            return Err(e);
        },
    };
    proof {
        let pos = choose|pos: int|
            {
                &&& spec_marker_at(bp, pos)
                &&& forall|q: int| 0 <= q < pos ==> !spec_marker_at(bp, q)
                &&& pb == bp.take(pos)
                &&& cb == bp.subrange(pos + 7, bp.len() as int)
                &&& cb.len() >= 32
            };
        assert(bp.subrange(pos, pos + 7) == spec_commit_marker());
        assert(pb + spec_commit_marker() + cb =~= bp);
        assert(out@ == spec_envelope_bytes(SCHEME_ID, pb, cb) && spec_consistency_block_wf(
            pb + spec_commit_marker() + cb,
        ) && spec_consistency_n(pb + spec_commit_marker() + cb) == data_view.len());
    }
    Ok(out)
}

/// Checks a scheme-6 envelope: exactly when it decodes under the current
/// version and scheme tag and the engine accepts the reassembled blob
/// (framing checksum equal to the transmitted value commitments, every
/// linked adjacent-difference range proof verifying).
pub fn verify_consistency(proof_envelope: Vec<u8>) -> (r: bool)
    ensures
        r == ({
            &&& spec_decodable(proof_envelope@)
            &&& proof_envelope@[0] == PROOF_VERSION
            &&& proof_envelope@[1] == SCHEME_ID
            &&& spec_consistency_accepts(
                spec_proof_field(proof_envelope@) + spec_commit_marker() + spec_commitment_field(
                    proof_envelope@,
                ),
            )
        }),
{
    let p = match parse_and_validate_proof(proof_envelope.as_slice(), SCHEME_ID) {
        Ok(p) => p,
        Err(_) => {
            return false;
        },
    };
    let backend_proof = reconstruct_bulletproofs_proof(p.proof.as_slice(), p.commitment.as_slice());
    BulletproofsBackend::verify_consistency(backend_proof.as_slice())
}

} // verus!
