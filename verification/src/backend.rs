//! The engine interface: a proof backend turns an opaque parameter blob
//! into proof bytes and checks proof bytes against a parameter blob. The
//! Bulletproofs engine implements it here; heavier engines may be supplied
//! by the embedding program.

use vstd::prelude::*;
use vstd::slice::slice_subrange;
use crate::curve::{
    bp_gens_new, bp_verify, pedersen_default, random_blinding_bytes, rangeproof_prove_single,
    rangeproof_to_bytes, scalar_from_bytes_mod_order, transcript_new,
};
use crate::serialization::push_bytes;

verus! {

/// A proof engine: `prove` builds proof bytes from a parameter blob
/// (empty on failure), `verify` checks proof bytes against a blob.
pub trait ZkpBackend {
    fn prove(data: &[u8]) -> Vec<u8>;

    fn verify(proof_bytes: &[u8], data: &[u8]) -> bool;
}

/// The STARK engine's marker type. Its proving and verification run through
/// an outside AIR prover that the embedding program supplies; the predicate
/// operations in this crate stay generic over the engine.
pub struct StarkBackend;

impl ZkpBackend for crate::bulletproofs_backend::BulletproofsBackend {
    /// A bare 64-bit range proof of the value in an 8-byte LE blob,
    /// followed by its 32-byte commitment.
    fn prove(data: &[u8]) -> Vec<u8> {
        if data.len() != 8 {
            return Vec::new();
        }
        let value = vstd::bytes::u64_from_le_bytes(data);
        let pc_gens = pedersen_default();
        let bp_gens = bp_gens_new(64, 1);
        let blinding_bytes = random_blinding_bytes();
        let blinding = scalar_from_bytes_mod_order(blinding_bytes.as_slice());
        let mut transcript = transcript_new(&crate::bulletproofs_backend::LABEL_BULLETPROOF);
        let (range_proof, commit) = match rangeproof_prove_single(
            &bp_gens,
            &pc_gens,
            &mut transcript,
            value,
            &blinding,
            64,
        ) {
            Some(x) => x,
            None => {
                return Vec::new();
            },
        };
        let mut out = rangeproof_to_bytes(&range_proof);
        let commit_bytes = crate::curve::compressed_bytes(&commit);
        push_bytes(&mut out, commit_bytes.as_slice());
        out
    }

    /// Splits off the trailing 32-byte commitment and verifies the range
    /// proof against it; the parameter blob plays no part.
    fn verify(proof_bytes: &[u8], _data: &[u8]) -> bool {
        if proof_bytes.len() < 32 {
            return false;
        }
        let split = proof_bytes.len() - 32;
        let rp_bytes = slice_subrange(proof_bytes, 0, split);
        let commit_bytes = slice_subrange(proof_bytes, split, proof_bytes.len());
        bp_verify(rp_bytes, commit_bytes, &crate::bulletproofs_backend::LABEL_BULLETPROOF, 64)
    }
}

} // verus!
