//! The improvement predicate: prove and check that a secret new value
//! strictly exceeds a public old value, under scheme tag 5. The engine is
//! supplied as a type parameter and receives `old ‖ new` in LE form; the
//! envelope commitment is `LE(new - old) ‖ LE(new)`.

use vstd::prelude::*;
use crate::backend::ZkpBackend;
use crate::commitment::{
    commit_improvement, spec_commit_improvement, spec_improvement_commitment_ok,
    validate_improvement_commitment,
};
use crate::envelope::{spec_commitment_field, spec_decodable, PROOF_VERSION, Proof};
use crate::errors::{ZkpError, ZkpResult};
use crate::proof_helpers::{parse_and_validate_proof, spec_envelope_bytes};
use crate::serialization::serialize_improvement_params;
use crate::validation::validate_improvement_params;

verus! {

pub const SCHEME_ID: u8 = 5;

/// Proves a strict improvement through the engine `E`; non-improvements
/// are rejected before the engine runs.
pub fn prove_improvement<E: ZkpBackend>(old_value: u64, new_value: u64) -> (r: ZkpResult<Vec<u8>>)
    ensures
        r is Ok ==> new_value > old_value,
        new_value <= old_value ==> r is Err,
        r matches Ok(v) ==> exists|sp: Seq<u8>|
            #![auto]
            sp.len() > 0 && v@ == spec_envelope_bytes(
                SCHEME_ID,
                sp,
                spec_commit_improvement(old_value, new_value),
            ),
{
    validate_improvement_params(old_value, new_value)?;
    let data = serialize_improvement_params(old_value, new_value);
    let engine_proof = E::prove(data.as_slice());
    if engine_proof.len() == 0 {
        return Err(ZkpError::ProofGenerationFailed("engine proof generation failed".to_string()));
    }
    let commitment = match commit_improvement(old_value, new_value) {
        Ok(c) => c,
        Err(e) => {
            return Err(e);
        },
    };
    let ghost sp = engine_proof@;
    let p = Proof::new(SCHEME_ID, engine_proof, commitment);
    let out = p.to_bytes();
    proof {
        assert(sp.len() > 0 && out@ == spec_envelope_bytes(
            SCHEME_ID,
            sp,
            spec_commit_improvement(old_value, new_value),
        ));
    }
    Ok(out)
}

/// Checks a scheme-5 envelope against the public old value: `true`
/// requires a consistent improvement commitment (non-zero difference, no
/// overflow, recorded new value equal to old plus difference) and engine
/// acceptance of the proof for `(old, new)`.
pub fn verify_improvement<E: ZkpBackend>(proof_envelope: Vec<u8>, old_value: u64) -> (r: bool)
    ensures
        r ==> {
            &&& spec_decodable(proof_envelope@)
            &&& proof_envelope@[0] == PROOF_VERSION
            &&& proof_envelope@[1] == SCHEME_ID
            &&& spec_improvement_commitment_ok(spec_commitment_field(proof_envelope@), old_value)
        },
{
    let p = match parse_and_validate_proof(proof_envelope.as_slice(), SCHEME_ID) {
        Ok(p) => p,
        Err(_) => {
            return false;
        },
    };
    let new_value = match validate_improvement_commitment(p.commitment.as_slice(), old_value) {
        Ok(n) => n,
        Err(_) => {
            return false;
        },
    };
    let data = serialize_improvement_params(old_value, new_value);
    E::verify(p.proof.as_slice(), data.as_slice())
}

} // verus!
