//! The equality predicate: prove and check that two secret values are
//! equal, under scheme tag 2. The zero-knowledge engine is supplied as a
//! type parameter; the engine receives the two values and the hash
//! commitment as one 48-byte parameter blob.

use vstd::prelude::*;
use vstd::bytes::spec_u64_to_le_bytes;
use crate::backend::ZkpBackend;
use crate::commitment::{bytes_eq, commit_value, spec_commit_value};
use crate::envelope::{spec_commitment_field, spec_decodable, PROOF_VERSION, Proof};
use crate::errors::{ZkpError, ZkpResult};
use crate::proof_helpers::{parse_and_validate_proof, spec_envelope_bytes, validate_standard_commitment};
use crate::serialization::{push_bytes, push_u64_le};
use crate::validation::validate_equality_params;

verus! {

pub const SCHEME_ID: u8 = 2;

/// The parameter blob handed to an equality engine: both values in LE
/// form, then the 32-byte commitment to the first.
pub open spec fn spec_equality_blob(val1: u64, val2: u64) -> Seq<u8> {
    spec_u64_to_le_bytes(val1) + spec_u64_to_le_bytes(val2) + spec_commit_value(val1)
}

/// Builds the equality engine blob.
pub fn equality_blob(val1: u64, val2: u64) -> (r: Vec<u8>)
    ensures
        r@ == spec_equality_blob(val1, val2),
{
    let commitment = commit_value(val1);
    let mut data: Vec<u8> = Vec::new();
    push_u64_le(&mut data, val1);
    push_u64_le(&mut data, val2);
    push_bytes(&mut data, commitment.as_slice());
    data
}

/// Proves equality of two values through the engine `E`; unequal inputs
/// are rejected before the engine runs.
pub fn prove_equality<E: ZkpBackend>(val1: u64, val2: u64) -> (r: ZkpResult<Vec<u8>>)
    ensures
        r is Ok ==> val1 == val2,
        val1 != val2 ==> r is Err,
        r matches Ok(v) ==> exists|sp: Seq<u8>|
            #![auto]
            sp.len() > 0 && v@ == spec_envelope_bytes(SCHEME_ID, sp, spec_commit_value(val1)),
{
    validate_equality_params(val1, val2)?;
    let commitment = commit_value(val1);
    let data = equality_blob(val1, val2);
    let engine_proof = E::prove(data.as_slice());
    if engine_proof.len() == 0 {
        return Err(ZkpError::ProofGenerationFailed("engine proof generation failed".to_string()));
    }
    let ghost sp = engine_proof@;
    let p = Proof::new(SCHEME_ID, engine_proof, commitment);
    let out = p.to_bytes();
    proof {
        assert(sp.len() > 0 && out@ == spec_envelope_bytes(SCHEME_ID, sp, spec_commit_value(val1)));
    }
    Ok(out)
}

/// Checks a scheme-2 envelope against the claimed pair: `true` requires
/// equal claims, an envelope commitment equal to the commitment of the
/// claimed value, and engine acceptance.
pub fn verify_equality<E: ZkpBackend>(proof_envelope: Vec<u8>, val1: u64, val2: u64) -> (r: bool)
    ensures
        r ==> {
            &&& val1 == val2
            &&& spec_decodable(proof_envelope@)
            &&& proof_envelope@[0] == PROOF_VERSION
            &&& proof_envelope@[1] == SCHEME_ID
            &&& spec_commitment_field(proof_envelope@) == spec_commit_value(val1)
        },
{
    let p = match parse_and_validate_proof(proof_envelope.as_slice(), SCHEME_ID) {
        Ok(p) => p,
        Err(_) => {
            return false;
        },
    };
    if val1 != val2 {
        return false;
    }
    let expected_commitment = commit_value(val1);
    if !bytes_eq(p.commitment.as_slice(), expected_commitment.as_slice()) {
        return false;
    }
    E::verify(p.proof.as_slice(), expected_commitment.as_slice())
}

/// Checks a scheme-2 envelope against a caller-supplied commitment
/// instead of the claimed values.
pub fn verify_equality_with_commitment<E: ZkpBackend>(
    proof_envelope: Vec<u8>,
    expected_commitment: Vec<u8>,
) -> (r: bool)
    ensures
        r ==> {
            &&& spec_decodable(proof_envelope@)
            &&& proof_envelope@[0] == PROOF_VERSION
            &&& proof_envelope@[1] == SCHEME_ID
            &&& expected_commitment@.len() == 32
            &&& spec_commitment_field(proof_envelope@) == expected_commitment@
        },
{
    let p = match parse_and_validate_proof(proof_envelope.as_slice(), SCHEME_ID) {
        Ok(p) => p,
        Err(_) => {
            return false;
        },
    };
    if validate_standard_commitment(expected_commitment.as_slice()).is_err() {
        return false;
    }
    if !bytes_eq(p.commitment.as_slice(), expected_commitment.as_slice()) {
        return false;
    }
    E::verify(p.proof.as_slice(), expected_commitment.as_slice())
}

} // verus!
