//! The temporal-membership predicate under scheme tag 7: prove and check
//! that a 32-byte temporal code belongs to a public set, through an
//! engine supplied as a type parameter. The envelope embeds the
//! length-prefixed set before the engine proof and deliberately carries
//! no public commitment, to avoid linkability across envelopes.

use vstd::prelude::*;
use vstd::bytes::{spec_u32_from_le_bytes, spec_u64_from_le_bytes, u32_from_le_bytes, u64_from_le_bytes};
use vstd::slice::slice_subrange;
use crate::backend::ZkpBackend;
use crate::bulletproofs_backend::spec_embedded_set;
use crate::envelope::{spec_commitment_field, spec_decodable, spec_proof_field, PROOF_VERSION, Proof};
use crate::errors::{ZkpError, ZkpResult};
use crate::proof_helpers::{parse_and_validate_proof, spec_envelope_bytes};
use crate::serialization::{push_bytes, serialize_u64_vec, spec_serialize_u64_vec};
use crate::set_membership::{same_multiset, spec_same_multiset, MAX_SET_SIZE};

verus! {

pub const SCHEME_ID: u8 = 7;

/// Proves membership of a 32-byte code in a bounded set through the
/// engine `E`, which receives `code ‖ set`; the envelope payload embeds
/// the length-prefixed set before the engine proof and no commitment.
pub fn prove_temporal_membership<E: ZkpBackend>(code: Vec<u8>, set: Vec<u64>) -> (r: ZkpResult<
    Vec<u8>,
>)
    ensures
        r is Ok ==> code@.len() == 32 && 1 <= set@.len() <= MAX_SET_SIZE,
        code@.len() != 32 ==> r is Err,
        set@.len() == 0 ==> r is Err,
        r matches Ok(v) ==> exists|sp: Seq<u8>|
            #![auto]
            sp.len() > 0 && v@ == spec_envelope_bytes(
                SCHEME_ID,
                spec_serialize_u64_vec(set@) + sp,
                Seq::<u8>::empty(),
            ),
{
    if code.len() != 32 {
        return Err(ZkpError::InvalidInput("code must be 32 bytes".to_string()));
    }
    if set.len() == 0 {
        return Err(ZkpError::InvalidInput("set cannot be empty".to_string()));
    }
    if set.len() > MAX_SET_SIZE {
        return Err(ZkpError::InvalidInput("set too large".to_string()));
    }
    let mut data: Vec<u8> = Vec::new();
    push_bytes(&mut data, code.as_slice());
    let mut set_bytes = serialize_u64_vec(set.as_slice());
    data.append(&mut set_bytes);
    let engine_proof = E::prove(data.as_slice());
    if engine_proof.len() == 0 {
        return Err(ZkpError::ProofGenerationFailed("engine proof generation failed".to_string()));
    }
    let ghost sp = engine_proof@;
    let mut payload = serialize_u64_vec(set.as_slice());
    push_bytes(&mut payload, engine_proof.as_slice());
    let p = Proof::new(SCHEME_ID, payload, Vec::new());
    let out = p.to_bytes();
    proof {
        assert(sp.len() > 0 && out@ == spec_envelope_bytes(
            SCHEME_ID,
            spec_serialize_u64_vec(set@) + sp,
            Seq::<u8>::empty(),
        ));
    }
    Ok(out)
}

/// Checks a scheme-7 envelope against a public set: `true` requires an
/// empty commitment, a bounded embedded set equal to the argument as a
/// multiset, and engine acceptance of the proof for the embedded set.
pub fn verify_temporal_membership<E: ZkpBackend>(proof_envelope: Vec<u8>, set: Vec<u64>) -> (r:
    bool)
    ensures
        r ==> {
            &&& spec_decodable(proof_envelope@)
            &&& proof_envelope@[0] == PROOF_VERSION
            &&& proof_envelope@[1] == SCHEME_ID
            &&& spec_commitment_field(proof_envelope@).len() == 0
            &&& spec_proof_field(proof_envelope@).len() >= 4
            &&& {
                let pf = spec_proof_field(proof_envelope@);
                let n = spec_u32_from_le_bytes(pf.subrange(0, 4)) as int;
                &&& 1 <= n <= MAX_SET_SIZE
                &&& n == set@.len()
                &&& pf.len() > 4 + 8 * n
                &&& spec_same_multiset(spec_embedded_set(pf, n), set@)
            }
        },
{
    let p = match parse_and_validate_proof(proof_envelope.as_slice(), SCHEME_ID) {
        Ok(p) => p,
        Err(_) => {
            return false;
        },
    };
    // The commitment is intentionally empty for this scheme.
    if p.commitment.len() != 0 {
        return false;
    }
    let payload = p.proof.as_slice();
    if payload.len() < 4 {
        return false;
    }
    let set_size = u32_from_le_bytes(slice_subrange(payload, 0, 4)) as usize;
    if set_size == 0 || set_size > MAX_SET_SIZE {
        return false;
    }
    if set_size != set.len() {
        return false;
    }
    if payload.len() <= 4 + 8 * set_size {
        return false;
    }
    let mut embedded: Vec<u64> = Vec::new();
    let mut i: usize = 0;
    while i < set_size
        invariant
            i <= set_size,
            set_size <= MAX_SET_SIZE,
            4 + 8 * set_size < payload@.len(),
            embedded@.len() == i,
            forall|q: int| 0 <= q < i ==> embedded@[q] == spec_u64_from_le_bytes(
                #[trigger] payload@.subrange(4 + 8 * q, 12 + 8 * q),
            ),
        decreases set_size - i,
    {
        let v = u64_from_le_bytes(slice_subrange(payload, 4 + 8 * i, 12 + 8 * i));
        embedded.push(v);
        i = i + 1;
    }
    if !same_multiset(embedded.as_slice(), set.as_slice()) {
        return false;
    }
    let engine_bytes = slice_subrange(payload, 4 + 8 * set_size, payload.len());
    let data = serialize_u64_vec(embedded.as_slice());
    let ok = E::verify(engine_bytes, data.as_slice());
    proof {
        if ok {
            let pf = spec_proof_field(proof_envelope@);
            assert forall|q: int| 0 <= q < set_size implies spec_embedded_set(pf, set_size as int)[q]
                == embedded@[q] by {
                assert(pf.subrange(4 + 8 * q, 12 + 8 * q) == payload@.subrange(
                    4 + 8 * q,
                    12 + 8 * q,
                ));
            }
            assert(spec_embedded_set(pf, set_size as int) =~= embedded@);
        }
    }
    ok
}

} // verus!
