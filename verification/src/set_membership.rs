//! The set-membership predicate under scheme tag 4: prove and check that
//! a secret value belongs to a public set. The engine is supplied as a
//! type parameter; the set is embedded, length-prefixed, at the head of
//! the envelope payload so that a verifier can rebuild the exact public
//! inputs the prover used. The verifier compares the public set with the
//! embedded set as multisets, so element order never matters.

use vstd::prelude::*;
use vstd::bytes::{spec_u32_from_le_bytes, spec_u64_from_le_bytes, u32_from_le_bytes, u64_from_le_bytes};
use vstd::slice::slice_subrange;
use crate::backend::ZkpBackend;
use crate::bulletproofs_backend::spec_embedded_set;
use crate::commitment::{commit_value, spec_commit_value};
use crate::envelope::{
    spec_commitment_field, spec_decodable, spec_proof_field, PROOF_VERSION, Proof,
};
use crate::errors::{ZkpError, ZkpResult};
use crate::proof_helpers::{
    parse_and_validate_proof, spec_envelope_bytes, validate_standard_commitment,
};
use crate::serialization::{
    push_bytes, serialize_membership_params, serialize_u64_vec, spec_serialize_u64_vec,
};

verus! {

pub const SCHEME_ID: u8 = 4;

/// The largest set a membership engine must accommodate.
pub const MAX_SET_SIZE: usize = 64;

/// How many times `x` occurs in `s`.
pub open spec fn spec_count(s: Seq<u64>, x: u64) -> nat
    decreases s.len(),
{
    if s.len() == 0 {
        0
    } else {
        (if s[0] == x {
            1nat
        } else {
            0nat
        }) + spec_count(s.drop_first(), x)
    }
}

pub proof fn lemma_count_push(s: Seq<u64>, x: u64, y: u64)
    ensures
        spec_count(s.push(y), x) == spec_count(s, x) + (if y == x {
            1nat
        } else {
            0nat
        }),
    decreases s.len(),
{
    let p = s.push(y);
    if s.len() == 0 {
        assert(p[0] == y);
        assert(p.drop_first() =~= Seq::<u64>::empty());
        assert(spec_count(p, x) == (if y == x {
            1nat
        } else {
            0nat
        }) + spec_count(p.drop_first(), x));
        assert(spec_count(p.drop_first(), x) == 0);
        assert(spec_count(s, x) == 0);
    } else {
        assert(p[0] == s[0]);
        assert(p.drop_first() =~= s.drop_first().push(y));
        lemma_count_push(s.drop_first(), x, y);
        assert(spec_count(p, x) == (if s[0] == x {
            1nat
        } else {
            0nat
        }) + spec_count(s.drop_first().push(y), x));
    }
}

pub proof fn lemma_count_zero(s: Seq<u64>, x: u64)
    ensures
        spec_count(s, x) == 0 <==> !s.contains(x),
    decreases s.len(),
{
    if s.len() > 0 {
        lemma_count_zero(s.drop_first(), x);
        if s[0] != x && !s.drop_first().contains(x) {
            assert forall|i: int| 0 <= i < s.len() implies s[i] != x by {
                if i > 0 {
                    assert(s.drop_first()[i - 1] == s[i]);
                }
            }
        }
        if s.contains(x) {
            let i = choose|i: int| 0 <= i < s.len() && s[i] == x;
            if i > 0 {
                assert(s.drop_first()[i - 1] == x);
            }
        }
    }
}

/// Whether two value lists are equal as multisets.
pub open spec fn spec_same_multiset(a: Seq<u64>, b: Seq<u64>) -> bool {
    forall|x: u64| spec_count(a, x) == spec_count(b, x)
}

/// Counts the occurrences of `x` in `s`.
pub fn count_occurrences(s: &[u64], x: u64) -> (r: usize)
    ensures
        r == spec_count(s@, x),
{
    let mut count: usize = 0;
    let mut i: usize = 0;
    while i < s.len()
        invariant
            i <= s@.len(),
            count == spec_count(s@.take(i as int), x),
            count <= i,
        decreases s@.len() - i,
    {
        proof {
            assert(s@.take(i + 1) =~= s@.take(i as int).push(s@[i as int]));
            lemma_count_push(s@.take(i as int), x, s@[i as int]);
        }
        if *vstd::slice::slice_index_get(s, i) == x {
            count = count + 1;
        }
        i = i + 1;
    }
    proof {
        assert(s@.take(s@.len() as int) =~= s@);
    }
    count
}

/// Whether two value lists hold the same elements with the same
/// multiplicities.
pub fn same_multiset(a: &[u64], b: &[u64]) -> (r: bool)
    ensures
        r == (a@.len() == b@.len() && spec_same_multiset(a@, b@)),
{
    if a.len() != b.len() {
        proof {
            assert(a@.len() != b@.len());
        }
        return false;
    }
    let mut i: usize = 0;
    while i < a.len()
        invariant
            i <= a@.len(),
            a@.len() == b@.len(),
            forall|j: int| 0 <= j < i ==> spec_count(a@, #[trigger] a@[j]) == spec_count(
                b@,
                a@[j],
            ),
        decreases a@.len() - i,
    {
        let x = *vstd::slice::slice_index_get(a, i);
        if count_occurrences(a, x) != count_occurrences(b, x) {
            proof {
                assert(spec_count(a@, a@[i as int]) != spec_count(b@, a@[i as int]));
            }
            return false;
        }
        i = i + 1;
    }
    let mut j: usize = 0;
    while j < b.len()
        invariant
            j <= b@.len(),
            a@.len() == b@.len(),
            forall|q: int| 0 <= q < a@.len() ==> spec_count(a@, #[trigger] a@[q]) == spec_count(
                b@,
                a@[q],
            ),
            forall|q: int| 0 <= q < j ==> spec_count(a@, #[trigger] b@[q]) == spec_count(
                b@,
                b@[q],
            ),
        decreases b@.len() - j,
    {
        let x = *vstd::slice::slice_index_get(b, j);
        if count_occurrences(a, x) != count_occurrences(b, x) {
            proof {
                assert(spec_count(a@, b@[j as int]) != spec_count(b@, b@[j as int]));
            }
            return false;
        }
        j = j + 1;
    }
    proof {
        assert forall|x: u64| spec_count(a@, x) == spec_count(b@, x) by {
            lemma_count_zero(a@, x);
            lemma_count_zero(b@, x);
            if a@.contains(x) {
                let q = choose|q: int| 0 <= q < a@.len() && a@[q] == x;
                assert(spec_count(a@, a@[q]) == spec_count(b@, a@[q]));
            } else if b@.contains(x) {
                let q = choose|q: int| 0 <= q < b@.len() && b@[q] == x;
                assert(spec_count(a@, b@[q]) == spec_count(b@, b@[q]));
            }
        }
    }
    true
}

/// Proves membership of `value` in `set` through the engine `E`, which
/// receives `value ‖ set ‖ commitment`; the envelope payload embeds the
/// length-prefixed set before the engine proof.
pub fn prove_membership<E: ZkpBackend>(value: u64, set: Vec<u64>) -> (r: ZkpResult<Vec<u8>>)
    ensures
        set@.len() == 0 ==> r is Err,
        r is Ok ==> set@.len() > 0,
        r matches Ok(v) ==> exists|sp: Seq<u8>|
            #![auto]
            sp.len() > 0 && v@ == spec_envelope_bytes(
                SCHEME_ID,
                spec_serialize_u64_vec(set@) + sp,
                spec_commit_value(value),
            ),
{
    if set.len() == 0 {
        return Err(ZkpError::InvalidInput("set cannot be empty".to_string()));
    }
    if set.len() > u32::MAX as usize {
        return Err(ZkpError::InvalidInput("set too large".to_string()));
    }
    let commitment = commit_value(value);
    let mut data = serialize_membership_params(value, set.as_slice());
    push_bytes(&mut data, commitment.as_slice());
    let engine_proof = E::prove(data.as_slice());
    if engine_proof.len() == 0 {
        return Err(ZkpError::ProofGenerationFailed("engine proof generation failed".to_string()));
    }
    let ghost sp = engine_proof@;
    let mut payload = serialize_u64_vec(set.as_slice());
    push_bytes(&mut payload, engine_proof.as_slice());
    let p = Proof::new(SCHEME_ID, payload, commitment);
    let out = p.to_bytes();
    proof {
        assert(sp.len() > 0 && out@ == spec_envelope_bytes(
            SCHEME_ID,
            spec_serialize_u64_vec(set@) + sp,
            spec_commit_value(value),
        ));
    }
    Ok(out)
}

/// Checks a scheme-4 envelope against a public set: `true` requires the
/// embedded set to equal the argument as a multiset, and engine
/// acceptance of the proof for the embedded set and commitment.
pub fn verify_membership<E: ZkpBackend>(proof_envelope: Vec<u8>, set: Vec<u64>) -> (r: bool)
    ensures
        r ==> {
            &&& spec_decodable(proof_envelope@)
            &&& proof_envelope@[0] == PROOF_VERSION
            &&& proof_envelope@[1] == SCHEME_ID
            &&& spec_commitment_field(proof_envelope@).len() == 32
            &&& spec_proof_field(proof_envelope@).len() >= 4
            &&& {
                let pf = spec_proof_field(proof_envelope@);
                let n = spec_u32_from_le_bytes(pf.subrange(0, 4)) as int;
                &&& n == set@.len()
                &&& pf.len() > 4 + 8 * n
                &&& spec_same_multiset(spec_embedded_set(pf, n), set@)
            }
        },
{
    let p = match parse_and_validate_proof(proof_envelope.as_slice(), SCHEME_ID) {
        Ok(p) => p,
        Err(_) => {
            return false;
        },
    };
    if validate_standard_commitment(p.commitment.as_slice()).is_err() {
        return false;
    }
    let payload = p.proof.as_slice();
    if payload.len() < 4 {
        return false;
    }
    let set_size = u32_from_le_bytes(slice_subrange(payload, 0, 4)) as usize;
    if set_size != set.len() {
        return false;
    }
    if set_size > 268435455usize {
        return false;
    }
    if payload.len() <= 4 + 8 * set_size {
        return false;
    }
    let mut embedded: Vec<u64> = Vec::new();
    let mut i: usize = 0;
    while i < set_size
        invariant
            i <= set_size,
            set_size <= 268435455usize,
            4 + 8 * set_size < payload@.len(),
            embedded@.len() == i,
            forall|q: int| 0 <= q < i ==> embedded@[q] == spec_u64_from_le_bytes(
                #[trigger] payload@.subrange(4 + 8 * q, 12 + 8 * q),
            ),
        decreases set_size - i,
    {
        let v = u64_from_le_bytes(slice_subrange(payload, 4 + 8 * i, 12 + 8 * i));
        embedded.push(v);
        i = i + 1;
    }
    if !same_multiset(embedded.as_slice(), set.as_slice()) {
        return false;
    }
    let engine_bytes = slice_subrange(payload, 4 + 8 * set_size, payload.len());
    // Hand the engine the embedded set and the envelope commitment, so
    // verification is self-contained.
    let mut data: Vec<u8> = Vec::new();
    push_bytes(&mut data, p.commitment.as_slice());
    let mut set_bytes = serialize_u64_vec(embedded.as_slice());
    data.append(&mut set_bytes);
    let ok = E::verify(engine_bytes, data.as_slice());
    proof {
        if ok {
            let pf = spec_proof_field(proof_envelope@);
            assert forall|q: int| 0 <= q < set_size implies spec_embedded_set(pf, set_size as int)[q]
                == embedded@[q] by {
                assert(pf.subrange(4 + 8 * q, 12 + 8 * q) == payload@.subrange(
                    4 + 8 * q,
                    12 + 8 * q,
                ));
            }
            assert(spec_embedded_set(pf, set_size as int) =~= embedded@);
        }
    }
    ok
}

} // verus!
