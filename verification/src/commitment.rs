//! Deterministic hash commitments binding envelopes to public predicate
//! inputs, and the improvement commitment with its inverse check. These
//! commitments are binding only; hiding comes from the proof payloads.

use vstd::prelude::*;
use vstd::bytes::{spec_u64_from_le_bytes, spec_u64_to_le_bytes, u64_from_le_bytes};
use vstd::slice::slice_subrange;
use crate::errors::{ZkpError, ZkpResult};
use crate::serialization::{push_bytes, push_u64_le, spec_u64s_le};

verus! {

/// The SHA-256 digest of a byte string, as the `sha2` crate computes it.
pub uninterp spec fn sha256_of(data: Seq<u8>) -> Seq<u8>;

/// Relies on sha2::Sha256: the digest is 32 bytes and is determined by the
/// input bytes alone.
#[verifier::external_body]
pub fn sha256(data: &[u8]) -> (r: Vec<u8>)
    ensures
        r@ == sha256_of(data@),
        r@.len() == 32,
{
    let mut hasher = <sha2::Sha256 as sha2::Digest>::new();
    sha2::Digest::update(&mut hasher, data);
    sha2::Digest::finalize(hasher).to_vec()
}

/// Byte-wise equality of two byte strings.
pub fn bytes_eq(a: &[u8], b: &[u8]) -> (r: bool)
    ensures
        r == (a@ == b@),
{
    if a.len() != b.len() {
        proof {
            assert(a@.len() != b@.len());
        }
        return false;
    }
    let mut i: usize = 0;
    while i < a.len()
        invariant
            i <= a@.len(),
            a@.len() == b@.len(),
            forall|j: int| 0 <= j < i ==> a@[j] == b@[j],
        decreases a@.len() - i,
    {
        if *vstd::slice::slice_index_get(a, i) != *vstd::slice::slice_index_get(b, i) {
            proof {
                assert(a@[i as int] != b@[i as int]);
            }
            return false;
        }
        i = i + 1;
    }
    proof {
        assert(a@ =~= b@);
    }
    true
}

/// The hash commitment to a single value: SHA-256 of its 8 LE bytes.
pub open spec fn spec_commit_value(value: u64) -> Seq<u8> {
    sha256_of(spec_u64_to_le_bytes(value))
}

/// Commits to a single value.
pub fn commit_value(value: u64) -> (r: Vec<u8>)
    ensures
        r@ == spec_commit_value(value),
        r@.len() == 32,
{
    let mut data: Vec<u8> = Vec::new();
    push_u64_le(&mut data, value);
    sha256(data.as_slice())
}

/// The hash commitment to a value sequence: SHA-256 of the concatenated
/// LE encodings.
pub open spec fn spec_commit_values(values: Seq<u64>) -> Seq<u8> {
    sha256_of(spec_u64s_le(values))
}

/// Commits to a sequence of values.
pub fn commit_values(values: &[u64]) -> (r: Vec<u8>)
    ensures
        r@ == spec_commit_values(values@),
        r@.len() == 32,
{
    let mut data: Vec<u8> = Vec::new();
    let mut i: usize = 0;
    while i < values.len()
        invariant
            i <= values@.len(),
            data@ == spec_u64s_le(values@.take(i as int)),
        decreases values@.len() - i,
    {
        let v = *vstd::slice::slice_index_get(values, i);
        push_u64_le(&mut data, v);
        proof {
            assert(values@.take(i + 1) =~= values@.take(i as int).push(values@[i as int]));
            crate::serialization::lemma_u64s_le_push(values@.take(i as int), values@[i as int]);
        }
        i = i + 1;
    }
    proof {
        assert(values@.take(values@.len() as int) =~= values@);
    }
    sha256(data.as_slice())
}

/// Commits to a sequence of values prefixed by caller-chosen context bytes.
pub fn commit_with_context(values: &[u64], context: &[u8]) -> (r: Vec<u8>)
    ensures
        r@ == sha256_of(context@ + spec_u64s_le(values@)),
        r@.len() == 32,
{
    let mut data: Vec<u8> = Vec::new();
    push_bytes(&mut data, context);
    let mut i: usize = 0;
    while i < values.len()
        invariant
            i <= values@.len(),
            data@ == context@ + spec_u64s_le(values@.take(i as int)),
        decreases values@.len() - i,
    {
        let v = *vstd::slice::slice_index_get(values, i);
        push_u64_le(&mut data, v);
        proof {
            assert(values@.take(i + 1) =~= values@.take(i as int).push(values@[i as int]));
            crate::serialization::lemma_u64s_le_push(values@.take(i as int), values@[i as int]);
        }
        i = i + 1;
    }
    proof {
        assert(values@.take(values@.len() as int) =~= values@);
    }
    sha256(data.as_slice())
}

/// Checks a commitment against the expected single-value commitment.
pub fn verify_commitment(commitment: &[u8], value: u64) -> (r: bool)
    ensures
        r == (commitment@ == spec_commit_value(value)),
{
    let expected = commit_value(value);
    bytes_eq(commitment, expected.as_slice())
}

/// Checks a commitment against the expected multi-value commitment.
pub fn verify_commitment_values(commitment: &[u8], values: &[u64]) -> (r: bool)
    ensures
        r == (commitment@ == spec_commit_values(values@)),
{
    let expected = commit_values(values);
    bytes_eq(commitment, expected.as_slice())
}

/// The improvement commitment: LE(new - old) followed by LE(new).
pub open spec fn spec_commit_improvement(old_value: u64, new_value: u64) -> Seq<u8>
    recommends
        new_value > old_value,
{
    spec_u64_to_le_bytes((new_value - old_value) as u64) + spec_u64_to_le_bytes(new_value)
}

/// Builds the improvement commitment, rejecting non-improvements.
pub fn commit_improvement(old_value: u64, new_value: u64) -> (r: ZkpResult<Vec<u8>>)
    ensures
        r is Ok <==> new_value > old_value,
        r matches Ok(c) ==> c@ == spec_commit_improvement(old_value, new_value),
{
    if new_value <= old_value {
        return Err(ZkpError::InvalidInput("new value must be greater than old".to_string()));
    }
    let diff = new_value - old_value;
    let mut commitment: Vec<u8> = Vec::new();
    push_u64_le(&mut commitment, diff);
    push_u64_le(&mut commitment, new_value);
    Ok(commitment)
}

/// Reads `(diff, new)` out of an improvement commitment, rejecting blobs of
/// the wrong size or with a zero difference.
pub fn extract_improvement_values(commitment: &[u8]) -> (r: ZkpResult<(u64, u64)>)
    ensures
        r is Ok <==> commitment@.len() == 16 && spec_u64_from_le_bytes(
            commitment@.subrange(0, 8),
        ) != 0,
        r matches Ok(t) ==> {
            &&& t.0 == spec_u64_from_le_bytes(commitment@.subrange(0, 8))
            &&& t.1 == spec_u64_from_le_bytes(commitment@.subrange(8, 16))
            &&& t.0 != 0
        },
{
    if commitment.len() != 16 {
        return Err(ZkpError::InvalidProofFormat(
            "invalid improvement commitment size".to_string(),
        ));
    }
    let diff = u64_from_le_bytes(slice_subrange(commitment, 0, 8));
    let new_value = u64_from_le_bytes(slice_subrange(commitment, 8, 16));
    if diff == 0 {
        return Err(ZkpError::InvalidProofFormat(
            "improvement difference cannot be zero".to_string(),
        ));
    }
    Ok((diff, new_value))
}

/// Whether an improvement commitment is consistent with the given old
/// value: 16 bytes, non-zero difference, no overflow, and the recorded new
/// value equal to old + diff.
pub open spec fn spec_improvement_commitment_ok(commitment: Seq<u8>, old_value: u64) -> bool {
    &&& commitment.len() == 16
    &&& spec_u64_from_le_bytes(commitment.subrange(0, 8)) != 0
    &&& old_value + spec_u64_from_le_bytes(commitment.subrange(0, 8)) <= u64::MAX
    &&& spec_u64_from_le_bytes(commitment.subrange(8, 16)) == old_value + spec_u64_from_le_bytes(
        commitment.subrange(0, 8),
    )
}

/// Recomputes the new value from an improvement commitment and the old
/// value, rejecting any inconsistency; on success the result is strictly
/// greater than the old value.
pub fn validate_improvement_commitment(commitment: &[u8], old_value: u64) -> (r: ZkpResult<u64>)
    ensures
        r is Ok <==> spec_improvement_commitment_ok(commitment@, old_value),
        r matches Ok(n) ==> {
            &&& n == spec_u64_from_le_bytes(commitment@.subrange(8, 16))
            &&& n > old_value
        },
{
    let (diff, new_value) = extract_improvement_values(commitment)?;
    let calculated = match old_value.checked_add(diff) {
        Some(v) => v,
        None => {
            return Err(ZkpError::InvalidProofFormat(
                "integer overflow in improvement calculation".to_string(),
            ));
        },
    };
    if new_value != calculated {
        return Err(ZkpError::InvalidProofFormat(
            "inconsistent improvement values".to_string(),
        ));
    }
    Ok(new_value)
}

} // verus!
