//! The on-wire proof envelope: a version byte, a scheme tag, two
//! little-endian `u32` length fields, then the proof payload and the
//! commitment. Decoding rejects truncated, overlong or oversized blobs.

use vstd::prelude::*;
use vstd::bytes::{spec_u32_from_le_bytes, spec_u32_to_le_bytes, u32_from_le_bytes, u32_to_le_bytes};
use vstd::slice::{slice_subrange, slice_to_vec};
use crate::limits::{MAX_COMMITMENT_BYTES, MAX_PROOF_PAYLOAD_BYTES, MAX_PROOF_TOTAL_BYTES};

verus! {

/// Envelope format version emitted by this library.
pub const PROOF_VERSION: u8 = 1;

/// A decoded proof envelope.
#[derive(Debug, Clone)]
pub struct Proof {
    pub version: u8,
    pub scheme: u8,
    pub proof: Vec<u8>,
    pub commitment: Vec<u8>,
}

/// The byte string that an envelope with the given fields serialises to.
pub open spec fn spec_encode(version: u8, scheme: u8, proof: Seq<u8>, commitment: Seq<u8>) -> Seq<u8> {
    seq![version, scheme]
        + spec_u32_to_le_bytes(proof.len() as u32)
        + spec_u32_to_le_bytes(commitment.len() as u32)
        + proof
        + commitment
}

/// Declared proof-payload length of an encoded envelope.
pub open spec fn spec_proof_len(data: Seq<u8>) -> nat
    recommends
        data.len() >= 10,
{
    spec_u32_from_le_bytes(data.subrange(2, 6)) as nat
}

/// Declared commitment length of an encoded envelope.
pub open spec fn spec_commitment_len(data: Seq<u8>) -> nat
    recommends
        data.len() >= 10,
{
    spec_u32_from_le_bytes(data.subrange(6, 10)) as nat
}

/// The proof-payload bytes of an encoded envelope.
pub open spec fn spec_proof_field(data: Seq<u8>) -> Seq<u8>
    recommends
        spec_decodable(data),
{
    data.subrange(10, 10 + spec_proof_len(data) as int)
}

/// The commitment bytes of an encoded envelope.
pub open spec fn spec_commitment_field(data: Seq<u8>) -> Seq<u8>
    recommends
        spec_decodable(data),
{
    data.subrange(10 + spec_proof_len(data) as int, data.len() as int)
}

/// Whether a byte string is a well-formed envelope within the size limits:
/// at least the 10-byte header, at most 1 MiB in total, declared lengths
/// within their caps, and total length exactly matching the declaration.
pub open spec fn spec_decodable(data: Seq<u8>) -> bool {
    &&& data.len() >= 10
    &&& data.len() <= MAX_PROOF_TOTAL_BYTES
    &&& spec_proof_len(data) <= MAX_PROOF_PAYLOAD_BYTES
    &&& spec_commitment_len(data) <= MAX_COMMITMENT_BYTES
    &&& data.len() == 10 + spec_proof_len(data) + spec_commitment_len(data)
}

impl Proof {
    /// View of an envelope as the byte string `to_bytes` produces: the exact
    /// encoding when both payloads fit a `u32`, and empty otherwise (the
    /// caller treats empty as "refused").
    pub open spec fn spec_to_bytes(&self) -> Seq<u8> {
        if self.proof@.len() > u32::MAX || self.commitment@.len() > u32::MAX {
            Seq::<u8>::empty()
        } else {
            spec_encode(self.version, self.scheme, self.proof@, self.commitment@)
        }
    }

    /// Wraps a payload and commitment under the current envelope version.
    pub fn new(scheme: u8, proof: Vec<u8>, commitment: Vec<u8>) -> (r: Proof)
        ensures
            r.version == PROOF_VERSION,
            r.scheme == scheme,
            r.proof == proof,
            r.commitment == commitment,
    {
        Proof { version: PROOF_VERSION, scheme, proof, commitment }
    }

    /// Serialises the envelope; an empty vector signals a refused encoding.
    pub fn to_bytes(&self) -> (r: Vec<u8>)
        ensures
            r@ == self.spec_to_bytes(),
    {
        if self.proof.len() > u32::MAX as usize || self.commitment.len() > u32::MAX as usize {
            return Vec::new();
        }
        let mut out: Vec<u8> = Vec::new();
        out.push(self.version);
        out.push(self.scheme);
        let mut plen = u32_to_le_bytes(self.proof.len() as u32);
        out.append(&mut plen);
        let mut clen = u32_to_le_bytes(self.commitment.len() as u32);
        out.append(&mut clen);
        let mut pbody = slice_to_vec(self.proof.as_slice());
        out.append(&mut pbody);
        let mut cbody = slice_to_vec(self.commitment.as_slice());
        out.append(&mut cbody);
        proof {
            assert(out@ =~= spec_encode(self.version, self.scheme, self.proof@, self.commitment@));
        }
        out
    }

    /// Parses an envelope, returning `None` exactly on blobs that are not
    /// well-formed encodings within the size limits.
    pub fn from_bytes(data: &[u8]) -> (r: Option<Proof>)
        ensures
            r is Some <==> spec_decodable(data@),
            r matches Some(p) ==> {
                &&& p.version == data@[0]
                &&& p.scheme == data@[1]
                &&& p.proof@ == spec_proof_field(data@)
                &&& p.commitment@ == spec_commitment_field(data@)
                &&& data@ == spec_encode(p.version, p.scheme, p.proof@, p.commitment@)
            },
    {
        if data.len() > MAX_PROOF_TOTAL_BYTES {
            return None;
        }
        if data.len() < 10 {
            return None;
        }
        let version = *vstd::slice::slice_index_get(data, 0);
        let scheme = *vstd::slice::slice_index_get(data, 1);
        let proof_len = u32_from_le_bytes(slice_subrange(data, 2, 6)) as usize;
        let comm_len = u32_from_le_bytes(slice_subrange(data, 6, 10)) as usize;
        if proof_len > MAX_PROOF_PAYLOAD_BYTES || comm_len > MAX_COMMITMENT_BYTES {
            return None;
        }
        if data.len() != 10 + proof_len + comm_len {
            return None;
        }
        let proof = slice_to_vec(slice_subrange(data, 10, 10 + proof_len));
        let commitment = slice_to_vec(slice_subrange(data, 10 + proof_len, data.len()));
        let r = Proof { version, scheme, proof, commitment };
        proof {
            vstd::bytes::lemma_auto_spec_u32_to_from_le_bytes();
            assert(data@ =~= spec_encode(r.version, r.scheme, r.proof@, r.commitment@));
        }
        Some(r)
    }
}

/// Encoding then decoding recovers every field: an encoded envelope whose
/// payloads respect the size limits is decodable, and the header bytes and
/// both body slices of the encoding are exactly the fields that went in.
pub proof fn lemma_envelope_round_trip(version: u8, scheme: u8, proof: Seq<u8>, commitment: Seq<u8>)
    requires
        proof.len() <= MAX_PROOF_PAYLOAD_BYTES,
        commitment.len() <= MAX_COMMITMENT_BYTES,
    ensures
        spec_decodable(spec_encode(version, scheme, proof, commitment)),
        spec_encode(version, scheme, proof, commitment)[0] == version,
        spec_encode(version, scheme, proof, commitment)[1] == scheme,
        spec_proof_len(spec_encode(version, scheme, proof, commitment)) == proof.len(),
        spec_commitment_len(spec_encode(version, scheme, proof, commitment)) == commitment.len(),
        spec_encode(version, scheme, proof, commitment).subrange(10, 10 + proof.len() as int)
            == proof,
        spec_encode(version, scheme, proof, commitment).subrange(
            10 + proof.len() as int,
            spec_encode(version, scheme, proof, commitment).len() as int,
        ) == commitment,
{
    vstd::bytes::lemma_auto_spec_u32_to_from_le_bytes();
    let e = spec_encode(version, scheme, proof, commitment);
    assert(e.subrange(2, 6) =~= spec_u32_to_le_bytes(proof.len() as u32));
    assert(e.subrange(6, 10) =~= spec_u32_to_le_bytes(commitment.len() as u32));
    assert(e.subrange(10, 10 + proof.len() as int) =~= proof);
    assert(e.subrange(10 + proof.len() as int, e.len() as int) =~= commitment);
}

/// Dropping the last byte of a well-formed envelope always breaks decoding:
/// the declared lengths no longer match the total, or the header is gone.
pub proof fn lemma_envelope_truncation(data: Seq<u8>)
    requires
        spec_decodable(data),
    ensures
        !spec_decodable(data.take(data.len() - 1)),
{
    let t = data.take(data.len() - 1);
    if t.len() >= 10 {
        assert(t.subrange(2, 6) =~= data.subrange(2, 6));
        assert(t.subrange(6, 10) =~= data.subrange(6, 10));
    }
}

} // verus!
