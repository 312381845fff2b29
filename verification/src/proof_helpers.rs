//! Shared helpers for the predicate operations: envelope parsing against an
//! expected scheme, and the in-band `"COMMIT:"` framing that separates an
//! engine payload from its commitment bytes.

use vstd::prelude::*;
use vstd::slice::{slice_subrange, slice_to_vec};
use crate::envelope::{
    spec_commitment_field, spec_decodable, spec_encode, spec_proof_field, Proof, PROOF_VERSION,
};
use crate::errors::{ZkpError, ZkpResult};
use crate::serialization::push_bytes;

verus! {

/// The ASCII bytes of the `"COMMIT:"` marker.
pub const COMMIT_MARKER: [u8; 7] = [67u8, 79u8, 77u8, 77u8, 73u8, 84u8, 58u8];

/// The marker byte string as a sequence.
pub open spec fn spec_commit_marker() -> Seq<u8> {
    seq![67u8, 79u8, 77u8, 77u8, 73u8, 84u8, 58u8]
}

/// Whether the marker occurs in `data` starting at position `pos`.
pub open spec fn spec_marker_at(data: Seq<u8>, pos: int) -> bool {
    &&& 0 <= pos
    &&& pos + 7 <= data.len()
    &&& data.subrange(pos, pos + 7) == spec_commit_marker()
}

/// Whether the marker occurs anywhere in `data`.
pub open spec fn spec_has_marker(data: Seq<u8>) -> bool {
    exists|pos: int| spec_marker_at(data, pos)
}

/// The position of the first marker occurrence; meaningful only when one
/// exists.
pub open spec fn spec_first_marker_pos(data: Seq<u8>) -> int {
    choose|pos: int|
        spec_marker_at(data, pos) && forall|q: int| 0 <= q < pos ==> !spec_marker_at(data, q)
}

/// A position that carries the marker with none before it is the first
/// marker position.
pub proof fn lemma_first_marker_pos(data: Seq<u8>, pos: int)
    requires
        spec_marker_at(data, pos),
        forall|q: int| 0 <= q < pos ==> !spec_marker_at(data, q),
    ensures
        spec_first_marker_pos(data) == pos,
{
    let w = spec_first_marker_pos(data);
    assert(spec_marker_at(data, w) && forall|q: int| 0 <= q < w ==> !spec_marker_at(data, q));
    if w < pos {
        assert(!spec_marker_at(data, w));
    }
    if pos < w {
        assert(!spec_marker_at(data, pos));
    }
}

/// Finds the first occurrence of the `"COMMIT:"` marker.
pub fn find_commit_marker(data: &[u8]) -> (r: Option<usize>)
    ensures
        r is Some <==> spec_has_marker(data@),
        r matches Some(pos) ==> spec_marker_at(data@, pos as int) && (forall|q: int|
            0 <= q < pos ==> !spec_marker_at(data@, q)) && pos as int == spec_first_marker_pos(
            data@,
        ),
{
    if data.len() < 7 {
        return None;
    }
    let mut pos: usize = 0;
    while pos <= data.len() - 7
        invariant
            data@.len() >= 7,
            pos <= data@.len() - 7 + 1,
            forall|q: int| 0 <= q < pos ==> !spec_marker_at(data@, q),
        decreases data@.len() - pos,
    {
        let window = slice_subrange(data, pos, pos + 7);
        if crate::commitment::bytes_eq(window, COMMIT_MARKER.as_slice()) {
            proof {
                assert(COMMIT_MARKER@ =~= spec_commit_marker());
                assert(spec_marker_at(data@, pos as int));
                lemma_first_marker_pos(data@, pos as int);
            }
            return Some(pos);
        }
        proof {
            assert(COMMIT_MARKER@ =~= spec_commit_marker());
            assert(!spec_marker_at(data@, pos as int));
        }
        pos = pos + 1;
    }
    proof {
        assert forall|q: int| 0 <= q implies !spec_marker_at(data@, q) by {
            if q + 7 <= data@.len() {
                assert(q < data@.len() - 7 + 1);
            }
        }
    }
    None
}

/// Parses an envelope and checks its version and scheme tag; any failure
/// is an exact, typed rejection.
pub fn parse_and_validate_proof(proof_bytes: &[u8], expected_scheme: u8) -> (r: ZkpResult<Proof>)
    ensures
        r is Ok <==> spec_decodable(proof_bytes@) && proof_bytes@[0] == PROOF_VERSION
            && proof_bytes@[1] == expected_scheme,
        r matches Ok(p) ==> {
            &&& p.version == PROOF_VERSION
            &&& p.scheme == expected_scheme
            &&& p.proof@ == spec_proof_field(proof_bytes@)
            &&& p.commitment@ == spec_commitment_field(proof_bytes@)
            &&& proof_bytes@ == spec_encode(PROOF_VERSION, expected_scheme, p.proof@, p.commitment@)
        },
{
    let parsed = Proof::from_bytes(proof_bytes);
    let p = match parsed {
        Some(p) => p,
        None => {
            return Err(ZkpError::InvalidProofFormat("failed to parse proof".to_string()));
        },
    };
    if p.version != PROOF_VERSION {
        return Err(ZkpError::InvalidProofFormat("unsupported proof version".to_string()));
    }
    if p.scheme != expected_scheme {
        return Err(ZkpError::InvalidProofFormat("wrong proof scheme".to_string()));
    }
    Ok(p)
}

/// Splits an engine output at the first `"COMMIT:"` marker into the proof
/// region before it and the commitment bytes after it; the commitment must
/// be at least 32 bytes.
pub fn extract_bulletproofs_components(backend_proof: &[u8]) -> (r: ZkpResult<(Vec<u8>, Vec<u8>)>)
    ensures
        r is Ok <==> exists|pos: int|
            spec_marker_at(backend_proof@, pos) && (forall|q: int|
                0 <= q < pos ==> !spec_marker_at(backend_proof@, q)) && pos + 39
                <= backend_proof@.len(),
        r matches Ok(t) ==> exists|pos: int|
            {
                &&& spec_marker_at(backend_proof@, pos)
                &&& forall|q: int| 0 <= q < pos ==> !spec_marker_at(backend_proof@, q)
                &&& t.0@ == backend_proof@.take(pos)
                &&& t.1@ == backend_proof@.subrange(pos + 7, backend_proof@.len() as int)
                &&& t.1@.len() >= 32
            },
{
    let commit_pos = match find_commit_marker(backend_proof) {
        Some(pos) => pos,
        None => {
            return Err(ZkpError::InvalidProofFormat("missing commitment marker".to_string()));
        },
    };
    let total = backend_proof.len();
    proof {
        assert(spec_marker_at(backend_proof@, commit_pos as int));
        assert(commit_pos + 7 <= total);
    }
    let commit_start = commit_pos + 7;
    if backend_proof.len() - commit_start < 32 {
        proof {
            assert forall|pos: int|
                spec_marker_at(backend_proof@, pos) && (forall|q: int|
                    0 <= q < pos ==> !spec_marker_at(backend_proof@, q)) implies pos + 39
                > backend_proof@.len() by {
                assert(!spec_marker_at(backend_proof@, pos) || pos >= commit_pos as int);
                assert(pos == commit_pos as int);
            }
        }
        return Err(ZkpError::InvalidProofFormat("invalid commitment size".to_string()));
    }
    let proof_region = slice_to_vec(slice_subrange(backend_proof, 0, commit_pos));
    let commitment = slice_to_vec(slice_subrange(backend_proof, commit_start, backend_proof.len()));
    proof {
        assert(backend_proof@.take(commit_pos as int) =~= backend_proof@.subrange(
            0,
            commit_pos as int,
        ));
    }
    Ok((proof_region, commitment))
}

/// Rebuilds an engine blob from the envelope's proof and commitment
/// fields: proof, marker, commitment.
pub fn reconstruct_bulletproofs_proof(proof_bytes: &[u8], commitment: &[u8]) -> (r: Vec<u8>)
    ensures
        r@ == proof_bytes@ + spec_commit_marker() + commitment@,
{
    let mut out: Vec<u8> = Vec::new();
    push_bytes(&mut out, proof_bytes);
    push_bytes(&mut out, COMMIT_MARKER.as_slice());
    push_bytes(&mut out, commitment);
    proof {
        assert(COMMIT_MARKER@ =~= spec_commit_marker());
        assert(out@ =~= proof_bytes@ + spec_commit_marker() + commitment@);
    }
    out
}

/// The serialised envelope carrying the given scheme and components.
pub open spec fn spec_envelope_bytes(scheme_id: u8, proof: Seq<u8>, commitment: Seq<u8>) -> Seq<u8> {
    if proof.len() > u32::MAX || commitment.len() > u32::MAX {
        Seq::<u8>::empty()
    } else {
        spec_encode(PROOF_VERSION, scheme_id, proof, commitment)
    }
}

/// Frames proof and commitment bytes as a serialised envelope.
pub fn create_proof(scheme_id: u8, proof_bytes: Vec<u8>, commitment: Vec<u8>) -> (r: ZkpResult<
    Vec<u8>,
>)
    ensures
        r is Ok,
        r matches Ok(v) ==> v@ == spec_envelope_bytes(scheme_id, proof_bytes@, commitment@),
{
    let p = Proof::new(scheme_id, proof_bytes, commitment);
    Ok(p.to_bytes())
}

/// Validates the standard 32-byte commitment size.
pub fn validate_standard_commitment(commitment: &[u8]) -> (r: ZkpResult<()>)
    ensures
        r is Ok <==> commitment@.len() == 32,
{
    if commitment.len() != 32 {
        return Err(ZkpError::InvalidProofFormat("invalid commitment size".to_string()));
    }
    Ok(())
}

} // verus!
