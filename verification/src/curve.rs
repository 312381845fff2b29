//! Trusted bindings to the Ristretto group, Pedersen commitments, merlin
//! transcripts and the bulletproofs range-proof system. Most items wrap a
//! single function of an outside crate; the few that compose several calls
//! (`bp_verify`, `linked_diff`, `point_diff`) exist so that their
//! deterministic results can be named and spoken of exactly in the
//! verified engine's contracts, and hold no decision of the library's own.

use vstd::prelude::*;
use bulletproofs::{BulletproofGens, PedersenGens, RangeProof};
use curve25519_dalek::ristretto::{CompressedRistretto, RistrettoPoint};
use curve25519_dalek::scalar::Scalar;
use merlin::Transcript;
use rand::RngCore;

verus! {

#[verifier::external_type_specification]
#[verifier::external_body]
pub struct ExScalar(Scalar);

#[verifier::external_type_specification]
#[verifier::external_body]
pub struct ExRistrettoPoint(RistrettoPoint);

#[verifier::external_type_specification]
#[verifier::external_body]
pub struct ExCompressedRistretto(CompressedRistretto);

#[verifier::external_type_specification]
#[verifier::external_body]
pub struct ExTranscript(Transcript);

#[verifier::external_type_specification]
#[verifier::external_body]
pub struct ExRangeProof(RangeProof);

#[verifier::external_type_specification]
#[verifier::external_body]
pub struct ExPedersenGens(PedersenGens);

#[verifier::external_type_specification]
#[verifier::external_body]
pub struct ExBulletproofGens(BulletproofGens);

/// Relies on rand::rngs::OsRng::fill_bytes: 32 bytes from the operating
/// system generator; nothing is assumed of their values.
#[verifier::external_body]
pub fn random_blinding_bytes() -> (r: Vec<u8>)
    ensures
        r@.len() == 32,
{
    let mut bytes = [0u8; 32];
    rand::rngs::OsRng.fill_bytes(&mut bytes);
    bytes.to_vec()
}

/// Relies on curve25519_dalek Scalar::from_bytes_mod_order.
#[verifier::external_body]
pub fn scalar_from_bytes_mod_order(bytes: &[u8]) -> Scalar
    requires
        bytes@.len() == 32,
{
    let mut arr = [0u8; 32];
    arr.copy_from_slice(bytes);
    Scalar::from_bytes_mod_order(arr)
}

/// Relies on curve25519_dalek Scalar::from::<u64>.
#[verifier::external_body]
pub fn scalar_from_u64(v: u64) -> Scalar {
    Scalar::from(v)
}

/// Relies on curve25519_dalek Scalar::from_canonical_bytes: `Some` exactly
/// when the 32 bytes are a canonical scalar encoding.
#[verifier::external_body]
pub fn scalar_from_canonical(bytes: &[u8]) -> Option<Scalar>
    requires
        bytes@.len() == 32,
{
    let mut arr = [0u8; 32];
    arr.copy_from_slice(bytes);
    Option::<Scalar>::from(Scalar::from_canonical_bytes(arr))
}

/// Relies on curve25519_dalek Scalar::to_bytes: the canonical 32-byte
/// encoding.
#[verifier::external_body]
pub fn scalar_to_bytes(s: &Scalar) -> (r: Vec<u8>)
    ensures
        r@.len() == 32,
{
    s.to_bytes().to_vec()
}

/// Relies on curve25519_dalek scalar addition.
#[verifier::external_body]
pub fn scalar_add(a: &Scalar, b: &Scalar) -> Scalar {
    a + b
}

/// Relies on curve25519_dalek scalar subtraction.
#[verifier::external_body]
pub fn scalar_sub(a: &Scalar, b: &Scalar) -> Scalar {
    a - b
}

/// Relies on curve25519_dalek scalar multiplication.
#[verifier::external_body]
pub fn scalar_mul(a: &Scalar, b: &Scalar) -> Scalar {
    a * b
}

/// Relies on curve25519_dalek scalar negation.
#[verifier::external_body]
pub fn scalar_neg(a: &Scalar) -> Scalar {
    -a
}

/// Relies on bulletproofs PedersenGens::default: the standard basepoints.
#[verifier::external_body]
pub fn pedersen_default() -> PedersenGens {
    PedersenGens::default()
}

/// Relies on bulletproofs PedersenGens::commit: value * B + blinding * B_b.
#[verifier::external_body]
pub fn pedersen_commit(gens: &PedersenGens, value: &Scalar, blinding: &Scalar) -> RistrettoPoint {
    gens.commit(*value, *blinding)
}

/// Relies on bulletproofs BulletproofGens::new.
#[verifier::external_body]
pub fn bp_gens_new(gens_capacity: usize, party_capacity: usize) -> BulletproofGens {
    BulletproofGens::new(gens_capacity, party_capacity)
}

/// Relies on curve25519_dalek Ristretto point addition.
#[verifier::external_body]
pub fn point_add(a: &RistrettoPoint, b: &RistrettoPoint) -> RistrettoPoint {
    a + b
}

/// Relies on curve25519_dalek scalar-point multiplication.
#[verifier::external_body]
pub fn point_scalar_mul(s: &Scalar, p: &RistrettoPoint) -> RistrettoPoint {
    s * p
}

/// Relies on curve25519_dalek RistrettoPoint::eq (group-element equality).
#[verifier::external_body]
pub fn point_eq(a: &RistrettoPoint, b: &RistrettoPoint) -> bool {
    a == b
}

/// Relies on curve25519_dalek RistrettoPoint::compress.
#[verifier::external_body]
pub fn point_compress(p: &RistrettoPoint) -> CompressedRistretto {
    p.compress()
}

/// Relies on curve25519_dalek CompressedRistretto::as_bytes: the 32-byte
/// wire form.
#[verifier::external_body]
pub fn compressed_bytes(c: &CompressedRistretto) -> (r: Vec<u8>)
    ensures
        r@.len() == 32,
{
    c.as_bytes().to_vec()
}

/// Relies on curve25519_dalek CompressedRistretto::from_slice: `Some`
/// exactly on 32-byte inputs.
#[verifier::external_body]
pub fn compressed_from_slice(bytes: &[u8]) -> (r: Option<CompressedRistretto>)
    ensures
        r is Some <==> bytes@.len() == 32,
{
    CompressedRistretto::from_slice(bytes).ok()
}

/// Relies on curve25519_dalek CompressedRistretto::decompress: `Some`
/// exactly when the bytes name a valid group element.
#[verifier::external_body]
pub fn point_decompress(c: &CompressedRistretto) -> Option<RistrettoPoint> {
    c.decompress()
}

/// Relies on merlin Transcript::new.
#[verifier::external_body]
pub fn transcript_new(label: &'static [u8]) -> Transcript {
    Transcript::new(label)
}

/// Relies on merlin Transcript::append_message; merlin asserts that the
/// message length fits a `u32`, so longer messages are ruled out here.
#[verifier::external_body]
pub fn transcript_append_message(t: &mut Transcript, label: &'static [u8], message: &[u8])
    requires
        message@.len() <= u32::MAX,
{
    t.append_message(label, message);
}

/// Relies on merlin Transcript::append_u64.
#[verifier::external_body]
pub fn transcript_append_u64(t: &mut Transcript, label: &'static [u8], x: u64) {
    t.append_u64(label, x);
}

/// Relies on merlin Transcript::challenge_bytes: 32 challenge bytes drawn
/// from the transcript state.
#[verifier::external_body]
pub fn transcript_challenge_32(t: &mut Transcript, label: &'static [u8]) -> (r: Vec<u8>)
    ensures
        r@.len() == 32,
{
    let mut buf = [0u8; 32];
    t.challenge_bytes(label, &mut buf);
    buf.to_vec()
}

/// Relies on bulletproofs RangeProof::prove_single: on success, a range
/// proof and the compressed Pedersen commitment to `(v, blinding)`.
#[verifier::external_body]
pub fn rangeproof_prove_single(
    bp_gens: &BulletproofGens,
    pc_gens: &PedersenGens,
    transcript: &mut Transcript,
    v: u64,
    blinding: &Scalar,
    n: usize,
) -> Option<(RangeProof, CompressedRistretto)> {
    RangeProof::prove_single(bp_gens, pc_gens, transcript, v, blinding, n).ok()
}

/// Relies on bulletproofs RangeProof::to_bytes.
#[verifier::external_body]
pub fn rangeproof_to_bytes(rp: &RangeProof) -> Vec<u8> {
    rp.to_bytes()
}

/// Whether a serialised range proof verifies for a 32-byte commitment
/// under a fresh transcript for the label, with the verifier's batching
/// scalar derived from the SHA-256 of the inputs; a function of the
/// arguments alone.
pub uninterp spec fn bp_verify_of(
    proof_bytes: Seq<u8>,
    commitment: Seq<u8>,
    label: Seq<u8>,
    n_bits: int,
) -> bool;

/// Relies on bulletproofs RangeProof::{from_bytes, verify_single_with_rng}
/// under a fresh transcript for the label. Parse failures reject, and the
/// batching scalar comes from a generator seeded with the SHA-256 of the
/// inputs, so the outcome is the deterministic `bp_verify_of`.
#[verifier::external_body]
pub fn bp_verify(proof_bytes: &[u8], commitment: &[u8], label: &'static [u8], n_bits: usize) -> (r:
    bool)
    requires
        commitment@.len() == 32,
    ensures
        r == bp_verify_of(proof_bytes@, commitment@, label@, n_bits as int),
{
    let Ok(rp) = RangeProof::from_bytes(proof_bytes) else { return false };
    let Ok(commit) = CompressedRistretto::from_slice(commitment) else { return false };
    let mut h = <sha2::Sha256 as sha2::Digest>::new_with_prefix(label);
    sha2::Digest::update(&mut h, proof_bytes);
    sha2::Digest::update(&mut h, commitment);
    let seed: [u8; 32] = sha2::Digest::finalize(h).into();
    let mut rng = <rand::rngs::StdRng as rand::SeedableRng>::from_seed(seed);
    let mut t = Transcript::new(label);
    let gens = BulletproofGens::new(n_bits, 1);
    rp.verify_single_with_rng(&gens, &PedersenGens::default(), &mut t, &commit, n_bits, &mut rng).is_ok()
}

/// The compressed bytes of `C - v*B` (or `v*B - C` when negated), for a
/// 32-byte commitment `C` and the Pedersen value basepoint `B`; absent
/// exactly when the commitment fails to decompress.
pub uninterp spec fn linked_diff_of(commitment: Seq<u8>, value: u64, negate: bool) -> Option<
    Seq<u8>,
>;

/// Relies on curve25519-dalek decompression, basepoint scalar
/// multiplication, point subtraction and compression, composed as the
/// deterministic `linked_diff_of`.
#[verifier::external_body]
pub fn linked_diff(commitment: &[u8], value: u64, negate: bool) -> (r: Option<Vec<u8>>)
    requires
        commitment@.len() == 32,
    ensures
        r is Some <==> linked_diff_of(commitment@, value, negate) is Some,
        r matches Some(b) ==> linked_diff_of(commitment@, value, negate) == Some(b@) && b@.len()
            == 32,
{
    let compressed = CompressedRistretto::from_slice(commitment).ok()?;
    let point = compressed.decompress()?;
    let shift = Scalar::from(value) * PedersenGens::default().B;
    let diff = if negate {
        shift - point
    } else {
        point - shift
    };
    Some(diff.compress().as_bytes().to_vec())
}

/// The compressed bytes of the difference of two 32-byte compressed
/// points; absent exactly when either fails to decompress.
pub uninterp spec fn point_diff_of(minuend: Seq<u8>, subtrahend: Seq<u8>) -> Option<Seq<u8>>;

/// Relies on curve25519-dalek decompression, point subtraction and
/// compression, composed as the deterministic `point_diff_of`.
#[verifier::external_body]
pub fn point_diff(minuend: &[u8], subtrahend: &[u8]) -> (r: Option<Vec<u8>>)
    requires
        minuend@.len() == 32,
        subtrahend@.len() == 32,
    ensures
        r is Some <==> point_diff_of(minuend@, subtrahend@) is Some,
        r matches Some(b) ==> point_diff_of(minuend@, subtrahend@) == Some(b@) && b@.len() == 32,
{
    let a = CompressedRistretto::from_slice(minuend).ok()?.decompress()?;
    let b = CompressedRistretto::from_slice(subtrahend).ok()?.decompress()?;
    Some((a - b).compress().as_bytes().to_vec())
}

} // verus!
