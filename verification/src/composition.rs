//! The compositor: bundles many envelopes and key/value metadata into one
//! composite blob whose integrity digest covers the ordered inner
//! envelopes alone, so metadata can change without re-serialising proofs.
//! Also the batch of pending proof operations that a dispatcher consumes.

use vstd::prelude::*;
use vstd::bytes::{spec_u32_from_le_bytes, spec_u32_to_le_bytes, u32_from_le_bytes};
use vstd::slice::{slice_subrange, slice_to_vec};
use vstd::utf8::{encode_utf8, valid_utf8};
use crate::commitment::{bytes_eq, sha256, sha256_of};
use crate::envelope::Proof;
use crate::errors::{ZkpError, ZkpResult};
use crate::serialization::{push_bytes, push_u32_le};

verus! {

/// The ASCII bytes of the `"COMP"` magic.
pub const COMPOSITE_MAGIC: [u8; 4] = [67u8, 79u8, 77u8, 80u8];

/// The ASCII bytes of the `"COMPOSITE_PROOF:"` digest label.
pub const COMPOSITE_HASH_LABEL: [u8; 16] = [
    67u8, 79u8, 77u8, 80u8, 79u8, 83u8, 73u8, 84u8, 69u8, 95u8, 80u8, 82u8, 79u8, 79u8, 70u8,
    58u8,
];

pub open spec fn spec_composite_magic() -> Seq<u8> {
    seq![67u8, 79u8, 77u8, 80u8]
}

pub open spec fn spec_composite_hash_label() -> Seq<u8> {
    seq![67u8, 79u8, 77u8, 80u8, 79u8, 83u8, 73u8, 84u8, 69u8, 95u8, 80u8, 82u8, 79u8, 79u8, 70u8, 58u8]
}

/// The concatenated serialisations of the inner envelopes.
pub open spec fn spec_proofs_bytes(proofs: Seq<Proof>) -> Seq<u8>
    decreases proofs.len(),
{
    if proofs.len() == 0 {
        Seq::<u8>::empty()
    } else {
        proofs[0].spec_to_bytes() + spec_proofs_bytes(proofs.drop_first())
    }
}

pub proof fn lemma_proofs_bytes_push(proofs: Seq<Proof>, p: Proof)
    ensures
        spec_proofs_bytes(proofs.push(p)) == spec_proofs_bytes(proofs) + p.spec_to_bytes(),
    decreases proofs.len(),
{
    let w = proofs.push(p);
    if proofs.len() == 0 {
        assert(w[0] == p);
        assert(w.drop_first() =~= Seq::<Proof>::empty());
        assert(spec_proofs_bytes(w) == w[0].spec_to_bytes() + spec_proofs_bytes(w.drop_first()));
        assert(spec_proofs_bytes(w.drop_first()) == Seq::<u8>::empty());
        assert(spec_proofs_bytes(proofs) == Seq::<u8>::empty());
        assert(spec_proofs_bytes(w) =~= spec_proofs_bytes(proofs) + p.spec_to_bytes());
    } else {
        assert(w[0] == proofs[0]);
        assert(w.drop_first() =~= proofs.drop_first().push(p));
        lemma_proofs_bytes_push(proofs.drop_first(), p);
        assert(spec_proofs_bytes(w) =~= spec_proofs_bytes(proofs) + p.spec_to_bytes());
    }
}

/// The digest preimage: the label, the proof count, then the ordered
/// envelope bytes. Metadata is deliberately excluded.
pub open spec fn spec_composition_preimage(proofs: Seq<Proof>) -> Seq<u8> {
    spec_composite_hash_label() + spec_u32_to_le_bytes(proofs.len() as u32) + spec_proofs_bytes(
        proofs,
    )
}

/// The integrity digest over the ordered inner envelopes.
pub open spec fn spec_composition_hash(proofs: Seq<Proof>) -> Seq<u8> {
    sha256_of(spec_composition_preimage(proofs))
}

/// The length-prefixed envelope entries of the composite wire form.
pub open spec fn spec_proof_entries(proofs: Seq<Proof>) -> Seq<u8>
    decreases proofs.len(),
{
    if proofs.len() == 0 {
        Seq::<u8>::empty()
    } else {
        spec_u32_to_le_bytes(proofs[0].spec_to_bytes().len() as u32) + proofs[0].spec_to_bytes()
            + spec_proof_entries(proofs.drop_first())
    }
}

proof fn lemma_proof_entries_push(proofs: Seq<Proof>, p: Proof)
    ensures
        spec_proof_entries(proofs.push(p)) == spec_proof_entries(proofs) + spec_u32_to_le_bytes(
            p.spec_to_bytes().len() as u32,
        ) + p.spec_to_bytes(),
    decreases proofs.len(),
{
    let w = proofs.push(p);
    if proofs.len() == 0 {
        assert(w[0] == p);
        assert(w.drop_first() =~= Seq::<Proof>::empty());
        assert(spec_proof_entries(w.drop_first()) == Seq::<u8>::empty());
        assert(spec_proof_entries(proofs) == Seq::<u8>::empty());
        assert(spec_proof_entries(w) =~= spec_proof_entries(proofs) + spec_u32_to_le_bytes(
            p.spec_to_bytes().len() as u32,
        ) + p.spec_to_bytes());
    } else {
        assert(w[0] == proofs[0]);
        assert(w.drop_first() =~= proofs.drop_first().push(p));
        lemma_proof_entries_push(proofs.drop_first(), p);
        assert(spec_proof_entries(w) =~= spec_proof_entries(proofs) + spec_u32_to_le_bytes(
            p.spec_to_bytes().len() as u32,
        ) + p.spec_to_bytes());
    }
}

/// The metadata entries of the composite wire form: two length fields,
/// then the UTF-8 key bytes and the value bytes.
pub open spec fn spec_meta_entries(metadata: Seq<(String, Vec<u8>)>) -> Seq<u8>
    decreases metadata.len(),
{
    if metadata.len() == 0 {
        Seq::<u8>::empty()
    } else {
        spec_u32_to_le_bytes(encode_utf8(metadata[0].0@).len() as u32) + spec_u32_to_le_bytes(
            metadata[0].1@.len() as u32,
        ) + encode_utf8(metadata[0].0@) + metadata[0].1@ + spec_meta_entries(
            metadata.drop_first(),
        )
    }
}

proof fn lemma_meta_entries_push(metadata: Seq<(String, Vec<u8>)>, e: (String, Vec<u8>))
    ensures
        spec_meta_entries(metadata.push(e)) == spec_meta_entries(metadata) + spec_u32_to_le_bytes(
            encode_utf8(e.0@).len() as u32,
        ) + spec_u32_to_le_bytes(e.1@.len() as u32) + encode_utf8(e.0@) + e.1@,
    decreases metadata.len(),
{
    let w = metadata.push(e);
    if metadata.len() == 0 {
        assert(w[0] == e);
        assert(w.drop_first() =~= Seq::<(String, Vec<u8>)>::empty());
        assert(spec_meta_entries(w.drop_first()) == Seq::<u8>::empty());
        assert(spec_meta_entries(metadata) == Seq::<u8>::empty());
        assert(spec_meta_entries(w) =~= spec_meta_entries(metadata) + spec_u32_to_le_bytes(
            encode_utf8(e.0@).len() as u32,
        ) + spec_u32_to_le_bytes(e.1@.len() as u32) + encode_utf8(e.0@) + e.1@);
    } else {
        assert(w[0] == metadata[0]);
        assert(w.drop_first() =~= metadata.drop_first().push(e));
        lemma_meta_entries_push(metadata.drop_first(), e);
        assert(spec_meta_entries(w) =~= spec_meta_entries(metadata) + spec_u32_to_le_bytes(
            encode_utf8(e.0@).len() as u32,
        ) + spec_u32_to_le_bytes(e.1@.len() as u32) + encode_utf8(e.0@) + e.1@);
    }
}

/// Computes the integrity digest of an envelope list.
fn compute_composition_hash(proofs: &Vec<Proof>) -> (r: Vec<u8>)
    requires
        proofs@.len() <= u32::MAX,
    ensures
        r@ == spec_composition_hash(proofs@),
        r@.len() == 32,
{
    let mut bytes: Vec<u8> = Vec::new();
    push_bytes(&mut bytes, COMPOSITE_HASH_LABEL.as_slice());
    push_u32_le(&mut bytes, proofs.len() as u32);
    proof {
        assert(COMPOSITE_HASH_LABEL@ =~= spec_composite_hash_label());
    }
    let mut i: usize = 0;
    while i < proofs.len()
        invariant
            i <= proofs@.len(),
            proofs@.len() <= u32::MAX,
            bytes@ == spec_composite_hash_label() + spec_u32_to_le_bytes(proofs@.len() as u32)
                + spec_proofs_bytes(proofs@.take(i as int)),
        decreases proofs@.len() - i,
    {
        let mut pb = proofs[i].to_bytes();
        bytes.append(&mut pb);
        proof {
            assert(proofs@.take(i + 1) =~= proofs@.take(i as int).push(proofs@[i as int]));
            lemma_proofs_bytes_push(proofs@.take(i as int), proofs@[i as int]);
        }
        i = i + 1;
    }
    proof {
        assert(proofs@.take(proofs@.len() as int) =~= proofs@);
    }
    sha256(bytes.as_slice())
}

/// Relies on String::from_utf8: `Some` exactly on valid UTF-8, and on
/// success the string's UTF-8 encoding is exactly the input bytes.
#[verifier::external_body]
fn string_from_utf8(v: Vec<u8>) -> (r: Option<String>)
    ensures
        r is Some <==> valid_utf8(v@),
        r matches Some(s) ==> encode_utf8(s@) == v@,
{
    String::from_utf8(v).ok()
}

/// Shifts a consumed-length result by an offset.
pub open spec fn spec_shift(o: Option<int>, d: int) -> Option<int> {
    match o {
        Some(x) => Some(x + d),
        None => None,
    }
}

/// The proofs section of the composite wire form: `k` entries, each a
/// `u32` length and a decodable envelope; `Some` of the consumed length
/// exactly when every entry parses.
pub open spec fn spec_proof_section(region: Seq<u8>, k: nat) -> Option<int>
    decreases k,
{
    if k == 0 {
        Some(0)
    } else if region.len() < 4 {
        None
    } else {
        let l = spec_u32_from_le_bytes(region.subrange(0, 4)) as int;
        if region.len() < 4 + l {
            None
        } else if !crate::envelope::spec_decodable(region.subrange(4, 4 + l)) {
            None
        } else {
            spec_shift(
                spec_proof_section(region.subrange(4 + l, region.len() as int), (k - 1) as nat),
                4 + l,
            )
        }
    }
}

/// The concatenated envelope bytes of the proofs section, the digest
/// preimage's tail.
pub open spec fn spec_proof_section_bodies(region: Seq<u8>, k: nat) -> Seq<u8>
    decreases k,
{
    if k == 0 {
        Seq::<u8>::empty()
    } else if region.len() < 4 {
        Seq::<u8>::empty()
    } else {
        let l = spec_u32_from_le_bytes(region.subrange(0, 4)) as int;
        region.subrange(4, 4 + l) + spec_proof_section_bodies(
            region.subrange(4 + l, region.len() as int),
            (k - 1) as nat,
        )
    }
}

/// The metadata section: `k` entries, each two `u32` lengths within the
/// caps, a valid-UTF-8 key not seen before, and a value; `Some` of the
/// consumed length exactly when every entry parses.
pub open spec fn spec_meta_section(region: Seq<u8>, k: nat, seen: Seq<Seq<u8>>) -> Option<int>
    decreases k,
{
    if k == 0 {
        Some(0)
    } else if region.len() < 8 {
        None
    } else {
        let klen = spec_u32_from_le_bytes(region.subrange(0, 4)) as int;
        let vlen = spec_u32_from_le_bytes(region.subrange(4, 8)) as int;
        if klen > 1024 || vlen > 65536 {
            None
        } else if region.len() < 8 + klen + vlen {
            None
        } else {
            let key = region.subrange(8, 8 + klen);
            if !valid_utf8(key) || seen.contains(key) {
                None
            } else {
                spec_shift(
                    spec_meta_section(
                        region.subrange(8 + klen + vlen, region.len() as int),
                        (k - 1) as nat,
                        seen.push(key),
                    ),
                    8 + klen + vlen,
                )
            }
        }
    }
}

/// Whether a byte string is a well-formed composite wire form: the magic,
/// counts within their caps, a parsing proofs section, a parsing metadata
/// section with no repeated key, exactly a 32-byte trailer, and that
/// trailer equal to the digest of the ordered envelope bytes.
pub open spec fn spec_composite_decodable(data: Seq<u8>) -> bool {
    &&& data.len() >= 12
    &&& data.subrange(0, 4) == spec_composite_magic()
    &&& {
        let np = spec_u32_from_le_bytes(data.subrange(4, 8)) as int;
        let nm = spec_u32_from_le_bytes(data.subrange(8, 12)) as int;
        &&& 1 <= np <= 1000
        &&& nm <= 1000
        &&& match spec_proof_section(data.subrange(12, data.len() as int), np as nat) {
            Some(ps) => match spec_meta_section(
                data.subrange(12 + ps, data.len() as int),
                nm as nat,
                Seq::<Seq<u8>>::empty(),
            ) {
                Some(ms) => {
                    &&& data.len() == 12 + ps + ms + 32
                    &&& data.subrange(12 + ps + ms, data.len() as int) == sha256_of(
                        spec_composite_hash_label() + data.subrange(4, 8)
                            + spec_proof_section_bodies(
                            data.subrange(12, data.len() as int),
                            np as nat,
                        ),
                    )
                },
                None => false,
            },
            None => false,
        }
    }
}

/// A parsing front entry peels off the proofs section.
proof fn lemma_proof_section_peel(region: Seq<u8>, k: nat)
    requires
        k >= 1,
        region.len() >= 4,
        region.len() >= 4 + spec_u32_from_le_bytes(region.subrange(0, 4)),
        crate::envelope::spec_decodable(
            region.subrange(4, 4 + spec_u32_from_le_bytes(region.subrange(0, 4)) as int),
        ),
    ensures
        spec_proof_section(region, k) == spec_shift(
            spec_proof_section(
                region.subrange(
                    4 + spec_u32_from_le_bytes(region.subrange(0, 4)) as int,
                    region.len() as int,
                ),
                (k - 1) as nat,
            ),
            4 + spec_u32_from_le_bytes(region.subrange(0, 4)) as int,
        ),
        spec_proof_section_bodies(region, k) == region.subrange(
            4,
            4 + spec_u32_from_le_bytes(region.subrange(0, 4)) as int,
        ) + spec_proof_section_bodies(
            region.subrange(
                4 + spec_u32_from_le_bytes(region.subrange(0, 4)) as int,
                region.len() as int,
            ),
            (k - 1) as nat,
        ),
{
}

/// A parsing front entry peels off the metadata section.
proof fn lemma_meta_section_peel(region: Seq<u8>, k: nat, seen: Seq<Seq<u8>>)
    requires
        k >= 1,
        region.len() >= 8,
        spec_u32_from_le_bytes(region.subrange(0, 4)) <= 1024,
        spec_u32_from_le_bytes(region.subrange(4, 8)) <= 65536,
        region.len() >= 8 + spec_u32_from_le_bytes(region.subrange(0, 4))
            + spec_u32_from_le_bytes(region.subrange(4, 8)),
        valid_utf8(
            region.subrange(8, 8 + spec_u32_from_le_bytes(region.subrange(0, 4)) as int),
        ),
        !seen.contains(
            region.subrange(8, 8 + spec_u32_from_le_bytes(region.subrange(0, 4)) as int),
        ),
    ensures
        spec_meta_section(region, k, seen) == spec_shift(
            spec_meta_section(
                region.subrange(
                    8 + spec_u32_from_le_bytes(region.subrange(0, 4))
                        + spec_u32_from_le_bytes(region.subrange(4, 8)),
                    region.len() as int,
                ),
                (k - 1) as nat,
                seen.push(
                    region.subrange(
                        8,
                        8 + spec_u32_from_le_bytes(region.subrange(0, 4)) as int,
                    ),
                ),
            ),
            8 + spec_u32_from_le_bytes(region.subrange(0, 4)) + spec_u32_from_le_bytes(
                region.subrange(4, 8),
            ),
        ),
{
}

/// A failing proofs section refutes decodability.
proof fn lemma_not_decodable_proofs(data: Seq<u8>)
    requires
        spec_proof_section(
            data.subrange(12, data.len() as int),
            spec_u32_from_le_bytes(data.subrange(4, 8)) as nat,
        ) is None,
    ensures
        !spec_composite_decodable(data),
{
}

/// A failing metadata section refutes decodability.
proof fn lemma_not_decodable_meta(data: Seq<u8>, ps: int)
    requires
        spec_proof_section(
            data.subrange(12, data.len() as int),
            spec_u32_from_le_bytes(data.subrange(4, 8)) as nat,
        ) == Some(ps),
        spec_meta_section(
            data.subrange(12 + ps, data.len() as int),
            spec_u32_from_le_bytes(data.subrange(8, 12)) as nat,
            Seq::<Seq<u8>>::empty(),
        ) is None,
    ensures
        !spec_composite_decodable(data),
{
}

/// A serialised entry list parses as a proofs section: the section scan
/// consumes exactly the entries and collects exactly the envelope bytes.
proof fn lemma_proof_entries_parse(ps: Seq<Proof>, rest: Seq<u8>)
    requires
        forall|i: int| 0 <= i < ps.len() ==> {
            &&& (#[trigger] ps[i]).proof@.len() <= crate::limits::MAX_PROOF_PAYLOAD_BYTES
            &&& ps[i].commitment@.len() <= crate::limits::MAX_COMMITMENT_BYTES
        },
    ensures
        spec_proof_section(spec_proof_entries(ps) + rest, ps.len()) == Some(
            spec_proof_entries(ps).len() as int,
        ),
        spec_proof_section_bodies(spec_proof_entries(ps) + rest, ps.len())
            == spec_proofs_bytes(ps),
    decreases ps.len(),
{
    vstd::bytes::lemma_auto_spec_u32_to_from_le_bytes();
    let region = spec_proof_entries(ps) + rest;
    if ps.len() == 0 {
        assert(spec_proof_entries(ps) == Seq::<u8>::empty());
        assert(spec_proofs_bytes(ps) == Seq::<u8>::empty());
    } else {
        let p0 = ps[0];
        let body0 = p0.spec_to_bytes();
        assert(body0 == crate::envelope::spec_encode(
            p0.version,
            p0.scheme,
            p0.proof@,
            p0.commitment@,
        ));
        let l0 = body0.len() as int;
        assert(region.subrange(0, 4) =~= spec_u32_to_le_bytes(body0.len() as u32));
        assert(region.subrange(4, 4 + l0) =~= body0);
        crate::envelope::lemma_envelope_round_trip(
            p0.version,
            p0.scheme,
            p0.proof@,
            p0.commitment@,
        );
        assert(crate::envelope::spec_decodable(region.subrange(4, 4 + l0)));
        assert(region.subrange(4 + l0, region.len() as int) =~= spec_proof_entries(
            ps.drop_first(),
        ) + rest);
        lemma_proof_entries_parse(ps.drop_first(), rest);
        assert(spec_proofs_bytes(ps) == body0 + spec_proofs_bytes(ps.drop_first()));
        assert(spec_proof_entries(ps).len() == 4 + l0 + spec_proof_entries(
            ps.drop_first(),
        ).len());
    }
}

/// A serialised metadata list whose keys are fresh parses as a metadata
/// section consuming exactly the entries.
proof fn lemma_meta_entries_parse(ms: Seq<(String, Vec<u8>)>, rest: Seq<u8>, seen: Seq<Seq<u8>>)
    requires
        forall|i: int| 0 <= i < ms.len() ==> {
            &&& encode_utf8((#[trigger] ms[i]).0@).len() <= 1024
            &&& ms[i].1@.len() <= 65536
        },
        forall|a: int, b: int|
            0 <= a < b < ms.len() ==> (#[trigger] ms[a]).0@ != (#[trigger] ms[b]).0@,
        forall|i: int| 0 <= i < ms.len() ==> !seen.contains(encode_utf8((#[trigger] ms[i]).0@)),
    ensures
        spec_meta_section(spec_meta_entries(ms) + rest, ms.len(), seen) == Some(
            spec_meta_entries(ms).len() as int,
        ),
    decreases ms.len(),
{
    broadcast use vstd::utf8::encode_utf8_valid_utf8;
    broadcast use vstd::utf8::encode_utf8_decode_utf8;

    vstd::bytes::lemma_auto_spec_u32_to_from_le_bytes();
    let region = spec_meta_entries(ms) + rest;
    if ms.len() == 0 {
        assert(spec_meta_entries(ms) == Seq::<u8>::empty());
    } else {
        let key0 = encode_utf8(ms[0].0@);
        let v0 = ms[0].1@;
        let klen = key0.len() as int;
        let vlen = v0.len() as int;
        assert(region.subrange(0, 4) =~= spec_u32_to_le_bytes(key0.len() as u32));
        assert(region.subrange(4, 8) =~= spec_u32_to_le_bytes(v0.len() as u32));
        assert(region.subrange(8, 8 + klen) =~= key0);
        assert(valid_utf8(key0));
        assert(!seen.contains(key0));
        assert(region.subrange(8 + klen + vlen, region.len() as int) =~= spec_meta_entries(
            ms.drop_first(),
        ) + rest);
        assert forall|i: int| 0 <= i < ms.drop_first().len() implies !seen.push(key0).contains(
            encode_utf8((#[trigger] ms.drop_first()[i]).0@),
        ) by {
            assert(ms.drop_first()[i] == ms[i + 1]);
            let ki = encode_utf8(ms[i + 1].0@);
            if seen.push(key0).contains(ki) {
                let w = choose|w: int| 0 <= w < seen.push(key0).len() && seen.push(key0)[w] == ki;
                if w < seen.len() {
                    assert(seen.contains(ki));
                } else {
                    assert(ki == key0);
                    assert(vstd::utf8::decode_utf8(ki) == ms[i + 1].0@);
                    assert(vstd::utf8::decode_utf8(key0) == ms[0].0@);
                    assert(ms[0].0@ == ms[i + 1].0@);
                }
            }
        }
        lemma_meta_entries_parse(ms.drop_first(), rest, seen.push(key0));
        assert(spec_meta_entries(ms).len() == 8 + klen + vlen + spec_meta_entries(
            ms.drop_first(),
        ).len());
    }
}

/// The wire form of every well-formed composite decodes: serialisation
/// followed by parsing always succeeds.
pub proof fn lemma_composite_round_trip(c: CompositeProof)
    requires
        c.wf(),
    ensures
        spec_composite_decodable(c.spec_wire_bytes()),
{
    vstd::bytes::lemma_auto_spec_u32_to_from_le_bytes();
    let w = c.spec_wire_bytes();
    let np = c.proofs@.len() as int;
    let nm = c.metadata@.len() as int;
    let pe = spec_proof_entries(c.proofs@);
    let me = spec_meta_entries(c.metadata@);
    assert(w.subrange(0, 4) =~= spec_composite_magic());
    assert(w.subrange(4, 8) =~= spec_u32_to_le_bytes(c.proofs@.len() as u32));
    assert(w.subrange(8, 12) =~= spec_u32_to_le_bytes(c.metadata@.len() as u32));
    assert(w.subrange(12, w.len() as int) =~= pe + (me + c.composition_hash@));
    lemma_proof_entries_parse(c.proofs@, me + c.composition_hash@);
    assert(spec_proof_section(w.subrange(12, w.len() as int), np as nat) == Some(pe.len() as int));
    assert(w.subrange(12 + pe.len() as int, w.len() as int) =~= me + c.composition_hash@);
    lemma_meta_entries_parse(c.metadata@, c.composition_hash@, Seq::<Seq<u8>>::empty());
    assert(spec_meta_section(
        w.subrange(12 + pe.len() as int, w.len() as int),
        nm as nat,
        Seq::<Seq<u8>>::empty(),
    ) == Some(me.len() as int));
    assert(w.len() == 12 + pe.len() + me.len() + 32);
    assert(w.subrange(12 + pe.len() as int + me.len() as int, w.len() as int)
        =~= c.composition_hash@);
    assert(spec_composite_hash_label() + w.subrange(4, 8) + spec_proof_section_bodies(
        w.subrange(12, w.len() as int),
        np as nat,
    ) =~= spec_composition_preimage(c.proofs@));
}

/// Whether a raw key already occurs in the collected key list.
fn contains_raw_key(keys: &Vec<Vec<u8>>, key: &[u8]) -> (r: bool)
    ensures
        r == (exists|q: int| 0 <= q < keys@.len() && (#[trigger] keys@[q])@ == key@),
{
    let mut d: usize = 0;
    while d < keys.len()
        invariant
            d <= keys@.len(),
            forall|q: int| 0 <= q < d ==> (#[trigger] keys@[q])@ != key@,
        decreases keys@.len() - d,
    {
        if bytes_eq(keys[d].as_slice(), key) {
            proof {
                assert(keys@[d as int]@ == key@);
            }
            return true;
        }
        d = d + 1;
    }
    false
}

/// A composite proof: ordered inner envelopes, key/value metadata, and the
/// integrity digest over the envelopes.
#[derive(Debug)]
pub struct CompositeProof {
    pub proofs: Vec<Proof>,
    pub metadata: Vec<(String, Vec<u8>)>,
    pub composition_hash: Vec<u8>,
}

impl CompositeProof {
    /// Validity: a bounded, non-empty envelope list whose digest matches,
    /// envelopes within the wire-size limits, bounded metadata entries,
    /// and no duplicate metadata key.
    pub open spec fn wf(&self) -> bool {
        &&& 1 <= self.proofs@.len() <= 1000
        &&& self.metadata@.len() <= 1000
        &&& self.composition_hash@.len() == 32
        &&& self.composition_hash@ == spec_composition_hash(self.proofs@)
        &&& forall|i: int| 0 <= i < self.proofs@.len() ==> {
            &&& (#[trigger] self.proofs@[i]).proof@.len()
                <= crate::limits::MAX_PROOF_PAYLOAD_BYTES
            &&& self.proofs@[i].commitment@.len() <= crate::limits::MAX_COMMITMENT_BYTES
        }
        &&& forall|i: int| 0 <= i < self.metadata@.len() ==> {
            &&& encode_utf8((#[trigger] self.metadata@[i]).0@).len() <= 1024
            &&& self.metadata@[i].1@.len() <= 65536
        }
        &&& forall|i: int, j: int|
            0 <= i < j < self.metadata@.len() ==> (#[trigger] self.metadata@[i]).0@ != (
            #[trigger] self.metadata@[j]).0@
    }

    /// Builds a composite from inner envelopes, rejecting an empty or
    /// oversized list and envelopes beyond the wire-size limits; the
    /// resulting digest always matches the list, so `verify_integrity`
    /// accepts a freshly composed value.
    pub fn new(proofs: Vec<Proof>) -> (r: ZkpResult<CompositeProof>)
        ensures
            r is Ok <==> 1 <= proofs@.len() <= 1000 && (forall|i: int|
                0 <= i < proofs@.len() ==> (#[trigger] proofs@[i]).proof@.len()
                    <= crate::limits::MAX_PROOF_PAYLOAD_BYTES && proofs@[i].commitment@.len()
                    <= crate::limits::MAX_COMMITMENT_BYTES),
            r matches Ok(c) ==> {
                &&& c.wf()
                &&& c.proofs@ == proofs@
                &&& c.metadata@.len() == 0
                &&& c.composition_hash@ == spec_composition_hash(proofs@)
            },
    {
        if proofs.len() == 0 {
            return Err(ZkpError::InvalidInput(
                "cannot create composite proof from empty list".to_string(),
            ));
        }
        if proofs.len() > 1000 {
            return Err(ZkpError::InvalidInput("too many proofs in composite".to_string()));
        }
        let mut i: usize = 0;
        while i < proofs.len()
            invariant
                i <= proofs@.len(),
                forall|q: int| 0 <= q < i ==> {
                    &&& (#[trigger] proofs@[q]).proof@.len()
                        <= crate::limits::MAX_PROOF_PAYLOAD_BYTES
                    &&& proofs@[q].commitment@.len() <= crate::limits::MAX_COMMITMENT_BYTES
                },
            decreases proofs@.len() - i,
        {
            if proofs[i].proof.len() > crate::limits::MAX_PROOF_PAYLOAD_BYTES
                || proofs[i].commitment.len() > crate::limits::MAX_COMMITMENT_BYTES {
                proof {
                    assert(!((#[trigger] proofs@[i as int]).proof@.len()
                        <= crate::limits::MAX_PROOF_PAYLOAD_BYTES && proofs@[i as int]
                        .commitment@.len() <= crate::limits::MAX_COMMITMENT_BYTES));
                }
                return Err(ZkpError::InvalidInput("oversized proof in composite".to_string()));
            }
            i = i + 1;
        }
        let composition_hash = compute_composition_hash(&proofs);
        Ok(CompositeProof { proofs, metadata: Vec::new(), composition_hash })
    }

    /// Inserts or replaces a metadata entry. The envelopes and the digest
    /// are untouched, so metadata edits never affect integrity.
    pub fn add_metadata(&mut self, key: String, value: Vec<u8>)
        requires
            old(self).wf(),
            old(self).metadata@.len() < 1000,
            encode_utf8(key@).len() <= 1024,
            value@.len() <= 65536,
        ensures
            final(self).wf(),
            final(self).proofs == old(self).proofs,
            final(self).composition_hash == old(self).composition_hash,
            exists|i: int|
                0 <= i < final(self).metadata@.len() && (#[trigger] final(self).metadata@[i]).0@
                    == key@ && final(self).metadata@[i].1@ == value@,
    {
        let ghost key_view = key@;
        let ghost value_view = value@;
        replace_meta_entry(&mut self.metadata, key, value);
        proof {
            let m = self.metadata@;
            let w = choose|i: int|
                0 <= i < m.len() && (#[trigger] m[i]).0@ == key_view && m[i].1@ == value_view;
            assert(0 <= w < m.len() && m[w].0@ == key_view && m[w].1@ == value_view);
        }
    }

    /// Whether the stored digest matches the digest of the stored
    /// envelopes; true of every well-formed composite, and false whenever
    /// the stored digest disagrees with the envelope list.
    pub fn verify_integrity(&self) -> (r: bool)
        requires
            self.proofs@.len() <= u32::MAX,
        ensures
            r == (self.composition_hash@ == spec_composition_hash(self.proofs@)),
            self.wf() ==> r,
    {
        let expected = compute_composition_hash(&self.proofs);
        bytes_eq(self.composition_hash.as_slice(), expected.as_slice())
    }

    /// The full composite wire form: magic, counts, length-prefixed
    /// envelope entries, metadata entries, then the digest.
    pub open spec fn spec_wire_bytes(&self) -> Seq<u8> {
        spec_composite_magic() + spec_u32_to_le_bytes(self.proofs@.len() as u32)
            + spec_u32_to_le_bytes(self.metadata@.len() as u32) + spec_proof_entries(self.proofs@)
            + spec_meta_entries(self.metadata@) + self.composition_hash@
    }

    /// Serialises the composite: magic, counts, length-prefixed envelope
    /// entries, metadata entries, then the digest. The output is a pure
    /// function of the composite's model, so serialisation is
    /// deterministic.
    pub fn to_bytes(&self) -> (r: Vec<u8>)
        requires
            self.wf(),
        ensures
            r@ == self.spec_wire_bytes(),
    {
        let mut result: Vec<u8> = Vec::new();
        proof {
            vstd::bytes::lemma_auto_spec_u32_to_from_le_bytes();
            assert(COMPOSITE_MAGIC@ =~= spec_composite_magic());
        }
        push_bytes(&mut result, COMPOSITE_MAGIC.as_slice());
        push_u32_le(&mut result, self.proofs.len() as u32);
        push_u32_le(&mut result, self.metadata.len() as u32);
        let ghost header = spec_composite_magic() + spec_u32_to_le_bytes(self.proofs@.len() as u32)
            + spec_u32_to_le_bytes(self.metadata@.len() as u32);
        let mut i: usize = 0;
        while i < self.proofs.len()
            invariant
                self.wf(),
                i <= self.proofs@.len(),
                header == spec_composite_magic() + spec_u32_to_le_bytes(self.proofs@.len() as u32)
                    + spec_u32_to_le_bytes(self.metadata@.len() as u32),
                result@ == header + spec_proof_entries(self.proofs@.take(i as int)),
            decreases self.proofs@.len() - i,
        {
            let mut pb = self.proofs[i].to_bytes();
            proof {
                vstd::bytes::lemma_auto_spec_u32_to_from_le_bytes();
                let pr = self.proofs@[i as int];
                assert(pr.spec_to_bytes() == crate::envelope::spec_encode(
                    pr.version,
                    pr.scheme,
                    pr.proof@,
                    pr.commitment@,
                ));
                assert(pr.spec_to_bytes().len() <= u32::MAX);
            }
            push_u32_le(&mut result, pb.len() as u32);
            result.append(&mut pb);
            proof {
                assert(self.proofs@.take(i + 1) =~= self.proofs@.take(i as int).push(
                    self.proofs@[i as int],
                ));
                lemma_proof_entries_push(self.proofs@.take(i as int), self.proofs@[i as int]);
            }
            i = i + 1;
        }
        proof {
            assert(self.proofs@.take(self.proofs@.len() as int) =~= self.proofs@);
        }
        let ghost mid = header + spec_proof_entries(self.proofs@);
        let mut j: usize = 0;
        while j < self.metadata.len()
            invariant
                self.wf(),
                j <= self.metadata@.len(),
                mid == header + spec_proof_entries(self.proofs@),
                header == spec_composite_magic() + spec_u32_to_le_bytes(self.proofs@.len() as u32)
                    + spec_u32_to_le_bytes(self.metadata@.len() as u32),
                result@ == mid + spec_meta_entries(self.metadata@.take(j as int)),
            decreases self.metadata@.len() - j,
        {
            let key_bytes = self.metadata[j].0.as_str().as_bytes();
            proof {
                vstd::bytes::lemma_auto_spec_u32_to_from_le_bytes();
                assert(key_bytes@ == encode_utf8(self.metadata@[j as int].0@));
            }
            push_u32_le(&mut result, key_bytes.len() as u32);
            push_u32_le(&mut result, self.metadata[j].1.len() as u32);
            push_bytes(&mut result, key_bytes);
            push_bytes(&mut result, self.metadata[j].1.as_slice());
            proof {
                assert(self.metadata@.take(j + 1) =~= self.metadata@.take(j as int).push(
                    self.metadata@[j as int],
                ));
                lemma_meta_entries_push(self.metadata@.take(j as int), self.metadata@[j as int]);
            }
            j = j + 1;
        }
        proof {
            assert(self.metadata@.take(self.metadata@.len() as int) =~= self.metadata@);
        }
        push_bytes(&mut result, self.composition_hash.as_slice());
        result
    }

    /// Parses a composite and checks its structure and integrity digest:
    /// `Ok` exactly on well-formed wire forms (strict: no repeated
    /// metadata key, no trailing bytes), and the parsed composite is
    /// well-formed and re-serialises to the input bytes.
    #[verifier::rlimit(100)]
    #[verifier::spinoff_prover]
    pub fn from_bytes(data: &[u8]) -> (r: ZkpResult<CompositeProof>)
        ensures
            r is Ok <==> spec_composite_decodable(data@),
            r matches Ok(c) ==> c.wf() && data@ == c.spec_wire_bytes(),
    {
        proof {
            vstd::bytes::lemma_auto_spec_u32_to_from_le_bytes();
        }
        if data.len() < 12 {
            return Err(ZkpError::InvalidProofFormat("composite proof too short".to_string()));
        }
        if !bytes_eq(slice_subrange(data, 0, 4), COMPOSITE_MAGIC.as_slice()) {
            proof {
                assert(COMPOSITE_MAGIC@ =~= spec_composite_magic());
            }
            return Err(ZkpError::InvalidProofFormat("invalid composite proof header".to_string()));
        }
        proof {
            assert(COMPOSITE_MAGIC@ =~= spec_composite_magic());
        }
        let num_proofs = u32_from_le_bytes(slice_subrange(data, 4, 8)) as usize;
        let num_metadata = u32_from_le_bytes(slice_subrange(data, 8, 12)) as usize;
        if num_proofs == 0 || num_proofs > 1000 || num_metadata > 1000 {
            return Err(ZkpError::InvalidProofFormat(
                "composite proof has too many items".to_string(),
            ));
        }
        let ghost np = num_proofs as int;
        let ghost nm = num_metadata as int;
        let ghost dlen = data@.len() as int;
        let mut offset: usize = 12;
        let mut proofs: Vec<Proof> = Vec::new();
        let mut i: usize = 0;
        while i < num_proofs
            invariant
                i <= num_proofs,
                1 <= num_proofs <= 1000,
                np == num_proofs as int,
                dlen == data@.len() as int,
                data@.len() >= 12,
                12 <= offset <= data@.len(),
                proofs@.len() == i,
                num_proofs == spec_u32_from_le_bytes(data@.subrange(4, 8)),
                forall|q: int| 0 <= q < i ==> {
                    &&& (#[trigger] proofs@[q]).proof@.len()
                        <= crate::limits::MAX_PROOF_PAYLOAD_BYTES
                    &&& proofs@[q].commitment@.len() <= crate::limits::MAX_COMMITMENT_BYTES
                },
                spec_proof_section(data@.subrange(12, dlen), np as nat) == spec_shift(
                    spec_proof_section(data@.subrange(offset as int, dlen), (np - i) as nat),
                    offset - 12,
                ),
                spec_proof_section_bodies(data@.subrange(12, dlen), np as nat)
                    == spec_proofs_bytes(proofs@) + spec_proof_section_bodies(
                    data@.subrange(offset as int, dlen),
                    (np - i) as nat,
                ),
                spec_proof_entries(proofs@) == data@.subrange(12, offset as int),
            decreases num_proofs - i,
        {
            let ghost region = data@.subrange(offset as int, dlen);
            if data.len() - offset < 4 {
                proof {
                    assert(spec_proof_section(region, (np - i) as nat) is None);
                    lemma_not_decodable_proofs(data@);
                }
                return Err(ZkpError::InvalidProofFormat("truncated proof length".to_string()));
            }
            proof {
                vstd::bytes::lemma_auto_spec_u32_to_from_le_bytes();
                assert(region.subrange(0, 4) =~= data@.subrange(offset as int, offset + 4));
            }
            let proof_len = u32_from_le_bytes(slice_subrange(data, offset, offset + 4)) as usize;
            if data.len() - offset - 4 < proof_len {
                proof {
                    assert(spec_proof_section(region, (np - i) as nat) is None);
                    lemma_not_decodable_proofs(data@);
                }
                return Err(ZkpError::InvalidProofFormat("truncated proof data".to_string()));
            }
            let entry = slice_subrange(data, offset + 4, offset + 4 + proof_len);
            proof {
                assert(entry@ =~= region.subrange(4, 4 + proof_len as int));
            }
            let p = match Proof::from_bytes(entry) {
                Some(p) => p,
                None => {
                    proof {
                        assert(spec_proof_section(region, (np - i) as nat) is None);
                        lemma_not_decodable_proofs(data@);
                    }
                    return Err(ZkpError::InvalidProofFormat(
                        "invalid proof in composite".to_string(),
                    ));
                },
            };
            proof {
                lemma_proof_section_peel(region, (np - i) as nat);
                assert(region.subrange(4 + proof_len as int, region.len() as int) =~= data@
                    .subrange(offset + 4 + proof_len, dlen));
                lemma_proofs_bytes_push(proofs@, p);
                lemma_proof_entries_push(proofs@, p);
                assert(p.spec_to_bytes() == entry@);
                assert(data@.subrange(offset as int, offset + 4) =~= spec_u32_to_le_bytes(
                    p.spec_to_bytes().len() as u32,
                ));
                assert(data@.subrange(12, offset + 4 + proof_len) =~= data@.subrange(
                    12,
                    offset as int,
                ) + data@.subrange(offset as int, offset + 4) + entry@);
            }
            proofs.push(p);
            offset = offset + 4 + proof_len;
            i = i + 1;
        }
        let ghost ps = offset - 12;
        proof {
            assert(data@.subrange(offset as int, dlen).len() == dlen - offset);
            assert(spec_proof_section(data@.subrange(offset as int, dlen), 0) == Some(0int));
            assert(spec_proof_section(data@.subrange(12, dlen), np as nat) == Some(ps));
            assert(spec_proof_section_bodies(data@.subrange(12, dlen), np as nat)
                == spec_proofs_bytes(proofs@));
        }

        let meta_start = offset;
        let mut metadata: Vec<(String, Vec<u8>)> = Vec::new();
        let mut raw_keys: Vec<Vec<u8>> = Vec::new();
        let ghost empty_seen = Seq::<Seq<u8>>::empty();
        proof {
            assert(crate::merkle::views_of(raw_keys@) =~= empty_seen);
            assert(spec_meta_entries(metadata@) =~= data@.subrange(
                meta_start as int,
                meta_start as int,
            ));
        }
        let mut j: usize = 0;
        while j < num_metadata
            invariant
                j <= num_metadata,
                num_metadata <= 1000,
                nm == num_metadata as int,
                dlen == data@.len() as int,
                data@.len() >= 12,
                12 <= meta_start as int <= offset <= data@.len(),
                metadata@.len() == j,
                raw_keys@.len() == j,
                num_metadata == spec_u32_from_le_bytes(data@.subrange(8, 12)),
                np == spec_u32_from_le_bytes(data@.subrange(4, 8)),
                meta_start as int == 12 + ps,
                empty_seen == Seq::<Seq<u8>>::empty(),
                spec_proof_section(data@.subrange(12, dlen), np as nat) == Some(ps),
                forall|q: int| 0 <= q < j ==> encode_utf8((#[trigger] metadata@[q]).0@)
                    == raw_keys@[q]@,
                forall|q: int| 0 <= q < j ==> (#[trigger] raw_keys@[q])@.len() <= 1024,
                forall|q: int| 0 <= q < j ==> (#[trigger] metadata@[q]).1@.len() <= 65536,
                forall|a: int, b: int|
                    0 <= a < b < j ==> (#[trigger] raw_keys@[a])@ != (#[trigger] raw_keys@[b])@,
                crate::merkle::views_of(raw_keys@).len() == j,
                spec_meta_section(data@.subrange(meta_start as int, dlen), nm as nat, empty_seen)
                    == spec_shift(
                    spec_meta_section(
                        data@.subrange(offset as int, dlen),
                        (nm - j) as nat,
                        crate::merkle::views_of(raw_keys@),
                    ),
                    offset - meta_start,
                ),
                spec_meta_entries(metadata@) == data@.subrange(meta_start as int, offset as int),
            decreases num_metadata - j,
        {
            let ghost region = data@.subrange(offset as int, dlen);
            let ghost seen = crate::merkle::views_of(raw_keys@);
            if data.len() - offset < 8 {
                proof {
                    assert(spec_meta_section(region, (nm - j) as nat, seen) is None);
                    assert(spec_meta_section(
                        data@.subrange(meta_start as int, dlen),
                        nm as nat,
                        empty_seen,
                    ) is None);
                    lemma_not_decodable_meta(data@, ps);
                }
                return Err(ZkpError::InvalidProofFormat("truncated metadata header".to_string()));
            }
            proof {
                vstd::bytes::lemma_auto_spec_u32_to_from_le_bytes();
                assert(region.subrange(0, 4) =~= data@.subrange(offset as int, offset + 4));
                assert(region.subrange(4, 8) =~= data@.subrange(offset + 4, offset + 8));
            }
            let key_len = u32_from_le_bytes(slice_subrange(data, offset, offset + 4)) as usize;
            let value_len = u32_from_le_bytes(slice_subrange(data, offset + 4, offset + 8)) as usize;
            if key_len > 1024 || value_len > 65536 {
                proof {
                    assert(spec_meta_section(region, (nm - j) as nat, seen) is None);
                    assert(spec_meta_section(
                        data@.subrange(meta_start as int, dlen),
                        nm as nat,
                        empty_seen,
                    ) is None);
                    lemma_not_decodable_meta(data@, ps);
                }
                return Err(ZkpError::InvalidProofFormat("metadata size too large".to_string()));
            }
            if data.len() - offset - 8 < key_len || data.len() - offset - 8 - key_len < value_len {
                proof {
                    assert(spec_meta_section(region, (nm - j) as nat, seen) is None);
                    assert(spec_meta_section(
                        data@.subrange(meta_start as int, dlen),
                        nm as nat,
                        empty_seen,
                    ) is None);
                    lemma_not_decodable_meta(data@, ps);
                }
                return Err(ZkpError::InvalidProofFormat("truncated metadata content".to_string()));
            }
            let key_bytes = slice_to_vec(slice_subrange(data, offset + 8, offset + 8 + key_len));
            proof {
                assert(key_bytes@ =~= region.subrange(8, 8 + key_len as int));
            }
            // Reject a repeated key: strict parsing keeps keys unique.
            if contains_raw_key(&raw_keys, key_bytes.as_slice()) {
                proof {
                    let w = choose|w: int|
                        0 <= w < raw_keys@.len() && (#[trigger] raw_keys@[w])@ == key_bytes@;
                    assert(seen[w] == key_bytes@);
                    assert(seen.contains(region.subrange(8, 8 + key_len as int)));
                    assert(spec_meta_section(region, (nm - j) as nat, seen) is None);
                    assert(spec_meta_section(
                        data@.subrange(meta_start as int, dlen),
                        nm as nat,
                        empty_seen,
                    ) is None);
                    lemma_not_decodable_meta(data@, ps);
                }
                return Err(ZkpError::InvalidProofFormat("repeated metadata key".to_string()));
            }
            proof {
                assert forall|q: int| 0 <= q < seen.len() implies seen[q] != region.subrange(
                    8,
                    8 + key_len as int,
                ) by {
                    assert(seen[q] == raw_keys@[q]@);
                }
                if seen.contains(region.subrange(8, 8 + key_len as int)) {
                    let w = choose|w: int|
                        0 <= w < seen.len() && seen[w] == region.subrange(8, 8 + key_len as int);
                }
            }
            let ghost key_view = key_bytes@;
            let key = match string_from_utf8(key_bytes) {
                Some(k) => k,
                None => {
                    proof {
                        assert(!valid_utf8(region.subrange(8, 8 + key_len as int)));
                        assert(spec_meta_section(region, (nm - j) as nat, seen) is None);
                        lemma_not_decodable_meta(data@, ps);
                    }
                    return Err(ZkpError::InvalidProofFormat("invalid metadata key".to_string()));
                },
            };
            let value = slice_to_vec(slice_subrange(
                data,
                offset + 8 + key_len,
                offset + 8 + key_len + value_len,
            ));
            let raw_key = slice_to_vec(slice_subrange(data, offset + 8, offset + 8 + key_len));
            proof {
                lemma_meta_section_peel(region, (nm - j) as nat, seen);
                assert(region.subrange(8 + key_len + value_len, region.len() as int) =~= data@
                    .subrange(offset + 8 + key_len + value_len, dlen));
                assert(raw_key@ =~= key_view);
                assert(crate::merkle::views_of(raw_keys@.push(raw_key)) =~= seen.push(
                    region.subrange(8, 8 + key_len as int),
                ));
                lemma_meta_entries_push(metadata@, (key, value));
                assert(encode_utf8(key@) == key_view);
                assert(data@.subrange(offset as int, offset + 4) =~= spec_u32_to_le_bytes(
                    encode_utf8(key@).len() as u32,
                ));
                assert(data@.subrange(offset + 4, offset + 8) =~= spec_u32_to_le_bytes(
                    value@.len() as u32,
                ));
                assert(value@ =~= data@.subrange(offset + 8 + key_len, offset + 8 + key_len
                    + value_len));
                assert(data@.subrange(meta_start as int, offset + 8 + key_len + value_len)
                    =~= data@.subrange(meta_start as int, offset as int) + data@.subrange(
                    offset as int,
                    offset + 4,
                ) + data@.subrange(offset + 4, offset + 8) + key_view + data@.subrange(
                    offset + 8 + key_len,
                    offset + 8 + key_len + value_len,
                ));
            }
            metadata.push((key, value));
            raw_keys.push(raw_key);
            offset = offset + 8 + key_len + value_len;
            j = j + 1;
        }
        let ghost ms = offset - meta_start;
        proof {
            assert(spec_meta_section(
                data@.subrange(offset as int, dlen),
                0,
                crate::merkle::views_of(raw_keys@),
            ) == Some(0int));
            assert(spec_meta_section(data@.subrange(meta_start as int, dlen), nm as nat, empty_seen)
                == Some(ms));
        }
        if data.len() - offset != 32 {
            proof {
                assert(!spec_composite_decodable(data@));
            }
            return Err(ZkpError::InvalidProofFormat("missing composition hash".to_string()));
        }
        let composition_hash = slice_to_vec(slice_subrange(data, offset, offset + 32));
        let expected_hash = compute_composition_hash(&proofs);
        proof {
            assert(spec_composition_preimage(proofs@) =~= spec_composite_hash_label() + data@
                .subrange(4, 8) + spec_proof_section_bodies(data@.subrange(12, dlen), np as nat));
        }
        if !bytes_eq(composition_hash.as_slice(), expected_hash.as_slice()) {
            proof {
                assert(data@.subrange(offset as int, dlen) != sha256_of(
                    spec_composite_hash_label() + data@.subrange(4, 8)
                        + spec_proof_section_bodies(data@.subrange(12, dlen), np as nat),
                ));
                assert(!spec_composite_decodable(data@));
            }
            return Err(ZkpError::InvalidProofFormat("composition hash mismatch".to_string()));
        }
        let c = CompositeProof { proofs, metadata, composition_hash };
        proof {
            assert forall|a: int, b: int|
                0 <= a < b < c.metadata@.len() implies (#[trigger] c.metadata@[a]).0@ != (
            #[trigger] c.metadata@[b]).0@ by {
                if c.metadata@[a].0@ == c.metadata@[b].0@ {
                    assert(raw_keys@[a]@ == raw_keys@[b]@);
                }
            }
            assert(spec_composite_decodable(data@));
            assert(data@ =~= spec_composite_magic() + data@.subrange(4, 8) + data@.subrange(8, 12)
                + data@.subrange(12, 12 + ps) + data@.subrange(meta_start as int, offset as int)
                + data@.subrange(offset as int, dlen));
            assert(data@.subrange(4, 8) =~= spec_u32_to_le_bytes(c.proofs@.len() as u32));
            assert(data@.subrange(8, 12) =~= spec_u32_to_le_bytes(c.metadata@.len() as u32));
            assert(data@ =~= c.spec_wire_bytes());
        }
        Ok(c)
    }
}

/// Inserts or replaces an entry in a metadata list, keeping keys unique.
fn replace_meta_entry(metadata: &mut Vec<(String, Vec<u8>)>, key: String, value: Vec<u8>)
    requires
        old(metadata)@.len() < 1000,
        forall|p: int, q: int|
            0 <= p < q < old(metadata)@.len() ==> (#[trigger] old(metadata)@[p]).0@ != (
            #[trigger] old(metadata)@[q]).0@,
        forall|q: int| 0 <= q < old(metadata)@.len() ==> {
            &&& encode_utf8((#[trigger] old(metadata)@[q]).0@).len() <= 1024
            &&& old(metadata)@[q].1@.len() <= 65536
        },
        encode_utf8(key@).len() <= 1024,
        value@.len() <= 65536,
    ensures
        final(metadata)@.len() <= old(metadata)@.len() + 1,
        forall|p: int, q: int|
            0 <= p < q < final(metadata)@.len() ==> (#[trigger] final(metadata)@[p]).0@ != (
            #[trigger] final(metadata)@[q]).0@,
        forall|q: int| 0 <= q < final(metadata)@.len() ==> {
            &&& encode_utf8((#[trigger] final(metadata)@[q]).0@).len() <= 1024
            &&& final(metadata)@[q].1@.len() <= 65536
        },
        exists|i: int|
            0 <= i < final(metadata)@.len() && (#[trigger] final(metadata)@[i]).0@ == key@
                && final(metadata)@[i].1@ == value@,
{
    let ghost m0 = old(metadata)@;
    let ghost key_view = key@;
    let mut i: usize = 0;
    let n = metadata.len();
    while i < n
        invariant
            i <= n,
            n == m0.len(),
            metadata@ == m0,
            m0 == old(metadata)@,
            key_view == key@,
            m0.len() < 1000,
            forall|p: int, q: int|
                0 <= p < q < m0.len() ==> (#[trigger] m0[p]).0@ != (#[trigger] m0[q]).0@,
            forall|q: int| 0 <= q < m0.len() ==> {
                &&& encode_utf8((#[trigger] m0[q]).0@).len() <= 1024
                &&& m0[q].1@.len() <= 65536
            },
            encode_utf8(key_view).len() <= 1024,
            value@.len() <= 65536,
            forall|q: int| 0 <= q < i ==> (#[trigger] m0[q]).0@ != key_view,
        decreases n - i,
    {
        let hit = metadata[i].0.eq(&key);
        if hit {
            proof {
                assert(m0[i as int].0@ == key_view);
            }
            metadata.remove(i);
            metadata.push((key, value));
            proof {
                let m1 = metadata@;
                assert(m1.len() == m0.len());
                assert(m1[m1.len() - 1].0@ == key_view && m1[m1.len() - 1].1@ == value@);
                assert forall|q: int| 0 <= q < m1.len() - 1 implies m1[q] == (if q < i {
                    m0[q]
                } else {
                    m0[q + 1]
                }) by {}
                assert forall|p: int, q: int| 0 <= p < q < m1.len() implies m1[p].0@ != m1[q].0@ by {
                    if q < m1.len() - 1 {
                    } else {
                        let po = if p < i { p } else { p + 1 };
                        assert(m1[p] == m0[po]);
                        if po != i {
                            assert(m0[po].0@ != m0[i as int].0@);
                        }
                    }
                }
            }
            return ;
        }
        proof {
            assert(m0[i as int].0@ != key_view);
        }
        i = i + 1;
    }
    metadata.push((key, value));
    proof {
        let m1 = metadata@;
        assert(m1[m1.len() - 1].0@ == key_view && m1[m1.len() - 1].1@ == value@);
        assert forall|p: int, q: int| 0 <= p < q < m1.len() implies m1[p].0@ != m1[q].0@ by {
            if q == m1.len() - 1 {
                assert(m1[p] == m0[p]);
            }
        }
    }
}

/// One pending proof request of a batch.
#[derive(Debug, Clone)]
pub enum BatchOperation {
    RangeProof { value: u64, min: u64, max: u64 },
    EqualityProof { val1: u64, val2: u64 },
    ThresholdProof { values: Vec<u64>, threshold: u64 },
    MembershipProof { value: u64, set: Vec<u64> },
    ImprovementProof { old: u64, new: u64 },
    ConsistencyProof { data: Vec<u64> },
}

/// An append-only list of pending proof operations.
pub struct ProofBatch {
    operations: Vec<BatchOperation>,
}

impl ProofBatch {
    /// The pending operations, in insertion order.
    pub closed spec fn view_ops(&self) -> Seq<BatchOperation> {
        self.operations@
    }

    pub fn new() -> (r: ProofBatch)
        ensures
            r.view_ops().len() == 0,
    {
        ProofBatch { operations: Vec::new() }
    }

    pub fn add_range_proof(&mut self, value: u64, min: u64, max: u64)
        ensures
            final(self).view_ops() == old(self).view_ops().push(
                BatchOperation::RangeProof { value, min, max },
            ),
    {
        self.operations.push(BatchOperation::RangeProof { value, min, max });
    }

    pub fn add_equality_proof(&mut self, val1: u64, val2: u64)
        ensures
            final(self).view_ops() == old(self).view_ops().push(
                BatchOperation::EqualityProof { val1, val2 },
            ),
    {
        self.operations.push(BatchOperation::EqualityProof { val1, val2 });
    }

    pub fn add_threshold_proof(&mut self, values: Vec<u64>, threshold: u64)
        ensures
            final(self).view_ops().len() == old(self).view_ops().len() + 1,
            final(self).view_ops().last() matches BatchOperation::ThresholdProof {
                values: v,
                threshold: t,
            } && v@ == values@ && t == threshold,
            final(self).view_ops().take(old(self).view_ops().len() as int) == old(
                self,
            ).view_ops(),
    {
        self.operations.push(BatchOperation::ThresholdProof { values, threshold });
        proof {
            assert(self.operations@.take(self.operations@.len() - 1) =~= old(self).operations@);
        }
    }

    pub fn add_membership_proof(&mut self, value: u64, set: Vec<u64>)
        ensures
            final(self).view_ops().len() == old(self).view_ops().len() + 1,
            final(self).view_ops().last() matches BatchOperation::MembershipProof {
                value: v,
                set: s,
            } && v == value && s@ == set@,
            final(self).view_ops().take(old(self).view_ops().len() as int) == old(
                self,
            ).view_ops(),
    {
        self.operations.push(BatchOperation::MembershipProof { value, set });
        proof {
            assert(self.operations@.take(self.operations@.len() - 1) =~= old(self).operations@);
        }
    }

    pub fn add_improvement_proof(&mut self, old_value: u64, new_value: u64)
        ensures
            final(self).view_ops() == old(self).view_ops().push(
                BatchOperation::ImprovementProof { old: old_value, new: new_value },
            ),
    {
        self.operations.push(BatchOperation::ImprovementProof { old: old_value, new: new_value });
    }

    pub fn add_consistency_proof(&mut self, data: Vec<u64>)
        ensures
            final(self).view_ops().len() == old(self).view_ops().len() + 1,
            final(self).view_ops().last() matches BatchOperation::ConsistencyProof { data: d }
                && d@ == data@,
            final(self).view_ops().take(old(self).view_ops().len() as int) == old(
                self,
            ).view_ops(),
    {
        self.operations.push(BatchOperation::ConsistencyProof { data });
        proof {
            assert(self.operations@.take(self.operations@.len() - 1) =~= old(self).operations@);
        }
    }

    pub fn len(&self) -> (r: usize)
        ensures
            r == self.view_ops().len(),
    {
        self.operations.len()
    }

    pub fn is_empty(&self) -> (r: bool)
        ensures
            r == (self.view_ops().len() == 0),
    {
        self.operations.len() == 0
    }

    pub fn operations(&self) -> (r: &Vec<BatchOperation>)
        ensures
            r@ == self.view_ops(),
    {
        &self.operations
    }
}

} // verus!
