//! Little-endian serialisation helpers shared by the engines and the
//! predicate operations: length-prefixed `u64` vectors, proof metadata and
//! per-predicate parameter blocks.

use vstd::prelude::*;
use vstd::bytes::{
    spec_u32_from_le_bytes, spec_u32_to_le_bytes, spec_u64_from_le_bytes, spec_u64_to_le_bytes,
    u32_from_le_bytes, u32_to_le_bytes, u64_from_le_bytes, u64_to_le_bytes,
};
use vstd::slice::slice_subrange;
use crate::errors::{ZkpError, ZkpResult};
use crate::limits::{
    MAX_BACKEND_OPERATION_LEN, MAX_BACKEND_PAYLOAD_BYTES, MAX_METADATA_ADDITIONAL_BYTES,
    MAX_U64_VEC_LEN,
};

verus! {

/// Appends all bytes of `src` to `dst`.
pub fn push_bytes(dst: &mut Vec<u8>, src: &[u8])
    ensures
        final(dst)@ == old(dst)@ + src@,
{
    let mut i: usize = 0;
    while i < src.len()
        invariant
            i <= src@.len(),
            dst@ == old(dst)@ + src@.take(i as int),
        decreases src@.len() - i,
    {
        let b = *vstd::slice::slice_index_get(src, i);
        dst.push(b);
        proof {
            assert(src@.take(i + 1) =~= src@.take(i as int).push(src@[i as int]));
        }
        i = i + 1;
    }
    proof {
        assert(src@.take(src@.len() as int) =~= src@);
    }
}

/// Appends the 8-byte little-endian form of `v` to `dst`.
pub fn push_u64_le(dst: &mut Vec<u8>, v: u64)
    ensures
        final(dst)@ == old(dst)@ + spec_u64_to_le_bytes(v),
{
    let mut b = u64_to_le_bytes(v);
    dst.append(&mut b);
}

/// Appends the 4-byte little-endian form of `v` to `dst`.
pub fn push_u32_le(dst: &mut Vec<u8>, v: u32)
    ensures
        final(dst)@ == old(dst)@ + spec_u32_to_le_bytes(v),
{
    let mut b = u32_to_le_bytes(v);
    dst.append(&mut b);
}

/// The concatenation of the 8-byte little-endian forms of the values.
pub open spec fn spec_u64s_le(values: Seq<u64>) -> Seq<u8>
    decreases values.len(),
{
    if values.len() == 0 {
        Seq::<u8>::empty()
    } else {
        spec_u64_to_le_bytes(values[0]) + spec_u64s_le(values.drop_first())
    }
}

pub proof fn lemma_u64s_le_len(values: Seq<u64>)
    ensures
        spec_u64s_le(values).len() == 8 * values.len(),
    decreases values.len(),
{
    vstd::bytes::lemma_auto_spec_u64_to_from_le_bytes();
    if values.len() > 0 {
        lemma_u64s_le_len(values.drop_first());
    }
}

pub proof fn lemma_u64s_le_push(values: Seq<u64>, x: u64)
    ensures
        spec_u64s_le(values.push(x)) == spec_u64s_le(values) + spec_u64_to_le_bytes(x),
    decreases values.len(),
{
    if values.len() == 0 {
        let p = values.push(x);
        assert(p[0] == x);
        assert(p.drop_first() =~= Seq::<u64>::empty());
        assert(spec_u64s_le(p) == spec_u64_to_le_bytes(x) + spec_u64s_le(p.drop_first()));
        assert(spec_u64s_le(values) =~= Seq::<u8>::empty());
        assert(spec_u64s_le(p) =~= spec_u64s_le(values) + spec_u64_to_le_bytes(x));
    } else {
        assert(values.push(x).drop_first() =~= values.drop_first().push(x));
        lemma_u64s_le_push(values.drop_first(), x);
        assert(spec_u64s_le(values.push(x)) =~= spec_u64s_le(values) + spec_u64_to_le_bytes(x));
    }
}

/// Each element's encoding sits at its 8-byte offset in the concatenation.
pub proof fn lemma_u64s_le_index(values: Seq<u64>, i: int)
    requires
        0 <= i < values.len(),
    ensures
        spec_u64s_le(values).subrange(8 * i, 8 * i + 8) == spec_u64_to_le_bytes(values[i]),
    decreases i,
{
    vstd::bytes::lemma_auto_spec_u64_to_from_le_bytes();
    lemma_u64s_le_len(values.drop_first());
    if i == 0 {
        assert(spec_u64s_le(values).subrange(0, 8) =~= spec_u64_to_le_bytes(values[0]));
    } else {
        lemma_u64s_le_index(values.drop_first(), i - 1);
        assert(spec_u64s_le(values).subrange(8 * i, 8 * i + 8) =~= spec_u64s_le(
            values.drop_first(),
        ).subrange(8 * (i - 1), 8 * (i - 1) + 8));
        assert(values.drop_first()[i - 1] == values[i]);
    }
}

/// Wire form of a `u64` vector: a `u32` count followed by the elements.
pub open spec fn spec_serialize_u64_vec(values: Seq<u64>) -> Seq<u8> {
    spec_u32_to_le_bytes(values.len() as u32) + spec_u64s_le(values)
}

/// Whether a byte string is a well-formed `u64` vector encoding within the
/// element-count limit.
pub open spec fn spec_u64_vec_decodable(data: Seq<u8>) -> bool {
    &&& data.len() >= 4
    &&& spec_u32_from_le_bytes(data.subrange(0, 4)) <= MAX_U64_VEC_LEN
    &&& data.len() == 4 + 8 * spec_u32_from_le_bytes(data.subrange(0, 4))
}

/// Serialises a vector of `u64` values as a `u32` count plus LE elements.
pub fn serialize_u64_vec(values: &[u64]) -> (r: Vec<u8>)
    requires
        values@.len() <= u32::MAX,
    ensures
        r@ == spec_serialize_u64_vec(values@),
{
    let mut out: Vec<u8> = Vec::new();
    push_u32_le(&mut out, values.len() as u32);
    let mut i: usize = 0;
    while i < values.len()
        invariant
            i <= values@.len(),
            values@.len() <= u32::MAX,
            out@ == spec_u32_to_le_bytes(values@.len() as u32) + spec_u64s_le(values@.take(i as int)),
        decreases values@.len() - i,
    {
        let v = *vstd::slice::slice_index_get(values, i);
        push_u64_le(&mut out, v);
        proof {
            assert(values@.take(i + 1) =~= values@.take(i as int).push(values@[i as int]));
            lemma_u64s_le_push(values@.take(i as int), values@[i as int]);
        }
        i = i + 1;
    }
    proof {
        assert(values@.take(values@.len() as int) =~= values@);
    }
    out
}

/// Parses a length-prefixed `u64` vector, rejecting blobs whose declared
/// count is over the limit or whose size does not match the declaration.
pub fn deserialize_u64_vec(data: &[u8]) -> (r: ZkpResult<Vec<u64>>)
    ensures
        r is Ok <==> spec_u64_vec_decodable(data@),
        r matches Ok(v) ==> {
            &&& data@ == spec_serialize_u64_vec(v@)
            &&& v@.len() == spec_u32_from_le_bytes(data@.subrange(0, 4))
            &&& forall|i: int| 0 <= i < v@.len() ==> v@[i] == spec_u64_from_le_bytes(
                #[trigger] data@.subrange(4 + 8 * i, 12 + 8 * i),
            )
        },
{
    if data.len() < 4 {
        return Err(ZkpError::SerializationError("data too short for length field".to_string()));
    }
    let len = u32_from_le_bytes(slice_subrange(data, 0, 4)) as usize;
    if len > MAX_U64_VEC_LEN {
        return Err(ZkpError::SerializationError("vector too large".to_string()));
    }
    if data.len() != 4 + len * 8 {
        return Err(ZkpError::SerializationError("data size mismatch".to_string()));
    }
    let mut values: Vec<u64> = Vec::new();
    let mut i: usize = 0;
    while i < len
        invariant
            i <= len,
            len <= MAX_U64_VEC_LEN,
            data@.len() == 4 + 8 * len,
            len == spec_u32_from_le_bytes(data@.subrange(0, 4)),
            values@.len() == i,
            spec_u64s_le(values@) == data@.subrange(4, 4 + 8 * i),
            forall|j: int| 0 <= j < i ==> values@[j] == spec_u64_from_le_bytes(
                #[trigger] data@.subrange(4 + 8 * j, 12 + 8 * j),
            ),
        decreases len - i,
    {
        let start = 4 + i * 8;
        let v = u64_from_le_bytes(slice_subrange(data, start, start + 8));
        proof {
            vstd::bytes::lemma_auto_spec_u64_to_from_le_bytes();
            lemma_u64s_le_push(values@, v);
            assert(spec_u64_to_le_bytes(v) =~= data@.subrange(4 + 8 * i, 12 + 8 * i));
            assert(data@.subrange(4, 4 + 8 * i) + data@.subrange(4 + 8 * i, 12 + 8 * i)
                =~= data@.subrange(4, 4 + 8 * (i + 1)));
        }
        values.push(v);
        i = i + 1;
    }
    proof {
        assert(data@.subrange(4, 4 + 8 * len as int) =~= data@.subrange(4, data@.len() as int));
        assert(data@ =~= data@.subrange(0, 4) + data@.subrange(4, data@.len() as int));
        vstd::bytes::lemma_auto_spec_u32_to_from_le_bytes();
        assert(spec_u32_to_le_bytes(values@.len() as u32) =~= data@.subrange(0, 4));
        assert(data@ =~= spec_serialize_u64_vec(values@));
    }
    Ok(values)
}

/// A `u64` vector encoding round-trips through serialise and deserialise.
pub proof fn lemma_u64_vec_round_trip(values: Seq<u64>)
    requires
        values.len() <= MAX_U64_VEC_LEN,
    ensures
        spec_u64_vec_decodable(spec_serialize_u64_vec(values)),
        forall|w: Seq<u64>| spec_serialize_u64_vec(w) == spec_serialize_u64_vec(values)
            && w.len() == values.len() ==> w =~= values,
{
    let e = spec_serialize_u64_vec(values);
    vstd::bytes::lemma_auto_spec_u32_to_from_le_bytes();
    lemma_u64s_le_len(values);
    assert(e.subrange(0, 4) =~= spec_u32_to_le_bytes(values.len() as u32));
    assert forall|w: Seq<u64>| spec_serialize_u64_vec(w) == e && w.len() == values.len()
        implies w =~= values by {
        lemma_u64s_le_len(w);
        assert(spec_u64s_le(w) =~= spec_serialize_u64_vec(w).subrange(
            4,
            spec_serialize_u64_vec(w).len() as int,
        ));
        assert(spec_u64s_le(values) =~= e.subrange(4, e.len() as int));
        lemma_u64s_le_injective_prefix(w, values);
    }
}

/// Two equal-length vectors with the same element encoding are equal.
proof fn lemma_u64s_le_injective_prefix(a: Seq<u64>, b: Seq<u64>)
    requires
        a.len() == b.len(),
        spec_u64s_le(a) == spec_u64s_le(b),
    ensures
        a =~= b,
    decreases a.len(),
{
    vstd::bytes::lemma_auto_spec_u64_to_from_le_bytes();
    if a.len() > 0 {
        lemma_u64s_le_len(a.drop_first());
        lemma_u64s_le_len(b.drop_first());
        let ea = spec_u64s_le(a);
        assert(spec_u64_to_le_bytes(a[0]) =~= ea.subrange(0, 8));
        assert(spec_u64_to_le_bytes(b[0]) =~= ea.subrange(0, 8));
        assert(a[0] == spec_u64_from_le_bytes(spec_u64_to_le_bytes(a[0])));
        assert(b[0] == spec_u64_from_le_bytes(spec_u64_to_le_bytes(b[0])));
        assert(spec_u64s_le(a.drop_first()) =~= ea.subrange(8, ea.len() as int));
        assert(spec_u64s_le(b.drop_first()) =~= ea.subrange(8, ea.len() as int));
        lemma_u64s_le_injective_prefix(a.drop_first(), b.drop_first());
        assert(a =~= seq![a[0]] + a.drop_first());
        assert(b =~= seq![b[0]] + b.drop_first());
    }
}

/// Wire form of proof metadata: version, scheme, `u32` length, extra bytes.
pub open spec fn spec_proof_metadata(scheme_id: u8, version: u8, additional: Seq<u8>) -> Seq<u8> {
    seq![version, scheme_id] + spec_u32_to_le_bytes(additional.len() as u32) + additional
}

/// Serialises proof metadata with a length-prefixed trailer.
pub fn serialize_proof_metadata(scheme_id: u8, version: u8, additional_data: &[u8]) -> (r: Vec<u8>)
    requires
        additional_data@.len() <= u32::MAX,
    ensures
        r@ == spec_proof_metadata(scheme_id, version, additional_data@),
{
    let mut out: Vec<u8> = Vec::new();
    out.push(version);
    out.push(scheme_id);
    push_u32_le(&mut out, additional_data.len() as u32);
    push_bytes(&mut out, additional_data);
    proof {
        assert(out@ =~= spec_proof_metadata(scheme_id, version, additional_data@));
    }
    out
}

/// Whether a byte string is a well-formed metadata encoding within limits.
pub open spec fn spec_proof_metadata_decodable(data: Seq<u8>) -> bool {
    &&& data.len() >= 6
    &&& spec_u32_from_le_bytes(data.subrange(2, 6)) <= MAX_METADATA_ADDITIONAL_BYTES
    &&& data.len() == 6 + spec_u32_from_le_bytes(data.subrange(2, 6))
}

/// Parses proof metadata into `(version, scheme, additional bytes)`.
pub fn deserialize_proof_metadata(data: &[u8]) -> (r: ZkpResult<(u8, u8, Vec<u8>)>)
    ensures
        r is Ok <==> spec_proof_metadata_decodable(data@),
        r matches Ok(t) ==> data@ == spec_proof_metadata(t.1, t.0, t.2@),
{
    if data.len() < 6 {
        return Err(ZkpError::SerializationError("metadata too short".to_string()));
    }
    let version = *vstd::slice::slice_index_get(data, 0);
    let scheme_id = *vstd::slice::slice_index_get(data, 1);
    let additional_len = u32_from_le_bytes(slice_subrange(data, 2, 6)) as usize;
    if additional_len > MAX_METADATA_ADDITIONAL_BYTES {
        return Err(ZkpError::SerializationError("metadata too large".to_string()));
    }
    if data.len() != 6 + additional_len {
        return Err(ZkpError::SerializationError("metadata size mismatch".to_string()));
    }
    let additional = vstd::slice::slice_to_vec(slice_subrange(data, 6, data.len()));
    proof {
        vstd::bytes::lemma_auto_spec_u32_to_from_le_bytes();
        assert(data@ =~= spec_proof_metadata(scheme_id, version, additional@));
    }
    Ok((version, scheme_id, additional))
}

/// Wire form of a backend payload: length-prefixed operation name, then
/// length-prefixed parameter bytes.
pub open spec fn spec_backend_payload(operation: Seq<u8>, params: Seq<u8>) -> Seq<u8> {
    spec_u32_to_le_bytes(operation.len() as u32) + operation
        + spec_u32_to_le_bytes(params.len() as u32) + params
}

/// Builds a backend payload; an empty vector signals a refused encoding
/// (operation name too long, or payload over its cap).
pub fn create_backend_payload(operation: &[u8], params: &[u8]) -> (r: Vec<u8>)
    ensures
        r@ == if operation@.len() > MAX_BACKEND_OPERATION_LEN
            || 8 + operation@.len() + params@.len() > MAX_BACKEND_PAYLOAD_BYTES {
            Seq::<u8>::empty()
        } else {
            spec_backend_payload(operation@, params@)
        },
{
    if operation.len() > MAX_BACKEND_OPERATION_LEN {
        return Vec::new();
    }
    if params.len() > MAX_BACKEND_PAYLOAD_BYTES || 8 + operation.len() + params.len() > MAX_BACKEND_PAYLOAD_BYTES {
        return Vec::new();
    }
    let mut out: Vec<u8> = Vec::new();
    push_u32_le(&mut out, operation.len() as u32);
    push_bytes(&mut out, operation);
    push_u32_le(&mut out, params.len() as u32);
    push_bytes(&mut out, params);
    proof {
        assert(out@ =~= spec_backend_payload(operation@, params@));
    }
    out
}

/// Whether a byte string is a well-formed backend payload within limits.
pub open spec fn spec_backend_payload_decodable(data: Seq<u8>) -> bool {
    &&& data.len() >= 8
    &&& data.len() <= MAX_BACKEND_PAYLOAD_BYTES
    &&& spec_u32_from_le_bytes(data.subrange(0, 4)) <= MAX_BACKEND_OPERATION_LEN
    &&& data.len() >= 8 + spec_u32_from_le_bytes(data.subrange(0, 4))
    &&& data.len() == 8 + spec_u32_from_le_bytes(data.subrange(0, 4))
        + spec_u32_from_le_bytes(data.subrange(
            4 + spec_u32_from_le_bytes(data.subrange(0, 4)) as int,
            8 + spec_u32_from_le_bytes(data.subrange(0, 4)) as int,
        ))
}

/// Parses a backend payload into `(operation bytes, parameter bytes)`.
pub fn parse_backend_payload(data: &[u8]) -> (r: ZkpResult<(Vec<u8>, Vec<u8>)>)
    ensures
        r is Ok <==> spec_backend_payload_decodable(data@),
        r matches Ok(t) ==> data@ == spec_backend_payload(t.0@, t.1@),
{
    if data.len() > MAX_BACKEND_PAYLOAD_BYTES {
        return Err(ZkpError::SerializationError("payload too large".to_string()));
    }
    if data.len() < 8 {
        return Err(ZkpError::SerializationError("payload too short".to_string()));
    }
    let op_len = u32_from_le_bytes(slice_subrange(data, 0, 4)) as usize;
    if op_len > MAX_BACKEND_OPERATION_LEN {
        return Err(ZkpError::SerializationError("operation too long".to_string()));
    }
    if data.len() < 8 + op_len {
        return Err(ZkpError::SerializationError("payload size mismatch".to_string()));
    }
    let params_len = u32_from_le_bytes(slice_subrange(data, 4 + op_len, 8 + op_len)) as usize;
    if data.len() - 8 - op_len != params_len {
        return Err(ZkpError::SerializationError("payload size mismatch".to_string()));
    }
    let operation = vstd::slice::slice_to_vec(slice_subrange(data, 4, 4 + op_len));
    let params = vstd::slice::slice_to_vec(slice_subrange(data, 8 + op_len, data.len()));
    proof {
        vstd::bytes::lemma_auto_spec_u32_to_from_le_bytes();
        assert(data@ =~= spec_backend_payload(operation@, params@));
    }
    Ok((operation, params))
}

/// Wire form of range parameters: value, min, max, each 8 bytes LE.
pub open spec fn spec_range_params(value: u64, min: u64, max: u64) -> Seq<u8> {
    spec_u64_to_le_bytes(value) + spec_u64_to_le_bytes(min) + spec_u64_to_le_bytes(max)
}

/// Serialises range parameters.
pub fn serialize_range_params(value: u64, min: u64, max: u64) -> (r: Vec<u8>)
    ensures
        r@ == spec_range_params(value, min, max),
{
    let mut out: Vec<u8> = Vec::new();
    push_u64_le(&mut out, value);
    push_u64_le(&mut out, min);
    push_u64_le(&mut out, max);
    out
}

/// Parses range parameters, returning `(value, min, max)` exactly on
/// 24-byte inputs.
pub fn deserialize_range_params(data: &[u8]) -> (r: ZkpResult<(u64, u64, u64)>)
    ensures
        r is Ok <==> data@.len() == 24,
        r matches Ok(t) ==> data@ == spec_range_params(t.0, t.1, t.2),
{
    if data.len() != 24 {
        return Err(ZkpError::SerializationError("invalid range params size".to_string()));
    }
    let value = u64_from_le_bytes(slice_subrange(data, 0, 8));
    let min = u64_from_le_bytes(slice_subrange(data, 8, 16));
    let max = u64_from_le_bytes(slice_subrange(data, 16, 24));
    proof {
        vstd::bytes::lemma_auto_spec_u64_to_from_le_bytes();
        assert(data@ =~= spec_range_params(value, min, max));
    }
    Ok((value, min, max))
}

/// Wire form of threshold parameters: the threshold then the value vector.
pub open spec fn spec_threshold_params(values: Seq<u64>, threshold: u64) -> Seq<u8> {
    spec_u64_to_le_bytes(threshold) + spec_serialize_u64_vec(values)
}

/// Serialises threshold parameters.
pub fn serialize_threshold_params(values: &[u64], threshold: u64) -> (r: Vec<u8>)
    requires
        values@.len() <= u32::MAX,
    ensures
        r@ == spec_threshold_params(values@, threshold),
{
    let mut out: Vec<u8> = Vec::new();
    push_u64_le(&mut out, threshold);
    let mut vec_bytes = serialize_u64_vec(values);
    out.append(&mut vec_bytes);
    out
}

/// Parses threshold parameters into `(values, threshold)`.
pub fn deserialize_threshold_params(data: &[u8]) -> (r: ZkpResult<(Vec<u64>, u64)>)
    ensures
        r is Ok <==> data@.len() >= 8 && spec_u64_vec_decodable(
            data@.subrange(8, data@.len() as int),
        ),
        r matches Ok(t) ==> data@ == spec_threshold_params(t.0@, t.1),
{
    if data.len() < 8 {
        return Err(ZkpError::SerializationError("threshold params too short".to_string()));
    }
    let threshold = u64_from_le_bytes(slice_subrange(data, 0, 8));
    let rest = slice_subrange(data, 8, data.len());
    let values = deserialize_u64_vec(rest)?;
    proof {
        vstd::bytes::lemma_auto_spec_u64_to_from_le_bytes();
        assert(data@ =~= spec_threshold_params(values@, threshold));
    }
    Ok((values, threshold))
}

/// Wire form of improvement parameters: old then new, 8 bytes LE each.
pub open spec fn spec_improvement_params(old_value: u64, new_value: u64) -> Seq<u8> {
    spec_u64_to_le_bytes(old_value) + spec_u64_to_le_bytes(new_value)
}

/// Serialises improvement parameters.
pub fn serialize_improvement_params(old_value: u64, new_value: u64) -> (r: Vec<u8>)
    ensures
        r@ == spec_improvement_params(old_value, new_value),
{
    let mut out: Vec<u8> = Vec::new();
    push_u64_le(&mut out, old_value);
    push_u64_le(&mut out, new_value);
    out
}

/// Parses improvement parameters, returning `(old, new)` exactly on
/// 16-byte inputs.
pub fn deserialize_improvement_params(data: &[u8]) -> (r: ZkpResult<(u64, u64)>)
    ensures
        r is Ok <==> data@.len() == 16,
        r matches Ok(t) ==> data@ == spec_improvement_params(t.0, t.1),
{
    if data.len() != 16 {
        return Err(ZkpError::SerializationError("invalid improvement params size".to_string()));
    }
    let old_value = u64_from_le_bytes(slice_subrange(data, 0, 8));
    let new_value = u64_from_le_bytes(slice_subrange(data, 8, 16));
    proof {
        vstd::bytes::lemma_auto_spec_u64_to_from_le_bytes();
        assert(data@ =~= spec_improvement_params(old_value, new_value));
    }
    Ok((old_value, new_value))
}

/// Wire form of membership parameters: the value then the set vector.
pub open spec fn spec_membership_params(value: u64, set: Seq<u64>) -> Seq<u8> {
    spec_u64_to_le_bytes(value) + spec_serialize_u64_vec(set)
}

/// Serialises membership parameters.
pub fn serialize_membership_params(value: u64, set: &[u64]) -> (r: Vec<u8>)
    requires
        set@.len() <= u32::MAX,
    ensures
        r@ == spec_membership_params(value, set@),
{
    let mut out: Vec<u8> = Vec::new();
    push_u64_le(&mut out, value);
    let mut vec_bytes = serialize_u64_vec(set);
    out.append(&mut vec_bytes);
    out
}

/// Parses membership parameters into `(value, set)`.
pub fn deserialize_membership_params(data: &[u8]) -> (r: ZkpResult<(u64, Vec<u64>)>)
    ensures
        r is Ok <==> data@.len() >= 8 && spec_u64_vec_decodable(
            data@.subrange(8, data@.len() as int),
        ),
        r matches Ok(t) ==> data@ == spec_membership_params(t.0, t.1@),
{
    if data.len() < 8 {
        return Err(ZkpError::SerializationError("membership params too short".to_string()));
    }
    let value = u64_from_le_bytes(slice_subrange(data, 0, 8));
    let rest = slice_subrange(data, 8, data.len());
    let set = deserialize_u64_vec(rest)?;
    proof {
        vstd::bytes::lemma_auto_spec_u64_to_from_le_bytes();
        assert(data@ =~= spec_membership_params(value, set@));
    }
    Ok((value, set))
}

/// The lowercase hexadecimal digit for a nibble.
pub open spec fn spec_hex_digit(n: u8) -> char {
    if n == 0 {
        '0'
    } else if n == 1 {
        '1'
    } else if n == 2 {
        '2'
    } else if n == 3 {
        '3'
    } else if n == 4 {
        '4'
    } else if n == 5 {
        '5'
    } else if n == 6 {
        '6'
    } else if n == 7 {
        '7'
    } else if n == 8 {
        '8'
    } else if n == 9 {
        '9'
    } else if n == 10 {
        'a'
    } else if n == 11 {
        'b'
    } else if n == 12 {
        'c'
    } else if n == 13 {
        'd'
    } else if n == 14 {
        'e'
    } else {
        'f'
    }
}

/// The lowercase hex rendering of a byte string, two digits per byte.
pub open spec fn spec_to_hex(data: Seq<u8>) -> Seq<char>
    decreases data.len(),
{
    if data.len() == 0 {
        Seq::<char>::empty()
    } else {
        seq![spec_hex_digit(data[0] / 16), spec_hex_digit(data[0] % 16)] + spec_to_hex(
            data.drop_first(),
        )
    }
}

proof fn lemma_to_hex_push(data: Seq<u8>, b: u8)
    ensures
        spec_to_hex(data.push(b)) == spec_to_hex(data) + seq![
            spec_hex_digit(b / 16),
            spec_hex_digit(b % 16),
        ],
    decreases data.len(),
{
    let w = data.push(b);
    if data.len() == 0 {
        assert(w[0] == b);
        assert(w.drop_first() =~= Seq::<u8>::empty());
        assert(spec_to_hex(w.drop_first()) == Seq::<char>::empty());
        assert(spec_to_hex(data) == Seq::<char>::empty());
        assert(spec_to_hex(w) =~= spec_to_hex(data) + seq![
            spec_hex_digit(b / 16),
            spec_hex_digit(b % 16),
        ]);
    } else {
        assert(w[0] == data[0]);
        assert(w.drop_first() =~= data.drop_first().push(b));
        lemma_to_hex_push(data.drop_first(), b);
        assert(spec_to_hex(w) =~= spec_to_hex(data) + seq![
            spec_hex_digit(b / 16),
            spec_hex_digit(b % 16),
        ]);
    }
}

/// The one-character string for a nibble.
fn hex_digit_str(n: u8) -> (r: &'static str)
    requires
        n < 16,
    ensures
        r@ == seq![spec_hex_digit(n)],
{
    if n == 0 {
        proof {
            reveal_strlit("0");
        }
        let r = "0";
        proof {
            assert(r@ =~= seq![spec_hex_digit(n)]);
        }
        r
    } else if n == 1 {
        proof {
            reveal_strlit("1");
        }
        let r = "1";
        proof {
            assert(r@ =~= seq![spec_hex_digit(n)]);
        }
        r
    } else if n == 2 {
        proof {
            reveal_strlit("2");
        }
        let r = "2";
        proof {
            assert(r@ =~= seq![spec_hex_digit(n)]);
        }
        r
    } else if n == 3 {
        proof {
            reveal_strlit("3");
        }
        let r = "3";
        proof {
            assert(r@ =~= seq![spec_hex_digit(n)]);
        }
        r
    } else if n == 4 {
        proof {
            reveal_strlit("4");
        }
        let r = "4";
        proof {
            assert(r@ =~= seq![spec_hex_digit(n)]);
        }
        r
    } else if n == 5 {
        proof {
            reveal_strlit("5");
        }
        let r = "5";
        proof {
            assert(r@ =~= seq![spec_hex_digit(n)]);
        }
        r
    } else if n == 6 {
        proof {
            reveal_strlit("6");
        }
        let r = "6";
        proof {
            assert(r@ =~= seq![spec_hex_digit(n)]);
        }
        r
    } else if n == 7 {
        proof {
            reveal_strlit("7");
        }
        let r = "7";
        proof {
            assert(r@ =~= seq![spec_hex_digit(n)]);
        }
        r
    } else if n == 8 {
        proof {
            reveal_strlit("8");
        }
        let r = "8";
        proof {
            assert(r@ =~= seq![spec_hex_digit(n)]);
        }
        r
    } else if n == 9 {
        proof {
            reveal_strlit("9");
        }
        let r = "9";
        proof {
            assert(r@ =~= seq![spec_hex_digit(n)]);
        }
        r
    } else if n == 10 {
        proof {
            reveal_strlit("a");
        }
        let r = "a";
        proof {
            assert(r@ =~= seq![spec_hex_digit(n)]);
        }
        r
    } else if n == 11 {
        proof {
            reveal_strlit("b");
        }
        let r = "b";
        proof {
            assert(r@ =~= seq![spec_hex_digit(n)]);
        }
        r
    } else if n == 12 {
        proof {
            reveal_strlit("c");
        }
        let r = "c";
        proof {
            assert(r@ =~= seq![spec_hex_digit(n)]);
        }
        r
    } else if n == 13 {
        proof {
            reveal_strlit("d");
        }
        let r = "d";
        proof {
            assert(r@ =~= seq![spec_hex_digit(n)]);
        }
        r
    } else if n == 14 {
        proof {
            reveal_strlit("e");
        }
        let r = "e";
        proof {
            assert(r@ =~= seq![spec_hex_digit(n)]);
        }
        r
    } else {
        proof {
            reveal_strlit("f");
        }
        let r = "f";
        proof {
            assert(r@ =~= seq![spec_hex_digit(n)]);
        }
        r
    }
}

/// Renders bytes as lowercase hex, two digits per byte.
pub fn to_hex(data: &[u8]) -> (r: String)
    ensures
        r@ == spec_to_hex(data@),
{
    let mut out = String::new();
    let mut i: usize = 0;
    while i < data.len()
        invariant
            i <= data@.len(),
            out@ == spec_to_hex(data@.take(i as int)),
        decreases data@.len() - i,
    {
        let b = *vstd::slice::slice_index_get(data, i);
        out.append(hex_digit_str(b / 16));
        out.append(hex_digit_str(b % 16));
        proof {
            assert(data@.take(i + 1) =~= data@.take(i as int).push(data@[i as int]));
            lemma_to_hex_push(data@.take(i as int), data@[i as int]);
            assert(out@ =~= spec_to_hex(data@.take(i + 1)));
        }
        i = i + 1;
    }
    proof {
        assert(data@.take(data@.len() as int) =~= data@);
    }
    out
}

} // verus!
