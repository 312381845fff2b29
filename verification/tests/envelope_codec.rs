use libzkp::commitment::{
    commit_improvement, commit_value, commit_values, extract_improvement_values,
    validate_improvement_commitment, verify_commitment, verify_commitment_values,
};
use libzkp::envelope::Proof;
use libzkp::serialization::{
    create_backend_payload, deserialize_improvement_params, deserialize_membership_params,
    deserialize_proof_metadata, deserialize_range_params, deserialize_threshold_params,
    deserialize_u64_vec, parse_backend_payload, serialize_improvement_params,
    serialize_membership_params, serialize_proof_metadata, serialize_range_params,
    serialize_threshold_params, serialize_u64_vec, to_hex,
};
use sha2::{Digest, Sha256};
use libzkp::srs::SrsConfig;
use libzkp::validation::{
    is_ascending_order, safe_add, safe_mul, safe_sum, validate_consistency_params,
    validate_improvement_params, validate_membership_params, validate_range_params,
    validate_threshold_params, validate_unique_set,
};

#[test]
fn test_envelope_round_trip() {
    let p = Proof::new(3, vec![1, 2, 3, 4], vec![9; 32]);
    let bytes = p.to_bytes();
    let q = Proof::from_bytes(&bytes).unwrap();
    assert_eq!(q.version, 1);
    assert_eq!(q.scheme, 3);
    assert_eq!(q.proof, vec![1, 2, 3, 4]);
    assert_eq!(q.commitment, vec![9; 32]);
}

#[test]
fn test_envelope_truncation_rejected() {
    let p = Proof::new(1, vec![5; 10], vec![7; 16]);
    let mut bytes = p.to_bytes();
    bytes.pop();
    assert!(Proof::from_bytes(&bytes).is_none());
    assert!(Proof::from_bytes(&[]).is_none());
    assert!(Proof::from_bytes(&[1, 2, 3]).is_none());
}

#[test]
fn test_envelope_oversize_rejected() {
    // Declared proof length over 900 KiB.
    let big = Proof::new(1, vec![0u8; 921_601], Vec::new()).to_bytes();
    assert!(Proof::from_bytes(&big).is_none());

    // Declared commitment length over 256 bytes.
    let wide = Proof::new(1, Vec::new(), vec![0u8; 257]).to_bytes();
    assert!(Proof::from_bytes(&wide).is_none());

    // A blob over 1 MiB in total.
    let huge = vec![0u8; 1_048_577];
    assert!(Proof::from_bytes(&huge).is_none());

    // The largest payloads within the limits round-trip.
    let ok = Proof::new(1, vec![0u8; 921_600], vec![0u8; 256]).to_bytes();
    assert!(Proof::from_bytes(&ok).is_some());
}

#[test]
fn test_u64_vec_round_trip() {
    let values = vec![0u64, 1, u64::MAX, 42];
    let bytes = serialize_u64_vec(&values);
    assert_eq!(deserialize_u64_vec(&bytes).unwrap(), values);

    let empty = serialize_u64_vec(&[]);
    assert_eq!(deserialize_u64_vec(&empty).unwrap(), Vec::<u64>::new());

    let mut truncated = serialize_u64_vec(&values);
    truncated.pop();
    assert!(deserialize_u64_vec(&truncated).is_err());
}

#[test]
fn test_param_round_trips() {
    let bytes = serialize_range_params(5, 1, 9);
    assert_eq!(deserialize_range_params(&bytes).unwrap(), (5, 1, 9));
    assert!(deserialize_range_params(&bytes[..23]).is_err());

    let bytes = serialize_threshold_params(&[1, 2, 3], 4);
    assert_eq!(deserialize_threshold_params(&bytes).unwrap(), (vec![1, 2, 3], 4));

    let bytes = serialize_improvement_params(10, 20);
    assert_eq!(deserialize_improvement_params(&bytes).unwrap(), (10, 20));

    let bytes = serialize_membership_params(2, &[1, 2, 3]);
    assert_eq!(deserialize_membership_params(&bytes).unwrap(), (2, vec![1, 2, 3]));

    let meta = serialize_proof_metadata(4, 1, &[8, 9]);
    assert_eq!(deserialize_proof_metadata(&meta).unwrap(), (1, 4, vec![8, 9]));
}

#[test]
fn test_backend_payload_round_trip() {
    let payload = create_backend_payload(b"range", &[1, 2, 3]);
    let (op, params) = parse_backend_payload(&payload).unwrap();
    assert_eq!(op, b"range".to_vec());
    assert_eq!(params, vec![1, 2, 3]);

    // An over-long operation name is refused at construction.
    assert!(create_backend_payload(&[b'x'; 65], &[]).is_empty());
    assert!(parse_backend_payload(&[1, 2, 3]).is_err());
}

#[test]
fn test_commit_value_matches_direct_digest() {

    let c = commit_value(7);
    let mut hasher = Sha256::new();
    hasher.update(7u64.to_le_bytes());
    assert_eq!(c, hasher.finalize().to_vec());
    assert!(verify_commitment(&c, 7));
    assert!(!verify_commitment(&c, 8));

    let cs = commit_values(&[1, 2]);
    let mut hasher = Sha256::new();
    hasher.update(1u64.to_le_bytes());
    hasher.update(2u64.to_le_bytes());
    assert_eq!(cs, hasher.finalize().to_vec());
    assert!(verify_commitment_values(&cs, &[1, 2]));
    assert!(!verify_commitment_values(&cs, &[2, 1]));
}

#[test]
fn test_improvement_commitment_checks() {
    let c = commit_improvement(3, 10).unwrap();
    assert_eq!(c.len(), 16);
    assert_eq!(extract_improvement_values(&c).unwrap(), (7, 10));
    assert_eq!(validate_improvement_commitment(&c, 3).unwrap(), 10);

    // Inconsistent old value.
    assert!(validate_improvement_commitment(&c, 4).is_err());
    // No improvement is refused at construction.
    assert!(commit_improvement(10, 10).is_err());
    assert!(commit_improvement(10, 3).is_err());
    // A zero difference on the wire is refused.
    let mut zero = vec![0u8; 16];
    zero[8] = 9;
    assert!(extract_improvement_values(&zero).is_err());
    // Overflow of old + diff is refused.
    let mut wrap = Vec::new();
    wrap.extend_from_slice(&u64::MAX.to_le_bytes());
    wrap.extend_from_slice(&5u64.to_le_bytes());
    assert!(validate_improvement_commitment(&wrap, 6).is_err());
}

#[test]
fn test_validation_rules() {
    assert!(validate_range_params(5, 0, 10).is_ok());
    assert!(validate_range_params(11, 0, 10).is_err());
    assert!(validate_range_params(5, 10, 0).is_err());

    assert_eq!(validate_threshold_params(&[1, 2, 3], 5).unwrap(), 6);
    assert!(validate_threshold_params(&[1, 2, 3], 7).is_err());
    assert!(validate_threshold_params(&[], 0).is_err());
    assert!(validate_threshold_params(&[u64::MAX, 1], 0).is_err());

    assert!(validate_membership_params(2, &[1, 2, 3]).is_ok());
    assert!(validate_membership_params(4, &[1, 2, 3]).is_err());
    assert!(validate_membership_params(4, &[]).is_err());

    assert_eq!(validate_improvement_params(1, 8).unwrap(), 7);
    assert!(validate_improvement_params(8, 8).is_err());

    assert!(validate_consistency_params(&[1, 2, 2, 3]).is_ok());
    assert!(validate_consistency_params(&[1, 2, 1]).is_err());
    assert!(validate_consistency_params(&[]).is_err());
    assert!(is_ascending_order(&[1, 1, 5]));
    assert!(!is_ascending_order(&[2, 1]));

    assert!(validate_unique_set(&[1, 2, 3]).is_ok());
    assert!(validate_unique_set(&[1, 2, 1]).is_err());

    assert_eq!(safe_add(2, 3).unwrap(), 5);
    assert!(safe_add(u64::MAX, 1).is_err());
    assert_eq!(safe_mul(4, 5).unwrap(), 20);
    assert!(safe_mul(u64::MAX, 2).is_err());
    assert_eq!(safe_sum(&[10, 20, 30]).unwrap(), 60);
    assert!(safe_sum(&[u64::MAX, 1]).is_err());
}

#[test]
fn test_to_hex() {
    assert_eq!(to_hex(&[]), "");
    assert_eq!(to_hex(&[0x00, 0xff, 0x10, 0xab]), "00ff10ab");
    assert_eq!(to_hex(&[0x9c]), "9c");
}

#[test]
fn test_srs_config_rules() {

    let mut config = SrsConfig::new();
    assert!(!config.is_initialized());
    assert!(config.set_key_dir("".to_string()).is_err());
    assert!(config.set_key_dir("/tmp/keys".to_string()).is_ok());
    // Re-setting to the same directory is accepted.
    assert!(config.set_key_dir("/tmp/keys".to_string()).is_ok());
    // A conflicting directory is rejected.
    assert!(config.set_key_dir("/tmp/other".to_string()).is_err());
    assert_eq!(config.key_dir().unwrap(), "/tmp/keys");

    config.mark_equality_ready();
    assert!(config.is_initialized());
    // After initialisation even the same directory is rejected.
    assert!(config.set_key_dir("/tmp/keys".to_string()).is_err());
}
