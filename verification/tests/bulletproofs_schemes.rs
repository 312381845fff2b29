use libzkp::bulletproofs_backend::BulletproofsBackend;
use libzkp::consistency_proof::{prove_consistency, verify_consistency};
use libzkp::range_proof::{prove_range, verify_range};
use libzkp::threshold_proof::{prove_threshold, verify_threshold};
use rand::RngCore;
use libzkp::backend::ZkpBackend;

#[test]
fn test_range() {
    let proof = prove_range(10, 0, 20).unwrap();
    assert!(verify_range(proof, 0, 20));
}

#[test]
fn test_range_wrong_bounds_rejected() {
    let proof = prove_range(10, 0, 20).unwrap();
    assert!(!verify_range(proof.clone(), 0, 9));
    assert!(!verify_range(proof.clone(), 1, 20));
    // An inverted range never verifies.
    assert!(!verify_range(proof, 20, 0));
    // Out-of-range inputs are rejected at proving time.
    assert!(prove_range(30, 0, 20).is_err());
    assert!(prove_range(5, 10, 4).is_err());
}

#[test]
fn test_range_scheme_isolation() {
    let mut proof = prove_range(10, 0, 20).unwrap();
    // Correct version but a different scheme tag must verify false.
    proof[1] = 3;
    assert!(!verify_range(proof.clone(), 0, 20));
    // And the threshold verifier refuses a range envelope.
    let proof = prove_range(10, 0, 20).unwrap();
    assert!(!verify_threshold(proof, 0));
}

#[test]
fn test_range_random_bytes_rejected() {
    let valid = prove_range(10, 0, 20).unwrap();
    let mut random = vec![0u8; valid.len()];
    rand::rngs::OsRng.fill_bytes(&mut random);
    assert!(!verify_range(random, 0, 20));
    // Same length, but bit-flipped payload.
    let mut flipped = valid.clone();
    flipped[20] ^= 1;
    assert!(!verify_range(flipped, 0, 20));
}

#[test]
fn test_threshold() {
    let proof = prove_threshold(vec![1, 2, 3], 5).unwrap();
    assert!(verify_threshold(proof, 5));

    // The same values also clear the exact threshold 6.
    let proof = prove_threshold(vec![1, 2, 3], 6).unwrap();
    assert!(verify_threshold(proof, 6));

    // Threshold 7 is unreachable: proving fails with an input error.
    assert!(prove_threshold(vec![1, 2, 3], 7).is_err());
}

#[test]
fn test_threshold_wrong_threshold_rejected() {
    let proof = prove_threshold(vec![4, 5], 8).unwrap();
    assert!(!verify_threshold(proof, 9));
    assert!(prove_threshold(vec![], 0).is_err());
    assert!(prove_threshold(vec![u64::MAX, 1], 0).is_err());
}

#[test]
fn test_consistency() {
    let proof = prove_consistency(vec![1, 2, 3]).unwrap();
    assert!(verify_consistency(proof));
}

#[test]
fn test_consistency_scenarios() {
    let proof = prove_consistency(vec![1, 2, 2, 3]).unwrap();
    assert!(verify_consistency(proof));

    assert!(prove_consistency(vec![1, 2, 1]).is_err());
    assert!(prove_consistency(vec![]).is_err());
}

#[test]
fn test_consistency_single_value() {
    let proof = prove_consistency(vec![5]).unwrap();
    assert!(verify_consistency(proof));
}

#[test]
fn test_consistency_tamper_rejected() {
    let proof = prove_consistency(vec![1, 2, 3]).unwrap();
    let mut flipped = proof.clone();
    let mid = flipped.len() / 2;
    flipped[mid] ^= 1;
    assert!(!verify_consistency(flipped));
}

#[test]
fn test_membership() {
    let proof = BulletproofsBackend::prove_set_membership(3, vec![1, 2, 3]).unwrap();
    assert!(BulletproofsBackend::verify_set_membership(&proof, vec![1, 2, 3]));
}

#[test]
fn test_membership_order_insensitive() {
    let proof = BulletproofsBackend::prove_set_membership(3, vec![1, 2, 3]).unwrap();
    assert!(BulletproofsBackend::verify_set_membership(&proof, vec![3, 2, 1]));
    assert!(!BulletproofsBackend::verify_set_membership(&proof, vec![1, 2, 4]));
    assert!(BulletproofsBackend::prove_set_membership(9, vec![1, 2, 3]).is_err());
    assert!(BulletproofsBackend::prove_set_membership(1, vec![]).is_err());
}

#[test]
fn test_membership_tamper_rejected() {
    let proof = BulletproofsBackend::prove_set_membership(2, vec![1, 2, 3]).unwrap();
    let mut flipped = proof.clone();
    let last = flipped.len() - 1;
    flipped[last] ^= 1;
    assert!(!BulletproofsBackend::verify_set_membership(&flipped, vec![1, 2, 3]));
}

#[test]
fn test_engine_blob_prove_verify() {

    let data = 77u64.to_le_bytes().to_vec();
    let blob = <BulletproofsBackend as ZkpBackend>::prove(&data);
    assert!(!blob.is_empty());
    assert!(<BulletproofsBackend as ZkpBackend>::verify(&blob, &data));
    let mut flipped = blob.clone();
    flipped[0] ^= 1;
    assert!(!<BulletproofsBackend as ZkpBackend>::verify(&flipped, &data));
}
