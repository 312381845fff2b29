use libzkp::bulletproofs_backend::BulletproofsBackend;
use libzkp::composition::{CompositeProof, ProofBatch};
use libzkp::dispatcher::{batch_status, process_operations, verify_single_proof};
use libzkp::envelope::Proof;
use libzkp::range_proof::prove_range;
use libzkp::threshold_proof::verify_threshold;

fn sample_envelopes() -> Vec<Proof> {
    // Composite integrity covers the envelope bytes, not the inner
    // schemes, so synthetic envelopes keep these tests fast.
    vec![
        Proof::new(1, vec![1, 2, 3, 4], vec![9; 32]),
        Proof::new(3, vec![5, 6], vec![7; 32]),
    ]
}

#[test]
fn test_composite_integrity() {
    let composite = CompositeProof::new(sample_envelopes()).unwrap();
    assert!(composite.verify_integrity());

    // Flipping a bit of an inner envelope breaks integrity.
    let mut tampered = CompositeProof::new(sample_envelopes()).unwrap();
    tampered.proofs[0].proof[0] ^= 1;
    assert!(!tampered.verify_integrity());

    // Flipping a bit of the digest breaks integrity.
    let mut tampered = CompositeProof::new(sample_envelopes()).unwrap();
    tampered.composition_hash[0] ^= 1;
    assert!(!tampered.verify_integrity());

    // An empty inner list is refused at construction.
    assert!(CompositeProof::new(Vec::new()).is_err());
}

#[test]
fn test_composite_metadata_does_not_affect_integrity() {
    let mut composite = CompositeProof::new(sample_envelopes()).unwrap();
    let digest_before = composite.composition_hash.clone();
    composite.add_metadata("origin".to_string(), b"unit".to_vec());
    composite.add_metadata("origin".to_string(), b"replaced".to_vec());
    composite.add_metadata("note".to_string(), vec![1, 2, 3]);
    assert_eq!(composite.composition_hash, digest_before);
    assert!(composite.verify_integrity());
    assert_eq!(composite.metadata.len(), 2);
}

#[test]
fn test_composite_round_trip() {
    let mut composite = CompositeProof::new(sample_envelopes()).unwrap();
    composite.add_metadata("kind".to_string(), b"range".to_vec());
    let bytes = composite.to_bytes();
    let parsed = CompositeProof::from_bytes(&bytes).unwrap();
    assert_eq!(parsed.proofs.len(), 2);
    assert_eq!(parsed.metadata.len(), 1);
    assert!(parsed.verify_integrity());
    assert_eq!(parsed.composition_hash, composite.composition_hash);

    // A flipped envelope byte on the wire fails the digest check.
    let mut wire = bytes.clone();
    wire[20] ^= 1;
    assert!(CompositeProof::from_bytes(&wire).is_err());
    assert!(CompositeProof::from_bytes(&bytes[..bytes.len() - 1]).is_err());
}

#[test]
fn test_batch_status_counts() {
    let mut batch = ProofBatch::new();
    assert!(batch.is_empty());
    batch.add_range_proof(10, 0, 20);
    batch.add_range_proof(4, 0, 9);
    batch.add_threshold_proof(vec![1, 2, 3], 5);
    batch.add_consistency_proof(vec![1, 2, 3]);
    batch.add_equality_proof(5, 5);
    batch.add_membership_proof(2, vec![1, 2]);
    batch.add_improvement_proof(1, 8);

    let status = batch_status(&batch);
    assert_eq!(status.total_operations, 7);
    assert_eq!(status.range_proofs, 2);
    assert_eq!(status.threshold_proofs, 1);
    assert_eq!(status.consistency_proofs, 1);
    assert_eq!(status.equality_proofs, 1);
    assert_eq!(status.membership_proofs, 1);
    assert_eq!(status.improvement_proofs, 1);
    assert_eq!(batch.len(), 7);
}

#[test]
fn test_process_operations_in_order() {
    let mut batch = ProofBatch::new();
    batch.add_range_proof(10, 0, 20);
    batch.add_threshold_proof(vec![1, 2, 3], 5);
    batch.add_consistency_proof(vec![1, 2, 2, 3]);

    // The engine type parameters are not exercised by these operations.
    let results =
        process_operations::<BulletproofsBackend, BulletproofsBackend, BulletproofsBackend>(
            batch.operations(),
        )
        .unwrap();
    assert_eq!(results.len(), 3);

    assert!(verify_single_proof::<BulletproofsBackend, BulletproofsBackend>(
        &results[0],
        "range"
    ));
    assert!(verify_single_proof::<BulletproofsBackend, BulletproofsBackend>(
        &results[1],
        "threshold"
    ));
    assert!(verify_single_proof::<BulletproofsBackend, BulletproofsBackend>(
        &results[2],
        "consistency"
    ));
    // A wrong tag never verifies.
    assert!(!verify_single_proof::<BulletproofsBackend, BulletproofsBackend>(
        &results[0],
        "threshold"
    ));
    assert!(!verify_single_proof::<BulletproofsBackend, BulletproofsBackend>(
        &results[0],
        "unknown"
    ));
}

#[test]
fn test_process_operations_aborts_on_failure() {
    let mut batch = ProofBatch::new();
    batch.add_range_proof(10, 0, 20);
    // Unsatisfiable threshold: the whole batch fails.
    batch.add_threshold_proof(vec![1, 2, 3], 100);
    let results =
        process_operations::<BulletproofsBackend, BulletproofsBackend, BulletproofsBackend>(
            batch.operations(),
        );
    assert!(results.is_err());
}

#[test]
fn test_sigma_membership_through_dispatcher() {
    // The dispatcher's membership arm expects the Sigma-protocol blob
    // framed as a scheme-4 envelope with the set embedded up front.
    let blob = BulletproofsBackend::prove_set_membership(3, vec![1, 2, 3]).unwrap();
    let (proof_region, commitment) =
        libzkp::proof_helpers::extract_bulletproofs_components(&blob).unwrap();
    let envelope = libzkp::proof_helpers::create_proof(4, proof_region, commitment).unwrap();
    assert!(verify_single_proof::<BulletproofsBackend, BulletproofsBackend>(
        &envelope,
        "membership"
    ));
    assert!(!verify_single_proof::<BulletproofsBackend, BulletproofsBackend>(
        &envelope,
        "range"
    ));
}

#[test]
fn test_validate_proof_chain() {
    let a = prove_range(10, 0, 20).unwrap();
    let b = prove_range(3, 1, 5).unwrap();
    assert!(libzkp::dispatcher::validate_proof_chain(&vec![a.clone(), b]));
    assert!(libzkp::dispatcher::validate_proof_chain(&Vec::new()));
    assert!(!libzkp::dispatcher::validate_proof_chain(&vec![a, vec![1, 2, 3]]));
}

#[test]
fn test_threshold_envelope_cross_checks() {
    let proof = libzkp::threshold_proof::prove_threshold(vec![2, 2], 4).unwrap();
    assert!(verify_threshold(proof.clone(), 4));
    assert!(verify_single_proof::<BulletproofsBackend, BulletproofsBackend>(
        &proof,
        "threshold"
    ));
}
