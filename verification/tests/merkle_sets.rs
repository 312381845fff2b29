use libzkp::merkle::{MerkleSet, MerkleTree};
use libzkp::set_circuit::{BatchSetMembershipProver, SetMembershipProver};
use libzkp::constraints::{CircuitBuilder, ConstraintSystem, VariableType};
use libzkp::set_circuit::SetMembershipCircuit;

#[test]
fn test_merkle_tree_basic() {
    let elements = vec![b"alice".to_vec(), b"bob".to_vec(), b"charlie".to_vec()];
    let tree = MerkleTree::new(elements);

    assert!(tree.root_hash().is_some());
    assert_eq!(tree.size(), 3);
    assert!(tree.contains(b"alice"));
    assert!(tree.contains(b"bob"));
    assert!(tree.contains(b"charlie"));
    assert!(!tree.contains(b"dave"));
}

#[test]
fn test_merkle_proof() {
    let elements = vec![b"alice".to_vec(), b"bob".to_vec(), b"charlie".to_vec()];
    let tree = MerkleTree::new(elements);

    let proof = tree.generate_proof(b"alice").unwrap();
    assert!(MerkleTree::verify_proof(&proof));

    let proof = tree.generate_proof(b"bob").unwrap();
    assert!(MerkleTree::verify_proof(&proof));
}

#[test]
fn test_merkle_set() {
    let mut set = MerkleSet::new();

    assert!(set.insert(b"alice".to_vec()));
    assert!(set.insert(b"bob".to_vec()));
    assert!(!set.insert(b"alice".to_vec()));

    assert!(set.contains(b"alice"));
    assert!(set.contains(b"bob"));
    assert!(!set.contains(b"charlie"));

    let proof = set.prove_membership(b"alice").unwrap();
    assert!(set.verify_membership(&proof));
}

#[test]
fn test_merkle_proof_rejects_wrong_root() {
    let tree = MerkleTree::new(vec![b"alice".to_vec(), b"bob".to_vec()]);
    let mut proof = tree.generate_proof(b"alice").unwrap();
    proof.root_hash[0] ^= 1;
    assert!(!MerkleTree::verify_proof(&proof));
}

#[test]
fn test_merkle_single_element_tree() {
    let tree = MerkleTree::new(vec![b"solo".to_vec()]);
    assert_eq!(tree.size(), 1);
    let proof = tree.generate_proof(b"solo").unwrap();
    assert!(MerkleTree::verify_proof(&proof));
    assert!(tree.generate_proof(b"other").is_none());
}

#[test]
fn test_merkle_four_element_tree() {
    let tree = MerkleTree::new(vec![
        b"a".to_vec(),
        b"b".to_vec(),
        b"c".to_vec(),
        b"d".to_vec(),
    ]);
    for e in [b"a", b"b", b"c", b"d"] {
        let proof = tree.generate_proof(e).unwrap();
        assert!(MerkleTree::verify_proof(&proof));
    }
}

#[test]
fn test_set_membership_prover() {
    let elements = vec![b"alice".to_vec(), b"bob".to_vec(), b"charlie".to_vec()];

    let prover = SetMembershipProver::from_elements(elements);

    let (circuit, witness) = prover.prove_membership(b"alice").unwrap();
    assert!(prover.verify_membership(&circuit, &witness));

    assert!(prover.prove_membership(b"dave").is_none());
}

#[test]
fn test_batch_set_membership() {
    let mut batch_prover = BatchSetMembershipProver::new();

    batch_prover.add_set("users".to_string(), vec![b"alice".to_vec(), b"bob".to_vec()]);

    batch_prover.add_set(
        "admins".to_string(),
        vec![b"alice".to_vec(), b"charlie".to_vec()],
    );

    let (circuit, witness) = batch_prover.prove_membership("users", b"alice").unwrap();
    assert!(batch_prover.verify_membership("users", &circuit, &witness));

    let proofs = batch_prover.prove_multi_membership(
        &vec!["users".to_string(), "admins".to_string()],
        b"alice",
    );
    assert_eq!(proofs.len(), 2);

    let proofs = batch_prover.prove_multi_membership(
        &vec!["users".to_string(), "admins".to_string()],
        b"bob",
    );
    assert_eq!(proofs.len(), 1);
}

#[test]
fn test_witness_for_other_set_rejected() {
    let users = SetMembershipProver::from_elements(vec![b"alice".to_vec(), b"bob".to_vec()]);
    let admins = SetMembershipProver::from_elements(vec![b"carol".to_vec()]);
    let (circuit, witness) = users.prove_membership(b"alice").unwrap();
    assert!(!admins.verify_membership(&circuit, &witness));
}

#[test]
fn test_constraint_system_checks() {

    let mut cs = ConstraintSystem::new();
    let a = cs.add_variable("a".to_string(), VariableType::UInt(64));
    let b = cs.add_variable("b".to_string(), VariableType::UInt(64));
    cs.add_equality_constraint(a, b);
    cs.set_witness(a, 7);
    cs.set_witness(b, 7);
    assert!(cs.check_constraints());
    cs.set_witness(b, 8);
    assert!(!cs.check_constraints());

    let range_cs = CircuitBuilder::new().build_range_circuit(0, 100);
    assert_eq!(range_cs.constraints.len(), 2);
    assert_eq!(range_cs.private_inputs.len(), 1);
}

#[test]
fn test_circuit_skeleton_shape() {

    let circuit = SetMembershipCircuit::new(vec![0u8; 32], 4);
    let cs = circuit.build_constraints();
    assert_eq!(cs.variables.len(), 11);
    assert_eq!(cs.constraints.len(), 1);
    assert_eq!(cs.public_inputs.len(), 1);
}
