//! Set membership over Merkle trees phrased as a circuit: a public root,
//! a witness holding the element and its sibling path, and provers that
//! manage one set or a family of named sets.

use vstd::prelude::*;
use vstd::slice::slice_to_vec;
use crate::commitment::bytes_eq;
use crate::constraints::{CircuitBuilder, ConstraintSystem, VariableType};
use crate::merkle::{spec_fold_path, spec_leaf_hash, hash_leaf, MerkleProof, MerkleSet, MerkleTree};

verus! {

/// The public side of a membership statement: the set root and the
/// maximum path depth.
#[derive(Debug)]
pub struct SetMembershipCircuit {
    pub set_root: Vec<u8>,
    pub max_depth: usize,
}

/// The private side: the element and its sibling path.
#[derive(Debug)]
pub struct SetMembershipWitness {
    pub element: Vec<u8>,
    pub merkle_proof: MerkleProof,
}

impl SetMembershipCircuit {
    pub fn new(set_root: Vec<u8>, max_depth: usize) -> (r: SetMembershipCircuit)
        ensures
            r.set_root == set_root,
            r.max_depth == max_depth,
    {
        SetMembershipCircuit { set_root, max_depth }
    }

    /// Lays out the constraint-system skeleton for a membership statement:
    /// the element hash, one path bit and one sibling hash per level, the
    /// computed root, and the expected public root constrained equal to
    /// it. The hash relations themselves are checked by `verify_witness`.
    pub fn build_constraints(&self) -> (r: ConstraintSystem)
        requires
            self.max_depth < 1000,
        ensures
            r.variables@.len() == 2 * self.max_depth + 3,
            r.constraints@.len() == 1,
            r.public_inputs@.len() == 1,
    {
        let builder = CircuitBuilder::new();
        let mut cs = builder.finalize();
        let element_hash_var = cs.add_variable(
            "element_hash".to_string(),
            VariableType::UInt(256),
        );
        cs.add_private_input(element_hash_var);
        let mut i: usize = 0;
        while i < self.max_depth
            invariant
                i <= self.max_depth,
                self.max_depth < 1000,
                cs.variables@.len() == 2 * i + 1,
                cs.constraints@.len() == 0,
                cs.public_inputs@.len() == 0,
            decreases self.max_depth - i,
        {
            let path_var = cs.add_variable("path_bit".to_string(), VariableType::Boolean);
            let sibling_var = cs.add_variable("sibling_hash".to_string(), VariableType::UInt(256));
            cs.add_private_input(path_var);
            cs.add_private_input(sibling_var);
            i = i + 1;
        }
        let computed_root_var = cs.add_variable(
            "computed_root".to_string(),
            VariableType::UInt(256),
        );
        let expected_root_var = cs.add_variable(
            "expected_root".to_string(),
            VariableType::UInt(256),
        );
        cs.add_public_input(expected_root_var);
        proof {
            assert(cs.public_inputs@.len() == 1);
        }
        cs.add_equality_constraint(computed_root_var, expected_root_var);
        cs
    }

    /// Packages an element and its path as a witness.
    pub fn generate_witness(&self, element: &[u8], proof_path: &MerkleProof) -> (r:
        SetMembershipWitness)
        ensures
            r.element@ == element@,
            r.merkle_proof.leaf_hash@ == proof_path.leaf_hash@,
            r.merkle_proof.root_hash@ == proof_path.root_hash@,
            r.merkle_proof.siblings@.len() == proof_path.siblings@.len(),
            forall|i: int| 0 <= i < proof_path.siblings@.len() ==> (
            #[trigger] r.merkle_proof.siblings@[i]).0@ == proof_path.siblings@[i].0@
                && r.merkle_proof.siblings@[i].1 == proof_path.siblings@[i].1,
            spec_fold_path(r.merkle_proof.leaf_hash@, r.merkle_proof.siblings@) == spec_fold_path(
                proof_path.leaf_hash@,
                proof_path.siblings@,
            ),
    {
        let siblings = clone_siblings(&proof_path.siblings);
        proof {
            lemma_fold_path_congruent(proof_path.leaf_hash@, siblings@, proof_path.siblings@);
        }
        SetMembershipWitness {
            element: slice_to_vec(element),
            merkle_proof: MerkleProof {
                leaf_hash: slice_to_vec(proof_path.leaf_hash.as_slice()),
                leaf_index: proof_path.leaf_index,
                siblings,
                root_hash: slice_to_vec(proof_path.root_hash.as_slice()),
            },
        }
    }

    /// Checks a witness: the sibling path must fold to the recorded root,
    /// the leaf hash must be the element's hash, and the recorded root
    /// must equal the circuit's public root.
    pub fn verify_witness(&self, witness: &SetMembershipWitness) -> (r: bool)
        ensures
            r == {
                &&& spec_fold_path(witness.merkle_proof.leaf_hash@, witness.merkle_proof.siblings@)
                    == witness.merkle_proof.root_hash@
                &&& witness.merkle_proof.leaf_hash@ == spec_leaf_hash(witness.element@)
                &&& witness.merkle_proof.root_hash@ == self.set_root@
            },
    {
        if !MerkleTree::verify_proof(&witness.merkle_proof) {
            return false;
        }
        let element_hash = hash_leaf(witness.element.as_slice());
        if !bytes_eq(element_hash.as_slice(), witness.merkle_proof.leaf_hash.as_slice()) {
            return false;
        }
        bytes_eq(witness.merkle_proof.root_hash.as_slice(), self.set_root.as_slice())
    }
}

/// Clones a sibling path.
fn clone_siblings(siblings: &Vec<(Vec<u8>, bool)>) -> (r: Vec<(Vec<u8>, bool)>)
    ensures
        r@.len() == siblings@.len(),
        forall|i: int| 0 <= i < siblings@.len() ==> (#[trigger] r@[i]).0@ == siblings@[i].0@
            && r@[i].1 == siblings@[i].1,
{
    let mut out: Vec<(Vec<u8>, bool)> = Vec::new();
    let mut i: usize = 0;
    while i < siblings.len()
        invariant
            i <= siblings@.len(),
            out@.len() == i,
            forall|q: int| 0 <= q < i ==> (#[trigger] out@[q]).0@ == siblings@[q].0@ && out@[q].1
                == siblings@[q].1,
        decreases siblings@.len() - i,
    {
        out.push((slice_to_vec(siblings[i].0.as_slice()), siblings[i].1));
        i = i + 1;
    }
    out
}

/// Two sibling paths with the same hashes and sides fold identically.
proof fn lemma_fold_path_congruent(h: Seq<u8>, a: Seq<(Vec<u8>, bool)>, b: Seq<(Vec<u8>, bool)>)
    requires
        a.len() == b.len(),
        forall|i: int| 0 <= i < a.len() ==> (#[trigger] a[i]).0@ == b[i].0@ && a[i].1 == b[i].1,
    ensures
        spec_fold_path(h, a) == spec_fold_path(h, b),
    decreases a.len(),
{
    if a.len() > 0 {
        assert(a[0].0@ == b[0].0@ && a[0].1 == b[0].1);
        let next = if a[0].1 {
            crate::merkle::spec_node_hash(h, a[0].0@)
        } else {
            crate::merkle::spec_node_hash(a[0].0@, h)
        };
        assert forall|i: int| 0 <= i < a.drop_first().len() implies (
        #[trigger] a.drop_first()[i]).0@ == b.drop_first()[i].0@ && a.drop_first()[i].1
            == b.drop_first()[i].1 by {
            assert(a.drop_first()[i] == a[i + 1]);
            assert(b.drop_first()[i] == b[i + 1]);
        }
        lemma_fold_path_congruent(next, a.drop_first(), b.drop_first());
    }
}

/// A prover for membership in one set.
#[derive(Debug)]
pub struct SetMembershipProver {
    pub merkle_set: MerkleSet,
}

impl SetMembershipProver {
    pub fn new() -> (r: SetMembershipProver)
        ensures
            r.merkle_set.wf(),
            r.merkle_set.spec_len() == 0,
    {
        SetMembershipProver { merkle_set: MerkleSet::new() }
    }

    /// Builds a prover over the given elements.
    pub fn from_elements(elements: Vec<Vec<u8>>) -> (r: SetMembershipProver)
        ensures
            r.merkle_set.wf(),
            r.merkle_set.spec_len() == elements@.len(),
            forall|i: int| 0 <= i < elements@.len() ==> r.merkle_set.spec_contains(
                (#[trigger] elements@[i])@,
            ),
    {
        SetMembershipProver { merkle_set: MerkleSet::from_elements(elements) }
    }

    /// Adds an element; false when it was already present.
    pub fn add_element(&mut self, element: Vec<u8>) -> (r: bool)
        requires
            old(self).merkle_set.wf(),
        ensures
            final(self).merkle_set.wf(),
            r == !old(self).merkle_set.spec_contains(element@),
            final(self).merkle_set.spec_contains(element@),
    {
        self.merkle_set.insert(element)
    }

    /// Produces the circuit and witness for an element of the set.
    pub fn prove_membership(&self, element: &[u8]) -> (r: Option<(
        SetMembershipCircuit,
        SetMembershipWitness,
    )>)
        requires
            self.merkle_set.wf(),
        ensures
            r is Some <==> self.merkle_set.spec_contains(element@),
            r matches Some(t) ==> {
                &&& t.0.set_root@ == self.merkle_set.spec_root_hash()
                &&& t.1.element@ == element@
                &&& t.1.merkle_proof.leaf_hash@ == spec_leaf_hash(element@)
                &&& t.1.merkle_proof.root_hash@ == t.0.set_root@
                &&& spec_fold_path(t.1.merkle_proof.leaf_hash@, t.1.merkle_proof.siblings@)
                    == t.1.merkle_proof.root_hash@
            },
    {
        let proof_path = match self.merkle_set.prove_membership(element) {
            Some(p) => p,
            None => {
                return None;
            },
        };
        let root_hash = match self.merkle_set.root_hash() {
            Some(h) => h,
            None => {
                proof {
                    assert(false);
                }
                return None;
            },
        };
        let depth = proof_path.siblings.len();
        let circuit = SetMembershipCircuit::new(root_hash, depth);
        let witness = circuit.generate_witness(element, &proof_path);
        Some((circuit, witness))
    }

    /// Checks a circuit and witness against this prover's set root.
    pub fn verify_membership(
        &self,
        circuit: &SetMembershipCircuit,
        witness: &SetMembershipWitness,
    ) -> (r: bool)
        requires
            self.merkle_set.wf(),
        ensures
            r == ({
                &&& self.merkle_set.spec_len() > 0
                &&& circuit.set_root@ == self.merkle_set.spec_root_hash()
                &&& witness.merkle_proof.root_hash@ == circuit.set_root@
                &&& witness.merkle_proof.leaf_hash@ == spec_leaf_hash(witness.element@)
                &&& spec_fold_path(witness.merkle_proof.leaf_hash@, witness.merkle_proof.siblings@)
                    == witness.merkle_proof.root_hash@
            }),
    {
        let our_root = match self.merkle_set.root_hash() {
            Some(h) => h,
            None => {
                return false;
            },
        };
        if !bytes_eq(circuit.set_root.as_slice(), our_root.as_slice()) {
            return false;
        }
        circuit.verify_witness(witness)
    }

    /// The current set root.
    pub fn root_hash(&self) -> (r: Option<Vec<u8>>)
        requires
            self.merkle_set.wf(),
        ensures
            r is Some <==> self.merkle_set.spec_len() > 0,
            r matches Some(h) ==> h@ == self.merkle_set.spec_root_hash(),
    {
        self.merkle_set.root_hash()
    }

    /// The number of elements in the set.
    pub fn size(&self) -> (r: usize)
        ensures
            r == self.merkle_set.spec_len(),
    {
        self.merkle_set.len()
    }
}

/// Provers for a family of named sets.
pub struct BatchSetMembershipProver {
    provers: Vec<(String, SetMembershipProver)>,
}

impl BatchSetMembershipProver {
    /// Every stored prover is over a well-formed set.
    pub closed spec fn wf(&self) -> bool {
        forall|i: int| 0 <= i < self.provers@.len() ==> (
        #[trigger] self.provers@[i]).1.merkle_set.wf()
    }

    pub fn new() -> (r: BatchSetMembershipProver)
        ensures
            r.wf(),
    {
        BatchSetMembershipProver { provers: Vec::new() }
    }

    /// Adds or replaces a named set built over the given elements.
    pub fn add_set(&mut self, name: String, elements: Vec<Vec<u8>>)
        requires
            old(self).wf(),
        ensures
            final(self).wf(),
    {
        let prover = SetMembershipProver::from_elements(elements);
        let mut i: usize = 0;
        let n = self.provers.len();
        while i < n
            invariant
                i <= n,
                n == self.provers@.len(),
                self.wf(),
                prover.merkle_set.wf(),
            decreases n - i,
        {
            let hit = self.provers[i].0.eq(&name);
            if hit {
                self.provers.remove(i);
                self.provers.push((name, prover));
                proof {
                    assert(self.provers@.last().1.merkle_set.wf());
                }
                return ;
            }
            i = i + 1;
        }
        self.provers.push((name, prover));
        proof {
            assert(self.provers@.last().1.merkle_set.wf());
        }
    }

    /// Finds a stored prover by name.
    fn find_prover(&self, set_name: &str) -> (r: Option<&SetMembershipProver>)
        requires
            self.wf(),
        ensures
            r matches Some(p) ==> p.merkle_set.wf(),
    {
        let key = set_name.to_owned();
        let mut i: usize = 0;
        let n = self.provers.len();
        while i < n
            invariant
                i <= n,
                n == self.provers@.len(),
                self.wf(),
            decreases n - i,
        {
            let hit = self.provers[i].0.eq(&key);
            if hit {
                return Some(&self.provers[i].1);
            }
            i = i + 1;
        }
        None
    }

    /// Proves membership of an element in a named set.
    pub fn prove_membership(&self, set_name: &str, element: &[u8]) -> (r: Option<(
        SetMembershipCircuit,
        SetMembershipWitness,
    )>)
        requires
            self.wf(),
        ensures
            r matches Some(t) ==> {
                &&& t.1.element@ == element@
                &&& t.1.merkle_proof.leaf_hash@ == spec_leaf_hash(element@)
                &&& t.1.merkle_proof.root_hash@ == t.0.set_root@
                &&& spec_fold_path(t.1.merkle_proof.leaf_hash@, t.1.merkle_proof.siblings@)
                    == t.1.merkle_proof.root_hash@
            },
    {
        match self.find_prover(set_name) {
            Some(p) => p.prove_membership(element),
            None => None,
        }
    }

    /// Checks a circuit and witness against a named set.
    pub fn verify_membership(
        &self,
        set_name: &str,
        circuit: &SetMembershipCircuit,
        witness: &SetMembershipWitness,
    ) -> (r: bool)
        requires
            self.wf(),
        ensures
            r ==> {
                &&& witness.merkle_proof.root_hash@ == circuit.set_root@
                &&& witness.merkle_proof.leaf_hash@ == spec_leaf_hash(witness.element@)
                &&& spec_fold_path(witness.merkle_proof.leaf_hash@, witness.merkle_proof.siblings@)
                    == witness.merkle_proof.root_hash@
            },
    {
        match self.find_prover(set_name) {
            Some(p) => p.verify_membership(circuit, witness),
            None => false,
        }
    }

    /// Proves membership of one element in several named sets, keeping
    /// only the sets that hold it.
    pub fn prove_multi_membership(&self, set_names: &Vec<String>, element: &[u8]) -> (r: Vec<(
        SetMembershipCircuit,
        SetMembershipWitness,
    )>)
        requires
            self.wf(),
        ensures
            r@.len() <= set_names@.len(),
            forall|i: int| 0 <= i < r@.len() ==> {
                &&& (#[trigger] r@[i]).1.element@ == element@
                &&& r@[i].1.merkle_proof.leaf_hash@ == spec_leaf_hash(element@)
                &&& r@[i].1.merkle_proof.root_hash@ == r@[i].0.set_root@
                &&& spec_fold_path(r@[i].1.merkle_proof.leaf_hash@, r@[i].1.merkle_proof.siblings@)
                    == r@[i].1.merkle_proof.root_hash@
            },
    {
        let mut proofs: Vec<(SetMembershipCircuit, SetMembershipWitness)> = Vec::new();
        let mut i: usize = 0;
        while i < set_names.len()
            invariant
                i <= set_names@.len(),
                self.wf(),
                proofs@.len() <= i,
                forall|q: int| 0 <= q < proofs@.len() ==> {
                    &&& (#[trigger] proofs@[q]).1.element@ == element@
                    &&& proofs@[q].1.merkle_proof.leaf_hash@ == spec_leaf_hash(element@)
                    &&& proofs@[q].1.merkle_proof.root_hash@ == proofs@[q].0.set_root@
                    &&& spec_fold_path(
                        proofs@[q].1.merkle_proof.leaf_hash@,
                        proofs@[q].1.merkle_proof.siblings@,
                    ) == proofs@[q].1.merkle_proof.root_hash@
                },
            decreases set_names@.len() - i,
        {
            let ghost prev = proofs@;
            match self.prove_membership(set_names[i].as_str(), element) {
                Some(p) => {
                    proofs.push(p);
                    proof {
                        assert(forall|q: int|
                            0 <= q < prev.len() ==> proofs@[q] == prev[q]);
                        assert(proofs@.last() == p);
                    }
                },
                None => {},
            }
            i = i + 1;
        }
        proofs
    }

    /// The name, root hash and size of every stored set.
    pub fn get_set_info(&self) -> (r: Vec<(String, (Option<Vec<u8>>, usize))>)
        requires
            self.wf(),
        ensures
            r@.len() == self.spec_num_sets(),
    {
        let mut info: Vec<(String, (Option<Vec<u8>>, usize))> = Vec::new();
        let mut i: usize = 0;
        let n = self.provers.len();
        while i < n
            invariant
                i <= n,
                n == self.provers@.len(),
                self.wf(),
                info@.len() == i,
            decreases n - i,
        {
            let name = self.provers[i].0.clone();
            let root = self.provers[i].1.root_hash();
            let size = self.provers[i].1.size();
            info.push((name, (root, size)));
            i = i + 1;
        }
        info
    }

    /// The number of stored sets.
    pub closed spec fn spec_num_sets(&self) -> nat {
        self.provers@.len()
    }
}

} // verus!
