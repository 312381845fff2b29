// Engine-backed tests: a STARK engine over winterfell drives the
// improvement predicate, and a deterministic placeholder engine exercises
// the equality and membership predicate plumbing (commitment binding,
// scheme isolation, set comparison) without a SNARK setup.

use libzkp::backend::ZkpBackend;
use libzkp::commitment::commit_value;
use libzkp::equality_proof::{prove_equality, verify_equality, verify_equality_with_commitment};
use libzkp::improvement_proof::{prove_improvement, verify_improvement};
use libzkp::set_membership::{prove_membership, verify_membership};
use libzkp::composition::ProofBatch;
use libzkp::temporal_membership::{prove_temporal_membership, verify_temporal_membership};
use libzkp::dispatcher::{batch_status, process_operations};
use winterfell::{
    crypto::{hashers::Blake3_256, DefaultRandomCoin, MerkleTree},
    math::{fields::f128::BaseElement, FieldElement, ToElements},
    matrix::ColMatrix,
    AcceptableOptions, Air, AirContext, Assertion, AuxRandElements, CompositionPoly,
    CompositionPolyTrace, ConstraintCompositionCoefficients, DefaultConstraintCommitment,
    DefaultConstraintEvaluator, DefaultTraceLde, EvaluationFrame, FieldExtension,
    PartitionOptions, Proof, ProofOptions, Prover, StarkDomain, Trace, TraceInfo, TracePolyTable,
    TraceTable, TransitionConstraintDegree,
};

#[derive(Clone, Debug)]
struct PublicInputs(Vec<BaseElement>);

impl ToElements<BaseElement> for PublicInputs {
    fn to_elements(&self) -> Vec<BaseElement> {
        self.0.clone()
    }
}

struct ImprovementAir {
    context: AirContext<BaseElement>,
    old_value: BaseElement,
    new_value: BaseElement,
    step_size: BaseElement,
}

impl Air for ImprovementAir {
    type BaseField = BaseElement;
    type PublicInputs = PublicInputs;
    type GkrProof = ();
    type GkrVerifier = ();

    fn new(trace_info: TraceInfo, pub_inputs: PublicInputs, options: ProofOptions) -> Self {
        assert_eq!(pub_inputs.0.len(), 2);
        let degrees = vec![TransitionConstraintDegree::new(1)];
        let old_value = pub_inputs.0[0];
        let new_value = pub_inputs.0[1];
        let trace_length = trace_info.length();
        let diff = new_value - old_value;
        let steps = BaseElement::new((trace_length - 1) as u128);
        let step_size = diff / steps;
        Self {
            context: AirContext::new(trace_info, degrees, 2, options),
            old_value,
            new_value,
            step_size,
        }
    }

    fn context(&self) -> &AirContext<Self::BaseField> {
        &self.context
    }

    fn evaluate_transition<E: FieldElement + From<Self::BaseField>>(
        &self,
        frame: &EvaluationFrame<E>,
        _periodic_values: &[E],
        result: &mut [E],
    ) {
        let current = frame.current()[0];
        let next = frame.next()[0];
        let step_size = E::from(self.step_size);
        result[0] = next - current - step_size;
    }

    fn get_assertions(&self) -> Vec<Assertion<Self::BaseField>> {
        vec![
            Assertion::single(0, 0, self.old_value),
            Assertion::single(0, self.trace_length() - 1, self.new_value),
        ]
    }
}

struct ImprovementProver {
    options: ProofOptions,
}

impl ImprovementProver {
    fn new() -> Self {
        Self {
            options: ProofOptions::new(32, 8, 0, FieldExtension::None, 8, 31),
        }
    }
}

impl Prover for ImprovementProver {
    type BaseField = BaseElement;
    type Air = ImprovementAir;
    type Trace = TraceTable<Self::BaseField>;
    type HashFn = Blake3_256<BaseElement>;
    type VC = MerkleTree<Self::HashFn>;
    type RandomCoin = DefaultRandomCoin<Self::HashFn>;
    type TraceLde<E: FieldElement<BaseField = Self::BaseField>> =
        DefaultTraceLde<E, Self::HashFn, Self::VC>;
    type ConstraintCommitment<E: FieldElement<BaseField = Self::BaseField>> =
        DefaultConstraintCommitment<E, Self::HashFn, Self::VC>;
    type ConstraintEvaluator<'a, E: FieldElement<BaseField = Self::BaseField>> =
        DefaultConstraintEvaluator<'a, Self::Air, E>;

    fn get_pub_inputs(&self, trace: &Self::Trace) -> PublicInputs {
        let old_value = trace.get(0, 0);
        let new_value = trace.get(0, trace.length() - 1);
        PublicInputs(vec![old_value, new_value])
    }

    fn options(&self) -> &ProofOptions {
        &self.options
    }

    fn new_trace_lde<E: FieldElement<BaseField = Self::BaseField>>(
        &self,
        trace_info: &TraceInfo,
        main_trace: &ColMatrix<Self::BaseField>,
        domain: &StarkDomain<Self::BaseField>,
        partition_options: PartitionOptions,
    ) -> (Self::TraceLde<E>, TracePolyTable<E>) {
        DefaultTraceLde::new(trace_info, main_trace, domain, partition_options)
    }

    fn build_constraint_commitment<E: FieldElement<BaseField = Self::BaseField>>(
        &self,
        composition_poly_trace: CompositionPolyTrace<E>,
        num_constraint_composition_columns: usize,
        domain: &StarkDomain<Self::BaseField>,
        partition_options: PartitionOptions,
    ) -> (Self::ConstraintCommitment<E>, CompositionPoly<E>) {
        DefaultConstraintCommitment::new(
            composition_poly_trace,
            num_constraint_composition_columns,
            domain,
            partition_options,
        )
    }

    fn new_evaluator<'a, E: FieldElement<BaseField = Self::BaseField>>(
        &self,
        air: &'a Self::Air,
        aux_rand_elements: Option<AuxRandElements<E>>,
        composition_coefficients: ConstraintCompositionCoefficients<E>,
    ) -> Self::ConstraintEvaluator<'a, E> {
        DefaultConstraintEvaluator::new(air, aux_rand_elements, composition_coefficients)
    }
}

/// The STARK engine: proves that `old` evolves to `new` in 8 linear steps.
struct StarkBackend;

impl ZkpBackend for StarkBackend {
    fn prove(data: &[u8]) -> Vec<u8> {
        if data.len() != 16 {
            return Vec::new();
        }
        let old = u64::from_le_bytes(data[0..8].try_into().unwrap());
        let new = u64::from_le_bytes(data[8..16].try_into().unwrap());
        if new <= old {
            return Vec::new();
        }
        let trace_length = 8;
        let mut trace = TraceTable::new(1, trace_length);
        let old_elem = BaseElement::new(old as u128);
        let new_elem = BaseElement::new(new as u128);
        let step_size = (new_elem - old_elem) / BaseElement::new((trace_length - 1) as u128);
        let mut current = old_elem;
        for i in 0..trace_length {
            trace.set(0, i, current);
            if i < trace_length - 1 {
                current += step_size;
            }
        }
        let prover = ImprovementProver::new();
        match prover.prove(trace) {
            Ok(proof) => proof.to_bytes(),
            Err(_) => Vec::new(),
        }
    }

    fn verify(proof_bytes: &[u8], data: &[u8]) -> bool {
        if data.len() != 16 {
            return false;
        }
        let old = u64::from_le_bytes(data[0..8].try_into().unwrap());
        let new = u64::from_le_bytes(data[8..16].try_into().unwrap());
        let proof = match Proof::from_bytes(proof_bytes) {
            Ok(p) => p,
            Err(_) => return false,
        };
        let pub_inputs = PublicInputs(vec![
            BaseElement::new(old as u128),
            BaseElement::new(new as u128),
        ]);
        let acceptable = AcceptableOptions::OptionSet(vec![ImprovementProver::new()
            .options()
            .clone()]);
        winterfell::verify::<
            ImprovementAir,
            Blake3_256<BaseElement>,
            DefaultRandomCoin<Blake3_256<BaseElement>>,
            MerkleTree<Blake3_256<BaseElement>>,
        >(proof, pub_inputs, &acceptable)
        .is_ok()
    }
}

#[test]
fn test_stark_prove_and_verify() {
    let old: u64 = 100;
    let new: u64 = 200;

    let mut data = Vec::new();
    data.extend_from_slice(&old.to_le_bytes());
    data.extend_from_slice(&new.to_le_bytes());

    let proof = StarkBackend::prove(&data);
    assert!(!proof.is_empty(), "Proof should not be empty");

    let is_valid = StarkBackend::verify(&proof, &data);
    assert!(is_valid, "Proof should be valid");
}

#[test]
fn test_stark_invalid_proof() {
    let old: u64 = 200;
    let new: u64 = 100;

    let mut data = Vec::new();
    data.extend_from_slice(&old.to_le_bytes());
    data.extend_from_slice(&new.to_le_bytes());

    let proof = StarkBackend::prove(&data);
    assert!(proof.is_empty(), "Proof should be empty for invalid data");
}

#[test]
fn test_stark_invalid_verification() {
    let old: u64 = 100;
    let new: u64 = 200;

    let mut data = Vec::new();
    data.extend_from_slice(&old.to_le_bytes());
    data.extend_from_slice(&new.to_le_bytes());

    let proof = StarkBackend::prove(&data);
    assert!(!proof.is_empty());

    let wrong_old: u64 = 150;
    let wrong_new: u64 = 250;

    let mut wrong_data = Vec::new();
    wrong_data.extend_from_slice(&wrong_old.to_le_bytes());
    wrong_data.extend_from_slice(&wrong_new.to_le_bytes());

    let is_valid = StarkBackend::verify(&proof, &wrong_data);
    assert!(!is_valid, "Proof should not be valid for different data");
}

#[test]
fn test_improvement() {
    let proof = prove_improvement::<StarkBackend>(1, 2).unwrap();
    assert!(verify_improvement::<StarkBackend>(proof, 1));
}

#[test]
fn test_improvement_wrong_old_rejected() {
    let proof = prove_improvement::<StarkBackend>(1, 8).unwrap();
    assert!(verify_improvement::<StarkBackend>(proof.clone(), 1));
    // A different old value mismatches both the commitment and the trace
    // boundary.
    assert!(!verify_improvement::<StarkBackend>(proof, 2));
    // A non-improvement is rejected before the engine runs.
    assert!(prove_improvement::<StarkBackend>(8, 8).is_err());
    assert!(prove_improvement::<StarkBackend>(8, 1).is_err());
}

/// A deterministic placeholder engine for facade-level tests: the proof is
/// the parameter blob itself, and verification replays the binding checks
/// a real engine would anchor in its public inputs.
struct EchoBackend;

impl ZkpBackend for EchoBackend {
    fn prove(data: &[u8]) -> Vec<u8> {
        data.to_vec()
    }

    fn verify(proof_bytes: &[u8], data: &[u8]) -> bool {
        // The tail of the echoed equality blob is the commitment; the
        // membership blob is checked against its re-serialised form.
        if data.len() == 32 {
            proof_bytes.len() >= 32 && &proof_bytes[proof_bytes.len() - 32..] == data
        } else {
            !proof_bytes.is_empty() && proof_bytes.len() >= 32
        }
    }
}

#[test]
fn test_equality() {
    let proof = prove_equality::<EchoBackend>(5, 5).unwrap();
    assert!(verify_equality::<EchoBackend>(proof.clone(), 5, 5));
    // A verifier supplying a different pair gets `false`.
    assert!(!verify_equality::<EchoBackend>(proof.clone(), 5, 6));
    assert!(!verify_equality::<EchoBackend>(proof.clone(), 6, 6));
    // Verifying against the commitment of a different value fails.
    let wrong_commitment = commit_value(6);
    assert!(!verify_equality_with_commitment::<EchoBackend>(proof.clone(), wrong_commitment));
    let right_commitment = commit_value(5);
    assert!(verify_equality_with_commitment::<EchoBackend>(proof, right_commitment));
    // Unequal inputs are rejected at proving time.
    assert!(prove_equality::<EchoBackend>(5, 6).is_err());
}

#[test]
fn test_equality_scheme_isolation() {
    let mut proof = prove_equality::<EchoBackend>(5, 5).unwrap();
    proof[1] = 4;
    assert!(!verify_equality::<EchoBackend>(proof, 5, 5));
}

#[test]
fn test_membership_facade() {
    let proof = prove_membership::<EchoBackend>(3, vec![1, 2, 3]).unwrap();
    assert!(verify_membership::<EchoBackend>(proof.clone(), vec![1, 2, 3]));
    // Order-insensitive comparison of the public set.
    assert!(verify_membership::<EchoBackend>(proof.clone(), vec![3, 2, 1]));
    // A different set never verifies.
    assert!(!verify_membership::<EchoBackend>(proof.clone(), vec![1, 2, 4]));
    assert!(!verify_membership::<EchoBackend>(proof, vec![1, 2]));
    // An empty set is rejected at proving time.
    assert!(prove_membership::<EchoBackend>(1, vec![]).is_err());
}

#[test]
fn test_batch_one_of_each() {
    let mut batch = ProofBatch::new();
    batch.add_range_proof(10, 0, 20);
    batch.add_equality_proof(5, 5);
    batch.add_threshold_proof(vec![1, 2, 3], 5);
    batch.add_membership_proof(3, vec![1, 2, 3]);
    batch.add_improvement_proof(1, 8);
    batch.add_consistency_proof(vec![1, 2]);

    let status = batch_status(&batch);
    assert_eq!(status.total_operations, 6);

    let results = process_operations::<EchoBackend, EchoBackend, StarkBackend>(
        batch.operations(),
    )
    .unwrap();
    assert_eq!(results.len(), 6);

    // Each envelope verifies with its own predicate, in input order.
    assert!(libzkp::range_proof::verify_range(results[0].clone(), 0, 20));
    assert!(verify_equality::<EchoBackend>(results[1].clone(), 5, 5));
    assert!(libzkp::threshold_proof::verify_threshold(results[2].clone(), 5));
    assert!(verify_membership::<EchoBackend>(results[3].clone(), vec![1, 2, 3]));
    assert!(verify_improvement::<StarkBackend>(results[4].clone(), 1));
    assert!(libzkp::consistency_proof::verify_consistency(results[5].clone()));
}

#[test]
fn test_temporal_membership_facade() {
    let code = vec![7u8; 32];
    let proof = prove_temporal_membership::<EchoBackend>(code.clone(), vec![1, 2, 3]).unwrap();
    assert!(verify_temporal_membership::<EchoBackend>(proof.clone(), vec![1, 2, 3]));
    assert!(verify_temporal_membership::<EchoBackend>(proof.clone(), vec![3, 2, 1]));
    assert!(!verify_temporal_membership::<EchoBackend>(proof, vec![1, 2, 4]));
    // A short code or an empty or oversized set is rejected up front.
    assert!(prove_temporal_membership::<EchoBackend>(vec![7u8; 31], vec![1]).is_err());
    assert!(prove_temporal_membership::<EchoBackend>(code.clone(), vec![]).is_err());
    assert!(prove_temporal_membership::<EchoBackend>(code, vec![0; 65]).is_err());
}
