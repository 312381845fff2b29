//! A unified interface over proof backends for the generic circuit path:
//! circuit descriptions, generic proof and commitment containers, a
//! backend trait, and a registry of named backends.

use vstd::prelude::*;
use vstd::slice::{slice_subrange, slice_to_vec};
use crate::backend::ZkpBackend;

verus! {

/// Error kinds of the generic backend layer.
#[derive(Debug, Clone)]
pub enum ZKPError {
    ProofGenerationFailed(String),
    VerificationFailed(String),
    InvalidInput(String),
    BackendNotSupported(String),
    CircuitCompilationFailed(String),
}

pub type ZKPResult<T> = Result<T, ZKPError>;

/// A proof container carrying the producing backend's name.
#[derive(Debug)]
pub struct GenericProof {
    pub backend_type: String,
    pub proof_data: Vec<u8>,
    pub public_inputs: Vec<u8>,
    pub metadata: Vec<(String, String)>,
}

/// A commitment container carrying the producing backend's name.
#[derive(Debug)]
pub struct GenericCommitment {
    pub backend_type: String,
    pub commitment_data: Vec<u8>,
    pub metadata: Vec<(String, String)>,
}

/// A described circuit for the generic path.
#[derive(Debug)]
pub struct Circuit {
    pub circuit_id: String,
    pub circuit_type: CircuitType,
    pub constraints: Vec<Constraint>,
    pub public_inputs: Vec<String>,
    pub private_inputs: Vec<String>,
}

#[derive(Debug, Clone)]
pub enum CircuitType {
    Range,
    Equality,
    Threshold,
    Improvement,
    Consistency,
    SetMembership,
    Generic(String),
}

#[derive(Debug)]
pub struct Constraint {
    pub constraint_type: ConstraintType,
    pub variables: Vec<String>,
    pub coefficients: Vec<i64>,
    pub constant: i64,
}

#[derive(Debug, Clone)]
pub enum ConstraintType {
    Linear,
    Quadratic,
    Boolean,
    Range { min: i64, max: i64 },
}

/// The interface every generic backend offers.
pub trait ZKPBackend {
    fn name(&self) -> String;

    fn supports_circuit(&self, circuit_type: &CircuitType) -> bool;

    fn compile_circuit(&self, circuit: &Circuit) -> ZKPResult<Vec<u8>>;

    fn prove(&self, compiled_circuit: &[u8], public_inputs: &[u8], private_inputs: &[u8])
        -> ZKPResult<(GenericProof, GenericCommitment)>;

    fn verify(
        &self,
        compiled_circuit: &[u8],
        generic_proof: &GenericProof,
        commitment: &GenericCommitment,
    ) -> ZKPResult<bool>;
}

/// The Bulletproofs-backed generic backend.
#[derive(Debug)]
pub struct BulletproofsBackend {
    name: String,
}

impl BulletproofsBackend {
    pub fn new() -> (r: BulletproofsBackend) {
        BulletproofsBackend { name: backend_name() }
    }
}

/// The registered name of the Bulletproofs backend.
fn backend_name() -> String {
    "bulletproofs".to_string()
}

/// The smallest proof bit width in `{8, 16, 32, 64}` that covers the
/// given range width.
pub fn calculate_n_bits(range_width: u64) -> (r: usize)
    ensures
        r == 8 || r == 16 || r == 32 || r == 64,
{
    if range_width < 256 {
        8
    } else if range_width < 65536 {
        16
    } else if range_width < 4294967296 {
        32
    } else {
        64
    }
}

impl ZKPBackend for BulletproofsBackend {
    fn name(&self) -> String {
        self.name.clone()
    }

    /// The range-proof engine covers every numeric circuit shape but set
    /// membership and custom circuits.
    fn supports_circuit(&self, circuit_type: &CircuitType) -> bool {
        match circuit_type {
            CircuitType::Range => true,
            CircuitType::Equality => true,
            CircuitType::Threshold => true,
            CircuitType::Improvement => true,
            CircuitType::Consistency => true,
            CircuitType::SetMembership => false,
            CircuitType::Generic(_) => false,
        }
    }

    /// Compiles a circuit to the engine parameter block: a shape tag,
    /// then the range bounds read from the first range constraint.
    fn compile_circuit(&self, circuit: &Circuit) -> ZKPResult<Vec<u8>> {
        let mut min_val: i64 = 0;
        let mut max_val: i64 = i64::MAX;
        let tag: u8 = match &circuit.circuit_type {
            CircuitType::Range => 1u8,
            CircuitType::Equality => 2u8,
            CircuitType::Threshold => 3u8,
            CircuitType::Improvement => 5u8,
            CircuitType::Consistency => 6u8,
            CircuitType::SetMembership => {
                return Err(ZKPError::BackendNotSupported(
                    "set membership is not supported by this backend".to_string(),
                ));
            },
            CircuitType::Generic(_) => {
                return Err(ZKPError::BackendNotSupported(
                    "custom circuits are not supported by this backend".to_string(),
                ));
            },
        };
        let mut i: usize = 0;
        while i < circuit.constraints.len()
            decreases circuit.constraints@.len() - i,
        {
            match &circuit.constraints[i].constraint_type {
                ConstraintType::Range { min, max } => {
                    min_val = *min;
                    max_val = *max;
                    i = circuit.constraints.len();
                },
                _ => {
                    i = i + 1;
                },
            }
        }
        let mut out: Vec<u8> = Vec::new();
        out.push(tag);
        crate::serialization::push_u64_le(&mut out, min_val as u64);
        crate::serialization::push_u64_le(&mut out, max_val as u64);
        Ok(out)
    }

    /// Proves knowledge of the 8-byte private value with a bare range
    /// proof; the commitment is the trailing 32 bytes of the engine blob.
    fn prove(&self, compiled_circuit: &[u8], public_inputs: &[u8], private_inputs: &[u8])
        -> ZKPResult<(GenericProof, GenericCommitment)> {
        if compiled_circuit.len() != 17 {
            return Err(ZKPError::InvalidInput("malformed compiled circuit".to_string()));
        }
        if private_inputs.len() != 8 {
            return Err(ZKPError::InvalidInput(
                "private input must be one 8-byte value".to_string(),
            ));
        }
        let blob = <crate::bulletproofs_backend::BulletproofsBackend as ZkpBackend>::prove(
            private_inputs,
        );
        if blob.len() < 32 {
            return Err(ZKPError::ProofGenerationFailed("engine proof failed".to_string()));
        }
        let split = blob.len() - 32;
        let commitment_data = slice_to_vec(slice_subrange(blob.as_slice(), split, blob.len()));
        let generic_proof = GenericProof {
            backend_type: self.name.clone(),
            proof_data: blob,
            public_inputs: slice_to_vec(public_inputs),
            metadata: Vec::new(),
        };
        let commitment = GenericCommitment {
            backend_type: self.name.clone(),
            commitment_data,
            metadata: Vec::new(),
        };
        Ok((generic_proof, commitment))
    }

    /// Verifies a generic proof through the engine.
    fn verify(
        &self,
        compiled_circuit: &[u8],
        generic_proof: &GenericProof,
        commitment: &GenericCommitment,
    ) -> ZKPResult<bool> {
        if compiled_circuit.len() != 17 {
            return Err(ZKPError::InvalidInput("malformed compiled circuit".to_string()));
        }
        if generic_proof.proof_data.len() < 32 {
            return Ok(false);
        }
        let ok = <crate::bulletproofs_backend::BulletproofsBackend as ZkpBackend>::verify(
            generic_proof.proof_data.as_slice(),
            commitment.commitment_data.as_slice(),
        );
        Ok(ok)
    }
}

/// One registered backend.
#[derive(Debug)]
pub enum RegisteredBackend {
    Bulletproofs(BulletproofsBackend),
}

impl RegisteredBackend {
    /// The registered name of the backend.
    pub fn backend_name(&self) -> String {
        match self {
            RegisteredBackend::Bulletproofs(b) => b.name(),
        }
    }

    /// Whether the backend supports a circuit shape.
    pub fn backend_supports(&self, circuit_type: &CircuitType) -> bool {
        match self {
            RegisteredBackend::Bulletproofs(b) => b.supports_circuit(circuit_type),
        }
    }
}

/// A registry of named backends, in registration order.
pub struct BackendRegistry {
    backends: Vec<(String, RegisteredBackend)>,
}

impl BackendRegistry {
    /// The number of registered backends.
    pub closed spec fn spec_len(&self) -> nat {
        self.backends@.len()
    }

    pub fn new() -> (r: BackendRegistry)
        ensures
            r.spec_len() == 0,
    {
        BackendRegistry { backends: Vec::new() }
    }

    /// Registers a backend under its own name.
    pub fn register_backend(&mut self, backend: RegisteredBackend)
        ensures
            final(self).spec_len() == old(self).spec_len() + 1,
    {
        let name = backend.backend_name();
        self.backends.push((name, backend));
    }

    /// Finds a backend by name.
    pub fn get_backend(&self, name: &str) -> (r: Option<&RegisteredBackend>) {
        let key = name.to_owned();
        let mut i: usize = 0;
        let n = self.backends.len();
        while i < n
            invariant
                i <= n,
                n == self.backends@.len(),
            decreases n - i,
        {
            let hit = self.backends[i].0.eq(&key);
            if hit {
                return Some(&self.backends[i].1);
            }
            i = i + 1;
        }
        None
    }

    /// Finds the first backend supporting a circuit shape.
    pub fn find_suitable_backend(&self, circuit_type: &CircuitType) -> (r: Option<
        &RegisteredBackend,
    >) {
        let mut i: usize = 0;
        let n = self.backends.len();
        while i < n
            invariant
                i <= n,
                n == self.backends@.len(),
            decreases n - i,
        {
            if self.backends[i].1.backend_supports(circuit_type) {
                return Some(&self.backends[i].1);
            }
            i = i + 1;
        }
        None
    }

    /// The registered backend names, in registration order.
    pub fn list_backends(&self) -> (r: Vec<String>)
        ensures
            r@.len() == self.spec_len(),
    {
        let mut names: Vec<String> = Vec::new();
        let mut i: usize = 0;
        let n = self.backends.len();
        while i < n
            invariant
                i <= n,
                n == self.backends@.len(),
                names@.len() == i,
            decreases n - i,
        {
            names.push(self.backends[i].0.clone());
            i = i + 1;
        }
        names
    }
}

} // verus!
