//! Typed error kinds shared by every operation of the library.

use vstd::prelude::*;

verus! {

/// Error taxonomy of the library. Provers surface these as fatal errors;
/// verifiers collapse every failure to `false` instead of raising.
#[derive(Debug, Clone)]
pub enum ZkpError {
    InvalidInput(String),
    ProofGenerationFailed(String),
    VerificationFailed(String),
    InvalidProofFormat(String),
    BackendError(String),
    SerializationError(String),
    ValidationError(String),
    IntegerOverflow(String),
    CryptoError(String),
    ConfigError(String),
}

pub type ZkpResult<T> = Result<T, ZkpError>;

impl ZkpError {
    /// Human-readable rendering of the error, in place of a `Display` impl.
    pub fn message(&self) -> String {
        match self {
            ZkpError::InvalidInput(m) => concat_message("Invalid input: ", m),
            ZkpError::ProofGenerationFailed(m) => concat_message("Proof generation failed: ", m),
            ZkpError::VerificationFailed(m) => concat_message("Verification failed: ", m),
            ZkpError::InvalidProofFormat(m) => concat_message("Invalid proof format: ", m),
            ZkpError::BackendError(m) => concat_message("Backend error: ", m),
            ZkpError::SerializationError(m) => concat_message("Serialization error: ", m),
            ZkpError::ValidationError(m) => concat_message("Validation error: ", m),
            ZkpError::IntegerOverflow(m) => concat_message("Integer overflow: ", m),
            ZkpError::CryptoError(m) => concat_message("Cryptographic error: ", m),
            ZkpError::ConfigError(m) => concat_message("Configuration error: ", m),
        }
    }
}

/// Concatenates an error-kind prefix with its detail message.
pub(crate) fn concat_message(prefix: &str, detail: &String) -> (r: String)
    ensures
        r@ == prefix@ + detail@,
{
    let mut s = prefix.to_string();
    s.append(detail.as_str());
    s
}

} // verus!
