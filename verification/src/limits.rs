//! Safety limits bounding every deserialisation path, so that malformed or
//! hostile inputs cannot force excessive allocation.

use vstd::prelude::*;

verus! {

/// Maximum size in bytes accepted for a single serialised `Proof` envelope.
pub const MAX_PROOF_TOTAL_BYTES: usize = 1048576;

/// Maximum size in bytes accepted for the proof payload within an envelope.
pub const MAX_PROOF_PAYLOAD_BYTES: usize = 921600;

/// Maximum size in bytes accepted for the commitment field within an envelope.
pub const MAX_COMMITMENT_BYTES: usize = 256;

/// Maximum number of elements allowed when deserialising a vector of `u64`.
pub const MAX_U64_VEC_LEN: usize = 4096;

/// Maximum size in bytes accepted for backend payloads (operation + params).
pub const MAX_BACKEND_PAYLOAD_BYTES: usize = 262144;

/// Maximum length in bytes accepted for a backend operation string.
pub const MAX_BACKEND_OPERATION_LEN: usize = 64;

/// Maximum additional metadata payload length in bytes.
pub const MAX_METADATA_ADDITIONAL_BYTES: usize = 65536;

/// Maximum size in bytes accepted for a serialised composite proof.
pub const MAX_COMPOSITE_PROOF_BYTES: usize = 4194304;

} // verus!
