//! A zero-knowledge proof library issuing and checking succinct
//! attestations about private integers and integer sequences: range,
//! equality, threshold, set membership, strict improvement and monotone
//! consistency predicates, each realised by a proof engine and framed in
//! a uniform tagged envelope.
//!
//! The Bulletproofs engine lives here in full; the Groth16 and STARK
//! engines plug in through the [`backend::ZkpBackend`] interface, so the
//! predicate operations stay parametric in the engine while the framing,
//! validation and commitment logic carries exact contracts.

pub mod backend;
pub mod bulletproofs_backend;
pub mod commitment;
pub mod compiler;
pub mod composition;
pub mod consistency_proof;
pub mod constraints;
pub mod curve;
pub mod dispatcher;
pub mod envelope;
pub mod equality_proof;
pub mod errors;
pub mod improvement_proof;
pub mod limits;
pub mod merkle;
pub mod proof_helpers;
pub mod range_proof;
pub mod registry;
pub mod serialization;
pub mod set_circuit;
pub mod set_membership;
pub mod srs;
pub mod temporal;
pub mod temporal_membership;
pub mod threshold_proof;
pub mod validation;

pub use envelope::Proof;
pub use errors::{ZkpError, ZkpResult};
