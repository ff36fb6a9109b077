//! A staged, non-interactive proof protocol in the style of a STARK:
//! a prover commits to an execution trace, derives a challenge from the
//! commitment and folds constraint values into a few digest layers; a
//! verifier runs six structural and binding checks on the resulting proof.
//!
//! This is an educational protocol. It gives no soundness guarantee: the
//! verifier never sees the trace and cannot tell whether a commitment
//! belongs to a genuine run of the claimed computation.

pub mod text;
pub mod crypto;
pub mod types;
pub mod constraints;
pub mod verification;
pub mod encoding;
pub mod prover;
pub mod computation;
pub mod laws;

pub use types::{Proof, ProofTrace, VerificationResult};
pub use prover::STARKProver;
pub use verification::STARKVerifier;
