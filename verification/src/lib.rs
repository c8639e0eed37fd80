//! A sponge-based Keccak hash library: a verified fixed-width permutation, a
//! generic sponge state engine with multi-rate padding, and an adaptive
//! strategy selector for targets that offer an accelerated digest primitive.

pub mod adaptive;
pub mod keccak;
pub mod permutation;
pub mod state;

pub use adaptive::AdaptiveKeccak;
pub use adaptive::DigestRequest;
pub use keccak::Keccak;
pub use state::KeccakState;
