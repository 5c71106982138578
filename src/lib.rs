//! Composite zero-knowledge proofs: a conjunction of statements about hidden values,
//! linked by equality groups, proved and verified with one shared Fiat-Shamir challenge.
//!
//! Group elements and scalars travel through the library as their canonical compressed
//! encodings. The sub-protocols of the statements (a BBS+ signature, a Pedersen opening, an
//! accumulator membership or non-membership) come from the `bbs_plus`, `schnorr_pok` and
//! `vb_accumulator` crates, reached only through the wrappers in `crypto`.
//!
//! - `model`: statements, witnesses, setup parameters, equality groups, specifications,
//!   proofs, and their views.
//! - `spec_builder`: assembly of a specification and its well-formedness.
//! - `transcript`: the challenge transcript and its injectivity.
//! - `prover`: the orchestrator (commit, one challenge, respond).
//! - `checker`: the verifier and what an accepted proof satisfies.
//! - `codec`: the canonical encoding of specifications and proofs, and its inverse.
//! - `composite`: entry points over specifications given whole, in parts or encoded.
//! - `signature_pok`: the BBS+ proof of knowledge of a signature on its own.
pub mod model;
pub mod codec;
pub mod crypto;
pub mod spec_builder;
pub mod transcript;
pub mod prover;
pub mod checker;
pub mod composite;
pub mod signature_pok;
