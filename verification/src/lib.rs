//! Facts from notarized TLS transcripts.
//!
//! A notary attests that a TLS session took place; the prover opens some
//! byte ranges of what was sent and received and keeps the rest private.
//! This library holds the part of that story that is plain computation:
//! transcripts with redacted ranges, the text and structured-value checks
//! that run over them, and the pipelines that turn a pair of transcripts
//! into a typed fact.

pub mod assertion;
pub mod engine;
pub mod error;
pub mod fact;
pub mod json;
pub mod keystore;
pub mod reading;
pub mod session;
pub mod text;
pub mod transcript;
pub mod verification;
