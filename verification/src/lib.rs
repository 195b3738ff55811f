//! Deployment-provenance verification for contract bytecode.
//!
//! Given the execution trace of a deployment transaction, this library
//! locates the creation step that produced a target contract address,
//! strips trailing compiler metadata from both the on-chain and the
//! independently built initialization bytecode, and classifies the
//! comparison as a match, a mismatch, or a trace-selection failure.

pub mod bytes;
pub mod compare;
pub mod hexdata;
pub mod pipeline;
pub mod normalize;
pub mod trace;

