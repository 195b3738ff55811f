//! The verification pipeline and its result surface.
//!
//! One run consumes the trace of the deployment transaction, the
//! target address, and the independently built initialization
//! bytecode, and produces a single classification — plus, when the
//! two payloads were actually compared, both canonical forms for
//! diagnostic display. Infrastructure failures of the collaborators
//! that fetch traces or build bytecode are typed errors, never
//! silently degraded data.

use vstd::prelude::*;

use crate::compare::VerificationResult;
use crate::compare::compare;
use crate::compare::compare_spec;
use crate::hexdata::check_bytecode;
use crate::hexdata::valid_hex;
use crate::normalize::normalize;
use crate::normalize::normalize_spec;
use crate::trace::Address;
use crate::trace::CreationRecord;
use crate::trace::LocateError;
use crate::trace::TraceEntry;
use crate::trace::creation_init;
use crate::trace::locate_creation;
use crate::trace::lemma_count_one_unique;
use crate::trace::match_count;
use crate::trace::matches_target;

verus! {

/// A failure of one of the pipeline's stages or collaborators.
#[derive(PartialEq, Eq, Structural, Clone, Copy, Debug)]
pub enum StageError {
    /// Transport or node failure while fetching the trace.
    RpcError,
    /// A required build or package tool is not installed.
    DependencyMissing,
    /// Compilation failed, or the contract is not in the project.
    BuildFailure,
    /// The build toolchain produced output in an unexpected format.
    ToolchainError,
    /// A payload is not well-formed hex and cannot be normalized or
    /// compared.
    MalformedBytecode,
}

/// What a completed run reports: the classification and, when a
/// comparison took place, the two normalized payloads.
pub struct VerificationReport {
    pub result: VerificationResult,
    pub on_chain_normalized: Option<Vec<u8>>,
    pub built_normalized: Option<Vec<u8>>,
}

/// The position of the matching creation entry, when there is
/// exactly one.
pub open spec fn the_match_index(s: Seq<TraceEntry>, target: Seq<u8>) -> int {
    choose|i: int| 0 <= i < s.len() && matches_target(s[i], target)
}

/// The initialization code of the unique matching creation entry.
pub open spec fn located_init(s: Seq<TraceEntry>, target: Seq<u8>) -> Seq<u8> {
    creation_init(s[the_match_index(s, target)])
}

/// Runs the whole decision pipeline on already-fetched data.
///
/// The built payload, and the located on-chain payload, must be
/// well-formed hex, else the run fails as `MalformedBytecode`. A
/// trace without a matching creation reports `NotFound`, one with
/// several reports `Ambiguous`, and exactly one match leads to the
/// normalized, case-insensitive comparison of the two payloads.
pub fn run_verification(
    traces: &Vec<TraceEntry>,
    target: &Address,
    built: &Vec<u8>,
    marker: &Vec<u8>,
) -> (r: Result<VerificationReport, StageError>)
    requires
        forall|i: int| 0 <= i < traces@.len() ==> (#[trigger] traces@[i]).wf(),
    ensures
        !valid_hex(built@) ==> r == Err::<VerificationReport, StageError>(
            StageError::MalformedBytecode,
        ),
        valid_hex(built@) && match_count(traces@, target@) == 0 ==> (r matches Ok(rep)
            && rep.result is NotFound && rep.on_chain_normalized is None
            && rep.built_normalized is None),
        valid_hex(built@) && match_count(traces@, target@) >= 2 ==> (r matches Ok(rep)
            && rep.result is Ambiguous && rep.on_chain_normalized is None
            && rep.built_normalized is None),
        valid_hex(built@) && match_count(traces@, target@) == 1 && !valid_hex(
            located_init(traces@, target@),
        ) ==> r == Err::<VerificationReport, StageError>(StageError::MalformedBytecode),
        valid_hex(built@) && match_count(traces@, target@) == 1 && valid_hex(
            located_init(traces@, target@),
        ) ==> (r matches Ok(rep) && rep.result == compare_spec(
            located_init(traces@, target@),
            built@,
            marker@,
        ) && (rep.on_chain_normalized matches Some(v) && v@ == normalize_spec(
            located_init(traces@, target@),
            marker@,
        )) && (rep.built_normalized matches Some(w) && w@ == normalize_spec(built@, marker@))),
{
    if !check_bytecode(built) {
        return Err(StageError::MalformedBytecode);
    }
    match locate_creation(traces, target) {
        Err(LocateError::NotFound) => Ok(
            VerificationReport {
                result: VerificationResult::NotFound,
                on_chain_normalized: None,
                built_normalized: None,
            },
        ),
        Err(LocateError::Ambiguous) => Ok(
            VerificationReport {
                result: VerificationResult::Ambiguous,
                on_chain_normalized: None,
                built_normalized: None,
            },
        ),
        Ok(rec) => {
            proof {
                let w = choose|i: int|
                    0 <= i < traces@.len() && matches_target(#[trigger] traces@[i], target@)
                        && rec.init_code@ == creation_init(traces@[i]);
                let t = the_match_index(traces@, target@);
                assert(0 <= t < traces@.len() && matches_target(traces@[t], target@));
                lemma_count_one_unique(traces@, target@, w, t);
                assert(rec.init_code@ == located_init(traces@, target@));
            }
            if !check_bytecode(&rec.init_code) {
                return Err(StageError::MalformedBytecode);
            }
            let result = compare(&rec.init_code, built, marker);
            let on_chain_normalized = normalize(&rec.init_code, marker);
            let built_normalized = normalize(built, marker);
            Ok(
                VerificationReport {
                    result,
                    on_chain_normalized: Some(on_chain_normalized),
                    built_normalized: Some(built_normalized),
                },
            )
        },
    }
}

/// The process exit status a classification maps to: `Match` is 0,
/// `Mismatch` 1, `NotFound` 2, `Ambiguous` 3, and any infrastructure
/// failure 4.
pub fn exit_status(outcome: Result<VerificationResult, StageError>) -> (r: u8)
    ensures
        r == (match outcome {
            Ok(VerificationResult::Match) => 0u8,
            Ok(VerificationResult::Mismatch) => 1u8,
            Ok(VerificationResult::NotFound) => 2u8,
            Ok(VerificationResult::Ambiguous) => 3u8,
            Err(_) => 4u8,
        }),
{
    match outcome {
        Ok(VerificationResult::Match) => 0,
        Ok(VerificationResult::Mismatch) => 1,
        Ok(VerificationResult::NotFound) => 2,
        Ok(VerificationResult::Ambiguous) => 3,
        Err(_) => 4,
    }
}

} // verus!

