//! Execution-trace modeling and creation lookup.
//!
//! A transaction's execution is an ordered list of trace entries. The
//! locator selects the single creation entry whose resulting address
//! is the target contract address; zero candidates and two or more
//! candidates are distinct, explicit failures — the verifier never
//! silently proceeds with one of several.

use vstd::prelude::*;

use crate::bytes::bytes_eq;
use crate::bytes::copy_bytes;

verus! {

/// A 20-byte account address.
pub struct Address {
    pub bytes: Vec<u8>,
}

impl Address {
    /// The address is the documented 20 bytes long.
    pub open spec fn wf(&self) -> bool {
        self.bytes@.len() == 20
    }

    /// Wraps raw bytes as an address; anything but 20 bytes is refused.
    pub fn new(bytes: Vec<u8>) -> (r: Option<Address>)
        ensures
            r is Some <==> bytes@.len() == 20,
            r matches Some(a) ==> a.wf() && a.bytes@ == bytes@,
    {
        if bytes.len() == 20 {
            Some(Address { bytes })
        } else {
            None
        }
    }
}

impl View for Address {
    type V = Seq<u8>;

    open spec fn view(&self) -> Seq<u8> {
        self.bytes@
    }
}

/// The kind of action a trace entry records.
#[derive(PartialEq, Eq, Structural, Clone, Copy, Debug)]
pub enum ActionKind {
    Call,
    Create,
    Suicide,
    Reward,
}

/// One recorded step of a transaction's execution.
///
/// The resulting address is known only for a creation step whose
/// result was recorded (a reverted sub-call has none), and only a
/// creation step carries initialization code.
pub struct TraceEntry {
    pub action: ActionKind,
    pub result_present: bool,
    pub created_address: Option<Address>,
    pub init_code: Option<Vec<u8>>,
}

impl TraceEntry {
    /// The documented shape of an entry: a resulting address only on
    /// a creation with a recorded result, initialization code exactly
    /// on creations, and a 20-byte address where one is present.
    pub open spec fn wf(&self) -> bool {
        &&& (self.created_address is Some ==> self.action is Create && self.result_present)
        &&& (self.init_code is Some <==> self.action is Create)
        &&& (self.created_address matches Some(a) ==> a.wf())
    }

    /// A creation step with a recorded result.
    pub fn creation(address: Address, init_code: Vec<u8>) -> (r: TraceEntry)
        requires
            address.wf(),
        ensures
            r.wf(),
            r.action is Create,
            r.result_present,
            r.created_address matches Some(a) && a@ == address@,
            r.init_code matches Some(c) && c@ == init_code@,
    {
        TraceEntry {
            action: ActionKind::Create,
            result_present: true,
            created_address: Some(address),
            init_code: Some(init_code),
        }
    }

    /// A creation step whose result was not recorded.
    pub fn creation_without_result(init_code: Vec<u8>) -> (r: TraceEntry)
        ensures
            r.wf(),
            r.action is Create,
            !r.result_present,
            r.created_address is None,
            r.init_code matches Some(c) && c@ == init_code@,
    {
        TraceEntry {
            action: ActionKind::Create,
            result_present: false,
            created_address: None,
            init_code: Some(init_code),
        }
    }

    /// Any non-creation step.
    pub fn other(action: ActionKind, result_present: bool) -> (r: TraceEntry)
        requires
            !(action is Create),
        ensures
            r.wf(),
            r.action == action,
            r.result_present == result_present,
            r.created_address is None,
            r.init_code is None,
    {
        TraceEntry { action, result_present, created_address: None, init_code: None }
    }
}

/// The entry is a creation with a recorded result whose resulting
/// address is the target.
pub open spec fn matches_target(e: TraceEntry, target: Seq<u8>) -> bool {
    &&& e.action is Create
    &&& e.result_present
    &&& e.created_address matches Some(a) && a@ == target
}

/// The initialization code a creation entry carries.
pub open spec fn creation_init(e: TraceEntry) -> Seq<u8> {
    match e.init_code {
        Some(c) => c@,
        None => Seq::empty(),
    }
}

/// How many entries of `s` are creations of `target`.
pub open spec fn match_count(s: Seq<TraceEntry>, target: Seq<u8>) -> nat
    decreases s.len(),
{
    if s.len() == 0 {
        0
    } else {
        match_count(s.drop_last(), target) + (if matches_target(s.last(), target) {
            1nat
        } else {
            0nat
        })
    }
}

/// A matching entry anywhere in `s` makes the count positive.
pub proof fn lemma_match_implies_count_pos(s: Seq<TraceEntry>, target: Seq<u8>, i: int)
    requires
        0 <= i < s.len(),
        matches_target(s[i], target),
    ensures
        match_count(s, target) >= 1,
    decreases s.len(),
{
    if i == s.len() - 1 {
    } else {
        lemma_match_implies_count_pos(s.drop_last(), target, i);
    }
}

/// Two matching entries at distinct positions make the count at
/// least two.
pub proof fn lemma_two_matches_count_two(s: Seq<TraceEntry>, target: Seq<u8>, i: int, j: int)
    requires
        0 <= i < j < s.len(),
        matches_target(s[i], target),
        matches_target(s[j], target),
    ensures
        match_count(s, target) >= 2,
    decreases s.len(),
{
    if j == s.len() - 1 {
        lemma_match_implies_count_pos(s.drop_last(), target, i);
    } else {
        lemma_two_matches_count_two(s.drop_last(), target, i, j);
    }
}

/// With exactly one match counted, any two matching positions are
/// the same position.
pub proof fn lemma_count_one_unique(s: Seq<TraceEntry>, target: Seq<u8>, i: int, j: int)
    requires
        match_count(s, target) == 1,
        0 <= i < s.len(),
        0 <= j < s.len(),
        matches_target(s[i], target),
        matches_target(s[j], target),
    ensures
        i == j,
{
    if i < j {
        lemma_two_matches_count_two(s, target, i, j);
    } else if j < i {
        lemma_two_matches_count_two(s, target, j, i);
    }
}

/// The reasons creation lookup can fail.
#[derive(PartialEq, Eq, Structural, Clone, Copy, Debug)]
pub enum LocateError {
    /// No recorded creation in the trace resulted in the target
    /// address: the transaction did not create the contract, or the
    /// trace lacks the creation's result.
    NotFound,
    /// Two or more recorded creations resulted in the target address
    /// (a self-destruct-and-recreate pattern, or a trace anomaly), so
    /// no single one can honestly be called the deployment.
    Ambiguous,
}

/// The one creation step selected as the deployment of the target.
pub struct CreationRecord {
    pub address: Address,
    pub init_code: Vec<u8>,
}

/// Selects the single creation entry of `traces` whose resulting
/// address is `target`. Zero candidates yield `NotFound`, two or more
/// yield `Ambiguous`; exactly one candidate yields its record.
pub fn locate_creation(traces: &Vec<TraceEntry>, target: &Address) -> (r: Result<
    CreationRecord,
    LocateError,
>)
    requires
        forall|i: int| 0 <= i < traces@.len() ==> (#[trigger] traces@[i]).wf(),
    ensures
        r is Ok <==> match_count(traces@, target@) == 1,
        r == Err::<CreationRecord, LocateError>(LocateError::NotFound) <==> match_count(
            traces@,
            target@,
        ) == 0,
        r == Err::<CreationRecord, LocateError>(LocateError::Ambiguous) <==> match_count(
            traces@,
            target@,
        ) >= 2,
        r matches Ok(rec) ==> rec.address@ == target@ && rec.address.wf() == target.wf()
            && exists|i: int|
            0 <= i < traces@.len() && matches_target(#[trigger] traces@[i], target@)
                && rec.init_code@ == creation_init(traces@[i]),
{
    let n = traces.len();
    let mut i: usize = 0;
    let mut count: usize = 0;
    let mut found: usize = 0;
    while i < n
        invariant
            0 <= i <= n,
            n == traces@.len(),
            forall|k: int| 0 <= k < traces@.len() ==> (#[trigger] traces@[k]).wf(),
            count == match_count(traces@.take(i as int), target@),
            count <= i,
            count >= 1 ==> found < i && matches_target(traces@[found as int], target@),
        decreases n - i,
    {
        let entry = &traces[i];
        let is_match = entry_matches(entry, target);
        proof {
            assert(traces@.take(i + 1).drop_last() =~= traces@.take(i as int));
            assert(traces@.take(i + 1).last() == traces@[i as int]);
        }
        if is_match {
            if count == 0 {
                found = i;
            }
            count += 1;
        }
        i += 1;
    }
    proof {
        assert(traces@.take(n as int) =~= traces@);
    }
    if count == 0 {
        Err(LocateError::NotFound)
    } else if count == 1 {
        let entry = &traces[found];
        match &entry.init_code {
            Some(code) => {
                let rec = CreationRecord {
                    address: Address { bytes: copy_bytes(&target.bytes) },
                    init_code: copy_bytes(code),
                };
                Ok(rec)
            },
            None => {
                // A matching entry is a creation, and a creation
                // carries initialization code.
                proof {
                    assert(false);
                }
                Err(LocateError::NotFound)
            },
        }
    } else {
        Err(LocateError::Ambiguous)
    }
}

/// The entry is a creation of `target` with a recorded result.
fn entry_matches(entry: &TraceEntry, target: &Address) -> (r: bool)
    ensures
        r == matches_target(*entry, target@),
{
    if !matches!(entry.action, ActionKind::Create) {
        return false;
    }
    if !entry.result_present {
        return false;
    }
    match &entry.created_address {
        Some(a) => bytes_eq(&a.bytes, &target.bytes),
        None => false,
    }
}

} // verus!
