//! The four host-facing operations, reduced to the decisions between the
//! operating-system calls: which matched processes are targeted, and what
//! the operation reports.
use vstd::prelude::*;

use crate::identity::ProcessIdentity;
use crate::matching::{match_set, ProcessRecord};

verus! {

/// The exit code given to every process that a kill operation terminates.
pub const TERMINATION_EXIT_CODE: u32 = 1;

/// One of the four operations that the host can invoke.
#[derive(Clone, Copy, Debug, PartialEq, Eq, Structural)]
pub enum Operation {
    FindAny,
    FindOwnedByCaller,
    KillAny,
    KillOwnedByCaller,
}

/// The two-valued outcome of an operation.
#[derive(Clone, Copy, Debug, PartialEq, Eq, Structural)]
pub enum OperationResult {
    Success,
    Failure,
}

impl Operation {
    /// Whether the operation keeps only the processes owned by the caller's
    /// principal.
    pub open spec fn restricted(self) -> bool {
        match self {
            Operation::FindOwnedByCaller | Operation::KillOwnedByCaller => true,
            _ => false,
        }
    }

    /// Whether the operation terminates its targets.
    pub open spec fn kills(self) -> bool {
        match self {
            Operation::KillAny | Operation::KillOwnedByCaller => true,
            _ => false,
        }
    }

    pub fn is_owner_restricted(&self) -> (r: bool)
        ensures
            r == self.restricted(),
    {
        match self {
            Operation::FindOwnedByCaller | Operation::KillOwnedByCaller => true,
            _ => false,
        }
    }

    pub fn is_kill(&self) -> (r: bool)
        ensures
            r == self.kills(),
    {
        match self {
            Operation::KillAny | Operation::KillOwnedByCaller => true,
            _ => false,
        }
    }
}

impl OperationResult {
    /// The code handed back to the host: 0 for success, 1 for failure.
    pub fn code(&self) -> (r: u32)
        ensures
            r == (if *self == OperationResult::Success { 0u32 } else { 1u32 }),
    {
        match self {
            OperationResult::Success => 0,
            OperationResult::Failure => 1,
        }
    }
}

/// The identity resolved for the match at position `i`; none where it could
/// not be resolved or was not handed in.
pub open spec fn identity_at(ids: Seq<Option<ProcessIdentity>>, i: int) -> Option<ProcessIdentity> {
    if 0 <= i < ids.len() {
        ids[i]
    } else {
        None
    }
}

/// Whether a resolved identity confirms ownership by `caller`; an
/// unresolved one never does.
pub open spec fn owned_by(id: Option<ProcessIdentity>, caller: ProcessIdentity) -> bool {
    match id {
        Some(x) => x@ == caller@,
        None => false,
    }
}

/// The matches whose identity, at the same position of `ids`, is the
/// caller's, in match order.
pub open spec fn owned_ids(matches: Seq<u32>, ids: Seq<Option<ProcessIdentity>>, caller: ProcessIdentity) -> Seq<u32>
    decreases matches.len(),
{
    if matches.len() == 0 {
        Seq::empty()
    } else {
        let before = owned_ids(matches.drop_last(), ids, caller);
        if owned_by(identity_at(ids, matches.len() - 1), caller) {
            before.push(matches.last())
        } else {
            before
        }
    }
}

/// The processes an operation acts on: the owned matches for a restricted
/// operation whose caller identity is known, all matches otherwise.
pub open spec fn target_ids(
    op: Operation,
    matches: Seq<u32>,
    caller: Option<ProcessIdentity>,
    ids: Seq<Option<ProcessIdentity>>,
) -> Seq<u32> {
    if op.restricted() && caller.is_some() {
        owned_ids(matches, ids, caller.unwrap())
    } else {
        matches
    }
}

/// Whether there is one successful termination attempt for each target.
pub open spec fn all_succeeded(targets: Seq<u32>, attempts: Seq<bool>) -> bool {
    &&& attempts.len() == targets.len()
    &&& forall|i: int| 0 <= i < attempts.len() ==> attempts[i]
}

/// What an operation reports: success iff it has targets and, for a kill
/// operation, every target was terminated.
pub open spec fn outcome(op: Operation, targets: Seq<u32>, attempts: Seq<bool>) -> OperationResult {
    if targets.len() > 0 && (!op.kills() || all_succeeded(targets, attempts)) {
        OperationResult::Success
    } else {
        OperationResult::Failure
    }
}

/// What an operation reports for a snapshot, a query, the caller's process
/// id and identity, the identities resolved for the matches, and the
/// termination attempts made on the targets.
pub open spec fn operation_result(
    op: Operation,
    records: Seq<ProcessRecord>,
    query: Seq<char>,
    self_pid: u32,
    caller: Option<ProcessIdentity>,
    ids: Seq<Option<ProcessIdentity>>,
    attempts: Seq<bool>,
) -> OperationResult {
    outcome(op, target_ids(op, match_set(records, query, self_pid), caller, ids), attempts)
}

/// Whether the identities of the matches have to be resolved: only for a
/// restricted operation, and only once the caller's own identity is known.
pub fn identities_needed(op: Operation, caller: &Option<ProcessIdentity>) -> (r: bool)
    ensures
        r == (op.restricted() && caller.is_some()),
{
    op.is_owner_restricted() && caller.is_some()
}

/// The matches owned by `caller`, where `identities[i]` is the identity
/// resolved for `matches[i]`.
pub fn owned_targets(
    matches: &Vec<u32>,
    identities: &Vec<Option<ProcessIdentity>>,
    caller: &ProcessIdentity,
) -> (r: Vec<u32>)
    ensures
        r@ == owned_ids(matches@, identities@, *caller),
{
    let mut out: Vec<u32> = Vec::new();
    let mut i: usize = 0;
    while i < matches.len()
        invariant
            i <= matches@.len(),
            out@ == owned_ids(matches@.take(i as int), identities@, *caller),
        decreases matches@.len() - i,
    {
        let owned = if i < identities.len() {
            match &identities[i] {
                Some(id) => id.same_principal(caller),
                None => false,
            }
        } else {
            false
        };
        assert(matches@.take(i + 1).drop_last() =~= matches@.take(i as int));
        if owned {
            out.push(matches[i]);
        }
        i = i + 1;
    }
    assert(matches@.take(matches@.len() as int) =~= matches@);
    out
}

/// The processes the operation acts on; a restricted operation whose caller
/// identity could not be resolved degrades to all matches.
pub fn select_targets(
    op: Operation,
    matches: &Vec<u32>,
    caller: &Option<ProcessIdentity>,
    identities: &Vec<Option<ProcessIdentity>>,
) -> (r: Vec<u32>)
    ensures
        r@ == target_ids(op, matches@, *caller, identities@),
{
    match caller {
        Some(c) if op.is_owner_restricted() => owned_targets(matches, identities, c),
        _ => matches.clone(),
    }
}

/// Whether every termination attempt succeeded (vacuously so for none).
pub fn all_terminated(attempts: &Vec<bool>) -> (r: bool)
    ensures
        r == (forall|i: int| 0 <= i < attempts@.len() ==> attempts@[i]),
{
    let mut i: usize = 0;
    while i < attempts.len()
        invariant
            i <= attempts@.len(),
            forall|j: int| 0 <= j < i ==> attempts@[j],
        decreases attempts@.len() - i,
    {
        if !attempts[i] {
            return false;
        }
        i = i + 1;
    }
    true
}

/// What the operation reports, given its targets and, for a kill operation,
/// the result of the termination attempt on each target in order.
pub fn operation_outcome(op: Operation, targets: &Vec<u32>, attempts: &Vec<bool>) -> (r: OperationResult)
    ensures
        r == outcome(op, targets@, attempts@),
{
    if targets.len() == 0 {
        OperationResult::Failure
    } else if !op.is_kill() {
        OperationResult::Success
    } else if attempts.len() == targets.len() && all_terminated(attempts) {
        OperationResult::Success
    } else {
        OperationResult::Failure
    }
}

} // verus!
