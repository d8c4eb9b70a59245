//! Properties that hold across the operations, proved over the models that
//! the operations' contracts use.
use vstd::prelude::*;

use crate::facade::{
    all_succeeded, identity_at, operation_result, outcome, owned_by, owned_ids, target_ids,
    Operation, OperationResult,
};
use crate::identity::ProcessIdentity;
use crate::matching::{
    lemma_selected_ids_agree, lower_of, match_set, matches_query, selected_ids, ProcessRecord,
};

verus! {

proof fn lemma_selected_ids_exclude(records: Seq<ProcessRecord>, keep: spec_fn(ProcessRecord) -> bool, x: u32)
    requires
        forall|r: ProcessRecord| #[trigger] keep(r) ==> r.process_id != x,
    ensures
        !selected_ids(records, keep).contains(x),
    decreases records.len(),
{
    if records.len() > 0 {
        lemma_selected_ids_exclude(records.drop_last(), keep, x);
        let before = selected_ids(records.drop_last(), keep);
        if keep(records.last()) {
            assert forall|k: int| 0 <= k < before.len() + 1 implies before.push(
                records.last().process_id,
            )[k] != x by {
                if k < before.len() {
                    assert(before.push(records.last().process_id)[k] == before[k]);
                }
            }
        }
    }
}

/// A query that matches nothing makes find-any and kill-any, and their
/// owner-restricted forms, report failure.
pub proof fn lemma_no_match_fails(
    records: Seq<ProcessRecord>,
    query: Seq<char>,
    self_pid: u32,
    caller: Option<ProcessIdentity>,
    ids: Seq<Option<ProcessIdentity>>,
    attempts: Seq<bool>,
)
    requires
        match_set(records, query, self_pid).len() == 0,
    ensures
        operation_result(Operation::FindAny, records, query, self_pid, caller, ids, attempts)
            == OperationResult::Failure,
        operation_result(Operation::KillAny, records, query, self_pid, caller, ids, attempts)
            == OperationResult::Failure,
        operation_result(Operation::FindOwnedByCaller, records, query, self_pid, caller, ids, attempts)
            == OperationResult::Failure,
        operation_result(Operation::KillOwnedByCaller, records, query, self_pid, caller, ids, attempts)
            == OperationResult::Failure,
{
    let m = match_set(records, query, self_pid);
    if caller.is_some() {
        assert(owned_ids(m, ids, caller.unwrap()).len() == 0);
    }
}

/// The caller's own process id is in no match set, whatever the query and
/// even where the caller's own executable carries the queried name.
pub proof fn lemma_self_never_matched(records: Seq<ProcessRecord>, query: Seq<char>, self_pid: u32)
    ensures
        !match_set(records, query, self_pid).contains(self_pid),
{
    let keep = |r: ProcessRecord| matches_query(r, query, self_pid);
    assert forall|r: ProcessRecord| #[trigger] keep(r) implies r.process_id != self_pid by {}
    lemma_selected_ids_exclude(records, keep, self_pid);
}

/// Names are matched without regard to case: two queries that fold to the
/// same lower-case text select the same processes, and a name matches a
/// query exactly when their folded forms are equal.
pub proof fn lemma_case_insensitive(
    records: Seq<ProcessRecord>,
    query_a: Seq<char>,
    query_b: Seq<char>,
    self_pid: u32,
)
    requires
        lower_of(query_a) == lower_of(query_b),
    ensures
        match_set(records, query_a, self_pid) == match_set(records, query_b, self_pid),
        forall|r: ProcessRecord|
            matches_query(r, query_a, self_pid) == matches_query(r, query_b, self_pid),
{
    lemma_selected_ids_agree(
        records,
        records,
        |r: ProcessRecord| matches_query(r, query_a, self_pid),
        |r: ProcessRecord| matches_query(r, query_b, self_pid),
    );
}

/// A kill operation succeeds exactly when it has targets and every one of
/// its termination attempts succeeded; one failed attempt makes it fail,
/// however many others succeeded.
pub proof fn lemma_kill_all_or_nothing(op: Operation, targets: Seq<u32>, attempts: Seq<bool>)
    requires
        op.kills(),
        attempts.len() == targets.len(),
    ensures
        (outcome(op, targets, attempts) == OperationResult::Success) == (targets.len() > 0
            && forall|i: int| 0 <= i < attempts.len() ==> attempts[i]),
        (exists|i: int| 0 <= i < attempts.len() && !attempts[i]) ==> outcome(op, targets, attempts)
            == OperationResult::Failure,
{
}

proof fn lemma_owned_ids_include(
    matches: Seq<u32>,
    ids: Seq<Option<ProcessIdentity>>,
    caller: ProcessIdentity,
    i: int,
)
    requires
        0 <= i < matches.len(),
        owned_by(identity_at(ids, i), caller),
    ensures
        owned_ids(matches, ids, caller).contains(matches[i]),
    decreases matches.len(),
{
    let before = owned_ids(matches.drop_last(), ids, caller);
    if i == matches.len() - 1 {
        assert(owned_ids(matches, ids, caller).last() == matches[i]);
    } else {
        lemma_owned_ids_include(matches.drop_last(), ids, caller, i);
        let k = choose|k: int| 0 <= k < before.len() && before[k] == matches[i];
        if owned_by(identity_at(ids, matches.len() - 1), caller) {
            assert(before.push(matches.last())[k] == matches[i]);
        }
    }
}

/// Whether `pid` stands among the matches at a position whose identity was
/// resolved as the caller's.
pub open spec fn confirmed_owned(
    matches: Seq<u32>,
    ids: Seq<Option<ProcessIdentity>>,
    caller: ProcessIdentity,
    pid: u32,
) -> bool {
    exists|j: int| 0 <= j < matches.len() && matches[j] == pid && owned_by(identity_at(ids, j), caller)
}

proof fn lemma_owned_ids_confirmed(
    matches: Seq<u32>,
    ids: Seq<Option<ProcessIdentity>>,
    caller: ProcessIdentity,
    k: int,
)
    requires
        0 <= k < owned_ids(matches, ids, caller).len(),
    ensures
        confirmed_owned(matches, ids, caller, owned_ids(matches, ids, caller)[k]),
    decreases matches.len(),
{
    let before = owned_ids(matches.drop_last(), ids, caller);
    let n = matches.len() - 1;
    if k < before.len() {
        lemma_owned_ids_confirmed(matches.drop_last(), ids, caller, k);
        let j = choose|j: int|
            0 <= j < matches.drop_last().len() && matches.drop_last()[j] == before[k]
                && owned_by(identity_at(ids, j), caller);
        assert(matches[j] == owned_ids(matches, ids, caller)[k]);
    } else {
        assert(matches[n] == owned_ids(matches, ids, caller)[k]);
    }
}

/// An owner-restricted operation whose caller identity is known targets
/// every match whose identity is the caller's, and only matches whose
/// identity was resolved as the caller's.
pub proof fn lemma_owned_selection(
    op: Operation,
    matches: Seq<u32>,
    caller: ProcessIdentity,
    ids: Seq<Option<ProcessIdentity>>,
)
    requires
        op.restricted(),
    ensures
        target_ids(op, matches, Some(caller), ids) == owned_ids(matches, ids, caller),
        forall|i: int|
            0 <= i < matches.len() && owned_by(identity_at(ids, i), caller) ==> #[trigger] target_ids(
                op,
                matches,
                Some(caller),
                ids,
            ).contains(matches[i]),
        forall|k: int|
            0 <= k < owned_ids(matches, ids, caller).len() ==> #[trigger] confirmed_owned(
                matches,
                ids,
                caller,
                owned_ids(matches, ids, caller)[k],
            ),
{
    assert forall|i: int|
        0 <= i < matches.len() && owned_by(identity_at(ids, i), caller) implies #[trigger] target_ids(
        op,
        matches,
        Some(caller),
        ids,
    ).contains(matches[i]) by {
        lemma_owned_ids_include(matches, ids, caller, i);
    }
    assert forall|k: int| 0 <= k < owned_ids(matches, ids, caller).len() implies #[trigger] confirmed_owned(
        matches,
        ids,
        caller,
        owned_ids(matches, ids, caller)[k],
    ) by {
        lemma_owned_ids_confirmed(matches, ids, caller, k);
    }
}

/// Where match ids are distinct, a match whose identity was resolved as a
/// different principal's is not targeted by an owner-restricted operation.
pub proof fn lemma_other_principal_excluded(
    op: Operation,
    matches: Seq<u32>,
    caller: ProcessIdentity,
    ids: Seq<Option<ProcessIdentity>>,
    i: int,
)
    requires
        op.restricted(),
        matches.no_duplicates(),
        0 <= i < matches.len(),
        identity_at(ids, i) is Some,
        identity_at(ids, i).unwrap()@ != caller@,
    ensures
        !target_ids(op, matches, Some(caller), ids).contains(matches[i]),
{
    let t = target_ids(op, matches, Some(caller), ids);
    if t.contains(matches[i]) {
        let k = choose|k: int| 0 <= k < t.len() && t[k] == matches[i];
        lemma_owned_ids_confirmed(matches, ids, caller, k);
    }
}

/// Where the caller's own identity cannot be resolved, the owner-restricted
/// operations behave exactly as their unrestricted forms.
pub proof fn lemma_unresolved_caller_degrades(
    records: Seq<ProcessRecord>,
    query: Seq<char>,
    self_pid: u32,
    ids: Seq<Option<ProcessIdentity>>,
    attempts: Seq<bool>,
)
    ensures
        operation_result(Operation::FindOwnedByCaller, records, query, self_pid, None, ids, attempts)
            == operation_result(Operation::FindAny, records, query, self_pid, None, ids, attempts),
        operation_result(Operation::KillOwnedByCaller, records, query, self_pid, None, ids, attempts)
            == operation_result(Operation::KillAny, records, query, self_pid, None, ids, attempts),
{
}

/// Two snapshots that list the same processes, in the same order, give
/// match sets of the same size (indeed the same match set) for any query.
pub proof fn lemma_find_repeatable(
    first: Seq<ProcessRecord>,
    second: Seq<ProcessRecord>,
    query: Seq<char>,
    self_pid: u32,
)
    requires
        first.len() == second.len(),
        forall|i: int|
            0 <= i < first.len() ==> first[i].process_id == second[i].process_id
                && first[i].executable_name@ == second[i].executable_name@,
    ensures
        match_set(first, query, self_pid) == match_set(second, query, self_pid),
        match_set(first, query, self_pid).len() == match_set(second, query, self_pid).len(),
{
    lemma_selected_ids_agree(
        first,
        second,
        |r: ProcessRecord| matches_query(r, query, self_pid),
        |r: ProcessRecord| matches_query(r, query, self_pid),
    );
}

} // verus!
