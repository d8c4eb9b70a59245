//! Selecting the process ids whose executable name matches a query.
use vstd::prelude::*;

verus! {

/// What `str::to_lowercase` returns for a string: the Unicode lowercase
/// mapping of its characters.
pub uninterp spec fn lower_of(s: Seq<char>) -> Seq<char>;

/// What `String::from_utf16_lossy` returns for a sequence of UTF-16 code
/// units, with unpaired surrogates replaced by U+FFFD.
pub uninterp spec fn utf16_lossy_of(units: Seq<u16>) -> Seq<char>;

/// Relies on `str::to_lowercase`: its result is a function of the characters.
#[verifier::external_body]
fn lowercase(s: &str) -> (r: String)
    ensures
        r@ == lower_of(s@),
{
    s.to_lowercase()
}

/// Relies on `String::from_utf16_lossy`: its result is a function of the code
/// units.
#[verifier::external_body]
fn utf16_lossy(units: &Vec<u16>) -> (r: String)
    ensures
        r@ == utf16_lossy_of(units@),
{
    String::from_utf16_lossy(units)
}

/// The code units of a NUL-terminated wide string, up to and without the
/// first NUL (all of them where there is none).
pub open spec fn until_nul(units: Seq<u16>) -> Seq<u16>
    decreases units.len(),
{
    if units.len() == 0 {
        units
    } else if units[0] == 0 {
        Seq::empty()
    } else {
        seq![units[0]] + until_nul(units.drop_first())
    }
}

proof fn lemma_until_nul_at(units: Seq<u16>, i: int)
    requires
        0 <= i <= units.len(),
        forall|j: int| 0 <= j < i ==> units[j] != 0,
        i == units.len() || units[i] == 0,
    ensures
        until_nul(units) == units.take(i),
    decreases i,
{
    if i == 0 {
        assert(units.take(0) =~= Seq::<u16>::empty());
        if units.len() == 0 {
            assert(units =~= Seq::<u16>::empty());
        }
    } else {
        let rest = units.drop_first();
        assert forall|j: int| 0 <= j < i - 1 implies rest[j] != 0 by {
            assert(rest[j] == units[j + 1]);
        }
        lemma_until_nul_at(rest, i - 1);
        assert(seq![units[0]] + rest.take(i - 1) =~= units.take(i));
    }
}

/// Decodes the executable name stored in a snapshot entry: the wide string
/// up to its NUL terminator, with invalid UTF-16 replaced rather than
/// rejected, so that no entry makes the enumeration fail.
pub fn decode_wide_name(units: &[u16]) -> (r: String)
    ensures
        r@ == utf16_lossy_of(until_nul(units@)),
{
    let mut prefix: Vec<u16> = Vec::new();
    let mut i: usize = 0;
    while i < units.len() && units[i] != 0
        invariant
            i <= units@.len(),
            prefix@ == units@.take(i as int),
            forall|j: int| 0 <= j < i ==> units@[j] != 0,
        decreases units@.len() - i,
    {
        prefix.push(units[i]);
        assert(units@.take(i as int).push(units@[i as int]) =~= units@.take(i + 1));
        i = i + 1;
    }
    proof {
        lemma_until_nul_at(units@, i as int);
    }
    utf16_lossy(&prefix)
}

/// One entry of a process-table snapshot: a process id and its decoded
/// executable name.
pub struct ProcessRecord {
    pub process_id: u32,
    pub executable_name: String,
}

/// The ids of the records that `keep` accepts, in the order of the records.
pub open spec fn selected_ids(records: Seq<ProcessRecord>, keep: spec_fn(ProcessRecord) -> bool) -> Seq<u32>
    decreases records.len(),
{
    if records.len() == 0 {
        Seq::empty()
    } else {
        let before = selected_ids(records.drop_last(), keep);
        if keep(records.last()) {
            before.push(records.last().process_id)
        } else {
            before
        }
    }
}

/// Whether a record whose name is already folded to lower case matches an
/// already folded query, the caller's own process being never a match.
pub open spec fn matches_folded(record: ProcessRecord, folded_query: Seq<char>, self_pid: u32) -> bool {
    record.process_id != self_pid && record.executable_name@ == folded_query
}

/// Whether a record matches a query, names compared without regard to case,
/// the caller's own process being never a match.
pub open spec fn matches_query(record: ProcessRecord, query: Seq<char>, self_pid: u32) -> bool {
    record.process_id != self_pid && lower_of(record.executable_name@) == lower_of(query)
}

/// The match set of a snapshot whose names are already folded.
pub open spec fn folded_match_set(records: Seq<ProcessRecord>, folded_query: Seq<char>, self_pid: u32) -> Seq<u32> {
    selected_ids(records, |r: ProcessRecord| matches_folded(r, folded_query, self_pid))
}

/// The match set of a snapshot for a query: the ids of the entries whose name
/// equals the query without regard to case, other than the caller's own,
/// in snapshot order.
pub open spec fn match_set(records: Seq<ProcessRecord>, query: Seq<char>, self_pid: u32) -> Seq<u32> {
    selected_ids(records, |r: ProcessRecord| matches_query(r, query, self_pid))
}

/// Two record sequences with the same ids, on which two predicates agree
/// position by position, select the same ids.
pub proof fn lemma_selected_ids_agree(
    a: Seq<ProcessRecord>,
    b: Seq<ProcessRecord>,
    keep_a: spec_fn(ProcessRecord) -> bool,
    keep_b: spec_fn(ProcessRecord) -> bool,
)
    requires
        a.len() == b.len(),
        forall|i: int| 0 <= i < a.len() ==> a[i].process_id == b[i].process_id,
        forall|i: int| 0 <= i < a.len() ==> keep_a(a[i]) == keep_b(b[i]),
    ensures
        selected_ids(a, keep_a) == selected_ids(b, keep_b),
    decreases a.len(),
{
    if a.len() > 0 {
        lemma_selected_ids_agree(a.drop_last(), b.drop_last(), keep_a, keep_b);
    }
}

/// Selecting from a longer prefix adds the next record's id exactly when it
/// is kept.
proof fn lemma_selected_ids_step(records: Seq<ProcessRecord>, keep: spec_fn(ProcessRecord) -> bool, i: int)
    requires
        0 <= i < records.len(),
    ensures
        selected_ids(records.take(i + 1), keep) == (if keep(records[i]) {
            selected_ids(records.take(i), keep).push(records[i].process_id)
        } else {
            selected_ids(records.take(i), keep)
        }),
{
    assert(records.take(i + 1).drop_last() =~= records.take(i));
}

/// Selects, in snapshot order, the ids of the records whose already folded
/// name equals the already folded query, leaving out `self_pid`.
pub fn select_folded(records: &Vec<ProcessRecord>, folded_query: &String, self_pid: u32) -> (r: Vec<u32>)
    ensures
        r@ == folded_match_set(records@, folded_query@, self_pid),
{
    let ghost keep = |r: ProcessRecord| matches_folded(r, folded_query@, self_pid);
    let mut out: Vec<u32> = Vec::new();
    let mut i: usize = 0;
    while i < records.len()
        invariant
            i <= records@.len(),
            keep == (|r: ProcessRecord| matches_folded(r, folded_query@, self_pid)),
            out@ == selected_ids(records@.take(i as int), keep),
        decreases records@.len() - i,
    {
        let record = &records[i];
        proof {
            lemma_selected_ids_step(records@, keep, i as int);
        }
        if record.process_id != self_pid && record.executable_name.eq(folded_query) {
            out.push(record.process_id);
        }
        i = i + 1;
    }
    assert(records@.take(records@.len() as int) =~= records@);
    out
}

/// The records with each name folded to lower case.
pub fn fold_names(records: &Vec<ProcessRecord>) -> (r: Vec<ProcessRecord>)
    ensures
        r@.len() == records@.len(),
        forall|i: int|
            0 <= i < r@.len() ==> r@[i].process_id == records@[i].process_id
                && r@[i].executable_name@ == lower_of(records@[i].executable_name@),
{
    let mut out: Vec<ProcessRecord> = Vec::new();
    let mut i: usize = 0;
    while i < records.len()
        invariant
            i <= records@.len(),
            out@.len() == i,
            forall|j: int|
                0 <= j < i ==> out@[j].process_id == records@[j].process_id
                    && out@[j].executable_name@ == lower_of(records@[j].executable_name@),
        decreases records@.len() - i,
    {
        let record = &records[i];
        let name = lowercase(record.executable_name.as_str());
        out.push(ProcessRecord { process_id: record.process_id, executable_name: name });
        i = i + 1;
    }
    out
}

/// The match set of a snapshot: the ids of the entries whose executable name
/// equals `query` without regard to case, other than `self_pid`, in snapshot
/// order.
pub fn select_matches(records: &Vec<ProcessRecord>, query: &str, self_pid: u32) -> (r: Vec<u32>)
    ensures
        r@ == match_set(records@, query@, self_pid),
{
    let folded = fold_names(records);
    let folded_query = lowercase(query);
    let r = select_folded(&folded, &folded_query, self_pid);
    proof {
        lemma_selected_ids_agree(
            folded@,
            records@,
            |r: ProcessRecord| matches_folded(r, folded_query@, self_pid),
            |r: ProcessRecord| matches_query(r, query@, self_pid),
        );
    }
    r
}

} // verus!
