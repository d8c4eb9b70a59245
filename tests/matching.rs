use nsis_process::facade::{all_terminated, operation_outcome, Operation, OperationResult};
use nsis_process::matching::{decode_wide_name, select_folded, select_matches, ProcessRecord};

fn record(process_id: u32, name: &str) -> ProcessRecord {
    ProcessRecord { process_id, executable_name: name.to_string() }
}

fn desktop_snapshot() -> Vec<ProcessRecord> {
    vec![
        record(4, "System"),
        record(612, "svchost.exe"),
        record(1204, "explorer.exe"),
        record(2200, "setup.exe"),
        record(3150, "svchost.exe"),
    ]
}

fn wide(s: &str) -> Vec<u16> {
    s.encode_utf16().collect()
}

#[test]
fn find_process() {
    let processes = select_matches(&desktop_snapshot(), "explorer.exe", 2200);
    assert!(!processes.is_empty());
}

#[test]
fn kill_process() {
    let processes = select_matches(&desktop_snapshot(), "something_that_doesnt_exist.exe", 2200);
    let attempts: Vec<bool> = processes.iter().map(|_| true).collect();
    assert!(all_terminated(&attempts));
}

#[test]
fn explorer_found_on_desktop() {
    let records = desktop_snapshot();
    let matches = select_matches(&records, "explorer.exe", 2200);
    assert_eq!(matches, vec![1204]);
    assert_eq!(operation_outcome(Operation::FindAny, &matches, &vec![]), OperationResult::Success);
}

#[test]
fn missing_process_fails_find_and_kill() {
    let records = desktop_snapshot();
    let matches = select_matches(&records, "definitely_not_a_real_process.exe", 2200);
    assert!(matches.is_empty());
    assert_eq!(operation_outcome(Operation::FindAny, &matches, &vec![]), OperationResult::Failure);
    assert_eq!(operation_outcome(Operation::KillAny, &matches, &vec![]), OperationResult::Failure);
}

#[test]
fn own_process_never_matched() {
    let records = vec![record(10, "setup.exe"), record(11, "Setup.exe"), record(12, "setup.exe")];
    assert_eq!(select_matches(&records, "setup.exe", 11), vec![10, 12]);
    assert_eq!(select_matches(&vec![record(11, "setup.exe")], "SETUP.EXE", 11), Vec::<u32>::new());
}

#[test]
fn matching_ignores_case() {
    let records = vec![record(7, "Foo.EXE"), record(8, "bar.exe")];
    assert_eq!(select_matches(&records, "foo.exe", 1), vec![7]);
    assert_eq!(select_matches(&records, "FOO.EXE", 1), vec![7]);
    assert_eq!(select_matches(&records, "Foo.exe", 1), vec![7]);
}

#[test]
fn matching_keeps_snapshot_order() {
    let records = desktop_snapshot();
    assert_eq!(select_matches(&records, "SVCHOST.EXE", 2200), vec![612, 3150]);
}

#[test]
fn matching_is_exact_apart_from_case() {
    let records = vec![record(1, "explorer.exe "), record(2, "explorer"), record(3, "xexplorer.exe")];
    assert!(select_matches(&records, "explorer.exe", 99).is_empty());
}

#[test]
fn empty_snapshot_gives_empty_match_set() {
    assert!(select_matches(&vec![], "explorer.exe", 1).is_empty());
}

#[test]
fn repeated_selection_gives_same_size() {
    let records = desktop_snapshot();
    let first = select_matches(&records, "svchost.exe", 2200);
    let second = select_matches(&records, "svchost.exe", 2200);
    assert_eq!(first.len(), second.len());
    assert_eq!(first, second);
}

#[test]
fn folded_selection_compares_exactly() {
    let records = vec![record(5, "app.exe"), record(6, "APP.EXE"), record(7, "app.exe")];
    assert_eq!(select_folded(&records, &"app.exe".to_string(), 7), vec![5]);
}

#[test]
fn wide_name_stops_at_nul() {
    let mut units = wide("Explorer.EXE");
    units.push(0);
    units.extend(wide("garbage"));
    assert_eq!(decode_wide_name(&units), "Explorer.EXE");
}

#[test]
fn wide_name_without_nul_is_whole() {
    assert_eq!(decode_wide_name(&wide("notepad.exe")), "notepad.exe");
}

#[test]
fn wide_name_empty() {
    assert_eq!(decode_wide_name(&[0, 65, 66]), "");
    assert_eq!(decode_wide_name(&[]), "");
}

#[test]
fn wide_name_replaces_unpaired_surrogate() {
    let units = vec![0x61, 0xD800, 0x62, 0];
    assert_eq!(decode_wide_name(&units), "a\u{FFFD}b");
}

#[test]
fn decoded_names_match_queries() {
    let mut units = wide("CMD.EXE");
    units.resize(260, 0);
    let records = vec![ProcessRecord { process_id: 40, executable_name: decode_wide_name(&units) }];
    assert_eq!(select_matches(&records, "cmd.exe", 1), vec![40]);
}
