use file_explorer::{coalesce_batch, RawChange};

fn raw(kind: &str, paths: &[&str]) -> RawChange {
    RawChange {
        kind: kind.to_string(),
        paths: paths.iter().map(|p| p.to_string()).collect(),
    }
}

#[test]
fn burst_of_identical_modify_events_yields_one_record() {
    let events = vec![
        raw("modified", &["/watched/report.txt"]),
        raw("modified", &["/watched/report.txt"]),
        raw("modified", &["/watched/report.txt"]),
        raw("modified", &["/watched/report.txt"]),
        raw("modified", &["/watched/report.txt"]),
    ];
    let records = coalesce_batch(&events);
    assert_eq!(records.len(), 1);
    assert_eq!(records[0].kind, "modified");
    assert_eq!(records[0].paths, vec!["/watched/report.txt".to_string()]);
}

#[test]
fn two_kinds_in_one_window_yield_two_records() {
    let events = vec![raw("created", &["/watched/new.txt"]), raw("removed", &["/watched/old.txt"])];
    let records = coalesce_batch(&events);
    assert_eq!(records.len(), 2);
    assert_eq!(records[0].kind, "created");
    assert_eq!(records[0].paths, vec!["/watched/new.txt".to_string()]);
    assert_eq!(records[1].kind, "removed");
    assert_eq!(records[1].paths, vec!["/watched/old.txt".to_string()]);
}

#[test]
fn paths_of_one_kind_keep_arrival_order_without_repeats() {
    let events = vec![
        raw("modified", &["/a"]),
        raw("modified", &["/b"]),
        raw("modified", &["/a"]),
        raw("modified", &["/c", "/b"]),
    ];
    let records = coalesce_batch(&events);
    assert_eq!(records.len(), 1);
    assert_eq!(
        records[0].paths,
        vec!["/a".to_string(), "/b".to_string(), "/c".to_string()]
    );
}

#[test]
fn rename_events_carry_both_paths() {
    let events = vec![raw("renamed", &["/watched/old_name", "/watched/new_name"])];
    let records = coalesce_batch(&events);
    assert_eq!(records.len(), 1);
    assert_eq!(
        records[0].paths,
        vec!["/watched/old_name".to_string(), "/watched/new_name".to_string()]
    );
}

#[test]
fn empty_window_yields_no_records() {
    let records = coalesce_batch(&Vec::new());
    assert!(records.is_empty());
}
