use policy_local::{
    collect_ocsf_log_files, log_available, logs_to_scan, LogEntry, DENIAL_LOG_FILES_TO_SCAN,
};

fn entry(file_name: &str, modified: Option<i128>, path: u32) -> LogEntry<u32> {
    LogEntry { file_name: file_name.to_string(), modified, path }
}

fn listing() -> Vec<LogEntry<u32>> {
    vec![
        entry("openshell-ocsf.2026-05-03.log", Some(20), 1),
        entry("openshell.2026-05-04.log", Some(90), 2),
        entry("openshell-ocsf.2026-05-04.log", Some(30), 3),
        entry("openshell-ocsf.broken.log", None, 4),
        entry("openshell-ocsf", Some(-7), 5),
        entry("syslog", Some(99), 6),
        entry("openshell-ocsf.2026-05-02.log", Some(10), 7),
    ]
}

#[test]
fn log_files_are_listed_newest_first() {
    assert_eq!(collect_ocsf_log_files(listing(), 10), [3, 1, 7, 5]);
}

#[test]
fn no_more_log_files_are_listed_than_asked_for() {
    assert!(collect_ocsf_log_files(listing(), 0).is_empty());
    assert_eq!(collect_ocsf_log_files(listing(), 1), [3]);
    assert_eq!(collect_ocsf_log_files(listing(), 3), [3, 1, 7]);
    assert_eq!(collect_ocsf_log_files(listing(), 4), [3, 1, 7, 5]);
}

#[test]
fn log_files_of_one_time_keep_their_order() {
    let entries = vec![
        entry("openshell-ocsf.a", Some(5), 1),
        entry("openshell-ocsf.b", Some(9), 2),
        entry("openshell-ocsf.c", Some(5), 3),
        entry("openshell-ocsf.d", Some(9), 4),
        entry("openshell-ocsf.e", Some(5), 5),
    ];
    assert_eq!(collect_ocsf_log_files(entries, 9), [2, 4, 1, 3, 5]);
}

#[test]
fn prefix_of_a_log_name_is_matched_exactly() {
    let entries = vec![
        entry("openshell-ocs", Some(1), 1),
        entry("Openshell-ocsf.log", Some(2), 2),
        entry(" openshell-ocsf.log", Some(3), 3),
        entry("openshell-ocsfé", Some(4), 4),
        entry("", Some(5), 5),
    ];
    assert_eq!(collect_ocsf_log_files(entries, 9), [4]);
}

#[test]
fn most_recent_logs_are_scanned() {
    assert_eq!(DENIAL_LOG_FILES_TO_SCAN, 2);
    assert_eq!(logs_to_scan(Some(listing())), [3, 1]);
    assert!(logs_to_scan::<u32>(None).is_empty());
}

#[test]
fn log_is_available_if_one_file_counts() {
    assert!(log_available(Some(listing())));
    assert!(!log_available::<u32>(None));
    assert!(!log_available::<u32>(Some(Vec::new())));
    assert!(!log_available(Some(vec![
        entry("openshell-ocsf.log", None, 1),
        entry("openshell.log", Some(1), 2),
    ])));
}
