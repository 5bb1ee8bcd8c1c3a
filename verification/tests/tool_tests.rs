use sys_kaleido::config::{needs_refresh, wants_update, REFRESH_AGE_SECS};
use sys_kaleido::global_input::{is_yes, normalize_answer};
use sys_kaleido::http::{run_transfer, transfer_step, ProgressInfo, TransferState};
use sys_kaleido::paths::{
    parent_dir, path_join, path_starts_with, set_extension, strip_trailing_seps,
};
use sys_kaleido::rust_src_installer::source_archive_name;

#[test]
fn test_path_join_and_strip() {
    assert_eq!(path_join("/a/b", "c"), "/a/b/c");
    assert_eq!(strip_trailing_seps("/a/b//"), "/a/b");
    assert_eq!(strip_trailing_seps("C:\\x\\"), "C:\\x");
    assert_eq!(strip_trailing_seps("plain"), "plain");
}

#[test]
fn test_path_starts_with_is_segment_wise() {
    assert!(path_starts_with("/a/b/c", "/a/b"));
    assert!(path_starts_with("/a/b", "/a/b"));
    assert!(!path_starts_with("/a/bc", "/a/b"));
    assert!(!path_starts_with("/a", "/a/b"));
    assert!(path_starts_with("C:\\a\\b", "C:\\a"));
}

#[test]
fn test_parent_dir() {
    assert_eq!(parent_dir("/a/b/c"), "/a/b");
    assert_eq!(parent_dir("rel/x"), "rel");
    assert_eq!(parent_dir("lone"), "lone");
}

#[test]
fn test_set_extension() {
    assert_eq!(set_extension("bin/tool", "exe"), "bin/tool.exe");
    assert_eq!(set_extension("bin/tool.sh", "exe"), "bin/tool.exe");
    assert_eq!(set_extension("bin/tool.sh", ""), "bin/tool");
    assert_eq!(set_extension("bin/tool", ""), "bin/tool");
    assert_eq!(set_extension("bin/.hidden", "exe"), "bin/.hidden.exe");
}

#[test]
fn test_source_archive_name() {
    assert_eq!(source_archive_name("v1.0.0"), "v1.0.0.zip");
}

#[test]
fn test_normalize_answer_trims_and_lowercases() {
    assert_eq!(normalize_answer("  YeS \n"), "yes");
    assert_eq!(normalize_answer("\tY\r\n"), "y");
    assert_eq!(normalize_answer("no"), "no");
}

#[test]
fn test_is_yes() {
    assert!(is_yes("y"));
    assert!(!is_yes("yes"));
    assert!(!is_yes(""));
}

#[test]
fn test_refresh_policy() {
    assert_eq!(REFRESH_AGE_SECS, 604800);
    assert!(!needs_refresh(REFRESH_AGE_SECS));
    assert!(needs_refresh(REFRESH_AGE_SECS + 1));
    assert!(!needs_refresh(0));
}

#[test]
fn test_wants_update_checks_first_letter() {
    assert!(wants_update("y"));
    assert!(wants_update("yes"));
    assert!(!wants_update("sure"));
    assert!(!wants_update(""));
}

#[test]
fn test_transfer_consumer_completes() {
    let events = vec![
        ProgressInfo::Start(10),
        ProgressInfo::Progress { current: 4, total: Some(10) },
        ProgressInfo::Progress { current: 10, total: Some(10) },
        ProgressInfo::Complete(),
    ];
    assert!(matches!(run_transfer(&events), TransferState::Complete));
}

#[test]
fn test_transfer_consumer_keeps_error() {
    let events = vec![
        ProgressInfo::Start(0),
        ProgressInfo::Error("connection reset".to_string()),
    ];
    match run_transfer(&events) {
        TransferState::Failed { message } => assert_eq!(message, "connection reset"),
        _ => panic!("expected the transfer to fail"),
    }
}

#[test]
fn test_transfer_steps_track_progress() {
    let s0 = TransferState::Pending;
    let s1 = transfer_step(&s0, &ProgressInfo::Start(100));
    match &s1 {
        TransferState::Running { current, total } => {
            assert_eq!(*current, 0);
            assert_eq!(*total, 100);
        }
        _ => panic!("expected a running transfer"),
    }
    let s2 = transfer_step(&s1, &ProgressInfo::Progress { current: 42, total: Some(100) });
    match &s2 {
        TransferState::Running { current, total } => {
            assert_eq!(*current, 42);
            assert_eq!(*total, 100);
        }
        _ => panic!("expected a running transfer"),
    }
    let s3 = transfer_step(&s2, &ProgressInfo::Complete());
    assert!(matches!(s3, TransferState::Complete));
    // terminal states absorb later events
    let s4 = transfer_step(&s3, &ProgressInfo::Start(5));
    assert!(matches!(s4, TransferState::Complete));
}
