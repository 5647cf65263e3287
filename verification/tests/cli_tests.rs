use pasua::cli::{expansion, log_block, logs_to_stderr, parent_ref, Commands, ServeArgs};
use pasua::pipeline::{build_result, FileDiff, FileStatus};

#[test]
fn depth_option_controls_expansion() {
    assert_eq!(expansion(&None), (false, true));
    assert_eq!(expansion(&Some("symbols".to_string())), (true, true));
    assert_eq!(expansion(&Some("none".to_string())), (false, false));
    assert_eq!(expansion(&Some("other".to_string())), (false, true));
}

#[test]
fn parent_of_a_commit() {
    assert_eq!(parent_ref("abc123"), "abc123^");
}

#[test]
fn serve_does_not_log_to_stderr() {
    assert!(!logs_to_stderr(&Commands::Serve(ServeArgs { log_level: "info".into() })));
}

#[test]
fn log_block_lists_files_indented() {
    let result = build_result(vec![
        FileDiff { status: FileStatus::Modified, path: "a.go".into(), added: 1, removed: 0, symbols: None, confirmed: false },
        FileDiff { status: FileStatus::Added { source: None }, path: "b.go".into(), added: 3, removed: 0, symbols: None, confirmed: false },
    ]);
    let out = log_block("deadbeef", "subject", &result);
    let lines: Vec<&str> = out.split('\n').collect();
    assert_eq!(lines[0], "deadbeef \"subject\"  +4/−0  2f");
    assert!(lines[1].starts_with("  M  a.go"));
    assert!(lines[2].starts_with("  A  b.go"));
    assert_eq!(&lines[3..], &["", ""]);
}

#[test]
fn threshold_falls_back_to_configuration() {
    assert_eq!(pasua::cli::resolve_threshold(Some(5), 200), 5);
    assert_eq!(pasua::cli::resolve_threshold(None, 999), 999);
}
