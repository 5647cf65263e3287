use pasua::github::StatusCheck;
use pasua::mcp::{mcp_ci_status, mcp_hunk, mcp_log_block, mcp_symbols, parse_log, plan_request, short_form_ok, McpAction, PasuaParams};
use pasua::pipeline::{build_result, FileDiff, FileStatus};

fn params(action: &str) -> PasuaParams {
    PasuaParams {
        action: action.to_string(),
        repo: "/r".to_string(),
        base: None,
        head: None,
        file: None,
        symbol: None,
        pr_number: None,
        range: None,
        threshold: None,
    }
}

#[test]
fn plans_name_the_first_missing_parameter() {
    let mut p = params("diff");
    assert_eq!(plan_request(&p), Err("'base' is required for this action".to_string()));
    p.base = Some("main".into());
    assert_eq!(plan_request(&p), Err("'head' is required for this action".to_string()));
    p.head = Some("f".into());
    assert_eq!(plan_request(&p), Ok(McpAction::Diff { base: "main".into(), head: "f".into(), threshold: 200 }));
    let mut h = params("hunk");
    h.base = Some("a".into());
    h.head = Some("b".into());
    h.file = Some("x.go".into());
    assert_eq!(plan_request(&h), Err("'symbol' is required for this action".to_string()));
    assert_eq!(plan_request(&params("pr")), Err("pr_number required for action=pr".to_string()));
    assert_eq!(plan_request(&params("log")), Err("'range' is required for this action".to_string()));
}

#[test]
fn unknown_action_is_refused() {
    assert_eq!(
        plan_request(&params("blame")),
        Err("Unknown action: 'blame'. Use: diff | symbols | hunk | pr | log".to_string())
    );
}

#[test]
fn summary_and_pr_plans_keep_threshold() {
    let mut p = params("summary");
    p.base = Some("a".into());
    p.head = Some("b".into());
    p.threshold = Some(50);
    assert_eq!(plan_request(&p), Ok(McpAction::Summary { base: "a".into(), head: "b".into(), threshold: 50 }));
    let mut q = params("pr");
    q.pr_number = Some(12);
    assert_eq!(plan_request(&q), Ok(McpAction::Pr { number: 12, threshold: 200 }));
}

fn check(conclusion: Option<&str>) -> StatusCheck {
    StatusCheck { state: None, conclusion: conclusion.map(|s| s.to_string()) }
}

#[test]
fn tool_ci_verdict() {
    assert_eq!(mcp_ci_status(&None), None);
    assert_eq!(mcp_ci_status(&Some(vec![check(Some("SUCCESS")), check(Some("FAILURE"))])), Some("fail"));
    assert_eq!(mcp_ci_status(&Some(vec![check(Some("SUCCESS"))])), Some("pass"));
    assert_eq!(mcp_ci_status(&Some(vec![])), Some("pass"));
    assert_eq!(mcp_ci_status(&Some(vec![check(None)])), None);
}

#[test]
fn tool_symbols_and_hunk() {
    let base = b"package main\nfunc A() {}\n";
    let head = b"package main\nfunc A() { x() }\n";
    let out = mcp_symbols("m.go", base, head).unwrap();
    assert!(out.starts_with("m.go:\n"));
    assert!(out.contains("A"));
    let h = mcp_hunk("m.go", "A", base, head).unwrap();
    assert_eq!(h, "--- m.go  fn A\n+++ m.go  fn A\n-func A() {}\n+func A() { x() }\n");
    assert_eq!(mcp_hunk("m.go", "Z", base, head), Err("Symbol 'Z' not found in m.go".to_string()));
    let gone = mcp_hunk("m.go", "A", base, b"package main\n").unwrap();
    assert_eq!(gone, "--- m.go  fn A\n+++ m.go  fn A\n-func A() {}\n");
}

#[test]
fn tool_log_lines_and_blocks() {
    let entries = parse_log("0123456789abc first commit\nnospace\nfedcba9876543 second\n");
    assert_eq!(
        entries,
        vec![("0123456789abc".to_string(), "first commit".to_string()), ("fedcba9876543".to_string(), "second".to_string())]
    );
    assert!(short_form_ok("0123456789"));
    assert!(!short_form_ok("abc"));
    let result = build_result(vec![FileDiff {
        status: FileStatus::Modified,
        path: "a.go".into(),
        added: 2,
        removed: 1,
        symbols: None,
        confirmed: false,
    }]);
    let block = mcp_log_block("0123456789abc", "first commit", &result);
    assert!(block.starts_with("0123456 \"first commit\"  +2/−1  1f\n  M  a.go"));
    assert!(block.ends_with("\n\n"));
}

#[test]
fn short_form_is_the_first_seven_bytes() {
    assert!(short_form_ok("ab€defgh"));
    assert!(!short_form_ok("abcdef€gh"));
    assert!(short_form_ok("abcdefg"));
    let result = build_result(vec![]);
    let block = mcp_log_block("ab€defgh", "s", &result);
    assert!(block.starts_with("ab€de \"s\""), "{block}");
}
