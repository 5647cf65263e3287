use pasua::github::{
    infer_remote_from_ref, parse_remote_from_url, parse_remote_list, select_remote, PrMeta, Review, StatusCheck,
};

#[test]
fn infer_remote_from_ref_with_slash() {
    assert_eq!(infer_remote_from_ref("oisee/main"), Some("oisee"));
}

#[test]
fn infer_remote_from_ref_without_slash() {
    assert_eq!(infer_remote_from_ref("main"), None);
}

#[test]
fn parse_remote_from_url_ssh() {
    assert_eq!(parse_remote_from_url("git@github.com:oisee/vibing-steampunk.git"), "oisee/vibing-steampunk");
}

#[test]
fn parse_remote_from_url_https() {
    assert_eq!(parse_remote_from_url("https://github.com/oisee/vibing-steampunk"), "oisee/vibing-steampunk");
}

#[test]
fn parse_remote_from_url_https_with_git_suffix() {
    assert_eq!(parse_remote_from_url("https://github.com/oisee/vibing-steampunk.git"), "oisee/vibing-steampunk");
}

#[test]
fn infer_remote_from_ref_multi_segment() {
    assert_eq!(infer_remote_from_ref("oisee/feature/my-branch"), Some("oisee"));
}

#[test]
fn parse_remote_from_url_trims_whitespace() {
    assert_eq!(parse_remote_from_url("  https://github.com/a/b.git\n"), "a/b");
    assert_eq!(parse_remote_from_url("plain"), "plain");
}

#[test]
fn remote_list_and_selection() {
    let remotes = parse_remote_list("origin\n  oisee \n\n");
    assert_eq!(remotes, vec!["origin".to_string(), "oisee".to_string()]);
    assert_eq!(select_remote("oisee/main", "feature", &remotes), "oisee");
    assert_eq!(select_remote("main", "other/x", &remotes), "origin");
    assert_eq!(select_remote("main", "feature", &remotes), "origin");
}

fn meta(checks: Option<Vec<StatusCheck>>) -> PrMeta {
    PrMeta {
        number: 1,
        title: "t".to_string(),
        body: String::new(),
        base_ref_name: "main".to_string(),
        head_ref_name: "f".to_string(),
        state: "OPEN".to_string(),
        status_check_rollup: checks,
        reviews: Some(vec![Review { state: "APPROVED".to_string() }]),
    }
}

fn check(state: Option<&str>, conclusion: Option<&str>) -> StatusCheck {
    StatusCheck { state: state.map(|s| s.to_string()), conclusion: conclusion.map(|s| s.to_string()) }
}

#[test]
fn ci_status_verdicts() {
    assert_eq!(meta(None).ci_status(), None);
    assert_eq!(meta(Some(vec![check(None, Some("SUCCESS")), check(Some("ERROR"), None)])).ci_status(), Some("fail"));
    assert_eq!(meta(Some(vec![check(Some("PENDING"), None)])).ci_status(), Some("pending"));
    assert_eq!(meta(Some(vec![check(None, None)])).ci_status(), Some("pending"));
    assert_eq!(meta(Some(vec![check(None, Some("SUCCESS")), check(Some("SUCCESS"), None)])).ci_status(), Some("pass"));
    assert_eq!(meta(Some(vec![check(None, Some("NEUTRAL"))])).ci_status(), None);
}
