use pasua::diff::{DiffedSymbol, SymbolStatus};
use pasua::languages::SymbolKind;
use pasua::pipeline::{build_result, DiffResult, FileDiff, FileStatus};
use pasua::render::{render_symbol_line, file_line_only, layer1, layer2, layer3, log_entry, pr_envelope, render_symbol_status};

fn make_result(files: Vec<FileDiff>) -> DiffResult {
    build_result(files)
}

fn plain_file(path: &str, status: FileStatus, added: usize, removed: usize) -> FileDiff {
    FileDiff { status, path: path.to_string(), added, removed, symbols: None, confirmed: false }
}

#[test]
fn layer1_header_format() {
    let result = make_result(vec![plain_file("main.go", FileStatus::Modified, 12, 8)]);
    let out = layer1(&result, "owner/repo", "main", "feature");
    assert!(out.starts_with("owner/repo  main→feature  +12/−8  1f"));
}

#[test]
fn layer1_modified_file() {
    let result = make_result(vec![plain_file("main.go", FileStatus::Modified, 12, 8)]);
    let out = layer1(&result, "r", "a", "b");
    assert!(out.contains("M  main.go"));
    assert!(out.contains("+12/-8"));
}

#[test]
fn layer1_split_file() {
    let result = make_result(vec![plain_file(
        "registry.go",
        FileStatus::Split { targets: vec!["local.go".into(), "remote.go".into()] },
        0,
        850,
    )]);
    let out = layer1(&result, "r", "a", "b");
    assert!(out.contains("S  registry.go"));
    assert!(out.contains("→[local.go remote.go]"));
}

#[test]
fn layer1_renamed_file() {
    let result = make_result(vec![plain_file(
        "new.go",
        FileStatus::Renamed { old_path: "cmd/server.go".into(), new_path: "cmd/main.go".into() },
        0,
        0,
    )]);
    let out = layer1(&result, "r", "a", "b");
    assert!(out.contains("V  cmd/server.go→cmd/main.go"));
}

fn diffed(name: &str, kind: SymbolKind, status: SymbolStatus, confirmed: bool) -> DiffedSymbol {
    DiffedSymbol { name: name.into(), file: "a.go".into(), kind, status, confirmed, lsp_range: None, start_line: 1, end_line: 1 }
}

#[test]
fn layer2_shows_changed_symbols_only() {
    let syms = vec![
        diffed("Foo", SymbolKind::Fn, SymbolStatus::Modified, false),
        diffed("Bar", SymbolKind::Ty, SymbolStatus::Unchanged, false),
    ];
    let out = layer2("a.go", &syms);
    assert!(out.contains("Foo"));
    assert!(!out.contains("Bar"));
}

#[test]
fn pr_envelope_format() {
    let out = pr_envelope(42, "Fix thing", "Fixes the bug.", Some("pass"), 1, "diff here");
    assert!(out.starts_with("PR#42 \"Fix thing\" [ci:pass] [reviews:1]"));
    assert!(out.contains("> Fixes the bug."));
    assert!(out.contains("---\ndiff here"));
}

#[test]
fn pr_envelope_without_ci_reviews_or_body() {
    let out = pr_envelope(7, "T", "\n  \n", None, 0, "d");
    assert_eq!(out, "PR#7 \"T\"\n---\nd");
    let out = pr_envelope(7, "T", "\n\nSecond para\nmore", None, 0, "");
    assert_eq!(out, "PR#7 \"T\"\n> Second para\n---\n");
}

#[test]
fn file_line_exact_layout() {
    let f = plain_file("main.go", FileStatus::Modified, 12, 8);
    let line = file_line_only(&f);
    assert_eq!(line, format!("M  {:<35} {:<12}", "main.go", "+12/-8"));
    let mut a = plain_file("tools/local.go", FileStatus::Added { source: Some("tools/registry.go".into()) }, 310, 0);
    a.confirmed = true;
    assert_eq!(file_line_only(&a), format!("A  {:<35} {:<12}  ←tools/registry.go  !", "tools/local.go", "+310/-0"));
    let z = plain_file("x", FileStatus::Deleted { targets: vec![] }, 0, 0);
    assert_eq!(file_line_only(&z), format!("D  {:<35} {:<12}", "x", "+0/-0"));
}

#[test]
fn symbol_statuses_render() {
    assert_eq!(render_symbol_status(&SymbolStatus::Added), "+");
    assert_eq!(render_symbol_status(&SymbolStatus::MovedModified { to_file: "b.go".into() }), "*→ b.go");
    assert_eq!(
        render_symbol_status(&SymbolStatus::MovedRenamedModified { to_file: "b.go".into(), new_name: "N".into() }),
        "*→ b.go ~ N"
    );
    assert_eq!(render_symbol_status(&SymbolStatus::Unchanged), "");
}

#[test]
fn layer1_lists_changed_symbols_under_their_file() {
    let mut f = plain_file("a.go", FileStatus::Modified, 1, 1);
    f.symbols = Some(vec![
        diffed("Foo", SymbolKind::Fn, SymbolStatus::Moved { to_file: "b.go".into() }, true),
        diffed("Same", SymbolKind::Fn, SymbolStatus::Unchanged, false),
    ]);
    let out = layer1(&make_result(vec![f]), "r", "a", "b");
    let expected_sym = format!("  {:<2}  {:<24} {:<28} {}", "fn", "Foo", "→ b.go", "!");
    assert!(out.contains(&expected_sym), "{out}");
    assert!(!out.contains("Same"));
}

#[test]
fn layer3_and_log_entry() {
    assert_eq!(layer3("a.go", "a.go", "Foo", SymbolKind::Ty, "-x\n"), "--- a.go  ty Foo\n+++ a.go  ty Foo\n-x\n");
    let result = make_result(vec![plain_file("a", FileStatus::Modified, 3, 4), plain_file("b", FileStatus::Modified, 1, 0)]);
    assert_eq!(log_entry("abc", "msg", &result), "abc \"msg\"  +4/−4  2f");
}

#[test]
fn symbol_line_shows_line_count_from_ten_lines() {
    let mut long = diffed("Long", SymbolKind::Fn, SymbolStatus::Modified, false);
    long.start_line = 5;
    long.end_line = 46;
    assert_eq!(render_symbol_line(&long), format!("  {:<2}  {:<24} {:<28} {}  42 lines", "fn", "Long", "*", "?"));
    let mut ten = diffed("Ten", SymbolKind::Ty, SymbolStatus::Added, true);
    ten.start_line = 1;
    ten.end_line = 10;
    assert_eq!(render_symbol_line(&ten), format!("  {:<2}  {:<24} {:<28} {}  10 lines", "ty", "Ten", "+", "!"));
    let mut nine = diffed("Nine", SymbolKind::Fn, SymbolStatus::Removed, false);
    nine.start_line = 1;
    nine.end_line = 9;
    assert_eq!(render_symbol_line(&nine), format!("  {:<2}  {:<24} {:<28} {}", "fn", "Nine", "-", "?"));
}
