use pasua::diff::{DiffedSymbol, SymbolMap, SymbolStatus};
use pasua::git::{FileStat, GitStatus};
use pasua::languages::{Lang, Symbol, SymbolKind};
use pasua::lsp_confirmation::LspSymbol;
use pasua::pipeline::{
    attach_symbols, available_groups, build_lsp_groups, build_result, classify, confirm_file, detect_splits, expand_indices,
    needs_expand, single_file_language, split_sources, split_targets_of, FileDiff, FileStatus,
};

fn fd(path: &str, status: FileStatus, added: usize, removed: usize) -> FileDiff {
    FileDiff { status, path: path.to_string(), added, removed, symbols: None, confirmed: false }
}

#[test]
fn expand_false_never_expands() {
    let cases = vec![
        fd("a.go", FileStatus::Modified, 500, 500),
        fd("a.go", FileStatus::Split { targets: vec!["b.go".into()] }, 0, 500),
        fd("a.go", FileStatus::Deleted { targets: vec!["b.go".into()] }, 0, 500),
    ];
    for f in &cases {
        assert!(!needs_expand(f, false, true, 0), "expand=false must suppress all expansion");
    }
}

#[test]
fn expand_true_respects_threshold_and_depth() {
    let large_modified = fd("a.go", FileStatus::Modified, 150, 100);
    let small_modified = fd("b.go", FileStatus::Modified, 10, 5);
    let split = fd("a.go", FileStatus::Split { targets: vec!["c.go".into()] }, 0, 500);
    assert!(needs_expand(&large_modified, true, false, 200));
    assert!(!needs_expand(&small_modified, true, false, 200));
    assert!(needs_expand(&small_modified, true, true, 200));
    assert!(needs_expand(&split, true, false, 200));
}

#[test]
fn lang_groups_are_distinct_per_lsp_command() {
    let file_diffs = vec![
        fd("main.go", FileStatus::Modified, 10, 5),
        fd("lib.go", FileStatus::Modified, 3, 1),
        fd("src/lib.rs", FileStatus::Modified, 7, 2),
    ];
    let groups = build_lsp_groups(&file_diffs);
    assert_eq!(groups.len(), 2, "Go and Rust should form two groups");
    assert_eq!(groups[0].1, vec![0, 1], "both Go files in first group");
    assert_eq!(groups[1].1, vec![2], "Rust file in second group");
}

#[test]
fn ts_and_tsx_share_one_server() {
    let file_diffs = vec![
        fd("a.tsx", FileStatus::Modified, 1, 1),
        fd("README", FileStatus::Modified, 1, 1),
        fd("b.ts", FileStatus::Modified, 1, 1),
    ];
    let groups = build_lsp_groups(&file_diffs);
    assert_eq!(groups.len(), 1);
    assert_eq!(groups[0].0, Lang::Tsx);
    assert_eq!(groups[0].1, vec![0, 2]);
}

#[test]
fn unavailable_servers_are_dropped() {
    let file_diffs = vec![fd("main.go", FileStatus::Modified, 1, 1), fd("x.py", FileStatus::Modified, 1, 1)];
    let groups = build_lsp_groups(&file_diffs);
    let kept = available_groups(&groups, &[false, true]);
    assert_eq!(kept.len(), 1);
    assert_eq!(kept[0].0, Lang::Python);
    assert_eq!(kept[0].1, vec![1]);
}

#[test]
fn deleted_files_expand_by_threshold() {
    let d = fd("a.go", FileStatus::Deleted { targets: vec![] }, 0, 900);
    let r = fd("a.go", FileStatus::Renamed { old_path: "x".into(), new_path: "y".into() }, 900, 900);
    assert!(needs_expand(&d, true, false, 10));
    assert!(!needs_expand(&d, true, false, 1000));
    assert!(needs_expand(&fd("b.go", FileStatus::Deleted { targets: vec![] }, 0, 500), true, false, 200));
    assert!(!needs_expand(&r, true, false, 10));
    assert!(needs_expand(&fd("m.go", FileStatus::Modified, 100, 100), true, false, 200));
    let small = fd("c.go", FileStatus::Deleted { targets: vec![] }, 0, 5);
    let files = vec![small, fd("m.go", FileStatus::Modified, 100, 100), fd("s.go", FileStatus::Split { targets: vec!["t".into()] }, 0, 0), d];
    assert_eq!(expand_indices(&files, true, false, 200), vec![1, 2, 3]);
}

#[test]
fn classify_maps_git_statuses() {
    let stats = vec![
        FileStat { path: "a".into(), status: GitStatus::Added, added: 1, removed: 0 },
        FileStat { path: "d".into(), status: GitStatus::Deleted, added: 0, removed: 2 },
        FileStat { path: "n".into(), status: GitStatus::Renamed("o".into(), "n".into(), 90), added: 3, removed: 4 },
        FileStat { path: "c".into(), status: GitStatus::Copied("s".into(), "c".into(), 100), added: 0, removed: 0 },
    ];
    let files = classify(&stats);
    assert!(matches!(&files[0].status, FileStatus::Added { source: None }));
    assert!(matches!(&files[1].status, FileStatus::Deleted { targets } if targets.is_empty()));
    assert!(matches!(&files[2].status, FileStatus::Renamed { old_path, new_path } if old_path == "o" && new_path == "n"));
    assert!(matches!(&files[3].status, FileStatus::Renamed { old_path, .. } if old_path == "s"));
    assert_eq!(files[2].added, 3);
    let result = build_result(files);
    assert_eq!(result.summary.total_added, 4);
    assert_eq!(result.summary.total_removed, 6);
    assert_eq!(result.summary.file_count, 4);
}

fn sym(name: &str) -> Symbol {
    Symbol { name: name.to_string(), kind: SymbolKind::Fn, body_hash: 1, start_line: 1, end_line: 2 }
}

#[test]
fn split_is_detected_from_shared_symbols() {
    let stats = vec![
        FileStat { path: "registry.go".into(), status: GitStatus::Deleted, added: 0, removed: 850 },
        FileStat { path: "local.go".into(), status: GitStatus::Added, added: 300, removed: 0 },
        FileStat { path: "other.go".into(), status: GitStatus::Added, added: 10, removed: 0 },
        FileStat { path: "big.go".into(), status: GitStatus::Modified, added: 10, removed: 200 },
    ];
    assert_eq!(split_sources(&stats), vec!["registry.go".to_string(), "big.go".to_string()]);
    assert_eq!(split_targets_of(&stats), vec!["local.go".to_string(), "other.go".to_string()]);
    let mut files = classify(&stats);
    let sources = SymbolMap::from_entries(vec![("registry.go".to_string(), vec![sym("A"), sym("B"), sym("C")])]);
    let targets = SymbolMap::from_entries(vec![
        ("local.go".to_string(), vec![sym("A"), sym("B")]),
        ("other.go".to_string(), vec![sym("Z")]),
    ]);
    detect_splits(&mut files, &sources, &targets);
    assert!(matches!(&files[0].status, FileStatus::Split { targets } if targets == &vec!["local.go".to_string()]));
    assert!(matches!(&files[1].status, FileStatus::Added { source: Some(s) } if s == "registry.go"));
    assert!(matches!(&files[2].status, FileStatus::Added { source: None }));
}

#[test]
fn one_shared_symbol_is_significant_only_above_thirty_percent() {
    let mut files = vec![fd("s.go", FileStatus::Deleted { targets: vec![] }, 0, 10), fd("t.go", FileStatus::Added { source: None }, 5, 0)];
    let three = SymbolMap::from_entries(vec![("s.go".to_string(), vec![sym("A"), sym("B"), sym("C")])]);
    let targets = SymbolMap::from_entries(vec![("t.go".to_string(), vec![sym("A")])]);
    detect_splits(&mut files, &three, &targets);
    assert!(matches!(&files[0].status, FileStatus::Split { .. }), "1 of 3 is 33%");
    let mut files = vec![fd("s.go", FileStatus::Deleted { targets: vec![] }, 0, 10), fd("t.go", FileStatus::Added { source: None }, 5, 0)];
    let four = SymbolMap::from_entries(vec![("s.go".to_string(), vec![sym("A"), sym("B"), sym("C"), sym("D")])]);
    detect_splits(&mut files, &four, &targets);
    assert!(matches!(&files[0].status, FileStatus::Deleted { .. }), "1 of 4 is 25%");
}

#[test]
fn confirming_a_file_marks_it_and_its_symbols() {
    let mut f = fd("a.go", FileStatus::Modified, 1, 1);
    f.symbols = Some(vec![DiffedSymbol {
        name: "Foo".into(),
        kind: SymbolKind::Fn,
        file: "a.go".into(),
        status: SymbolStatus::Modified,
        confirmed: false,
        lsp_range: None,
        start_line: 1,
        end_line: 1,
    }]);
    confirm_file(&mut f, &vec![LspSymbol { name: "Foo".into(), kind: 12, start_line: 3, end_line: 9 }]);
    assert!(f.confirmed);
    let syms = f.symbols.unwrap();
    assert!(syms[0].confirmed);
    assert_eq!(syms[0].lsp_range, Some((4, 10)));
    let mut g = fd("b.go", FileStatus::Modified, 1, 1);
    confirm_file(&mut g, &vec![]);
    assert!(g.confirmed && g.symbols.is_none());
}

#[test]
fn single_file_language_errors() {
    assert_eq!(single_file_language("Makefile"), Err("no file extension".to_string()));
    assert_eq!(single_file_language("a.txt"), Err("unsupported extension".to_string()));
    assert_eq!(single_file_language("src/main.rs"), Ok(Lang::Rust));
}

#[test]
fn split_detection_keeps_files_and_counts() {
    let mut files = vec![
        fd("s.go", FileStatus::Deleted { targets: vec![] }, 0, 10),
        fd("t.go", FileStatus::Added { source: None }, 5, 0),
        fd("u.go", FileStatus::Modified, 1, 2),
    ];
    let sources = SymbolMap::from_entries(vec![("s.go".to_string(), vec![sym("A"), sym("B")])]);
    let targets = SymbolMap::from_entries(vec![("t.go".to_string(), vec![sym("A"), sym("B")])]);
    detect_splits(&mut files, &sources, &targets);
    let paths: Vec<&str> = files.iter().map(|f| f.path.as_str()).collect();
    assert_eq!(paths, vec!["s.go", "t.go", "u.go"]);
    assert_eq!((files[0].added, files[0].removed, files[1].added, files[2].removed), (0, 10, 5, 2));
    assert!(matches!(&files[2].status, FileStatus::Modified));
}

#[test]
fn attach_gives_symbols_to_expanded_files_only() {
    let mut files = vec![
        fd("small.go", FileStatus::Modified, 1, 1),
        fd("big.go", FileStatus::Modified, 150, 100),
        fd("gone.go", FileStatus::Deleted { targets: vec![] }, 0, 300),
    ];
    let positions = expand_indices(&files, true, false, 200);
    assert_eq!(positions, vec![1, 2]);
    let d = |n: &str| DiffedSymbol {
        name: n.into(),
        kind: SymbolKind::Fn,
        file: "x".into(),
        status: SymbolStatus::Modified,
        confirmed: false,
        lsp_range: None,
        start_line: 1,
        end_line: 1,
    };
    attach_symbols(&mut files, vec![vec![d("B")], vec![]], true, false, 200);
    assert!(files[0].symbols.is_none());
    assert_eq!(files[1].symbols.as_ref().unwrap()[0].name, "B");
    assert!(files[2].symbols.as_ref().unwrap().is_empty());
    assert_eq!(files[1].path, "big.go");
}
