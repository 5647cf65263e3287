use pasua::diff::{DiffedSymbol, SymbolStatus};
use pasua::hunk::{hunk_for_symbols, lsp_range_of, make_hunk, symbol_hunk, HunkError};
use pasua::languages::{Symbol, SymbolKind};

const BASE: &[u8] = b"package main\n\nfunc Foo() int {\n\treturn 1\n}\n\nfunc Gone() {}\n";
const HEAD: &[u8] = b"package main\n\nfunc Foo() int {\n\treturn 2\n}\n\nfunc New() {}\n";

#[test]
fn modified_symbol_gets_a_line_diff() {
    let out = symbol_hunk("main.go", "Foo", BASE, HEAD, None).unwrap();
    assert_eq!(out, "--- main.go  fn Foo\n+++ main.go  fn Foo\n func Foo() int {\n-\treturn 1\n+\treturn 2\n }\n");
}

#[test]
fn removed_symbol_is_all_minus_lines() {
    let out = symbol_hunk("main.go", "Gone", BASE, HEAD, None).unwrap();
    assert_eq!(out, "--- main.go  fn Gone\n+++ main.go  fn Gone\n-func Gone() {}");
}

#[test]
fn added_symbol_is_all_plus_lines_and_lsp_range_wins() {
    let out = symbol_hunk("main.go", "New", BASE, HEAD, None).unwrap();
    assert_eq!(out, "--- main.go  fn New\n+++ main.go  fn New\n+func New() {}");
    let out = symbol_hunk("main.go", "New", BASE, HEAD, Some((6, 7))).unwrap();
    assert_eq!(out, "--- main.go  fn New\n+++ main.go  fn New\n+\n+func New() {}");
}

#[test]
fn missing_symbol_is_an_error_naming_it() {
    match symbol_hunk("main.go", "Nope", BASE, HEAD, None) {
        Err(HunkError::NotFound { symbol, file }) => {
            assert_eq!(symbol, "Nope");
            assert_eq!(file, "main.go");
        }
        other => panic!("unexpected {other:?}"),
    }
    assert!(matches!(symbol_hunk("notes.txt", "Foo", BASE, HEAD, None), Err(HunkError::NotFound { .. })));
}

fn sym(name: &str, start: usize, end: usize) -> Symbol {
    Symbol { name: name.to_string(), kind: SymbolKind::Fn, body_hash: 0, start_line: start, end_line: end }
}

#[test]
fn invalid_utf8_and_bad_ranges_are_errors() {
    let bad = [0xffu8, 0xfe];
    let r = hunk_for_symbols("f", "A", &bad, b"x", &vec![sym("A", 1, 1)], &vec![], None);
    assert!(matches!(r, Err(HunkError::NotUtf8 { .. })));
    let r = hunk_for_symbols("f", "A", b"one\n", b"x", &vec![sym("A", 5, 2)], &vec![], None);
    assert!(matches!(r, Err(HunkError::LineRange)));
    let r = hunk_for_symbols("f", "A", b"one\ntwo\n", b"x", &vec![sym("A", 2, 99)], &vec![], None);
    assert_eq!(r.unwrap(), "--- f  fn A\n+++ f  fn A\n-two");
}

#[test]
fn make_hunk_marks_each_line() {
    let base = vec!["a".to_string(), "b".to_string()];
    let head = vec!["a".to_string(), "c".to_string()];
    assert_eq!(make_hunk(&base, &head), " a\n-b\n+c\n");
    assert_eq!(make_hunk(&vec![], &vec![]), "");
}

#[test]
fn cached_lsp_range_lookup() {
    let d = |name: &str, r: Option<(usize, usize)>| DiffedSymbol {
        name: name.to_string(),
        kind: SymbolKind::Fn,
        file: "f".to_string(),
        status: SymbolStatus::Modified,
        confirmed: r.is_some(),
        lsp_range: r,
        start_line: 1,
        end_line: 1,
    };
    let syms = vec![d("A", None), d("B", Some((3, 9))), d("B", Some((1, 1)))];
    assert_eq!(lsp_range_of(&syms, "B"), Some((3, 9)));
    assert_eq!(lsp_range_of(&syms, "A"), None);
    assert_eq!(lsp_range_of(&syms, "C"), None);
}

#[test]
fn hunk_error_messages() {
    let e = symbol_hunk("main.go", "Nope", BASE, HEAD, None).unwrap_err();
    assert_eq!(e.message("main.go"), "Symbol 'Nope' not found in main.go");
    let bad = [b'a', 0xff, 0xfe];
    let e = hunk_for_symbols("f", "A", &bad, b"x", &vec![sym("A", 1, 1)], &vec![], None).unwrap_err();
    assert_eq!(e.message("f"), "invalid utf-8 sequence of 1 bytes from index 1");
    let e = hunk_for_symbols("f", "A", b"one\n", b"x", &vec![sym("A", 5, 2)], &vec![], None).unwrap_err();
    assert_eq!(e.message("f"), "symbol line range lies outside f");
}

#[test]
fn hunk_lines_rebuild_both_sides() {
    let base = vec!["a".to_string(), "b".to_string(), "c".to_string()];
    let head = vec!["a".to_string(), "x".to_string(), "c".to_string()];
    let out = make_hunk(&base, &head);
    let old: Vec<&str> = out.lines().filter(|l| !l.starts_with('+')).map(|l| &l[1..]).collect();
    let new: Vec<&str> = out.lines().filter(|l| !l.starts_with('-')).map(|l| &l[1..]).collect();
    assert_eq!(old, vec!["a", "b", "c"]);
    assert_eq!(new, vec!["a", "x", "c"]);
}
