use pasua::diff::{DiffedSymbol, SymbolStatus};
use pasua::languages::SymbolKind;
use pasua::lsp_confirmation::{apply_lsp_confirmation, confirm_symbols, lsp_bare_name, lsp_kind_matches, LspSymbol, LSP_FUNCTION, LSP_METHOD, LSP_STRUCT};

fn make_diffed(name: &str, kind: SymbolKind) -> DiffedSymbol {
    DiffedSymbol {
        name: name.to_string(),
        kind,
        file: "test.go".to_string(),
        status: SymbolStatus::Modified,
        confirmed: false,
        lsp_range: None,
        start_line: 1,
        end_line: 1,
    }
}

fn make_lsp(name: &str, kind: i32, start: u32, end: u32) -> LspSymbol {
    LspSymbol { name: name.to_string(), kind, start_line: start, end_line: end }
}

#[test]
fn sets_confirmed_and_range() {
    let mut diffed = vec![make_diffed("Foo", SymbolKind::Fn)];
    let lsp_syms = vec![make_lsp("Foo", LSP_FUNCTION, 5, 10)];
    apply_lsp_confirmation(&lsp_syms, &mut diffed);
    assert!(diffed[0].confirmed);
    assert_eq!(diffed[0].lsp_range, Some((6, 11)));
}

#[test]
fn ignores_missing_symbols() {
    let mut diffed = vec![make_diffed("Bar", SymbolKind::Fn)];
    let lsp_syms = vec![make_lsp("Foo", LSP_FUNCTION, 5, 10)];
    apply_lsp_confirmation(&lsp_syms, &mut diffed);
    assert!(!diffed[0].confirmed);
    assert_eq!(diffed[0].lsp_range, None);
}

#[test]
fn matches_qualified_method_name() {
    let mut diffed = vec![make_diffed("handleFoo", SymbolKind::Fn)];
    let lsp_syms = vec![make_lsp("(*Server).handleFoo", LSP_METHOD, 5, 10)];
    apply_lsp_confirmation(&lsp_syms, &mut diffed);
    assert!(diffed[0].confirmed);
}

#[test]
fn rejects_kind_mismatch() {
    let mut diffed = vec![make_diffed("Foo", SymbolKind::Fn)];
    let lsp_syms = vec![make_lsp("Foo", LSP_STRUCT, 5, 10)];
    apply_lsp_confirmation(&lsp_syms, &mut diffed);
    assert!(!diffed[0].confirmed);
    assert_eq!(diffed[0].lsp_range, None);
}

#[test]
fn partial_match() {
    let mut diffed = vec![make_diffed("Foo", SymbolKind::Fn), make_diffed("Bar", SymbolKind::Fn)];
    let lsp_syms = vec![make_lsp("Foo", LSP_FUNCTION, 1, 5)];
    apply_lsp_confirmation(&lsp_syms, &mut diffed);
    assert!(diffed[0].confirmed);
    assert!(!diffed[1].confirmed);
}

#[test]
fn bare_name_strips_receiver() {
    assert_eq!(lsp_bare_name("(*Server).handleFoo"), "handleFoo");
    assert_eq!(lsp_bare_name("(Server).handleFoo"), "handleFoo");
    assert_eq!(lsp_bare_name("handleFoo"), "handleFoo");
}

#[test]
fn kind_table_is_permissive() {
    assert!(lsp_kind_matches(LSP_FUNCTION, SymbolKind::Ma));
    assert!(lsp_kind_matches(5, SymbolKind::Im));
    assert!(!lsp_kind_matches(LSP_STRUCT, SymbolKind::If));
}

#[test]
fn confirmation_keeps_status_and_order() {
    let mut diffed = vec![make_diffed("A", SymbolKind::Ty), make_diffed("B", SymbolKind::Fn)];
    let lsp_syms = vec![make_lsp("B", LSP_FUNCTION, 0, 0), make_lsp("A", LSP_STRUCT, 2, 3)];
    apply_lsp_confirmation(&lsp_syms, &mut diffed);
    assert_eq!(diffed[0].name, "A");
    assert_eq!(diffed[0].lsp_range, Some((3, 4)));
    assert_eq!(diffed[1].lsp_range, Some((1, 1)));
    assert_eq!(diffed[1].status, SymbolStatus::Modified);
}

#[test]
fn confirm_symbols_without_answer_changes_nothing() {
    let mut diffed = vec![make_diffed("Foo", SymbolKind::Fn)];
    confirm_symbols(&mut diffed, None);
    assert!(!diffed[0].confirmed);
    assert_eq!(diffed[0].lsp_range, None);
    let lsp = vec![LspSymbol { name: "Foo".into(), kind: LSP_FUNCTION, start_line: 2, end_line: 4 }];
    confirm_symbols(&mut diffed, Some(&lsp));
    assert!(diffed[0].confirmed);
    assert_eq!(diffed[0].lsp_range, Some((3, 5)));
    assert_eq!(diffed[0].name, "Foo");
    assert_eq!(diffed[0].status, SymbolStatus::Modified);
}
