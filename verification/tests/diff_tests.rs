use pasua::diff::{diff_symbols, DiffedSymbol, SymbolMap, SymbolStatus};
use pasua::languages::{Symbol, SymbolKind};

fn sym(name: &str, hash: u64) -> Symbol {
    Symbol { name: name.to_string(), kind: SymbolKind::Fn, body_hash: hash, start_line: 1, end_line: 10 }
}

fn map(file: &str, syms: Vec<Symbol>) -> SymbolMap {
    SymbolMap::single(file.to_string(), syms)
}

#[test]
fn unchanged_symbol() {
    let base = map("main.go", vec![sym("Foo", 42)]);
    let head = map("main.go", vec![sym("Foo", 42)]);
    let result = diff_symbols(&base, &head);
    assert_eq!(result.len(), 1);
    assert_eq!(result[0].status, SymbolStatus::Unchanged);
}

#[test]
fn modified_symbol() {
    let base = map("main.go", vec![sym("Foo", 42)]);
    let head = map("main.go", vec![sym("Foo", 99)]);
    let result = diff_symbols(&base, &head);
    assert_eq!(result.len(), 1);
    assert_eq!(result[0].status, SymbolStatus::Modified);
}

#[test]
fn added_symbol() {
    let base = SymbolMap::new();
    let head = map("main.go", vec![sym("Foo", 42)]);
    let result = diff_symbols(&base, &head);
    assert_eq!(result.len(), 1);
    assert_eq!(result[0].status, SymbolStatus::Added);
}

#[test]
fn removed_symbol() {
    let base = map("main.go", vec![sym("Foo", 42)]);
    let head = SymbolMap::new();
    let result = diff_symbols(&base, &head);
    assert_eq!(result.len(), 1);
    assert_eq!(result[0].status, SymbolStatus::Removed);
}

#[test]
fn moved_symbol_unchanged() {
    let base = map("a.go", vec![sym("Foo", 42)]);
    let head = map("b.go", vec![sym("Foo", 42)]);
    let result = diff_symbols(&base, &head);
    let moved: Vec<&DiffedSymbol> = result
        .iter()
        .filter(|d| matches!(&d.status, SymbolStatus::Moved { to_file } if to_file == "b.go"))
        .collect();
    assert_eq!(moved.len(), 1);
    let added: Vec<&DiffedSymbol> = result.iter().filter(|d| d.status == SymbolStatus::Added).collect();
    assert_eq!(added.len(), 0);
}

#[test]
fn moved_symbol_modified() {
    let base = map("a.go", vec![sym("Foo", 42)]);
    let head = map("b.go", vec![sym("Foo", 99)]);
    let result = diff_symbols(&base, &head);
    let entry = result.iter().find(|d| d.name == "Foo").unwrap();
    assert!(matches!(&entry.status, SymbolStatus::MovedModified { to_file } if to_file == "b.go"));
}

#[test]
fn diff_with_itself_is_all_unchanged() {
    let m = SymbolMap::from_entries(vec![
        ("a.go".to_string(), vec![sym("Foo", 1), sym("Bar", 2)]),
        ("b.go".to_string(), vec![sym("Baz", 3)]),
    ]);
    let result = diff_symbols(&m, &m);
    assert_eq!(result.len(), 3);
    assert!(result.iter().all(|d| d.status == SymbolStatus::Unchanged));
    assert_eq!(result[2].file, "b.go");
}

#[test]
fn diff_against_empty_head_is_all_removed() {
    let base = SymbolMap::from_entries(vec![
        ("a.go".to_string(), vec![sym("Foo", 1)]),
        ("b.go".to_string(), vec![sym("Bar", 2), sym("Baz", 3)]),
    ]);
    let result = diff_symbols(&base, &SymbolMap::new());
    assert_eq!(result.len(), 3);
    assert!(result.iter().all(|d| d.status == SymbolStatus::Removed));
}

#[test]
fn diff_from_empty_base_is_all_added() {
    let head = SymbolMap::from_entries(vec![("a.go".to_string(), vec![sym("Foo", 1), sym("Bar", 2)])]);
    let result = diff_symbols(&SymbolMap::new(), &head);
    assert_eq!(result.len(), 2);
    assert!(result.iter().all(|d| d.status == SymbolStatus::Added && d.file == "a.go"));
}

#[test]
fn moved_symbol_is_not_also_added() {
    let base = SymbolMap::from_entries(vec![("a.go".to_string(), vec![sym("Foo", 1), sym("Old", 5)])]);
    let head = SymbolMap::from_entries(vec![
        ("a.go".to_string(), vec![sym("Old", 5)]),
        ("c.go".to_string(), vec![sym("Foo", 1), sym("New", 7)]),
    ]);
    let result = diff_symbols(&base, &head);
    let foo: Vec<&DiffedSymbol> = result.iter().filter(|d| d.name == "Foo").collect();
    assert_eq!(foo.len(), 1);
    assert!(matches!(&foo[0].status, SymbolStatus::Moved { to_file } if to_file == "c.go"));
    let new: Vec<&DiffedSymbol> = result.iter().filter(|d| d.name == "New").collect();
    assert_eq!(new.len(), 1);
    assert_eq!(new[0].status, SymbolStatus::Added);
    assert_eq!(new[0].file, "c.go");
}

#[test]
fn symbol_map_insert_replaces_file() {
    let mut m = SymbolMap::new();
    m.insert("a.go".to_string(), vec![sym("Foo", 1)]);
    m.insert("a.go".to_string(), vec![sym("Bar", 2)]);
    assert_eq!(m.len(), 1);
    let (f, syms) = m.entry(0);
    assert_eq!(f, "a.go");
    assert_eq!(syms[0].name, "Bar");
}

#[test]
fn renamed_symbol_same_body() {
    let base = map("a.go", vec![sym("Foo", 42)]);
    let head = map("a.go", vec![sym("Bar", 42)]);
    let result = diff_symbols(&base, &head);
    assert_eq!(result.len(), 1);
    assert_eq!(result[0].name, "Foo");
    assert_eq!(result[0].file, "a.go");
    assert_eq!(result[0].status, SymbolStatus::Renamed { new_name: "Bar".into() });
    assert!(!result.iter().any(|d| d.name == "Bar" && d.status == SymbolStatus::Added));
}

#[test]
fn changed_body_under_new_name_is_removed_and_added() {
    let base = map("a.go", vec![sym("Foo", 42)]);
    let head = map("a.go", vec![sym("Bar", 43)]);
    let result = diff_symbols(&base, &head);
    assert_eq!(result.len(), 2);
    assert_eq!(result[0].status, SymbolStatus::Removed);
    assert_eq!(result[1].name, "Bar");
    assert_eq!(result[1].status, SymbolStatus::Added);
}

#[test]
fn rename_target_must_be_new_to_the_file() {
    // Keep is in base too, so it is no rename target for Gone.
    let base = map("a.go", vec![sym("Gone", 7), sym("Keep", 7)]);
    let head = map("a.go", vec![sym("Keep", 7)]);
    let result = diff_symbols(&base, &head);
    assert_eq!(result[0].status, SymbolStatus::Removed);
    assert_eq!(result[1].status, SymbolStatus::Unchanged);
    assert_eq!(result.len(), 2);
}

#[test]
fn move_wins_over_rename() {
    let base = map("a.go", vec![sym("Foo", 42)]);
    let head = SymbolMap::from_entries(vec![
        ("a.go".to_string(), vec![sym("Bar", 42)]),
        ("b.go".to_string(), vec![sym("Foo", 42)]),
    ]);
    let result = diff_symbols(&base, &head);
    assert!(matches!(&result[0].status, SymbolStatus::Moved { to_file } if to_file == "b.go"));
    assert_eq!(result[1].name, "Bar");
    assert_eq!(result[1].status, SymbolStatus::Added);
}

#[test]
fn entries_carry_line_ranges() {
    let base = map("a.go", vec![Symbol { name: "Foo".into(), kind: SymbolKind::Fn, body_hash: 1, start_line: 3, end_line: 20 }]);
    let head = map("a.go", vec![Symbol { name: "Baz".into(), kind: SymbolKind::Ty, body_hash: 2, start_line: 5, end_line: 6 }]);
    let result = diff_symbols(&base, &head);
    assert_eq!((result[0].start_line, result[0].end_line), (3, 20));
    assert_eq!((result[1].start_line, result[1].end_line), (5, 6));
}
