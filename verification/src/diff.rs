//! Symbol-level diff: compares the symbols of two refs and gives each one a
//! status (added, removed, modified, moved, unchanged).

use vstd::prelude::*;
use vstd::std_specs::cmp::PartialEqSpecImpl;
use crate::text::str_eq;
use crate::languages::{symbol_views, Symbol, SymbolKind, SymbolView};

verus! {

/// The computed status of a symbol across two refs.
#[derive(Debug, Clone)]
pub enum SymbolStatus {
    /// Symbol exists only in head (new file or new symbol)
    Added,
    /// Symbol exists only in base (deleted)
    Removed,
    /// Symbol body changed in the same file
    Modified,
    /// Symbol moved to a different file, body unchanged
    Moved { to_file: String },
    /// Symbol moved to a different file and body changed
    MovedModified { to_file: String },
    /// Symbol renamed in the same file, body unchanged
    Renamed { new_name: String },
    /// Symbol renamed and body changed in same file
    RenamedModified { new_name: String },
    /// Symbol moved, renamed, and body changed
    MovedRenamedModified { to_file: String, new_name: String },
    /// Symbol unchanged
    Unchanged,
}

/// The mathematical content of a [`SymbolStatus`].
pub enum StatusView {
    Added,
    Removed,
    Modified,
    Moved { to_file: Seq<char> },
    MovedModified { to_file: Seq<char> },
    Renamed { new_name: Seq<char> },
    RenamedModified { new_name: Seq<char> },
    MovedRenamedModified { to_file: Seq<char>, new_name: Seq<char> },
    Unchanged,
}

impl View for SymbolStatus {
    type V = StatusView;

    open spec fn view(&self) -> StatusView {
        match self {
            SymbolStatus::Added => StatusView::Added,
            SymbolStatus::Removed => StatusView::Removed,
            SymbolStatus::Modified => StatusView::Modified,
            SymbolStatus::Moved { to_file } => StatusView::Moved { to_file: to_file@ },
            SymbolStatus::MovedModified { to_file } => StatusView::MovedModified { to_file: to_file@ },
            SymbolStatus::Renamed { new_name } => StatusView::Renamed { new_name: new_name@ },
            SymbolStatus::RenamedModified { new_name } => StatusView::RenamedModified { new_name: new_name@ },
            SymbolStatus::MovedRenamedModified { to_file, new_name } => StatusView::MovedRenamedModified {
                to_file: to_file@,
                new_name: new_name@,
            },
            SymbolStatus::Unchanged => StatusView::Unchanged,
        }
    }
}

impl PartialEq for SymbolStatus {
    fn eq(&self, other: &Self) -> (r: bool) {
        match (self, other) {
            (SymbolStatus::Added, SymbolStatus::Added) => true,
            (SymbolStatus::Removed, SymbolStatus::Removed) => true,
            (SymbolStatus::Modified, SymbolStatus::Modified) => true,
            (SymbolStatus::Moved { to_file: a }, SymbolStatus::Moved { to_file: b }) => str_eq(a.as_str(), b.as_str()),
            (SymbolStatus::MovedModified { to_file: a }, SymbolStatus::MovedModified { to_file: b }) => str_eq(a.as_str(), b.as_str()),
            (SymbolStatus::Renamed { new_name: a }, SymbolStatus::Renamed { new_name: b }) => str_eq(a.as_str(), b.as_str()),
            (SymbolStatus::RenamedModified { new_name: a }, SymbolStatus::RenamedModified { new_name: b }) => str_eq(a.as_str(), b.as_str()),
            (
                SymbolStatus::MovedRenamedModified { to_file: a, new_name: c },
                SymbolStatus::MovedRenamedModified { to_file: b, new_name: d },
            ) => str_eq(a.as_str(), b.as_str()) && str_eq(c.as_str(), d.as_str()),
            (SymbolStatus::Unchanged, SymbolStatus::Unchanged) => true,
            _ => false,
        }
    }
}

impl PartialEqSpecImpl for SymbolStatus {
    open spec fn obeys_eq_spec() -> bool {
        true
    }

    open spec fn eq_spec(&self, other: &SymbolStatus) -> bool {
        self@ == other@
    }
}

/// A symbol with its computed diff status.
#[derive(Debug, Clone)]
pub struct DiffedSymbol {
    pub name: String,
    pub kind: SymbolKind,
    pub file: String,
    pub status: SymbolStatus,
    /// LSP confirmed (true) or heuristic only (false)
    pub confirmed: bool,
    /// Line range reported by the language server, 1-based and inclusive.
    pub lsp_range: Option<(usize, usize)>,
    /// First and last line of the symbol in the version it was read from
    /// (base for base symbols, head for added ones), 1-based.
    pub start_line: usize,
    pub end_line: usize,
}

/// The mathematical content of a [`DiffedSymbol`].
pub struct DiffedView {
    pub name: Seq<char>,
    pub kind: SymbolKind,
    pub file: Seq<char>,
    pub status: StatusView,
    pub confirmed: bool,
    pub lsp_range: Option<(usize, usize)>,
    pub start_line: usize,
    pub end_line: usize,
}

impl View for DiffedSymbol {
    type V = DiffedView;

    open spec fn view(&self) -> DiffedView {
        DiffedView {
            name: self.name@,
            kind: self.kind,
            file: self.file@,
            status: self.status@,
            confirmed: self.confirmed,
            lsp_range: self.lsp_range,
            start_line: self.start_line,
            end_line: self.end_line,
        }
    }
}

pub open spec fn diffed_views(s: Seq<DiffedSymbol>) -> Seq<DiffedView> {
    s.map_values(|d: DiffedSymbol| d@)
}

/// A file's path and its symbols, as a map entry.
pub type FileSymbolsView = (Seq<char>, Seq<SymbolView>);

/// Whether no file occurs twice.
pub open spec fn distinct_files(m: Seq<FileSymbolsView>) -> bool {
    forall|i: int, j: int| 0 <= i < j < m.len() ==> m[i].0 != m[j].0
}

/// Symbols of each file: a map from file path to the symbols extracted
/// from it. Each file occurs at most once; entries keep insertion order.
pub struct SymbolMap {
    entries: Vec<(String, Vec<Symbol>)>,
}

pub open spec fn entry_views(e: Seq<(String, Vec<Symbol>)>) -> Seq<FileSymbolsView> {
    e.map_values(|p: (String, Vec<Symbol>)| (p.0@, symbol_views(p.1@)))
}

impl View for SymbolMap {
    type V = Seq<FileSymbolsView>;

    closed spec fn view(&self) -> Seq<FileSymbolsView> {
        entry_views(self.entries@)
    }
}

impl SymbolMap {
    #[verifier::type_invariant]
    closed spec fn inv(self) -> bool {
        distinct_files(entry_views(self.entries@))
    }

    /// An empty map.
    pub fn new() -> (r: SymbolMap)
        ensures
            r@ == Seq::<FileSymbolsView>::empty(),
    {
        let r = SymbolMap { entries: Vec::new() };
        assert(entry_views(r.entries@) =~= Seq::<FileSymbolsView>::empty());
        r
    }

    /// Number of files.
    pub fn len(&self) -> (r: usize)
        ensures
            r == self@.len(),
            distinct_files(self@),
    {
        proof {
            use_type_invariant(self);
        }
        self.entries.len()
    }

    /// The `i`-th entry.
    pub fn entry(&self, i: usize) -> (r: (&String, &Vec<Symbol>))
        requires
            i < self@.len(),
        ensures
            r.0@ == self@[i as int].0,
            symbol_views(r.1@) == self@[i as int].1,
    {
        let e = &self.entries[i];
        (&e.0, &e.1)
    }

    /// Sets the symbols of `file`, replacing what it held before.
    pub fn insert(&mut self, file: String, syms: Vec<Symbol>)
        ensures
            final(self)@ == (match index_of_file(old(self)@, file@) {
                Some(i) => old(self)@.update(i, (file@, symbol_views(syms@))),
                None => old(self)@.push((file@, symbol_views(syms@))),
            }),
    {
        proof {
            use_type_invariant(&*self);
        }
        let ghost old_v = self@;
        let found = find_file(self, &file);
        let ghost nv = (file@, symbol_views(syms@));
        proof {
            lemma_index_of_file(old_v, file@);
        }
        match found {
            Some(i) => {
                let mut entries: Vec<(String, Vec<Symbol>)> = Vec::new();
                std::mem::swap(&mut entries, &mut self.entries);
                entries.set(i, (file, syms));
                proof {
                    assert(entry_views(entries@) =~= old_v.update(i as int, nv));
                    lemma_index_of_file(old_v, nv.0);
                    assert(distinct_files(entry_views(entries@)));
                }
                self.entries = entries;
            },
            None => {
                let mut entries: Vec<(String, Vec<Symbol>)> = Vec::new();
                std::mem::swap(&mut entries, &mut self.entries);
                entries.push((file, syms));
                proof {
                    assert(entry_views(entries@) =~= old_v.push(nv));
                    lemma_index_of_file(old_v, nv.0);
                    assert(distinct_files(entry_views(entries@)));
                }
                self.entries = entries;
            },
        }
    }

    /// A map holding `file` with `syms` only.
    pub fn single(file: String, syms: Vec<Symbol>) -> (r: SymbolMap)
        ensures
            r@ == seq![(file@, symbol_views(syms@))],
    {
        let mut m = SymbolMap::new();
        m.insert(file, syms);
        assert(m@ =~= seq![(file@, symbol_views(syms@))]);
        m
    }

    /// A map built by inserting the given entries in order; a later entry for
    /// a file replaces an earlier one.
    pub fn from_entries(entries: Vec<(String, Vec<Symbol>)>) -> (r: SymbolMap)
        ensures
            r@ == inserted_all(Seq::<FileSymbolsView>::empty(), entry_views(entries@)),
    {
        let mut m = SymbolMap::new();
        let ghost all = entry_views(entries@);
        let mut rest = entries;
        let mut k: usize = 0;
        let n = rest.len();
        proof {
            assert(all.take(0) =~= Seq::<FileSymbolsView>::empty());
            assert(entry_views(rest@) =~= all.skip(0));
        }
        while k < n
            invariant
                n == all.len(),
                k <= n,
                entry_views(rest@) == all.skip(k as int),
                m@ == inserted_all(Seq::<FileSymbolsView>::empty(), all.take(k as int)),
            decreases n - k,
        {
            let ghost before = entry_views(rest@);
            let ghost old_rest = rest@;
            assert(before.len() == rest@.len());
            let (f, s) = rest.remove(0);
            proof {
                assert(before[0] == all[k as int]);
                assert(rest@ == old_rest.remove(0));
                assert forall|j: int| 0 <= j < rest@.len() implies entry_views(rest@)[j] == all.skip(k + 1)[j] by {
                    assert(rest@[j] == old_rest[j + 1]);
                    assert(before[j + 1] == all.skip(k as int)[j + 1]);
                }
                assert(entry_views(rest@) =~= all.skip(k + 1));
                assert(all.take(k + 1).drop_last() == all.take(k as int));
                assert(all.take(k + 1).last() == all[k as int]);
            }
            m.insert(f, s);
            k += 1;
        }
        assert(all.take(n as int) == all);
        m
    }
}

/// Position of `file` in a map view, if present.
pub open spec fn index_of_file(m: Seq<FileSymbolsView>, file: Seq<char>) -> Option<int>
    decreases m.len(),
{
    if m.len() == 0 {
        None
    } else if m.last().0 == file {
        Some(m.len() - 1)
    } else {
        index_of_file(m.drop_last(), file)
    }
}

pub proof fn lemma_index_of_file(m: Seq<FileSymbolsView>, file: Seq<char>)
    ensures
        match index_of_file(m, file) {
            Some(i) => 0 <= i < m.len() && m[i].0 == file,
            None => forall|j: int| 0 <= j < m.len() ==> m[j].0 != file,
        },
    decreases m.len(),
{
    if m.len() > 0 && m.last().0 != file {
        lemma_index_of_file(m.drop_last(), file);
        assert forall|j: int| 0 <= j < m.len() - 1 implies m[j] == m.drop_last()[j] by {}
    }
}

/// The map resulting from inserting `es` in order into `m`.
pub open spec fn inserted_all(m: Seq<FileSymbolsView>, es: Seq<FileSymbolsView>) -> Seq<FileSymbolsView>
    decreases es.len(),
{
    if es.len() == 0 {
        m
    } else {
        let prev = inserted_all(m, es.drop_last());
        let e = es.last();
        match index_of_file(prev, e.0) {
            Some(i) => prev.update(i, e),
            None => prev.push(e),
        }
    }
}

/// Position of `file` in the map, if present.
fn find_file(m: &SymbolMap, file: &String) -> (r: Option<usize>)
    ensures
        match r {
            Some(i) => index_of_file(m@, file@) == Some(i as int),
            None => index_of_file(m@, file@) is None,
        },
{
    let n = m.len();
    let mut i: usize = n;
    proof {
        assert(m@.take(n as int) == m@);
    }
    while i > 0
        invariant
            i <= n,
            n == m@.len(),
            index_of_file(m@, file@) == index_of_file(m@.take(i as int), file@),
        decreases i,
    {
        let (f, _) = m.entry(i - 1);
        proof {
            assert(m@.take(i as int).last() == m@[i - 1]);
            assert(m@.take(i as int).drop_last() == m@.take(i - 1));
        }
        if str_eq(f.as_str(), file.as_str()) {
            return Some(i - 1);
        }
        i -= 1;
    }
    proof {
        assert(m@.take(0) =~= Seq::<FileSymbolsView>::empty());
    }
    None
}

} // verus!

verus! {

/// The symbols of `file` in a map view, if the file is present.
pub open spec fn lookup_file(m: Seq<FileSymbolsView>, file: Seq<char>) -> Option<Seq<SymbolView>> {
    match index_of_file(m, file) {
        Some(i) => Some(m[i].1),
        None => None,
    }
}

/// The last symbol called `name`.
pub open spec fn last_named(syms: Seq<SymbolView>, name: Seq<char>) -> Option<SymbolView>
    decreases syms.len(),
{
    if syms.len() == 0 {
        None
    } else if syms.last().name == name {
        Some(syms.last())
    } else {
        last_named(syms.drop_last(), name)
    }
}

/// The first symbol called `name`.
pub open spec fn first_named(syms: Seq<SymbolView>, name: Seq<char>) -> Option<SymbolView>
    decreases syms.len(),
{
    if syms.len() == 0 {
        None
    } else if syms[0].name == name {
        Some(syms[0])
    } else {
        first_named(syms.drop_first(), name)
    }
}

/// Where a symbol missing from its own file went: the first other file,
/// in map order, holding a symbol of that name, with the first such symbol.
pub open spec fn moved_to(head: Seq<FileSymbolsView>, file: Seq<char>, name: Seq<char>) -> Option<(Seq<char>, SymbolView)>
    decreases head.len(),
{
    if head.len() == 0 {
        None
    } else if head[0].0 != file && first_named(head[0].1, name) is Some {
        Some((head[0].0, first_named(head[0].1, name).unwrap()))
    } else {
        moved_to(head.drop_first(), file, name)
    }
}

/// Whether head symbol `h` of `file` can be the new name of base symbol
/// `sym` of the same file: same kind, same body, and a name that base
/// lacks in that file.
pub open spec fn is_rename_of(base: Seq<FileSymbolsView>, file: Seq<char>, h: SymbolView, sym: SymbolView) -> bool {
    h.kind == sym.kind && h.body_hash == sym.body_hash && !in_base(base, file, h.name)
}

/// The first head symbol among `hs` that can be the new name of `sym`.
pub open spec fn renamed_to(base: Seq<FileSymbolsView>, file: Seq<char>, hs: Seq<SymbolView>, sym: SymbolView) -> Option<SymbolView>
    decreases hs.len(),
{
    if hs.len() == 0 {
        None
    } else if is_rename_of(base, file, hs[0], sym) {
        Some(hs[0])
    } else {
        renamed_to(base, file, hs.drop_first(), sym)
    }
}

/// Status of a base symbol of `file`: compared with the head symbol of the
/// same name in the same file (the last one, if several), or else with the
/// first same-named symbol in another head file; or else renamed, when the
/// same head file holds a symbol of the same kind and body under a name
/// that base lacks there; or else removed.
pub open spec fn base_status(base: Seq<FileSymbolsView>, head: Seq<FileSymbolsView>, file: Seq<char>, sym: SymbolView) -> StatusView {
    let same = match lookup_file(head, file) {
        Some(hs) => last_named(hs, sym.name),
        None => None,
    };
    match same {
        Some(h) => if sym.body_hash == h.body_hash { StatusView::Unchanged } else { StatusView::Modified },
        None => match moved_to(head, file, sym.name) {
            Some((to, h)) => if sym.body_hash == h.body_hash {
                StatusView::Moved { to_file: to }
            } else {
                StatusView::MovedModified { to_file: to }
            },
            None => match lookup_file(head, file) {
                Some(hs) => match renamed_to(base, file, hs, sym) {
                    Some(h) => StatusView::Renamed { new_name: h.name },
                    None => StatusView::Removed,
                },
                None => StatusView::Removed,
            },
        },
    }
}

/// The diff entry of a base symbol.
pub open spec fn base_entry(base: Seq<FileSymbolsView>, head: Seq<FileSymbolsView>, file: Seq<char>, sym: SymbolView) -> DiffedView {
    DiffedView {
        name: sym.name,
        kind: sym.kind,
        file: file,
        status: base_status(base, head, file, sym),
        confirmed: false,
        lsp_range: None,
        start_line: sym.start_line,
        end_line: sym.end_line,
    }
}

/// Diff entries of one base file's symbols, in order.
pub open spec fn base_file_part(base: Seq<FileSymbolsView>, head: Seq<FileSymbolsView>, file: Seq<char>, syms: Seq<SymbolView>) -> Seq<DiffedView> {
    syms.map_values(|s: SymbolView| base_entry(base, head, file, s))
}

/// Diff entries of the symbols of `files`, a prefix of `base`, file by file.
pub open spec fn base_part_in(base: Seq<FileSymbolsView>, files: Seq<FileSymbolsView>, head: Seq<FileSymbolsView>) -> Seq<DiffedView>
    decreases files.len(),
{
    if files.len() == 0 {
        seq![]
    } else {
        base_part_in(base, files.drop_last(), head) + base_file_part(base, head, files.last().0, files.last().1)
    }
}

/// Diff entries of all base symbols, file by file.
pub open spec fn base_part(base: Seq<FileSymbolsView>, head: Seq<FileSymbolsView>) -> Seq<DiffedView> {
    base_part_in(base, base, head)
}

/// Whether base has a symbol called `name` in `file`.
pub open spec fn in_base(base: Seq<FileSymbolsView>, file: Seq<char>, name: Seq<char>) -> bool {
    match lookup_file(base, file) {
        Some(s) => first_named(s, name) is Some,
        None => false,
    }
}

/// Whether an entry reports its symbol as now living in `file` under
/// `name`: moved there under the same name, or renamed to `name` within
/// that file.
pub open spec fn lands_at(d: DiffedView, file: Seq<char>, name: Seq<char>) -> bool {
    match d.status {
        StatusView::Moved { to_file } => to_file == file && d.name == name,
        StatusView::MovedModified { to_file } => to_file == file && d.name == name,
        StatusView::Renamed { new_name } => d.file == file && new_name == name,
        _ => false,
    }
}

/// Whether some entry reports a symbol as now living in `file` under `name`.
pub open spec fn landed_in(entries: Seq<DiffedView>, file: Seq<char>, name: Seq<char>) -> bool {
    exists|i: int| 0 <= i < entries.len() && lands_at(#[trigger] entries[i], file, name)
}

/// A head symbol is reported added when base has no symbol of that name in
/// the same file and no base symbol was reported moved or renamed to it.
pub open spec fn is_added(base: Seq<FileSymbolsView>, bp: Seq<DiffedView>, file: Seq<char>, s: SymbolView) -> bool {
    !in_base(base, file, s.name) && !landed_in(bp, file, s.name)
}

pub open spec fn added_entry(file: Seq<char>, s: SymbolView) -> DiffedView {
    DiffedView {
        name: s.name,
        kind: s.kind,
        file: file,
        status: StatusView::Added,
        confirmed: false,
        lsp_range: None,
        start_line: s.start_line,
        end_line: s.end_line,
    }
}

/// Added entries of one head file, in order.
pub open spec fn added_file_part(base: Seq<FileSymbolsView>, bp: Seq<DiffedView>, file: Seq<char>, syms: Seq<SymbolView>) -> Seq<DiffedView>
    decreases syms.len(),
{
    if syms.len() == 0 {
        seq![]
    } else {
        added_file_part(base, bp, file, syms.drop_last()) + if is_added(base, bp, file, syms.last()) {
            seq![added_entry(file, syms.last())]
        } else {
            seq![]
        }
    }
}

/// Added entries of all head files, file by file.
pub open spec fn added_part(base: Seq<FileSymbolsView>, bp: Seq<DiffedView>, head: Seq<FileSymbolsView>) -> Seq<DiffedView>
    decreases head.len(),
{
    if head.len() == 0 {
        seq![]
    } else {
        added_part(base, bp, head.drop_last()) + added_file_part(base, bp, head.last().0, head.last().1)
    }
}

/// The symbol diff: one entry per base symbol, then one per added head symbol.
pub open spec fn spec_diff_symbols(base: Seq<FileSymbolsView>, head: Seq<FileSymbolsView>) -> Seq<DiffedView> {
    let bp = base_part(base, head);
    bp + added_part(base, bp, head)
}

/// Position of the last symbol called `name`.
fn find_last_named(syms: &Vec<Symbol>, name: &String) -> (r: Option<usize>)
    ensures
        match r {
            Some(i) => i < syms.len() && last_named(symbol_views(syms@), name@) == Some(syms@[i as int]@),
            None => last_named(symbol_views(syms@), name@) is None,
        },
{
    let ghost v = symbol_views(syms@);
    let mut i: usize = syms.len();
    assert(v.take(i as int) == v);
    while i > 0
        invariant
            i <= syms.len(),
            v == symbol_views(syms@),
            last_named(v, name@) == last_named(v.take(i as int), name@),
        decreases i,
    {
        assert(v.take(i as int).last() == syms@[i - 1]@);
        assert(v.take(i as int).drop_last() == v.take(i - 1));
        if str_eq(syms[i - 1].name.as_str(), name.as_str()) {
            return Some(i - 1);
        }
        i -= 1;
    }
    assert(v.take(0) =~= Seq::<SymbolView>::empty());
    None
}

/// Position of the first symbol called `name`.
pub(crate) fn find_first_named(syms: &Vec<Symbol>, name: &str) -> (r: Option<usize>)
    ensures
        match r {
            Some(i) => i < syms.len() && first_named(symbol_views(syms@), name@) == Some(syms@[i as int]@),
            None => first_named(symbol_views(syms@), name@) is None,
        },
{
    let ghost v = symbol_views(syms@);
    let mut i: usize = 0;
    assert(v.skip(0) == v);
    while i < syms.len()
        invariant
            i <= syms.len(),
            v == symbol_views(syms@),
            first_named(v, name@) == first_named(v.skip(i as int), name@),
        decreases syms.len() - i,
    {
        assert(v.skip(i as int)[0] == syms@[i as int]@);
        assert(v.skip(i as int).drop_first() == v.skip(i + 1));
        if str_eq(syms[i].name.as_str(), name) {
            return Some(i);
        }
        i += 1;
    }
    assert(v.skip(syms.len() as int) =~= Seq::<SymbolView>::empty());
    None
}

/// The head file and symbol position where a symbol missing from `file` went.
fn find_moved(head: &SymbolMap, file: &String, name: &String) -> (r: Option<(usize, usize)>)
    ensures
        match r {
            Some((j, h)) => j < head@.len() && h < head@[j as int].1.len()
                && moved_to(head@, file@, name@) == Some((head@[j as int].0, head@[j as int].1[h as int])),
            None => moved_to(head@, file@, name@) is None,
        },
{
    let n = head.len();
    let mut j: usize = 0;
    assert(head@.skip(0) == head@);
    while j < n
        invariant
            j <= n,
            n == head@.len(),
            moved_to(head@, file@, name@) == moved_to(head@.skip(j as int), file@, name@),
        decreases n - j,
    {
        let (hf, hsyms) = head.entry(j);
        assert(head@.skip(j as int)[0] == head@[j as int]);
        assert(head@.skip(j as int).drop_first() == head@.skip(j + 1));
        if !str_eq(hf.as_str(), file.as_str()) {
            match find_first_named(hsyms, name.as_str()) {
                Some(h) => {
                    assert(symbol_views(hsyms@)[h as int] == hsyms@[h as int]@);
                    return Some((j, h));
                },
                None => {},
            }
        }
        j += 1;
    }
    assert(head@.skip(n as int) =~= Seq::<FileSymbolsView>::empty());
    None
}

/// Position of the first head symbol among `hsyms` that can be the new
/// name of base symbol `sym` of `file`.
fn find_renamed(base: &SymbolMap, file: &String, hsyms: &Vec<Symbol>, sym: &Symbol) -> (r: Option<usize>)
    ensures
        match r {
            Some(i) => i < hsyms.len() && renamed_to(base@, file@, symbol_views(hsyms@), sym@) == Some(hsyms@[i as int]@),
            None => renamed_to(base@, file@, symbol_views(hsyms@), sym@) is None,
        },
{
    let ghost v = symbol_views(hsyms@);
    let mut i: usize = 0;
    assert(v.skip(0) == v);
    while i < hsyms.len()
        invariant
            i <= hsyms.len(),
            v == symbol_views(hsyms@),
            renamed_to(base@, file@, v, sym@) == renamed_to(base@, file@, v.skip(i as int), sym@),
        decreases hsyms.len() - i,
    {
        let h = &hsyms[i];
        assert(v.skip(i as int)[0] == h@);
        assert(v.skip(i as int).drop_first() == v.skip(i + 1));
        if h.kind == sym.kind && h.body_hash == sym.body_hash && !in_base_exec(base, file, &h.name) {
            return Some(i);
        }
        i += 1;
    }
    assert(v.skip(hsyms.len() as int) =~= Seq::<SymbolView>::empty());
    None
}

/// Status of one base symbol of `file` against head.
fn base_status_of(base: &SymbolMap, head: &SymbolMap, file: &String, sym: &Symbol) -> (r: SymbolStatus)
    ensures
        r@ == base_status(base@, head@, file@, sym@),
{
    let in_head = find_file(head, file);
    proof {
        lemma_index_of_file(head@, file@);
    }
    let same = match in_head {
        Some(j) => {
            let (_, hsyms) = head.entry(j);
            match find_last_named(hsyms, &sym.name) {
                Some(h) => Some(hsyms[h].body_hash),
                None => None,
            }
        },
        None => None,
    };
    match same {
        Some(hash) => {
            if sym.body_hash == hash {
                SymbolStatus::Unchanged
            } else {
                SymbolStatus::Modified
            }
        },
        None => match find_moved(head, file, &sym.name) {
            Some((j, h)) => {
                let (hf, hsyms) = head.entry(j);
                assert(symbol_views(hsyms@)[h as int] == hsyms@[h as int]@);
                let to_file = hf.clone();
                if sym.body_hash == hsyms[h].body_hash {
                    SymbolStatus::Moved { to_file }
                } else {
                    SymbolStatus::MovedModified { to_file }
                }
            },
            None => match in_head {
                Some(j) => {
                    let (_, hsyms) = head.entry(j);
                    match find_renamed(base, file, hsyms, sym) {
                        Some(h) => {
                            assert(symbol_views(hsyms@)[h as int] == hsyms@[h as int]@);
                            SymbolStatus::Renamed { new_name: hsyms[h].name.clone() }
                        },
                        None => SymbolStatus::Removed,
                    }
                },
                None => SymbolStatus::Removed,
            },
        },
    }
}

/// Whether base has a symbol called `name` in `file`.
fn in_base_exec(base: &SymbolMap, file: &String, name: &String) -> (r: bool)
    ensures
        r == in_base(base@, file@, name@),
{
    match find_file(base, file) {
        Some(j) => {
            proof {
                lemma_index_of_file(base@, file@);
            }
            let (_, syms) = base.entry(j);
            find_first_named(syms, name.as_str()).is_some()
        },
        None => false,
    }
}

/// Whether one of the first `n` entries reports a symbol as now living in
/// `file` under `name`.
fn landed_into(entries: &Vec<DiffedSymbol>, n: usize, file: &String, name: &String) -> (r: bool)
    requires
        n <= entries.len(),
    ensures
        r == landed_in(diffed_views(entries@).take(n as int), file@, name@),
{
    let ghost v = diffed_views(entries@).take(n as int);
    let mut i: usize = 0;
    while i < n
        invariant
            i <= n <= entries.len(),
            v == diffed_views(entries@).take(n as int),
            forall|j: int| 0 <= j < i ==> !lands_at(#[trigger] v[j], file@, name@),
        decreases n - i,
    {
        let d = &entries[i];
        assert(v[i as int] == d@);
        let hit = match &d.status {
            SymbolStatus::Moved { to_file } => str_eq(to_file.as_str(), file.as_str()) && str_eq(d.name.as_str(), name.as_str()),
            SymbolStatus::MovedModified { to_file } => str_eq(to_file.as_str(), file.as_str())
                && str_eq(d.name.as_str(), name.as_str()),
            SymbolStatus::Renamed { new_name } => str_eq(d.file.as_str(), file.as_str())
                && str_eq(new_name.as_str(), name.as_str()),
            _ => false,
        };
        assert(hit == lands_at(d@, file@, name@));
        if hit {
            return true;
        }
        i += 1;
    }
    false
}

/// Compute the symbol-level diff between base and head symbol sets.
///
/// `base_symbols` and `head_symbols` map file paths to symbol lists. Every
/// base symbol gets one entry, in map order: unchanged or modified if its
/// file still has a symbol of that name in head, moved (possibly modified)
/// if another head file has one, renamed if its head file holds a symbol
/// of the same kind and body under a name new to that file, removed
/// otherwise. Then every head symbol that base lacks in the same file, and
/// that no base symbol moved or was renamed to, gets an added entry.
pub fn diff_symbols(base_symbols: &SymbolMap, head_symbols: &SymbolMap) -> (r: Vec<DiffedSymbol>)
    ensures
        diffed_views(r@) == spec_diff_symbols(base_symbols@, head_symbols@),
{
    let base = base_symbols;
    let head = head_symbols;
    let mut result: Vec<DiffedSymbol> = Vec::new();
    let nb = base.len();
    let mut i: usize = 0;
    assert(base@.take(0) =~= Seq::<FileSymbolsView>::empty());
    assert(diffed_views(result@) =~= Seq::<DiffedView>::empty());
    while i < nb
        invariant
            nb == base@.len(),
            i <= nb,
            diffed_views(result@) == base_part_in(base@, base@.take(i as int), head@),
        decreases nb - i,
    {
        let (file, syms) = base.entry(i);
        let ghost sv = symbol_views(syms@);
        let ghost prefix = base_part_in(base@, base@.take(i as int), head@);
        let mut k: usize = 0;
        assert(sv.take(0) =~= Seq::<SymbolView>::empty());
        assert(base_file_part(base@, head@, file@, sv.take(0)) =~= Seq::<DiffedView>::empty());
        while k < syms.len()
            invariant
                k <= syms.len(),
                sv == symbol_views(syms@),
                diffed_views(result@) == prefix + base_file_part(base@, head@, file@, sv.take(k as int)),
            decreases syms.len() - k,
        {
            let sym = &syms[k];
            let status = base_status_of(base, head, file, sym);
            let ghost before = diffed_views(result@);
            let d = DiffedSymbol {
                name: sym.name.clone(),
                kind: sym.kind,
                file: file.clone(),
                status,
                confirmed: false,
                lsp_range: None,
                start_line: sym.start_line,
                end_line: sym.end_line,
            };
            result.push(d);
            proof {
                assert(sv[k as int] == sym@);
                assert(sv.take(k + 1) == sv.take(k as int).push(sym@));
                assert(base_file_part(base@, head@, file@, sv.take(k + 1)) =~= base_file_part(base@, head@, file@, sv.take(k as int)).push(base_entry(base@, head@, file@, sym@)));
                assert(diffed_views(result@) =~= before.push(d@));
            }
            k += 1;
        }
        proof {
            assert(sv.take(syms.len() as int) == sv);
            assert(base@.take(i + 1).drop_last() == base@.take(i as int));
            assert(base@.take(i + 1).last() == base@[i as int]);
        }
        i += 1;
    }
    assert(base@.take(nb as int) == base@);
    let base_len = result.len();
    let ghost bp = base_part(base@, head@);
    let nh = head.len();
    let mut j: usize = 0;
    assert(head@.take(0) =~= Seq::<FileSymbolsView>::empty());
    assert(bp + added_part(base@, bp, head@.take(0)) =~= bp);
    while j < nh
        invariant
            nh == head@.len(),
            j <= nh,
            base_len <= result.len(),
            bp == base_part(base@, head@),
            diffed_views(result@).take(base_len as int) == bp,
            diffed_views(result@) == bp + added_part(base@, bp, head@.take(j as int)),
        decreases nh - j,
    {
        let (file, syms) = head.entry(j);
        let ghost sv = symbol_views(syms@);
        let ghost prefix = bp + added_part(base@, bp, head@.take(j as int));
        let mut k: usize = 0;
        assert(sv.take(0) =~= Seq::<SymbolView>::empty());
        assert(prefix + added_file_part(base@, bp, file@, sv.take(0)) =~= prefix);
        while k < syms.len()
            invariant
                k <= syms.len(),
                base_len <= result.len(),
                sv == symbol_views(syms@),
                bp == base_part(base@, head@),
                diffed_views(result@).take(base_len as int) == bp,
                diffed_views(result@) == prefix + added_file_part(base@, bp, file@, sv.take(k as int)),
            decreases syms.len() - k,
        {
            let sym = &syms[k];
            assert(sv[k as int] == sym@);
            assert(sv.take(k + 1).drop_last() == sv.take(k as int));
            assert(sv.take(k + 1).last() == sym@);
            let present = in_base_exec(base, file, &sym.name);
            let moved = landed_into(&result, base_len, file, &sym.name);
            if !present && !moved {
                let ghost before = diffed_views(result@);
                let d = DiffedSymbol {
                    name: sym.name.clone(),
                    kind: sym.kind,
                    file: file.clone(),
                    status: SymbolStatus::Added,
                    confirmed: false,
                    lsp_range: None,
                    start_line: sym.start_line,
                    end_line: sym.end_line,
                };
                result.push(d);
                proof {
                    assert(diffed_views(result@) =~= before.push(d@));
                    assert(diffed_views(result@).take(base_len as int) =~= before.take(base_len as int));
                }
            }
            proof {
                assert(diffed_views(result@) =~= prefix + added_file_part(base@, bp, file@, sv.take(k + 1)));
            }
            k += 1;
        }
        proof {
            assert(sv.take(syms.len() as int) == sv);
            assert(head@.take(j + 1).drop_last() == head@.take(j as int));
            assert(head@.take(j + 1).last() == head@[j as int]);
            assert(diffed_views(result@) =~= bp + added_part(base@, bp, head@.take(j + 1)));
        }
        j += 1;
    }
    assert(head@.take(nh as int) == head@);
    result
}

} // verus!

verus! {

/// No two symbols share a name.
pub open spec fn names_distinct(syms: Seq<SymbolView>) -> bool {
    forall|i: int, j: int| 0 <= i < j < syms.len() ==> syms[i].name != syms[j].name
}

/// Every file's symbols have distinct names.
pub open spec fn all_names_distinct(m: Seq<FileSymbolsView>) -> bool {
    forall|i: int| 0 <= i < m.len() ==> names_distinct(#[trigger] m[i].1)
}

proof fn lemma_lookup_present(m: Seq<FileSymbolsView>, i: int)
    requires
        distinct_files(m),
        0 <= i < m.len(),
    ensures
        index_of_file(m, m[i].0) == Some(i),
        lookup_file(m, m[i].0) == Some(m[i].1),
{
    lemma_index_of_file(m, m[i].0);
}

proof fn lemma_last_named_member(syms: Seq<SymbolView>, k: int)
    requires
        names_distinct(syms),
        0 <= k < syms.len(),
    ensures
        last_named(syms, syms[k].name) == Some(syms[k]),
    decreases syms.len(),
{
    if k < syms.len() - 1 {
        assert(syms.last().name != syms[k].name);
        assert(syms.drop_last()[k] == syms[k]);
        lemma_last_named_member(syms.drop_last(), k);
    }
}

proof fn lemma_first_named_member(syms: Seq<SymbolView>, k: int)
    requires
        0 <= k < syms.len(),
    ensures
        first_named(syms, syms[k].name) is Some,
    decreases syms.len(),
{
    if k > 0 && syms[0].name != syms[k].name {
        assert(syms.drop_first()[k - 1] == syms[k]);
        lemma_first_named_member(syms.drop_first(), k - 1);
    }
}

/// Entries of the base part of `m.take(n)` against `m` are all unchanged
/// when names are distinct in every file.
proof fn lemma_self_base_unchanged(m: Seq<FileSymbolsView>, n: int)
    requires
        distinct_files(m),
        all_names_distinct(m),
        0 <= n <= m.len(),
    ensures
        forall|k: int| 0 <= k < base_part_in(m, m.take(n), m).len()
            ==> (#[trigger] base_part_in(m, m.take(n), m)[k]).status == StatusView::Unchanged,
    decreases n,
{
    if n > 0 {
        lemma_self_base_unchanged(m, n - 1);
        let t = m.take(n);
        assert(t.drop_last() == m.take(n - 1));
        assert(t.last() == m[n - 1]);
        let (f, syms) = m[n - 1];
        lemma_lookup_present(m, n - 1);
        assert(names_distinct(m[n - 1].1));
        let part = base_file_part(m, m, f, syms);
        assert forall|k: int| 0 <= k < part.len() implies (#[trigger] part[k]).status == StatusView::Unchanged by {
            lemma_last_named_member(syms, k);
        }
        let prev = base_part_in(m, m.take(n - 1), m);
        assert(base_part_in(m, t, m) == prev + part);
        assert forall|k: int| 0 <= k < base_part_in(m, t, m).len()
            implies (#[trigger] base_part_in(m, t, m)[k]).status == StatusView::Unchanged by {
            if k < prev.len() {
                assert(base_part_in(m, t, m)[k] == prev[k]);
            } else {
                assert(base_part_in(m, t, m)[k] == part[k - prev.len()]);
            }
        }
    }
}

/// No head symbol is added when every one is present in base.
proof fn lemma_no_added_file(base: Seq<FileSymbolsView>, bp: Seq<DiffedView>, file: Seq<char>, syms: Seq<SymbolView>)
    requires
        forall|k: int| 0 <= k < syms.len() ==> in_base(base, file, #[trigger] syms[k].name),
    ensures
        added_file_part(base, bp, file, syms) == Seq::<DiffedView>::empty(),
    decreases syms.len(),
{
    if syms.len() > 0 {
        assert(in_base(base, file, syms[syms.len() - 1].name));
        lemma_no_added_file(base, bp, file, syms.drop_last());
        assert(added_file_part(base, bp, file, syms) =~= Seq::<DiffedView>::empty());
    }
}

proof fn lemma_self_no_added(m: Seq<FileSymbolsView>, bp: Seq<DiffedView>, n: int)
    requires
        distinct_files(m),
        0 <= n <= m.len(),
    ensures
        added_part(m, bp, m.take(n)) == Seq::<DiffedView>::empty(),
    decreases n,
{
    if n == 0 {
        assert(m.take(0) =~= Seq::<FileSymbolsView>::empty());
    } else {
        let t = m.take(n);
        assert(t.drop_last() == m.take(n - 1));
        assert(t.last() == m[n - 1]);
        lemma_self_no_added(m, bp, n - 1);
        lemma_lookup_present(m, n - 1);
        assert forall|k: int| 0 <= k < m[n - 1].1.len() implies in_base(m, m[n - 1].0, #[trigger] m[n - 1].1[k].name) by {
            lemma_first_named_member(m[n - 1].1, k);
        }
        lemma_no_added_file(m, bp, m[n - 1].0, m[n - 1].1);
        assert(added_part(m, bp, t) =~= Seq::<DiffedView>::empty());
    }
}

/// Diffing a symbol map against itself reports every symbol unchanged and
/// nothing added, when no file holds two symbols of the same name.
pub proof fn law_diff_with_itself_is_unchanged(m: Seq<FileSymbolsView>)
    requires
        distinct_files(m),
        all_names_distinct(m),
    ensures
        spec_diff_symbols(m, m) == base_part(m, m),
        forall|k: int| 0 <= k < spec_diff_symbols(m, m).len()
            ==> (#[trigger] spec_diff_symbols(m, m)[k]).status == StatusView::Unchanged,
{
    let bp = base_part(m, m);
    assert(m.take(m.len() as int) == m);
    lemma_self_no_added(m, bp, m.len() as int);
    lemma_self_base_unchanged(m, m.len() as int);
    assert(spec_diff_symbols(m, m) =~= bp);
}

/// Every entry of an added part is an added symbol of a head file.
proof fn lemma_added_part_entries(base: Seq<FileSymbolsView>, bp: Seq<DiffedView>, head: Seq<FileSymbolsView>)
    ensures
        forall|k: int| 0 <= k < added_part(base, bp, head).len() ==> {
            let d = #[trigger] added_part(base, bp, head)[k];
            &&& d.status == StatusView::Added
            &&& !landed_in(bp, d.file, d.name)
        },
    decreases head.len(),
{
    if head.len() > 0 {
        lemma_added_part_entries(base, bp, head.drop_last());
        lemma_added_file_entries(base, bp, head.last().0, head.last().1);
        let prev = added_part(base, bp, head.drop_last());
        let cur = added_file_part(base, bp, head.last().0, head.last().1);
        assert forall|k: int| 0 <= k < added_part(base, bp, head).len() implies {
            let d = #[trigger] added_part(base, bp, head)[k];
            &&& d.status == StatusView::Added
            &&& !landed_in(bp, d.file, d.name)
        } by {
            if k < prev.len() {
                assert(added_part(base, bp, head)[k] == prev[k]);
            } else {
                assert(added_part(base, bp, head)[k] == cur[k - prev.len()]);
            }
        }
    }
}

pub proof fn lemma_added_file_entries(base: Seq<FileSymbolsView>, bp: Seq<DiffedView>, file: Seq<char>, syms: Seq<SymbolView>)
    ensures
        forall|k: int| 0 <= k < added_file_part(base, bp, file, syms).len() ==> {
            let d = #[trigger] added_file_part(base, bp, file, syms)[k];
            &&& d.status == StatusView::Added
            &&& d.file == file
            &&& !landed_in(bp, file, d.name)
        },
    decreases syms.len(),
{
    if syms.len() > 0 {
        lemma_added_file_entries(base, bp, file, syms.drop_last());
        let prev = added_file_part(base, bp, file, syms.drop_last());
        let all = added_file_part(base, bp, file, syms);
        assert forall|k: int| 0 <= k < all.len() implies {
            let d = #[trigger] all[k];
            &&& d.status == StatusView::Added
            &&& d.file == file
            &&& !landed_in(bp, file, d.name)
        } by {
            if k < prev.len() {
                assert(all[k] == prev[k]);
            }
        }
    }
}

/// A symbol that one entry reports as moved into a file, or renamed within
/// it, is never also reported as added there under that name.
pub proof fn law_moved_or_renamed_symbol_not_added(base: Seq<FileSymbolsView>, head: Seq<FileSymbolsView>, i: int, j: int)
    requires
        0 <= i < spec_diff_symbols(base, head).len(),
        0 <= j < spec_diff_symbols(base, head).len(),
        spec_diff_symbols(base, head)[i].status == StatusView::Added,
    ensures
        !lands_at(spec_diff_symbols(base, head)[j], spec_diff_symbols(base, head)[i].file, spec_diff_symbols(base, head)[i].name),
{
    let bp = base_part(base, head);
    let ap = added_part(base, bp, head);
    let r = spec_diff_symbols(base, head);
    lemma_added_part_entries(base, bp, head);
    lemma_base_part_not_added(base, base, head);
    if i < bp.len() {
        assert(r[i] == bp[i]);
    } else {
        assert(r[i] == ap[i - bp.len()]);
        if j >= bp.len() {
            assert(r[j] == ap[j - bp.len()]);
        } else {
            assert(r[j] == bp[j]);
            if lands_at(r[j], r[i].file, r[i].name) {
                assert(landed_in(bp, r[i].file, r[i].name));
            }
        }
    }
}

proof fn lemma_base_part_not_added(base: Seq<FileSymbolsView>, files: Seq<FileSymbolsView>, head: Seq<FileSymbolsView>)
    ensures
        forall|k: int| 0 <= k < base_part_in(base, files, head).len()
            ==> (#[trigger] base_part_in(base, files, head)[k]).status != StatusView::Added,
    decreases files.len(),
{
    if files.len() > 0 {
        lemma_base_part_not_added(base, files.drop_last(), head);
        let prev = base_part_in(base, files.drop_last(), head);
        let part = base_file_part(base, head, files.last().0, files.last().1);
        let all = base_part_in(base, files, head);
        assert forall|k: int| 0 <= k < all.len() implies (#[trigger] all[k]).status != StatusView::Added by {
            if k < prev.len() {
                assert(all[k] == prev[k]);
            } else {
                assert(all[k] == part[k - prev.len()]);
            }
        }
    }
}

/// A symbol whose file keeps its body under a new name, with nothing else
/// in the file, is reported renamed to that name and nothing is added.
pub proof fn law_same_file_rename(file: Seq<char>, before: SymbolView, after: SymbolView)
    requires
        before.name != after.name,
        before.kind == after.kind,
        before.body_hash == after.body_hash,
    ensures
        spec_diff_symbols(seq![(file, seq![before])], seq![(file, seq![after])]) == seq![DiffedView {
            name: before.name,
            kind: before.kind,
            file: file,
            status: StatusView::Renamed { new_name: after.name },
            confirmed: false,
            lsp_range: None,
            start_line: before.start_line,
            end_line: before.end_line,
        }],
{
    let base = seq![(file, seq![before])];
    let head = seq![(file, seq![after])];
    let hs = seq![after];
    assert(index_of_file(head, file) == Some(0int));
    assert(index_of_file(base, file) == Some(0int));
    assert(hs.last() == after);
    assert(hs[0] == after);
    assert(seq![before][0] == before);
    assert(hs.drop_last() =~= Seq::<SymbolView>::empty());
    assert(last_named(hs.drop_last(), before.name) is None);
    assert(last_named(hs, before.name) is None);
    assert(head.drop_first() =~= Seq::<FileSymbolsView>::empty());
    assert(head[0].0 == file);
    assert(moved_to(head.drop_first(), file, before.name) is None);
    assert(moved_to(head, file, before.name) is None);
    assert(seq![before].drop_first() =~= Seq::<SymbolView>::empty());
    assert(first_named(seq![before].drop_first(), after.name) is None);
    assert(first_named(seq![before], after.name) is None);
    assert(!in_base(base, file, after.name));
    assert(renamed_to(base, file, hs, before) == Some(after));
    assert(base.drop_last() =~= Seq::<FileSymbolsView>::empty());
    let bp = base_part(base, head);
    assert(base_part_in(base, base.drop_last(), head) == Seq::<DiffedView>::empty());
    assert(base.last() == (file, seq![before]));
    assert(base_file_part(base, head, file, seq![before]) =~= seq![base_entry(base, head, file, before)]);
    assert(bp =~= seq![base_entry(base, head, file, before)]);
    assert(lands_at(bp[0], file, after.name));
    assert(landed_in(bp, file, after.name));
    assert(head.drop_last() =~= Seq::<FileSymbolsView>::empty());
    assert(!is_added(base, bp, file, after));
    assert(added_file_part(base, bp, file, hs.drop_last()) == Seq::<DiffedView>::empty());
    assert(added_file_part(base, bp, file, hs) =~= Seq::<DiffedView>::empty());
    assert(added_part(base, bp, head.drop_last()) == Seq::<DiffedView>::empty());
    assert(head.last() == (file, hs));
    assert(added_part(base, bp, head) =~= Seq::<DiffedView>::empty());
    assert(spec_diff_symbols(base, head) =~= bp);
}

/// Diffing against an empty head reports every base symbol removed, one
/// entry per symbol.
pub proof fn law_diff_against_empty_is_removed(base: Seq<FileSymbolsView>)
    ensures
        spec_diff_symbols(base, Seq::<FileSymbolsView>::empty()) == base_part(base, Seq::<FileSymbolsView>::empty()),
        forall|k: int| 0 <= k < spec_diff_symbols(base, Seq::<FileSymbolsView>::empty()).len()
            ==> (#[trigger] spec_diff_symbols(base, Seq::<FileSymbolsView>::empty())[k]).status == StatusView::Removed,
{
    let e = Seq::<FileSymbolsView>::empty();
    let bp = base_part(base, e);
    assert(spec_diff_symbols(base, e) =~= bp);
    lemma_base_against_empty(base);
}

proof fn lemma_base_against_empty(base: Seq<FileSymbolsView>)
    ensures
        forall|k: int| 0 <= k < base_part(base, Seq::<FileSymbolsView>::empty()).len()
            ==> (#[trigger] base_part(base, Seq::<FileSymbolsView>::empty())[k]).status == StatusView::Removed,
{
    lemma_files_against_empty(base, base);
}

proof fn lemma_files_against_empty(base: Seq<FileSymbolsView>, files: Seq<FileSymbolsView>)
    ensures
        forall|k: int| 0 <= k < base_part_in(base, files, Seq::<FileSymbolsView>::empty()).len()
            ==> (#[trigger] base_part_in(base, files, Seq::<FileSymbolsView>::empty())[k]).status == StatusView::Removed,
    decreases files.len(),
{
    let e = Seq::<FileSymbolsView>::empty();
    if files.len() > 0 {
        lemma_files_against_empty(base, files.drop_last());
        let prev = base_part_in(base, files.drop_last(), e);
        let part = base_file_part(base, e, files.last().0, files.last().1);
        let all = base_part_in(base, files, e);
        assert forall|k: int| 0 <= k < all.len() implies (#[trigger] all[k]).status == StatusView::Removed by {
            if k < prev.len() {
                assert(all[k] == prev[k]);
            } else {
                assert(all[k] == part[k - prev.len()]);
            }
        }
    }
}

/// Diffing an empty base against head reports every head symbol added, in
/// order, with its file.
pub proof fn law_diff_from_empty_is_added(head: Seq<FileSymbolsView>)
    ensures
        spec_diff_symbols(Seq::<FileSymbolsView>::empty(), head) == all_added(head),
{
    let e = Seq::<FileSymbolsView>::empty();
    assert(base_part(e, head) =~= Seq::<DiffedView>::empty());
    lemma_added_from_empty(head);
    assert(spec_diff_symbols(e, head) =~= added_part(e, Seq::<DiffedView>::empty(), head));
}

/// Every symbol of every file as an added entry, file by file.
pub open spec fn all_added(head: Seq<FileSymbolsView>) -> Seq<DiffedView>
    decreases head.len(),
{
    if head.len() == 0 {
        seq![]
    } else {
        all_added(head.drop_last()) + head.last().1.map_values(|s: SymbolView| added_entry(head.last().0, s))
    }
}

proof fn lemma_added_from_empty(head: Seq<FileSymbolsView>)
    ensures
        added_part(Seq::<FileSymbolsView>::empty(), Seq::<DiffedView>::empty(), head) == all_added(head),
    decreases head.len(),
{
    if head.len() > 0 {
        lemma_added_from_empty(head.drop_last());
        lemma_added_file_from_empty(head.last().0, head.last().1);
    }
}

proof fn lemma_added_file_from_empty(file: Seq<char>, syms: Seq<SymbolView>)
    ensures
        added_file_part(Seq::<FileSymbolsView>::empty(), Seq::<DiffedView>::empty(), file, syms)
            == syms.map_values(|s: SymbolView| added_entry(file, s)),
    decreases syms.len(),
{
    if syms.len() > 0 {
        lemma_added_file_from_empty(file, syms.drop_last());
        assert(syms.map_values(|s: SymbolView| added_entry(file, s))
            =~= syms.drop_last().map_values(|s: SymbolView| added_entry(file, s)).push(added_entry(file, syms.last())));
    }
}

} // verus!
