//! Analysis pipeline decisions: file classification, which files get their
//! symbols expanded, language-server grouping and split detection.

use vstd::prelude::*;
use crate::diff::{diffed_views, DiffedSymbol, DiffedView};
use crate::lsp_confirmation::{apply_lsp_confirmation, confirmed_entry, lsp_views, LspSymbol, LspSymbolView};
use crate::git::{stat_views, FileStat, FileStatView, GitStatus, GitStatusView};
use crate::languages::registry::{for_extension_chars, spec_for_extension};
use crate::languages::{spec_lsp_command, Lang};
use crate::paths::{extension, extension_of};
use crate::text::{chars_eq, chars_of, clone_strings, string_views};

verus! {

/// Classified status of a file in the output.
#[derive(Debug, Clone)]
pub enum FileStatus {
    Modified,
    Added {
        /// File it was split/moved from (heuristic)
        source: Option<String>,
    },
    Deleted {
        /// Files it was split into (heuristic)
        targets: Vec<String>,
    },
    /// File split into multiple targets
    Split { targets: Vec<String> },
    /// File renamed or moved (git-detected)
    Renamed { old_path: String, new_path: String },
}

pub enum FileStatusView {
    Modified,
    Added { source: Option<Seq<char>> },
    Deleted { targets: Seq<Seq<char>> },
    Split { targets: Seq<Seq<char>> },
    Renamed { old_path: Seq<char>, new_path: Seq<char> },
}

impl View for FileStatus {
    type V = FileStatusView;

    open spec fn view(&self) -> FileStatusView {
        match self {
            FileStatus::Modified => FileStatusView::Modified,
            FileStatus::Added { source } => FileStatusView::Added {
                source: match source {
                    Some(s) => Some(s@),
                    None => None,
                },
            },
            FileStatus::Deleted { targets } => FileStatusView::Deleted { targets: string_views(targets@) },
            FileStatus::Split { targets } => FileStatusView::Split { targets: string_views(targets@) },
            FileStatus::Renamed { old_path, new_path } => FileStatusView::Renamed {
                old_path: old_path@,
                new_path: new_path@,
            },
        }
    }
}

/// A file entry in the diff, enriched with symbols if Layer 2 applies.
#[derive(Debug, Clone)]
pub struct FileDiff {
    pub status: FileStatus,
    /// Display path (new path for adds/renames; old path for deletes)
    pub path: String,
    pub added: usize,
    pub removed: usize,
    /// Layer 2 symbols, if computed (None = not yet fetched)
    pub symbols: Option<Vec<DiffedSymbol>>,
    /// LSP confirmed (true) or heuristic (false)
    pub confirmed: bool,
}

pub struct FileDiffView {
    pub status: FileStatusView,
    pub path: Seq<char>,
    pub added: usize,
    pub removed: usize,
    pub symbols: Option<Seq<DiffedView>>,
    pub confirmed: bool,
}

impl View for FileDiff {
    type V = FileDiffView;

    open spec fn view(&self) -> FileDiffView {
        FileDiffView {
            status: self.status@,
            path: self.path@,
            added: self.added,
            removed: self.removed,
            symbols: match self.symbols {
                Some(s) => Some(diffed_views(s@)),
                None => None,
            },
            confirmed: self.confirmed,
        }
    }
}

pub open spec fn file_views(s: Seq<FileDiff>) -> Seq<FileDiffView> {
    s.map_values(|f: FileDiff| f@)
}

/// Summary totals for the diff header.
#[derive(Debug)]
pub struct DiffSummary {
    pub total_added: usize,
    pub total_removed: usize,
    pub file_count: usize,
}

/// Result of a full diff analysis.
#[derive(Debug)]
pub struct DiffResult {
    pub summary: DiffSummary,
    pub files: Vec<FileDiff>,
}

/// Whether a file's symbols are computed: never when `expand` is off;
/// always with `depth_symbols`; otherwise for split files, deleted files
/// with split targets, and modified or deleted files whose line delta
/// reaches `threshold`.
pub open spec fn spec_needs_expand(fd: FileDiffView, expand: bool, depth_symbols: bool, threshold: usize) -> bool {
    expand && (depth_symbols || match fd.status {
        FileStatusView::Split { .. } => true,
        FileStatusView::Deleted { targets } => targets.len() > 0 || fd.added + fd.removed >= threshold,
        FileStatusView::Modified => fd.added + fd.removed >= threshold,
        _ => false,
    })
}

/// Whether a file should have its symbols computed.
pub fn needs_expand(fd: &FileDiff, expand: bool, depth_symbols: bool, threshold: usize) -> (r: bool)
    ensures
        r == spec_needs_expand(fd@, expand, depth_symbols, threshold),
{
    expand && (depth_symbols || match &fd.status {
        FileStatus::Split { .. } => true,
        FileStatus::Deleted { targets } => targets.len() > 0 || fd.added > usize::MAX - fd.removed
            || fd.added + fd.removed >= threshold,
        FileStatus::Modified => fd.added > usize::MAX - fd.removed || fd.added + fd.removed >= threshold,
        _ => false,
    })
}

/// The file entry git reports for a changed file, before split detection.
pub open spec fn classified(s: FileStatView) -> FileDiffView {
    FileDiffView {
        status: match s.status {
            GitStatusView::Added => FileStatusView::Added { source: None },
            GitStatusView::Deleted => FileStatusView::Deleted { targets: seq![] },
            GitStatusView::Modified => FileStatusView::Modified,
            GitStatusView::Renamed(old, new, _) => FileStatusView::Renamed { old_path: old, new_path: new },
            GitStatusView::Copied(old, new, _) => FileStatusView::Renamed { old_path: old, new_path: new },
        },
        path: s.path,
        added: s.added,
        removed: s.removed,
        symbols: None,
        confirmed: false,
    }
}

fn classify_one(s: &FileStat) -> (r: FileDiff)
    ensures
        r@ == classified(s@),
{
    let status = match &s.status {
        GitStatus::Added => FileStatus::Added { source: None },
        GitStatus::Deleted => {
            let t: Vec<String> = Vec::new();
            assert(string_views(t@) =~= Seq::<Seq<char>>::empty());
            FileStatus::Deleted { targets: t }
        },
        GitStatus::Modified => FileStatus::Modified,
        GitStatus::Renamed(old, new, _) => FileStatus::Renamed { old_path: old.clone(), new_path: new.clone() },
        GitStatus::Copied(old, new, _) => FileStatus::Renamed { old_path: old.clone(), new_path: new.clone() },
    };
    FileDiff {
        status,
        path: s.path.clone(),
        added: s.added,
        removed: s.removed,
        symbols: None,
        confirmed: false,
    }
}

/// One file entry per change record, in order, with git's status mapped
/// (copies shown as renames) and no symbols yet.
pub fn classify(stats: &[FileStat]) -> (r: Vec<FileDiff>)
    ensures
        file_views(r@) == stat_views(stats@).map_values(|s: FileStatView| classified(s)),
{
    let mut out: Vec<FileDiff> = Vec::new();
    let mut i: usize = 0;
    while i < stats.len()
        invariant
            i <= stats.len(),
            file_views(out@) == stat_views(stats@).take(i as int).map_values(|s: FileStatView| classified(s)),
        decreases stats.len() - i,
    {
        let fd = classify_one(&stats[i]);
        let ghost before = file_views(out@);
        out.push(fd);
        assert(file_views(out@) =~= before.push(fd@));
        assert(stat_views(stats@).take(i + 1) == stat_views(stats@).take(i as int).push(stats@[i as int]@));
        assert(file_views(out@) =~= stat_views(stats@).take(i + 1).map_values(|s: FileStatView| classified(s)));
        i += 1;
    }
    assert(stat_views(stats@).take(stats.len() as int) == stat_views(stats@));
    out
}

/// Sum of added lines over files.
pub open spec fn sum_added(fs: Seq<FileDiffView>) -> nat
    decreases fs.len(),
{
    if fs.len() == 0 { 0 } else { sum_added(fs.drop_last()) + fs.last().added as nat }
}

/// Sum of removed lines over files.
pub open spec fn sum_removed(fs: Seq<FileDiffView>) -> nat
    decreases fs.len(),
{
    if fs.len() == 0 { 0 } else { sum_removed(fs.drop_last()) + fs.last().removed as nat }
}

proof fn lemma_sum_prefix(fs: Seq<FileDiffView>, i: int)
    requires
        0 <= i <= fs.len(),
    ensures
        sum_added(fs.take(i)) <= sum_added(fs),
        sum_removed(fs.take(i)) <= sum_removed(fs),
    decreases fs.len() - i,
{
    if i < fs.len() {
        lemma_sum_prefix(fs.drop_last(), i);
        assert(fs.drop_last().take(i) == fs.take(i));
    } else {
        assert(fs.take(i) == fs);
    }
}

/// The diff result for a list of files: the files with their added and
/// removed line totals and their count.
pub fn build_result(files: Vec<FileDiff>) -> (r: DiffResult)
    requires
        sum_added(file_views(files@)) <= usize::MAX,
        sum_removed(file_views(files@)) <= usize::MAX,
    ensures
        file_views(r.files@) == file_views(files@),
        r.summary.total_added == sum_added(file_views(files@)),
        r.summary.total_removed == sum_removed(file_views(files@)),
        r.summary.file_count == files@.len(),
{
    let ghost fv = file_views(files@);
    let mut ta: usize = 0;
    let mut tr: usize = 0;
    let mut i: usize = 0;
    while i < files.len()
        invariant
            i <= files.len(),
            fv == file_views(files@),
            sum_added(fv) <= usize::MAX,
            sum_removed(fv) <= usize::MAX,
            ta == sum_added(fv.take(i as int)),
            tr == sum_removed(fv.take(i as int)),
        decreases files.len() - i,
    {
        proof {
            assert(fv.take(i + 1).drop_last() == fv.take(i as int));
            assert(fv.take(i + 1).last() == files@[i as int]@);
            lemma_sum_prefix(fv, i + 1);
        }
        ta = ta + files[i].added;
        tr = tr + files[i].removed;
        i += 1;
    }
    assert(fv.take(files.len() as int) == fv);
    let n = files.len();
    DiffResult { summary: DiffSummary { total_added: ta, total_removed: tr, file_count: n }, files }
}

/// The language of a file, from its extension.
pub open spec fn file_language(path: Seq<char>) -> Option<Lang> {
    match extension(path) {
        Some(e) => spec_for_extension(e),
        None => None,
    }
}

/// The language of a file path, from its extension.
pub fn language_of(path: &str) -> (r: Option<Lang>)
    ensures
        r == file_language(path@),
{
    let p = chars_of(path);
    match extension_of(p.as_slice()) {
        Some(e) => for_extension_chars(e.as_slice()),
        None => None,
    }
}

/// Language-server program of a language.
pub open spec fn program(l: Lang) -> Seq<char> {
    spec_lsp_command(l)[0]
}

/// Position of the group served by language-server program `prog`.
pub open spec fn group_index(g: Seq<(Lang, Seq<usize>)>, prog: Seq<char>) -> Option<int>
    decreases g.len(),
{
    if g.len() == 0 {
        None
    } else {
        match group_index(g.drop_last(), prog) {
            Some(k) => Some(k),
            None => if program(g.last().0) == prog { Some(g.len() - 1) } else { None },
        }
    }
}

/// Files grouped by language-server program, groups in order of first
/// appearance, each with the positions of its files; files of unsupported
/// languages are left out.
pub open spec fn lsp_groups(fds: Seq<FileDiffView>) -> Seq<(Lang, Seq<usize>)>
    decreases fds.len(),
{
    if fds.len() == 0 {
        seq![]
    } else {
        let g = lsp_groups(fds.drop_last());
        let i = (fds.len() - 1) as usize;
        match file_language(fds.last().path) {
            None => g,
            Some(l) => match group_index(g, program(l)) {
                Some(k) => g.update(k, (g[k].0, g[k].1.push(i))),
                None => g.push((l, seq![i])),
            },
        }
    }
}

pub open spec fn group_views(g: Seq<(Lang, Vec<usize>)>) -> Seq<(Lang, Seq<usize>)> {
    g.map_values(|p: (Lang, Vec<usize>)| (p.0, p.1@))
}

proof fn lemma_group_index(g: Seq<(Lang, Seq<usize>)>, prog: Seq<char>)
    ensures
        match group_index(g, prog) {
            Some(k) => 0 <= k < g.len() && program(g[k].0) == prog
                && forall|j: int| 0 <= j < k ==> program(g[j].0) != prog,
            None => forall|j: int| 0 <= j < g.len() ==> program(g[j].0) != prog,
        },
    decreases g.len(),
{
    if g.len() > 0 {
        lemma_group_index(g.drop_last(), prog);
        assert forall|j: int| 0 <= j < g.len() - 1 implies g[j] == g.drop_last()[j] by {}
    }
}

/// Position of the first group whose program has the characters `prog`.
fn find_group(groups: &Vec<(Lang, Vec<usize>)>, prog: &[char], Ghost(p): Ghost<Seq<char>>) -> (r: Option<usize>)
    requires
        prog@ == p,
    ensures
        match r {
            Some(k) => group_index(group_views(groups@), p) == Some(k as int),
            None => group_index(group_views(groups@), p) is None,
        },
{
    let ghost g = group_views(groups@);
    proof {
        lemma_group_index(g, p);
    }
    let mut k: usize = 0;
    while k < groups.len()
        invariant
            k <= groups.len(),
            g == group_views(groups@),
            prog@ == p,
            forall|j: int| 0 <= j < k ==> program(g[j].0) != p,
        decreases groups.len() - k,
    {
        let other = chars_of(groups[k].0.lsp_program());
        assert(g[k as int].0 == groups@[k as int].0);
        if chars_eq(other.as_slice(), prog) {
            assert(program(g[k as int].0) == p);
            proof { lemma_group_index(g, p); match group_index(g, p) {
                Some(k2) => {
                    if k2 < k as int {
                        assert(program(g[k2].0) != p);
                    } else if k2 > k as int {
                        assert(program(g[k as int].0) != p);
                    }
                },
                None => {
                    assert(program(g[k as int].0) != p);
                },
            } }
            return Some(k);
        }
        k += 1;
    }
    proof {
        lemma_group_index(g, p);
        match group_index(g, p) {
            Some(k2) => {
                assert(program(g[k2].0) != p);
            },
            None => {},
        }
    }
    None
}

/// Group file positions by language-server program, in order of first
/// appearance. Files with unsupported extensions are skipped.
pub fn build_lsp_groups(file_diffs: &[FileDiff]) -> (r: Vec<(Lang, Vec<usize>)>)
    ensures
        group_views(r@) == lsp_groups(file_views(file_diffs@)),
{
    let ghost fv = file_views(file_diffs@);
    let mut groups: Vec<(Lang, Vec<usize>)> = Vec::new();
    let mut i: usize = 0;
    assert(fv.take(0) =~= Seq::<FileDiffView>::empty());
    assert(group_views(groups@) =~= Seq::<(Lang, Seq<usize>)>::empty());
    while i < file_diffs.len()
        invariant
            i <= file_diffs.len(),
            fv == file_views(file_diffs@),
            group_views(groups@) == lsp_groups(fv.take(i as int)),
        decreases file_diffs.len() - i,
    {
        let ghost g = group_views(groups@);
        proof {
            assert(fv.take(i + 1).drop_last() == fv.take(i as int));
            assert(fv.take(i + 1).last() == file_diffs@[i as int]@);
        }
        let ghost t = fv.take(i + 1);
        assert(((t.len() - 1) as usize) == i);
        match language_of(file_diffs[i].path.as_str()) {
            None => {
                assert(lsp_groups(t) == g);
            },
            Some(lang) => {
                let cmd = lang.lsp_program();
                let prog = chars_of(cmd);
                proof {
                    lemma_group_index(g, program(lang));
                }
                let found = find_group(&groups, prog.as_slice(), Ghost(program(lang)));
                match found {
                    Some(k) => {
                        assert(group_index(g, program(lang)) == Some(k as int));
                        let mut entry = groups.remove(k);
                        entry.1.push(i);
                        groups.insert(k, entry);
                        assert(group_views(groups@) =~= g.update(k as int, (g[k as int].0, g[k as int].1.push(i))));
                        assert(lsp_groups(t) == g.update(k as int, (g[k as int].0, g[k as int].1.push(i))));
                    },
                    None => {
                        assert(group_index(g, program(lang)) is None);
                        let v = vec![i];
                        assert(v@ =~= seq![i]);
                        groups.push((lang, v));
                        assert(group_views(groups@) =~= g.push((lang, seq![i])));
                        assert(lsp_groups(t) == g.push((lang, seq![i])));
                    },
                }
            },
        }
        i += 1;
    }
    assert(fv.take(file_diffs.len() as int) == fv);
    groups
}

} // verus!

verus! {

use crate::diff::{FileSymbolsView, SymbolMap};
use crate::languages::{symbol_views, Symbol, SymbolView};
use crate::text::char_views;

/// The names of some symbols, as a set.
pub open spec fn names_set(syms: Seq<SymbolView>) -> Set<Seq<char>> {
    syms.map_values(|s: SymbolView| s.name).to_set()
}

/// Number of names two symbol lists share.
pub open spec fn overlap(a: Seq<SymbolView>, b: Seq<SymbolView>) -> nat {
    names_set(a).intersect(names_set(b)).len()
}

/// A target shares enough of a source's `n` names: at least two, or at
/// least one and more than 30% of them (percentage rounded down).
pub open spec fn significant(ov: nat, n: nat) -> bool {
    ov >= 2 || (ov > 0 && ov * 100 / n > 30)
}

/// The target files, in map order, that share a significant part of the
/// source's symbol names.
pub open spec fn split_targets(src: Seq<SymbolView>, targets: Seq<FileSymbolsView>) -> Seq<Seq<char>>
    decreases targets.len(),
{
    if targets.len() == 0 {
        seq![]
    } else {
        let prev = split_targets(src, targets.drop_last());
        if significant(overlap(src, targets.last().1), names_set(src).len()) {
            prev.push(targets.last().0)
        } else {
            prev
        }
    }
}

/// Position of the first file entry with this path.
pub open spec fn first_with_path(fds: Seq<FileDiffView>, path: Seq<char>) -> Option<int>
    decreases fds.len(),
{
    if fds.len() == 0 {
        None
    } else if fds[0].path == path {
        Some(0)
    } else {
        match first_with_path(fds.drop_first(), path) {
            Some(i) => Some(i + 1),
            None => None,
        }
    }
}

/// The entries with the first one of this path given status `st`.
pub open spec fn set_status(fds: Seq<FileDiffView>, path: Seq<char>, st: FileStatusView) -> Seq<FileDiffView> {
    match first_with_path(fds, path) {
        Some(i) => fds.update(i, FileDiffView { status: st, ..fds[i] }),
        None => fds,
    }
}

/// Each target file marked as split out of `src`.
pub open spec fn mark_targets(fds: Seq<FileDiffView>, tgts: Seq<Seq<char>>, src: Seq<char>) -> Seq<FileDiffView>
    decreases tgts.len(),
{
    if tgts.len() == 0 {
        fds
    } else {
        set_status(mark_targets(fds, tgts.drop_last(), src), tgts.last(), FileStatusView::Added { source: Some(src) })
    }
}

/// The effect of one source file with its split targets: the source
/// becomes a split into them and each target records the source.
pub open spec fn apply_source(fds: Seq<FileDiffView>, src: Seq<char>, tgts: Seq<Seq<char>>) -> Seq<FileDiffView> {
    if tgts.len() == 0 {
        fds
    } else {
        mark_targets(set_status(fds, src, FileStatusView::Split { targets: tgts }), tgts, src)
    }
}

/// Split detection over all source files, in map order.
pub open spec fn spec_detect_splits(fds: Seq<FileDiffView>, sources: Seq<FileSymbolsView>, targets: Seq<FileSymbolsView>) -> Seq<FileDiffView>
    decreases sources.len(),
{
    if sources.len() == 0 {
        fds
    } else {
        let prev = spec_detect_splits(fds, sources.drop_last(), targets);
        apply_source(prev, sources.last().0, split_targets(sources.last().1, targets))
    }
}

/// Whether a change record is a split source candidate: a deleted file, or
/// a modified file that removed more than twice what it added and more
/// than 100 lines.
pub open spec fn is_split_source(s: FileStatView) -> bool {
    match s.status {
        GitStatusView::Deleted => true,
        GitStatusView::Modified => s.removed > s.added * 2 && s.removed > 100,
        _ => false,
    }
}

/// Whether a change record is a split target candidate: an added file.
pub open spec fn is_split_target(s: FileStatView) -> bool {
    s.status is Added
}

/// Paths of the records satisfying a predicate, in order.
pub open spec fn paths_where(stats: Seq<FileStatView>, p: spec_fn(FileStatView) -> bool) -> Seq<Seq<char>>
    decreases stats.len(),
{
    if stats.len() == 0 {
        seq![]
    } else {
        let prev = paths_where(stats.drop_last(), p);
        if p(stats.last()) { prev.push(stats.last().path) } else { prev }
    }
}

/// Paths of the split source candidates (deleted or heavily shrunk files).
pub fn split_sources(stats: &[FileStat]) -> (r: Vec<String>)
    ensures
        string_views(r@) == paths_where(stat_views(stats@), |s: FileStatView| is_split_source(s)),
{
    let ghost sv = stat_views(stats@);
    let mut out: Vec<String> = Vec::new();
    let mut i: usize = 0;
    assert(sv.take(0) =~= Seq::<FileStatView>::empty());
    assert(string_views(out@) =~= Seq::<Seq<char>>::empty());
    while i < stats.len()
        invariant
            i <= stats.len(),
            sv == stat_views(stats@),
            string_views(out@) == paths_where(sv.take(i as int), |s: FileStatView| is_split_source(s)),
        decreases stats.len() - i,
    {
        let s = &stats[i];
        assert(sv.take(i + 1).drop_last() == sv.take(i as int));
        assert(sv.take(i + 1).last() == s@);
        let hit = match &s.status {
            GitStatus::Deleted => true,
            GitStatus::Modified => s.added <= usize::MAX / 2 && s.removed > s.added * 2 && s.removed > 100,
            _ => false,
        };
        assert(s.added > usize::MAX / 2 ==> s.added * 2 >= usize::MAX);
        assert(hit == is_split_source(s@));
        if hit {
            let ghost before = string_views(out@);
            let p = s.path.clone();
            out.push(p);
            assert(string_views(out@) =~= before.push(s@.path));
        }
        i += 1;
    }
    assert(sv.take(stats.len() as int) == sv);
    out
}

/// Paths of the split target candidates (added files).
pub fn split_targets_of(stats: &[FileStat]) -> (r: Vec<String>)
    ensures
        string_views(r@) == paths_where(stat_views(stats@), |s: FileStatView| is_split_target(s)),
{
    let ghost sv = stat_views(stats@);
    let mut out: Vec<String> = Vec::new();
    let mut i: usize = 0;
    assert(sv.take(0) =~= Seq::<FileStatView>::empty());
    assert(string_views(out@) =~= Seq::<Seq<char>>::empty());
    while i < stats.len()
        invariant
            i <= stats.len(),
            sv == stat_views(stats@),
            string_views(out@) == paths_where(sv.take(i as int), |s: FileStatView| is_split_target(s)),
        decreases stats.len() - i,
    {
        let s = &stats[i];
        assert(sv.take(i + 1).drop_last() == sv.take(i as int));
        assert(sv.take(i + 1).last() == s@);
        let hit = match &s.status {
            GitStatus::Added => true,
            _ => false,
        };
        if hit {
            let ghost before = string_views(out@);
            let p = s.path.clone();
            out.push(p);
            assert(string_views(out@) =~= before.push(s@.path));
        }
        i += 1;
    }
    assert(sv.take(stats.len() as int) == sv);
    out
}

/// Whether some symbol has this name.
fn has_name(syms: &Vec<Symbol>, name: &[char]) -> (r: bool)
    ensures
        r == names_set(symbol_views(syms@)).contains(name@),
{
    let ghost ns = symbol_views(syms@).map_values(|s: SymbolView| s.name);
    let mut i: usize = 0;
    while i < syms.len()
        invariant
            i <= syms.len(),
            ns == symbol_views(syms@).map_values(|s: SymbolView| s.name),
            forall|j: int| 0 <= j < i ==> ns[j] != name@,
        decreases syms.len() - i,
    {
        let n = chars_of(syms[i].name.as_str());
        assert(ns[i as int] == syms@[i as int].name@);
        if chars_eq(n.as_slice(), name) {
            assert(ns.contains(name@));
            return true;
        }
        i += 1;
    }
    assert(!ns.contains(name@));
    false
}

/// Whether some vector holds these characters.
fn has_chars(v: &Vec<Vec<char>>, name: &[char]) -> (r: bool)
    ensures
        r == char_views(v@).contains(name@),
{
    let mut i: usize = 0;
    while i < v.len()
        invariant
            i <= v.len(),
            forall|j: int| 0 <= j < i ==> char_views(v@)[j] != name@,
        decreases v.len() - i,
    {
        assert(char_views(v@)[i as int] == v@[i as int]@);
        if chars_eq(v[i].as_slice(), name) {
            return true;
        }
        i += 1;
    }
    false
}

/// The distinct names of some symbols.
fn distinct_names(syms: &Vec<Symbol>) -> (r: Vec<Vec<char>>)
    ensures
        char_views(r@).no_duplicates(),
        char_views(r@).to_set() == names_set(symbol_views(syms@)),
{
    broadcast use vstd::seq_lib::group_seq_properties;
    broadcast use Seq::lemma_push_to_set_commute;
    let ghost ns = symbol_views(syms@).map_values(|s: SymbolView| s.name);
    let mut out: Vec<Vec<char>> = Vec::new();
    let mut i: usize = 0;
    assert(ns.take(0) =~= Seq::<Seq<char>>::empty());
    assert(char_views(out@) =~= Seq::<Seq<char>>::empty());
    while i < syms.len()
        invariant
            i <= syms.len(),
            ns == symbol_views(syms@).map_values(|s: SymbolView| s.name),
            char_views(out@).no_duplicates(),
            char_views(out@).to_set() == ns.take(i as int).to_set(),
        decreases syms.len() - i,
    {
        let n = chars_of(syms[i].name.as_str());
        assert(ns[i as int] == n@);
        assert(ns.take(i + 1) == ns.take(i as int).push(n@));
        let ghost before = char_views(out@);
        proof {
            ns.take(i as int).lemma_push_to_set_commute(n@);
            before.lemma_push_to_set_commute(n@);
        }
        if !has_chars(&out, n.as_slice()) {
            out.push(n);
            assert(char_views(out@) =~= before.push(n@));
        } else {
            assert(before.to_set().contains(n@));
            assert(before.to_set().insert(n@) =~= before.to_set());
        }
        i += 1;
    }
    assert(ns.take(syms.len() as int) == ns);
    out
}

/// Number of the given distinct names that some symbol carries.
fn overlap_count(distinct: &Vec<Vec<char>>, tgt: &Vec<Symbol>) -> (r: usize)
    requires
        char_views(distinct@).no_duplicates(),
    ensures
        r == char_views(distinct@).to_set().intersect(names_set(symbol_views(tgt@))).len(),
{
    broadcast use vstd::seq_lib::group_seq_properties;
    broadcast use Seq::lemma_push_to_set_commute;
    let ghost d = char_views(distinct@);
    let ghost b = names_set(symbol_views(tgt@));
    let ghost mut shared: Seq<Seq<char>> = seq![];
    let mut count: usize = 0;
    let mut i: usize = 0;
    assert(d.take(0) =~= Seq::<Seq<char>>::empty());
    assert(shared.to_set() =~= d.take(0).to_set().intersect(b));
    while i < distinct.len()
        invariant
            i <= distinct.len(),
            d == char_views(distinct@),
            d.no_duplicates(),
            b == names_set(symbol_views(tgt@)),
            count == shared.len(),
            count <= i,
            shared.no_duplicates(),
            shared.to_set() == d.take(i as int).to_set().intersect(b),
        decreases distinct.len() - i,
    {
        let x = &distinct[i];
        assert(d[i as int] == x@);
        assert(d.take(i + 1) == d.take(i as int).push(x@));
        assert(!d.take(i as int).contains(x@)) by {
            if d.take(i as int).contains(x@) {
                let k = choose|k: int| 0 <= k < i && d.take(i as int)[k] == x@;
                assert(d[k] == d[i as int]);
            }
        }
        if has_name(tgt, x.as_slice()) {
            proof {
                assert(!shared.to_set().contains(x@));
                assert(!shared.contains(x@));
                let old_shared = shared;
                old_shared.lemma_push_to_set_commute(x@);
                d.take(i as int).lemma_push_to_set_commute(x@);
                shared = shared.push(x@);
                assert(shared.to_set() == old_shared.to_set().insert(x@));
                assert(shared.to_set() =~= d.take(i + 1).to_set().intersect(b));
            }
            count += 1;
        } else {
            proof {
                d.take(i as int).lemma_push_to_set_commute(x@);
            }
            assert(shared.to_set() =~= d.take(i + 1).to_set().intersect(b));
        }
        i += 1;
    }
    proof {
        assert(d.take(distinct.len() as int) == d);
        shared.unique_seq_to_set();
    }
    count
}

/// Whether a shared-name count is significant for a source with `n` names.
fn is_significant(ov: usize, n: usize) -> (r: bool)
    requires
        ov <= n,
    ensures
        r == significant(ov as nat, n as nat),
{
    if ov >= 2 {
        return true;
    }
    if ov == 0 {
        return false;
    }
    // ov == 1 <= n
    let pct = 100 / n;
    pct > 30
}

/// Position of the first file entry with this path.
fn find_path(fds: &Vec<FileDiff>, path: &String) -> (r: Option<usize>)
    ensures
        match r {
            Some(i) => first_with_path(file_views(fds@), path@) == Some(i as int) && i < fds.len(),
            None => first_with_path(file_views(fds@), path@) is None,
        },
{
    let ghost fv = file_views(fds@);
    let mut i: usize = 0;
    assert(fv.skip(0) == fv);
    while i < fds.len()
        invariant
            i <= fds.len(),
            fv == file_views(fds@),
            forall|j: int| 0 <= j < i ==> fv[j].path != path@,
            first_with_path(fv, path@) == match first_with_path(fv.skip(i as int), path@) {
                Some(k) => Some(k + i),
                None => None,
            },
        decreases fds.len() - i,
    {
        assert(fv.skip(i as int)[0] == fds@[i as int]@);
        assert(fv.skip(i as int).drop_first() == fv.skip(i + 1));
        if crate::text::str_eq(fds[i].path.as_str(), path.as_str()) {
            return Some(i);
        }
        i += 1;
    }
    assert(fv.skip(fds.len() as int) =~= Seq::<FileDiffView>::empty());
    None
}

/// Gives the first entry with this path a new status.
fn set_status_exec(fds: &mut Vec<FileDiff>, path: &String, st: FileStatus)
    ensures
        file_views(final(fds)@) == set_status(file_views(old(fds)@), path@, st@),
{
    match find_path(fds, path) {
        Some(i) => {
            let ghost before = file_views(fds@);
            let mut fd = fds.remove(i);
            fd.status = st;
            fds.insert(i, fd);
            assert(file_views(fds@) =~= before.update(i as int, FileDiffView { status: st@, ..before[i as int] }));
        },
        None => {},
    }
}

/// Heuristic split detection: a source file (deleted or heavily shrunk)
/// whose symbol names appear significantly in added target files becomes a
/// split into those targets, and each target records the source.
///
/// `source_symbols` holds the source files' symbols at base and
/// `target_symbols` the target files' symbols at head.
pub fn detect_splits(file_diffs: &mut Vec<FileDiff>, source_symbols: &SymbolMap, target_symbols: &SymbolMap)
    ensures
        file_views(final(file_diffs)@) == spec_detect_splits(file_views(old(file_diffs)@), source_symbols@, target_symbols@),
{
    let ghost start = file_views(file_diffs@);
    let ns = source_symbols.len();
    let nt = target_symbols.len();
    let mut i: usize = 0;
    assert(source_symbols@.take(0) =~= Seq::<FileSymbolsView>::empty());
    while i < ns
        invariant
            i <= ns,
            ns == source_symbols@.len(),
            nt == target_symbols@.len(),
            file_views(file_diffs@) == spec_detect_splits(start, source_symbols@.take(i as int), target_symbols@),
        decreases ns - i,
    {
        let (src_path, src_syms) = source_symbols.entry(i);
        let names = distinct_names(src_syms);
        proof {
            char_views(names@).unique_seq_to_set();
        }
        let n = names.len();
        let mut tgts: Vec<String> = Vec::new();
        let mut j: usize = 0;
        assert(target_symbols@.take(0) =~= Seq::<FileSymbolsView>::empty());
        assert(string_views(tgts@) =~= Seq::<Seq<char>>::empty());
        while j < nt
            invariant
                j <= nt,
                nt == target_symbols@.len(),
                n == names_set(symbol_views(src_syms@)).len(),
                char_views(names@).no_duplicates(),
                char_views(names@).to_set() == names_set(symbol_views(src_syms@)),
                string_views(tgts@) == split_targets(symbol_views(src_syms@), target_symbols@.take(j as int)),
            decreases nt - j,
        {
            let (tgt_path, tgt_syms) = target_symbols.entry(j);
            let ov = overlap_count(&names, tgt_syms);
            proof {
                vstd::set_lib::lemma_len_intersect(char_views(names@).to_set(), names_set(symbol_views(tgt_syms@)));
                assert(target_symbols@.take(j + 1).drop_last() == target_symbols@.take(j as int));
                assert(target_symbols@.take(j + 1).last() == target_symbols@[j as int]);
            }
            if is_significant(ov, n) {
                let ghost before = string_views(tgts@);
                tgts.push(tgt_path.clone());
                assert(string_views(tgts@) =~= before.push(tgt_path@));
            }
            j += 1;
        }
        assert(target_symbols@.take(nt as int) == target_symbols@);
        proof {
            assert(source_symbols@.take(i + 1).drop_last() == source_symbols@.take(i as int));
            assert(source_symbols@.take(i + 1).last() == source_symbols@[i as int]);
        }
        if tgts.len() > 0 {
            let split = FileStatus::Split { targets: clone_strings(&tgts) };
            set_status_exec(file_diffs, src_path, split);
            let ghost marked = file_views(file_diffs@);
            let mut k: usize = 0;
            assert(string_views(tgts@).take(0) =~= Seq::<Seq<char>>::empty());
            while k < tgts.len()
                invariant
                    k <= tgts.len(),
                    file_views(file_diffs@) == mark_targets(marked, string_views(tgts@).take(k as int), src_path@),
                decreases tgts.len() - k,
            {
                let st = FileStatus::Added { source: Some(src_path.clone()) };
                set_status_exec(file_diffs, &tgts[k], st);
                assert(string_views(tgts@).take(k + 1).drop_last() == string_views(tgts@).take(k as int));
                assert(string_views(tgts@).take(k + 1).last() == tgts@[k as int]@);
                k += 1;
            }
            assert(string_views(tgts@).take(tgts.len() as int) == string_views(tgts@));
        }
        i += 1;
    }
    assert(source_symbols@.take(ns as int) == source_symbols@);
}

} // verus!

verus! {

/// The groups whose language server is available, in order.
pub open spec fn available_only(g: Seq<(Lang, Seq<usize>)>, avail: Seq<bool>) -> Seq<(Lang, Seq<usize>)>
    decreases g.len(),
{
    if g.len() == 0 {
        seq![]
    } else {
        let prev = available_only(g.drop_last(), avail);
        if avail[g.len() - 1] { prev.push(g.last()) } else { prev }
    }
}

fn copy_indices(v: &Vec<usize>) -> (r: Vec<usize>)
    ensures
        r@ == v@,
{
    let mut out: Vec<usize> = Vec::new();
    let mut i: usize = 0;
    while i < v.len()
        invariant
            i <= v.len(),
            out@ == v@.take(i as int),
        decreases v.len() - i,
    {
        out.push(v[i]);
        assert(out@ =~= v@.take(i + 1));
        i += 1;
    }
    assert(v@.take(v.len() as int) == v@);
    out
}

/// Keeps the groups whose language server is on the machine;
/// `available[i]` tells whether group `i`'s program was found.
pub fn available_groups(groups: &Vec<(Lang, Vec<usize>)>, available: &[bool]) -> (r: Vec<(Lang, Vec<usize>)>)
    requires
        available.len() == groups.len(),
    ensures
        group_views(r@) == available_only(group_views(groups@), available@),
{
    let ghost gv = group_views(groups@);
    let mut out: Vec<(Lang, Vec<usize>)> = Vec::new();
    let mut i: usize = 0;
    assert(gv.take(0) =~= Seq::<(Lang, Seq<usize>)>::empty());
    assert(group_views(out@) =~= Seq::<(Lang, Seq<usize>)>::empty());
    while i < groups.len()
        invariant
            i <= groups.len(),
            available.len() == groups.len(),
            gv == group_views(groups@),
            group_views(out@) == available_only(gv.take(i as int), available@),
        decreases groups.len() - i,
    {
        assert(gv.take(i + 1).drop_last() == gv.take(i as int));
        assert(gv.take(i + 1).last() == (groups@[i as int].0, groups@[i as int].1@));
        if available[i] {
            let ix = copy_indices(&groups[i].1);
            let ghost before = group_views(out@);
            out.push((groups[i].0, ix));
            assert(group_views(out@) =~= before.push((groups@[i as int].0, groups@[i as int].1@)));
        }
        i += 1;
    }
    assert(gv.take(groups.len() as int) == gv);
    out
}

/// A file the language server answered for: marked confirmed, with its
/// symbols, if computed, confirmed against the server's symbols.
pub open spec fn confirmed_file(fd: FileDiffView, lsp: Seq<LspSymbolView>) -> FileDiffView {
    FileDiffView {
        confirmed: true,
        symbols: match fd.symbols {
            Some(s) => Some(s.map_values(|d: DiffedView| confirmed_entry(lsp, d))),
            None => None,
        },
        ..fd
    }
}

/// Records the language server's answer for a file.
pub fn confirm_file(fd: &mut FileDiff, lsp_syms: &Vec<LspSymbol>)
    ensures
        final(fd)@ == confirmed_file(old(fd)@, lsp_views(lsp_syms@)),
{
    fd.confirmed = true;
    let mut syms: Option<Vec<DiffedSymbol>> = None;
    std::mem::swap(&mut syms, &mut fd.symbols);
    match syms {
        Some(mut s) => {
            apply_lsp_confirmation(lsp_syms.as_slice(), &mut s);
            fd.symbols = Some(s);
        },
        None => {},
    }
}

/// Positions of the files whose symbols are computed, in order.
pub open spec fn expand_positions(fds: Seq<FileDiffView>, expand: bool, depth_symbols: bool, threshold: usize) -> Seq<usize>
    decreases fds.len(),
{
    if fds.len() == 0 {
        seq![]
    } else {
        let prev = expand_positions(fds.drop_last(), expand, depth_symbols, threshold);
        if spec_needs_expand(fds.last(), expand, depth_symbols, threshold) {
            prev.push((fds.len() - 1) as usize)
        } else {
            prev
        }
    }
}

/// Positions of the files whose symbols are computed.
pub fn expand_indices(file_diffs: &[FileDiff], expand: bool, depth_symbols: bool, threshold: usize) -> (r: Vec<usize>)
    ensures
        r@ == expand_positions(file_views(file_diffs@), expand, depth_symbols, threshold),
{
    let ghost fv = file_views(file_diffs@);
    let mut out: Vec<usize> = Vec::new();
    let mut i: usize = 0;
    assert(fv.take(0) =~= Seq::<FileDiffView>::empty());
    while i < file_diffs.len()
        invariant
            i <= file_diffs.len(),
            fv == file_views(file_diffs@),
            out@ == expand_positions(fv.take(i as int), expand, depth_symbols, threshold),
        decreases file_diffs.len() - i,
    {
        assert(fv.take(i + 1).drop_last() == fv.take(i as int));
        assert(fv.take(i + 1).last() == file_diffs@[i as int]@);
        if needs_expand(&file_diffs[i], expand, depth_symbols, threshold) {
            out.push(i);
        }
        i += 1;
    }
    assert(fv.take(file_diffs.len() as int) == fv);
    out
}

/// The language of the one file whose symbols are confirmed, or why there
/// is none.
pub open spec fn spec_single_file_language(path: Seq<char>) -> Result<Lang, Seq<char>> {
    match extension(path) {
        None => Err("no file extension"@),
        Some(e) => match spec_for_extension(e) {
            None => Err("unsupported extension"@),
            Some(l) => Ok(l),
        },
    }
}

/// The language of a file to confirm, or the error naming why not.
pub fn single_file_language(path: &str) -> (r: Result<Lang, String>)
    ensures
        match r {
            Ok(l) => spec_single_file_language(path@) == Ok::<Lang, Seq<char>>(l),
            Err(m) => spec_single_file_language(path@) == Err::<Lang, Seq<char>>(m@),
        },
{
    let p = chars_of(path);
    match extension_of(p.as_slice()) {
        None => {
            let mut m = String::new();
            crate::text::push_str(&mut m, "no file extension");
            Err(m)
        },
        Some(e) => match for_extension_chars(e.as_slice()) {
            None => {
                let mut m = String::new();
                crate::text::push_str(&mut m, "unsupported extension");
                Err(m)
            },
            Some(l) => Ok(l),
        },
    }
}

} // verus!

verus! {

/// With expansion off, no file's symbols are computed, whatever the other
/// settings.
pub proof fn law_expand_off_never_expands(fd: FileDiffView, depth_symbols: bool, threshold: usize)
    ensures
        !spec_needs_expand(fd, false, depth_symbols, threshold),
{
}

/// With expansion on, `depth_symbols` expands every file, and a split
/// file expands whatever the threshold.
pub proof fn law_depth_and_splits_expand(fd: FileDiffView, threshold: usize)
    ensures
        spec_needs_expand(fd, true, true, threshold),
        fd.status is Split ==> spec_needs_expand(fd, true, false, threshold),
{
}

} // verus!

verus! {

/// The same files in the same order, differing at most in status.
pub open spec fn same_but_status(a: Seq<FileDiffView>, b: Seq<FileDiffView>) -> bool {
    &&& a.len() == b.len()
    &&& forall|i: int| 0 <= i < a.len() ==> {
        &&& #[trigger] a[i].path == b[i].path
        &&& a[i].added == b[i].added
        &&& a[i].removed == b[i].removed
        &&& a[i].symbols == b[i].symbols
        &&& a[i].confirmed == b[i].confirmed
    }
}

proof fn lemma_first_with_path_bound(fds: Seq<FileDiffView>, path: Seq<char>)
    ensures
        first_with_path(fds, path) matches Some(i) ==> 0 <= i < fds.len(),
    decreases fds.len(),
{
    if fds.len() > 0 && fds[0].path != path {
        lemma_first_with_path_bound(fds.drop_first(), path);
    }
}

proof fn lemma_set_status_keeps(fds: Seq<FileDiffView>, path: Seq<char>, st: FileStatusView)
    ensures
        same_but_status(fds, set_status(fds, path, st)),
{
    lemma_first_with_path_bound(fds, path);
}

proof fn lemma_same_trans(a: Seq<FileDiffView>, b: Seq<FileDiffView>, c: Seq<FileDiffView>)
    requires
        same_but_status(a, b),
        same_but_status(b, c),
    ensures
        same_but_status(a, c),
{
    assert forall|i: int| 0 <= i < a.len() implies {
        &&& #[trigger] a[i].path == c[i].path
        &&& a[i].added == c[i].added
        &&& a[i].removed == c[i].removed
        &&& a[i].symbols == c[i].symbols
        &&& a[i].confirmed == c[i].confirmed
    } by {
        assert(a[i].path == b[i].path);
        assert(b[i].path == c[i].path);
    }
}

proof fn lemma_mark_targets_keeps(fds: Seq<FileDiffView>, tgts: Seq<Seq<char>>, src: Seq<char>)
    ensures
        same_but_status(fds, mark_targets(fds, tgts, src)),
    decreases tgts.len(),
{
    if tgts.len() == 0 {
        assert(same_but_status(fds, fds));
    } else {
        let mid = mark_targets(fds, tgts.drop_last(), src);
        lemma_mark_targets_keeps(fds, tgts.drop_last(), src);
        lemma_set_status_keeps(mid, tgts.last(), FileStatusView::Added { source: Some(src) });
        lemma_same_trans(fds, mid, mark_targets(fds, tgts, src));
    }
}

/// Split detection only relabels files: the same files stay in the same
/// order with the same paths, line counts, symbols and confirmation.
pub proof fn law_split_detection_only_relabels(fds: Seq<FileDiffView>, sources: Seq<FileSymbolsView>, targets: Seq<FileSymbolsView>)
    ensures
        same_but_status(fds, spec_detect_splits(fds, sources, targets)),
    decreases sources.len(),
{
    if sources.len() == 0 {
        assert(same_but_status(fds, fds));
    } else {
        let prev = spec_detect_splits(fds, sources.drop_last(), targets);
        law_split_detection_only_relabels(fds, sources.drop_last(), targets);
        let src = sources.last().0;
        let tgts = split_targets(sources.last().1, targets);
        if tgts.len() > 0 {
            let a = set_status(prev, src, FileStatusView::Split { targets: tgts });
            lemma_set_status_keeps(prev, src, FileStatusView::Split { targets: tgts });
            lemma_mark_targets_keeps(a, tgts, src);
            lemma_same_trans(prev, a, mark_targets(a, tgts, src));
            lemma_same_trans(fds, prev, spec_detect_splits(fds, sources, targets));
        } else {
            assert(spec_detect_splits(fds, sources, targets) == prev);
        }
    }
}

} // verus!

verus! {

/// Line totals agree on files that differ at most in status.
proof fn lemma_sums_ignore_status(a: Seq<FileDiffView>, b: Seq<FileDiffView>)
    requires
        same_but_status(a, b),
    ensures
        sum_added(a) == sum_added(b),
        sum_removed(a) == sum_removed(b),
    decreases a.len(),
{
    if a.len() > 0 {
        let (x, y) = (a.drop_last(), b.drop_last());
        assert(same_but_status(x, y)) by {
            assert forall|i: int| 0 <= i < x.len() implies #[trigger] x[i].path == y[i].path && x[i].added == y[i].added
                && x[i].removed == y[i].removed && x[i].symbols == y[i].symbols && x[i].confirmed == y[i].confirmed by {
                assert(x[i] == a[i] && y[i] == b[i]);
                assert(a[i].path == b[i].path);
            }
        }
        lemma_sums_ignore_status(x, y);
        assert(a.last().path == b.last().path);
    }
}

/// The file entries of a run before symbols: git's change records
/// classified, then relabelled by split detection.
pub open spec fn run_files(stats: Seq<FileStatView>, sources: Seq<FileSymbolsView>, targets: Seq<FileSymbolsView>) -> Seq<FileDiffView> {
    spec_detect_splits(stats.map_values(|s: FileStatView| classified(s)), sources, targets)
}

/// Over a run, the files reported are git's change records, one per record
/// and in order, each with its path and line counts whatever split
/// detection decided, so the summary's totals are the sums of git's counts.
pub proof fn law_run_keeps_git_counts(stats: Seq<FileStatView>, sources: Seq<FileSymbolsView>, targets: Seq<FileSymbolsView>)
    ensures
        run_files(stats, sources, targets).len() == stats.len(),
        forall|i: int| 0 <= i < stats.len() ==> {
            &&& (#[trigger] run_files(stats, sources, targets)[i]).path == stats[i].path
            &&& run_files(stats, sources, targets)[i].added == stats[i].added
            &&& run_files(stats, sources, targets)[i].removed == stats[i].removed
        },
        sum_added(run_files(stats, sources, targets)) == sum_added(stats.map_values(|s: FileStatView| classified(s))),
        sum_removed(run_files(stats, sources, targets)) == sum_removed(stats.map_values(|s: FileStatView| classified(s))),
{
    let c = stats.map_values(|s: FileStatView| classified(s));
    let d = spec_detect_splits(c, sources, targets);
    law_split_detection_only_relabels(c, sources, targets);
    assert forall|i: int| 0 <= i < stats.len() implies {
        &&& (#[trigger] d[i]).path == stats[i].path
        &&& d[i].added == stats[i].added
        &&& d[i].removed == stats[i].removed
    } by {
        assert(c[i] == classified(stats[i]));
        assert(c[i].path == d[i].path);
    }
    lemma_sums_ignore_status(c, d);
}

} // verus!

verus! {

/// The files of a run after expansion: each file that needs expanding, in
/// order, receives the next list of computed symbols; the others are left
/// as they are.
pub open spec fn spec_attach(fds: Seq<FileDiffView>, syms: Seq<Seq<DiffedView>>, expand: bool, depth_symbols: bool, threshold: usize) -> Seq<FileDiffView>
    decreases fds.len(),
{
    if fds.len() == 0 {
        seq![]
    } else {
        let prev = spec_attach(fds.drop_last(), syms, expand, depth_symbols, threshold);
        let f = fds.last();
        prev.push(if spec_needs_expand(f, expand, depth_symbols, threshold) {
            FileDiffView { symbols: Some(syms[expand_positions(fds.drop_last(), expand, depth_symbols, threshold).len() as int]), ..f }
        } else {
            f
        })
    }
}

pub open spec fn symbol_lists(v: Seq<Vec<DiffedSymbol>>) -> Seq<Seq<DiffedView>> {
    v.map_values(|s: Vec<DiffedSymbol>| diffed_views(s@))
}

proof fn lemma_attach_len(fds: Seq<FileDiffView>, syms: Seq<Seq<DiffedView>>, expand: bool, depth_symbols: bool, threshold: usize)
    ensures
        spec_attach(fds, syms, expand, depth_symbols, threshold).len() == fds.len(),
    decreases fds.len(),
{
    if fds.len() > 0 {
        lemma_attach_len(fds.drop_last(), syms, expand, depth_symbols, threshold);
    }
}

proof fn lemma_positions_prefix(fds: Seq<FileDiffView>, i: int, expand: bool, depth_symbols: bool, threshold: usize)
    requires
        0 <= i <= fds.len(),
    ensures
        expand_positions(fds.take(i), expand, depth_symbols, threshold).len()
            <= expand_positions(fds, expand, depth_symbols, threshold).len(),
    decreases fds.len() - i,
{
    if i < fds.len() {
        lemma_positions_prefix(fds.drop_last(), i, expand, depth_symbols, threshold);
        assert(fds.drop_last().take(i) == fds.take(i));
    } else {
        assert(fds.take(i) == fds);
    }
}

proof fn lemma_take_first_list(rb: Seq<Vec<DiffedSymbol>>, sv: Seq<Seq<DiffedView>>, k: int)
    requires
        0 <= k < sv.len(),
        symbol_lists(rb) == sv.skip(k),
    ensures
        rb.len() > 0,
        diffed_views(rb[0]@) == sv[k],
        symbol_lists(rb.subrange(1, rb.len() as int)) == sv.skip(k + 1),
{
    assert(symbol_lists(rb).len() == rb.len());
    assert(sv.skip(k).len() == sv.len() - k);
    assert(symbol_lists(rb)[0] == sv.skip(k)[0]);
    assert(symbol_lists(rb.subrange(1, rb.len() as int)) =~= sv.skip(k + 1)) by {
        assert forall|j: int| 0 <= j < rb.len() - 1 implies #[trigger] symbol_lists(rb.subrange(1, rb.len() as int))[j] == sv.skip(k + 1)[j] by {
            assert(rb.subrange(1, rb.len() as int)[j] == rb[j + 1]);
            assert(symbol_lists(rb)[j + 1] == sv.skip(k)[j + 1]);
            assert(sv.skip(k)[j + 1] == sv[k + 1 + j]);
        }
    }
}

/// Gives each file that needs expanding, in order, the next list of
/// computed symbols.
pub fn attach_symbols(files: &mut Vec<FileDiff>, computed: Vec<Vec<DiffedSymbol>>, expand: bool, depth_symbols: bool, threshold: usize)
    requires
        computed@.len() == expand_positions(file_views(old(files)@), expand, depth_symbols, threshold).len(),
    ensures
        file_views(final(files)@) == spec_attach(file_views(old(files)@), symbol_lists(computed@), expand, depth_symbols, threshold),
{
    let ghost fv = file_views(files@);
    let ghost sv = symbol_lists(computed@);
    let mut rest = computed;
    let mut i: usize = 0;
    assert(fv.take(0) =~= Seq::<FileDiffView>::empty());
    assert(file_views(files@) =~= spec_attach(fv.take(0), sv, expand, depth_symbols, threshold) + fv.skip(0));
    assert(symbol_lists(rest@) =~= sv.skip(0));
    while i < files.len()
        invariant
            i <= files@.len() == fv.len(),
            sv.len() == expand_positions(fv, expand, depth_symbols, threshold).len(),
            file_views(files@) == spec_attach(fv.take(i as int), sv, expand, depth_symbols, threshold) + fv.skip(i as int),
            symbol_lists(rest@) == sv.skip(expand_positions(fv.take(i as int), expand, depth_symbols, threshold).len() as int),
            expand_positions(fv.take(i as int), expand, depth_symbols, threshold).len() <= sv.len(),
        decreases files.len() - i,
    {
        let ghost k = expand_positions(fv.take(i as int), expand, depth_symbols, threshold).len();
        proof {
            lemma_attach_len(fv.take(i as int), sv, expand, depth_symbols, threshold);
            assert(fv.take(i + 1).drop_last() == fv.take(i as int));
            assert(fv.take(i + 1).last() == fv[i as int]);
            assert(file_views(files@)[i as int] == fv[i as int]);
            assert(files@[i as int]@ == fv[i as int]);
            lemma_positions_prefix(fv, i + 1, expand, depth_symbols, threshold);
        }
        let ghost before = file_views(files@);
        if needs_expand(&files[i], expand, depth_symbols, threshold) {
            assert(expand_positions(fv.take(i + 1), expand, depth_symbols, threshold).len() == k + 1);
            assert(symbol_lists(rest@).len() > 0);
            let ghost rest_before = rest@;
            let s = rest.remove(0);
            proof {
                lemma_take_first_list(rest_before, sv, k as int);
            }
            let mut fd = files.remove(i);
            fd.symbols = Some(s);
            files.insert(i, fd);
            proof {
                assert(file_views(files@) =~= before.update(i as int, fd@));
                assert(file_views(files@) =~= spec_attach(fv.take(i + 1), sv, expand, depth_symbols, threshold) + fv.skip(i + 1));
            }
        } else {
            proof {
                assert(expand_positions(fv.take(i + 1), expand, depth_symbols, threshold) == expand_positions(fv.take(i as int), expand, depth_symbols, threshold));
                assert(file_views(files@) =~= spec_attach(fv.take(i + 1), sv, expand, depth_symbols, threshold) + fv.skip(i + 1));
            }
        }
        i += 1;
    }
    proof {
        assert(fv.take(fv.len() as int) == fv);
        lemma_attach_len(fv, sv, expand, depth_symbols, threshold);
        assert(file_views(files@) =~= spec_attach(fv, sv, expand, depth_symbols, threshold));
    }
}

} // verus!

verus! {

proof fn lemma_attach_exact(fds: Seq<FileDiffView>, syms: Seq<Seq<DiffedView>>, expand: bool, depth_symbols: bool, threshold: usize)
    requires
        forall|i: int| 0 <= i < fds.len() ==> (#[trigger] fds[i]).symbols is None,
    ensures
        spec_attach(fds, syms, expand, depth_symbols, threshold).len() == fds.len(),
        forall|i: int| 0 <= i < fds.len() ==> {
            let a = #[trigger] spec_attach(fds, syms, expand, depth_symbols, threshold)[i];
            &&& a.status == fds[i].status
            &&& a.path == fds[i].path
            &&& a.added == fds[i].added
            &&& a.removed == fds[i].removed
            &&& (a.symbols is Some <==> spec_needs_expand(fds[i], expand, depth_symbols, threshold))
        },
    decreases fds.len(),
{
    lemma_attach_len(fds, syms, expand, depth_symbols, threshold);
    if fds.len() > 0 {
        let p = fds.drop_last();
        assert forall|i: int| 0 <= i < p.len() implies (#[trigger] p[i]).symbols is None by {
            assert(p[i] == fds[i]);
        }
        lemma_attach_exact(p, syms, expand, depth_symbols, threshold);
        let all = spec_attach(fds, syms, expand, depth_symbols, threshold);
        let prev = spec_attach(p, syms, expand, depth_symbols, threshold);
        assert forall|i: int| 0 <= i < fds.len() implies {
            let a = #[trigger] all[i];
            &&& a.status == fds[i].status
            &&& a.path == fds[i].path
            &&& a.added == fds[i].added
            &&& a.removed == fds[i].removed
            &&& (a.symbols is Some <==> spec_needs_expand(fds[i], expand, depth_symbols, threshold))
        } by {
            if i < p.len() {
                assert(all[i] == prev[i]);
                assert(p[i] == fds[i]);
            } else {
                assert(fds[i] == fds.last());
            }
        }
    }
}

/// In a run the files that carry symbols are exactly those that need
/// expanding: git's change records are classified without symbols, split
/// detection only relabels them, each file that needs expanding then
/// receives its computed symbols, and confirmation keeps whether a file
/// has symbols.
pub proof fn law_run_expands_exactly(
    stats: Seq<FileStatView>,
    sources: Seq<FileSymbolsView>,
    targets: Seq<FileSymbolsView>,
    syms: Seq<Seq<DiffedView>>,
    expand: bool,
    depth_symbols: bool,
    threshold: usize,
)
    ensures
        spec_attach(run_files(stats, sources, targets), syms, expand, depth_symbols, threshold).len() == stats.len(),
        forall|i: int| 0 <= i < stats.len() ==> {
            let f = #[trigger] spec_attach(run_files(stats, sources, targets), syms, expand, depth_symbols, threshold)[i];
            &&& f.path == stats[i].path
            &&& f.added == stats[i].added
            &&& f.removed == stats[i].removed
            &&& (f.symbols is Some <==> spec_needs_expand(f, expand, depth_symbols, threshold))
            &&& forall|lsp: Seq<LspSymbolView>| (#[trigger] confirmed_file(f, lsp)).symbols is Some <==> f.symbols is Some
        },
{
    let c = stats.map_values(|s: FileStatView| classified(s));
    let fs = run_files(stats, sources, targets);
    law_run_keeps_git_counts(stats, sources, targets);
    law_split_detection_only_relabels(c, sources, targets);
    assert forall|i: int| 0 <= i < fs.len() implies (#[trigger] fs[i]).symbols is None by {
        assert(c[i] == classified(stats[i]));
        assert(fs == spec_detect_splits(c, sources, targets));
        assert(c[i].path == fs[i].path);
        assert(c[i].symbols == fs[i].symbols);
    }
    lemma_attach_exact(fs, syms, expand, depth_symbols, threshold);
    let a = spec_attach(fs, syms, expand, depth_symbols, threshold);
    assert forall|i: int| 0 <= i < stats.len() implies {
        let f = #[trigger] a[i];
        &&& f.path == stats[i].path
        &&& f.added == stats[i].added
        &&& f.removed == stats[i].removed
        &&& (f.symbols is Some <==> spec_needs_expand(f, expand, depth_symbols, threshold))
        &&& forall|lsp: Seq<LspSymbolView>| (#[trigger] confirmed_file(f, lsp)).symbols is Some <==> f.symbols is Some
    } by {
        assert(fs[i].path == stats[i].path);
    }
}

} // verus!

verus! {

/// Two distinct names in a finite set make it hold at least two.
proof fn lemma_two_members(s: Set<Seq<char>>, a: Seq<char>, b: Seq<char>)
    requires
        s.finite(),
        s.contains(a),
        s.contains(b),
        a != b,
    ensures
        s.len() >= 2,
{
    let r = s.remove(a);
    assert(r.contains(b));
    assert(r.len() == s.len() - 1);
    if r.len() == 0 {
        assert(r =~= Set::<Seq<char>>::empty());
    }
}

/// A target sharing at least two distinct symbol names with a source is a
/// split target of it, whatever the source's size.
pub proof fn law_two_shared_names_make_a_split(src: Seq<SymbolView>, targets: Seq<FileSymbolsView>, j: int, a: Seq<char>, b: Seq<char>)
    requires
        0 <= j < targets.len(),
        a != b,
        exists|x: int| 0 <= x < src.len() && #[trigger] src[x].name == a,
        exists|x: int| 0 <= x < src.len() && #[trigger] src[x].name == b,
        exists|y: int| 0 <= y < targets[j].1.len() && #[trigger] targets[j].1[y].name == a,
        exists|y: int| 0 <= y < targets[j].1.len() && #[trigger] targets[j].1[y].name == b,
    ensures
        split_targets(src, targets).contains(targets[j].0),
    decreases targets.len(),
{
    let t = targets[j].1;
    let xa = choose|x: int| 0 <= x < src.len() && #[trigger] src[x].name == a;
    let xb = choose|x: int| 0 <= x < src.len() && #[trigger] src[x].name == b;
    let ya = choose|y: int| 0 <= y < t.len() && #[trigger] t[y].name == a;
    let yb = choose|y: int| 0 <= y < t.len() && #[trigger] t[y].name == b;
    let sn = src.map_values(|s: SymbolView| s.name);
    let tn = t.map_values(|s: SymbolView| s.name);
    assert(sn[xa] == a && sn[xb] == b);
    assert(tn[ya] == a && tn[yb] == b);
    assert(names_set(src).contains(a) && names_set(src).contains(b));
    assert(names_set(t).contains(a) && names_set(t).contains(b));
    let both = names_set(src).intersect(names_set(t));
    assert(both.contains(a) && both.contains(b));
    lemma_two_members(both, a, b);
    assert(overlap(src, t) >= 2);
    let last = targets.len() - 1;
    if j == last {
        assert(split_targets(src, targets) == split_targets(src, targets.drop_last()).push(targets[j].0));
        assert(split_targets(src, targets)[split_targets(src, targets).len() - 1] == targets[j].0);
    } else {
        assert(targets.drop_last()[j] == targets[j]);
        law_two_shared_names_make_a_split(src, targets.drop_last(), j, a, b);
        let prev = split_targets(src, targets.drop_last());
        let k = choose|k: int| 0 <= k < prev.len() && prev[k] == targets[j].0;
        if significant(overlap(src, targets.last().1), names_set(src).len()) {
            assert(split_targets(src, targets) == prev.push(targets.last().0));
            assert(split_targets(src, targets)[k] == targets[j].0);
        } else {
            assert(split_targets(src, targets) == prev);
        }
    }
}

} // verus!

verus! {

/// A single shared name is enough only for a source of at most three
/// names (more than 30% of them); with none shared there is no split.
pub proof fn law_one_shared_name(n: nat)
    requires
        n >= 1,
    ensures
        significant(1, n) <==> n <= 3,
        !significant(0, n),
{
    if n <= 3 {
        assert(100int / (n as int) >= 33) by (nonlinear_arith)
            requires 1 <= n <= 3;
    } else {
        assert(100int / (n as int) <= 25) by (nonlinear_arith)
            requires n >= 4;
    }
}

} // verus!
