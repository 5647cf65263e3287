//! Compact text rendering for the three output layers, the PR envelope and
//! the per-commit log line.

use vstd::prelude::*;
use crate::diff::{DiffedSymbol, DiffedView, StatusView, SymbolStatus};
use crate::languages::SymbolKind;
use crate::pipeline::{file_views, DiffResult, DiffSummary, FileDiff, FileDiffView, FileStatus, FileStatusView};
use crate::text::{
    chars_of, decimal, first_index_of, join_strings, join_with, lines, pad_right, push_chars, push_decimal, push_decimal_wide,
    push_padded, push_str, split_lines, string_views, trim, trim_chars,
};

verus! {

/// Two-letter sigil of a symbol kind.
pub open spec fn spec_kind_sigil(kind: SymbolKind) -> Seq<char> {
    match kind {
        SymbolKind::Fn => "fn"@,
        SymbolKind::Ty => "ty"@,
        SymbolKind::If => "if"@,
        SymbolKind::En => "en"@,
        SymbolKind::Co => "co"@,
        SymbolKind::Mo => "mo"@,
        SymbolKind::Im => "im"@,
        SymbolKind::Ma => "ma"@,
    }
}

pub fn kind_sigil(kind: SymbolKind) -> (r: &'static str)
    ensures
        r@ == spec_kind_sigil(kind),
{
    match kind {
        SymbolKind::Fn => "fn",
        SymbolKind::Ty => "ty",
        SymbolKind::If => "if",
        SymbolKind::En => "en",
        SymbolKind::Co => "co",
        SymbolKind::Mo => "mo",
        SymbolKind::Im => "im",
        SymbolKind::Ma => "ma",
    }
}

/// Status notation: `+` added, `-` removed, `*` modified, `→ f` moved to f,
/// `*→ f` moved and modified, `~ n` renamed to n, `*~ n` renamed and
/// modified, `*→ f ~ n` moved, renamed and modified; nothing when unchanged.
pub open spec fn spec_status_text(st: StatusView) -> Seq<char> {
    match st {
        StatusView::Added => "+"@,
        StatusView::Removed => "-"@,
        StatusView::Modified => "*"@,
        StatusView::Moved { to_file } => "→ "@ + to_file,
        StatusView::MovedModified { to_file } => "*→ "@ + to_file,
        StatusView::Renamed { new_name } => "~ "@ + new_name,
        StatusView::RenamedModified { new_name } => "*~ "@ + new_name,
        StatusView::MovedRenamedModified { to_file, new_name } => "*→ "@ + to_file + " ~ "@ + new_name,
        StatusView::Unchanged => seq![],
    }
}

pub fn render_symbol_status(status: &SymbolStatus) -> (r: String)
    ensures
        r@ == spec_status_text(status@),
{
    let mut out = String::new();
    match status {
        SymbolStatus::Added => push_str(&mut out, "+"),
        SymbolStatus::Removed => push_str(&mut out, "-"),
        SymbolStatus::Modified => push_str(&mut out, "*"),
        SymbolStatus::Moved { to_file } => {
            push_str(&mut out, "→ ");
            push_str(&mut out, to_file.as_str());
        },
        SymbolStatus::MovedModified { to_file } => {
            push_str(&mut out, "*→ ");
            push_str(&mut out, to_file.as_str());
        },
        SymbolStatus::Renamed { new_name } => {
            push_str(&mut out, "~ ");
            push_str(&mut out, new_name.as_str());
        },
        SymbolStatus::RenamedModified { new_name } => {
            push_str(&mut out, "*~ ");
            push_str(&mut out, new_name.as_str());
        },
        SymbolStatus::MovedRenamedModified { to_file, new_name } => {
            push_str(&mut out, "*→ ");
            push_str(&mut out, to_file.as_str());
            push_str(&mut out, " ~ ");
            push_str(&mut out, new_name.as_str());
        },
        SymbolStatus::Unchanged => {},
    }
    out
}

/// The number of lines a symbol spans, when it spans ten or more:
/// `  N lines`; nothing for shorter symbols.
pub open spec fn spec_line_count(d: DiffedView) -> Seq<char> {
    if d.start_line <= d.end_line && d.end_line - d.start_line + 1 >= 10 {
        "  "@ + decimal((d.end_line - d.start_line + 1) as nat) + " lines"@
    } else {
        seq![]
    }
}

/// A symbol line: two spaces, the kind sigil padded to 2, two spaces, the
/// name padded to 24, a space, the status padded to 28, a space, `!` if
/// confirmed by a language server or `?` if not, then the line count of a
/// symbol of ten or more lines.
pub open spec fn spec_symbol_line(d: DiffedView) -> Seq<char> {
    "  "@ + pad_right(spec_kind_sigil(d.kind), 2) + "  "@ + pad_right(d.name, 24) + " "@
        + pad_right(spec_status_text(d.status), 28) + " "@ + (if d.confirmed { "!"@ } else { "?"@ })
        + spec_line_count(d)
}

pub fn render_symbol_line(sym: &DiffedSymbol) -> (r: String)
    ensures
        r@ == spec_symbol_line(sym@),
{
    let status = render_symbol_status(&sym.status);
    let mut out = String::new();
    push_str(&mut out, "  ");
    let sig = chars_of(kind_sigil(sym.kind));
    push_padded(&mut out, sig.as_slice(), 2);
    push_str(&mut out, "  ");
    let name = chars_of(sym.name.as_str());
    push_padded(&mut out, name.as_slice(), 24);
    push_str(&mut out, " ");
    let st = chars_of(status.as_str());
    push_padded(&mut out, st.as_slice(), 28);
    push_str(&mut out, " ");
    if sym.confirmed {
        push_str(&mut out, "!");
    } else {
        push_str(&mut out, "?");
    }
    if sym.start_line <= sym.end_line && sym.end_line - sym.start_line >= 9 {
        push_str(&mut out, "  ");
        push_decimal_wide(&mut out, (sym.end_line - sym.start_line) as u128 + 1);
        push_str(&mut out, " lines");
    }
    out
}

/// `+added/-removed`.
pub open spec fn spec_delta(added: usize, removed: usize) -> Seq<char> {
    "+"@ + decimal(added as nat) + "/-"@ + decimal(removed as nat)
}

/// Status sigil of a file: M, A, D, S or V.
pub open spec fn spec_file_sigil(st: FileStatusView) -> Seq<char> {
    match st {
        FileStatusView::Modified => "M"@,
        FileStatusView::Added { .. } => "A"@,
        FileStatusView::Deleted { .. } => "D"@,
        FileStatusView::Split { .. } => "S"@,
        FileStatusView::Renamed { .. } => "V"@,
    }
}

/// Path shown for a file: `old→new` for renames, the path otherwise.
pub open spec fn spec_path_display(f: FileDiffView) -> Seq<char> {
    match f.status {
        FileStatusView::Renamed { old_path, new_path } => old_path + "→"@ + new_path,
        _ => f.path,
    }
}

/// Split annotation: `  ←source` for a file split out of another,
/// `  →[t1 t2 …]` for a split (or deleted-and-split) file.
pub open spec fn spec_annotation(st: FileStatusView) -> Seq<char> {
    match st {
        FileStatusView::Added { source } => match source {
            Some(s) => "  ←"@ + s,
            None => seq![],
        },
        FileStatusView::Deleted { targets } => if targets.len() == 0 {
            seq![]
        } else {
            "  →["@ + join_with(targets, " "@) + "]"@
        },
        FileStatusView::Split { targets } => "  →["@ + join_with(targets, " "@) + "]"@,
        _ => seq![],
    }
}

/// A file line: sigil, two spaces, the path padded to 35, a space, the
/// line delta padded to 12, the split annotation, and `  !` when a
/// language server confirmed the file.
pub open spec fn spec_file_line(f: FileDiffView) -> Seq<char> {
    spec_file_sigil(f.status) + "  "@ + pad_right(spec_path_display(f), 35) + " "@
        + pad_right(spec_delta(f.added, f.removed), 12) + spec_annotation(f.status)
        + if f.confirmed { "  !"@ } else { seq![] }
}

fn push_delta(out: &mut String, added: usize, removed: usize)
    ensures
        final(out)@ == old(out)@ + spec_delta(added, removed),
{
    push_str(out, "+");
    push_decimal(out, added as u64);
    push_str(out, "/-");
    push_decimal(out, removed as u64);
}

pub fn render_file_line(file: &FileDiff) -> (r: String)
    ensures
        r@ == spec_file_line(file@),
{
    let mut out = String::new();
    let mut display = String::new();
    let mut annotation = String::new();
    match &file.status {
        FileStatus::Modified => {
            push_str(&mut out, "M");
            push_str(&mut display, file.path.as_str());
        },
        FileStatus::Added { source } => {
            push_str(&mut out, "A");
            push_str(&mut display, file.path.as_str());
            match source {
                Some(s) => {
                    push_str(&mut annotation, "  ←");
                    push_str(&mut annotation, s.as_str());
                },
                None => {},
            }
        },
        FileStatus::Deleted { targets } => {
            push_str(&mut out, "D");
            push_str(&mut display, file.path.as_str());
            if targets.len() > 0 {
                push_str(&mut annotation, "  →[");
                let j = join_strings(targets, " ");
                push_str(&mut annotation, j.as_str());
                push_str(&mut annotation, "]");
            }
        },
        FileStatus::Split { targets } => {
            push_str(&mut out, "S");
            push_str(&mut display, file.path.as_str());
            push_str(&mut annotation, "  →[");
            let j = join_strings(targets, " ");
            push_str(&mut annotation, j.as_str());
            push_str(&mut annotation, "]");
        },
        FileStatus::Renamed { old_path, new_path } => {
            push_str(&mut out, "V");
            push_str(&mut display, old_path.as_str());
            push_str(&mut display, "→");
            push_str(&mut display, new_path.as_str());
        },
    }
    assert(display@ == spec_path_display(file@));
    assert(annotation@ == spec_annotation(file@.status));
    push_str(&mut out, "  ");
    let d = chars_of(display.as_str());
    push_padded(&mut out, d.as_slice(), 35);
    push_str(&mut out, " ");
    let mut delta = String::new();
    push_delta(&mut delta, file.added, file.removed);
    let dc = chars_of(delta.as_str());
    push_padded(&mut out, dc.as_slice(), 12);
    push_str(&mut out, annotation.as_str());
    if file.confirmed {
        push_str(&mut out, "  !");
    }
    out
}

/// Public version for the log command.
pub fn file_line_only(file: &FileDiff) -> (r: String)
    ensures
        r@ == spec_file_line(file@),
{
    render_file_line(file)
}

/// The lines of the symbols that changed, each followed by a newline.
pub open spec fn spec_symbol_block(syms: Seq<DiffedView>) -> Seq<char>
    decreases syms.len(),
{
    if syms.len() == 0 {
        seq![]
    } else {
        spec_symbol_block(syms.drop_last()) + if syms.last().status == StatusView::Unchanged {
            seq![]
        } else {
            spec_symbol_line(syms.last()) + "\n"@
        }
    }
}

fn push_symbol_block(out: &mut String, syms: &[DiffedSymbol])
    ensures
        final(out)@ == old(out)@ + spec_symbol_block(crate::diff::diffed_views(syms@)),
{
    let ghost start = out@;
    let ghost v = crate::diff::diffed_views(syms@);
    let mut i: usize = 0;
    assert(v.take(0) =~= Seq::<DiffedView>::empty());
    while i < syms.len()
        invariant
            i <= syms.len(),
            v == crate::diff::diffed_views(syms@),
            out@ == start + spec_symbol_block(v.take(i as int)),
        decreases syms.len() - i,
    {
        let sym = &syms[i];
        assert(v.take(i + 1).drop_last() == v.take(i as int));
        assert(v.take(i + 1).last() == sym@);
        let unchanged = match &sym.status {
            SymbolStatus::Unchanged => true,
            _ => false,
        };
        assert(unchanged == (sym@.status == StatusView::Unchanged));
        if !unchanged {
            let line = render_symbol_line(sym);
            push_str(out, line.as_str());
            push_str(out, "\n");
        }
        assert(out@ =~= start + spec_symbol_block(v.take(i + 1)));
        i += 1;
    }
    assert(v.take(syms.len() as int) == v);
}

/// A file's block in Layer 1: its line, then its changed symbols if any.
pub open spec fn spec_file_block(f: FileDiffView) -> Seq<char> {
    spec_file_line(f) + "\n"@ + match f.symbols {
        Some(s) => spec_symbol_block(s),
        None => seq![],
    }
}

pub open spec fn spec_files_block(fs: Seq<FileDiffView>) -> Seq<char>
    decreases fs.len(),
{
    if fs.len() == 0 { seq![] } else { spec_files_block(fs.drop_last()) + spec_file_block(fs.last()) }
}

/// Layer 1 header: `repo  base→head  +added/−removed  Nf`.
pub open spec fn spec_header(s: DiffSummary, repo_label: Seq<char>, base: Seq<char>, head: Seq<char>) -> Seq<char> {
    repo_label + "  "@ + base + "→"@ + head + "  +"@ + decimal(s.total_added as nat) + "/−"@
        + decimal(s.total_removed as nat) + "  "@ + decimal(s.file_count as nat) + "f\n"@
}

/// Layer 1: header, blank line, then each file's block.
pub open spec fn spec_layer1(s: DiffSummary, files: Seq<FileDiffView>, repo_label: Seq<char>, base: Seq<char>, head: Seq<char>) -> Seq<char> {
    spec_header(s, repo_label, base, head) + "\n"@ + spec_files_block(files)
}

/// Render Layer 1 overview for a diff.
///
/// `repo_label`: e.g. "owner/repo"  `base`: base ref  `head`: head ref
pub fn layer1(result: &DiffResult, repo_label: &str, base: &str, head: &str) -> (r: String)
    ensures
        r@ == spec_layer1(result.summary, file_views(result.files@), repo_label@, base@, head@),
{
    let mut out = String::new();
    push_str(&mut out, repo_label);
    push_str(&mut out, "  ");
    push_str(&mut out, base);
    push_str(&mut out, "→");
    push_str(&mut out, head);
    push_str(&mut out, "  +");
    push_decimal(&mut out, result.summary.total_added as u64);
    push_str(&mut out, "/−");
    push_decimal(&mut out, result.summary.total_removed as u64);
    push_str(&mut out, "  ");
    push_decimal(&mut out, result.summary.file_count as u64);
    push_str(&mut out, "f\n");
    push_str(&mut out, "\n");
    let ghost start = out@;
    let ghost fv = file_views(result.files@);
    let mut i: usize = 0;
    assert(fv.take(0) =~= Seq::<FileDiffView>::empty());
    while i < result.files.len()
        invariant
            i <= result.files.len(),
            fv == file_views(result.files@),
            out@ == start + spec_files_block(fv.take(i as int)),
        decreases result.files.len() - i,
    {
        let file = &result.files[i];
        assert(fv.take(i + 1).drop_last() == fv.take(i as int));
        assert(fv.take(i + 1).last() == file@);
        let line = render_file_line(file);
        push_str(&mut out, line.as_str());
        push_str(&mut out, "\n");
        match &file.symbols {
            Some(syms) => push_symbol_block(&mut out, syms.as_slice()),
            None => {},
        }
        assert(out@ =~= start + spec_files_block(fv.take(i + 1)));
        i += 1;
    }
    assert(fv.take(result.files.len() as int) == fv);
    out
}

/// Layer 2: `path:` then the changed symbols.
pub open spec fn spec_layer2(file_path: Seq<char>, syms: Seq<DiffedView>) -> Seq<char> {
    file_path + ":\n"@ + spec_symbol_block(syms)
}

/// Render Layer 2 symbol table for a single file.
pub fn layer2(file_path: &str, symbols: &[DiffedSymbol]) -> (r: String)
    ensures
        r@ == spec_layer2(file_path@, crate::diff::diffed_views(symbols@)),
{
    let mut out = String::new();
    push_str(&mut out, file_path);
    push_str(&mut out, ":\n");
    push_symbol_block(&mut out, symbols);
    out
}

/// Layer 3: `--- old  kk name`, `+++ new  kk name`, then the hunk.
pub open spec fn spec_layer3(old_file: Seq<char>, new_file: Seq<char>, symbol: Seq<char>, kind: SymbolKind, hunk: Seq<char>) -> Seq<char> {
    "--- "@ + old_file + "  "@ + spec_kind_sigil(kind) + " "@ + symbol + "\n"@ + "+++ "@ + new_file + "  "@
        + spec_kind_sigil(kind) + " "@ + symbol + "\n"@ + hunk
}

/// Render Layer 3 hunk diff for a single symbol.
pub fn layer3(old_file: &str, new_file: &str, symbol: &str, kind: SymbolKind, hunk: &str) -> (r: String)
    ensures
        r@ == spec_layer3(old_file@, new_file@, symbol@, kind, hunk@),
{
    let kind_str = kind_sigil(kind);
    let mut out = String::new();
    push_str(&mut out, "--- ");
    push_str(&mut out, old_file);
    push_str(&mut out, "  ");
    push_str(&mut out, kind_str);
    push_str(&mut out, " ");
    push_str(&mut out, symbol);
    push_str(&mut out, "\n");
    push_str(&mut out, "+++ ");
    push_str(&mut out, new_file);
    push_str(&mut out, "  ");
    push_str(&mut out, kind_str);
    push_str(&mut out, " ");
    push_str(&mut out, symbol);
    push_str(&mut out, "\n");
    push_str(&mut out, hunk);
    out
}

/// The first line that is not blank, if any.
pub open spec fn first_nonblank(ls: Seq<Seq<char>>) -> Option<Seq<char>>
    decreases ls.len(),
{
    if ls.len() == 0 {
        None
    } else if trim(ls[0]).len() > 0 {
        Some(ls[0])
    } else {
        first_nonblank(ls.drop_first())
    }
}

/// Position of the first line that is not blank.
fn first_nonblank_index(ls: &Vec<Vec<char>>) -> (r: Option<usize>)
    ensures
        match r {
            Some(i) => i < ls.len() && first_nonblank(crate::text::char_views(ls@)) == Some(ls@[i as int]@),
            None => first_nonblank(crate::text::char_views(ls@)) is None,
        },
{
    let ghost lv = crate::text::char_views(ls@);
    let mut i: usize = 0;
    assert(lv.skip(0) == lv);
    while i < ls.len()
        invariant
            i <= ls.len(),
            lv == crate::text::char_views(ls@),
            first_nonblank(lv) == first_nonblank(lv.skip(i as int)),
        decreases ls.len() - i,
    {
        assert(lv.skip(i as int)[0] == ls@[i as int]@);
        assert(lv.skip(i as int).drop_first() == lv.skip(i + 1));
        let t = trim_chars(ls[i].as_slice());
        if t.len() > 0 {
            return Some(i);
        }
        i += 1;
    }
    assert(lv.skip(i as int) =~= Seq::<Seq<char>>::empty());
    None
}

/// PR envelope: `PR#n "title"`, then ` [ci:status]` when known and
/// ` [reviews:n]` when there are reviews; then `> line` with the body's
/// first non-blank line, if any; then `---` and the diff.
pub open spec fn spec_pr_envelope(number: u64, title: Seq<char>, body: Seq<char>, ci_status: Option<Seq<char>>, review_count: usize, diff_output: Seq<char>) -> Seq<char> {
    "PR#"@ + decimal(number as nat) + " \""@ + title + "\""@
        + match ci_status {
            Some(s) => " [ci:"@ + s + "]"@,
            None => seq![],
        }
        + if review_count > 0 { " [reviews:"@ + decimal(review_count as nat) + "]"@ } else { seq![] }
        + "\n"@
        + match first_nonblank(lines(body)) {
            Some(l) => "> "@ + l + "\n"@,
            None => seq![],
        }
        + "---\n"@ + diff_output
}

/// PR envelope around a Layer 1 diff.
pub fn pr_envelope(
    number: u64,
    title: &str,
    body: &str,
    ci_status: Option<&str>,
    review_count: usize,
    diff_output: &str,
) -> (r: String)
    ensures
        r@ == spec_pr_envelope(number, title@, body@, match ci_status {
            Some(s) => Some(s@),
            None => None,
        }, review_count, diff_output@),
{
    let mut out = String::new();
    push_str(&mut out, "PR#");
    push_decimal(&mut out, number);
    push_str(&mut out, " \"");
    push_str(&mut out, title);
    push_str(&mut out, "\"");
    match ci_status {
        Some(s) => {
            push_str(&mut out, " [ci:");
            push_str(&mut out, s);
            push_str(&mut out, "]");
        },
        None => {},
    }
    if review_count > 0 {
        push_str(&mut out, " [reviews:");
        push_decimal(&mut out, review_count as u64);
        push_str(&mut out, "]");
    }
    push_str(&mut out, "\n");
    let bc = chars_of(body);
    let ls = split_lines(bc.as_slice());
    match first_nonblank_index(&ls) {
        Some(i) => {
            push_str(&mut out, "> ");
            push_chars(&mut out, ls[i].as_slice());
            push_str(&mut out, "\n");
        },
        None => {},
    }
    push_str(&mut out, "---\n");
    push_str(&mut out, diff_output);
    out
}

/// Per-commit summary line: `sha "subject"  +added/−removed  Nf`.
pub open spec fn spec_log_entry(sha: Seq<char>, subject: Seq<char>, s: DiffSummary) -> Seq<char> {
    sha + " \""@ + subject + "\"  +"@ + decimal(s.total_added as nat) + "/−"@ + decimal(s.total_removed as nat)
        + "  "@ + decimal(s.file_count as nat) + "f"@
}

/// The summary line of one commit in the log output.
pub fn log_entry(sha: &str, subject: &str, result: &DiffResult) -> (r: String)
    ensures
        r@ == spec_log_entry(sha@, subject@, result.summary),
{
    let mut out = String::new();
    push_str(&mut out, sha);
    push_str(&mut out, " \"");
    push_str(&mut out, subject);
    push_str(&mut out, "\"  +");
    push_decimal(&mut out, result.summary.total_added as u64);
    push_str(&mut out, "/−");
    push_decimal(&mut out, result.summary.total_removed as u64);
    push_str(&mut out, "  ");
    push_decimal(&mut out, result.summary.file_count as u64);
    push_str(&mut out, "f");
    out
}

} // verus!

verus! {

/// Layer 2 shows changed symbols only: when no symbol changed, it is the
/// file's header line alone.
pub proof fn law_layer2_hides_unchanged(file_path: Seq<char>, syms: Seq<DiffedView>)
    requires
        forall|i: int| 0 <= i < syms.len() ==> #[trigger] syms[i].status == StatusView::Unchanged,
    ensures
        spec_layer2(file_path, syms) == file_path + ":\n"@,
    decreases syms.len(),
{
    lemma_unchanged_block_empty(syms);
    assert(spec_layer2(file_path, syms) =~= file_path + ":\n"@);
}

proof fn lemma_unchanged_block_empty(syms: Seq<DiffedView>)
    requires
        forall|i: int| 0 <= i < syms.len() ==> #[trigger] syms[i].status == StatusView::Unchanged,
    ensures
        spec_symbol_block(syms) == Seq::<char>::empty(),
    decreases syms.len(),
{
    if syms.len() > 0 {
        assert forall|i: int| 0 <= i < syms.drop_last().len() implies #[trigger] syms.drop_last()[i].status == StatusView::Unchanged by {
            assert(syms.drop_last()[i] == syms[i]);
        }
        lemma_unchanged_block_empty(syms.drop_last());
        assert(syms.last().status == StatusView::Unchanged) by {
            assert(syms[syms.len() - 1].status == StatusView::Unchanged);
        }
    }
}

} // verus!

verus! {

/// Whether a status reports that the symbol's body changed.
pub open spec fn reports_body_change(st: StatusView) -> bool {
    match st {
        StatusView::Modified => true,
        StatusView::MovedModified { .. } => true,
        StatusView::RenamedModified { .. } => true,
        StatusView::MovedRenamedModified { .. } => true,
        _ => false,
    }
}

/// The status notation marks a body change, and only a body change, with a
/// leading `*`; it is empty only for an unchanged symbol; a rename shows
/// `~ ` and the new name, a move `→ ` and the new file, each at the end.
pub proof fn law_status_text_marks(st: StatusView)
    ensures
        spec_status_text(st).len() > 0 ==> (spec_status_text(st)[0] == '*' <==> reports_body_change(st)),
        spec_status_text(st).len() == 0 <==> st is Unchanged,
        st matches StatusView::Renamed { new_name } ==> spec_status_text(st) == "~ "@ + new_name,
        st matches StatusView::RenamedModified { new_name } ==> spec_status_text(st) == "*~ "@ + new_name,
        st matches StatusView::Moved { to_file } ==> spec_status_text(st) == "→ "@ + to_file,
        st matches StatusView::MovedModified { to_file } ==> spec_status_text(st) == "*→ "@ + to_file,
        st is Added ==> spec_status_text(st) == "+"@,
        st is Removed ==> spec_status_text(st) == "-"@,
{
    reveal_strlit("+");
    reveal_strlit("-");
    reveal_strlit("*");
    reveal_strlit("→ ");
    reveal_strlit("*→ ");
    reveal_strlit("~ ");
    reveal_strlit("*~ ");
    reveal_strlit(" ~ ");
    match st {
        StatusView::Moved { to_file } => {
            assert(("→ "@ + to_file)[0] == '→');
        },
        StatusView::MovedModified { to_file } => {
            assert(("*→ "@ + to_file)[0] == '*');
        },
        StatusView::Renamed { new_name } => {
            assert(("~ "@ + new_name)[0] == '~');
        },
        StatusView::RenamedModified { new_name } => {
            assert(("*~ "@ + new_name)[0] == '*');
        },
        StatusView::MovedRenamedModified { to_file, new_name } => {
            assert(("*→ "@ + to_file + " ~ "@ + new_name)[0] == '*');
        },
        _ => {},
    }
}

} // verus!
