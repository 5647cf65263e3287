//! The MCP tool's decisions: which operation a request asks for and what
//! it is missing, and the text each operation returns once its inputs are
//! fetched. Serving the protocol and running git happen outside.

use vstd::prelude::*;
use vstd::utf8::{decode_utf8, is_char_boundary, valid_utf8};
use vstd::string::*;
use crate::diff::{diffed_views, first_named};
use crate::github::{check_views, StatusCheck, StatusCheckView};
use crate::hunk::{make_hunk, spec_make_hunk};
use crate::languages::{symbol_views, Symbol, SymbolKind, SymbolView};
use crate::pipeline::{file_views, DiffResult, FileDiffView};
use crate::render::{file_line_only, layer2, layer3, spec_file_line, spec_layer2, spec_layer3};
use crate::skeletal::{diff_file_symbols, extract, file_diff_of, spec_compute_symbols, spec_extract, spec_extract_message, ExtractError};
use crate::text::{chars_of, decimal, first_index_of, lines, push_decimal, push_str, split_lines, str_eq, string_of, string_views};

verus! {

/// Parameters of the `pasua` tool.
#[derive(Debug, Clone)]
pub struct PasuaParams {
    /// Operation: diff | summary | symbols | hunk | pr | log
    pub action: String,
    /// Path to local repository clone (required for all operations)
    pub repo: String,
    /// Base ref: branch, commit, or tag (diff/summary/symbols/hunk)
    pub base: Option<String>,
    /// Head ref: branch, commit, or tag (diff/summary/symbols/hunk)
    pub head: Option<String>,
    /// File path relative to repo root (symbols/hunk)
    pub file: Option<String>,
    /// Symbol name (hunk only)
    pub symbol: Option<String>,
    /// PR number (pr only)
    pub pr_number: Option<u64>,
    /// Commit range e.g. main..feature (log only)
    pub range: Option<String>,
    /// Line delta threshold for auto Layer 2 (default: 200)
    pub threshold: Option<usize>,
}

/// An operation the tool was asked for, with its arguments.
#[derive(Debug, Clone, PartialEq, Eq)]
pub enum McpAction {
    /// Layer 1 overview with auto Layer 2.
    Diff { base: String, head: String, threshold: usize },
    /// File-level overview with no symbol expansion.
    Summary { base: String, head: String, threshold: usize },
    /// Layer 2 symbol table for one file.
    Symbols { base: String, head: String, file: String },
    /// Layer 3 hunk for one symbol.
    Hunk { base: String, head: String, file: String, symbol: String },
    /// PR envelope with Layer 1.
    Pr { number: u64, threshold: usize },
    /// Per-commit overview of a range.
    Log { range: String, threshold: usize },
}

/// The message for a missing parameter.
pub open spec fn spec_required_message(name: Seq<char>) -> Seq<char> {
    "'"@ + name + "' is required for this action"@
}

/// The message for an unknown action.
pub open spec fn spec_unknown_message(action: Seq<char>) -> Seq<char> {
    "Unknown action: '"@ + action + "'. Use: diff | symbols | hunk | pr | log"@
}

pub open spec fn opt_text(o: Option<String>) -> Option<Seq<char>> {
    match o {
        Some(s) => Some(s@),
        None => None,
    }
}

/// What a request asks for: the action's required parameters in order,
/// the first missing one naming the error; the threshold defaults to 200.
pub enum PlanView {
    Diff { base: Seq<char>, head: Seq<char>, threshold: usize },
    Summary { base: Seq<char>, head: Seq<char>, threshold: usize },
    Symbols { base: Seq<char>, head: Seq<char>, file: Seq<char> },
    Hunk { base: Seq<char>, head: Seq<char>, file: Seq<char>, symbol: Seq<char> },
    Pr { number: u64, threshold: usize },
    Log { range: Seq<char>, threshold: usize },
    Error(Seq<char>),
}

impl McpAction {
    pub open spec fn plan_view(&self) -> PlanView {
        match self {
            McpAction::Diff { base, head, threshold } => PlanView::Diff { base: base@, head: head@, threshold: *threshold },
            McpAction::Summary { base, head, threshold } => PlanView::Summary { base: base@, head: head@, threshold: *threshold },
            McpAction::Symbols { base, head, file } => PlanView::Symbols { base: base@, head: head@, file: file@ },
            McpAction::Hunk { base, head, file, symbol } => PlanView::Hunk { base: base@, head: head@, file: file@, symbol: symbol@ },
            McpAction::Pr { number, threshold } => PlanView::Pr { number: *number, threshold: *threshold },
            McpAction::Log { range, threshold } => PlanView::Log { range: range@, threshold: *threshold },
        }
    }
}

/// The plan of a request.
pub open spec fn spec_plan(p: PasuaParams) -> PlanView {
    let threshold: usize = match p.threshold {
        Some(t) => t,
        None => 200,
    };
    let a = p.action@;
    if a == "diff"@ || a == "summary"@ {
        match (opt_text(p.base), opt_text(p.head)) {
            (None, _) => PlanView::Error(spec_required_message("base"@)),
            (_, None) => PlanView::Error(spec_required_message("head"@)),
            (Some(b), Some(h)) => if a == "diff"@ {
                PlanView::Diff { base: b, head: h, threshold }
            } else {
                PlanView::Summary { base: b, head: h, threshold }
            },
        }
    } else if a == "symbols"@ {
        match (opt_text(p.base), opt_text(p.head), opt_text(p.file)) {
            (None, _, _) => PlanView::Error(spec_required_message("base"@)),
            (_, None, _) => PlanView::Error(spec_required_message("head"@)),
            (_, _, None) => PlanView::Error(spec_required_message("file"@)),
            (Some(b), Some(h), Some(f)) => PlanView::Symbols { base: b, head: h, file: f },
        }
    } else if a == "hunk"@ {
        match (opt_text(p.base), opt_text(p.head), opt_text(p.file), opt_text(p.symbol)) {
            (None, _, _, _) => PlanView::Error(spec_required_message("base"@)),
            (_, None, _, _) => PlanView::Error(spec_required_message("head"@)),
            (_, _, None, _) => PlanView::Error(spec_required_message("file"@)),
            (_, _, _, None) => PlanView::Error(spec_required_message("symbol"@)),
            (Some(b), Some(h), Some(f), Some(s)) => PlanView::Hunk { base: b, head: h, file: f, symbol: s },
        }
    } else if a == "pr"@ {
        match p.pr_number {
            Some(n) => PlanView::Pr { number: n, threshold },
            None => PlanView::Error("pr_number required for action=pr"@),
        }
    } else if a == "log"@ {
        match opt_text(p.range) {
            Some(r) => PlanView::Log { range: r, threshold },
            None => PlanView::Error(spec_required_message("range"@)),
        }
    } else {
        PlanView::Error(spec_unknown_message(a))
    }
}

/// A required parameter, or the message naming it.
fn require(opt: &Option<String>, name: &str) -> (r: Result<String, String>)
    ensures
        match r {
            Ok(v) => opt_text(*opt) == Some(v@),
            Err(m) => opt_text(*opt) is None && m@ == spec_required_message(name@),
        },
{
    match opt {
        Some(v) => Ok(v.clone()),
        None => {
            let mut m = String::new();
            push_str(&mut m, "'");
            push_str(&mut m, name);
            push_str(&mut m, "' is required for this action");
            Err(m)
        },
    }
}

/// Which operation a request asks for, or the error it is answered with.
pub fn plan_request(p: &PasuaParams) -> (r: Result<McpAction, String>)
    ensures
        match r {
            Ok(a) => spec_plan(*p) == a.plan_view(),
            Err(m) => spec_plan(*p) == PlanView::Error(m@),
        },
{
    let threshold: usize = match p.threshold {
        Some(t) => t,
        None => 200,
    };
    let a = p.action.as_str();
    proof {
        reveal_strlit("diff");
        reveal_strlit("summary");
        reveal_strlit("symbols");
        reveal_strlit("hunk");
        reveal_strlit("pr");
        reveal_strlit("log");
    }
    if str_eq(a, "diff") || str_eq(a, "summary") {
        let base = require(&p.base, "base")?;
        let head = require(&p.head, "head")?;
        if str_eq(a, "diff") {
            Ok(McpAction::Diff { base, head, threshold })
        } else {
            Ok(McpAction::Summary { base, head, threshold })
        }
    } else if str_eq(a, "symbols") {
        let base = require(&p.base, "base")?;
        let head = require(&p.head, "head")?;
        let file = require(&p.file, "file")?;
        Ok(McpAction::Symbols { base, head, file })
    } else if str_eq(a, "hunk") {
        let base = require(&p.base, "base")?;
        let head = require(&p.head, "head")?;
        let file = require(&p.file, "file")?;
        let symbol = require(&p.symbol, "symbol")?;
        Ok(McpAction::Hunk { base, head, file, symbol })
    } else if str_eq(a, "pr") {
        match p.pr_number {
            Some(n) => Ok(McpAction::Pr { number: n, threshold }),
            None => {
                let mut m = String::new();
                push_str(&mut m, "pr_number required for action=pr");
                Err(m)
            },
        }
    } else if str_eq(a, "log") {
        let range = require(&p.range, "range")?;
        Ok(McpAction::Log { range, threshold })
    } else {
        let mut m = String::new();
        push_str(&mut m, "Unknown action: '");
        push_str(&mut m, a);
        push_str(&mut m, "'. Use: diff | symbols | hunk | pr | log");
        Err(m)
    }
}

} // verus!

verus! {

/// The CI verdict the tool reports: `fail` when a check concluded with
/// failure, `pass` when every check concluded with success, else none.
pub open spec fn spec_mcp_ci(rollup: Option<Seq<StatusCheckView>>) -> Option<Seq<char>> {
    match rollup {
        None => None,
        Some(cs) => if exists|i: int| 0 <= i < cs.len() && #[trigger] cs[i].conclusion == Some("FAILURE"@) {
            Some("fail"@)
        } else if forall|i: int| 0 <= i < cs.len() ==> #[trigger] cs[i].conclusion == Some("SUCCESS"@) {
            Some("pass"@)
        } else {
            None
        },
    }
}

/// The CI verdict of a pull request's checks, as the tool reports it.
pub fn mcp_ci_status(rollup: &Option<Vec<StatusCheck>>) -> (r: Option<&'static str>)
    ensures
        match r {
            Some(s) => spec_mcp_ci(match rollup { Some(c) => Some(check_views(c@)), None => None }) == Some(s@),
            None => spec_mcp_ci(match rollup { Some(c) => Some(check_views(c@)), None => None }) is None,
        },
{
    match rollup {
        Some(c) => ci_of_checks(c),
        None => None,
    }
}

/// The CI verdict of a list of checks.
fn ci_of_checks(checks: &Vec<StatusCheck>) -> (r: Option<&'static str>)
    ensures
        match r {
            Some(s) => spec_mcp_ci(Some(check_views(checks@))) == Some(s@),
            None => spec_mcp_ci(Some(check_views(checks@))) is None,
        },
{
    let ghost cs = check_views(checks@);
    proof {
        reveal_strlit("fail");
        reveal_strlit("pass");
    }
    let mut i: usize = 0;
    while i < checks.len()
        invariant
            i <= checks.len(),
            cs == check_views(checks@),
            forall|j: int| 0 <= j < i ==> #[trigger] cs[j].conclusion != Some("FAILURE"@),
        decreases checks.len() - i,
    {
        assert(cs[i as int] == checks@[i as int]@);
        if crate::github::opt_is(&checks[i].conclusion, "FAILURE") {
            assert(cs[i as int].conclusion == Some("FAILURE"@));
            return Some("fail");
        }
        i += 1;
    }
    let mut i: usize = 0;
    while i < checks.len()
        invariant
            i <= checks.len(),
            cs == check_views(checks@),
            forall|j: int| 0 <= j < checks.len() ==> #[trigger] cs[j].conclusion != Some("FAILURE"@),
            forall|j: int| 0 <= j < i ==> #[trigger] cs[j].conclusion == Some("SUCCESS"@),
        decreases checks.len() - i,
    {
        assert(cs[i as int] == checks@[i as int]@);
        if !crate::github::opt_is(&checks[i].conclusion, "SUCCESS") {
            assert(cs[i as int].conclusion != Some("SUCCESS"@));
            return None;
        }
        i += 1;
    }
    Some("pass")
}

/// Number of reviews, none when absent.
pub fn review_count(reviews: &Option<Vec<crate::github::Review>>) -> (r: usize)
    ensures
        r == match reviews { Some(v) => v@.len(), None => 0 },
{
    match reviews {
        Some(v) => v.len(),
        None => 0,
    }
}

/// The Layer 2 report of a file given its symbols at both refs.
pub fn symbols_report(file: &str, base_syms: Vec<Symbol>, head_syms: Vec<Symbol>) -> (r: String)
    ensures
        r@ == spec_layer2(file@, file_diff_of(file@, symbol_views(base_syms@), symbol_views(head_syms@))),
{
    let diffed = diff_file_symbols(file, base_syms, head_syms);
    layer2(file, diffed.as_slice())
}

/// The Layer 2 report of a file from its bytes at both refs, or the
/// extraction failure.
pub open spec fn spec_mcp_symbols(file: Seq<char>, base: Seq<u8>, head: Seq<u8>) -> Result<Seq<char>, ExtractError> {
    match spec_compute_symbols(file, base, head) {
        Ok(d) => Ok(spec_layer2(file, d)),
        Err(e) => Err(e),
    }
}

/// The `symbols` operation once the file's bytes at both refs are read. A
/// file of no supported language reports its header line alone.
pub fn mcp_symbols(file: &str, base_bytes: &[u8], head_bytes: &[u8]) -> (r: Result<String, ExtractError>)
    ensures
        match r {
            Ok(out) => spec_mcp_symbols(file@, base_bytes@, head_bytes@) == Ok::<Seq<char>, ExtractError>(out@),
            Err(e) => spec_mcp_symbols(file@, base_bytes@, head_bytes@) == Err::<Seq<char>, ExtractError>(e),
        },
        crate::skeletal::spec_language_of(file@) is None ==> (r matches Ok(out) && out@ == file@ + ":\n"@),
{
    let base_syms = match extract(file, base_bytes) {
        Ok(v) => v,
        Err(e) => {
            return Err(e);
        },
    };
    let head_syms = match extract(file, head_bytes) {
        Ok(v) => v,
        Err(e) => {
            return Err(e);
        },
    };
    let ghost b = symbol_views(base_syms@);
    let ghost h = symbol_views(head_syms@);
    let r = symbols_report(file, base_syms, head_syms);
    proof {
        if crate::skeletal::spec_language_of(file@) is None {
            assert(b =~= Seq::<SymbolView>::empty());
            assert(h =~= Seq::<SymbolView>::empty());
            crate::skeletal::lemma_empty_file_diff(file@);
            assert(crate::render::spec_symbol_block(Seq::<crate::diff::DiffedView>::empty()) == Seq::<char>::empty());
            assert(r@ =~= file@ + ":\n"@);
        }
    }
    Ok(r)
}

/// The lines of a file read as UTF-8 (none when it is not valid UTF-8).
pub open spec fn text_lines(bytes: Seq<u8>) -> Seq<Seq<char>> {
    if valid_utf8(bytes) { lines(decode_utf8(bytes)) } else { Seq::empty() }
}

/// The lines `start..=end` of a line list (1-based, `end` clamped).
pub open spec fn sym_lo(s: SymbolView) -> int {
    if s.start_line == 0 { 0 } else { s.start_line - 1 }
}

pub open spec fn sym_hi(ls: Seq<Seq<char>>, s: SymbolView) -> int {
    if s.end_line < ls.len() { s.end_line as int } else { ls.len() as int }
}

/// Whether a symbol's line range can be cut out of the lines.
pub open spec fn range_fits(ls: Seq<Seq<char>>, s: Option<SymbolView>) -> bool {
    match s {
        Some(s) => sym_lo(s) <= sym_hi(ls, s),
        None => true,
    }
}

/// A symbol's lines, none when absent.
pub open spec fn sym_lines(ls: Seq<Seq<char>>, s: Option<SymbolView>) -> Seq<Seq<char>> {
    match s {
        Some(s) => ls.subrange(sym_lo(s), sym_hi(ls, s)),
        None => Seq::empty(),
    }
}

/// The message for a symbol in neither version.
pub open spec fn spec_not_found(symbol: Seq<char>, file: Seq<char>) -> Seq<char> {
    "Symbol '"@ + symbol + "' not found in "@ + file
}

/// The tool's hunk: a line diff of the symbol's lines in each version
/// (none where a version lacks it), labelled with the base's kind if it
/// has the symbol, else the head's.
pub open spec fn spec_mcp_hunk(
    file: Seq<char>,
    symbol: Seq<char>,
    base_bytes: Seq<u8>,
    head_bytes: Seq<u8>,
    base_syms: Seq<SymbolView>,
    head_syms: Seq<SymbolView>,
) -> Result<Seq<char>, Seq<char>> {
    let b = first_named(base_syms, symbol);
    let h = first_named(head_syms, symbol);
    if b is None && h is None {
        Err(spec_not_found(symbol, file))
    } else {
        let kind = match b {
            Some(s) => s.kind,
            None => match h {
                Some(s) => s.kind,
                None => SymbolKind::Fn,
            },
        };
        let bs = sym_lines(text_lines(base_bytes), b);
        let hs = sym_lines(text_lines(head_bytes), h);
        Ok(spec_layer3(file, file, symbol, kind, spec_make_hunk(bs, hs)))
    }
}

/// The lines of a file's bytes as UTF-8, none when they are not.
fn read_lines(bytes: &[u8]) -> (r: Vec<Vec<char>>)
    ensures
        crate::text::char_views(r@) == text_lines(bytes@),
{
    match core::str::from_utf8(bytes) {
        Ok(t) => {
            let cs = chars_of(t);
            split_lines(cs.as_slice())
        },
        Err(_) => {
            let r: Vec<Vec<char>> = Vec::new();
            assert(crate::text::char_views(r@) =~= Seq::<Seq<char>>::empty());
            r
        },
    }
}

/// Lines `lo..hi` as strings.
fn cut_lines(ls: &Vec<Vec<char>>, lo: usize, hi: usize) -> (r: Vec<String>)
    requires
        lo <= hi <= ls@.len(),
    ensures
        string_views(r@) == crate::text::char_views(ls@).subrange(lo as int, hi as int),
{
    let ghost all = crate::text::char_views(ls@);
    let mut out: Vec<String> = Vec::new();
    let mut i: usize = lo;
    while i < hi
        invariant
            lo <= i <= hi,
            hi <= ls@.len(),
            all == crate::text::char_views(ls@),
            string_views(out@) == all.subrange(lo as int, i as int),
        decreases hi - i,
    {
        let line = string_of(ls[i].as_slice());
        let ghost before = string_views(out@);
        out.push(line);
        proof {
            assert(all[i as int] == ls@[i as int]@);
            assert(string_views(out@) =~= before.push(all[i as int]));
            assert(all.subrange(lo as int, i + 1) =~= all.subrange(lo as int, i as int).push(all[i as int]));
        }
        i += 1;
    }
    out
}

/// The lines of a found symbol, none when absent.
fn symbol_range_lines(ls: &Vec<Vec<char>>, s: Option<&Symbol>) -> (r: Vec<String>)
    requires
        range_fits(crate::text::char_views(ls@), match s { Some(x) => Some(x@), None => None }),
    ensures
        string_views(r@) == sym_lines(crate::text::char_views(ls@), match s { Some(x) => Some(x@), None => None }),
{
    match s {
        Some(x) => {
            let lo: usize = if x.start_line == 0 { 0 } else { x.start_line - 1 };
            let hi: usize = if x.end_line < ls.len() { x.end_line } else { ls.len() };
            cut_lines(ls, lo, hi)
        },
        None => {
            let r: Vec<String> = Vec::new();
            assert(string_views(r@) =~= Seq::<Seq<char>>::empty());
            r
        },
    }
}

/// The tool's hunk for `symbol` given both versions of `file` and the
/// symbols extracted from each.
pub fn mcp_hunk_for(
    file: &str,
    symbol: &str,
    base_bytes: &[u8],
    head_bytes: &[u8],
    base_syms: &Vec<Symbol>,
    head_syms: &Vec<Symbol>,
) -> (r: Result<String, String>)
    requires
        range_fits(text_lines(base_bytes@), first_named(symbol_views(base_syms@), symbol@)),
        range_fits(text_lines(head_bytes@), first_named(symbol_views(head_syms@), symbol@)),
    ensures
        match r {
            Ok(out) => spec_mcp_hunk(file@, symbol@, base_bytes@, head_bytes@, symbol_views(base_syms@),
                symbol_views(head_syms@)) == Ok::<Seq<char>, Seq<char>>(out@),
            Err(m) => spec_mcp_hunk(file@, symbol@, base_bytes@, head_bytes@, symbol_views(base_syms@),
                symbol_views(head_syms@)) == Err::<Seq<char>, Seq<char>>(m@),
        },
{
    let bi = crate::diff::find_first_named(base_syms, symbol);
    let hi = crate::diff::find_first_named(head_syms, symbol);
    let b: Option<&Symbol> = match bi { Some(i) => Some(&base_syms[i]), None => None };
    let h: Option<&Symbol> = match hi { Some(i) => Some(&head_syms[i]), None => None };
    if b.is_none() && h.is_none() {
        let mut m = String::new();
        push_str(&mut m, "Symbol '");
        push_str(&mut m, symbol);
        push_str(&mut m, "' not found in ");
        push_str(&mut m, file);
        return Err(m);
    }
    let kind = match b {
        Some(s) => s.kind,
        None => match h {
            Some(s) => s.kind,
            None => SymbolKind::Fn,
        },
    };
    let bl = read_lines(base_bytes);
    let hl = read_lines(head_bytes);
    let bs = symbol_range_lines(&bl, b);
    let hs = symbol_range_lines(&hl, h);
    let hunk = make_hunk(&bs, &hs);
    Ok(layer3(file, file, symbol, kind, hunk.as_str()))
}

/// Whether the symbol's ranges can be cut out of both versions.
pub fn mcp_hunk_fits(symbol: &str, base_bytes: &[u8], head_bytes: &[u8], base_syms: &Vec<Symbol>, head_syms: &Vec<Symbol>) -> (r: bool)
    ensures
        r == (range_fits(text_lines(base_bytes@), first_named(symbol_views(base_syms@), symbol@))
            && range_fits(text_lines(head_bytes@), first_named(symbol_views(head_syms@), symbol@))),
{
    let bl = read_lines(base_bytes);
    let hl = read_lines(head_bytes);
    let b_ok = match crate::diff::find_first_named(base_syms, symbol) {
        Some(i) => {
            let s = &base_syms[i];
            let lo: usize = if s.start_line == 0 { 0 } else { s.start_line - 1 };
            let hi: usize = if s.end_line < bl.len() { s.end_line } else { bl.len() };
            lo <= hi
        },
        None => true,
    };
    let h_ok = match crate::diff::find_first_named(head_syms, symbol) {
        Some(i) => {
            let s = &head_syms[i];
            let lo: usize = if s.start_line == 0 { 0 } else { s.start_line - 1 };
            let hi: usize = if s.end_line < hl.len() { s.end_line } else { hl.len() };
            lo <= hi
        },
        None => true,
    };
    b_ok && h_ok
}

} // verus!

verus! {

/// The message for a symbol range that does not lie within its file.
pub open spec fn spec_range_message(symbol: Seq<char>, file: Seq<char>) -> Seq<char> {
    "Symbol '"@ + symbol + "' has a line range outside "@ + file
}

/// The `hunk` operation from the file's bytes at both refs: the message
/// of the first extraction failure (base first); the range message when
/// the symbol's lines cannot be cut out of a version; else the hunk of the
/// two extractions.
pub open spec fn spec_mcp_hunk_op(file: Seq<char>, symbol: Seq<char>, base: Seq<u8>, head: Seq<u8>) -> Result<Seq<char>, Seq<char>> {
    match spec_extract(file, base) {
        Err(e) => Err(spec_extract_message(e, file)),
        Ok(b) => match spec_extract(file, head) {
            Err(e) => Err(spec_extract_message(e, file)),
            Ok(h) => if range_fits(text_lines(base), first_named(b, symbol)) && range_fits(text_lines(head), first_named(h, symbol)) {
                spec_mcp_hunk(file, symbol, base, head, b, h)
            } else {
                Err(spec_range_message(symbol, file))
            },
        },
    }
}

/// The `hunk` operation once the file's bytes at both refs are read.
pub fn mcp_hunk(file: &str, symbol: &str, base_bytes: &[u8], head_bytes: &[u8]) -> (r: Result<String, String>)
    ensures
        match r {
            Ok(out) => spec_mcp_hunk_op(file@, symbol@, base_bytes@, head_bytes@) == Ok::<Seq<char>, Seq<char>>(out@),
            Err(m) => spec_mcp_hunk_op(file@, symbol@, base_bytes@, head_bytes@) == Err::<Seq<char>, Seq<char>>(m@),
        },
        crate::skeletal::spec_language_of(file@) is None ==> (r matches Err(m) && m@ == spec_not_found(symbol@, file@)),
{
    let base_syms = match extract(file, base_bytes) {
        Ok(v) => v,
        Err(e) => {
            return Err(crate::skeletal::extract_error_message(e, file));
        },
    };
    let head_syms = match extract(file, head_bytes) {
        Ok(v) => v,
        Err(e) => {
            return Err(crate::skeletal::extract_error_message(e, file));
        },
    };
    let ghost b = symbol_views(base_syms@);
    let ghost h = symbol_views(head_syms@);
    proof {
        if crate::skeletal::spec_language_of(file@) is None {
            assert(first_named(b, symbol@) is None);
            assert(first_named(h, symbol@) is None);
        }
    }
    if !mcp_hunk_fits(symbol, base_bytes, head_bytes, &base_syms, &head_syms) {
        let mut m = String::new();
        push_str(&mut m, "Symbol '");
        push_str(&mut m, symbol);
        push_str(&mut m, "' has a line range outside ");
        push_str(&mut m, file);
        return Err(m);
    }
    mcp_hunk_for(file, symbol, base_bytes, head_bytes, &base_syms, &head_syms)
}

/// A `git log --format=%H %s` line split at its first space into sha and
/// subject; lines without a space are skipped.
pub open spec fn spec_log_entries(ls: Seq<Seq<char>>) -> Seq<(Seq<char>, Seq<char>)>
    decreases ls.len(),
{
    if ls.len() == 0 {
        Seq::empty()
    } else {
        let prev = spec_log_entries(ls.drop_last());
        let l = ls.last();
        match first_index_of(l, ' ') {
            Some(i) => prev.push((l.take(i), l.skip(i + 1))),
            None => prev,
        }
    }
}

/// The commits listed by `git log --format=%H %s`, as (sha, subject).
pub fn parse_log(stdout: &str) -> (r: Vec<(String, String)>)
    ensures
        r@.map_values(|e: (String, String)| (e.0@, e.1@)) == spec_log_entries(lines(stdout@)),
{
    let cs = chars_of(stdout);
    let ls = split_lines(cs.as_slice());
    let ghost lv = crate::text::char_views(ls@);
    let mut out: Vec<(String, String)> = Vec::new();
    let mut k: usize = 0;
    assert(lv.take(0) =~= Seq::<Seq<char>>::empty());
    assert(out@.map_values(|e: (String, String)| (e.0@, e.1@)) =~= spec_log_entries(lv.take(0)));
    while k < ls.len()
        invariant
            k <= ls.len(),
            lv == crate::text::char_views(ls@),
            out@.map_values(|e: (String, String)| (e.0@, e.1@)) == spec_log_entries(lv.take(k as int)),
        decreases ls.len() - k,
    {
        let line = &ls[k];
        assert(lv.take(k + 1).drop_last() == lv.take(k as int));
        assert(lv.take(k + 1).last() == line@);
        proof {
            crate::text::lemma_first_index_of(line@, ' ');
        }
        let found = crate::text::find_first(line.as_slice(), ' ');
        match found {
            Some(i) => {
                assert(i < line.len());
                let sha = string_of(crate::text::slice_chars(line.as_slice(), 0, i).as_slice());
                let subject = string_of(crate::text::slice_chars(line.as_slice(), i + 1, line.len()).as_slice());
                let ghost before = out@;
                out.push((sha, subject));
                assert(line@.subrange(0, i as int) == line@.take(i as int));
                assert(line@.subrange(i + 1, line@.len() as int) == line@.skip(i + 1));
                assert(out@.map_values(|e: (String, String)| (e.0@, e.1@)) =~= before.map_values(|e: (String, String)| (e.0@, e.1@)).push((line@.take(i as int), line@.skip(i + 1))));
            },
            None => {},
        }
        k += 1;
    }
    assert(lv.take(ls.len() as int) == lv);
    out
}

/// Whether a sha's first seven bytes end on a character boundary, so
/// that they form its short form.
pub open spec fn has_short_form(bytes: Seq<u8>) -> bool {
    7 <= bytes.len() && is_char_boundary(bytes, 7)
}

/// The short form of a sha: the characters of its first seven bytes.
pub open spec fn short_form(bytes: Seq<u8>) -> Seq<char> {
    decode_utf8(bytes.take(7))
}

/// Whether a sha has a short form.
pub fn short_form_ok(sha: &str) -> (r: bool)
    ensures
        r == has_short_form(sha.spec_bytes()),
{
    let bytes = sha.as_bytes();
    bytes.len() >= 7 && sha.is_char_boundary(7)
}

/// The tool's block for one commit: like the log command's, with the sha
/// cut to its first seven bytes.
pub fn mcp_log_block(sha: &str, subject: &str, result: &DiffResult) -> (r: String)
    requires
        has_short_form(sha.spec_bytes()),
    ensures
        r@ == crate::cli::spec_log_block(short_form(sha.spec_bytes()), subject@, *result),
{
    let (short, _) = sha.split_at(7);
    proof {
        vstd::utf8::encode_utf8_decode_utf8(short@);
        assert(short.spec_bytes() == sha.spec_bytes().take(7));
    }
    crate::cli::log_block(short, subject, result)
}

} // verus!
