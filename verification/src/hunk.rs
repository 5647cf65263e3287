//! Scoped hunk diff for a single symbol across two versions of a file.
//!
//! Produces a unified-style diff of the symbol's line range only.

use vstd::prelude::*;
use vstd::utf8::{decode_utf8, valid_utf8};
use crate::diff::{diffed_views, find_first_named, first_named, DiffedSymbol, DiffedView};
use crate::languages::{symbol_views, Symbol, SymbolKind, SymbolView};
use crate::render::{layer3, spec_layer3};
use crate::skeletal::{extract, extract_error_message, spec_extract, spec_extract_message, spec_language_of, ExtractError};
use crate::text::{
    char_views, join_strings, join_with, lines, push_str, split_lines, string_of, string_views, str_eq,
};

verus! {

/// The error `str::from_utf8` returns, carried opaquely.
#[verifier::external_type_specification]
#[verifier::external_body]
pub struct ExUtf8Error(core::str::Utf8Error);

/// `str::from_utf8`: the bytes decoded when they are valid UTF-8, an
/// error otherwise.
pub assume_specification[ core::str::from_utf8 ](v: &[u8]) -> (r: Result<&str, core::str::Utf8Error>)
    ensures
        match r {
            Ok(s) => valid_utf8(v@) && s@ == decode_utf8(v@),
            Err(_) => !valid_utf8(v@),
        },
;

/// How one line of a line diff changed.
#[derive(Debug, Clone, Copy, PartialEq, Eq, Structural)]
pub enum ChangeKind {
    Delete,
    Insert,
    Equal,
}

/// One line of a line diff, with its line ending if it had one.
#[derive(Debug, Clone)]
pub struct LineChange {
    pub kind: ChangeKind,
    pub value: String,
}

pub open spec fn change_views(v: Seq<LineChange>) -> Seq<(ChangeKind, Seq<char>)> {
    v.map_values(|c: LineChange| (c.kind, c.value@))
}

/// The changes `similar::TextDiff::from_lines(old, new)` reports, in order,
/// each line with its own line ending.
pub uninterp spec fn line_changes(old: Seq<char>, new: Seq<char>) -> Seq<(ChangeKind, Seq<char>)>;

/// The text on one side of a line diff: the lines of the changes that
/// belong to that side (unchanged lines and, for the old side, deleted
/// ones; for the new side, inserted ones), joined in order.
pub open spec fn side_text(cs: Seq<(ChangeKind, Seq<char>)>, new_side: bool) -> Seq<char>
    decreases cs.len(),
{
    if cs.len() == 0 {
        Seq::empty()
    } else {
        let k = cs.last().0;
        side_text(cs.drop_last(), new_side) + if k == ChangeKind::Equal || (new_side && k == ChangeKind::Insert)
            || (!new_side && k == ChangeKind::Delete) {
            cs.last().1
        } else {
            Seq::empty()
        }
    }
}

/// Line diff of two texts, by `similar::TextDiff::from_lines` and
/// `iter_all_changes`: the result is `line_changes` of the two texts. Each
/// line keeps its line ending, and the changes cover both texts in order,
/// so the unchanged and deleted lines give back the old text and the
/// unchanged and inserted lines the new one.
#[verifier::external_body]
fn diff_lines(old: &str, new: &str) -> (r: Vec<LineChange>)
    ensures
        change_views(r@) == line_changes(old@, new@),
        side_text(change_views(r@), false) == old@,
        side_text(change_views(r@), true) == new@,
{
    similar::TextDiff::from_lines(old, new).iter_all_changes().map(|c| LineChange {
        kind: match c.tag() {
            similar::ChangeTag::Delete => ChangeKind::Delete,
            similar::ChangeTag::Insert => ChangeKind::Insert,
            similar::ChangeTag::Equal => ChangeKind::Equal,
        },
        value: c.value().to_string(),
    }).collect()
}

/// The marker of a change: `-`, `+` or a space.
pub open spec fn change_prefix(k: ChangeKind) -> Seq<char> {
    match k {
        ChangeKind::Delete => "-"@,
        ChangeKind::Insert => "+"@,
        ChangeKind::Equal => " "@,
    }
}

/// One rendered change: marker, line, and a line ending when the line
/// has none.
pub open spec fn spec_change_line(c: (ChangeKind, Seq<char>)) -> Seq<char> {
    change_prefix(c.0) + c.1 + if c.1.len() > 0 && c.1.last() == '\n' { Seq::empty() } else { "\n"@ }
}

/// The rendered changes, in order.
pub open spec fn spec_render_changes(cs: Seq<(ChangeKind, Seq<char>)>) -> Seq<char>
    decreases cs.len(),
{
    if cs.len() == 0 {
        Seq::empty()
    } else {
        spec_render_changes(cs.drop_last()) + spec_change_line(cs.last())
    }
}

/// Renders the changes of a line diff as unified-diff lines.
pub fn render_changes(changes: &Vec<LineChange>) -> (r: String)
    ensures
        r@ == spec_render_changes(change_views(changes@)),
{
    let ghost cv = change_views(changes@);
    let mut out = String::new();
    let mut i: usize = 0;
    assert(cv.take(0) =~= Seq::<(ChangeKind, Seq<char>)>::empty());
    while i < changes.len()
        invariant
            i <= changes.len(),
            cv == change_views(changes@),
            out@ == spec_render_changes(cv.take(i as int)),
        decreases changes.len() - i,
    {
        let c = &changes[i];
        let ghost before = out@;
        match c.kind {
            ChangeKind::Delete => push_str(&mut out, "-"),
            ChangeKind::Insert => push_str(&mut out, "+"),
            ChangeKind::Equal => push_str(&mut out, " "),
        }
        push_str(&mut out, c.value.as_str());
        let ends_nl = ends_with_newline(c.value.as_str());
        if !ends_nl {
            push_str(&mut out, "\n");
        }
        proof {
            reveal_strlit("-");
            reveal_strlit("+");
            reveal_strlit(" ");
            reveal_strlit("\n");
            assert(cv.take(i + 1).drop_last() == cv.take(i as int));
            assert(cv.take(i + 1).last() == (c.kind, c.value@));
            assert(out@ =~= before + spec_change_line((c.kind, c.value@)));
        }
        i += 1;
    }
    assert(cv.take(changes.len() as int) == cv);
    out
}

/// Whether a string ends with a line feed.
fn ends_with_newline(s: &str) -> (r: bool)
    ensures
        r == (s@.len() > 0 && s@.last() == '\n'),
{
    let cs = crate::text::chars_of(s);
    cs.len() > 0 && cs[cs.len() - 1] == '\n'
}

/// The hunk between two line ranges: their line diff, rendered.
pub open spec fn spec_make_hunk(base: Seq<Seq<char>>, head: Seq<Seq<char>>) -> Seq<char> {
    spec_render_changes(line_changes(join_with(base, "\n"@), join_with(head, "\n"@)))
}

/// Unified-style diff of two line lists. The diff's unchanged and deleted
/// lines give back the base lines, its unchanged and inserted lines the
/// head lines.
pub fn make_hunk(base: &Vec<String>, head: &Vec<String>) -> (r: String)
    ensures
        r@ == spec_make_hunk(string_views(base@), string_views(head@)),
        side_text(line_changes(join_with(string_views(base@), "\n"@), join_with(string_views(head@), "\n"@)), false)
            == join_with(string_views(base@), "\n"@),
        side_text(line_changes(join_with(string_views(base@), "\n"@), join_with(string_views(head@), "\n"@)), true)
            == join_with(string_views(head@), "\n"@),
{
    let base_text = join_strings(base, "\n");
    let head_text = join_strings(head, "\n");
    let changes = diff_lines(base_text.as_str(), head_text.as_str());
    render_changes(&changes)
}

/// Why a hunk could not be produced.
#[derive(Debug, Clone, Copy, PartialEq, Eq, Structural)]
pub enum HunkFailure {
    /// Symbol extraction failed.
    Extract(ExtractError),
    /// A version of the file is not valid UTF-8.
    NotUtf8,
    /// The symbol's line range does not lie within the file.
    LineRange,
    /// Neither version of the file has the symbol.
    NotFound,
}

/// Why a hunk could not be produced, with what the message names.
#[derive(Debug)]
pub enum HunkError {
    Extract(ExtractError),
    /// With the text of the decoding error.
    NotUtf8 { detail: String },
    LineRange,
    NotFound { symbol: String, file: String },
}

impl HunkError {
    pub open spec fn failure(&self) -> HunkFailure {
        match self {
            HunkError::Extract(e) => HunkFailure::Extract(*e),
            HunkError::NotUtf8 { .. } => HunkFailure::NotUtf8,
            HunkError::LineRange => HunkFailure::LineRange,
            HunkError::NotFound { .. } => HunkFailure::NotFound,
        }
    }

    /// The message an error is reported with, for a hunk of `file`.
    pub open spec fn spec_message(&self, file: Seq<char>) -> Seq<char> {
        match self {
            HunkError::Extract(x) => spec_extract_message(*x, file),
            HunkError::NotUtf8 { detail } => detail@,
            HunkError::LineRange => "symbol line range lies outside "@ + file,
            HunkError::NotFound { symbol, file: f } => "Symbol '"@ + symbol@ + "' not found in "@ + f@,
        }
    }

    /// The message an error is reported with, for a hunk of `file`.
    pub fn message(&self, file: &str) -> (r: String)
        ensures
            r@ == self.spec_message(file@),
    {
        match self {
            HunkError::Extract(x) => extract_error_message(*x, file),
            HunkError::NotUtf8 { detail } => string_of(crate::text::chars_of(detail.as_str()).as_slice()),
            HunkError::LineRange => {
                let mut out = String::new();
                crate::text::push_str(&mut out, "symbol line range lies outside ");
                crate::text::push_str(&mut out, file);
                out
            },
            HunkError::NotFound { symbol, file: f } => {
                let mut out = String::new();
                crate::text::push_str(&mut out, "Symbol '");
                crate::text::push_str(&mut out, symbol.as_str());
                crate::text::push_str(&mut out, "' not found in ");
                crate::text::push_str(&mut out, f.as_str());
                out
            },
        }
    }
}

/// The text `Utf8Error`'s `Display` gives. Nothing is stated of it.
#[verifier::external_body]
fn utf8_error_text(e: &core::str::Utf8Error) -> String {
    e.to_string()
}

/// The lines `start..=end` (1-based, `end` clamped to the file) of a file
/// decoded as UTF-8.
pub open spec fn spec_symbol_lines(bytes: Seq<u8>, start: usize, end: usize) -> Result<Seq<Seq<char>>, HunkFailure> {
    if !valid_utf8(bytes) {
        Err(HunkFailure::NotUtf8)
    } else {
        let ls = lines(decode_utf8(bytes));
        let lo: int = if start == 0 { 0 } else { start - 1 };
        let hi: int = if end < ls.len() { end as int } else { ls.len() as int };
        if lo > hi {
            Err(HunkFailure::LineRange)
        } else {
            Ok(ls.subrange(lo, hi))
        }
    }
}

/// Lines `start..=end` of a file, 1-based.
fn symbol_lines(bytes: &[u8], start: usize, end: usize) -> (r: Result<Vec<String>, HunkError>)
    ensures
        match r {
            Ok(v) => spec_symbol_lines(bytes@, start, end) == Ok::<Seq<Seq<char>>, HunkFailure>(string_views(v@)),
            Err(e) => spec_symbol_lines(bytes@, start, end) == Err::<Seq<Seq<char>>, HunkFailure>(e.failure()),
        },
{
    let text = match core::str::from_utf8(bytes) {
        Ok(t) => t,
        Err(e) => {
            return Err(HunkError::NotUtf8 { detail: utf8_error_text(&e) });
        },
    };
    let cs = crate::text::chars_of(text);
    let ls = split_lines(cs.as_slice());
    let ghost all = lines(decode_utf8(bytes@));
    assert(char_views(ls@) == all);
    let lo: usize = if start == 0 { 0 } else { start - 1 };
    let hi: usize = if end < ls.len() { end } else { ls.len() };
    if lo > hi {
        return Err(HunkError::LineRange);
    }
    let mut out: Vec<String> = Vec::new();
    let mut i: usize = lo;
    while i < hi
        invariant
            lo <= i <= hi,
            hi <= ls.len(),
            char_views(ls@) == all,
            string_views(out@) == all.subrange(lo as int, i as int),
        decreases hi - i,
    {
        let line = string_of(ls[i].as_slice());
        let ghost before = string_views(out@);
        out.push(line);
        proof {
            assert(char_views(ls@)[i as int] == ls@[i as int]@);
            assert(string_views(out@) =~= before.push(all[i as int]));
            assert(all.subrange(lo as int, i + 1) =~= all.subrange(lo as int, i as int).push(all[i as int]));
        }
        i += 1;
    }
    Ok(out)
}

/// The lines of a range, each preceded by a marker, joined by line feeds.
pub open spec fn spec_marked(ls: Seq<Seq<char>>, marker: Seq<char>) -> Seq<char> {
    join_with(ls.map_values(|l: Seq<char>| marker + l), "\n"@)
}

/// The lines of a range, each preceded by a marker, joined by line feeds.
fn marked(ls: &Vec<String>, marker: &str) -> (r: String)
    ensures
        r@ == spec_marked(string_views(ls@), marker@),
{
    let mut parts: Vec<String> = Vec::new();
    let mut i: usize = 0;
    while i < ls.len()
        invariant
            i <= ls.len(),
            string_views(parts@) == string_views(ls@).take(i as int).map_values(|l: Seq<char>| marker@ + l),
        decreases ls.len() - i,
    {
        let mut p = String::new();
        push_str(&mut p, marker);
        push_str(&mut p, ls[i].as_str());
        let ghost before = string_views(parts@);
        parts.push(p);
        proof {
            assert(string_views(parts@) =~= before.push(marker@ + ls@[i as int]@));
            assert(string_views(ls@).take(i + 1) =~= string_views(ls@).take(i as int).push(ls@[i as int]@));
            assert(string_views(parts@) =~= string_views(ls@).take(i + 1).map_values(|l: Seq<char>| marker@ + l));
        }
        i += 1;
    }
    assert(string_views(ls@).take(ls.len() as int) == string_views(ls@));
    join_strings(&parts, "\n")
}

/// The hunk for `symbol` given the symbols of both versions of `file`:
/// a line diff when both versions have it, all `-` lines when only the
/// base has it, all `+` lines when only the head has it. The head's range
/// is `lsp_head_range` when given. The first symbol of the name counts.
pub open spec fn spec_hunk_for(
    file: Seq<char>,
    symbol: Seq<char>,
    base_bytes: Seq<u8>,
    head_bytes: Seq<u8>,
    base_syms: Seq<SymbolView>,
    head_syms: Seq<SymbolView>,
    lsp_head_range: Option<(usize, usize)>,
) -> Result<Seq<char>, HunkFailure> {
    match (first_named(base_syms, symbol), first_named(head_syms, symbol)) {
        (Some(b), Some(h)) => {
            let (hs, he) = match lsp_head_range { Some(r) => r, None => (h.start_line, h.end_line) };
            match spec_symbol_lines(base_bytes, b.start_line, b.end_line) {
                Err(e) => Err(e),
                Ok(bl) => match spec_symbol_lines(head_bytes, hs, he) {
                    Err(e) => Err(e),
                    Ok(hl) => Ok(spec_layer3(file, file, symbol, b.kind, spec_make_hunk(bl, hl))),
                },
            }
        },
        (Some(b), None) => match spec_symbol_lines(base_bytes, b.start_line, b.end_line) {
            Err(e) => Err(e),
            Ok(bl) => Ok(spec_layer3(file, file, symbol, b.kind, spec_marked(bl, "-"@))),
        },
        (None, Some(h)) => {
            let (hs, he) = match lsp_head_range { Some(r) => r, None => (h.start_line, h.end_line) };
            match spec_symbol_lines(head_bytes, hs, he) {
                Err(e) => Err(e),
                Ok(hl) => Ok(spec_layer3(file, file, symbol, h.kind, spec_marked(hl, "+"@))),
            }
        },
        (None, None) => Err(HunkFailure::NotFound),
    }
}

/// Whether a result matches its specification.
pub open spec fn hunk_result_is(r: Result<String, HunkError>, s: Result<Seq<char>, HunkFailure>) -> bool {
    match r {
        Ok(out) => s == Ok::<Seq<char>, HunkFailure>(out@),
        Err(e) => s == Err::<Seq<char>, HunkFailure>(e.failure()),
    }
}

/// The head line range a hunk shows for head symbol `h`: the language
/// server's range when there is one, else the symbol's own.
pub open spec fn head_range(lsp_head_range: Option<(usize, usize)>, h: SymbolView) -> (usize, usize) {
    match lsp_head_range {
        Some(r) => r,
        None => (h.start_line, h.end_line),
    }
}

/// A Layer 3 output for a symbol present at both refs is its header over
/// rendered line changes whose unchanged and deleted lines give back the
/// base symbol's own lines (`start_line..=end_line` of the base file) and
/// whose unchanged and inserted lines give back the head range's lines of
/// the head file.
pub open spec fn rebuilds_both_sides(
    out: Seq<char>,
    file: Seq<char>,
    symbol: Seq<char>,
    base_bytes: Seq<u8>,
    head_bytes: Seq<u8>,
    b: SymbolView,
    hr: (usize, usize),
) -> bool {
    match (spec_symbol_lines(base_bytes, b.start_line, b.end_line), spec_symbol_lines(head_bytes, hr.0, hr.1)) {
        (Ok(bl), Ok(hl)) => exists|cs: Seq<(ChangeKind, Seq<char>)>| {
            &&& out == spec_layer3(file, file, symbol, b.kind, spec_render_changes(cs))
            &&& side_text(cs, false) == join_with(bl, "\n"@)
            &&& side_text(cs, true) == join_with(hl, "\n"@)
        },
        _ => false,
    }
}

/// The Layer 3 hunk for `symbol`, given both versions of `file` and the
/// symbols extracted from each.
pub fn hunk_for_symbols(
    file: &str,
    symbol: &str,
    base_bytes: &[u8],
    head_bytes: &[u8],
    base_syms: &Vec<Symbol>,
    head_syms: &Vec<Symbol>,
    lsp_head_range: Option<(usize, usize)>,
) -> (r: Result<String, HunkError>)
    ensures
        hunk_result_is(r, spec_hunk_for(file@, symbol@, base_bytes@, head_bytes@, symbol_views(base_syms@),
            symbol_views(head_syms@), lsp_head_range)),
        r matches Err(HunkError::NotFound { symbol: s, file: f }) ==> s@ == symbol@ && f@ == file@,
        first_named(symbol_views(base_syms@), symbol@) matches Some(b) ==> (first_named(symbol_views(head_syms@), symbol@)
            matches Some(h) ==> (r matches Ok(out) ==> rebuilds_both_sides(out@, file@, symbol@, base_bytes@, head_bytes@, b,
            head_range(lsp_head_range, h)))),
{
    let bi = find_first_named(base_syms, symbol);
    let hi = find_first_named(head_syms, symbol);
    match (bi, hi) {
        (Some(bi), Some(hi)) => {
            let b = &base_syms[bi];
            let h = &head_syms[hi];
            let (hs, he) = match lsp_head_range { Some(r) => r, None => (h.start_line, h.end_line) };
            let bl = match symbol_lines(base_bytes, b.start_line, b.end_line) {
                Ok(v) => v,
                Err(e) => {
                    return Err(e);
                },
            };
            let hl = match symbol_lines(head_bytes, hs, he) {
                Ok(v) => v,
                Err(e) => {
                    return Err(e);
                },
            };
            let hunk = make_hunk(&bl, &hl);
            let out = layer3(file, file, symbol, b.kind, hunk.as_str());
            proof {
                assert(symbol_views(base_syms@)[bi as int] == b@);
                assert(symbol_views(head_syms@)[hi as int] == h@);
                let cs = line_changes(join_with(string_views(bl@), "\n"@), join_with(string_views(hl@), "\n"@));
                assert(out@ == spec_layer3(file@, file@, symbol@, b.kind, spec_render_changes(cs)));
                assert(rebuilds_both_sides(out@, file@, symbol@, base_bytes@, head_bytes@, b@, head_range(lsp_head_range, h@)));
            }
            Ok(out)
        },
        (Some(bi), None) => {
            let b = &base_syms[bi];
            let bl = match symbol_lines(base_bytes, b.start_line, b.end_line) {
                Ok(v) => v,
                Err(e) => {
                    return Err(e);
                },
            };
            let hunk = marked(&bl, "-");
            Ok(layer3(file, file, symbol, b.kind, hunk.as_str()))
        },
        (None, Some(hi)) => {
            let h = &head_syms[hi];
            let (hs, he) = match lsp_head_range { Some(r) => r, None => (h.start_line, h.end_line) };
            let hl = match symbol_lines(head_bytes, hs, he) {
                Ok(v) => v,
                Err(e) => {
                    return Err(e);
                },
            };
            let hunk = marked(&hl, "+");
            Ok(layer3(file, file, symbol, h.kind, hunk.as_str()))
        },
        (None, None) => {
            let s = string_of(crate::text::chars_of(symbol).as_slice());
            let f = string_of(crate::text::chars_of(file).as_slice());
            Err(HunkError::NotFound { symbol: s, file: f })
        },
    }
}

/// When both versions hold the symbol, its hunk compares the base
/// symbol's own lines of the base file (`start_line..=end_line`) with the
/// head range's lines of the head file, wherever the symbol sits in head.
pub proof fn law_hunk_compares_each_sides_own_lines(
    file: Seq<char>,
    symbol: Seq<char>,
    base_bytes: Seq<u8>,
    head_bytes: Seq<u8>,
    base_syms: Seq<SymbolView>,
    head_syms: Seq<SymbolView>,
    lsp_head_range: Option<(usize, usize)>,
    b: SymbolView,
    h: SymbolView,
    out: Seq<char>,
)
    requires
        first_named(base_syms, symbol) == Some(b),
        first_named(head_syms, symbol) == Some(h),
        spec_hunk_for(file, symbol, base_bytes, head_bytes, base_syms, head_syms, lsp_head_range) == Ok::<Seq<char>, HunkFailure>(out),
    ensures
        spec_symbol_lines(base_bytes, b.start_line, b.end_line) is Ok,
        spec_symbol_lines(head_bytes, head_range(lsp_head_range, h).0, head_range(lsp_head_range, h).1) is Ok,
        out == spec_layer3(file, file, symbol, b.kind, spec_render_changes(line_changes(
            join_with(spec_symbol_lines(base_bytes, b.start_line, b.end_line)->Ok_0, "\n"@),
            join_with(spec_symbol_lines(head_bytes, head_range(lsp_head_range, h).0, head_range(lsp_head_range, h).1)->Ok_0, "\n"@),
        ))),
{
}

/// The Layer 3 hunk for `symbol` in `file` from the file's bytes at both
/// refs: the hunk of the two extractions, or the first extraction failure
/// (base first).
pub open spec fn spec_symbol_hunk(
    file: Seq<char>,
    symbol: Seq<char>,
    base: Seq<u8>,
    head: Seq<u8>,
    lsp_head_range: Option<(usize, usize)>,
) -> Result<Seq<char>, HunkFailure> {
    match spec_extract(file, base) {
        Err(e) => Err(HunkFailure::Extract(e)),
        Ok(b) => match spec_extract(file, head) {
            Err(e) => Err(HunkFailure::Extract(e)),
            Ok(h) => spec_hunk_for(file, symbol, base, head, b, h, lsp_head_range),
        },
    }
}

/// The Layer 3 hunk for `symbol` in `file`, given the file's bytes at the
/// base and head refs (empty where the file is absent) and, when a prior
/// diff confirmed it, the symbol's head line range from the language server.
pub fn symbol_hunk(
    file: &str,
    symbol: &str,
    base_bytes: &[u8],
    head_bytes: &[u8],
    lsp_head_range: Option<(usize, usize)>,
) -> (r: Result<String, HunkError>)
    ensures
        hunk_result_is(r, spec_symbol_hunk(file@, symbol@, base_bytes@, head_bytes@, lsp_head_range)),
        r matches Err(HunkError::NotFound { symbol: s, file: f }) ==> s@ == symbol@ && f@ == file@,
        spec_language_of(file@) is None ==> (r matches Err(HunkError::NotFound { symbol: s, file: f })
            && s@ == symbol@ && f@ == file@),
{
    let base_syms = match extract(file, base_bytes) {
        Ok(v) => v,
        Err(e) => {
            return Err(HunkError::Extract(e));
        },
    };
    let head_syms = match extract(file, head_bytes) {
        Ok(v) => v,
        Err(e) => {
            return Err(HunkError::Extract(e));
        },
    };
    let ghost b = symbol_views(base_syms@);
    let ghost h = symbol_views(head_syms@);
    let r = hunk_for_symbols(file, symbol, base_bytes, head_bytes, &base_syms, &head_syms, lsp_head_range);
    proof {
        if spec_language_of(file@) is None {
            assert(b.len() == 0 && h.len() == 0);
            assert(first_named(b, symbol@) is None);
            assert(first_named(h, symbol@) is None);
        }
    }
    r
}

/// The LSP-confirmed line range of the first symbol called `symbol` in a
/// cached symbol diff, when it has one.
pub open spec fn spec_lsp_range_of(syms: Seq<DiffedView>, symbol: Seq<char>) -> Option<(usize, usize)>
    decreases syms.len(),
{
    if syms.len() == 0 {
        None
    } else if syms[0].name == symbol {
        syms[0].lsp_range
    } else {
        spec_lsp_range_of(syms.drop_first(), symbol)
    }
}

/// The LSP-confirmed line range of `symbol` in a cached symbol diff.
pub fn lsp_range_of(syms: &Vec<DiffedSymbol>, symbol: &str) -> (r: Option<(usize, usize)>)
    ensures
        r == spec_lsp_range_of(diffed_views(syms@), symbol@),
{
    let ghost v = diffed_views(syms@);
    let mut i: usize = 0;
    assert(v.skip(0) == v);
    while i < syms.len()
        invariant
            i <= syms.len(),
            v == diffed_views(syms@),
            spec_lsp_range_of(v, symbol@) == spec_lsp_range_of(v.skip(i as int), symbol@),
        decreases syms.len() - i,
    {
        assert(v.skip(i as int)[0] == syms@[i as int]@);
        assert(v.skip(i as int).drop_first() == v.skip(i + 1));
        if str_eq(syms[i].name.as_str(), symbol) {
            return syms[i].lsp_range;
        }
        i += 1;
    }
    assert(v.skip(syms.len() as int) =~= Seq::<DiffedView>::empty());
    None
}

} // verus!
