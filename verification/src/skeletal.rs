//! Structural extraction: parses source files with tree-sitter into symbol
//! skeletons, giving heuristic symbol identity without a language server.

use vstd::prelude::*;
use vstd::utf8::{decode_utf8, valid_utf8};
use crate::diff::{added_file_part, added_part, base_entry, base_file_part, base_part, base_part_in, diff_symbols, lemma_added_file_entries, moved_to, FileSymbolsView, StatusView, diffed_views, spec_diff_symbols, DiffedSymbol, DiffedView, SymbolMap};
use crate::languages::registry::{for_extension_chars, spec_for_extension};
use crate::languages::{spec_symbol_kind, spec_symbol_query, symbol_views, Lang, NodeFacts, NodeFactsView, Symbol, SymbolKind, SymbolView};
use crate::paths::{extension, extension_of};
use crate::text::{chars_of, string_of};
use crate::treesitter::{
    node_child, node_end_byte, node_end_row, node_kind, node_start_byte, node_start_row, run_query, ts_query_run, xxh64,
    xxhash64,
};

verus! {

/// What extraction reads of one captured node.
#[derive(Debug, Clone)]
pub struct Capture {
    /// The capture's index in the query.
    pub index: u32,
    /// The node's type.
    pub kind: String,
    pub start_byte: usize,
    pub end_byte: usize,
    /// 0-based rows of the node's first and last character.
    pub start_row: usize,
    pub end_row: usize,
    /// Byte range of the node's `target` child, if it has one.
    pub target: Option<(usize, usize)>,
    /// Type of the node's `definition` child, if it has one.
    pub definition_kind: Option<String>,
}

pub struct CaptureView {
    pub index: u32,
    pub kind: Seq<char>,
    pub start_byte: usize,
    pub end_byte: usize,
    pub start_row: usize,
    pub end_row: usize,
    pub target: Option<(usize, usize)>,
    pub definition_kind: Option<Seq<char>>,
}

impl View for Capture {
    type V = CaptureView;

    open spec fn view(&self) -> CaptureView {
        CaptureView {
            index: self.index,
            kind: self.kind@,
            start_byte: self.start_byte,
            end_byte: self.end_byte,
            start_row: self.start_row,
            end_row: self.end_row,
            target: self.target,
            definition_kind: match self.definition_kind {
                Some(d) => Some(d@),
                None => None,
            },
        }
    }
}

pub open spec fn capture_views(v: Seq<Capture>) -> Seq<CaptureView> {
    v.map_values(|c: Capture| c@)
}

pub open spec fn match_views(v: Seq<Vec<Capture>>) -> Seq<Seq<CaptureView>> {
    v.map_values(|m: Vec<Capture>| capture_views(m@))
}

/// Why extraction failed.
#[derive(Debug, Clone, Copy, PartialEq, Eq, Structural)]
pub enum ExtractError {
    /// The parser refused the grammar.
    Grammar,
    /// Parsing did not complete.
    Parse,
    /// The symbol query did not compile.
    Query,
    /// A symbol name is not valid UTF-8.
    NotUtf8,
}

/// The text of a byte range of the source, when the range lies in the
/// source and holds valid UTF-8 (`Node::utf8_text`).
pub open spec fn node_text(source: Seq<u8>, start: usize, end: usize) -> Option<Seq<char>> {
    if start <= end <= source.len() && valid_utf8(source.subrange(start as int, end as int)) {
        Some(decode_utf8(source.subrange(start as int, end as int)))
    } else {
        None
    }
}

/// The bytes a symbol's body hash covers: the definition's text with the
/// name's bytes left out, so that a rename alone keeps the hash (the whole
/// text when the name does not lie inside it); none when the definition
/// has no text.
pub open spec fn body_bytes(source: Seq<u8>, start: usize, end: usize, name_start: usize, name_end: usize) -> Seq<u8> {
    if node_text(source, start, end) is Some {
        if start <= name_start <= name_end <= end {
            source.subrange(start as int, name_start as int) + source.subrange(name_end as int, end as int)
        } else {
            source.subrange(start as int, end as int)
        }
    } else {
        Seq::empty()
    }
}

/// 1-based line of a 0-based row.
pub open spec fn line_of(row: usize) -> usize {
    if row < usize::MAX { (row + 1) as usize } else { row }
}

/// The node facts the language classifiers read.
pub open spec fn facts_of(source: Seq<u8>, c: CaptureView) -> NodeFactsView {
    NodeFactsView {
        kind: c.kind,
        target_text: match c.target {
            Some(t) => node_text(source, t.0, t.1),
            None => None,
        },
        definition_kind: c.definition_kind,
    }
}

/// The first capture with the given index.
pub open spec fn first_with_index(caps: Seq<CaptureView>, idx: u32) -> Option<CaptureView>
    decreases caps.len(),
{
    if caps.len() == 0 {
        None
    } else if caps[0].index == idx {
        Some(caps[0])
    } else {
        first_with_index(caps.drop_first(), idx)
    }
}

/// The symbol one match describes: its first capture is the definition,
/// the first capture with the name index is its name. `None` when the match
/// lacks either, or when the language does not classify the definition
/// (a call that defines nothing); an error when the name is not UTF-8.
pub open spec fn symbol_of_match(lang: Lang, caps: Seq<CaptureView>, name_idx: u32, source: Seq<u8>) -> Option<Result<SymbolView, ExtractError>> {
    if caps.len() == 0 {
        None
    } else {
        match first_with_index(caps, name_idx) {
            None => None,
            Some(n) => {
                let outer = caps[0];
                match node_text(source, n.start_byte, n.end_byte) {
                    None => Some(Err(ExtractError::NotUtf8)),
                    Some(name) => match spec_symbol_kind(lang, facts_of(source, outer)) {
                        None => None,
                        Some(kind) => Some(Ok(SymbolView {
                            name,
                            kind,
                            body_hash: xxh64(0, body_bytes(source, outer.start_byte, outer.end_byte, n.start_byte, n.end_byte)),
                            start_line: line_of(outer.start_row),
                            end_line: line_of(outer.end_row),
                        })),
                    },
                }
            },
        }
    }
}

/// The symbols of the matches, in order; the first failing match decides
/// the error.
pub open spec fn spec_symbols_from(lang: Lang, matches: Seq<Seq<CaptureView>>, name_idx: u32, source: Seq<u8>) -> Result<Seq<SymbolView>, ExtractError>
    decreases matches.len(),
{
    if matches.len() == 0 {
        Ok(Seq::empty())
    } else {
        match spec_symbols_from(lang, matches.drop_last(), name_idx, source) {
            Err(e) => Err(e),
            Ok(prev) => match symbol_of_match(lang, matches.last(), name_idx, source) {
                None => Ok(prev),
                Some(Err(e)) => Err(e),
                Some(Ok(s)) => Ok(prev.push(s)),
            },
        }
    }
}

/// Whether a result matches its specification.
pub open spec fn symbols_result_is(r: Result<Vec<Symbol>, ExtractError>, s: Result<Seq<SymbolView>, ExtractError>) -> bool {
    match r {
        Ok(v) => s == Ok::<Seq<SymbolView>, ExtractError>(symbol_views(v@)),
        Err(e) => s == Err::<Seq<SymbolView>, ExtractError>(e),
    }
}

/// The text of a byte range of the source, as `Node::utf8_text` gives it.
fn text_of(source: &[u8], start: usize, end: usize) -> (r: Option<String>)
    ensures
        match r {
            Some(t) => node_text(source@, start, end) == Some(t@),
            None => node_text(source@, start, end) is None,
        },
{
    if start <= end && end <= source.len() {
        let bytes = slice_bytes(source, start, end);
        match core::str::from_utf8(bytes.as_slice()) {
            Ok(t) => {
                let cs = chars_of(t);
                Some(string_of(cs.as_slice()))
            },
            Err(_) => None,
        }
    } else {
        None
    }
}

/// Bytes `start..end` of the source.
fn slice_bytes(source: &[u8], start: usize, end: usize) -> (r: Vec<u8>)
    requires
        start <= end <= source.len(),
    ensures
        r@ == source@.subrange(start as int, end as int),
{
    let mut out: Vec<u8> = Vec::new();
    let mut i: usize = start;
    while i < end
        invariant
            start <= i <= end,
            end <= source.len(),
            out@ == source@.subrange(start as int, i as int),
        decreases end - i,
    {
        out.push(source[i]);
        assert(out@ =~= source@.subrange(start as int, i + 1));
        i += 1;
    }
    out
}

/// The first capture with the given index, by position.
fn find_index(caps: &Vec<Capture>, idx: u32) -> (r: Option<usize>)
    ensures
        match r {
            Some(i) => i < caps.len() && first_with_index(capture_views(caps@), idx) == Some(caps@[i as int]@),
            None => first_with_index(capture_views(caps@), idx) is None,
        },
{
    let ghost v = capture_views(caps@);
    let mut i: usize = 0;
    assert(v.skip(0) == v);
    while i < caps.len()
        invariant
            i <= caps.len(),
            v == capture_views(caps@),
            first_with_index(v, idx) == first_with_index(v.skip(i as int), idx),
        decreases caps.len() - i,
    {
        assert(v.skip(i as int)[0] == caps@[i as int]@);
        assert(v.skip(i as int).drop_first() == v.skip(i + 1));
        if caps[i].index == idx {
            return Some(i);
        }
        i += 1;
    }
    assert(v.skip(caps.len() as int) =~= Seq::<CaptureView>::empty());
    None
}

/// The symbol of one match, if it describes one.
fn symbol_from_match(lang: Lang, caps: &Vec<Capture>, name_idx: u32, source: &[u8]) -> (r: Option<Result<Symbol, ExtractError>>)
    ensures
        match r {
            None => symbol_of_match(lang, capture_views(caps@), name_idx, source@) is None,
            Some(Ok(s)) => symbol_of_match(lang, capture_views(caps@), name_idx, source@) == Some(Ok::<SymbolView, ExtractError>(s@)),
            Some(Err(e)) => symbol_of_match(lang, capture_views(caps@), name_idx, source@) == Some(Err::<SymbolView, ExtractError>(e)),
        },
{
    if caps.len() == 0 {
        return None;
    }
    let ni = match find_index(caps, name_idx) {
        Some(i) => i,
        None => {
            return None;
        },
    };
    let outer = &caps[0];
    let n = &caps[ni];
    let name = match text_of(source, n.start_byte, n.end_byte) {
        Some(t) => t,
        None => {
            return Some(Err(ExtractError::NotUtf8));
        },
    };
    let target_text = match outer.target {
        Some((s, e)) => text_of(source, s, e),
        None => None,
    };
    let definition_kind = match &outer.definition_kind {
        Some(d) => Some(string_of(chars_of(d.as_str()).as_slice())),
        None => None,
    };
    let facts = NodeFacts { kind: string_of(chars_of(outer.kind.as_str()).as_slice()), target_text, definition_kind };
    assert(facts@ == facts_of(source@, outer@));
    let kind = match lang.symbol_kind(&facts) {
        Some(k) => k,
        None => {
            return None;
        },
    };
    let body = match text_of(source, outer.start_byte, outer.end_byte) {
        Some(_) => {
            if outer.start_byte <= n.start_byte && n.start_byte <= n.end_byte && n.end_byte <= outer.end_byte {
                let mut head = slice_bytes(source, outer.start_byte, n.start_byte);
                let mut tail = slice_bytes(source, n.end_byte, outer.end_byte);
                head.append(&mut tail);
                head
            } else {
                slice_bytes(source, outer.start_byte, outer.end_byte)
            }
        },
        None => Vec::new(),
    };
    assert(body@ == body_bytes(source@, outer.start_byte, outer.end_byte, n.start_byte, n.end_byte));
    let body_hash = xxhash64(0, body.as_slice());
    let start_line = if outer.start_row < usize::MAX { outer.start_row + 1 } else { outer.start_row };
    let end_line = if outer.end_row < usize::MAX { outer.end_row + 1 } else { outer.end_row };
    Some(Ok(Symbol { name, kind, body_hash, start_line, end_line }))
}

/// The symbols the matches of a symbol query describe, in match order.
pub fn symbols_from_matches(lang: Lang, matches: &Vec<Vec<Capture>>, name_idx: u32, source: &[u8]) -> (r: Result<Vec<Symbol>, ExtractError>)
    ensures
        symbols_result_is(r, spec_symbols_from(lang, match_views(matches@), name_idx, source@)),
{
    let ghost mv = match_views(matches@);
    let mut out: Vec<Symbol> = Vec::new();
    let mut i: usize = 0;
    assert(mv.take(0) =~= Seq::<Seq<CaptureView>>::empty());
    assert(symbol_views(out@) =~= Seq::<SymbolView>::empty());
    while i < matches.len()
        invariant
            i <= matches.len(),
            mv == match_views(matches@),
            spec_symbols_from(lang, mv.take(i as int), name_idx, source@) == Ok::<Seq<SymbolView>, ExtractError>(symbol_views(out@)),
        decreases matches.len() - i,
    {
        assert(mv.take(i + 1).drop_last() == mv.take(i as int));
        assert(mv.take(i + 1).last() == capture_views(matches@[i as int]@));
        match symbol_from_match(lang, &matches[i], name_idx, source) {
            None => {},
            Some(Ok(s)) => {
                let ghost before = out@;
                out.push(s);
                assert(symbol_views(out@) =~= symbol_views(before).push(s@));
            },
            Some(Err(e)) => {
                proof {
                    lemma_error_persists(lang, mv, i as int + 1, name_idx, source@);
                }
                return Err(e);
            },
        }
        i += 1;
    }
    assert(mv.take(matches.len() as int) == mv);
    Ok(out)
}

/// An error in the first `k` matches is the error of all of them.
proof fn lemma_error_persists(lang: Lang, mv: Seq<Seq<CaptureView>>, k: int, name_idx: u32, source: Seq<u8>)
    requires
        0 <= k <= mv.len(),
        spec_symbols_from(lang, mv.take(k), name_idx, source) is Err,
    ensures
        spec_symbols_from(lang, mv, name_idx, source) == spec_symbols_from(lang, mv.take(k), name_idx, source),
    decreases mv.len() - k,
{
    if k == mv.len() {
        assert(mv.take(k) == mv);
    } else {
        assert(mv.take(k + 1).drop_last() == mv.take(k));
        lemma_error_persists(lang, mv, k + 1, name_idx, source);
    }
}

/// What extraction reads of one captured node.
pub fn capture_from(index: u32, node: &tree_sitter::Node) -> (r: Capture)
    ensures
        r.index == index,
{
    let target = match node_child(node, "target") {
        Some(t) => Some((node_start_byte(&t), node_end_byte(&t))),
        None => None,
    };
    let definition_kind = match node_child(node, "definition") {
        Some(d) => Some(node_kind(&d)),
        None => None,
    };
    Capture {
        index,
        kind: node_kind(node),
        start_byte: node_start_byte(node),
        end_byte: node_end_byte(node),
        start_row: node_start_row(node),
        end_row: node_end_row(node),
        target,
        definition_kind,
    }
}

/// The language of a path, by its extension (none for a path without one).
pub open spec fn spec_language_of(path: Seq<char>) -> Option<Lang> {
    spec_for_extension(match extension(path) {
        Some(e) => e,
        None => Seq::empty(),
    })
}

/// The capture index extraction reads names from: the query's `name`
/// capture, or the first capture when it has none.
pub open spec fn name_index(i: Option<u32>) -> u32 {
    match i {
        Some(i) => i,
        None => 0,
    }
}

/// The extraction of a file: no symbols for a path of no supported
/// language; else the symbols the matches of the language's symbol query
/// over the source describe, or the failure to run that query.
pub open spec fn spec_extract(path: Seq<char>, source: Seq<u8>) -> Result<Seq<SymbolView>, ExtractError> {
    match spec_language_of(path) {
        None => Ok(Seq::empty()),
        Some(l) => match ts_query_run(l, spec_symbol_query(l)@, source) {
            Ok((m, i)) => spec_symbols_from(l, m, name_index(i), source),
            Err(e) => Err(e),
        },
    }
}

/// Extracts the symbols of a source file with tree-sitter. A file of no
/// supported language has none.
pub fn extract(path: &str, source: &[u8]) -> (r: Result<Vec<Symbol>, ExtractError>)
    ensures
        symbols_result_is(r, spec_extract(path@, source@)),
{
    let pc = chars_of(path);
    let ext = match extension_of(pc.as_slice()) {
        Some(e) => e,
        None => Vec::new(),
    };
    assert(ext@ == (match extension(path@) { Some(e) => e, None => Seq::<char>::empty() }));
    let lang = match for_extension_chars(ext.as_slice()) {
        Some(l) => l,
        None => {
            let none: Vec<Symbol> = Vec::new();
            assert(symbol_views(none@) =~= Seq::<SymbolView>::empty());
            return Ok(none);
        },
    };
    let (matches, idx) = match run_query(lang, lang.symbol_query(), source) {
        Ok(run) => run,
        Err(e) => {
            return Err(e);
        },
    };
    let name_idx = match idx {
        Some(i) => i,
        None => 0,
    };
    symbols_from_matches(lang, &matches, name_idx, source)
}

/// Whether a symbol diff result matches its specification.
pub open spec fn file_diff_of(path: Seq<char>, base: Seq<SymbolView>, head: Seq<SymbolView>) -> Seq<DiffedView> {
    spec_diff_symbols(seq![(path, base)], seq![(path, head)])
}

/// The symbol diff of one file, given its symbols at both refs.
pub fn diff_file_symbols(path: &str, base_syms: Vec<Symbol>, head_syms: Vec<Symbol>) -> (r: Vec<DiffedSymbol>)
    ensures
        diffed_views(r@) == file_diff_of(path@, symbol_views(base_syms@), symbol_views(head_syms@)),
{
    let ghost b = symbol_views(base_syms@);
    let ghost h = symbol_views(head_syms@);
    let base_map = SymbolMap::single(string_of(chars_of(path).as_slice()), base_syms);
    let head_map = SymbolMap::single(string_of(chars_of(path).as_slice()), head_syms);
    diff_symbols(&base_map, &head_map)
}

/// A file with no symbols at either ref has no symbol changes.
pub proof fn lemma_empty_file_diff(path: Seq<char>)
    ensures
        file_diff_of(path, Seq::empty(), Seq::empty()) == Seq::<DiffedView>::empty(),
{
    let e = Seq::<SymbolView>::empty();
    let m = seq![(path, e)];
    assert(m.drop_last() =~= Seq::<(Seq<char>, Seq<SymbolView>)>::empty());
    assert(base_file_part(m, m, path, e) =~= Seq::<DiffedView>::empty());
    assert(m.last() == (path, e));
    assert(base_part_in(m, m.drop_last(), m) == Seq::<DiffedView>::empty());
    assert(base_part(m, m) =~= Seq::<DiffedView>::empty());
    let bp = base_part(m, m);
    assert(added_file_part(m, bp, path, e) == Seq::<DiffedView>::empty());
    assert(added_part(m, bp, m.drop_last()) == Seq::<DiffedView>::empty());
    assert(added_part(m, bp, m) =~= Seq::<DiffedView>::empty());
    assert(file_diff_of(path, e, e) =~= Seq::<DiffedView>::empty());
}

/// Whether a status reports a move to another file.
pub open spec fn is_move(st: StatusView) -> bool {
    st is Moved || st is MovedModified || st is MovedRenamedModified
}

/// The symbol diff of one file never reports a move: every entry belongs
/// to that file.
pub proof fn law_file_diff_has_no_moves(path: Seq<char>, base: Seq<SymbolView>, head: Seq<SymbolView>)
    ensures
        forall|k: int| 0 <= k < file_diff_of(path, base, head).len() ==> {
            &&& (#[trigger] file_diff_of(path, base, head)[k]).file == path
            &&& !is_move(file_diff_of(path, base, head)[k].status)
        },
{
    let b = seq![(path, base)];
    let h = seq![(path, head)];
    assert(h.drop_first() =~= Seq::<FileSymbolsView>::empty());
    assert forall|n: Seq<char>| #[trigger] moved_to(h, path, n) is None by {
        assert(h[0].0 == path);
        assert(moved_to(h.drop_first(), path, n) is None);
    }
    assert(b.drop_last() =~= Seq::<FileSymbolsView>::empty());
    assert(base_part_in(b, b.drop_last(), h) == Seq::<DiffedView>::empty());
    let bfp = base_file_part(b, h, path, base);
    let bp = base_part(b, h);
    assert(bp =~= bfp);
    assert(h.drop_last() =~= Seq::<FileSymbolsView>::empty());
    assert(added_part(b, bp, h.drop_last()) == Seq::<DiffedView>::empty());
    let ap = added_part(b, bp, h);
    assert(ap =~= added_file_part(b, bp, path, head));
    lemma_added_file_entries(b, bp, path, head);
    let all = file_diff_of(path, base, head);
    assert(all == bp + ap);
    assert forall|k: int| 0 <= k < all.len() implies {
        &&& (#[trigger] all[k]).file == path
        &&& !is_move(all[k].status)
    } by {
        if k < bp.len() {
            assert(all[k] == bfp[k]);
            assert(bfp[k] == base_entry(b, h, path, base[k]));
            assert(moved_to(h, path, base[k].name) is None);
        } else {
            assert(all[k] == ap[k - bp.len()]);
        }
    }
}

/// Computing a file's symbol changes from its bytes never reports a move.
pub proof fn law_compute_symbols_has_no_moves(path: Seq<char>, base: Seq<u8>, head: Seq<u8>)
    ensures
        spec_compute_symbols(path, base, head) matches Ok(d) ==> forall|k: int| 0 <= k < d.len() ==> {
            &&& (#[trigger] d[k]).file == path
            &&& !is_move(d[k].status)
        },
{
    match (spec_extract(path, base), spec_extract(path, head)) {
        (Ok(b), Ok(h)) => law_file_diff_has_no_moves(path, b, h),
        _ => {},
    }
}

/// The symbol changes of a file from its bytes at both refs: the diff of
/// the two extractions, or the first extraction failure (base first).
pub open spec fn spec_compute_symbols(path: Seq<char>, base: Seq<u8>, head: Seq<u8>) -> Result<Seq<DiffedView>, ExtractError> {
    match spec_extract(path, base) {
        Err(e) => Err(e),
        Ok(b) => match spec_extract(path, head) {
            Err(e) => Err(e),
            Ok(h) => Ok(file_diff_of(path, b, h)),
        },
    }
}

/// Whether a result of diffed symbols is the given outcome.
pub open spec fn diffed_result_is(r: Result<Vec<DiffedSymbol>, ExtractError>, s: Result<Seq<DiffedView>, ExtractError>) -> bool {
    match r {
        Ok(v) => s == Ok::<Seq<DiffedView>, ExtractError>(diffed_views(v@)),
        Err(e) => s == Err::<Seq<DiffedView>, ExtractError>(e),
    }
}

/// Layer 2 symbols of a file: its symbols at both refs, extracted from the
/// file's bytes at each (empty where the file is absent), then diffed. A
/// file of no supported language has no symbols, so no symbol changes.
pub fn compute_symbols(path: &str, base_bytes: &[u8], head_bytes: &[u8]) -> (r: Result<Vec<DiffedSymbol>, ExtractError>)
    ensures
        diffed_result_is(r, spec_compute_symbols(path@, base_bytes@, head_bytes@)),
        spec_language_of(path@) is None ==> (r matches Ok(v) && v@.len() == 0),
{
    let base_syms = match extract(path, base_bytes) {
        Ok(v) => v,
        Err(e) => {
            return Err(e);
        },
    };
    let head_syms = match extract(path, head_bytes) {
        Ok(v) => v,
        Err(e) => {
            return Err(e);
        },
    };
    let ghost b = symbol_views(base_syms@);
    let ghost h = symbol_views(head_syms@);
    let r = diff_file_symbols(path, base_syms, head_syms);
    proof {
        if spec_language_of(path@) is None {
            assert(b =~= Seq::<SymbolView>::empty());
            assert(h =~= Seq::<SymbolView>::empty());
            lemma_empty_file_diff(path@);
            assert(diffed_views(r@).len() == r@.len());
        }
    }
    Ok(r)
}

} // verus!

verus! {

/// The message an extraction error is reported with.
pub open spec fn spec_extract_message(e: ExtractError, path: Seq<char>) -> Seq<char> {
    match e {
        ExtractError::Grammar => "tree-sitter rejected the grammar for "@ + path,
        ExtractError::Parse => "tree-sitter parse returned None for "@ + path,
        ExtractError::Query => "invalid symbol query for "@ + path,
        ExtractError::NotUtf8 => "symbol name is not valid UTF-8 in "@ + path,
    }
}

/// The message an extraction error is reported with.
pub fn extract_error_message(e: ExtractError, path: &str) -> (r: String)
    ensures
        r@ == spec_extract_message(e, path@),
{
    let mut out = String::new();
    match e {
        ExtractError::Grammar => crate::text::push_str(&mut out, "tree-sitter rejected the grammar for "),
        ExtractError::Parse => crate::text::push_str(&mut out, "tree-sitter parse returned None for "),
        ExtractError::Query => crate::text::push_str(&mut out, "invalid symbol query for "),
        ExtractError::NotUtf8 => crate::text::push_str(&mut out, "symbol name is not valid UTF-8 in "),
    }
    crate::text::push_str(&mut out, path);
    out
}

} // verus!
