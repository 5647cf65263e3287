//! Reconciles language-server document symbols with the heuristic symbol
//! diff: a diffed symbol that the server also reports becomes confirmed and
//! takes the server's line range.

use vstd::prelude::*;
use crate::skeletal::{spec_compute_symbols, ExtractError};
use vstd::string::*;
use crate::diff::{diffed_views, DiffedSymbol, DiffedView};
use crate::languages::SymbolKind;
use crate::text::{chars_of, find_last, last_index_of, str_eq};

verus! {

/// A symbol reported by a language server: its name, its LSP `SymbolKind`
/// number, and the zero-based lines where its range starts and ends.
#[derive(Debug, Clone)]
pub struct LspSymbol {
    pub name: String,
    pub kind: i32,
    pub start_line: u32,
    pub end_line: u32,
}

pub struct LspSymbolView {
    pub name: Seq<char>,
    pub kind: i32,
    pub start_line: u32,
    pub end_line: u32,
}

impl View for LspSymbol {
    type V = LspSymbolView;

    open spec fn view(&self) -> LspSymbolView {
        LspSymbolView { name: self.name@, kind: self.kind, start_line: self.start_line, end_line: self.end_line }
    }
}

pub open spec fn lsp_views(s: Seq<LspSymbol>) -> Seq<LspSymbolView> {
    s.map_values(|x: LspSymbol| x@)
}

/// LSP `SymbolKind` numbers.
pub const LSP_MODULE: i32 = 2;
pub const LSP_NAMESPACE: i32 = 3;
pub const LSP_PACKAGE: i32 = 4;
pub const LSP_CLASS: i32 = 5;
pub const LSP_METHOD: i32 = 6;
pub const LSP_PROPERTY: i32 = 7;
pub const LSP_FIELD: i32 = 8;
pub const LSP_CONSTRUCTOR: i32 = 9;
pub const LSP_ENUM: i32 = 10;
pub const LSP_INTERFACE: i32 = 11;
pub const LSP_FUNCTION: i32 = 12;
pub const LSP_VARIABLE: i32 = 13;
pub const LSP_CONSTANT: i32 = 14;
pub const LSP_OBJECT: i32 = 19;
pub const LSP_ENUM_MEMBER: i32 = 22;
pub const LSP_STRUCT: i32 = 23;
pub const LSP_OPERATOR: i32 = 25;
pub const LSP_TYPE_PARAMETER: i32 = 26;

/// Which LSP kinds count as each of our kinds. Permissive on purpose: a
/// name match without a kind disagreement beats a false negative.
pub open spec fn spec_kind_matches(lsp: i32, ours: SymbolKind) -> bool {
    match ours {
        SymbolKind::Fn => lsp == LSP_FUNCTION || lsp == LSP_METHOD || lsp == LSP_CONSTRUCTOR,
        SymbolKind::Ty => lsp == LSP_CLASS || lsp == LSP_STRUCT || lsp == LSP_OBJECT || lsp == LSP_TYPE_PARAMETER,
        SymbolKind::If => lsp == LSP_INTERFACE,
        SymbolKind::En => lsp == LSP_ENUM || lsp == LSP_ENUM_MEMBER,
        SymbolKind::Co => lsp == LSP_CONSTANT || lsp == LSP_VARIABLE || lsp == LSP_FIELD || lsp == LSP_PROPERTY,
        SymbolKind::Mo => lsp == LSP_MODULE || lsp == LSP_NAMESPACE || lsp == LSP_PACKAGE,
        SymbolKind::Im => lsp == LSP_CLASS || lsp == LSP_OBJECT || lsp == LSP_MODULE,
        SymbolKind::Ma => lsp == LSP_FUNCTION || lsp == LSP_OPERATOR,
    }
}

/// Match an LSP symbol kind against our language-agnostic kind.
pub fn lsp_kind_matches(lsp: i32, ours: SymbolKind) -> (r: bool)
    ensures
        r == spec_kind_matches(lsp, ours),
{
    match ours {
        SymbolKind::Fn => lsp == LSP_FUNCTION || lsp == LSP_METHOD || lsp == LSP_CONSTRUCTOR,
        SymbolKind::Ty => lsp == LSP_CLASS || lsp == LSP_STRUCT || lsp == LSP_OBJECT || lsp == LSP_TYPE_PARAMETER,
        SymbolKind::If => lsp == LSP_INTERFACE,
        SymbolKind::En => lsp == LSP_ENUM || lsp == LSP_ENUM_MEMBER,
        SymbolKind::Co => lsp == LSP_CONSTANT || lsp == LSP_VARIABLE || lsp == LSP_FIELD || lsp == LSP_PROPERTY,
        SymbolKind::Mo => lsp == LSP_MODULE || lsp == LSP_NAMESPACE || lsp == LSP_PACKAGE,
        SymbolKind::Im => lsp == LSP_CLASS || lsp == LSP_OBJECT || lsp == LSP_MODULE,
        SymbolKind::Ma => lsp == LSP_FUNCTION || lsp == LSP_OPERATOR,
    }
}

/// A server symbol name without its receiver or qualifier: what follows the
/// last `.`, or the whole name.
pub open spec fn spec_bare_name(name: Seq<char>) -> Seq<char> {
    match last_index_of(name, '.') {
        Some(i) => name.skip(i + 1),
        None => name,
    }
}

/// Strip receiver/qualifier prefix from an LSP symbol name.
///
/// LSP servers (e.g. gopls) qualify method names: "(*Server).Foo" → "Foo".
/// Tree-sitter extracts only the bare name, so we normalise before matching.
pub fn lsp_bare_name(name: &str) -> (r: &str)
    ensures
        r@ == spec_bare_name(name@),
{
    let cs = chars_of(name);
    proof {
        crate::text::lemma_last_index_of(name@, '.');
    }
    match find_last(cs.as_slice(), '.') {
        Some(i) => {
            assert(last_index_of(name@, '.') == Some(i as int));
            assert(i < cs.len());
            let r = name.substring_char(i + 1, cs.len());
            assert(name@.subrange(i + 1, name@.len() as int) == name@.skip(i + 1));
            r
        },
        None => name,
    }
}

/// The first server symbol naming the same symbol with a compatible kind.
pub open spec fn lsp_match(lsp: Seq<LspSymbolView>, d: DiffedView) -> Option<LspSymbolView>
    decreases lsp.len(),
{
    if lsp.len() == 0 {
        None
    } else if spec_bare_name(lsp[0].name) == d.name && spec_kind_matches(lsp[0].kind, d.kind) {
        Some(lsp[0])
    } else {
        lsp_match(lsp.drop_first(), d)
    }
}

/// A diffed symbol after confirmation: confirmed with the server's range
/// (one-based lines) when the server reports it, unchanged otherwise.
pub open spec fn confirmed_entry(lsp: Seq<LspSymbolView>, d: DiffedView) -> DiffedView {
    match lsp_match(lsp, d) {
        Some(ls) => DiffedView {
            confirmed: true,
            lsp_range: Some((#[verifier::truncate] ((ls.start_line + 1) as usize), #[verifier::truncate] ((ls.end_line + 1) as usize))),
            ..d
        },
        None => d,
    }
}

fn find_lsp_match(lsp_syms: &[LspSymbol], d: &DiffedSymbol) -> (r: Option<usize>)
    ensures
        match r {
            Some(i) => i < lsp_syms.len() && lsp_match(lsp_views(lsp_syms@), d@) == Some(lsp_syms@[i as int]@),
            None => lsp_match(lsp_views(lsp_syms@), d@) is None,
        },
{
    let ghost v = lsp_views(lsp_syms@);
    let mut i: usize = 0;
    assert(v.skip(0) == v);
    while i < lsp_syms.len()
        invariant
            i <= lsp_syms.len(),
            v == lsp_views(lsp_syms@),
            lsp_match(v, d@) == lsp_match(v.skip(i as int), d@),
        decreases lsp_syms.len() - i,
    {
        let ls = &lsp_syms[i];
        assert(v.skip(i as int)[0] == ls@);
        assert(v.skip(i as int).drop_first() == v.skip(i + 1));
        let bare = lsp_bare_name(ls.name.as_str());
        if str_eq(bare, d.name.as_str()) && lsp_kind_matches(ls.kind, d.kind) {
            return Some(i);
        }
        i += 1;
    }
    assert(v.skip(lsp_syms.len() as int) =~= Seq::<LspSymbolView>::empty());
    None
}

/// Apply language-server confirmation to diffed symbols: each one the
/// server reports (same bare name, compatible kind) becomes confirmed and
/// records the server's line range, one-based.
pub fn apply_lsp_confirmation(lsp_syms: &[LspSymbol], diffed: &mut Vec<DiffedSymbol>)
    ensures
        diffed_views(final(diffed)@) == diffed_views(old(diffed)@).map_values(
            |d: DiffedView| confirmed_entry(lsp_views(lsp_syms@), d),
        ),
{
    let ghost start = diffed_views(diffed@);
    let mut i: usize = 0;
    while i < diffed.len()
        invariant
            i <= diffed.len(),
            diffed@.len() == start.len(),
            forall|j: int| 0 <= j < i ==> diffed@[j]@ == confirmed_entry(lsp_views(lsp_syms@), #[trigger] start[j]),
            forall|j: int| i <= j < diffed@.len() ==> diffed@[j]@ == #[trigger] start[j],
        decreases diffed.len() - i,
    {
        assert(diffed@[i as int]@ == start[i as int]);
        match find_lsp_match(lsp_syms, &diffed[i]) {
            Some(k) => {
                let start_line = #[verifier::truncate] ((lsp_syms[k].start_line as u64 + 1) as usize);
                let end_line = #[verifier::truncate] ((lsp_syms[k].end_line as u64 + 1) as usize);
                let mut d = diffed.remove(i);
                d.confirmed = true;
                d.lsp_range = Some((start_line, end_line));
                diffed.insert(i, d);
            },
            None => {},
        }
        i += 1;
    }
    assert(diffed_views(diffed@) =~= start.map_values(|d: DiffedView| confirmed_entry(lsp_views(lsp_syms@), d)));
}

} // verus!

verus! {

/// Confirmation only upgrades: a symbol keeps its name, kind, file and
/// status, and a confirmed symbol stays confirmed with its range.
pub proof fn law_confirmation_only_upgrades(lsp: Seq<LspSymbolView>, d: DiffedView)
    ensures
        confirmed_entry(lsp, d).name == d.name,
        confirmed_entry(lsp, d).kind == d.kind,
        confirmed_entry(lsp, d).file == d.file,
        confirmed_entry(lsp, d).status == d.status,
        d.confirmed ==> confirmed_entry(lsp, d).confirmed,
        confirmed_entry(lsp, d).confirmed ==> (d.confirmed || lsp_match(lsp, d) is Some),
{
}

} // verus!

verus! {

/// Confirming a list of diffed symbols keeps the list: the same number of
/// entries, each with its name, kind, file and status; an entry becomes
/// confirmed only when it was or a server symbol matches it; and with no
/// server symbols nothing changes.
pub proof fn law_confirmation_keeps_symbols(lsp: Seq<LspSymbolView>, ds: Seq<DiffedView>)
    ensures
        confirmed_all(lsp, ds).len() == ds.len(),
        forall|i: int| 0 <= i < ds.len() ==> {
            &&& (#[trigger] confirmed_all(lsp, ds)[i]).name == ds[i].name
            &&& confirmed_all(lsp, ds)[i].kind == ds[i].kind
            &&& confirmed_all(lsp, ds)[i].file == ds[i].file
            &&& confirmed_all(lsp, ds)[i].status == ds[i].status
            &&& (confirmed_all(lsp, ds)[i].confirmed ==> ds[i].confirmed || lsp_match(lsp, ds[i]) is Some)
        },
        lsp.len() == 0 ==> confirmed_all(lsp, ds) == ds,
{
    if lsp.len() == 0 {
        assert forall|i: int| 0 <= i < ds.len() implies confirmed_entry(lsp, ds[i]) == ds[i] by {
            assert(lsp_match(lsp, ds[i]) is None);
        }
        assert(confirmed_all(lsp, ds) =~= ds);
    }
}

/// Every diffed symbol after confirmation, in order.
pub open spec fn confirmed_all(lsp: Seq<LspSymbolView>, ds: Seq<DiffedView>) -> Seq<DiffedView> {
    ds.map_values(|d: DiffedView| confirmed_entry(lsp, d))
}

} // verus!

verus! {

/// Diffed symbols after the language server's answer, if there is one.
pub open spec fn spec_confirm_symbols(lsp: Option<Seq<LspSymbolView>>, ds: Seq<DiffedView>) -> Seq<DiffedView> {
    match lsp {
        Some(l) => confirmed_all(l, ds),
        None => ds,
    }
}

/// Confirms diffed symbols against the language server's symbols, when a
/// server answered.
pub fn confirm_symbols(diffed: &mut Vec<DiffedSymbol>, lsp_syms: Option<&[LspSymbol]>)
    ensures
        diffed_views(final(diffed)@) == spec_confirm_symbols(
            match lsp_syms { Some(l) => Some(lsp_views(l@)), None => None },
            diffed_views(old(diffed)@),
        ),
{
    match lsp_syms {
        Some(l) => apply_lsp_confirmation(l, diffed),
        None => {},
    }
}

/// The confirmed Layer 2 symbols of a file from its bytes at both refs and
/// the language server's answer, if any: the extraction failure, or the
/// symbol changes confirmed against the server's symbols.
pub open spec fn spec_symbols_confirmed(path: Seq<char>, base: Seq<u8>, head: Seq<u8>, lsp: Option<Seq<LspSymbolView>>) -> Result<Seq<DiffedView>, ExtractError> {
    match spec_compute_symbols(path, base, head) {
        Ok(v) => Ok(spec_confirm_symbols(lsp, v)),
        Err(e) => Err(e),
    }
}

/// Confirming a file's computed symbols fails exactly when computing them
/// does, and otherwise keeps them: the same number of entries, each with
/// its name, kind, file and status, confirmed only when it was or a server
/// symbol matches it; without a server answer nothing changes.
pub proof fn law_symbols_confirmed(path: Seq<char>, base: Seq<u8>, head: Seq<u8>, lsp: Option<Seq<LspSymbolView>>)
    ensures
        spec_compute_symbols(path, base, head) is Err ==> spec_symbols_confirmed(path, base, head, lsp) == spec_compute_symbols(path, base, head),
        spec_compute_symbols(path, base, head) matches Ok(v) ==> {
            &&& spec_symbols_confirmed(path, base, head, lsp) matches Ok(s)
            &&& s.len() == v.len()
            &&& forall|i: int| 0 <= i < v.len() ==> {
                &&& (#[trigger] s[i]).name == v[i].name
                &&& s[i].kind == v[i].kind
                &&& s[i].file == v[i].file
                &&& s[i].status == v[i].status
                &&& (s[i].confirmed ==> v[i].confirmed || (lsp matches Some(l) && lsp_match(l, v[i]) is Some))
            }
            &&& lsp is None ==> s == v
        },
{
    match spec_compute_symbols(path, base, head) {
        Ok(v) => {
            match lsp {
                Some(l) => {
                    law_confirmation_keeps_symbols(l, v);
                },
                None => {},
            }
        },
        Err(_) => {},
    }
}

} // verus!

verus! {

/// Which LSP `SymbolKind` numbers each of our kinds accepts: functions
/// take Function (12), Method (6) and Constructor (9); types take Class
/// (5), Struct (23), Object (19) and TypeParameter (26); interfaces take
/// Interface (11); enums take Enum (10) and EnumMember (22); constants take
/// Constant (14), Variable (13), Field (8) and Property (7); modules take
/// Module (2), Namespace (3) and Package (4); implementations take Class
/// (5), Object (19) and Module (2); macros take Function (12) and
/// Operator (25).
pub proof fn law_kind_table(k: i32)
    ensures
        spec_kind_matches(k, SymbolKind::Fn) <==> (k == 12 || k == 6 || k == 9),
        spec_kind_matches(k, SymbolKind::Ty) <==> (k == 5 || k == 23 || k == 19 || k == 26),
        spec_kind_matches(k, SymbolKind::If) <==> k == 11,
        spec_kind_matches(k, SymbolKind::En) <==> (k == 10 || k == 22),
        spec_kind_matches(k, SymbolKind::Co) <==> (k == 14 || k == 13 || k == 8 || k == 7),
        spec_kind_matches(k, SymbolKind::Mo) <==> (k == 2 || k == 3 || k == 4),
        spec_kind_matches(k, SymbolKind::Im) <==> (k == 5 || k == 19 || k == 2),
        spec_kind_matches(k, SymbolKind::Ma) <==> (k == 12 || k == 25),
{
}

/// A server symbol with the same bare name and an accepted kind confirms
/// a diffed symbol when it is the first server symbol of that name, with
/// the server's lines taken one-based; e.g. a class (5) confirms a type.
pub proof fn law_first_named_server_symbol_confirms(ls: LspSymbolView, rest: Seq<LspSymbolView>, d: DiffedView)
    requires
        spec_bare_name(ls.name) == d.name,
        spec_kind_matches(ls.kind, d.kind),
    ensures
        confirmed_entry(seq![ls] + rest, d).confirmed,
        confirmed_entry(seq![ls] + rest, d).lsp_range == Some(((ls.start_line + 1) as usize, (ls.end_line + 1) as usize)),
{
    assert((seq![ls] + rest)[0] == ls);
}

} // verus!
