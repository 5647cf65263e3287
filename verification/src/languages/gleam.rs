//! Gleam: functions, custom types, type aliases and constants.
use vstd::prelude::*;
use super::{is_text, str_views, LanguageSupport, NodeFacts, SymbolKind};

verus! {

pub const GLEAM_SYMBOL_QUERY: &'static str = r#"
(function name: (identifier) @name) @fn

(type_definition
  (type_name name: (type_identifier) @name)) @en

(type_alias
  (type_name name: (type_identifier) @name)) @ty

(constant name: (identifier) @name) @co
"#;

pub struct Gleam;

impl Gleam {
    /// The Gleam grammar, `tree_sitter_gleam::LANGUAGE`.
    #[verifier::external_body]
    pub fn grammar(&self) -> tree_sitter::Language {
        tree_sitter_gleam::LANGUAGE.into()
    }
}

/// Symbol kind of a definition node type.
pub open spec fn spec_gleam_kind(kind: Seq<char>) -> Option<SymbolKind> {
    if kind == "function"@ {
        Some(SymbolKind::Fn)
    } else if kind == "type_definition"@ {
        Some(SymbolKind::En)
    } else if kind == "type_alias"@ {
        Some(SymbolKind::Ty)
    } else if kind == "constant"@ {
        Some(SymbolKind::Co)
    } else {
        None
    }
}

impl LanguageSupport for Gleam {
    fn extensions(&self) -> (r: Vec<&'static str>)
        ensures
            str_views(r@) == seq!["gleam"@],
    {
        let r = vec!["gleam"];
        assert(str_views(r@) =~= seq!["gleam"@]);
        r
    }

    fn symbol_query(&self) -> (r: &'static str)
        ensures
            r == GLEAM_SYMBOL_QUERY,
    {
        GLEAM_SYMBOL_QUERY
    }

    fn lsp_command(&self) -> (r: Vec<&'static str>)
        ensures
            str_views(r@) == seq!["gleam"@, "lsp"@],
    {
        let r = vec!["gleam", "lsp"];
        assert(str_views(r@) =~= seq!["gleam"@, "lsp"@]);
        r
    }

    fn lsp_language_id(&self) -> (r: &'static str)
        ensures
            r@ == "gleam"@,
    {
        "gleam"
    }

    fn symbol_kind(&self, node: &NodeFacts) -> (r: Option<SymbolKind>)
        ensures
            r == spec_gleam_kind(node.kind@),
    {
        let k = &node.kind;
        if is_text(k, "function") {
            Some(SymbolKind::Fn)
        } else if is_text(k, "type_definition") {
            Some(SymbolKind::En)
        } else if is_text(k, "type_alias") {
            Some(SymbolKind::Ty)
        } else if is_text(k, "constant") {
            Some(SymbolKind::Co)
        } else {
            None
        }
    }

    fn project_files(&self) -> (r: Vec<&'static str>)
        ensures
            str_views(r@) == seq!["gleam.toml"@],
    {
        let r = vec!["gleam.toml"];
        assert(str_views(r@) =~= seq!["gleam.toml"@]);
        r
    }
}

} // verus!
