//! Go: functions, methods, types, interfaces, constants and variables.

use vstd::prelude::*;
use super::{is_text, str_views, LanguageSupport, NodeFacts, SymbolKind};

verus! {

pub const GO_SYMBOL_QUERY: &'static str = r#"
(function_declaration name: (identifier) @name) @fn
(method_declaration name: (field_identifier) @name) @fn
(type_declaration (type_spec name: (type_identifier) @name)) @ty
(const_declaration (const_spec name: (identifier) @name)) @co
(var_declaration (var_spec name: (identifier) @name)) @co
"#;

pub struct Go;

impl Go {
    /// The Go grammar, `tree_sitter_go::LANGUAGE`.
    #[verifier::external_body]
    pub fn grammar(&self) -> tree_sitter::Language {
        tree_sitter_go::LANGUAGE.into()
    }
}

/// Symbol kind of a Go definition node type.
pub open spec fn spec_go_kind(kind: Seq<char>) -> Option<SymbolKind> {
    if kind == "function_declaration"@ || kind == "method_declaration"@ {
        Some(SymbolKind::Fn)
    } else if kind == "type_declaration"@ {
        Some(SymbolKind::Ty)
    } else if kind == "const_declaration"@ || kind == "var_declaration"@ {
        Some(SymbolKind::Co)
    } else {
        None
    }
}

impl LanguageSupport for Go {
    fn extensions(&self) -> (r: Vec<&'static str>)
        ensures
            str_views(r@) == seq!["go"@],
    {
        let r = vec!["go"];
        assert(str_views(r@) =~= seq!["go"@]);
        r
    }

    fn symbol_query(&self) -> (r: &'static str)
        ensures
            r == GO_SYMBOL_QUERY,
    {
        GO_SYMBOL_QUERY
    }

    fn lsp_command(&self) -> (r: Vec<&'static str>)
        ensures
            str_views(r@) == seq!["gopls"@],
    {
        let r = vec!["gopls"];
        assert(str_views(r@) =~= seq!["gopls"@]);
        r
    }

    fn lsp_language_id(&self) -> (r: &'static str)
        ensures
            r@ == "go"@,
    {
        "go"
    }

    fn symbol_kind(&self, node: &NodeFacts) -> (r: Option<SymbolKind>)
        ensures
            r == spec_go_kind(node.kind@),
    {
        let k = &node.kind;
        if is_text(k, "function_declaration") || is_text(k, "method_declaration") {
            Some(SymbolKind::Fn)
        } else if is_text(k, "type_declaration") {
            Some(SymbolKind::Ty)
        } else if is_text(k, "const_declaration") || is_text(k, "var_declaration") {
            Some(SymbolKind::Co)
        } else {
            None
        }
    }

    fn project_files(&self) -> (r: Vec<&'static str>)
        ensures
            str_views(r@) == seq!["go.mod"@],
    {
        let r = vec!["go.mod"];
        assert(str_views(r@) =~= seq!["go.mod"@]);
        r
    }
}

} // verus!
