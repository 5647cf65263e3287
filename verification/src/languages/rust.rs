//! Rust: functions, types, enums, traits, impls, modules, constants and macros.
use vstd::prelude::*;
use super::{is_text, str_views, LanguageSupport, NodeFacts, SymbolKind};

verus! {

pub const RUST_SYMBOL_QUERY: &'static str = r#"
(function_item name: (identifier) @name) @fn
(struct_item name: (type_identifier) @name) @ty
(enum_item name: (type_identifier) @name) @en
(type_item name: (type_identifier) @name) @ty
(trait_item name: (type_identifier) @name) @if
(impl_item type: (type_identifier) @name) @im
(impl_item type: (generic_type type: (type_identifier) @name)) @im
(mod_item name: (identifier) @name) @mo
(const_item name: (identifier) @name) @co
(static_item name: (identifier) @name) @co
(macro_definition name: (identifier) @name) @ma
"#;

pub struct Rust;

impl Rust {
    /// The Rust grammar, `tree_sitter_rust::LANGUAGE`.
    #[verifier::external_body]
    pub fn grammar(&self) -> tree_sitter::Language {
        tree_sitter_rust::LANGUAGE.into()
    }
}

/// Symbol kind of a definition node type.
pub open spec fn spec_rust_kind(kind: Seq<char>) -> Option<SymbolKind> {
    if kind == "function_item"@ {
        Some(SymbolKind::Fn)
    } else if kind == "struct_item"@ || kind == "type_item"@ {
        Some(SymbolKind::Ty)
    } else if kind == "enum_item"@ {
        Some(SymbolKind::En)
    } else if kind == "trait_item"@ {
        Some(SymbolKind::If)
    } else if kind == "impl_item"@ {
        Some(SymbolKind::Im)
    } else if kind == "mod_item"@ {
        Some(SymbolKind::Mo)
    } else if kind == "const_item"@ || kind == "static_item"@ {
        Some(SymbolKind::Co)
    } else if kind == "macro_definition"@ {
        Some(SymbolKind::Ma)
    } else {
        None
    }
}

impl LanguageSupport for Rust {
    fn extensions(&self) -> (r: Vec<&'static str>)
        ensures
            str_views(r@) == seq!["rs"@],
    {
        let r = vec!["rs"];
        assert(str_views(r@) =~= seq!["rs"@]);
        r
    }

    fn symbol_query(&self) -> (r: &'static str)
        ensures
            r == RUST_SYMBOL_QUERY,
    {
        RUST_SYMBOL_QUERY
    }

    fn lsp_command(&self) -> (r: Vec<&'static str>)
        ensures
            str_views(r@) == seq!["rust-analyzer"@],
    {
        let r = vec!["rust-analyzer"];
        assert(str_views(r@) =~= seq!["rust-analyzer"@]);
        r
    }

    fn lsp_language_id(&self) -> (r: &'static str)
        ensures
            r@ == "rust"@,
    {
        "rust"
    }

    fn symbol_kind(&self, node: &NodeFacts) -> (r: Option<SymbolKind>)
        ensures
            r == spec_rust_kind(node.kind@),
    {
        let k = &node.kind;
        if is_text(k, "function_item") {
            Some(SymbolKind::Fn)
        } else if is_text(k, "struct_item") || is_text(k, "type_item") {
            Some(SymbolKind::Ty)
        } else if is_text(k, "enum_item") {
            Some(SymbolKind::En)
        } else if is_text(k, "trait_item") {
            Some(SymbolKind::If)
        } else if is_text(k, "impl_item") {
            Some(SymbolKind::Im)
        } else if is_text(k, "mod_item") {
            Some(SymbolKind::Mo)
        } else if is_text(k, "const_item") || is_text(k, "static_item") {
            Some(SymbolKind::Co)
        } else if is_text(k, "macro_definition") {
            Some(SymbolKind::Ma)
        } else {
            None
        }
    }

    fn project_files(&self) -> (r: Vec<&'static str>)
        ensures
            str_views(r@) == seq!["Cargo.toml"@],
    {
        let r = vec!["Cargo.toml"];
        assert(str_views(r@) =~= seq!["Cargo.toml"@]);
        r
    }
}

} // verus!
