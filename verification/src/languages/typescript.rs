//! TypeScript and TSX: functions, classes, interfaces, type aliases, enums and
//! arrow functions bound to a name.
use vstd::prelude::*;
use super::{is_text, str_views, LanguageSupport, NodeFacts, SymbolKind};

verus! {

pub const TS_SYMBOL_QUERY: &'static str = r#"
(function_declaration name: (identifier) @name) @fn

(class_declaration name: (type_identifier) @name) @ty

(interface_declaration name: (type_identifier) @name) @if

(type_alias_declaration name: (type_identifier) @name) @ty

(enum_declaration name: (identifier) @name) @en

(lexical_declaration
  (variable_declarator name: (identifier) @name value: (arrow_function))) @fn
"#;

/// Symbol kind of a TypeScript definition node type.
pub open spec fn spec_ts_kind(kind: Seq<char>) -> Option<SymbolKind> {
    if kind == "function_declaration"@ || kind == "lexical_declaration"@ {
        Some(SymbolKind::Fn)
    } else if kind == "class_declaration"@ || kind == "type_alias_declaration"@ {
        Some(SymbolKind::Ty)
    } else if kind == "interface_declaration"@ {
        Some(SymbolKind::If)
    } else if kind == "enum_declaration"@ {
        Some(SymbolKind::En)
    } else {
        None
    }
}

fn ts_symbol_kind(node: &NodeFacts) -> (r: Option<SymbolKind>)
    ensures
        r == spec_ts_kind(node.kind@),
{
    let k = &node.kind;
    if is_text(k, "function_declaration") || is_text(k, "lexical_declaration") {
        Some(SymbolKind::Fn)
    } else if is_text(k, "class_declaration") || is_text(k, "type_alias_declaration") {
        Some(SymbolKind::Ty)
    } else if is_text(k, "interface_declaration") {
        Some(SymbolKind::If)
    } else if is_text(k, "enum_declaration") {
        Some(SymbolKind::En)
    } else {
        None
    }
}

pub struct TypeScript;

impl TypeScript {
    /// The TypeScript grammar, `tree_sitter_typescript::LANGUAGE_TYPESCRIPT`.
    #[verifier::external_body]
    pub fn grammar(&self) -> tree_sitter::Language {
        tree_sitter_typescript::LANGUAGE_TYPESCRIPT.into()
    }
}

impl LanguageSupport for TypeScript {
    fn extensions(&self) -> (r: Vec<&'static str>)
        ensures
            str_views(r@) == seq!["ts"@],
    {
        let r = vec!["ts"];
        assert(str_views(r@) =~= seq!["ts"@]);
        r
    }

    fn symbol_query(&self) -> (r: &'static str)
        ensures
            r == TS_SYMBOL_QUERY,
    {
        TS_SYMBOL_QUERY
    }

    fn lsp_command(&self) -> (r: Vec<&'static str>)
        ensures
            str_views(r@) == seq!["typescript-language-server"@, "--stdio"@],
    {
        let r = vec!["typescript-language-server", "--stdio"];
        assert(str_views(r@) =~= seq!["typescript-language-server"@, "--stdio"@]);
        r
    }

    fn lsp_language_id(&self) -> (r: &'static str)
        ensures
            r@ == "typescript"@,
    {
        "typescript"
    }

    fn symbol_kind(&self, node: &NodeFacts) -> (r: Option<SymbolKind>)
        ensures
            r == spec_ts_kind(node.kind@),
    {
        ts_symbol_kind(node)
    }

    fn project_files(&self) -> (r: Vec<&'static str>)
        ensures
            str_views(r@) == seq!["tsconfig.json"@, "package.json"@],
    {
        let r = vec!["tsconfig.json", "package.json"];
        assert(str_views(r@) =~= seq!["tsconfig.json"@, "package.json"@]);
        r
    }
}

pub struct Tsx;

impl Tsx {
    /// The TSX grammar, `tree_sitter_typescript::LANGUAGE_TSX`.
    #[verifier::external_body]
    pub fn grammar(&self) -> tree_sitter::Language {
        tree_sitter_typescript::LANGUAGE_TSX.into()
    }
}

impl LanguageSupport for Tsx {
    fn extensions(&self) -> (r: Vec<&'static str>)
        ensures
            str_views(r@) == seq!["tsx"@],
    {
        let r = vec!["tsx"];
        assert(str_views(r@) =~= seq!["tsx"@]);
        r
    }

    fn symbol_query(&self) -> (r: &'static str)
        ensures
            r == TS_SYMBOL_QUERY,
    {
        TS_SYMBOL_QUERY
    }

    fn lsp_command(&self) -> (r: Vec<&'static str>)
        ensures
            str_views(r@) == seq!["typescript-language-server"@, "--stdio"@],
    {
        let r = vec!["typescript-language-server", "--stdio"];
        assert(str_views(r@) =~= seq!["typescript-language-server"@, "--stdio"@]);
        r
    }

    fn lsp_language_id(&self) -> (r: &'static str)
        ensures
            r@ == "typescriptreact"@,
    {
        "typescriptreact"
    }

    fn symbol_kind(&self, node: &NodeFacts) -> (r: Option<SymbolKind>)
        ensures
            r == spec_ts_kind(node.kind@),
    {
        ts_symbol_kind(node)
    }

    fn project_files(&self) -> (r: Vec<&'static str>)
        ensures
            str_views(r@) == seq!["tsconfig.json"@, "package.json"@],
    {
        let r = vec!["tsconfig.json", "package.json"];
        assert(str_views(r@) =~= seq!["tsconfig.json"@, "package.json"@]);
        r
    }
}

} // verus!
