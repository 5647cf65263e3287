//! Elixir: modules, functions, macros, protocols and implementations.
use vstd::prelude::*;
use super::{is_text, str_views, LanguageSupport, NodeFacts, SymbolKind};

verus! {

/// Elixir writes every definition as a `call` node: `def`/`defp`/`defmacro`/
/// `defmacrop` take the function head as first argument, `defmodule`/
/// `defprotocol`/`defimpl` take the module name. The call target's text
/// tells definitions from other calls.
pub const ELIXIR_SYMBOL_QUERY: &'static str = r#"
(call
  (arguments
    (call target: (identifier) @name))
  (do_block)) @call

(call
  (arguments
    (alias) @name)
  (do_block)) @call
"#;

pub struct Elixir;

impl Elixir {
    /// The Elixir grammar, `tree_sitter_elixir::LANGUAGE`.
    #[verifier::external_body]
    pub fn grammar(&self) -> tree_sitter::Language {
        tree_sitter_elixir::LANGUAGE.into()
    }
}

/// Symbol kind of an Elixir definition, by the text of the call target.
pub open spec fn spec_elixir_kind(target: Option<Seq<char>>) -> Option<SymbolKind> {
    match target {
        Some(t) => if t == "def"@ || t == "defp"@ {
            Some(SymbolKind::Fn)
        } else if t == "defmodule"@ {
            Some(SymbolKind::Mo)
        } else if t == "defmacro"@ || t == "defmacrop"@ {
            Some(SymbolKind::Ma)
        } else if t == "defprotocol"@ {
            Some(SymbolKind::If)
        } else if t == "defimpl"@ {
            Some(SymbolKind::Im)
        } else {
            None
        },
        None => None,
    }
}

impl LanguageSupport for Elixir {
    fn extensions(&self) -> (r: Vec<&'static str>)
        ensures
            str_views(r@) == seq!["ex"@, "exs"@],
    {
        let r = vec!["ex", "exs"];
        assert(str_views(r@) =~= seq!["ex"@, "exs"@]);
        r
    }

    fn symbol_query(&self) -> (r: &'static str)
        ensures
            r == ELIXIR_SYMBOL_QUERY,
    {
        ELIXIR_SYMBOL_QUERY
    }

    fn lsp_command(&self) -> (r: Vec<&'static str>)
        ensures
            str_views(r@) == seq!["elixir-ls"@],
    {
        let r = vec!["elixir-ls"];
        assert(str_views(r@) =~= seq!["elixir-ls"@]);
        r
    }

    fn lsp_language_id(&self) -> (r: &'static str)
        ensures
            r@ == "elixir"@,
    {
        "elixir"
    }

    fn symbol_kind(&self, node: &NodeFacts) -> (r: Option<SymbolKind>)
        ensures
            r == spec_elixir_kind(node@.target_text),
    {
        match &node.target_text {
            Some(t) => {
                if is_text(t, "def") || is_text(t, "defp") {
                    Some(SymbolKind::Fn)
                } else if is_text(t, "defmodule") {
                    Some(SymbolKind::Mo)
                } else if is_text(t, "defmacro") || is_text(t, "defmacrop") {
                    Some(SymbolKind::Ma)
                } else if is_text(t, "defprotocol") {
                    Some(SymbolKind::If)
                } else if is_text(t, "defimpl") {
                    Some(SymbolKind::Im)
                } else {
                    None
                }
            },
            None => None,
        }
    }

    fn project_files(&self) -> (r: Vec<&'static str>)
        ensures
            str_views(r@) == seq!["mix.exs"@],
    {
        let r = vec!["mix.exs"];
        assert(str_views(r@) =~= seq!["mix.exs"@]);
        r
    }
}

} // verus!
