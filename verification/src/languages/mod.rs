//! Language-agnostic symbol types and the per-language support table.

pub mod elixir;
pub mod gleam;
pub mod go;
pub mod python;
pub mod registry;
pub mod rust;
pub mod typescript;

use vstd::prelude::*;
use crate::text::{join_strs, join_with, push_str, str_eq};

verus! {

/// Language-agnostic symbol kinds.
#[derive(Debug, Clone, Copy, PartialEq, Eq, Structural)]
pub enum SymbolKind {
    /// Function or method
    Fn,
    /// Type / struct / class
    Ty,
    /// Interface / trait / protocol
    If,
    /// Enum
    En,
    /// Constant or variable declaration
    Co,
    /// Module / package
    Mo,
    /// Impl block / extension
    Im,
    /// Macro
    Ma,
}

/// A symbol extracted from a source file.
#[derive(Debug, Clone)]
pub struct Symbol {
    pub name: String,
    pub kind: SymbolKind,
    /// Hash of the symbol's text without its name, used to detect
    /// modifications and renames.
    pub body_hash: u64,
    pub start_line: usize,
    pub end_line: usize,
}

/// The mathematical content of a [`Symbol`].
pub struct SymbolView {
    pub name: Seq<char>,
    pub kind: SymbolKind,
    pub body_hash: u64,
    pub start_line: usize,
    pub end_line: usize,
}

impl View for Symbol {
    type V = SymbolView;

    open spec fn view(&self) -> SymbolView {
        SymbolView {
            name: self.name@,
            kind: self.kind,
            body_hash: self.body_hash,
            start_line: self.start_line,
            end_line: self.end_line,
        }
    }
}

/// The symbol views of a sequence of symbols.
pub open spec fn symbol_views(s: Seq<Symbol>) -> Seq<SymbolView> {
    s.map_values(|x: Symbol| x@)
}

/// What the symbol classifiers read of a syntax node: its node type, the
/// text of its `target` child and the node type of its `definition` child.
#[derive(Debug, Clone)]
pub struct NodeFacts {
    pub kind: String,
    pub target_text: Option<String>,
    pub definition_kind: Option<String>,
}

pub struct NodeFactsView {
    pub kind: Seq<char>,
    pub target_text: Option<Seq<char>>,
    pub definition_kind: Option<Seq<char>>,
}

impl View for NodeFacts {
    type V = NodeFactsView;

    open spec fn view(&self) -> NodeFactsView {
        NodeFactsView {
            kind: self.kind@,
            target_text: match self.target_text {
                Some(t) => Some(t@),
                None => None,
            },
            definition_kind: match self.definition_kind {
                Some(t) => Some(t@),
                None => None,
            },
        }
    }
}

/// The character sequences of a sequence of string slices.
pub open spec fn str_views(v: Seq<&str>) -> Seq<Seq<char>> {
    v.map_values(|s: &str| s@)
}

/// Whether a string holds exactly the characters of `lit`.
pub fn is_text(s: &String, lit: &str) -> (r: bool)
    ensures
        r == (s@ == lit@),
{
    str_eq(s.as_str(), lit)
}

/// Language-specific support: file extensions, symbol query, language
/// server command and symbol classification.
pub trait LanguageSupport {
    /// File extensions handled by this language.
    fn extensions(&self) -> Vec<&'static str>;

    /// Tree-sitter query capturing `@name` and the outer definition node.
    fn symbol_query(&self) -> &'static str;

    /// Language server command line, program first.
    fn lsp_command(&self) -> Vec<&'static str>;

    /// LSP language identifier, e.g. "go".
    fn lsp_language_id(&self) -> &'static str;

    /// Classification of a captured definition node.
    fn symbol_kind(&self, node: &NodeFacts) -> Option<SymbolKind>;

    /// Files whose presence marks a project of this language (any one suffices).
    fn project_files(&self) -> Vec<&'static str>;
}

/// The supported languages.
#[derive(Debug, Clone, Copy, PartialEq, Eq, Structural)]
pub enum Lang {
    Go,
    Rust,
    Elixir,
    Gleam,
    Python,
    TypeScript,
    Tsx,
}

/// File extensions of each language.
pub open spec fn spec_extensions(l: Lang) -> Seq<Seq<char>> {
    match l {
        Lang::Go => seq!["go"@],
        Lang::Rust => seq!["rs"@],
        Lang::Elixir => seq!["ex"@, "exs"@],
        Lang::Gleam => seq!["gleam"@],
        Lang::Python => seq!["py"@],
        Lang::TypeScript => seq!["ts"@],
        Lang::Tsx => seq!["tsx"@],
    }
}

/// Language server command line of each language.
pub open spec fn spec_lsp_command(l: Lang) -> Seq<Seq<char>> {
    match l {
        Lang::Go => seq!["gopls"@],
        Lang::Rust => seq!["rust-analyzer"@],
        Lang::Elixir => seq!["elixir-ls"@],
        Lang::Gleam => seq!["gleam"@, "lsp"@],
        Lang::Python => seq!["pylsp"@],
        Lang::TypeScript => seq!["typescript-language-server"@, "--stdio"@],
        Lang::Tsx => seq!["typescript-language-server"@, "--stdio"@],
    }
}

/// LSP language identifier of each language.
pub open spec fn spec_language_id(l: Lang) -> Seq<char> {
    match l {
        Lang::Go => "go"@,
        Lang::Rust => "rust"@,
        Lang::Elixir => "elixir"@,
        Lang::Gleam => "gleam"@,
        Lang::Python => "python"@,
        Lang::TypeScript => "typescript"@,
        Lang::Tsx => "typescriptreact"@,
    }
}

/// Project marker files of each language.
pub open spec fn spec_project_files(l: Lang) -> Seq<Seq<char>> {
    match l {
        Lang::Go => seq!["go.mod"@],
        Lang::Rust => seq!["Cargo.toml"@],
        Lang::Elixir => seq!["mix.exs"@],
        Lang::Gleam => seq!["gleam.toml"@],
        Lang::Python => seq!["pyproject.toml"@, "setup.py"@, "setup.cfg"@],
        Lang::TypeScript => seq!["tsconfig.json"@, "package.json"@],
        Lang::Tsx => seq!["tsconfig.json"@, "package.json"@],
    }
}

/// Symbol kind of a captured node, per language.
pub open spec fn spec_symbol_kind(l: Lang, n: NodeFactsView) -> Option<SymbolKind> {
    match l {
        Lang::Go => go::spec_go_kind(n.kind),
        Lang::Rust => rust::spec_rust_kind(n.kind),
        Lang::Elixir => elixir::spec_elixir_kind(n.target_text),
        Lang::Gleam => gleam::spec_gleam_kind(n.kind),
        Lang::Python => python::spec_python_kind(n.kind, n.definition_kind),
        Lang::TypeScript => typescript::spec_ts_kind(n.kind),
        Lang::Tsx => typescript::spec_ts_kind(n.kind),
    }
}

impl Lang {
    pub fn extensions(&self) -> (r: Vec<&'static str>)
        ensures
            str_views(r@) == spec_extensions(*self),
    {
        match self {
            Lang::Go => go::Go.extensions(),
            Lang::Rust => rust::Rust.extensions(),
            Lang::Elixir => elixir::Elixir.extensions(),
            Lang::Gleam => gleam::Gleam.extensions(),
            Lang::Python => python::Python.extensions(),
            Lang::TypeScript => typescript::TypeScript.extensions(),
            Lang::Tsx => typescript::Tsx.extensions(),
        }
    }

    /// Initialization options sent to the language server: an empty object.
    pub fn lsp_init_options(&self) -> (r: crate::json::Json)
        ensures
            r matches crate::json::Json::Object(m) && m@.len() == 0,
    {
        crate::json::Json::Object(Vec::new())
    }

    /// The language's tree-sitter grammar.
    pub fn grammar(&self) -> tree_sitter::Language {
        match self {
            Lang::Go => go::Go.grammar(),
            Lang::Rust => rust::Rust.grammar(),
            Lang::Elixir => elixir::Elixir.grammar(),
            Lang::Gleam => gleam::Gleam.grammar(),
            Lang::Python => python::Python.grammar(),
            Lang::TypeScript => typescript::TypeScript.grammar(),
            Lang::Tsx => typescript::Tsx.grammar(),
        }
    }

    pub fn symbol_query(&self) -> (r: &'static str)
        ensures
            r == spec_symbol_query(*self),
    {
        match self {
            Lang::Go => go::Go.symbol_query(),
            Lang::Rust => rust::Rust.symbol_query(),
            Lang::Elixir => elixir::Elixir.symbol_query(),
            Lang::Gleam => gleam::Gleam.symbol_query(),
            Lang::Python => python::Python.symbol_query(),
            Lang::TypeScript => typescript::TypeScript.symbol_query(),
            Lang::Tsx => typescript::Tsx.symbol_query(),
        }
    }

    pub fn lsp_command(&self) -> (r: Vec<&'static str>)
        ensures
            str_views(r@) == spec_lsp_command(*self),
    {
        match self {
            Lang::Go => go::Go.lsp_command(),
            Lang::Rust => rust::Rust.lsp_command(),
            Lang::Elixir => elixir::Elixir.lsp_command(),
            Lang::Gleam => gleam::Gleam.lsp_command(),
            Lang::Python => python::Python.lsp_command(),
            Lang::TypeScript => typescript::TypeScript.lsp_command(),
            Lang::Tsx => typescript::Tsx.lsp_command(),
        }
    }

    /// The language server program, the first word of `lsp_command`.
    pub fn lsp_program(&self) -> (r: &'static str)
        ensures
            r@ == spec_lsp_command(*self)[0],
    {
        let cmd = self.lsp_command();
        assert(str_views(cmd@).len() == cmd@.len());
        assert(spec_lsp_command(*self).len() > 0) by {
            match *self {
                Lang::Go => {},
                Lang::Rust => {},
                Lang::Elixir => {},
                Lang::Gleam => {},
                Lang::Python => {},
                Lang::TypeScript => {},
                Lang::Tsx => {},
            }
        }
        assert(str_views(cmd@)[0] == cmd@[0]@);
        cmd[0]
    }

    pub fn lsp_language_id(&self) -> (r: &'static str)
        ensures
            r@ == spec_language_id(*self),
    {
        match self {
            Lang::Go => go::Go.lsp_language_id(),
            Lang::Rust => rust::Rust.lsp_language_id(),
            Lang::Elixir => elixir::Elixir.lsp_language_id(),
            Lang::Gleam => gleam::Gleam.lsp_language_id(),
            Lang::Python => python::Python.lsp_language_id(),
            Lang::TypeScript => typescript::TypeScript.lsp_language_id(),
            Lang::Tsx => typescript::Tsx.lsp_language_id(),
        }
    }

    pub fn symbol_kind(&self, node: &NodeFacts) -> (r: Option<SymbolKind>)
        ensures
            r == spec_symbol_kind(*self, node@),
    {
        match self {
            Lang::Go => go::Go.symbol_kind(node),
            Lang::Rust => rust::Rust.symbol_kind(node),
            Lang::Elixir => elixir::Elixir.symbol_kind(node),
            Lang::Gleam => gleam::Gleam.symbol_kind(node),
            Lang::Python => python::Python.symbol_kind(node),
            Lang::TypeScript => typescript::TypeScript.symbol_kind(node),
            Lang::Tsx => typescript::Tsx.symbol_kind(node),
        }
    }

    pub fn project_files(&self) -> (r: Vec<&'static str>)
        ensures
            str_views(r@) == spec_project_files(*self),
    {
        match self {
            Lang::Go => go::Go.project_files(),
            Lang::Rust => rust::Rust.project_files(),
            Lang::Elixir => elixir::Elixir.project_files(),
            Lang::Gleam => gleam::Gleam.project_files(),
            Lang::Python => python::Python.project_files(),
            Lang::TypeScript => typescript::TypeScript.project_files(),
            Lang::Tsx => typescript::Tsx.project_files(),
        }
    }

    /// Checks that a project marker file is present under `root`.
    ///
    /// `present[i]` tells whether `project_files()[i]` exists under `root`.
    /// On failure the message names every marker file and the root.
    pub fn check_readiness(&self, root: &str, present: &[bool]) -> (r: Result<(), String>)
        requires
            present.len() == spec_project_files(*self).len(),
        ensures
            r is Ok <==> exists|i: int| 0 <= i < present.len() && present[i],
            r matches Err(msg) ==> msg@ == "None of "@ + join_with(spec_project_files(*self), ", "@)
                + " found in "@ + root@ + "."@,
    {
        let files = self.project_files();
        let mut i: usize = 0;
        while i < present.len()
            invariant
                i <= present.len(),
                forall|j: int| 0 <= j < i ==> !present[j],
            decreases present.len() - i,
        {
            if present[i] {
                return Ok(());
            }
            i += 1;
        }
        let mut msg = String::new();
        push_str(&mut msg, "None of ");
        let joined = join_strs(&files, ", ");
        push_str(&mut msg, joined.as_str());
        push_str(&mut msg, " found in ");
        push_str(&mut msg, root);
        push_str(&mut msg, ".");
        Err(msg)
    }
}

/// Symbol query of each language.
pub open spec fn spec_symbol_query(l: Lang) -> &'static str {
    match l {
        Lang::Go => go::GO_SYMBOL_QUERY,
        Lang::Rust => rust::RUST_SYMBOL_QUERY,
        Lang::Elixir => elixir::ELIXIR_SYMBOL_QUERY,
        Lang::Gleam => gleam::GLEAM_SYMBOL_QUERY,
        Lang::Python => python::PYTHON_SYMBOL_QUERY,
        Lang::TypeScript => typescript::TS_SYMBOL_QUERY,
        Lang::Tsx => typescript::TS_SYMBOL_QUERY,
    }
}

} // verus!
