//! Python: functions, classes, and decorated definitions.
use vstd::prelude::*;
use super::{is_text, str_views, LanguageSupport, NodeFacts, SymbolKind};

verus! {

pub const PYTHON_SYMBOL_QUERY: &'static str = r#"
(function_definition name: (identifier) @name) @fn

(class_definition name: (identifier) @name) @ty

(decorated_definition
  definition: (function_definition name: (identifier) @name)) @fn

(decorated_definition
  definition: (class_definition name: (identifier) @name)) @ty
"#;

pub struct Python;

impl Python {
    /// The Python grammar, `tree_sitter_python::LANGUAGE`.
    #[verifier::external_body]
    pub fn grammar(&self) -> tree_sitter::Language {
        tree_sitter_python::LANGUAGE.into()
    }
}

/// Symbol kind of a Python definition: decorated definitions take the kind
/// of the definition they decorate.
pub open spec fn spec_python_kind(kind: Seq<char>, definition: Option<Seq<char>>) -> Option<SymbolKind> {
    if kind == "function_definition"@ {
        Some(SymbolKind::Fn)
    } else if kind == "class_definition"@ {
        Some(SymbolKind::Ty)
    } else if kind == "decorated_definition"@ {
        match definition {
            Some(d) => if d == "function_definition"@ {
                Some(SymbolKind::Fn)
            } else if d == "class_definition"@ {
                Some(SymbolKind::Ty)
            } else {
                None
            },
            None => None,
        }
    } else {
        None
    }
}

impl LanguageSupport for Python {
    fn extensions(&self) -> (r: Vec<&'static str>)
        ensures
            str_views(r@) == seq!["py"@],
    {
        let r = vec!["py"];
        assert(str_views(r@) =~= seq!["py"@]);
        r
    }

    fn symbol_query(&self) -> (r: &'static str)
        ensures
            r == PYTHON_SYMBOL_QUERY,
    {
        PYTHON_SYMBOL_QUERY
    }

    fn lsp_command(&self) -> (r: Vec<&'static str>)
        ensures
            str_views(r@) == seq!["pylsp"@],
    {
        let r = vec!["pylsp"];
        assert(str_views(r@) =~= seq!["pylsp"@]);
        r
    }

    fn lsp_language_id(&self) -> (r: &'static str)
        ensures
            r@ == "python"@,
    {
        "python"
    }

    fn symbol_kind(&self, node: &NodeFacts) -> (r: Option<SymbolKind>)
        ensures
            r == spec_python_kind(node@.kind, node@.definition_kind),
    {
        let k = &node.kind;
        if is_text(k, "function_definition") {
            Some(SymbolKind::Fn)
        } else if is_text(k, "class_definition") {
            Some(SymbolKind::Ty)
        } else if is_text(k, "decorated_definition") {
            match &node.definition_kind {
                Some(d) => {
                    if is_text(d, "function_definition") {
                        Some(SymbolKind::Fn)
                    } else if is_text(d, "class_definition") {
                        Some(SymbolKind::Ty)
                    } else {
                        None
                    }
                },
                None => None,
            }
        } else {
            None
        }
    }

    fn project_files(&self) -> (r: Vec<&'static str>)
        ensures
            str_views(r@) == seq!["pyproject.toml"@, "setup.py"@, "setup.cfg"@],
    {
        let r = vec!["pyproject.toml", "setup.py", "setup.cfg"];
        assert(str_views(r@) =~= seq!["pyproject.toml"@, "setup.py"@, "setup.cfg"@]);
        r
    }
}

} // verus!
