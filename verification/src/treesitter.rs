//! Calls into tree-sitter and xxHash, each behind a wrapper whose contract
//! says what is relied on. The node readers state nothing of their own:
//! extraction reads nodes only while `run_query` runs, and the result of
//! that run is named as a whole by `ts_query_run`.

use vstd::prelude::*;
use tree_sitter::StreamingIterator;
use crate::languages::Lang;
use crate::skeletal::{capture_from, match_views, Capture, CaptureView, ExtractError};

verus! {

/// A tree-sitter grammar, carried opaquely.
#[verifier::external_type_specification]
#[verifier::external_body]
pub struct ExTsLanguage(tree_sitter::Language);

/// A node of a tree-sitter syntax tree, carried opaquely.
#[verifier::external_type_specification]
#[verifier::external_body]
pub struct ExTsNode<'a>(tree_sitter::Node<'a>);

/// What running a symbol query over a source yields: the captures of each
/// match, in the order tree-sitter's query cursor yields them, with the
/// index of the query's `name` capture; or the failure to load the
/// grammar, to parse, or to compile the query.
pub uninterp spec fn ts_query_run(lang: Lang, query: Seq<char>, source: Seq<u8>) -> Result<(Seq<Seq<CaptureView>>, Option<u32>), ExtractError>;

/// Runs a query with tree-sitter: a `Parser` set to the language's grammar
/// (`Lang::grammar`; `Grammar` when `set_language` refuses it) parses the
/// whole source with no earlier tree (`Parse` when `parse` gives `None`),
/// `Query::new` compiles the query for that grammar (`Query` when it
/// fails), and `QueryCursor::matches` over the root node gives the matches,
/// whose captured nodes `capture_from` reads; the index is
/// `Query::capture_index_for_name("name")`. The result, taken by its view,
/// is `ts_query_run` of the language, the query text and the source.
#[verifier::external_body]
pub(crate) fn run_query(lang: Lang, query_src: &str, source: &[u8]) -> (r: Result<(Vec<Vec<Capture>>, Option<u32>), ExtractError>)
    ensures
        match r {
            Ok((m, i)) => ts_query_run(lang, query_src@, source@) == Ok::<(Seq<Seq<CaptureView>>, Option<u32>), ExtractError>((match_views(m@), i)),
            Err(e) => ts_query_run(lang, query_src@, source@) == Err::<(Seq<Seq<CaptureView>>, Option<u32>), ExtractError>(e),
        },
{
    let grammar = lang.grammar();
    let mut parser = tree_sitter::Parser::new();
    parser.set_language(&grammar).map_err(|_| ExtractError::Grammar)?;
    let tree = parser.parse(source, None).ok_or(ExtractError::Parse)?;
    let query = tree_sitter::Query::new(&grammar, query_src).map_err(|_| ExtractError::Query)?;
    let mut cursor = tree_sitter::QueryCursor::new();
    let mut found = cursor.matches(&query, tree.root_node(), source);
    let mut out = Vec::new();
    while let Some(m) = found.next() {
        out.push(m.captures().iter().map(|c| capture_from(c.index, &c.node)).collect());
    }
    Ok((out, query.capture_index_for_name("name")))
}

/// `Node::kind`: the node's type name. Nothing is stated of it.
#[verifier::external_body]
pub(crate) fn node_kind(node: &tree_sitter::Node) -> String {
    node.kind().to_string()
}

/// `Node::start_byte`. Nothing is stated of it (extraction checks the
/// range against the source before reading it).
#[verifier::external_body]
pub(crate) fn node_start_byte(node: &tree_sitter::Node) -> usize {
    node.start_byte()
}

/// `Node::end_byte`. Nothing is stated of it.
#[verifier::external_body]
pub(crate) fn node_end_byte(node: &tree_sitter::Node) -> usize {
    node.end_byte()
}

/// `Node::start_position().row`, 0-based. Nothing is stated of it.
#[verifier::external_body]
pub(crate) fn node_start_row(node: &tree_sitter::Node) -> usize {
    node.start_position().row
}

/// `Node::end_position().row`, 0-based. Nothing is stated of it.
#[verifier::external_body]
pub(crate) fn node_end_row(node: &tree_sitter::Node) -> usize {
    node.end_position().row
}

/// `Node::child_by_field_name`: the child under a field name, if any.
/// Nothing is stated of which child.
#[verifier::external_body]
pub(crate) fn node_child<'t>(node: &tree_sitter::Node<'t>, field: &str) -> Option<tree_sitter::Node<'t>> {
    node.child_by_field_name(field)
}

/// The 64-bit xxHash of `data` with `seed`.
pub uninterp spec fn xxh64(seed: u64, data: Seq<u8>) -> u64;

/// `twox_hash::XxHash64::oneshot`: the result is `xxh64` of the seed and
/// the data.
#[verifier::external_body]
pub(crate) fn xxhash64(seed: u64, data: &[u8]) -> (r: u64)
    ensures
        r == xxh64(seed, data@),
{
    twox_hash::XxHash64::oneshot(seed, data)
}

} // verus!
