//! Command-line arguments and the decisions the commands take on them.

use vstd::prelude::*;
use crate::pipeline::{file_views, DiffResult, FileDiffView};
use crate::render::{file_line_only, log_entry, spec_file_line, spec_log_entry};
use crate::text::{push_str, str_eq};

verus! {

/// Arguments of `diff`: file-level overview with auto-expanded symbols.
#[derive(Debug, Clone)]
pub struct DiffArgs {
    /// Path to local repository clone
    pub repo: String,
    /// Base ref (branch, commit, or tag)
    pub base: String,
    /// Head ref (branch, commit, or tag)
    pub head: String,
    /// Symbol expansion: `symbols` forces all, `none` suppresses all, else auto
    pub depth: Option<String>,
    /// Line delta threshold for auto-expanding a file's symbols; the
    /// configured one when not given
    pub threshold: Option<usize>,
}

/// Arguments of `symbols`: changed symbols in one file.
#[derive(Debug, Clone)]
pub struct SymbolsArgs {
    /// Path to local repository clone
    pub repo: String,
    /// Base ref (branch, commit, or tag)
    pub base: String,
    /// Head ref (branch, commit, or tag)
    pub head: String,
    /// File path (relative to repo root)
    pub file: String,
}

/// Arguments of `hunk`: exact diff for one symbol.
#[derive(Debug, Clone)]
pub struct HunkArgs {
    /// Path to local repository clone
    pub repo: String,
    /// Base ref (branch, commit, or tag)
    pub base: String,
    /// Head ref (branch, commit, or tag)
    pub head: String,
    /// File path (relative to repo root)
    pub file: String,
    /// Symbol name
    pub symbol: String,
}

/// Arguments of `pr`: pull request metadata with file-level diff.
#[derive(Debug, Clone)]
pub struct PrArgs {
    /// Path to local repository clone
    pub repo: String,
    /// Pull request number
    pub number: u64,
    /// Line delta threshold for auto-expanding a file's symbols; the
    /// configured one when not given
    pub threshold: Option<usize>,
}

/// Arguments of `log`: file-level overview for each commit in a range.
#[derive(Debug, Clone)]
pub struct LogArgs {
    /// Path to local repository clone
    pub repo: String,
    /// Commit range, e.g. main..feature
    pub range: String,
    /// Line delta threshold for auto-expanding a file's symbols; the
    /// configured one when not given
    pub threshold: Option<usize>,
}

/// Arguments of `serve`: the MCP server on stdio.
#[derive(Debug, Clone)]
pub struct ServeArgs {
    /// Log level: error, warn, info, debug, trace
    pub log_level: String,
}

/// The subcommands.
#[derive(Debug, Clone)]
pub enum Commands {
    /// File-level diff overview; auto-expands large and split files
    Diff(DiffArgs),
    /// Changed symbols in one file
    Symbols(SymbolsArgs),
    /// Exact diff for one symbol
    Hunk(HunkArgs),
    /// PR metadata (title, CI status, reviews) with file-level diff
    Pr(PrArgs),
    /// File-level overview for each commit in a range
    Log(LogArgs),
    /// Start MCP server
    Serve(ServeArgs),
}

/// The whole command line.
#[derive(Debug, Clone)]
pub struct Cli {
    pub command: Commands,
}

/// The threshold a command uses: the one given on the command line, else
/// the configured one (environment, config file, or the default 200).
pub fn resolve_threshold(arg: Option<usize>, configured: usize) -> (r: usize)
    ensures
        r == match arg {
            Some(t) => t,
            None => configured,
        },
{
    match arg {
        Some(t) => t,
        None => configured,
    }
}

/// Whether a depth option equals the given word.
pub open spec fn depth_is(depth: Option<Seq<char>>, word: Seq<char>) -> bool {
    match depth {
        Some(d) => d == word,
        None => false,
    }
}

/// The `--depth` option read as `(depth_symbols, expand)`: `symbols`
/// forces every file's symbols, `none` suppresses all symbol computation.
pub fn expansion(depth: &Option<String>) -> (r: (bool, bool))
    ensures
        r.0 == depth_is(match depth { Some(d) => Some(d@), None => None }, "symbols"@),
        r.1 == !depth_is(match depth { Some(d) => Some(d@), None => None }, "none"@),
{
    match depth {
        Some(d) => (str_eq(d.as_str(), "symbols"), !str_eq(d.as_str(), "none")),
        None => (false, true),
    }
}

/// Whether the command sets up logging to stderr: all but `serve`.
pub fn logs_to_stderr(command: &Commands) -> (r: bool)
    ensures
        r == !(command is Serve),
{
    match command {
        Commands::Serve(_) => false,
        _ => true,
    }
}

/// The parent of a commit, as a ref: the sha followed by `^`.
pub fn parent_ref(sha: &str) -> (r: String)
    ensures
        r@ == sha@ + "^"@,
{
    let mut out = String::new();
    push_str(&mut out, sha);
    push_str(&mut out, "^");
    out
}

/// The file lines of a commit, each indented by two spaces and ended.
pub open spec fn spec_log_files(files: Seq<FileDiffView>) -> Seq<char>
    decreases files.len(),
{
    if files.len() == 0 {
        Seq::empty()
    } else {
        spec_log_files(files.drop_last()) + "  "@ + spec_file_line(files.last()) + "\n"@
    }
}

/// The block the log command prints for one commit: its summary line,
/// one indented line per file, and a blank line.
pub open spec fn spec_log_block(sha: Seq<char>, subject: Seq<char>, result: DiffResult) -> Seq<char> {
    spec_log_entry(sha, subject, result.summary) + "\n"@ + spec_log_files(file_views(result.files@)) + "\n"@
}

/// The log command's output for one commit.
pub fn log_block(sha: &str, subject: &str, result: &DiffResult) -> (r: String)
    ensures
        r@ == spec_log_block(sha@, subject@, *result),
{
    let mut out = log_entry(sha, subject, result);
    push_str(&mut out, "\n");
    let ghost head = out@;
    let ghost fs = file_views(result.files@);
    let mut i: usize = 0;
    assert(fs.take(0) =~= Seq::<FileDiffView>::empty());
    assert(head + spec_log_files(fs.take(0)) =~= head);
    while i < result.files.len()
        invariant
            i <= result.files.len(),
            fs == file_views(result.files@),
            out@ == head + spec_log_files(fs.take(i as int)),
        decreases result.files.len() - i,
    {
        let line = file_line_only(&result.files[i]);
        push_str(&mut out, "  ");
        push_str(&mut out, line.as_str());
        push_str(&mut out, "\n");
        assert(fs.take(i + 1).drop_last() == fs.take(i as int));
        assert(fs.take(i + 1).last() == result.files@[i as int]@);
        assert(out@ =~= head + spec_log_files(fs.take(i + 1)));
        i += 1;
    }
    assert(fs.take(result.files.len() as int) == fs);
    push_str(&mut out, "\n");
    out
}

} // verus!
