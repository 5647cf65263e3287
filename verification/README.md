# pasua

Semantic code diff for AI agents: compares two refs of a git repository
and reports what changed at three levels — files (Layer 1), the symbols of
one file (Layer 2) and the lines of one symbol (Layer 3) — with split
detection and optional confirmation by language servers.

## Layout

- `src/` — the library, written in Verus: its functions carry contracts
  that Verus proves, except the small wrappers around outside crates
  (tree-sitter, the language grammars, xxHash, `similar`, `lsp-types`)
  and a few std calls, whose contracts are stated and trusted.
  - `diff` — symbol-level diff between two refs; `pipeline` — file
    classification, split detection, expansion and language-server
    grouping; `render` — the compact text of each layer.
  - `skeletal`, `treesitter`, `languages` — symbol extraction with
    tree-sitter, per language.
  - `hunk` — scoped diff of one symbol (line diff by `similar`).
  - `semantic`, `json`, `lsp_confirmation` — language-server messages,
    document symbols, indexing wait, and confirming heuristic symbols.
  - `config`, `cache`, `worktree`, `git`, `github`, `cli`, `mcp` —
    configuration precedence, the result cache, worktree placement, git
    and GitHub output, and the decisions of the CLI and MCP tool.
- `tests/` — tests of the library.
- `app/` — the executable: argument parsing, processes, files, the
  language-server connection and the MCP server.
