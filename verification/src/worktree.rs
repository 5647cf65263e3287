//! Where temporary git worktrees for language-server analysis live.
//!
//! A worktree for a ref is placed under `<repo>/.git/pasua-worktrees/`, in a
//! directory named after the ref and a sub-second timestamp. Running
//! `git worktree add` / `remove` happens outside the library.

use vstd::prelude::*;
use crate::paths::{join, join_path};
use crate::text::{chars_of, decimal, push_decimal, string_of};

verus! {

/// A ref with `/`, `\` and `:` replaced by `-`, so that it names one
/// directory.
pub open spec fn sanitize_ref(r: Seq<char>) -> Seq<char> {
    r.map_values(|c: char| if c == '/' || c == '\\' || c == ':' { '-' } else { c })
}

/// The directory name of a worktree: the sanitized ref, `-`, and the
/// nanoseconds of the creation time within its second.
pub open spec fn spec_dir_name(git_ref: Seq<char>, nanos: u32) -> Seq<char> {
    sanitize_ref(git_ref) + "-"@ + decimal(nanos as nat)
}

/// The path of a worktree directory inside a repository.
pub open spec fn spec_worktree_path(repo: Seq<char>, dir_name: Seq<char>) -> Seq<char> {
    join(join(join(repo, ".git"@), "pasua-worktrees"@), dir_name)
}

/// The directory name for a worktree of `git_ref` created at `nanos`
/// nanoseconds past a whole second.
pub fn dir_name(git_ref: &str, nanos: u32) -> (r: String)
    ensures
        r@ == spec_dir_name(git_ref@, nanos),
{
    let cs = chars_of(git_ref);
    let mut out: Vec<char> = Vec::new();
    let mut i: usize = 0;
    while i < cs.len()
        invariant
            i <= cs.len(),
            cs@ == git_ref@,
            out@ == sanitize_ref(cs@.take(i as int)),
        decreases cs.len() - i,
    {
        let c = cs[i];
        let d = if c == '/' || c == '\\' || c == ':' { '-' } else { c };
        out.push(d);
        assert(cs@.take(i + 1) == cs@.take(i as int).push(c));
        assert(sanitize_ref(cs@.take(i + 1)) =~= sanitize_ref(cs@.take(i as int)).push(d));
        i += 1;
    }
    assert(cs@.take(cs.len() as int) == cs@);
    let mut s = string_of(out.as_slice());
    s.push('-');
    push_decimal(&mut s, nanos as u64);
    proof {
        reveal_strlit("-");
        assert(s@ =~= spec_dir_name(git_ref@, nanos));
    }
    s
}

/// A temporary git worktree at a specific ref.
pub struct Worktree {
    path: String,
    repo: String,
}

impl Worktree {
    /// The worktree's directory.
    pub closed spec fn spec_path(&self) -> Seq<char> {
        self.path@
    }

    /// The repository it belongs to.
    pub closed spec fn spec_repo(&self) -> Seq<char> {
        self.repo@
    }

    /// The worktree for `git_ref` inside `repo`, named with the creation
    /// time's sub-second nanoseconds; the caller runs `git worktree add`.
    pub fn create(repo: &str, git_ref: &str, nanos: u32) -> (r: Worktree)
        ensures
            r.spec_path() == spec_worktree_path(repo@, spec_dir_name(git_ref@, nanos)),
            r.spec_repo() == repo@,
    {
        let name = dir_name(git_ref, nanos);
        Worktree::create_at(repo, name.as_str())
    }

    /// The worktree with a chosen directory name inside `repo`.
    pub fn create_at(repo: &str, dir_name: &str) -> (r: Worktree)
        ensures
            r.spec_path() == spec_worktree_path(repo@, dir_name@),
            r.spec_repo() == repo@,
    {
        let git = join_path(repo, ".git");
        let parent = join_path(git.as_str(), "pasua-worktrees");
        let path = join_path(parent.as_str(), dir_name);
        let rc = chars_of(repo);
        Worktree { path, repo: string_of(rc.as_slice()) }
    }

    /// The worktree's directory.
    pub fn path(&self) -> (r: &str)
        ensures
            r@ == self.spec_path(),
    {
        self.path.as_str()
    }

    /// The repository the worktree belongs to.
    pub fn repo(&self) -> (r: &str)
        ensures
            r@ == self.spec_repo(),
    {
        self.repo.as_str()
    }
}

} // verus!
