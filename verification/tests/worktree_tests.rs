use pasua::worktree::{dir_name, Worktree};

#[test]
fn dir_name_sanitizes_the_ref() {
    assert_eq!(dir_name("origin/feat:x\\y", 42), "origin-feat-x-y-42");
    assert_eq!(dir_name("main", 0), "main-0");
}

#[test]
fn worktree_lives_under_git_dir() {
    let wt = Worktree::create("/repo", "feature/a", 7);
    assert_eq!(wt.path(), "/repo/.git/pasua-worktrees/feature-a-7");
    assert_eq!(wt.repo(), "/repo");
    let wt = Worktree::create_at("/repo/", "x");
    assert_eq!(wt.path(), "/repo/.git/pasua-worktrees/x");
}
