//! Git change records: per-file status and line counts between two refs.

use vstd::prelude::*;
use crate::config::{parse_u64_max, parse_unsigned};
use crate::paths::{split_chars, split_on};
use crate::text::{char_views, chars_eq, chars_of, find_first, first_index_of, lemma_first_index_of, slice_chars, string_of};

verus! {

/// How git reports a file between two refs.
#[derive(Debug, Clone)]
pub enum GitStatus {
    Added,
    Deleted,
    Modified,
    /// Renamed from the first path to the second, with a similarity score.
    Renamed(String, String, u32),
    /// Copied from the first path to the second, with a similarity score.
    Copied(String, String, u32),
}

/// One changed file: its path, status and added/removed line counts.
#[derive(Debug, Clone)]
pub struct FileStat {
    pub path: String,
    pub status: GitStatus,
    pub added: usize,
    pub removed: usize,
}

pub enum GitStatusView {
    Added,
    Deleted,
    Modified,
    Renamed(Seq<char>, Seq<char>, u32),
    Copied(Seq<char>, Seq<char>, u32),
}

pub struct FileStatView {
    pub path: Seq<char>,
    pub status: GitStatusView,
    pub added: usize,
    pub removed: usize,
}

impl View for GitStatus {
    type V = GitStatusView;

    open spec fn view(&self) -> GitStatusView {
        match self {
            GitStatus::Added => GitStatusView::Added,
            GitStatus::Deleted => GitStatusView::Deleted,
            GitStatus::Modified => GitStatusView::Modified,
            GitStatus::Renamed(a, b, s) => GitStatusView::Renamed(a@, b@, *s),
            GitStatus::Copied(a, b, s) => GitStatusView::Copied(a@, b@, *s),
        }
    }
}

impl View for FileStat {
    type V = FileStatView;

    open spec fn view(&self) -> FileStatView {
        FileStatView { path: self.path@, status: self.status@, added: self.added, removed: self.removed }
    }
}

pub open spec fn stat_views(s: Seq<FileStat>) -> Seq<FileStatView> {
    s.map_values(|x: FileStat| x@)
}

} // verus!

verus! {

/// The similarity score after a rename or copy letter (`R086` → 86), zero
/// when it is not a number.
pub open spec fn score_of(st: Seq<char>) -> u32 {
    match parse_unsigned(st.drop_first(), u32::MAX as nat) {
        Some(n) => n as u32,
        None => 0,
    }
}

/// The entries of `git diff --name-status -M -z` output, split at NUL:
/// a status token, then one path, or two (old, new) for a rename or copy.
/// Statuses other than added, deleted, modified, type-changed, renamed and
/// copied are skipped.
pub open spec fn status_entries(t: Seq<Seq<char>>) -> Seq<(GitStatusView, Seq<char>)>
    decreases t.len(),
{
    if t.len() < 2 {
        Seq::empty()
    } else {
        let st = t[0];
        if st.len() > 0 && (st[0] == 'R' || st[0] == 'C') {
            if t.len() < 3 {
                Seq::empty()
            } else {
                let status = if st[0] == 'R' {
                    GitStatusView::Renamed(t[1], t[2], score_of(st))
                } else {
                    GitStatusView::Copied(t[1], t[2], score_of(st))
                };
                seq![(status, t[2])] + status_entries(t.skip(3))
            }
        } else {
            let rest = status_entries(t.skip(2));
            if st.len() > 0 && st[0] == 'A' {
                seq![(GitStatusView::Added, t[1])] + rest
            } else if st.len() > 0 && st[0] == 'D' {
                seq![(GitStatusView::Deleted, t[1])] + rest
            } else if st.len() > 0 && (st[0] == 'M' || st[0] == 'T') {
                seq![(GitStatusView::Modified, t[1])] + rest
            } else {
                rest
            }
        }
    }
}

/// A line count of `--numstat` (`-` for a binary file counts as zero).
pub open spec fn count_of(s: Seq<char>) -> usize {
    match parse_unsigned(s, usize::MAX as nat) {
        Some(n) => n as usize,
        None => 0,
    }
}

/// The entries of `git diff --numstat -M -z` output, split at NUL:
/// `added TAB removed TAB path`, or, for a rename, an empty path followed by
/// the old and the new path. Each entry gives the (new) path and counts.
pub open spec fn count_entries(t: Seq<Seq<char>>) -> Seq<(Seq<char>, usize, usize)>
    decreases t.len(),
{
    if t.len() == 0 {
        Seq::empty()
    } else {
        let a = t[0];
        match first_index_of(a, '\t') {
            None => count_entries(t.skip(1)),
            Some(i1) => {
                let rest = a.skip(i1 + 1);
                match first_index_of(rest, '\t') {
                    None => count_entries(t.skip(1)),
                    Some(i2) => {
                        let added = count_of(a.take(i1));
                        let removed = count_of(rest.take(i2));
                        let path = rest.skip(i2 + 1);
                        if path.len() == 0 {
                            if t.len() < 3 {
                                Seq::empty()
                            } else {
                                seq![(t[2], added, removed)] + count_entries(t.skip(3))
                            }
                        } else {
                            seq![(path, added, removed)] + count_entries(t.skip(1))
                        }
                    },
                }
            },
        }
    }
}

/// The kind a status token stands for.
pub open spec fn token_status(st: Seq<char>, a: Seq<char>, b: Seq<char>) -> GitStatusView {
    if st[0] == 'R' {
        GitStatusView::Renamed(a, b, score_of(st))
    } else if st[0] == 'C' {
        GitStatusView::Copied(a, b, score_of(st))
    } else if st[0] == 'A' {
        GitStatusView::Added
    } else if st[0] == 'D' {
        GitStatusView::Deleted
    } else {
        GitStatusView::Modified
    }
}

/// The status and path of one entry: `a` is the path, or the old path
/// when `b` gives the new one.
fn status_token(st: &Vec<char>, a: &Vec<char>, b: &Vec<char>) -> (r: (GitStatus, String))
    requires
        st@.len() > 0,
    ensures
        r.1@ == b@,
        r.0@ == token_status(st@, a@, b@),
{
    let c = st[0];
    let path = string_of(b.as_slice());
    if c == 'R' || c == 'C' {
        let digits = slice_chars(st.as_slice(), 1, st.len());
        let ds = string_of(digits.as_slice());
        assert(digits@ == st@.drop_first());
        let score: u32 = match parse_u64_max(ds.as_str(), 0xffff_ffffu64) {
            Some(n) => n as u32,
            None => 0,
        };
        let old = string_of(a.as_slice());
        let new = string_of(b.as_slice());
        if c == 'R' {
            (GitStatus::Renamed(old, new, score), path)
        } else {
            (GitStatus::Copied(old, new, score), path)
        }
    } else if c == 'A' {
        (GitStatus::Added, path)
    } else if c == 'D' {
        (GitStatus::Deleted, path)
    } else {
        (GitStatus::Modified, path)
    }
}

pub open spec fn status_views(v: Seq<(GitStatus, String)>) -> Seq<(GitStatusView, Seq<char>)> {
    v.map_values(|e: (GitStatus, String)| (e.0@, e.1@))
}

/// The statuses reported by `git diff --name-status -M -z`.
pub fn parse_name_status(out: &str) -> (r: Vec<(GitStatus, String)>)
    ensures
        status_views(r@) == status_entries(split_on(out@, '\0')),
{
    let cs = chars_of(out);
    let toks = split_chars(cs.as_slice(), '\0');
    let ghost t = char_views(toks@);
    let mut r: Vec<(GitStatus, String)> = Vec::new();
    let mut i: usize = 0;
    assert(t.skip(0) == t);
    assert(status_views(r@) + status_entries(t.skip(0)) =~= status_entries(t));
    while i < toks.len() && toks.len() - i >= 2
        invariant
            i <= toks.len(),
            t == char_views(toks@),
            t == split_on(out@, '\0'),
            status_views(r@) + status_entries(t.skip(i as int)) == status_entries(t),
        decreases toks.len() - i,
    {
        let ghost u = t.skip(i as int);
        let st = &toks[i];
        assert(u[0] == st@);
        assert(u[1] == toks@[i + 1]@);
        let ghost before = status_views(r@);
        if st.len() > 0 && (st[0] == 'R' || st[0] == 'C') {
            if toks.len() - i < 3 {
                assert(status_entries(u) =~= Seq::<(GitStatusView, Seq<char>)>::empty());
                assert(status_views(r@) =~= status_entries(t));
                i = toks.len();
                assert(t.skip(i as int) =~= Seq::<Seq<char>>::empty());
                assert(status_views(r@) + status_entries(t.skip(i as int)) =~= status_entries(t));
            } else {
                assert(u[2] == toks@[i + 2]@);
                let e = status_token(st, &toks[i + 1], &toks[i + 2]);
                r.push(e);
                assert(u.skip(3) == t.skip(i + 3));
                assert(status_views(r@) =~= before.push((token_status(u[0], u[1], u[2]), u[2])));
                assert(status_views(r@) + status_entries(t.skip(i + 3)) =~= before + status_entries(u));
                i += 3;
            }
        } else {
            let known = st.len() > 0 && (st[0] == 'A' || st[0] == 'D' || st[0] == 'M' || st[0] == 'T');
            if known {
                let e = status_token(st, &toks[i + 1], &toks[i + 1]);
                r.push(e);
                assert(status_views(r@) =~= before.push((token_status(u[0], u[1], u[1]), u[1])));
            } else {
                assert(status_entries(u) == status_entries(u.skip(2)));
            }
            assert(u.skip(2) == t.skip(i + 2));
            assert(status_views(r@) + status_entries(t.skip(i + 2)) =~= before + status_entries(u));
            i += 2;
        }
    }
    proof {
        let u = t.skip(i as int);
        if i < toks.len() {
            assert(u.len() < 2);
        }
        assert(status_entries(u) =~= Seq::<(GitStatusView, Seq<char>)>::empty());
        assert(status_views(r@) =~= status_entries(t));
    }
    r
}

} // verus!

verus! {

/// A `--numstat` count.
fn count_value(s: &[char]) -> (r: usize)
    ensures
        r == count_of(s@),
{
    let st = string_of(s);
    match parse_u64_max(st.as_str(), usize::MAX as u64) {
        Some(n) => n as usize,
        None => 0,
    }
}

pub open spec fn count_views(v: Seq<(String, usize, usize)>) -> Seq<(Seq<char>, usize, usize)> {
    v.map_values(|e: (String, usize, usize)| (e.0@, e.1, e.2))
}

/// The line counts reported by `git diff --numstat -M -z`.
pub fn parse_numstat(out: &str) -> (r: Vec<(String, usize, usize)>)
    ensures
        count_views(r@) == count_entries(split_on(out@, '\0')),
{
    let cs = chars_of(out);
    let toks = split_chars(cs.as_slice(), '\0');
    let ghost t = char_views(toks@);
    let mut r: Vec<(String, usize, usize)> = Vec::new();
    let mut i: usize = 0;
    assert(t.skip(0) == t);
    assert(count_views(r@) + count_entries(t.skip(0)) =~= count_entries(t));
    while i < toks.len()
        invariant
            i <= toks.len(),
            t == char_views(toks@),
            t == split_on(out@, '\0'),
            count_views(r@) + count_entries(t.skip(i as int)) == count_entries(t),
        decreases toks.len() - i,
    {
        let ghost u = t.skip(i as int);
        let ghost before = count_views(r@);
        let a = &toks[i];
        assert(u[0] == a@);
        assert(u.skip(1) == t.skip(i + 1));
        proof {
            lemma_first_index_of(a@, '\t');
        }
        match find_first(a.as_slice(), '\t') {
            None => {
                assert(count_entries(u) == count_entries(u.skip(1)));
                i += 1;
            },
            Some(i1) => {
                assert(i1 < a@.len());
                let rest = slice_chars(a.as_slice(), i1 + 1, a.len());
                assert(rest@ == a@.skip(i1 + 1));
                proof {
                    lemma_first_index_of(rest@, '\t');
                }
                match find_first(rest.as_slice(), '\t') {
                    None => {
                        assert(count_entries(u) == count_entries(u.skip(1)));
                        i += 1;
                    },
                    Some(i2) => {
                        assert(i2 < rest@.len());
                        let added_cs = slice_chars(a.as_slice(), 0, i1);
                        let removed_cs = slice_chars(rest.as_slice(), 0, i2);
                        assert(added_cs@ == a@.take(i1 as int));
                        assert(removed_cs@ == rest@.take(i2 as int));
                        let added = count_value(added_cs.as_slice());
                        let removed = count_value(removed_cs.as_slice());
                        let path = slice_chars(rest.as_slice(), i2 + 1, rest.len());
                        assert(path@ == rest@.skip(i2 + 1));
                        if path.len() == 0 {
                            if toks.len() - i < 3 {
                                assert(count_entries(u) =~= Seq::<(Seq<char>, usize, usize)>::empty());
                                i = toks.len();
                                assert(t.skip(i as int) =~= Seq::<Seq<char>>::empty());
                                assert(count_views(r@) + count_entries(t.skip(i as int)) =~= count_entries(t));
                            } else {
                                assert(u[2] == toks@[i + 2]@);
                                r.push((string_of(toks[i + 2].as_slice()), added, removed));
                                assert(u.skip(3) == t.skip(i + 3));
                                assert(count_views(r@) =~= before.push((u[2], added, removed)));
                                assert(count_views(r@) + count_entries(t.skip(i + 3)) =~= before + count_entries(u));
                                i += 3;
                            }
                        } else {
                            r.push((string_of(path.as_slice()), added, removed));
                            assert(count_views(r@) =~= before.push((path@, added, removed)));
                            assert(count_views(r@) + count_entries(t.skip(i + 1)) =~= before + count_entries(u));
                            i += 1;
                        }
                    },
                }
            },
        }
    }
    assert(t.skip(toks.len() as int) =~= Seq::<Seq<char>>::empty());
    assert(count_views(r@) =~= count_entries(t));
    r
}

/// The counts of the first entry for a path, zero when none.
pub open spec fn counts_for(c: Seq<(Seq<char>, usize, usize)>, path: Seq<char>) -> (usize, usize)
    decreases c.len(),
{
    if c.len() == 0 {
        (0, 0)
    } else if c[0].0 == path {
        (c[0].1, c[0].2)
    } else {
        counts_for(c.drop_first(), path)
    }
}

/// The changed files: each status with the counts of its path.
pub open spec fn spec_file_stats(s: Seq<(GitStatusView, Seq<char>)>, c: Seq<(Seq<char>, usize, usize)>) -> Seq<FileStatView> {
    s.map_values(|e: (GitStatusView, Seq<char>)| FileStatView {
        path: e.1,
        status: e.0,
        added: counts_for(c, e.1).0,
        removed: counts_for(c, e.1).1,
    })
}

fn lookup_counts(c: &Vec<(String, usize, usize)>, path: &String) -> (r: (usize, usize))
    ensures
        r == counts_for(count_views(c@), path@),
{
    let ghost v = count_views(c@);
    let mut i: usize = 0;
    assert(v.skip(0) == v);
    while i < c.len()
        invariant
            i <= c.len(),
            v == count_views(c@),
            counts_for(v, path@) == counts_for(v.skip(i as int), path@),
        decreases c.len() - i,
    {
        assert(v.skip(i as int)[0] == (c@[i as int].0@, c@[i as int].1, c@[i as int].2));
        assert(v.skip(i as int).drop_first() == v.skip(i + 1));
        if crate::text::str_eq(c[i].0.as_str(), path.as_str()) {
            return (c[i].1, c[i].2);
        }
        i += 1;
    }
    assert(v.skip(c.len() as int) =~= Seq::<(Seq<char>, usize, usize)>::empty());
    (0, 0)
}

/// Pairs each status with its path's line counts.
pub fn file_stats(statuses: Vec<(GitStatus, String)>, counts: &Vec<(String, usize, usize)>) -> (r: Vec<FileStat>)
    ensures
        stat_views(r@) == spec_file_stats(status_views(statuses@), count_views(counts@)),
{
    let ghost sv = status_views(statuses@);
    let mut out: Vec<FileStat> = Vec::new();
    let mut rest = statuses;
    let n = rest.len();
    let mut k: usize = 0;
    assert(status_views(rest@) =~= sv.skip(0));
    while k < n
        invariant
            n == sv.len(),
            k <= n,
            status_views(rest@) == sv.skip(k as int),
            stat_views(out@) == spec_file_stats(sv.take(k as int), count_views(counts@)),
        decreases n - k,
    {
        let ghost old_rest = rest@;
        assert(status_views(old_rest).len() == old_rest.len());
        assert(status_views(old_rest)[0] == sv[k as int]);
        let e = rest.remove(0);
        assert(rest@ == old_rest.remove(0));
        assert(e == old_rest[0]);
        let (status, path) = e;
        assert((status@, path@) == sv[k as int]);
        assert(status_views(rest@) =~= sv.skip(k + 1)) by {
            assert forall|j: int| 0 <= j < rest@.len() implies status_views(rest@)[j] == sv.skip(k + 1)[j] by {
                assert(rest@[j] == old_rest[j + 1]);
                assert(status_views(old_rest)[j + 1] == sv.skip(k as int)[j + 1]);
            }
        }
        let (added, removed) = lookup_counts(counts, &path);
        let ghost before = stat_views(out@);
        let ghost fv = FileStatView { path: path@, status: status@, added, removed };
        out.push(FileStat { path, status, added, removed });
        assert(stat_views(out@) =~= before.push(fv));
        assert(sv.take(k + 1) =~= sv.take(k as int).push(sv[k as int]));
        assert(spec_file_stats(sv.take(k + 1), count_views(counts@)) =~= spec_file_stats(sv.take(k as int), count_views(counts@)).push(fv));
        k += 1;
    }
    assert(sv.take(n as int) == sv);
    out
}

/// The changed files between two refs, from the output of
/// `git diff --name-status -M -z` and `git diff --numstat -M -z`.
pub fn diff_stats(name_status: &str, numstat: &str) -> (r: Vec<FileStat>)
    ensures
        stat_views(r@) == spec_file_stats(status_entries(split_on(name_status@, '\0')), count_entries(split_on(numstat@, '\0'))),
{
    let statuses = parse_name_status(name_status);
    let counts = parse_numstat(numstat);
    file_stats(statuses, &counts)
}

} // verus!
