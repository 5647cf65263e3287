//! Pull-request metadata decisions and remote-name resolution.

use vstd::prelude::*;
use vstd::string::*;
use crate::languages::is_text;
use crate::text::{
    chars_of, ends_with, find_first, find_last, first_index_of, has_prefix, has_suffix, last_index_of,
    lines, slice_chars, split_lines, starts_with, str_eq, string_of, string_views, trim, trim_chars,
};

verus! {

/// Metadata for a pull request.
#[derive(Debug)]
pub struct PrMeta {
    pub number: u64,
    pub title: String,
    pub body: String,
    pub base_ref_name: String,
    pub head_ref_name: String,
    pub state: String,
    pub status_check_rollup: Option<Vec<StatusCheck>>,
    pub reviews: Option<Vec<Review>>,
}

/// One CI check of a pull request.
#[derive(Debug)]
pub struct StatusCheck {
    pub state: Option<String>,
    pub conclusion: Option<String>,
}

/// One review of a pull request.
#[derive(Debug)]
pub struct Review {
    pub state: String,
}

pub struct StatusCheckView {
    pub state: Option<Seq<char>>,
    pub conclusion: Option<Seq<char>>,
}

pub open spec fn opt_view(o: Option<String>) -> Option<Seq<char>> {
    match o {
        Some(s) => Some(s@),
        None => None,
    }
}

impl View for StatusCheck {
    type V = StatusCheckView;

    open spec fn view(&self) -> StatusCheckView {
        StatusCheckView { state: opt_view(self.state), conclusion: opt_view(self.conclusion) }
    }
}

pub open spec fn check_views(v: Seq<StatusCheck>) -> Seq<StatusCheckView> {
    v.map_values(|c: StatusCheck| c@)
}

/// A check that failed or errored.
pub open spec fn is_failed(c: StatusCheckView) -> bool {
    c.conclusion == Some("FAILURE"@) || c.state == Some("FAILURE"@) || c.state == Some("ERROR"@)
}

/// A check still pending: reported pending, or without a conclusion and not
/// reported successful.
pub open spec fn is_pending(c: StatusCheckView) -> bool {
    c.state == Some("PENDING"@) || (c.conclusion is None && c.state != Some("SUCCESS"@))
}

/// A check that succeeded.
pub open spec fn is_passed(c: StatusCheckView) -> bool {
    c.conclusion == Some("SUCCESS"@) || c.state == Some("SUCCESS"@)
}

/// CI status of a check rollup: `fail` if any check failed, else `pending`
/// if any is pending, else `pass` if all passed; nothing when the rollup is
/// absent or mixed.
pub open spec fn spec_ci_status(rollup: Option<Seq<StatusCheckView>>) -> Option<Seq<char>> {
    match rollup {
        None => None,
        Some(cs) => if any_failed(cs) {
            Some("fail"@)
        } else if any_pending(cs) {
            Some("pending"@)
        } else if all_passed(cs) {
            Some("pass"@)
        } else {
            None
        },
    }
}

/// Whether some check failed.
pub open spec fn any_failed(cs: Seq<StatusCheckView>) -> bool {
    exists|i: int| 0 <= i < cs.len() && is_failed(#[trigger] cs[i])
}

/// Whether some check is pending.
pub open spec fn any_pending(cs: Seq<StatusCheckView>) -> bool {
    exists|i: int| 0 <= i < cs.len() && is_pending(#[trigger] cs[i])
}

/// Whether every check passed.
pub open spec fn all_passed(cs: Seq<StatusCheckView>) -> bool {
    forall|i: int| 0 <= i < cs.len() ==> is_passed(#[trigger] cs[i])
}

/// Whether an optional string holds exactly `lit`.
pub(crate) fn opt_is(o: &Option<String>, lit: &str) -> (r: bool)
    ensures
        r == (opt_view(*o) == Some(lit@)),
{
    match o {
        Some(s) => is_text(s, lit),
        None => false,
    }
}

impl PrMeta {
    pub open spec fn rollup_view(&self) -> Option<Seq<StatusCheckView>> {
        match self.status_check_rollup {
            Some(v) => Some(check_views(v@)),
            None => None,
        }
    }

    /// Derive CI pass/fail from status check rollup. Returns None if mixed or absent.
    pub fn ci_status(&self) -> (r: Option<&'static str>)
        ensures
            match r {
                Some(s) => spec_ci_status(self.rollup_view()) == Some(s@),
                None => spec_ci_status(self.rollup_view()) is None,
            },
    {
        let checks = match &self.status_check_rollup {
            Some(c) => c,
            None => return None,
        };
        let ghost cs = check_views(checks@);
        assert(self.rollup_view() == Some(cs));
        let mut i: usize = 0;
        while i < checks.len()
            invariant
                i <= checks.len(),
                cs == check_views(checks@),
                self.rollup_view() == Some(cs),
                forall|j: int| 0 <= j < i ==> !is_failed(#[trigger] cs[j]),
            decreases checks.len() - i,
        {
            let c = &checks[i];
            assert(cs[i as int] == c@);
            if opt_is(&c.conclusion, "FAILURE") || opt_is(&c.state, "FAILURE") || opt_is(&c.state, "ERROR") {
                assert(is_failed(cs[i as int]));
                assert(exists|j: int| 0 <= j < cs.len() && is_failed(#[trigger] cs[j]));
                assert(spec_ci_status(Some(cs)) is Some);
                assert(spec_ci_status(Some(cs)) == Some("fail"@));
                return Some("fail");
            }
            i += 1;
        }
        let mut i: usize = 0;
        while i < checks.len()
            invariant
                i <= checks.len(),
                cs == check_views(checks@),
                self.rollup_view() == Some(cs),
                forall|j: int| 0 <= j < checks.len() ==> !is_failed(#[trigger] cs[j]),
                forall|j: int| 0 <= j < i ==> !is_pending(#[trigger] cs[j]),
            decreases checks.len() - i,
        {
            let c = &checks[i];
            assert(cs[i as int] == c@);
            if opt_is(&c.state, "PENDING") || (c.conclusion.is_none() && !opt_is(&c.state, "SUCCESS")) {
                assert(is_pending(cs[i as int]));
                assert(!(exists|j: int| 0 <= j < cs.len() && is_failed(#[trigger] cs[j])));
                assert(exists|j: int| 0 <= j < cs.len() && is_pending(#[trigger] cs[j]));
                assert(spec_ci_status(Some(cs)) is Some);
                assert(spec_ci_status(Some(cs)) == Some("pending"@));
                return Some("pending");
            }
            i += 1;
        }
        let mut i: usize = 0;
        while i < checks.len()
            invariant
                i <= checks.len(),
                cs == check_views(checks@),
                self.rollup_view() == Some(cs),
                forall|j: int| 0 <= j < checks.len() ==> !is_failed(#[trigger] cs[j]),
                forall|j: int| 0 <= j < checks.len() ==> !is_pending(#[trigger] cs[j]),
                forall|j: int| 0 <= j < i ==> is_passed(#[trigger] cs[j]),
            decreases checks.len() - i,
        {
            let c = &checks[i];
            assert(cs[i as int] == c@);
            if !(opt_is(&c.conclusion, "SUCCESS") || opt_is(&c.state, "SUCCESS")) {
                assert(!is_passed(cs[i as int]));
                assert(!(exists|j: int| 0 <= j < cs.len() && is_failed(#[trigger] cs[j])));
                assert(!(exists|j: int| 0 <= j < cs.len() && is_pending(#[trigger] cs[j])));
                assert(!(forall|j: int| 0 <= j < cs.len() ==> is_passed(#[trigger] cs[j])));
                assert(spec_ci_status(Some(cs)) is None);
                return None;
            }
            i += 1;
        }
        assert(!(exists|j: int| 0 <= j < cs.len() && is_failed(#[trigger] cs[j])));
        assert(!(exists|j: int| 0 <= j < cs.len() && is_pending(#[trigger] cs[j])));
        assert(spec_ci_status(Some(cs)) is Some);
        Some("pass")
    }
}

/// Remote prefix of a ref like `owner/branch`: the part before the first `/`.
pub open spec fn spec_remote_of_ref(git_ref: Seq<char>) -> Option<Seq<char>> {
    match first_index_of(git_ref, '/') {
        Some(i) => Some(git_ref.take(i)),
        None => None,
    }
}

/// Extract the remote name prefix from a ref like "oisee/main" → "oisee".
/// Returns None if the ref contains no slash.
pub fn infer_remote_from_ref(git_ref: &str) -> (r: Option<&str>)
    ensures
        match r {
            Some(s) => spec_remote_of_ref(git_ref@) == Some(s@),
            None => spec_remote_of_ref(git_ref@) is None,
        },
{
    let cs = chars_of(git_ref);
    match find_first(cs.as_slice(), '/') {
        Some(i) => {
            proof {
                crate::text::lemma_first_index_of(git_ref@, '/');
            }
            let s = git_ref.substring_char(0, i);
            assert(git_ref@.subrange(0, i as int) == git_ref@.take(i as int));
            Some(s)
        },
        None => None,
    }
}

/// `s` with every trailing copy of `p` removed (`str::trim_end_matches`).
pub open spec fn trim_end_all(s: Seq<char>, p: Seq<char>) -> Seq<char>
    decreases s.len(),
{
    if p.len() > 0 && has_suffix(s, p) {
        trim_end_all(s.take(s.len() - p.len()), p)
    } else {
        s
    }
}

/// `owner/repo` of a remote URL: after trimming whitespace and trailing
/// `.git`, the rest of an `https://github.com/` URL, else what follows the
/// last `:`, else the trimmed URL itself.
pub open spec fn spec_remote_from_url(url: Seq<char>) -> Seq<char> {
    let u = trim_end_all(trim(url), ".git"@);
    if has_prefix(u, "https://github.com/"@) {
        u.skip("https://github.com/"@.len() as int)
    } else {
        match last_index_of(u, ':') {
            Some(i) => u.skip(i + 1),
            None => u,
        }
    }
}

fn trim_end_all_exec(s: Vec<char>, p: &[char]) -> (r: Vec<char>)
    ensures
        r@ == trim_end_all(s@, p@),
    decreases s.len(),
{
    if p.len() > 0 && ends_with(s.as_slice(), p) {
        let cut = slice_chars(s.as_slice(), 0, s.len() - p.len());
        assert(s@.subrange(0, s.len() - p.len()) == s@.take(s.len() - p.len()));
        trim_end_all_exec(cut, p)
    } else {
        s
    }
}

/// Parse "owner/repo" from a git remote URL.
pub fn parse_remote_from_url(url: &str) -> (r: String)
    ensures
        r@ == spec_remote_from_url(url@),
{
    let cs = chars_of(url);
    let t = trim_chars(cs.as_slice());
    let suffix = chars_of(".git");
    let u = trim_end_all_exec(t, suffix.as_slice());
    let prefix = chars_of("https://github.com/");
    if starts_with(u.as_slice(), prefix.as_slice()) {
        let rest = slice_chars(u.as_slice(), prefix.len(), u.len());
        return string_of(rest.as_slice());
    }
    proof {
        crate::text::lemma_last_index_of(u@, ':');
    }
    match find_last(u.as_slice(), ':') {
        Some(i) => {
            assert(last_index_of(u@, ':') == Some(i as int));
            assert(i < u.len());
            let rest = slice_chars(u.as_slice(), i + 1, u.len());
            string_of(rest.as_slice())
        },
        None => string_of(u.as_slice()),
    }
}

/// Names listed one per line by `git remote`, trimmed, blank lines dropped.
pub open spec fn spec_remote_list(out: Seq<char>) -> Seq<Seq<char>> {
    nonblank_trimmed(lines(out))
}

/// Each line trimmed, the empty results dropped.
pub open spec fn nonblank_trimmed(ls: Seq<Seq<char>>) -> Seq<Seq<char>>
    decreases ls.len(),
{
    if ls.len() == 0 {
        seq![]
    } else {
        let prev = nonblank_trimmed(ls.drop_last());
        if trim(ls.last()).len() > 0 { prev.push(trim(ls.last())) } else { prev }
    }
}

/// The remote names in the output of `git remote`.
pub fn parse_remote_list(output: &str) -> (r: Vec<String>)
    ensures
        string_views(r@) == spec_remote_list(output@),
{
    let cs = chars_of(output);
    let ls = split_lines(cs.as_slice());
    let ghost lv = lines(output@);
    let mut out: Vec<String> = Vec::new();
    let mut i: usize = 0;
    assert(lv.take(0) =~= Seq::<Seq<char>>::empty());
    assert(string_views(out@) =~= Seq::<Seq<char>>::empty());
    while i < ls.len()
        invariant
            i <= ls.len(),
            crate::text::char_views(ls@) == lv,
            string_views(out@) == nonblank_trimmed(lv.take(i as int)),
        decreases ls.len() - i,
    {
        let t = trim_chars(ls[i].as_slice());
        let ghost before = string_views(out@);
        proof {
            assert(lv.take(i + 1).drop_last() == lv.take(i as int));
            assert(lv.take(i + 1).last() == ls@[i as int]@);
        }
        if t.len() > 0 {
            let s = string_of(t.as_slice());
            out.push(s);
            assert(string_views(out@) =~= before.push(t@));
        }
        i += 1;
    }
    assert(lv.take(ls.len() as int) == lv);
    out
}

/// The remote whose URL labels the repository: the first of base and head
/// that names a configured remote as its `remote/` prefix, else `origin`.
pub open spec fn spec_select_remote(base: Seq<char>, head: Seq<char>, remotes: Seq<Seq<char>>) -> Seq<char> {
    match spec_remote_of_ref(base) {
        Some(c) if remotes.contains(c) => c,
        _ => match spec_remote_of_ref(head) {
            Some(c) if remotes.contains(c) => c,
            _ => "origin"@,
        },
    }
}

fn contains_string(v: &Vec<String>, s: &str) -> (r: bool)
    ensures
        r == string_views(v@).contains(s@),
{
    let mut i: usize = 0;
    while i < v.len()
        invariant
            i <= v.len(),
            forall|j: int| 0 <= j < i ==> v@[j]@ != s@,
        decreases v.len() - i,
    {
        if str_eq(v[i].as_str(), s) {
            assert(string_views(v@)[i as int] == s@);
            return true;
        }
        i += 1;
    }
    assert forall|j: int| 0 <= j < string_views(v@).len() implies string_views(v@)[j] != s@ by {
        assert(string_views(v@)[j] == v@[j]@);
    }
    false
}

/// Pick the remote to label the repository with.
pub fn select_remote(base: &str, head: &str, remotes: &Vec<String>) -> (r: String)
    ensures
        r@ == spec_select_remote(base@, head@, string_views(remotes@)),
{
    match infer_remote_from_ref(base) {
        Some(c) => {
            if contains_string(remotes, c) {
                return c.to_owned();
            }
        },
        None => {},
    }
    match infer_remote_from_ref(head) {
        Some(c) => {
            if contains_string(remotes, c) {
                return c.to_owned();
            }
        },
        None => {},
    }
    "origin".to_owned()
}

} // verus!

verus! {

/// The CI status depends only on which checks the rollup holds: listing
/// the same checks in another order (or listing one twice) never changes
/// it.
pub proof fn law_ci_status_ignores_order(a: Seq<StatusCheckView>, b: Seq<StatusCheckView>)
    requires
        forall|c: StatusCheckView| a.contains(c) <==> b.contains(c),
    ensures
        spec_ci_status(Some(a)) == spec_ci_status(Some(b)),
{
    assert(any_failed(a) <==> any_failed(b)) by {
        if exists|i: int| 0 <= i < a.len() && is_failed(#[trigger] a[i]) {
            let i = choose|i: int| 0 <= i < a.len() && is_failed(#[trigger] a[i]);
            assert(a.contains(a[i]));
            assert(b.contains(a[i]));
        }
        if exists|j: int| 0 <= j < b.len() && is_failed(#[trigger] b[j]) {
            let j = choose|j: int| 0 <= j < b.len() && is_failed(#[trigger] b[j]);
            assert(b.contains(b[j]));
            assert(a.contains(b[j]));
        }
    }
    assert(any_pending(a) <==> any_pending(b)) by {
        if exists|i: int| 0 <= i < a.len() && is_pending(#[trigger] a[i]) {
            let i = choose|i: int| 0 <= i < a.len() && is_pending(#[trigger] a[i]);
            assert(a.contains(a[i]));
            assert(b.contains(a[i]));
        }
        if exists|j: int| 0 <= j < b.len() && is_pending(#[trigger] b[j]) {
            let j = choose|j: int| 0 <= j < b.len() && is_pending(#[trigger] b[j]);
            assert(b.contains(b[j]));
            assert(a.contains(b[j]));
        }
    }
    assert(all_passed(a) <==> all_passed(b)) by {
        if forall|i: int| 0 <= i < a.len() ==> is_passed(#[trigger] a[i]) {
            assert forall|j: int| 0 <= j < b.len() implies is_passed(#[trigger] b[j]) by {
                assert(b.contains(b[j]));
                assert(a.contains(b[j]));
            }
        }
        if forall|j: int| 0 <= j < b.len() ==> is_passed(#[trigger] b[j]) {
            assert forall|i: int| 0 <= i < a.len() implies is_passed(#[trigger] a[i]) by {
                assert(a.contains(a[i]));
                assert(b.contains(a[i]));
            }
        }
    }
}

} // verus!

verus! {

/// The CI verdict from the raw check fields: a check whose conclusion is
/// FAILURE, or whose state is FAILURE or ERROR, makes it `fail`; else a
/// check in state PENDING makes it `pending`; else checks that all
/// concluded or reported SUCCESS make it `pass`; no rollup gives nothing.
pub proof fn law_ci_status_verdicts(cs: Seq<StatusCheckView>)
    ensures
        spec_ci_status(None) is None,
        (exists|i: int| 0 <= i < cs.len() && (#[trigger] cs[i].conclusion == Some("FAILURE"@)
            || cs[i].state == Some("FAILURE"@) || cs[i].state == Some("ERROR"@)))
            ==> spec_ci_status(Some(cs)) == Some("fail"@),
        (forall|i: int| 0 <= i < cs.len() ==> #[trigger] cs[i].conclusion != Some("FAILURE"@)
            && cs[i].state != Some("FAILURE"@) && cs[i].state != Some("ERROR"@))
            && (exists|i: int| 0 <= i < cs.len() && #[trigger] cs[i].state == Some("PENDING"@))
            ==> spec_ci_status(Some(cs)) == Some("pending"@),
        (forall|i: int| 0 <= i < cs.len() ==> #[trigger] cs[i].conclusion == Some("SUCCESS"@)
            && cs[i].state != Some("FAILURE"@) && cs[i].state != Some("ERROR"@) && cs[i].state != Some("PENDING"@))
            ==> spec_ci_status(Some(cs)) == Some("pass"@),
{
    reveal_strlit("FAILURE");
    reveal_strlit("SUCCESS");
    reveal_strlit("PENDING");
    reveal_strlit("ERROR");
    assert("SUCCESS"@ != "FAILURE"@) by {
        assert("SUCCESS"@[0] != "FAILURE"@[0]);
    }
    if exists|i: int| 0 <= i < cs.len() && (#[trigger] cs[i].conclusion == Some("FAILURE"@)
        || cs[i].state == Some("FAILURE"@) || cs[i].state == Some("ERROR"@)) {
        let i = choose|i: int| 0 <= i < cs.len() && (#[trigger] cs[i].conclusion == Some("FAILURE"@)
            || cs[i].state == Some("FAILURE"@) || cs[i].state == Some("ERROR"@));
        assert(is_failed(cs[i]));
    }
    if (forall|i: int| 0 <= i < cs.len() ==> #[trigger] cs[i].conclusion != Some("FAILURE"@)
        && cs[i].state != Some("FAILURE"@) && cs[i].state != Some("ERROR"@))
        && (exists|i: int| 0 <= i < cs.len() && #[trigger] cs[i].state == Some("PENDING"@)) {
        let i = choose|i: int| 0 <= i < cs.len() && #[trigger] cs[i].state == Some("PENDING"@);
        assert(is_pending(cs[i]));
        assert(!any_failed(cs));
    }
    if forall|i: int| 0 <= i < cs.len() ==> #[trigger] cs[i].conclusion == Some("SUCCESS"@)
        && cs[i].state != Some("FAILURE"@) && cs[i].state != Some("ERROR"@) && cs[i].state != Some("PENDING"@) {
        assert(!any_failed(cs)) by {
            assert forall|i: int| 0 <= i < cs.len() implies !is_failed(#[trigger] cs[i]) by {
                assert(cs[i].conclusion == Some("SUCCESS"@));
            }
        }
        assert(!any_pending(cs));
        assert(all_passed(cs));
    }
}

} // verus!
