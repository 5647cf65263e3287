//! File-path helpers: the file name and extension of a `/`-separated path,
//! and joining path components.

use vstd::prelude::*;
use crate::text::{char_views, chars_eq, chars_of, find_last, last_index_of, push_str, slice_chars, string_of};

verus! {

/// `s` split at every `c`; always at least one (possibly empty) piece.
pub open spec fn split_on(s: Seq<char>, c: char) -> Seq<Seq<char>>
    decreases s.len(),
{
    if s.len() == 0 {
        seq![seq![]]
    } else {
        let rest = split_on(s.drop_last(), c);
        if s.last() == c {
            rest.push(seq![])
        } else {
            rest.update(rest.len() - 1, rest.last().push(s.last()))
        }
    }
}

proof fn lemma_split_on_nonempty(s: Seq<char>, c: char)
    ensures
        split_on(s, c).len() >= 1,
    decreases s.len(),
{
    if s.len() > 0 {
        lemma_split_on_nonempty(s.drop_last(), c);
    }
}

/// Components that a path walk skips: empty ones (from repeated or trailing
/// separators) and `.`.
pub open spec fn is_skipped_component(c: Seq<char>) -> bool {
    c.len() == 0 || c == seq!['.']
}

/// The last component that is not skipped.
pub open spec fn last_component(parts: Seq<Seq<char>>) -> Option<Seq<char>>
    decreases parts.len(),
{
    if parts.len() == 0 {
        None
    } else if is_skipped_component(parts.last()) {
        last_component(parts.drop_last())
    } else {
        Some(parts.last())
    }
}

/// `Path::file_name` for a `/`-separated path: the last normal component,
/// or nothing when the path ends in `..` or has no component.
pub open spec fn file_name(path: Seq<char>) -> Option<Seq<char>> {
    match last_component(split_on(path, '/')) {
        Some(c) => if c == seq!['.', '.'] { None } else { Some(c) },
        None => None,
    }
}

/// `Path::extension`: the part of the file name after its last `.`, unless
/// that `.` is the first character of the name or there is none.
pub open spec fn extension(path: Seq<char>) -> Option<Seq<char>> {
    match file_name(path) {
        Some(name) => match last_index_of(name, '.') {
            Some(i) => if i == 0 { None } else { Some(name.skip(i + 1)) },
            None => None,
        },
        None => None,
    }
}

/// The pieces of `s` between the occurrences of `c`.
pub fn split_chars(s: &[char], c: char) -> (r: Vec<Vec<char>>)
    ensures
        char_views(r@) == split_on(s@, c),
{
    let mut parts: Vec<Vec<char>> = Vec::new();
    let mut cur: Vec<char> = Vec::new();
    let mut i: usize = 0;
    assert(s@.take(0) =~= Seq::<char>::empty());
    assert(char_views(parts@).push(cur@) =~= split_on(Seq::<char>::empty(), c));
    while i < s.len()
        invariant
            i <= s.len(),
            char_views(parts@).push(cur@) == split_on(s@.take(i as int), c),
        decreases s.len() - i,
    {
        let ghost prev = char_views(parts@);
        let ghost prev_cur = cur@;
        assert(s@.take(i + 1).drop_last() == s@.take(i as int));
        assert(s@.take(i + 1).last() == s@[i as int]);
        if s[i] == c {
            let done = cur;
            parts.push(done);
            cur = Vec::new();
            assert(char_views(parts@) =~= prev.push(prev_cur));
            assert(char_views(parts@).push(cur@) =~= prev.push(prev_cur).push(seq![]));
        } else {
            cur.push(s[i]);
            assert(char_views(parts@) == prev);
            assert(prev.push(prev_cur).update(prev.len() as int, prev_cur.push(s@[i as int])) =~= prev.push(cur@));
        }
        i += 1;
    }
    assert(s@.take(s.len() as int) == s@);
    let ghost before = char_views(parts@);
    parts.push(cur);
    assert(char_views(parts@) =~= before.push(cur@));
    parts
}

/// The file name of a `/`-separated path.
pub fn file_name_of(path: &[char]) -> (r: Option<Vec<char>>)
    ensures
        match r {
            Some(n) => file_name(path@) == Some(n@),
            None => file_name(path@) is None,
        },
{
    let parts = split_chars(path, '/');
    let ghost views = char_views(parts@);
    let mut i: usize = parts.len();
    assert(views.take(i as int) == views);
    while i > 0
        invariant
            i <= parts.len(),
            views == char_views(parts@),
            views == split_on(path@, '/'),
            last_component(views) == last_component(views.take(i as int)),
        decreases i,
    {
        let comp = &parts[i - 1];
        assert(views[i - 1] == parts@[i - 1]@);
        assert(views.take(i as int).last() == comp@);
        assert(views.take(i as int).drop_last() == views.take(i - 1));
        let dot: [char; 1] = ['.'];
        let dotdot: [char; 2] = ['.', '.'];
        assert(dot@ == seq!['.']);
        assert(dotdot@ == seq!['.', '.']);
        if comp.len() == 0 || chars_eq(comp.as_slice(), dot.as_slice()) {
            i -= 1;
        } else {
            if chars_eq(comp.as_slice(), dotdot.as_slice()) {
                return None;
            }
            let name = slice_chars(comp.as_slice(), 0, comp.len());
            assert(comp@.subrange(0, comp@.len() as int) == comp@);
            return Some(name);
        }
    }
    assert(views.take(0) =~= Seq::<Seq<char>>::empty());
    None
}

/// The extension of a `/`-separated path, as `Path::extension` gives it.
pub fn extension_of(path: &[char]) -> (r: Option<Vec<char>>)
    ensures
        match r {
            Some(e) => extension(path@) == Some(e@),
            None => extension(path@) is None,
        },
{
    match file_name_of(path) {
        Some(name) => {
            proof {
                crate::text::lemma_last_index_of(name@, '.');
            }
            match find_last(name.as_slice(), '.') {
            Some(i) => {
                assert(last_index_of(name@, '.') == Some(i as int));
                assert(i < name@.len());
                assert(i < name.len());
                if i == 0 {
                    None
                } else {
                    Some(slice_chars(name.as_slice(), i + 1, name.len()))
                }
            },
            None => None,
        }},
        None => None,
    }
}

/// `a` and `b` joined with one `/` between them, as `Path::join` joins a
/// relative component.
pub open spec fn join(a: Seq<char>, b: Seq<char>) -> Seq<char> {
    if a.len() == 0 || a.last() == '/' { a + b } else { a + seq!['/'] + b }
}

/// Joins a relative component onto a path.
pub fn join_path(a: &str, b: &str) -> (r: String)
    ensures
        r@ == join(a@, b@),
{
    let ac = chars_of(a);
    let mut out = string_of(ac.as_slice());
    if ac.len() > 0 && ac[ac.len() - 1] != '/' {
        out.push('/');
    }
    push_str(&mut out, b);
    out
}

} // verus!
