//! Maps a file extension to the language that handles it.

use vstd::prelude::*;
use super::{spec_extensions, Lang};
use crate::text::{chars_eq, chars_of};

verus! {

/// All supported languages, in lookup order.
pub open spec fn spec_all() -> Seq<Lang> {
    seq![
        Lang::Go,
        Lang::Rust,
        Lang::Elixir,
        Lang::Gleam,
        Lang::Python,
        Lang::TypeScript,
        Lang::Tsx,
    ]
}

/// The first language, in lookup order, whose extensions contain `ext`.
pub open spec fn spec_for_extension(ext: Seq<char>) -> Option<Lang> {
    first_with_extension(spec_all(), ext)
}

pub open spec fn first_with_extension(langs: Seq<Lang>, ext: Seq<char>) -> Option<Lang>
    decreases langs.len(),
{
    if langs.len() == 0 {
        None
    } else if spec_extensions(langs[0]).contains(ext) {
        Some(langs[0])
    } else {
        first_with_extension(langs.drop_first(), ext)
    }
}

pub fn all() -> (r: Vec<Lang>)
    ensures
        r@ == spec_all(),
{
    let r = vec![
        Lang::Go,
        Lang::Rust,
        Lang::Elixir,
        Lang::Gleam,
        Lang::Python,
        Lang::TypeScript,
        Lang::Tsx,
    ];
    assert(r@ =~= spec_all());
    r
}

/// Whether `lang` handles the extension `ext`.
fn handles(lang: Lang, ext: &[char]) -> (r: bool)
    ensures
        r == spec_extensions(lang).contains(ext@),
{
    let exts = lang.extensions();
    let mut i: usize = 0;
    while i < exts.len()
        invariant
            i <= exts.len(),
            crate::languages::str_views(exts@) == spec_extensions(lang),
            forall|j: int| 0 <= j < i ==> exts@[j]@ != ext@,
        decreases exts.len() - i,
    {
        let e = chars_of(exts[i]);
        if chars_eq(e.as_slice(), ext) {
            assert(spec_extensions(lang)[i as int] == ext@);
            return true;
        }
        i += 1;
    }
    assert forall|j: int| 0 <= j < spec_extensions(lang).len() implies spec_extensions(lang)[j] != ext@ by {
        assert(spec_extensions(lang)[j] == exts@[j]@);
    }
    false
}

/// The language handling a file extension (given as characters).
pub fn for_extension_chars(ext: &[char]) -> (r: Option<Lang>)
    ensures
        r == spec_for_extension(ext@),
{
    let langs = all();
    let mut i: usize = 0;
    assert(spec_all().skip(0) == spec_all());
    while i < langs.len()
        invariant
            i <= langs.len(),
            langs@ == spec_all(),
            spec_for_extension(ext@) == first_with_extension(spec_all().skip(i as int), ext@),
        decreases langs.len() - i,
    {
        assert(spec_all().skip(i as int)[0] == langs@[i as int]);
        assert(spec_all().skip(i as int).drop_first() == spec_all().skip(i + 1));
        if handles(langs[i], ext) {
            return Some(langs[i]);
        }
        i += 1;
    }
    assert(spec_all().skip(7) =~= Seq::<Lang>::empty());
    None
}

/// The language support for a file extension, or `None` if unsupported.
pub fn for_extension(ext: &str) -> (r: Option<Lang>)
    ensures
        r == spec_for_extension(ext@),
{
    let e = chars_of(ext);
    for_extension_chars(e.as_slice())
}

} // verus!
