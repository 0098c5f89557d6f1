//! Helpers of the external data provider's interface: naming and slugs for
//! data files. The records themselves reach the compiler as plain values.

use vstd::prelude::*;

use crate::path::{file_name_spec, file_name, rfind, rfind_spec};
use crate::text::{
    ends_with, ends_with_spec, find, find_spec, push_all, replace_all, replace_all_spec, subtext,
    text_of_str, Text,
};

verus! {

/// The stem of a file name: what stands before its last dot, a leading
/// dot not counting.
pub open spec fn file_stem_spec(p: Seq<char>) -> Seq<char> {
    let name = file_name_spec(p);
    match rfind_spec(name, seq!['.']) {
        Some(i) => {
            if i > 0 {
                name.take(i)
            } else {
                name
            }
        },
        None => name,
    }
}

/// The stem of a file name.
pub fn file_stem(p: &Text) -> (r: Text)
    ensures
        r@ == file_stem_spec(p@),
{
    let name = file_name(p);
    let mut dot: Text = Vec::new();
    dot.push('.');
    assert(dot@ =~= seq!['.']);
    let n = name.len();
    match rfind(&name, &dot) {
        Some(i) => {
            if i > 0 {
                proof {
                    crate::path::lemma_rfind_some_in_range(name@, dot@);
                    assert(i < n);
                }
                let r = subtext(&name, 0, i);
                assert(r@ =~= name@.take(i as int));
                r
            } else {
                name
            }
        },
        None => name,
    }
}

/// `.data`, the marker suffix of a data file's stem.
pub open spec fn data_marker() -> Seq<char> {
    seq!['.', 'd', 'a', 't', 'a']
}

/// The provider's name for a data file: the stem, its `.data` marker cut
/// off.
pub open spec fn data_file_name_spec(p: Seq<char>) -> Seq<char> {
    let stem = file_stem_spec(p);
    if ends_with_spec(stem, data_marker()) {
        match find_spec(stem, data_marker()) {
            Some(i) => stem.take(i),
            None => stem,
        }
    } else {
        stem
    }
}

/// Names a data file for the provider.
pub fn get_data_file_name(file: &Text) -> (r: Text)
    ensures
        r@ == data_file_name_spec(file@),
{
    let stem = file_stem(file);
    let marker = text_of_str(".data");
    proof {
        reveal_strlit(".data");
        assert(marker@ =~= data_marker());
    }
    if ends_with(&stem, &marker) {
        let n = stem.len();
        match find(&stem, &marker) {
            Some(i) => {
                proof {
                    crate::text::lemma_find_from_in_range(stem@, marker@, 0);
                    assert(i <= n);
                }
                let r = subtext(&stem, 0, i);
                assert(r@ =~= stem@.take(i as int));
                r
            },
            None => stem,
        }
    } else {
        stem
    }
}

/// A name as a slug: spaces, separators and newlines become dashes.
pub open spec fn slugify_spec(name: Seq<char>) -> Seq<char> {
    replace_all_spec(
        replace_all_spec(
            replace_all_spec(name, seq![' '], seq!['-']),
            seq!['/'],
            seq!['-'],
        ),
        seq!['\n'],
        seq!['-'],
    )
}

/// Slugs a name.
pub fn slugify(name: &Text) -> (r: Text)
    ensures
        r@ == slugify_spec(name@),
{
    let mut space_pat: Text = Vec::new();
    space_pat.push(' ');
    assert(space_pat@ =~= seq![' ']);
    let mut slash_pat: Text = Vec::new();
    slash_pat.push('/');
    assert(slash_pat@ =~= seq!['/']);
    let mut nl_pat: Text = Vec::new();
    nl_pat.push('\n');
    assert(nl_pat@ =~= seq!['\n']);
    let mut dash: Text = Vec::new();
    dash.push('-');
    assert(dash@ =~= seq!['-']);
    let a = replace_all(name, &space_pat, &dash);
    let b = replace_all(&a, &slash_pat, &dash);
    replace_all(&b, &nl_pat, &dash)
}

} // verus!
