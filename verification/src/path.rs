//! Path evaluation rules, over plain textual paths.
//!
//! The host resolves real directories (working, output, source, data) and
//! hands them in as values; every rule here is a pure function of those
//! texts, with `/` as the separator.

use vstd::prelude::*;

use crate::text::{
    contains, copy_text, ends_with, ends_with_spec, find_from_spec, match_at, push_all,
    starts_with, starts_with_spec, subtext, text_eq, text_of_str, Text,
};

verus! {

/// How a project is rooted: by an index file, by a source directory, or not
/// at all.
#[derive(PartialEq, Eq, Structural, Clone, Copy, Debug)]
pub enum Strategy {
    Index,
    Src,
    Nil,
}

/// The last match of `pat` at or before `k`.
pub open spec fn rfind_at_spec(s: Seq<char>, pat: Seq<char>, k: int) -> Option<int>
    decreases k + 1,
{
    if k < 0 {
        None
    } else if match_at(s, pat, k) {
        Some(k)
    } else {
        rfind_at_spec(s, pat, k - 1)
    }
}

/// The last match of `pat` in `s`.
pub open spec fn rfind_spec(s: Seq<char>, pat: Seq<char>) -> Option<int> {
    rfind_at_spec(s, pat, s.len() - pat.len())
}

/// Finds the last occurrence of `pat` in `s`.
pub fn rfind(s: &Text, pat: &Text) -> (r: Option<usize>)
    ensures
        r matches Some(i) ==> rfind_spec(s@, pat@) == Some(i as int),
        r is None ==> rfind_spec(s@, pat@) is None,
{
    if pat.len() > s.len() {
        proof {
            lemma_rfind_none_short(s@, pat@, s@.len() - pat@.len());
        }
        return None;
    }
    let mut k: usize = s.len() - pat.len();
    loop
        invariant
            pat@.len() <= s@.len(),
            0 <= k <= s@.len() - pat@.len(),
            k + pat@.len() <= s@.len(),
            rfind_spec(s@, pat@) == rfind_at_spec(s@, pat@, k as int),
        decreases k,
    {
        if crate::text::starts_with(&{
            let sub = subtext(s, k, s.len());
            sub
        }, pat) {
            proof {
                assert(match_at(s@, pat@, k as int)) by {
                    assert(s@.subrange(k as int, s@.len() as int).subrange(0, pat@.len() as int)
                        =~= s@.subrange(k as int, k + pat@.len()));
                }
            }
            return Some(k);
        }
        proof {
            assert(!match_at(s@, pat@, k as int)) by {
                if match_at(s@, pat@, k as int) {
                    assert(s@.subrange(k as int, s@.len() as int).subrange(0, pat@.len() as int)
                        =~= s@.subrange(k as int, k + pat@.len()));
                }
            }
        }
        if k == 0 {
            proof {
                assert(rfind_at_spec(s@, pat@, -1) is None);
            }
            return None;
        }
        k -= 1;
    }
}

proof fn lemma_rfind_none_short(s: Seq<char>, pat: Seq<char>, k: int)
    requires
        pat.len() > s.len() || k < 0,
    ensures
        rfind_at_spec(s, pat, if k < 0 {
            k
        } else {
            k
        }) is None,
    decreases k + 1,
{
    if k >= 0 {
        assert(!match_at(s, pat, k));
        lemma_rfind_none_short(s, pat, k - 1);
    }
}

/// `path` with any leading separators dropped.
pub open spec fn drop_slashes_spec(p: Seq<char>) -> Seq<char>
    decreases p.len(),
{
    if p.len() > 0 && p[0] == '/' {
        drop_slashes_spec(p.drop_first())
    } else {
        p
    }
}

fn drop_slashes(p: &Text) -> (r: Text)
    ensures
        r@ == drop_slashes_spec(p@),
{
    let n = p.len();
    let mut i: usize = 0;
    while i < n && p[i] == '/'
        invariant
            n == p@.len(),
            0 <= i <= n,
            forall|j: int| 0 <= j < i ==> p@[j] == '/',
        decreases n - i,
    {
        i += 1;
    }
    proof {
        lemma_drop_slashes_skip(p@, i as int);
        assert(p@.skip(i as int) =~= p@.subrange(i as int, n as int));
        if i < n {
            assert(drop_slashes_spec(p@.skip(i as int)) == p@.skip(i as int));
        }
    }
    subtext(p, i, n)
}

proof fn lemma_drop_slashes_skip(p: Seq<char>, i: int)
    requires
        0 <= i <= p.len(),
        forall|j: int| 0 <= j < i ==> p[j] == '/',
    ensures
        drop_slashes_spec(p) == drop_slashes_spec(p.skip(i)),
    decreases i,
{
    if i > 0 {
        assert(p.drop_first() =~= p.skip(1));
        lemma_drop_slashes_skip(p.drop_first(), i - 1);
        assert(p.drop_first().skip(i - 1) =~= p.skip(i));
    } else {
        assert(p.skip(0) =~= p);
    }
}

/// The remainder of `path` after a directory prefix, component-wise: the
/// prefix must end at a separator.
pub open spec fn strip_prefix_spec(path: Seq<char>, prefix: Seq<char>) -> Option<Seq<char>> {
    if prefix.len() == 0 {
        Some(drop_slashes_spec(path))
    } else if path == prefix {
        Some(Seq::empty())
    } else if prefix[prefix.len() - 1] == '/' && starts_with_spec(path, prefix) {
        Some(drop_slashes_spec(path.skip(prefix.len() as int)))
    } else if starts_with_spec(path, prefix + seq!['/']) {
        Some(drop_slashes_spec(path.skip(prefix.len() as int + 1)))
    } else {
        None
    }
}

/// Strips a directory prefix off a path.
pub fn strip_prefix(path: &Text, prefix: &Text) -> (r: Option<Text>)
    ensures
        match r {
            Some(t) => strip_prefix_spec(path@, prefix@) == Some(t@),
            None => strip_prefix_spec(path@, prefix@) is None,
        },
{
    if prefix.len() == 0 {
        return Some(drop_slashes(path));
    }
    if text_eq(path, prefix) {
        let r: Text = Vec::new();
        assert(r@ =~= Seq::<char>::empty());
        return Some(r);
    }
    if prefix[prefix.len() - 1] == '/' && starts_with(path, prefix) {
        let tail = subtext(path, prefix.len(), path.len());
        assert(tail@ =~= path@.skip(prefix@.len() as int));
        return Some(drop_slashes(&tail));
    }
    let mut with_sep = copy_text(prefix);
    with_sep.push('/');
    assert(with_sep@ =~= prefix@ + seq!['/']);
    if starts_with(path, &with_sep) {
        let m = with_sep.len();
        let tail = subtext(path, m, path.len());
        assert(tail@ =~= path@.skip(prefix@.len() as int + 1));
        return Some(drop_slashes(&tail));
    }
    None
}

/// Joining two paths: an absolute right side wins; otherwise they are
/// separated by exactly one `/`.
pub open spec fn path_join_spec(a: Seq<char>, b: Seq<char>) -> Seq<char> {
    if b.len() > 0 && b[0] == '/' {
        b
    } else if a.len() == 0 {
        b
    } else if a[a.len() - 1] == '/' {
        a + b
    } else {
        a + seq!['/'] + b
    }
}

/// Joins two paths.
pub fn path_join(a: &Text, b: &Text) -> (r: Text)
    ensures
        r@ == path_join_spec(a@, b@),
{
    if b.len() > 0 && b[0] == '/' {
        return copy_text(b);
    }
    if a.len() == 0 {
        return copy_text(b);
    }
    let mut r = copy_text(a);
    if a[a.len() - 1] != '/' {
        r.push('/');
    }
    push_all(&mut r, b);
    proof {
        if a@[a@.len() - 1] != '/' {
            assert(r@ =~= a@ + seq!['/'] + b@);
        }
    }
    r
}

/// The directory part of a path: everything before the last separator.
pub open spec fn parent_dir_spec(p: Seq<char>) -> Seq<char> {
    match rfind_spec(p, seq!['/']) {
        Some(i) => p.take(i),
        None => Seq::empty(),
    }
}

/// The directory part of a path.
pub fn parent_dir(p: &Text) -> (r: Text)
    ensures
        r@ == parent_dir_spec(p@),
{
    let mut sep: Text = Vec::new();
    sep.push('/');
    assert(sep@ =~= seq!['/']);
    match rfind(p, &sep) {
        Some(i) => {
            proof {
                lemma_rfind_in_range(p@, sep@, (p@.len() - sep@.len()) as int);
            }
            let r = subtext(p, 0, i);
            assert(r@ =~= p@.take(i as int));
            r
        },
        None => Vec::new(),
    }
}

proof fn lemma_rfind_in_range(s: Seq<char>, pat: Seq<char>, k: int)
    requires
        rfind_at_spec(s, pat, k) is Some,
    ensures
        ({
            let i = rfind_at_spec(s, pat, k)->Some_0;
            &&& 0 <= i <= k
            &&& match_at(s, pat, i)
        }),
    decreases k + 1,
{
    if k >= 0 {
        if !match_at(s, pat, k) {
            lemma_rfind_in_range(s, pat, k - 1);
        }
    }
}

/// The last component of a path.
pub open spec fn file_name_spec(p: Seq<char>) -> Seq<char> {
    match rfind_spec(p, seq!['/']) {
        Some(i) => p.skip(i + 1),
        None => p,
    }
}

/// The last component of a path.
pub fn file_name(p: &Text) -> (r: Text)
    ensures
        r@ == file_name_spec(p@),
{
    let mut sep: Text = Vec::new();
    sep.push('/');
    assert(sep@ =~= seq!['/']);
    let n = p.len();
    match rfind(p, &sep) {
        Some(i) => {
            proof {
                lemma_rfind_in_range(p@, sep@, (p@.len() - sep@.len()) as int);
                assert(i < n);
            }
            let r = subtext(p, i + 1, p.len());
            assert(r@ =~= p@.skip(i as int + 1));
            r
        },
        None => copy_text(p),
    }
}

/// The extension of a path: what follows the last dot of its file name,
/// a leading dot not counting.
pub open spec fn extension_spec(p: Seq<char>) -> Option<Seq<char>> {
    let name = file_name_spec(p);
    match rfind_spec(name, seq!['.']) {
        Some(i) => {
            if i > 0 {
                Some(name.skip(i + 1))
            } else {
                None
            }
        },
        None => None,
    }
}

/// The extension of a path.
pub fn extension(p: &Text) -> (r: Option<Text>)
    ensures
        match r {
            Some(t) => extension_spec(p@) == Some(t@),
            None => extension_spec(p@) is None,
        },
{
    let name = file_name(p);
    let mut dot: Text = Vec::new();
    dot.push('.');
    assert(dot@ =~= seq!['.']);
    let n = name.len();
    match rfind(&name, &dot) {
        Some(i) => {
            if i > 0 {
                proof {
                    lemma_rfind_in_range(name@, dot@, (name@.len() - dot@.len()) as int);
                    assert(i < n);
                }
                let r = subtext(&name, i + 1, name.len());
                assert(r@ =~= name@.skip(i as int + 1));
                Some(r)
            } else {
                None
            }
        },
        None => None,
    }
}

/// Strips the working directory off a path; an unrelated path collapses to
/// the current directory.
pub open spec fn strip_cwd_spec(file: Seq<char>, cwd: Seq<char>) -> Seq<char> {
    match strip_prefix_spec(file, cwd) {
        Some(t) => t,
        None => seq!['.'],
    }
}

/// Strips the working directory off a path.
pub fn strip_cwd(file: &Text, cwd: &Text) -> (r: Text)
    ensures
        r@ == strip_cwd_spec(file@, cwd@),
{
    match strip_prefix(file, cwd) {
        Some(t) => t,
        None => {
            let mut r: Text = Vec::new();
            r.push('.');
            assert(r@ =~= seq!['.']);
            r
        },
    }
}

/// Strips the crate's original working directory off a path.
pub fn strip_crate_cwd(file: &Text, crate_cwd: &Text) -> (r: Text)
    ensures
        r@ == strip_cwd_spec(file@, crate_cwd@),
{
    strip_cwd(file, crate_cwd)
}

/// Strips the data directory off a path, falling back to the working
/// directory.
pub open spec fn strip_data_dir_spec(file: Seq<char>, data_dir: Seq<char>, cwd: Seq<char>) -> Seq<
    char,
> {
    match strip_prefix_spec(file, data_dir) {
        Some(t) => t,
        None => strip_cwd_spec(file, cwd),
    }
}

/// Strips the data directory off a path, falling back to the working
/// directory.
pub fn strip_data_dir(file: &Text, data_dir: &Text, cwd: &Text) -> (r: Text)
    ensures
        r@ == strip_data_dir_spec(file@, data_dir@, cwd@),
{
    match strip_prefix(file, data_dir) {
        Some(t) => t,
        None => strip_cwd(file, cwd),
    }
}

/// Strips the working directory or the known source directory, for output
/// paths.
pub open spec fn strip_cwd_for_output_spec(
    file: Seq<char>,
    cwd: Seq<char>,
    src_dir: Seq<char>,
) -> Seq<char> {
    if strip_prefix_spec(file, src_dir) is Some {
        strip_prefix_spec(file, src_dir)->Some_0
    } else {
        strip_cwd_spec(file, cwd)
    }
}

/// Strips the working directory or the known source directory, for output
/// paths.
pub fn strip_cwd_for_output(file: &Text, cwd: &Text, src_dir: &Text) -> (r: Text)
    ensures
        r@ == strip_cwd_for_output_spec(file@, cwd@, src_dir@),
{
    match strip_prefix(file, src_dir) {
        Some(t) => t,
        None => strip_cwd(file, cwd),
    }
}

/// Where a source file lands under the output directory.
pub open spec fn prefix_with_owd_spec(
    file: Seq<char>,
    owd: Seq<char>,
    cwd: Seq<char>,
    src_dir: Seq<char>,
) -> Seq<char> {
    path_join_spec(owd, strip_cwd_for_output_spec(file, cwd, src_dir))
}

/// Substitutes the output directory for the working directory in a path.
pub fn prefix_with_owd(file: &Text, owd: &Text, cwd: &Text, src_dir: &Text) -> (r: Text)
    ensures
        r@ == prefix_with_owd_spec(file@, owd@, cwd@, src_dir@),
{
    let base = strip_cwd_for_output(file, cwd, src_dir);
    path_join(owd, &base)
}

/// Whether a path already lies under the output directory.
pub open spec fn starts_with_owd_spec(file: Seq<char>, owd: Seq<char>) -> bool {
    strip_prefix_spec(file, owd) is Some
}

/// Whether a path already lies under the output directory.
pub fn starts_with_owd(file: &Text, owd: &Text) -> (r: bool)
    ensures
        r == starts_with_owd_spec(file@, owd@),
{
    strip_prefix(file, owd).is_some()
}

/// Whether a path is a data file: it lies in the data directory, or its
/// file name ends in `.data.<its extension>`.
pub open spec fn is_data_spec(file: Seq<char>, data_dir: Seq<char>) -> bool {
    let in_data_dir = strip_prefix_spec(file, data_dir) is Some;
    let ext = match extension_spec(file) {
        Some(e) => e,
        None => Seq::<char>::empty(),
    };
    let data_ext = seq!['.', 'd', 'a', 't', 'a', '.'] + ext;
    ends_with_spec(file_name_spec(file), data_ext) || in_data_dir
}

/// Whether a path is a data file.
pub fn is_data(file: &Text, data_dir: &Text) -> (r: bool)
    ensures
        r == is_data_spec(file@, data_dir@),
{
    let in_data_dir = strip_prefix(file, data_dir).is_some();
    let ext = match extension(file) {
        Some(e) => e,
        None => Vec::new(),
    };
    let mut data_ext = text_of_str(".data.");
    proof {
        reveal_strlit(".data.");
        assert(data_ext@ =~= seq!['.', 'd', 'a', 't', 'a', '.']);
    }
    push_all(&mut data_ext, &ext);
    let name = file_name(file);
    let r = ends_with(&name, &data_ext);
    r || in_data_dir
}

/// The rules for paths worth processing: not a dot file other than `.env`,
/// not an ignored directory, not already under the output directory, not a
/// data file.
pub open spec fn is_valid_path_spec(file: Seq<char>, owd: Seq<char>, data_dir: Seq<char>) -> bool {
    let name = file_name_spec(file);
    let is_dot_not_env = name != seq!['.', 'e', 'n', 'v'] && name.len() > 0 && name[0] == '.';
    let is_ignored = name == seq!['.', 'g', 'i', 't'] || name == seq![
        'n',
        'o',
        'd',
        'e',
        '_',
        'm',
        'o',
        'd',
        'u',
        'l',
        'e',
        's',
    ] || name == seq!['p', 'u', 'b', 'l', 'i', 'c'];
    !is_dot_not_env && !is_ignored && !starts_with_owd_spec(file, owd) && !is_data_spec(
        file,
        data_dir,
    )
}

/// Decides whether a path is worth processing.
pub fn is_valid_path(file: &Text, owd: &Text, data_dir: &Text) -> (r: bool)
    ensures
        r == is_valid_path_spec(file@, owd@, data_dir@),
{
    let name = file_name(file);
    let env_name = text_of_str(".env");
    proof {
        reveal_strlit(".env");
        assert(env_name@ =~= seq!['.', 'e', 'n', 'v']);
    }
    let is_dot_not_env = !text_eq(&name, &env_name) && name.len() > 0 && name[0] == '.';
    let git = text_of_str(".git");
    let node_modules = text_of_str("node_modules");
    let public_dir = text_of_str("public");
    proof {
        reveal_strlit(".git");
        reveal_strlit("node_modules");
        reveal_strlit("public");
        assert(git@ =~= seq!['.', 'g', 'i', 't']);
        assert(node_modules@ =~= seq![
            'n',
            'o',
            'd',
            'e',
            '_',
            'm',
            'o',
            'd',
            'u',
            'l',
            'e',
            's',
        ]);
        assert(public_dir@ =~= seq!['p', 'u', 'b', 'l', 'i', 'c']);
    }
    let is_ignored = text_eq(&name, &git) || text_eq(&name, &node_modules) || text_eq(
        &name,
        &public_dir,
    );
    let is_processed = starts_with_owd(file, owd);
    let is_data_file = is_data(file, data_dir);
    !is_dot_not_env && !is_ignored && !is_processed && !is_data_file
}

/// Picks the work strategy from what the working directory offers: an
/// `index.html`, an `index.htm`, or a source directory, in that order.
pub open spec fn evaluate_cwd_spec(
    has_index_html: bool,
    has_index_htm: bool,
    has_src: bool,
) -> Strategy {
    if has_index_html {
        Strategy::Index
    } else if has_index_htm {
        Strategy::Index
    } else if has_src {
        Strategy::Src
    } else {
        Strategy::Nil
    }
}

/// Picks the work strategy; the host says which entry points exist.
pub fn evaluate_cwd(has_index_html: bool, has_index_htm: bool, has_src: bool) -> (r: Strategy)
    ensures
        r == evaluate_cwd_spec(has_index_html, has_index_htm, has_src),
{
    if has_index_html {
        Strategy::Index
    } else if has_index_htm {
        Strategy::Index
    } else if has_src {
        Strategy::Src
    } else {
        Strategy::Nil
    }
}


/// A found last occurrence lies inside the text.
pub proof fn lemma_rfind_some_in_range(s: Seq<char>, pat: Seq<char>)
    requires
        rfind_spec(s, pat) is Some,
    ensures
        ({
            let i = rfind_spec(s, pat)->Some_0;
            &&& 0 <= i
            &&& i + pat.len() <= s.len()
            &&& match_at(s, pat, i)
        }),
{
    lemma_rfind_in_range(s, pat, s.len() - pat.len());
}


/// A path shown without the crate's working directory, for messages.
pub fn no_cwd_path_as_str(file: &Text, crate_cwd: &Text) -> (r: Text)
    ensures
        r@ == strip_cwd_spec(file@, crate_cwd@),
{
    strip_crate_cwd(file, crate_cwd)
}

} // verus!
