//! Verified text primitives over `Vec<char>`.
//!
//! The compiler works on text as vectors of characters, so that every
//! operation (search, split, trim, replace) carries an exact contract over
//! the `Seq<char>` view.

use vstd::prelude::*;

verus! {

/// One piece of text, as the compiler holds it.
pub type Text = Vec<char>;

/// `pat` occurs in `s` starting at index `i`.
pub open spec fn match_at(s: Seq<char>, pat: Seq<char>, i: int) -> bool {
    0 <= i && i + pat.len() <= s.len() && s.subrange(i, i + pat.len()) == pat
}

/// Index of the first occurrence of `pat` in `s` at or after `i`.
pub open spec fn find_from_spec(s: Seq<char>, pat: Seq<char>, i: int) -> Option<int>
    decreases s.len() - i + 1,
{
    if i < 0 || i + pat.len() > s.len() {
        None
    } else if match_at(s, pat, i) {
        Some(i)
    } else {
        find_from_spec(s, pat, i + 1)
    }
}

/// An empty pattern matches wherever it fits.
proof fn lemma_match_at_empty(s: Seq<char>, pat: Seq<char>, i: int)
    requires
        pat.len() == 0,
        0 <= i <= s.len(),
    ensures
        match_at(s, pat, i),
{
    assert(s.subrange(i, i) =~= pat);
}

/// Index of the first occurrence of `pat` in `s`.
pub open spec fn find_spec(s: Seq<char>, pat: Seq<char>) -> Option<int> {
    find_from_spec(s, pat, 0)
}

/// `pat` occurs somewhere in `s`.
pub open spec fn contains_spec(s: Seq<char>, pat: Seq<char>) -> bool {
    find_spec(s, pat) is Some
}

proof fn lemma_find_from_some(s: Seq<char>, pat: Seq<char>, i: int)
    requires
        0 <= i,
        find_from_spec(s, pat, i) is Some,
    ensures
        ({
            let j = find_from_spec(s, pat, i)->Some_0;
            &&& i <= j
            &&& match_at(s, pat, j)
            &&& forall|k: int| i <= k < j ==> !match_at(s, pat, k)
        }),
    decreases s.len() - i + 1,
{
    if i + pat.len() > s.len() {
    } else if match_at(s, pat, i) {
    } else {
        lemma_find_from_some(s, pat, i + 1);
    }
}

proof fn lemma_find_from_none(s: Seq<char>, pat: Seq<char>, i: int)
    requires
        0 <= i,
        find_from_spec(s, pat, i) is None,
    ensures
        forall|k: int| i <= k ==> !match_at(s, pat, k),
    decreases s.len() - i + 1,
{
    if i + pat.len() > s.len() {
        assert forall|k: int| i <= k implies !match_at(s, pat, k) by {
            assert(k + pat.len() > s.len());
        }
    } else {
        lemma_find_from_none(s, pat, i + 1);
    }
}

/// The full characterization of `find_from_spec`, for callers that search
/// incrementally.
pub proof fn lemma_find_from_step(s: Seq<char>, pat: Seq<char>, i: int)
    requires
        0 <= i,
        i + pat.len() <= s.len(),
        !match_at(s, pat, i),
    ensures
        find_from_spec(s, pat, i) == find_from_spec(s, pat, i + 1),
{
}

/// Whatever `find_from_spec` answers is the leftmost match at or after `i`.
pub proof fn lemma_find_from_characterization(s: Seq<char>, pat: Seq<char>, i: int)
    requires
        0 <= i,
    ensures
        find_from_spec(s, pat, i) matches Some(j) ==> {
            &&& i <= j
            &&& match_at(s, pat, j)
            &&& forall|k: int| i <= k < j ==> !match_at(s, pat, k)
        },
        find_from_spec(s, pat, i) is None ==> forall|k: int| i <= k ==> !match_at(s, pat, k),
{
    if find_from_spec(s, pat, i) is Some {
        lemma_find_from_some(s, pat, i);
    } else {
        lemma_find_from_none(s, pat, i);
    }
}

/// Compares two texts.
pub fn text_eq(a: &Text, b: &Text) -> (r: bool)
    ensures
        r == (a@ == b@),
{
    if a.len() != b.len() {
        assert(a@ != b@) by {
            assert(a@.len() != b@.len());
        }
        return false;
    }
    let n = a.len();
    let mut i: usize = 0;
    while i < n
        invariant
            n == a.len() == b.len(),
            0 <= i <= n,
            forall|k: int| 0 <= k < i ==> a@[k] == b@[k],
        decreases n - i,
    {
        if a[i] != b[i] {
            return false;
        }
        i += 1;
    }
    assert(a@ =~= b@);
    true
}

/// `pat` occurs in `s` starting at `i` (executable check).
fn matches_at(s: &Text, pat: &Text, i: usize) -> (r: bool)
    requires
        i + pat@.len() <= s@.len(),
    ensures
        r == match_at(s@, pat@, i as int),
{
    let n = s.len();
    let mut k: usize = 0;
    while k < pat.len()
        invariant
            n == s@.len(),
            i + pat@.len() <= n,
            0 <= k <= pat@.len(),
            forall|m: int| 0 <= m < k ==> s@[i + m] == pat@[m],
        decreases pat@.len() - k,
    {
        if s[i + k] != pat[k] {
            assert(!match_at(s@, pat@, i as int)) by {
                if s@.subrange(i as int, i + pat@.len()) == pat@ {
                    assert(s@.subrange(i as int, i + pat@.len())[k as int] == pat@[k as int]);
                }
            }
            return false;
        }
        k += 1;
    }
    assert(s@.subrange(i as int, i + pat@.len()) =~= pat@);
    true
}

/// Finds the first occurrence of `pat` in `s` at or after `from`.
pub fn find_from(s: &Text, pat: &Text, from: usize) -> (r: Option<usize>)
    ensures
        r matches Some(i) ==> find_from_spec(s@, pat@, from as int) == Some(i as int),
        r is None ==> find_from_spec(s@, pat@, from as int) is None,
{
    if pat.len() > s.len() || from > s.len() - pat.len() {
        proof {
            lemma_find_from_characterization(s@, pat@, from as int);
            if find_from_spec(s@, pat@, from as int) is Some {
                let j = find_from_spec(s@, pat@, from as int)->Some_0;
                assert(match_at(s@, pat@, j));
                assert(false);
            }
        }
        return None;
    }
    if pat.len() == 0 {
        proof {
            lemma_match_at_empty(s@, pat@, from as int);
        }
        return Some(from);
    }
    let n = s.len();
    let last = n - pat.len();
    let mut i: usize = from;
    while i <= last
        invariant
            from <= i <= last + 1,
            1 <= pat@.len() <= s@.len(),
            n == s@.len(),
            last == s@.len() - pat@.len(),
            last < n,
            find_from_spec(s@, pat@, from as int) == find_from_spec(s@, pat@, i as int),
        decreases last + 1 - i,
    {
        if matches_at(s, pat, i) {
            return Some(i);
        }
        proof {
            lemma_find_from_step(s@, pat@, i as int);
        }
        i += 1;
    }
    None
}

/// Finds the first occurrence of `pat` in `s`.
pub fn find(s: &Text, pat: &Text) -> (r: Option<usize>)
    ensures
        r matches Some(i) ==> find_spec(s@, pat@) == Some(i as int),
        r is None ==> find_spec(s@, pat@) is None,
{
    find_from(s, pat, 0)
}

/// Does `pat` occur in `s`?
pub fn contains(s: &Text, pat: &Text) -> (r: bool)
    ensures
        r == contains_spec(s@, pat@),
{
    find_from(s, pat, 0).is_some()
}

/// `s` begins with `pat`.
pub open spec fn starts_with_spec(s: Seq<char>, pat: Seq<char>) -> bool {
    pat.len() <= s.len() && s.subrange(0, pat.len() as int) == pat
}

/// `s` ends with `pat`.
pub open spec fn ends_with_spec(s: Seq<char>, pat: Seq<char>) -> bool {
    pat.len() <= s.len() && s.subrange(s.len() - pat.len(), s.len() as int) == pat
}

pub fn starts_with(s: &Text, pat: &Text) -> (r: bool)
    ensures
        r == starts_with_spec(s@, pat@),
{
    if pat.len() > s.len() {
        return false;
    }
    matches_at(s, pat, 0)
}

pub fn ends_with(s: &Text, pat: &Text) -> (r: bool)
    ensures
        r == ends_with_spec(s@, pat@),
{
    if pat.len() > s.len() {
        return false;
    }
    let r = matches_at(s, pat, s.len() - pat.len());
    r
}

/// Copy of `s[from..to]`.
pub fn subtext(s: &Text, from: usize, to: usize) -> (r: Text)
    requires
        from <= to <= s@.len(),
    ensures
        r@ == s@.subrange(from as int, to as int),
{
    let mut r: Text = Vec::new();
    let mut i: usize = from;
    while i < to
        invariant
            from <= i <= to <= s@.len(),
            r@ == s@.subrange(from as int, i as int),
        decreases to - i,
    {
        r.push(s[i]);
        assert(r@ =~= s@.subrange(from as int, i + 1));
        i += 1;
    }
    r
}

/// Appends all of `b` to `a`.
pub fn push_all(a: &mut Text, b: &Text)
    ensures
        final(a)@ == old(a)@ + b@,
{
    let mut i: usize = 0;
    while i < b.len()
        invariant
            0 <= i <= b@.len(),
            a@ == old(a)@ + b@.subrange(0, i as int),
        decreases b@.len() - i,
    {
        a.push(b[i]);
        assert(a@ =~= old(a)@ + b@.subrange(0, i + 1));
        i += 1;
    }
    assert(a@ =~= old(a)@ + b@);
}

/// Concatenation of two texts.
pub fn concat(a: &Text, b: &Text) -> (r: Text)
    ensures
        r@ == a@ + b@,
{
    let mut r = subtext(a, 0, a.len());
    assert(r@ =~= a@);
    push_all(&mut r, b);
    r
}

/// A copy of `s`.
pub fn copy_text(s: &Text) -> (r: Text)
    ensures
        r@ == s@,
{
    let r = subtext(s, 0, s.len());
    assert(r@ =~= s@);
    r
}


/// ASCII whitespace, as the compiler understands it.
pub open spec fn is_space(c: char) -> bool {
    c == ' ' || c == '\t' || c == '\r' || c == '\n'
}

/// Executable whitespace test.
pub fn space(c: char) -> (r: bool)
    ensures
        r == is_space(c),
{
    c == ' ' || c == '\t' || c == '\r' || c == '\n'
}

/// `s` without its leading whitespace.
pub open spec fn trim_start_spec(s: Seq<char>) -> Seq<char>
    decreases s.len(),
{
    if s.len() > 0 && is_space(s[0]) {
        trim_start_spec(s.drop_first())
    } else {
        s
    }
}

/// `s` without its trailing whitespace.
pub open spec fn trim_end_spec(s: Seq<char>) -> Seq<char>
    decreases s.len(),
{
    if s.len() > 0 && is_space(s[s.len() - 1]) {
        trim_end_spec(s.drop_last())
    } else {
        s
    }
}

/// `s` without leading and trailing whitespace.
pub open spec fn trim_spec(s: Seq<char>) -> Seq<char> {
    trim_end_spec(trim_start_spec(s))
}

proof fn lemma_trim_start_skip(s: Seq<char>, i: int)
    requires
        0 <= i <= s.len(),
        forall|j: int| 0 <= j < i ==> is_space(s[j]),
    ensures
        trim_start_spec(s) == trim_start_spec(s.skip(i)),
    decreases i,
{
    if i > 0 {
        assert(s.drop_first() =~= s.skip(1));
        lemma_trim_start_skip(s.drop_first(), i - 1);
        assert(s.drop_first().skip(i - 1) =~= s.skip(i));
    } else {
        assert(s.skip(0) =~= s);
    }
}

/// Drops leading whitespace.
pub fn trim_start(s: &Text) -> (r: Text)
    ensures
        r@ == trim_start_spec(s@),
{
    let n = s.len();
    let mut i: usize = 0;
    while i < n && space(s[i])
        invariant
            n == s@.len(),
            0 <= i <= n,
            forall|j: int| 0 <= j < i ==> is_space(s@[j]),
        decreases n - i,
    {
        i += 1;
    }
    proof {
        lemma_trim_start_skip(s@, i as int);
        assert(s@.skip(i as int) =~= s@.subrange(i as int, n as int));
        if i < n {
            assert(trim_start_spec(s@.skip(i as int)) == s@.skip(i as int));
        }
    }
    subtext(s, i, n)
}

proof fn lemma_trim_end_take(s: Seq<char>, i: int)
    requires
        0 <= i <= s.len(),
        forall|j: int| i <= j < s.len() ==> is_space(s[j]),
    ensures
        trim_end_spec(s) == trim_end_spec(s.take(i)),
    decreases s.len() - i,
{
    if i < s.len() {
        assert(is_space(s[s.len() - 1]));
        assert(s.drop_last() =~= s.take(s.len() - 1));
        lemma_trim_end_take(s.take(s.len() - 1), i);
        assert(s.take(s.len() - 1).take(i) =~= s.take(i));
    } else {
        assert(s.take(i) =~= s);
    }
}

/// Drops trailing whitespace.
pub fn trim_end(s: &Text) -> (r: Text)
    ensures
        r@ == trim_end_spec(s@),
{
    let n = s.len();
    let mut i: usize = n;
    while i > 0 && space(s[i - 1])
        invariant
            n == s@.len(),
            0 <= i <= n,
            forall|j: int| i <= j < n ==> is_space(s@[j]),
        decreases i,
    {
        i -= 1;
    }
    proof {
        lemma_trim_end_take(s@, i as int);
        assert(s@.take(i as int) =~= s@.subrange(0, i as int));
        if i > 0 {
            assert(trim_end_spec(s@.take(i as int)) == s@.take(i as int));
        }
    }
    subtext(s, 0, i)
}

/// Drops whitespace on both ends.
pub fn trim(s: &Text) -> (r: Text)
    ensures
        r@ == trim_spec(s@),
{
    let t = trim_start(s);
    trim_end(&t)
}

/// The `Seq<char>` views of a sequence of texts.
pub open spec fn views(v: Seq<Text>) -> Seq<Seq<char>> {
    v.map_values(|t: Text| t@)
}

/// Pieces of `s` after `p`, split on the character `sep`.
pub open spec fn split_char_from_spec(s: Seq<char>, sep: char, p: int) -> Seq<Seq<char>>
    decreases s.len() - p + 1,
{
    if p < 0 || p > s.len() {
        Seq::empty()
    } else {
        match find_from_spec(s, seq![sep], p) {
            Some(i) => {
                if p <= i && i + 1 <= s.len() {
                    seq![s.subrange(p, i)] + split_char_from_spec(s, sep, i + 1)
                } else {
                    seq![s.subrange(p, s.len() as int)]
                }
            },
            None => seq![s.subrange(p, s.len() as int)],
        }
    }
}

/// `s` split on the character `sep`.
pub open spec fn split_char_spec(s: Seq<char>, sep: char) -> Seq<Seq<char>> {
    split_char_from_spec(s, sep, 0)
}

pub proof fn lemma_find_from_in_range(s: Seq<char>, pat: Seq<char>, p: int)
    requires
        0 <= p,
        find_from_spec(s, pat, p) is Some,
    ensures
        p <= find_from_spec(s, pat, p)->Some_0,
        find_from_spec(s, pat, p)->Some_0 + pat.len() <= s.len(),
{
    lemma_find_from_characterization(s, pat, p);
}

fn split_char_from(s: &Text, sep: char, p: usize) -> (r: Vec<Text>)
    requires
        p <= s@.len(),
    ensures
        views(r@) == split_char_from_spec(s@, sep, p as int),
    decreases s@.len() - p,
{
    let mut pat: Text = Vec::new();
    pat.push(sep);
    assert(pat@ =~= seq![sep]);
    let n = s.len();
    match find_from(s, &pat, p) {
        Some(i) => {
            proof {
                lemma_find_from_in_range(s@, pat@, p as int);
                assert(i + 1 <= n);
            }
            let head = subtext(s, p, i);
            let rest = split_char_from(s, sep, i + 1);
            let mut r: Vec<Text> = Vec::new();
            r.push(head);
            let mut k: usize = 0;
            while k < rest.len()
                invariant
                    0 <= k <= rest@.len(),
                    r@.len() == k + 1,
                    r@[0]@ == head@,
                    forall|m: int| 0 <= m < k ==> r@[m + 1]@ == rest@[m]@,
                decreases rest@.len() - k,
            {
                let piece = copy_text(&rest[k]);
                r.push(piece);
                k += 1;
            }
            proof {
                assert(views(r@) =~= seq![head@] + views(rest@)) by {
                    assert(views(r@).len() == 1 + views(rest@).len());
                    assert(forall|m: int|
                        0 <= m < views(rest@).len() ==> views(r@)[m + 1] == #[trigger] views(
                            rest@,
                        )[m]);
                }
            }
            r
        },
        None => {
            let head = subtext(s, p, s.len());
            let mut r: Vec<Text> = Vec::new();
            r.push(head);
            proof {
                assert(views(r@) =~= seq![s@.subrange(p as int, s@.len() as int)]);
            }
            r
        },
    }
}

/// Splits `s` on a separator character.
pub fn split_char(s: &Text, sep: char) -> (r: Vec<Text>)
    ensures
        views(r@) == split_char_spec(s@, sep),
{
    split_char_from(s, sep, 0)
}

/// The lines of `s`: pieces split on a newline, a trailing newline not
/// opening a final empty line.
pub open spec fn lines_spec(s: Seq<char>) -> Seq<Seq<char>> {
    if s.len() == 0 {
        Seq::empty()
    } else if s[s.len() - 1] == '\n' {
        split_char_spec(s.drop_last(), '\n')
    } else {
        split_char_spec(s, '\n')
    }
}

/// Splits `s` into lines.
pub fn lines(s: &Text) -> (r: Vec<Text>)
    ensures
        views(r@) == lines_spec(s@),
{
    let n = s.len();
    if n == 0 {
        let r: Vec<Text> = Vec::new();
        assert(views(r@) =~= lines_spec(s@));
        return r;
    }
    if s[n - 1] == '\n' {
        let t = subtext(s, 0, n - 1);
        assert(t@ =~= s@.drop_last());
        split_char(&t, '\n')
    } else {
        split_char(s, '\n')
    }
}

/// Every line followed by a newline, concatenated.
pub open spec fn join_nl_spec(ls: Seq<Seq<char>>) -> Seq<char>
    decreases ls.len(),
{
    if ls.len() == 0 {
        Seq::empty()
    } else {
        ls[0] + seq!['\n'] + join_nl_spec(ls.drop_first())
    }
}

/// Splitting on newlines and rejoining gives the text back, up to the final
/// newline.
pub proof fn lemma_join_nl_split(s: Seq<char>, p: int)
    requires
        0 <= p <= s.len(),
    ensures
        join_nl_spec(split_char_from_spec(s, '\n', p)) == s.skip(p) + seq!['\n'],
    decreases s.len() - p,
{
    match find_from_spec(s, seq!['\n'], p) {
        Some(i) => {
            lemma_find_from_characterization(s, seq!['\n'], p);
            assert(p <= i && i + 1 <= s.len());
            assert(s.subrange(i, i + 1) == seq!['\n']);
            assert(s[i] == '\n') by {
                assert(s.subrange(i, i + 1)[0] == s[i]);
            }
            lemma_join_nl_split(s, i + 1);
            let pieces = split_char_from_spec(s, '\n', p);
            assert(pieces.drop_first() =~= split_char_from_spec(s, '\n', i + 1));
            assert(pieces[0] == s.subrange(p, i));
            assert(s.skip(p) =~= s.subrange(p, i) + seq!['\n'] + s.skip(i + 1));
            assert(join_nl_spec(pieces) =~= s.subrange(p, i) + seq!['\n'] + (s.skip(i + 1)
                + seq!['\n']));
            assert(s.subrange(p, i) + seq!['\n'] + (s.skip(i + 1) + seq!['\n']) =~= (s.subrange(
                p,
                i,
            ) + seq!['\n'] + s.skip(i + 1)) + seq!['\n']);
        },
        None => {
            assert(s.subrange(p, s.len() as int) =~= s.skip(p));
            let pieces = split_char_from_spec(s, '\n', p);
            assert(pieces.drop_first() =~= Seq::<Seq<char>>::empty());
            assert(pieces[0] == s.subrange(p, s.len() as int));
            assert(join_nl_spec(Seq::<Seq<char>>::empty()) == Seq::<char>::empty());
            assert(join_nl_spec(pieces.drop_first()) == Seq::<char>::empty());
            assert(join_nl_spec(pieces) =~= s.skip(p) + seq!['\n']);
        },
    }
}

/// Joins lines, a newline after each.
pub fn join_nl(ls: &Vec<Text>) -> (r: Text)
    ensures
        r@ == join_nl_spec(views(ls@)),
{
    let mut r: Text = Vec::new();
    proof {
        assert(views(ls@).skip(0) =~= views(ls@));
        assert(r@ + join_nl_spec(views(ls@)) =~= join_nl_spec(views(ls@)));
    }
    let mut k: usize = 0;
    while k < ls.len()
        invariant
            0 <= k <= ls@.len(),
            join_nl_spec(views(ls@)) == r@ + join_nl_spec(views(ls@).skip(k as int)),
        decreases ls@.len() - k,
    {
        let ghost r0 = r@;
        proof {
            let tail = views(ls@).skip(k as int);
            assert(tail[0] == ls@[k as int]@);
            assert(tail.drop_first() =~= views(ls@).skip(k as int + 1));
            assert(r0 + (tail[0] + seq!['\n'] + join_nl_spec(tail.drop_first())) =~= (r0 + ls@[
                k as int
            ]@ + seq!['\n']) + join_nl_spec(views(ls@).skip(k as int + 1)));
        }
        push_all(&mut r, &ls[k]);
        r.push('\n');
        proof {
            assert(r@ =~= r0 + ls@[k as int]@ + seq!['\n']);
        }
        k += 1;
    }
    proof {
        assert(views(ls@).skip(ls@.len() as int) =~= Seq::<Seq<char>>::empty());
        assert(r@ + join_nl_spec(Seq::<Seq<char>>::empty()) =~= r@);
    }
    r
}

/// Joins pieces with a separator between them.
pub open spec fn join_sep_spec(ls: Seq<Seq<char>>, sep: Seq<char>) -> Seq<char>
    decreases ls.len(),
{
    if ls.len() == 0 {
        Seq::empty()
    } else if ls.len() == 1 {
        ls[0]
    } else {
        ls[0] + sep + join_sep_spec(ls.drop_first(), sep)
    }
}

/// Joins pieces with a separator between them.
pub fn join_sep(ls: &Vec<Text>, sep: &Text) -> (r: Text)
    ensures
        r@ == join_sep_spec(views(ls@), sep@),
{
    let mut r: Text = Vec::new();
    if ls.len() == 0 {
        return r;
    }
    push_all(&mut r, &ls[0]);
    proof {
        lemma_join_sep_tail(views(ls@), sep@, 1);
        assert(views(ls@).skip(0) =~= views(ls@));
        assert(r@ =~= views(ls@)[0]);
    }
    let mut k: usize = 1;
    while k < ls.len()
        invariant
            1 <= k <= ls@.len(),
            join_sep_spec(views(ls@), sep@) == r@ + join_sep_tail(views(ls@), sep@, k as int),
        decreases ls@.len() - k,
    {
        let ghost r0 = r@;
        proof {
            assert(r0 + (sep@ + ls@[k as int]@ + join_sep_tail(views(ls@), sep@, k as int + 1))
                =~= ((r0 + sep@) + ls@[k as int]@) + join_sep_tail(views(ls@), sep@, k + 1));
            assert(views(ls@)[k as int] == ls@[k as int]@);
        }
        push_all(&mut r, sep);
        push_all(&mut r, &ls[k]);
        proof {
            assert(r@ =~= (r0 + sep@) + ls@[k as int]@);
        }
        k += 1;
    }
    proof {
        assert(r@ + join_sep_tail(views(ls@), sep@, ls@.len() as int) =~= r@);
    }
    r
}

/// What is still to come while joining: separator, piece, separator, piece.
pub open spec fn join_sep_tail(ls: Seq<Seq<char>>, sep: Seq<char>, k: int) -> Seq<char>
    decreases ls.len() - k + 1,
{
    if k < 0 || k >= ls.len() {
        Seq::empty()
    } else {
        sep + ls[k] + join_sep_tail(ls, sep, k + 1)
    }
}

proof fn lemma_join_sep_tail(ls: Seq<Seq<char>>, sep: Seq<char>, k: int)
    requires
        1 <= k <= ls.len(),
    ensures
        join_sep_spec(ls.skip(k - 1), sep) == ls[k - 1] + join_sep_tail(ls, sep, k),
    decreases ls.len() - k,
{
    if k == ls.len() {
        assert(ls.skip(k - 1) =~= seq![ls[k - 1]]);
    } else {
        lemma_join_sep_tail(ls, sep, k + 1);
        assert(ls.skip(k - 1).drop_first() =~= ls.skip(k));
        assert(ls.skip(k - 1)[0] == ls[k - 1]);
        assert(ls.skip(k - 1).len() > 1);
    }
}

/// `s` with every occurrence of `from` replaced by `to`, scanning left to
/// right without overlap.
pub open spec fn replace_all_spec(s: Seq<char>, from: Seq<char>, to: Seq<char>) -> Seq<char>
    decreases s.len(),
{
    if from.len() == 0 {
        s
    } else {
        match find_spec(s, from) {
            Some(i) => {
                if 0 <= i && i + from.len() <= s.len() {
                    s.subrange(0, i) + to + replace_all_spec(s.skip(i + from.len()), from, to)
                } else {
                    s
                }
            },
            None => s,
        }
    }
}

/// Replaces every occurrence of `from` with `to`.
pub fn replace_all(s: &Text, from: &Text, to: &Text) -> (r: Text)
    ensures
        r@ == replace_all_spec(s@, from@, to@),
    decreases s@.len(),
{
    if from.len() == 0 {
        return copy_text(s);
    }
    let n = s.len();
    match find(s, from) {
        Some(i) => {
            proof {
                lemma_find_from_in_range(s@, from@, 0);
                assert(i + from@.len() <= n);
            }
            let mut r = subtext(s, 0, i);
            push_all(&mut r, to);
            let tail = subtext(s, i + from.len(), s.len());
            assert(tail@ =~= s@.skip(i + from@.len()));
            let rep = replace_all(&tail, from, to);
            push_all(&mut r, &rep);
            r
        },
        None => copy_text(s),
    }
}

/// How many times `pat` occurs in `s`, counted left to right without
/// overlap.
pub open spec fn count_matches_spec(s: Seq<char>, pat: Seq<char>) -> nat
    decreases s.len(),
{
    if pat.len() == 0 {
        0
    } else {
        match find_spec(s, pat) {
            Some(i) => {
                if 0 <= i && i + pat.len() <= s.len() {
                    1 + count_matches_spec(s.skip(i + pat.len()), pat)
                } else {
                    0
                }
            },
            None => 0,
        }
    }
}

/// Counts non-overlapping occurrences of `pat`.
pub fn count_matches(s: &Text, pat: &Text) -> (r: usize)
    ensures
        r == count_matches_spec(s@, pat@),
    decreases s@.len(),
{
    if pat.len() == 0 {
        return 0;
    }
    let n = s.len();
    match find(s, pat) {
        Some(i) => {
            proof {
                lemma_find_from_in_range(s@, pat@, 0);
                assert(i + pat@.len() <= n);
            }
            let tail = subtext(s, i + pat.len(), s.len());
            assert(tail@ =~= s@.skip(i + pat@.len()));
            let rest = count_matches(&tail, pat);
            proof {
                lemma_count_matches_bound(tail@, pat@);
                assert(tail@.len() < n);
            }
            rest + 1
        },
        None => 0,
    }
}

/// The count of matches never exceeds the text length.
proof fn lemma_count_matches_bound(s: Seq<char>, pat: Seq<char>)
    ensures
        count_matches_spec(s, pat) <= s.len(),
    decreases s.len(),
{
    if pat.len() > 0 {
        match find_spec(s, pat) {
            Some(i) => {
                lemma_find_from_characterization(s, pat, 0);
                lemma_count_matches_bound(s.skip(i + pat.len() as int), pat);
            },
            None => {},
        }
    }
}

/// Builds a text from a string slice.
pub fn text_of_str(s: &str) -> (r: Text)
    ensures
        r@ == s@,
{
    let n = s.unicode_len();
    let mut r: Text = Vec::new();
    let mut i: usize = 0;
    while i < n
        invariant
            n == s@.len(),
            0 <= i <= n,
            r@ == s@.subrange(0, i as int),
        decreases n - i,
    {
        let c = s.get_char(i);
        r.push(c);
        assert(r@ =~= s@.subrange(0, i + 1));
        i += 1;
    }
    assert(r@ =~= s@);
    r
}


/// A witnessed match means the pattern is contained.
pub proof fn lemma_contains_of_match(s: Seq<char>, pat: Seq<char>, i: int)
    requires
        match_at(s, pat, i),
    ensures
        contains_spec(s, pat),
{
    lemma_find_from_characterization(s, pat, 0);
}


/// Pieces of `s` after `p`, split on the pattern `pat`.
pub open spec fn split_pat_from_spec(s: Seq<char>, pat: Seq<char>, p: int) -> Seq<Seq<char>>
    decreases s.len() - p + 1,
{
    if p < 0 || p > s.len() || pat.len() == 0 {
        Seq::empty()
    } else {
        match find_from_spec(s, pat, p) {
            Some(i) => {
                if p <= i && i + pat.len() <= s.len() {
                    seq![s.subrange(p, i)] + split_pat_from_spec(s, pat, i + pat.len())
                } else {
                    seq![s.subrange(p, s.len() as int)]
                }
            },
            None => seq![s.subrange(p, s.len() as int)],
        }
    }
}

/// `s` split on the pattern `pat`.
pub open spec fn split_pat_spec(s: Seq<char>, pat: Seq<char>) -> Seq<Seq<char>> {
    split_pat_from_spec(s, pat, 0)
}

fn split_pat_from(s: &Text, pat: &Text, p: usize) -> (r: Vec<Text>)
    requires
        p <= s@.len(),
        pat@.len() > 0,
    ensures
        views(r@) == split_pat_from_spec(s@, pat@, p as int),
    decreases s@.len() - p,
{
    let n = s.len();
    match find_from(s, pat, p) {
        Some(i) => {
            proof {
                lemma_find_from_in_range(s@, pat@, p as int);
                assert(i + pat@.len() <= n);
            }
            let head = subtext(s, p, i);
            let rest = split_pat_from(s, pat, i + pat.len());
            let mut r: Vec<Text> = Vec::new();
            r.push(head);
            let mut k: usize = 0;
            while k < rest.len()
                invariant
                    0 <= k <= rest@.len(),
                    r@.len() == k + 1,
                    r@[0]@ == s@.subrange(p as int, i as int),
                    forall|m: int| 0 <= m < k ==> r@[m + 1]@ == rest@[m]@,
                decreases rest@.len() - k,
            {
                let piece = copy_text(&rest[k]);
                r.push(piece);
                k += 1;
            }
            proof {
                assert(views(r@) =~= seq![s@.subrange(p as int, i as int)] + views(rest@)) by {
                    assert(views(r@).len() == 1 + views(rest@).len());
                    assert(forall|m: int|
                        0 <= m < views(rest@).len() ==> views(r@)[m + 1] == #[trigger] views(
                            rest@,
                        )[m]);
                }
            }
            r
        },
        None => {
            let head = subtext(s, p, s.len());
            let mut r: Vec<Text> = Vec::new();
            r.push(head);
            proof {
                assert(views(r@) =~= seq![s@.subrange(p as int, s@.len() as int)]);
            }
            r
        },
    }
}

/// Splits `s` on a separator pattern.
pub fn split_pat(s: &Text, pat: &Text) -> (r: Vec<Text>)
    requires
        pat@.len() > 0,
    ensures
        views(r@) == split_pat_spec(s@, pat@),
{
    split_pat_from(s, pat, 0)
}

/// The prefix of `s` before the first occurrence of the character `c`.
pub open spec fn take_until_char_spec(s: Seq<char>, c: char) -> Seq<char> {
    match find_spec(s, seq![c]) {
        Some(i) => s.take(i),
        None => s,
    }
}

/// The prefix of `s` before the first occurrence of `c`.
pub fn take_until_char(s: &Text, c: char) -> (r: Text)
    ensures
        r@ == take_until_char_spec(s@, c),
{
    let mut pat: Text = Vec::new();
    pat.push(c);
    assert(pat@ =~= seq![c]);
    match find(s, &pat) {
        Some(i) => {
            proof {
                lemma_find_from_in_range(s@, pat@, 0);
            }
            let r = subtext(s, 0, i);
            assert(r@ =~= s@.take(i as int));
            r
        },
        None => copy_text(s),
    }
}

/// `s` with only its first occurrence of `from` replaced by `to`.
pub open spec fn replace_first_spec(s: Seq<char>, from: Seq<char>, to: Seq<char>) -> Seq<char> {
    if from.len() == 0 {
        s
    } else {
        match find_spec(s, from) {
            Some(i) => {
                if 0 <= i && i + from.len() <= s.len() {
                    s.take(i) + to + s.skip(i + from.len())
                } else {
                    s
                }
            },
            None => s,
        }
    }
}

/// Replaces the first occurrence of `from` with `to`.
pub fn replace_first(s: &Text, from: &Text, to: &Text) -> (r: Text)
    ensures
        r@ == replace_first_spec(s@, from@, to@),
{
    if from.len() == 0 {
        return copy_text(s);
    }
    let n = s.len();
    match find(s, from) {
        Some(i) => {
            proof {
                lemma_find_from_in_range(s@, from@, 0);
                assert(i + from@.len() <= n);
            }
            let mut r = subtext(s, 0, i);
            assert(r@ =~= s@.take(i as int));
            push_all(&mut r, to);
            let tail = subtext(s, i + from.len(), s.len());
            assert(tail@ =~= s@.skip(i + from@.len()));
            push_all(&mut r, &tail);
            r
        },
        None => copy_text(s),
    }
}

} // verus!
