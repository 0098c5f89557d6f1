//! The incremental-build memory: per-file content fingerprints, the
//! reverse linked-asset dependency graph, and the pending per-page style
//! and script pools.

use vstd::prelude::*;

use crate::checksum::{adler32_of, checksum};
use crate::path::{extension_spec, extension};
use crate::statica_t::record_lookup;
use crate::text::{
    contains_spec, copy_text, starts_with, starts_with_spec, text_eq, text_of_str,
    trim_start, trim_start_spec, views, Text,
};
use crate::tokens::{template_start_tok, template_start_text};

verus! {

/// The pending per-page pools of scoped style and script output.
pub struct Component {
    pub style: Vec<Text>,
    pub script: Vec<Text>,
}

/// One remembered file: its path and the fingerprint of its last-seen
/// content.
pub struct File {
    pub checksum: u32,
    pub path: Text,
}

/// The asset edited most recently in watch mode.
pub struct EditedAsset {
    pub was_edited: bool,
    pub path: Text,
    /// The original filename for when the filename is edited.
    pub original_path: Option<Text>,
}

/// Process-wide incremental state: fingerprints, the reverse dependency
/// graph, pending pools, and the watch-mode signals.
pub struct Memory {
    pub files: Vec<File>,
    /// referenced file -> the files that reference it.
    pub linked: Vec<(Text, Vec<Text>)>,
    pub component: Component,
    pub watch_mode: bool,
    pub edited_env: bool,
    pub edited_asset: EditedAsset,
}

/// The fingerprint remembered for a path.
pub open spec fn files_lookup(s: Seq<File>, path: Seq<char>) -> Option<u32>
    decreases s.len(),
{
    if s.len() == 0 {
        None
    } else if s[0].path@ == path {
        Some(s[0].checksum)
    } else {
        files_lookup(s.drop_first(), path)
    }
}

/// The dependency graph by view: each referenced file with the files that
/// reference it.
pub type GraphV = Seq<(Seq<char>, Seq<Seq<char>>)>;

/// The view of the dependency graph.
pub open spec fn graph_views(s: Seq<(Text, Vec<Text>)>) -> GraphV {
    s.map_values(|e: (Text, Vec<Text>)| (e.0@, views(e.1@)))
}

/// The files referencing a path.
pub open spec fn graph_lookup(g: GraphV, key: Seq<char>) -> Option<Seq<Seq<char>>>
    decreases g.len(),
{
    if g.len() == 0 {
        None
    } else if g[0].0 == key {
        Some(g[0].1)
    } else {
        graph_lookup(g.drop_first(), key)
    }
}

/// `f` directly references `p`: it stands in `p`'s referencer list.
pub open spec fn is_direct_ref(g: GraphV, p: Seq<char>, f: Seq<char>) -> bool {
    match graph_lookup(g, p) {
        Some(list) => list.contains(f),
        None => false,
    }
}

/// `f` reaches `p` along at most `n + 1` reverse dependency edges: it
/// references `p`, or it references something that does.
pub open spec fn reaches(g: GraphV, p: Seq<char>, f: Seq<char>, n: nat) -> bool
    decreases n,
{
    is_direct_ref(g, p, f) || (n > 0 && exists|mid: Seq<char>|
        #[trigger] is_direct_ref(g, mid, f) && reaches(g, p, mid, (n - 1) as nat))
}

/// A budget large enough once stays large enough.
proof fn lemma_reaches_mono(g: GraphV, p: Seq<char>, f: Seq<char>, n1: nat, n2: nat)
    requires
        reaches(g, p, f, n1),
        n1 <= n2,
    ensures
        reaches(g, p, f, n2),
    decreases n1,
{
    if !is_direct_ref(g, p, f) {
        let mid = choose|mid: Seq<char>|
            #[trigger] is_direct_ref(g, mid, f) && reaches(g, p, mid, (n1 - 1) as nat);
        lemma_reaches_mono(g, p, mid, (n1 - 1) as nat, (n2 - 1) as nat);
        assert(is_direct_ref(g, mid, f) && reaches(g, p, mid, (n2 - 1) as nat));
    }
}

/// The graph after one edge is recorded: a fresh referenced file opens
/// with its one referencer; a known one keeps its list, the referencer
/// appended only if it is new. Nothing else moves: the graph is
/// append-only.
pub open spec fn graph_insert_spec(g: GraphV, asset: Seq<char>, file: Seq<char>) -> GraphV
    decreases g.len(),
{
    if g.len() == 0 {
        seq![(asset, seq![file])]
    } else if g[0].0 == asset {
        if g[0].1.contains(file) {
            g
        } else {
            seq![(g[0].0, g[0].1.push(file))] + g.drop_first()
        }
    } else {
        seq![g[0]] + graph_insert_spec(g.drop_first(), asset, file)
    }
}

proof fn lemma_graph_insert_at(g: GraphV, asset: Seq<char>, file: Seq<char>, k: int)
    requires
        0 <= k < g.len(),
        g[k].0 == asset,
        forall|j: int| 0 <= j < k ==> g[j].0 != asset,
    ensures
        graph_insert_spec(g, asset, file) == (if g[k].1.contains(file) {
            g
        } else {
            g.update(k, (g[k].0, g[k].1.push(file)))
        }),
    decreases k,
{
    if k == 0 {
        if !g[0].1.contains(file) {
            assert(seq![(g[0].0, g[0].1.push(file))] + g.drop_first() =~= g.update(
                0,
                (g[0].0, g[0].1.push(file)),
            ));
        }
    } else {
        lemma_graph_insert_at(g.drop_first(), asset, file, k - 1);
        if g[k].1.contains(file) {
            assert(seq![g[0]] + g.drop_first() =~= g);
        } else {
            assert(seq![g[0]] + g.drop_first().update(k - 1, (g[k].0, g[k].1.push(file))) =~= g
                .update(k, (g[k].0, g[k].1.push(file))));
        }
    }
}

proof fn lemma_graph_insert_missing(g: GraphV, asset: Seq<char>, file: Seq<char>)
    requires
        forall|j: int| 0 <= j < g.len() ==> g[j].0 != asset,
    ensures
        graph_insert_spec(g, asset, file) == g + seq![(asset, seq![file])],
    decreases g.len(),
{
    if g.len() == 0 {
        assert(graph_insert_spec(g, asset, file) =~= g + seq![(asset, seq![file])]);
    } else {
        lemma_graph_insert_missing(g.drop_first(), asset, file);
        assert(seq![g[0]] + (g.drop_first() + seq![(asset, seq![file])]) =~= g + seq![
            (asset, seq![file]),
        ]);
    }
}

impl EditedAsset {
    /// Marks an asset as edited.
    pub fn set(&mut self, was_edited: bool, path: Text)
        ensures
            final(self).was_edited == was_edited,
            final(self).path@ == path@,
            final(self).original_path == old(self).original_path,
    {
        self.was_edited = was_edited;
        self.path = path;
    }

    /// Remembers where an edited asset originally lived.
    pub fn set_original_path(&mut self, original_path: Option<Text>)
        ensures
            final(self).was_edited == old(self).was_edited,
            final(self).path == old(self).path,
            (match final(self).original_path {
                Some(ref p) => original_path matches Some(ref q) && p@ == q@,
                None => original_path is None,
            }),
    {
        self.original_path = original_path;
    }

    /// Clears the edited mark; the original path stays for later checks.
    pub fn reset(&mut self)
        ensures
            final(self).was_edited == false,
            final(self).path@.len() == 0,
            final(self).original_path == old(self).original_path,
    {
        self.was_edited = false;
        self.path = Vec::new();
    }
}

impl Memory {
    /// Forgets every fingerprint and the edited mark, forcing a full
    /// rebuild; the dependency graph is kept.
    pub fn clear(&mut self)
        ensures
            final(self).files@.len() == 0,
            final(self).linked == old(self).linked,
            final(self).component == old(self).component,
            final(self).watch_mode == old(self).watch_mode,
            final(self).edited_env == old(self).edited_env,
            final(self).edited_asset.was_edited == false,
            final(self).edited_asset.path@.len() == 0,
            final(self).edited_asset.original_path == old(self).edited_asset.original_path,
    {
        self.files.clear();
        self.edited_asset.reset();
    }
}

/// Verifies if code begins a component: its first non-blank text opens a
/// template tag.
pub fn is_component(code: &Text) -> (r: bool)
    ensures
        r == starts_with_spec(trim_start_spec(code@), template_start_tok()),
{
    let t = trim_start(code);
    let opener = template_start_text();
    starts_with(&t, &opener)
}

/// Naively decides by extension whether a file is a linked asset; anything
/// else is linked exactly when its code is a component.
pub fn is_linked_naive(file: &Text, code: &Text) -> (r: bool)
    ensures
        r == ({
            let ext = extension_spec(file@);
            if ext == Some(seq!['j', 's']) || ext == Some(seq!['c', 's', 's']) {
                true
            } else {
                starts_with_spec(trim_start_spec(code@), template_start_tok())
            }
        }),
{
    let ext = extension(file);
    match ext {
        Some(e) => {
            let js = text_of_str("js");
            let css = text_of_str("css");
            proof {
                reveal_strlit("js");
                reveal_strlit("css");
                assert(js@ =~= seq!['j', 's']);
                assert(css@ =~= seq!['c', 's', 's']);
            }
            if text_eq(&e, &js) || text_eq(&e, &css) {
                true
            } else {
                is_component(code)
            }
        },
        None => is_component(code),
    }
}

/// Records that `file` links to `asset`: exactly one edge enters the
/// graph, everything already recorded stays, and recording the same edge
/// again changes nothing.
pub fn capture_linked_asset(file: &Text, asset_path: &Text, memo: &mut Memory)
    ensures
        final(memo).files == old(memo).files,
        final(memo).component == old(memo).component,
        final(memo).edited_asset == old(memo).edited_asset,
        final(memo).watch_mode == old(memo).watch_mode,
        final(memo).edited_env == old(memo).edited_env,
        graph_views(final(memo).linked@) == graph_insert_spec(
            graph_views(old(memo).linked@),
            asset_path@,
            file@,
        ),
{
    let ghost g0 = graph_views(old(memo).linked@);
    let n = memo.linked.len();
    let mut k: usize = 0;
    while k < n
        invariant
            n == memo.linked@.len(),
            0 <= k <= n,
            memo == old(memo),
            g0 == graph_views(memo.linked@),
            forall|j: int| 0 <= j < k ==> g0[j].0 != asset_path@,
        decreases n - k,
    {
        proof {
            assert(g0[k as int] == (memo.linked@[k as int].0@, views(memo.linked@[k as int].1@)));
        }
        if text_eq(&memo.linked[k].0, asset_path) {
            let m = memo.linked[k].1.len();
            let mut j: usize = 0;
            while j < m
                invariant
                    k < memo.linked@.len(),
                    m == memo.linked@[k as int].1@.len(),
                    0 <= j <= m,
                    memo == old(memo),
                    g0 == graph_views(memo.linked@),
                    g0[k as int].0 == asset_path@,
                    g0[k as int].1 == views(memo.linked@[k as int].1@),
                    forall|q: int| 0 <= q < k ==> g0[q].0 != asset_path@,
                    forall|t: int| 0 <= t < j ==> g0[k as int].1[t] != file@,
                decreases m - j,
            {
                proof {
                    assert(g0[k as int].1[j as int] == memo.linked@[k as int].1@[j as int]@);
                }
                if text_eq(&memo.linked[k].1[j], file) {
                    proof {
                        assert(g0[k as int].1.contains(file@));
                        lemma_graph_insert_at(g0, asset_path@, file@, k as int);
                    }
                    return ;
                }
                j += 1;
            }
            proof {
                assert(!g0[k as int].1.contains(file@)) by {
                    if g0[k as int].1.contains(file@) {
                        let w = choose|w: int|
                            0 <= w < g0[k as int].1.len() && g0[k as int].1[w] == file@;
                        assert(false);
                    }
                }
                lemma_graph_insert_at(g0, asset_path@, file@, k as int);
            }
            let mut entry = memo.linked.remove(k);
            entry.1.push(copy_text(file));
            proof {
                assert(views(entry.1@) =~= g0[k as int].1.push(file@));
            }
            let ghost entry_v: (Seq<char>, Seq<Seq<char>>) = (entry.0@, views(entry.1@));
            memo.linked.insert(k, entry);
            proof {
                assert(entry_v.0 == g0[k as int].0);
                assert(entry_v.1 == g0[k as int].1.push(file@));
                assert(graph_views(memo.linked@) =~= g0.update(k as int, entry_v));
                assert(g0.update(k as int, entry_v) =~= g0.update(
                    k as int,
                    (g0[k as int].0, g0[k as int].1.push(file@)),
                ));
            }
            return ;
        }
        k += 1;
    }
    proof {
        lemma_graph_insert_missing(g0, asset_path@, file@);
    }
    let mut list: Vec<Text> = Vec::new();
    list.push(copy_text(file));
    proof {
        assert(views(list@) =~= seq![file@]);
    }
    memo.linked.push((copy_text(asset_path), list));
    proof {
        assert(graph_views(memo.linked@) =~= g0 + seq![(asset_path@, seq![file@])]);
    }
}

/// The direct referencers of a path, copied out of the graph.
fn referencers_of(memo: &Memory, path: &Text) -> (r: Vec<Text>)
    ensures
        (match graph_lookup(graph_views(memo.linked@), path@) {
            Some(list) => views(r@) == list,
            None => r@.len() == 0,
        }),
{
    let ghost g = graph_views(memo.linked@);
    let n = memo.linked.len();
    proof {
        assert(g.skip(0) =~= g);
    }
    let mut k: usize = 0;
    while k < n
        invariant
            n == memo.linked@.len(),
            g == graph_views(memo.linked@),
            0 <= k <= n,
            graph_lookup(g, path@) == graph_lookup(g.skip(k as int), path@),
        decreases n - k,
    {
        proof {
            let tail = g.skip(k as int);
            assert(tail[0] == g[k as int]);
            assert(g[k as int] == (memo.linked@[k as int].0@, views(memo.linked@[k as int].1@)));
            assert(tail.drop_first() =~= g.skip(k as int + 1));
        }
        if text_eq(&memo.linked[k].0, path) {
            let m = memo.linked[k].1.len();
            let mut out: Vec<Text> = Vec::new();
            let mut j: usize = 0;
            while j < m
                invariant
                    k < memo.linked@.len(),
                    m == memo.linked@[k as int].1@.len(),
                    0 <= j <= m,
                    out@.len() == j,
                    forall|t: int|
                        0 <= t < j ==> (#[trigger] out@[t])@ == (memo.linked@[k as int].1@[t])@,
                decreases m - j,
            {
                out.push(copy_text(&memo.linked[k].1[j]));
                j += 1;
            }
            proof {
                assert(views(out@) =~= views(memo.linked@[k as int].1@));
            }
            return out;
        }
        k += 1;
    }
    proof {
        assert(g.skip(n as int) =~= GraphV::empty());
    }
    Vec::new()
}

fn seen_has(seen: &Vec<Text>, f: &Text) -> (r: bool)
    ensures
        r == views(seen@).contains(f@),
{
    let n = seen.len();
    let mut i: usize = 0;
    while i < n
        invariant
            n == seen@.len(),
            0 <= i <= n,
            forall|j: int| 0 <= j < i ==> views(seen@)[j] != f@,
        decreases n - i,
    {
        proof {
            assert(views(seen@)[i as int] == seen@[i as int]@);
        }
        if text_eq(&seen[i], f) {
            proof {
                assert(views(seen@).contains(f@));
            }
            return true;
        }
        i += 1;
    }
    proof {
        if views(seen@).contains(f@) {
            let j = choose|j: int| 0 <= j < views(seen@).len() && views(seen@)[j] == f@;
            assert(false);
        }
    }
    false
}

/// Every referencer list of the graph, flattened.
pub open spec fn flat_refs(g: GraphV) -> Seq<Seq<char>>
    decreases g.len(),
{
    if g.len() == 0 {
        Seq::empty()
    } else {
        g[0].1 + flat_refs(g.drop_first())
    }
}

proof fn lemma_lookup_in_flat(g: GraphV, p: Seq<char>, x: Seq<char>)
    requires
        graph_lookup(g, p) matches Some(list) && list.contains(x),
    ensures
        flat_refs(g).contains(x),
    decreases g.len(),
{
    if g.len() > 0 {
        if g[0].0 == p {
            let w = choose|w: int| 0 <= w < g[0].1.len() && g[0].1[w] == x;
            assert(flat_refs(g)[w] == x);
        } else {
            lemma_lookup_in_flat(g.drop_first(), p, x);
            let w = choose|w: int|
                0 <= w < flat_refs(g.drop_first()).len() && flat_refs(g.drop_first())[w] == x;
            assert(flat_refs(g)[g[0].1.len() + w] == x);
        }
    }
}

proof fn lemma_remove_keeps(s: Seq<Seq<char>>, x: Seq<char>, w: int)
    requires
        0 <= w < s.len(),
        s.contains(x),
        x != s[w],
    ensures
        s.remove(w).contains(x),
{
    let v = choose|v: int| 0 <= v < s.len() && s[v] == x;
    if v < w {
        assert(s.remove(w)[v] == x);
    } else {
        assert(s.remove(w)[v - 1] == x);
    }
}

/// A run of pairwise-different values drawn from a pool is never longer
/// than the pool.
proof fn lemma_distinct_in_len(out: Seq<Seq<char>>, pool: Seq<Seq<char>>)
    requires
        forall|m: int, t: int| 0 <= m < t < out.len() ==> #[trigger] out[m] != #[trigger] out[t],
        forall|m: int| 0 <= m < out.len() ==> pool.contains(#[trigger] out[m]),
    ensures
        out.len() <= pool.len(),
    decreases out.len(),
{
    if out.len() > 0 {
        let last = out.last();
        assert(pool.contains(last));
        let w = choose|w: int| 0 <= w < pool.len() && pool[w] == last;
        let rest = out.drop_last();
        let pool2 = pool.remove(w);
        assert forall|m: int| 0 <= m < rest.len() implies pool2.contains(#[trigger] rest[m]) by {
            assert(out[m] == rest[m]);
            assert(rest[m] != last);
            lemma_remove_keeps(pool, rest[m], w);
        }
        lemma_distinct_in_len(rest, pool2);
    }
}

/// What a rebuild list of `pb` answers: every named file lies on a reverse
/// dependency path from `pb`; every direct referencer of `pb` is named;
/// the list is closed under further reverse edges; hence every file that
/// transitively references `pb` is named; and nothing is named twice.
pub open spec fn rebuild_set_post(g: GraphV, pb: Seq<char>, r: Seq<Seq<char>>) -> bool {
    &&& (forall|m: int| 0 <= m < r.len() ==> reaches(g, pb, #[trigger] r[m], r.len() as nat))
    &&& (match graph_lookup(g, pb) {
        Some(list) => forall|m: int|
            0 <= m < list.len() ==> r.contains(#[trigger] list[m]) || list[m] == pb,
        None => true,
    })
    &&& (forall|m: int, f: Seq<char>|
        0 <= m < r.len() && #[trigger] is_direct_ref(g, r[m], f) ==> r.contains(f) || f == pb)
    &&& (forall|f: Seq<char>, n: nat| #[trigger] reaches(g, pb, f, n) && f != pb ==> r.contains(f))
    &&& (forall|m: int, t: int| 0 <= m < t < r.len() ==> #[trigger] r[m] != #[trigger] r[t])
}

/// A list that holds the direct referencers and is closed under reverse
/// edges holds the whole transitive closure.
proof fn lemma_closure_complete(g: GraphV, pb: Seq<char>, r: Seq<Seq<char>>, f: Seq<char>, n: nat)
    requires
        (match graph_lookup(g, pb) {
            Some(list) => forall|m: int|
                0 <= m < list.len() ==> r.contains(#[trigger] list[m]) || list[m] == pb,
            None => true,
        }),
        forall|m: int, f2: Seq<char>|
            0 <= m < r.len() && #[trigger] is_direct_ref(g, r[m], f2) ==> r.contains(f2) || f2
                == pb,
        reaches(g, pb, f, n),
        f != pb,
    ensures
        r.contains(f),
    decreases n,
{
    if is_direct_ref(g, pb, f) {
        match graph_lookup(g, pb) {
            Some(list) => {
                let w = choose|w: int| 0 <= w < list.len() && list[w] == f;
                assert(r.contains(list[w]) || list[w] == pb);
            },
            None => {},
        }
    } else {
        let mid = choose|mid: Seq<char>|
            is_direct_ref(g, mid, f) && reaches(g, pb, mid, (n - 1) as nat);
        if mid == pb {
            assert(is_direct_ref(g, pb, f));
        } else {
            lemma_closure_complete(g, pb, r, mid, (n - 1) as nat);
            let w = choose|w: int| 0 <= w < r.len() && r[w] == mid;
            assert(is_direct_ref(g, r[w], f));
        }
    }
}

/// Walks the reverse dependency edges from an edited asset and hands back
/// the files to recompile: exactly the transitive closure of its
/// referencers, each once (see `rebuild_set_post`). The edited mark is
/// cleared.
#[verifier::loop_isolation(false)]
#[verifier::rlimit(100)]
pub fn eval_linked_asset_edit(pb: &Text, memo: &mut Memory) -> (r: Vec<Text>)
    ensures
        rebuild_set_post(graph_views(old(memo).linked@), pb@, views(r@)),
        final(memo).files == old(memo).files,
        final(memo).linked == old(memo).linked,
        final(memo).component == old(memo).component,
        final(memo).watch_mode == old(memo).watch_mode,
        final(memo).edited_env == old(memo).edited_env,
        final(memo).edited_asset.was_edited == false,
        final(memo).edited_asset.original_path == old(memo).edited_asset.original_path,
{
    let ghost g = graph_views(old(memo).linked@);
    let mut out: Vec<Text> = Vec::new();
    let ghost mut depths: Seq<nat> = Seq::empty();
    let mut seen: Vec<Text> = Vec::new();
    seen.push(copy_text(pb));
    proof {
        assert(views(seen@)[0] == pb@);
    }
    let first = referencers_of(memo, pb);
    let n0 = first.len();
    let mut j: usize = 0;
    while j < n0
        invariant
            0 <= j <= n0,
            forall|m: int, t: int|
                0 <= m < t < out@.len() ==> (#[trigger] out@[m])@ != (#[trigger] out@[t])@,
            forall|m: int|
                0 <= m < seen@.len() ==> #[trigger] views(seen@)[m] == pb@ || views(out@).contains(
                    views(seen@)[m],
                ),
            forall|m: int| 0 <= m < out@.len() ==> views(seen@).contains((#[trigger] out@[m])@),
            depths.len() == out@.len(),
            forall|m: int|
                0 <= m < views(out@).len() ==> reaches(g, pb@, #[trigger] views(out@)[m], depths[m]),
            forall|m: int| 0 <= m < depths.len() ==> #[trigger] depths[m] <= m,
            forall|m: int| 0 <= m < out@.len() ==> flat_refs(g).contains((#[trigger] out@[m])@),
            out@.len() <= flat_refs(g).len(),
            forall|m: int|
                0 <= m < j ==> views(out@).contains((#[trigger] first@[m])@) || first@[m]@ == pb@,
        decreases n0 - j,
    {
        proof {
            assert(views(first@)[j as int] == first@[j as int]@);
        }
        if !seen_has(&seen, &first[j]) {
            let ghost out0 = views(out@);
            let ghost seen0 = views(seen@);
            seen.push(copy_text(&first[j]));
            out.push(copy_text(&first[j]));
            proof {
                let x = first@[j as int]@;
                assert(views(out@) =~= out0 + seq![x]);
                assert(views(seen@) =~= seen0 + seq![x]);
                assert(views(out@)[out@.len() - 1] == x);
                assert(views(seen@)[seen@.len() - 1] == x);
                assert(is_direct_ref(g, pb@, x)) by {
                    match graph_lookup(g, pb@) {
                        Some(list) => {
                            assert(list[j as int] == x);
                        },
                        None => {
                            assert(false);
                        },
                    }
                }
                assert(reaches(g, pb@, x, 0));
                depths = depths.push(0nat);
                assert forall|m: int| 0 <= m < views(out@).len() implies reaches(
                    g,
                    pb@,
                    #[trigger] views(out@)[m],
                    depths[m],
                ) by {
                    if m < out0.len() {
                        assert(views(out@)[m] == out0[m]);
                        assert(depths[m] == depths.drop_last()[m]);
                    } else {
                        assert(views(out@)[m] == x);
                        assert(depths[m] == 0nat);
                    }
                }
                lemma_lookup_in_flat(g, pb@, x);
                assert forall|m: int| 0 <= m < out@.len() implies views(seen@).contains(
                    (#[trigger] out@[m])@,
                ) by {
                    if m < out0.len() {
                        let w = choose|w: int| 0 <= w < seen0.len() && seen0[w] == out0[m];
                        assert(views(seen@)[w] == out0[m]);
                    }
                }
                assert forall|m: int, t: int| 0 <= m < t < out@.len() implies (
                    #[trigger] out@[m])@ != (#[trigger] out@[t])@ by {
                    if t == out@.len() - 1 {
                        assert(seen0.contains(out0[m]));
                        if (out@[m])@ == x {
                            assert(!seen0.contains(x));
                        }
                    }
                }
                assert forall|m: int| 0 <= m < j + 1 implies views(out@).contains(
                    (#[trigger] first@[m])@,
                ) || first@[m]@ == pb@ by {
                    if m < j && first@[m]@ != pb@ {
                        let w = choose|w: int| 0 <= w < out0.len() && out0[w] == first@[m]@;
                        assert(views(out@)[w] == first@[m]@);
                    }
                }
                assert forall|m: int| 0 <= m < seen@.len() implies #[trigger] views(seen@)[m]
                    == pb@ || views(out@).contains(views(seen@)[m]) by {
                    if m < seen0.len() && seen0[m] != pb@ {
                        let w = choose|w: int| 0 <= w < out0.len() && out0[w] == seen0[m];
                        assert(views(out@)[w] == seen0[m]);
                    }
                }
                lemma_distinct_in_len(views(out@), flat_refs(g));
            }
        } else {
            proof {
                let sv = views(seen@);
                let w = choose|w: int| 0 <= w < sv.len() && sv[w] == first@[j as int]@;
                if sv[w] != pb@ {
                    assert(views(out@).contains(first@[j as int]@));
                }
            }
        }
        j += 1;
    }
    // Follow further reverse edges until no unvisited referencer remains;
    // each file enters once, so the walk ends even on a cyclic graph.
    let mut idx: usize = 0;
    while idx < out.len()
        invariant
            0 <= idx <= out@.len(),
            forall|m: int, t: int|
                0 <= m < t < out@.len() ==> (#[trigger] out@[m])@ != (#[trigger] out@[t])@,
            forall|m: int|
                0 <= m < seen@.len() ==> #[trigger] views(seen@)[m] == pb@ || views(out@).contains(
                    views(seen@)[m],
                ),
            forall|m: int| 0 <= m < out@.len() ==> views(seen@).contains((#[trigger] out@[m])@),
            depths.len() == out@.len(),
            forall|m: int|
                0 <= m < views(out@).len() ==> reaches(g, pb@, #[trigger] views(out@)[m], depths[m]),
            forall|m: int| 0 <= m < depths.len() ==> #[trigger] depths[m] <= m,
            forall|m: int| 0 <= m < out@.len() ==> flat_refs(g).contains((#[trigger] out@[m])@),
            out@.len() <= flat_refs(g).len(),
            forall|m: int|
                0 <= m < n0 ==> views(out@).contains((#[trigger] first@[m])@) || first@[m]@ == pb@,
            forall|m: int, f: Seq<char>|
                0 <= m < idx && #[trigger] is_direct_ref(g, (out@[m])@, f) ==> views(
                    out@,
                ).contains(f) || f == pb@,
        decreases flat_refs(g).len() + 1 - out@.len(), out@.len() + 1 - idx,
    {
        let ghost len_at_entry = out@.len();
        let current = copy_text(&out[idx]);
        let refs = referencers_of(memo, &current);
        let rn = refs.len();
        let mut t: usize = 0;
        while t < rn
            invariant
                0 <= t <= rn,
                rn == refs@.len(),
                out@.len() >= len_at_entry,
                idx < out@.len(),
                current@ == (out@[idx as int])@,
                (match graph_lookup(g, current@) {
                    Some(list) => views(refs@) == list,
                    None => refs@.len() == 0,
                }),
                forall|m: int, q: int|
                    0 <= m < q < out@.len() ==> (#[trigger] out@[m])@ != (#[trigger] out@[q])@,
                forall|m: int|
                    0 <= m < seen@.len() ==> #[trigger] views(seen@)[m] == pb@ || views(
                        out@,
                    ).contains(views(seen@)[m]),
                forall|m: int|
                    0 <= m < out@.len() ==> views(seen@).contains((#[trigger] out@[m])@),
                depths.len() == out@.len(),
                forall|m: int|
                    0 <= m < views(out@).len() ==> reaches(
                        g,
                        pb@,
                        #[trigger] views(out@)[m],
                        depths[m],
                    ),
                forall|m: int| 0 <= m < depths.len() ==> #[trigger] depths[m] <= m,
                forall|m: int|
                    0 <= m < out@.len() ==> flat_refs(g).contains((#[trigger] out@[m])@),
                out@.len() <= flat_refs(g).len(),
                forall|m: int|
                    0 <= m < n0 ==> views(out@).contains((#[trigger] first@[m])@) || first@[m]@
                        == pb@,
                forall|m: int, f: Seq<char>|
                    0 <= m < idx && #[trigger] is_direct_ref(g, (out@[m])@, f) ==> views(
                        out@,
                    ).contains(f) || f == pb@,
                forall|q: int|
                    0 <= q < t ==> views(out@).contains((#[trigger] refs@[q])@) || refs@[q]@
                        == pb@,
            decreases rn - t,
        {
            proof {
                assert(views(refs@)[t as int] == refs@[t as int]@);
            }
            if !seen_has(&seen, &refs[t]) {
                let ghost out0 = views(out@);
                let ghost seen0 = views(seen@);
                seen.push(copy_text(&refs[t]));
                out.push(copy_text(&refs[t]));
                proof {
                    let x = refs@[t as int]@;
                    assert(views(out@) =~= out0 + seq![x]);
                    assert(views(seen@) =~= seen0 + seq![x]);
                    assert(views(out@)[out@.len() - 1] == x);
                    assert(views(seen@)[seen@.len() - 1] == x);
                    assert(is_direct_ref(g, current@, x)) by {
                        match graph_lookup(g, current@) {
                            Some(list) => {
                                assert(list[t as int] == x);
                            },
                            None => {
                                assert(false);
                            },
                        }
                    }
                    let n_cur = depths[idx as int];
                    assert(reaches(g, pb@, current@, n_cur)) by {
                        assert(views(out@)[idx as int] == out0[idx as int]);
                        assert(out0[idx as int] == current@);
                    }
                    assert(reaches(g, pb@, x, (n_cur + 1) as nat)) by {
                        assert(is_direct_ref(g, current@, x) && reaches(g, pb@, current@, n_cur));
                    }
                    depths = depths.push((n_cur + 1) as nat);
                    assert(n_cur + 1 <= out@.len() - 1) by {
                        assert(n_cur <= idx as int);
                    }
                    assert forall|m: int| 0 <= m < views(out@).len() implies reaches(
                        g,
                        pb@,
                        #[trigger] views(out@)[m],
                        depths[m],
                    ) by {
                        if m < out0.len() {
                            assert(views(out@)[m] == out0[m]);
                            assert(depths[m] == depths.drop_last()[m]);
                        } else {
                            assert(views(out@)[m] == x);
                            assert(depths[m] == (n_cur + 1) as nat);
                        }
                    }
                    lemma_lookup_in_flat(g, current@, x);
                    assert forall|m: int| 0 <= m < out@.len() implies views(seen@).contains(
                        (#[trigger] out@[m])@,
                    ) by {
                        if m < out0.len() {
                            let w = choose|w: int| 0 <= w < seen0.len() && seen0[w] == out0[m];
                            assert(views(seen@)[w] == out0[m]);
                        }
                    }
                    assert forall|m: int, q: int| 0 <= m < q < out@.len() implies (
                        #[trigger] out@[m])@ != (#[trigger] out@[q])@ by {
                        if q == out@.len() - 1 {
                            assert(seen0.contains(out0[m]));
                            if (out@[m])@ == x {
                                assert(!seen0.contains(x));
                            }
                        }
                    }
                    assert forall|m: int| 0 <= m < seen@.len() implies #[trigger] views(seen@)[m]
                        == pb@ || views(out@).contains(views(seen@)[m]) by {
                        if m < seen0.len() && seen0[m] != pb@ {
                            let w = choose|w: int| 0 <= w < out0.len() && out0[w] == seen0[m];
                            assert(views(out@)[w] == seen0[m]);
                        }
                    }
                    assert forall|m: int| 0 <= m < n0 implies views(out@).contains(
                        (#[trigger] first@[m])@,
                    ) || first@[m]@ == pb@ by {
                        if first@[m]@ != pb@ {
                            let w = choose|w: int| 0 <= w < out0.len() && out0[w] == first@[m]@;
                            assert(views(out@)[w] == first@[m]@);
                        }
                    }
                    assert forall|m: int, f: Seq<char>|
                        0 <= m < idx && #[trigger] is_direct_ref(g, (out@[m])@, f) implies views(
                        out@,
                    ).contains(f) || f == pb@ by {
                        assert((out@[m])@ == out0[m]);
                        if f != pb@ {
                            assert(out0.contains(f));
                            let w = choose|w: int| 0 <= w < out0.len() && out0[w] == f;
                            assert(views(out@)[w] == f);
                        }
                    }
                    assert forall|q: int| 0 <= q < t + 1 implies views(out@).contains(
                        (#[trigger] refs@[q])@,
                    ) || refs@[q]@ == pb@ by {
                        if q < t && refs@[q]@ != pb@ {
                            let w = choose|w: int| 0 <= w < out0.len() && out0[w] == refs@[q]@;
                            assert(views(out@)[w] == refs@[q]@);
                        }
                        if q == t {
                            assert(views(out@)[out@.len() - 1] == refs@[q]@);
                        }
                    }
                    lemma_distinct_in_len(views(out@), flat_refs(g));
                }
            } else {
                proof {
                    let sv = views(seen@);
                    let w = choose|w: int| 0 <= w < sv.len() && sv[w] == refs@[t as int]@;
                    if sv[w] != pb@ {
                        assert(views(out@).contains(refs@[t as int]@));
                    }
                }
            }
            t += 1;
        }
        proof {
            assert forall|f: Seq<char>| #[trigger] is_direct_ref(g, current@, f) implies views(
                out@,
            ).contains(f) || f == pb@ by {
                match graph_lookup(g, current@) {
                    Some(list) => {
                        let w = choose|w: int| 0 <= w < list.len() && list[w] == f;
                        assert(views(refs@)[w] == f);
                        assert(refs@[w]@ == f);
                    },
                    None => {},
                }
            }
        }
        idx += 1;
    }
    proof {
        let rv = views(out@);
        assert forall|m: int, f: Seq<char>|
            0 <= m < rv.len() && #[trigger] is_direct_ref(g, rv[m], f) implies rv.contains(f) || f
            == pb@ by {
            assert(rv[m] == (out@[m])@);
            assert(is_direct_ref(g, (out@[m])@, f));
        }
        match graph_lookup(g, pb@) {
            Some(list) => {
                assert forall|m: int| 0 <= m < list.len() implies rv.contains(#[trigger] list[m])
                    || list[m] == pb@ by {
                    assert(views(first@) == list);
                    assert((first@[m])@ == list[m]);
                }
            },
            None => {},
        }
        assert forall|f: Seq<char>, n: nat|
            #[trigger] reaches(g, pb@, f, n) && f != pb@ implies rv.contains(f) by {
            lemma_closure_complete(g, pb@, rv, f, n);
        }
        assert forall|m: int, t: int| 0 <= m < t < rv.len() implies #[trigger] rv[m]
            != #[trigger] rv[t] by {
            assert(rv[m] == (out@[m])@);
            assert(rv[t] == (out@[t])@);
        }
        assert forall|m: int| 0 <= m < rv.len() implies reaches(
            g,
            pb@,
            #[trigger] rv[m],
            rv.len() as nat,
        ) by {
            assert(reaches(g, pb@, rv[m], depths[m]));
            lemma_reaches_mono(g, pb@, rv[m], depths[m], rv.len() as nat);
        }
        assert(rebuild_set_post(g, pb@, rv));
    }
    memo.edited_asset.reset();
    out
}

/// Reacts to a component file rename: the edit is marked, the original
/// name is remembered the first time, and the rebuild set is the
/// transitive-closure walk from the decisive path — the new path when the
/// file returned to its remembered original name, else the old one.
pub fn handle_component_rename(from: &Text, to: &Text, memo: &mut Memory) -> (r: Vec<Text>)
    ensures
        ({
            let orig = match old(memo).edited_asset.original_path {
                Some(ref q) => q@,
                None => from@,
            };
            let decisive = if orig == to@ {
                to@
            } else {
                from@
            };
            rebuild_set_post(graph_views(old(memo).linked@), decisive, views(r@))
        }),
        final(memo).files == old(memo).files,
        final(memo).linked == old(memo).linked,
        final(memo).component == old(memo).component,
        final(memo).watch_mode == old(memo).watch_mode,
        final(memo).edited_env == old(memo).edited_env,
        final(memo).edited_asset.was_edited == false,
        (match final(memo).edited_asset.original_path {
            Some(ref p) => (match old(memo).edited_asset.original_path {
                Some(ref q) => p@ == q@,
                None => p@ == from@,
            }),
            None => false,
        }),
{
    memo.edited_asset.set(true, copy_text(to));
    let keep: bool = memo.edited_asset.original_path.is_some();
    if !keep {
        memo.edited_asset.set_original_path(Some(copy_text(from)));
    }
    let back_to_original: bool = match &memo.edited_asset.original_path {
        Some(original) => text_eq(to, original),
        None => false,
    };
    if back_to_original {
        eval_linked_asset_edit(to, memo)
    } else {
        eval_linked_asset_edit(from, memo)
    }
}

/// Decides whether a page must be (re)processed, and remembers its
/// fingerprint when it must: components and empty files are skipped, and
/// otherwise a page runs again exactly when its content checksum changed
/// or an edited asset forces it.
pub fn html(file: &Text, code: &Text, memo: &mut Memory) -> (r: bool)
    ensures
        ({
            let comp = starts_with_spec(trim_start_spec(code@), template_start_tok());
            let sum = adler32_of(code@);
            let known = files_lookup(old(memo).files@, file@) == Some(sum);
            &&& r == (!comp && code@.len() > 0 && (!known || old(memo).edited_asset.was_edited))
            &&& (r ==> files_lookup(final(memo).files@, file@) == Some(sum))
            &&& (!r ==> final(memo).files == old(memo).files)
            &&& final(memo).linked == old(memo).linked
            &&& final(memo).component == old(memo).component
            &&& final(memo).edited_asset == old(memo).edited_asset
            &&& final(memo).watch_mode == old(memo).watch_mode
            &&& final(memo).edited_env == old(memo).edited_env
        }),
{
    if is_component(code) || code.len() == 0 {
        return false;
    }
    let sum = checksum(code);
    let n = memo.files.len();
    let mut k: usize = 0;
    let mut known = false;
    let mut found: Option<usize> = None;
    while k < n
        invariant
            n == memo.files@.len(),
            0 <= k <= n,
            memo == old(memo),
            sum.as_u32 == adler32_of(code@),
            (match found {
                Some(idx) => {
                    &&& idx < n
                    &&& memo.files@[idx as int].path@ == file@
                    &&& (forall|j: int| 0 <= j < idx ==> memo.files@[j].path@ != file@)
                    &&& (known == (memo.files@[idx as int].checksum == sum.as_u32))
                },
                None => {
                    &&& known == false
                    &&& (forall|j: int| 0 <= j < k ==> memo.files@[j].path@ != file@)
                },
            }),
        decreases n - k,
    {
        if found.is_none() {
            if text_eq(&memo.files[k].path, file) {
                known = memo.files[k].checksum == sum.as_u32;
                found = Some(k);
            }
        }
        k += 1;
    }
    proof {
        match found {
            Some(idx) => {
                lemma_files_lookup_at(memo.files@, idx as int, file@);
            },
            None => {
                lemma_files_lookup_missing(memo.files@, file@);
            },
        }
    }
    let forced = memo.edited_asset.was_edited;
    if !known || forced {
        match found {
            Some(idx) => {
                memo.files.remove(idx);
                memo.files.insert(
                    idx,
                    File { checksum: sum.as_u32, path: copy_text(file) },
                );
                proof {
                    assert(memo.files@ =~= old(memo).files@.update(
                        idx as int,
                        memo.files@[idx as int],
                    ));
                    lemma_files_lookup_at(memo.files@, idx as int, file@);
                }
            },
            None => {
                memo.files.push(File { checksum: sum.as_u32, path: copy_text(file) });
                proof {
                    lemma_files_lookup_at(memo.files@, memo.files@.len() - 1, file@);
                }
            },
        }
        true
    } else {
        false
    }
}

proof fn lemma_files_lookup_at(s: Seq<File>, idx: int, path: Seq<char>)
    requires
        0 <= idx < s.len(),
        s[idx].path@ == path,
        forall|j: int| 0 <= j < idx ==> s[j].path@ != path,
    ensures
        files_lookup(s, path) == Some(s[idx].checksum),
    decreases idx,
{
    if idx > 0 {
        lemma_files_lookup_at(s.drop_first(), idx - 1, path);
    }
}

proof fn lemma_files_lookup_missing(s: Seq<File>, path: Seq<char>)
    requires
        forall|j: int| 0 <= j < s.len() ==> s[j].path@ != path,
    ensures
        files_lookup(s, path) is None,
    decreases s.len(),
{
    if s.len() > 0 {
        lemma_files_lookup_missing(s.drop_first(), path);
    }
}

} // verus!
