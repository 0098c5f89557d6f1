//! Line-level scanning helpers: comment gates, tag names, root detection,
//! attribute capture, and the consumption of multi-line constructs.

use vstd::prelude::*;

use crate::path::{rfind, rfind_spec};
use crate::statica_t::{map_insert_spec, prop_new_spec, Prop, PropMap, PropV};
use crate::text::{
    contains, contains_spec, copy_text, find, find_spec, is_space, lines_spec, push_all, replace_all,
    replace_all_spec, space, split_char, split_char_spec, split_pat, split_pat_spec, starts_with,
    starts_with_spec, subtext, take_until_char, take_until_char_spec, text_eq, trim, trim_spec,
    trim_start, trim_start_spec, Text,
};
use crate::tokens::{
    comment_start_tok, comment_start_text, component_prefix_tok, component_prefix_text,
    template_end_tok, template_end_text, unpaired_close_tok, unpaired_close_text,
};

verus! {

/// A token stands before any comment opener on the trimmed line: a line
/// without a comment opener hides nothing, and a token that is absent
/// counts as standing at the start.
pub open spec fn token_before_comment_spec(line: Seq<char>, token: Seq<char>) -> bool {
    let t = trim_start_spec(line);
    match find_spec(t, comment_start_tok()) {
        None => true,
        Some(ci) => (match find_spec(t, token) {
            Some(ti) => ti < ci,
            None => 0 < ci,
        }),
    }
}

/// The line holds the token, uncommented.
pub open spec fn is_uncommented_spec(line: Seq<char>, token: Seq<char>) -> bool {
    contains_spec(trim_start_spec(line), token) && token_before_comment_spec(line, token)
}

/// Decides whether the token stands before any comment opener.
pub fn token_before_comment(line: &Text, token: &Text) -> (r: bool)
    ensures
        r == token_before_comment_spec(line@, token@),
{
    let t = trim_start(line);
    let opener = comment_start_text();
    match find(&t, &opener) {
        None => true,
        Some(ci) => match find(&t, token) {
            Some(ti) => ti < ci,
            None => 0 < ci,
        },
    }
}

/// Should be a valid uncommented line containing a given token.
pub fn is_uncommented(line: &Text, token: &Text) -> (r: bool)
    ensures
        r == is_uncommented_spec(line@, token@),
{
    let t = trim_start(line);
    contains(&t, token) && token_before_comment(line, token)
}

/// A character that may appear in a tag name: an ASCII letter or digit, or
/// a dash.
pub open spec fn is_tag_char(c: char) -> bool {
    ('0' <= c && c <= '9') || ('a' <= c && c <= 'z') || ('A' <= c && c <= 'Z') || c == '-'
}

fn tag_char(c: char) -> (r: bool)
    ensures
        r == is_tag_char(c),
{
    ('0' <= c && c <= '9') || ('a' <= c && c <= 'z') || ('A' <= c && c <= 'Z') || c == '-'
}

/// The longest prefix of tag-name characters.
pub open spec fn tag_prefix_spec(s: Seq<char>) -> Seq<char>
    decreases s.len(),
{
    if s.len() > 0 && is_tag_char(s[0]) {
        seq![s[0]] + tag_prefix_spec(s.drop_first())
    } else {
        Seq::empty()
    }
}

proof fn lemma_tag_prefix_take(s: Seq<char>, i: int)
    requires
        0 <= i <= s.len(),
        forall|j: int| 0 <= j < i ==> is_tag_char(s[j]),
        i == s.len() || !is_tag_char(s[i]),
    ensures
        tag_prefix_spec(s) == s.take(i),
    decreases i,
{
    if i == 0 {
        assert(s.take(0) =~= Seq::<char>::empty());
    } else {
        lemma_tag_prefix_take(s.drop_first(), i - 1);
        assert(s.drop_first() =~= s.skip(1));
        assert(s.drop_first().take(i - 1) =~= s.skip(1).take(i - 1));
        assert(seq![s[0]] + s.skip(1).take(i - 1) =~= s.take(i));
    }
}

/// The tag name on a line: the line is trimmed, must open with `<`, the
/// next character must be able to start a name, and the name runs over tag
/// characters.
pub open spec fn tag_name_spec(line: Seq<char>) -> Option<Seq<char>> {
    if line.len() == 0 {
        None
    } else {
        let t = trim_spec(line);
        if t.len() == 0 || t[0] != '<' {
            None
        } else if t.len() == 1 {
            None
        } else if is_space(t[1]) || t[1] == '!' || t[1] == '-' || t[1] == '/' {
            None
        } else {
            let name = tag_prefix_spec(t.skip(1));
            if name.len() == 0 {
                None
            } else {
                Some(name)
            }
        }
    }
}

/// Reads the tag name off a line.
pub fn get_tag_name(line: &Text) -> (r: Option<Text>)
    ensures
        match r {
            Some(t) => tag_name_spec(line@) == Some(t@),
            None => tag_name_spec(line@) is None,
        },
{
    if line.len() == 0 {
        return None;
    }
    let t = trim(line);
    let n = t.len();
    if n == 0 || t[0] != '<' {
        return None;
    }
    if n == 1 {
        return None;
    }
    let second = t[1];
    if space(second) || second == '!' || second == '-' || second == '/' {
        return None;
    }
    let mut i: usize = 1;
    while i < n && tag_char(t[i])
        invariant
            n == t@.len(),
            1 <= i <= n,
            forall|j: int| 1 <= j < i ==> is_tag_char(t@[j]),
        decreases n - i,
    {
        i += 1;
    }
    proof {
        let tail = t@.skip(1);
        assert(forall|j: int| 0 <= j < i - 1 ==> is_tag_char(tail[j]));
        assert(i - 1 == tail.len() || !is_tag_char(tail[i - 1]));
        lemma_tag_prefix_take(tail, i - 1);
        assert(tail.take(i - 1) =~= t@.subrange(1, i as int));
    }
    if i == 1 {
        return None;
    }
    let name = subtext(&t, 1, i);
    Some(name)
}

/// A valid component id: after leading whitespace it carries the reserved
/// prefix, and it is longer than the prefix itself.
pub open spec fn valid_id_spec(slice: Seq<char>) -> Option<Seq<char>> {
    if starts_with_spec(trim_start_spec(slice), component_prefix_tok()) && slice.len()
        > component_prefix_tok().len() {
        Some(slice)
    } else {
        None
    }
}

/// Accepts a slice as a component id if it carries the reserved prefix.
pub fn get_valid_id(slice: &Text) -> (r: Option<Text>)
    ensures
        match r {
            Some(t) => valid_id_spec(slice@) == Some(t@),
            None => valid_id_spec(slice@) is None,
        },
{
    let t = trim_start(slice);
    let prefix = component_prefix_text();
    if starts_with(&t, &prefix) && slice.len() > prefix.len() {
        Some(copy_text(slice))
    } else {
        None
    }
}

/// The first line of a text; an empty text has an empty first line.
pub open spec fn first_line_spec(s: Seq<char>) -> Seq<char> {
    if lines_spec(s).len() == 0 {
        Seq::empty()
    } else {
        lines_spec(s)[0]
    }
}

/// A text node begins with no tag at all.
pub open spec fn is_text_node_spec(s: Seq<char>) -> bool {
    tag_name_spec(first_line_spec(trim_start_spec(s))) is None
}

/// Is a text node if there is no tag name on its first line.
pub fn is_text_node(source: &Text) -> (r: bool)
    ensures
        r == is_text_node_spec(source@),
{
    let t = trim_start(source);
    let ls = crate::text::lines(&t);
    if ls.len() == 0 {
        let empty_line: Text = Vec::new();
        assert(empty_line@ =~= Seq::<char>::empty());
        let r = get_tag_name(&empty_line);
        return r.is_none();
    }
    proof {
        assert(crate::text::views(ls@)[0] == ls@[0]@);
    }
    let r = get_tag_name(&ls[0]);
    r.is_none()
}

/// The last line of a text; an empty text has an empty last line.
pub open spec fn last_line_spec(s: Seq<char>) -> Seq<char> {
    if lines_spec(s).len() == 0 {
        Seq::empty()
    } else {
        lines_spec(s).last()
    }
}

/// A source has a root node when its first tag's closing tag is balanced
/// and stands on the last line.
pub open spec fn has_root_spec(s: Seq<char>) -> bool {
    if s.len() == 0 || is_text_node_spec(s) {
        false
    } else {
        let t = trim_start_spec(s);
        match tag_name_spec(first_line_spec(t)) {
            None => false,
            Some(name) => {
                let tag_end = seq!['<', '/'] + name;
                let cnt = crate::text::count_matches_spec(s, tag_end);
                (cnt == 1 || cnt % 2 == 0) && contains_spec(last_line_spec(t), tag_end)
            },
        }
    }
}

/// Checks the source code for a root node.
pub fn has_root_node(source: &Text) -> (r: bool)
    ensures
        r == has_root_spec(source@),
{
    if source.len() == 0 {
        return false;
    }
    if is_text_node(source) {
        return false;
    }
    let t = trim_start(source);
    let ls = crate::text::lines(&t);
    let first: Text = if ls.len() == 0 {
        Vec::new()
    } else {
        copy_text(&ls[0])
    };
    proof {
        if ls@.len() == 0 {
            assert(first@ =~= Seq::<char>::empty());
        } else {
            assert(crate::text::views(ls@)[0] == ls@[0]@);
        }
    }
    match get_tag_name(&first) {
        None => false,
        Some(name) => {
            let mut tag_end: Text = Vec::new();
            tag_end.push('<');
            tag_end.push('/');
            push_all(&mut tag_end, &name);
            assert(tag_end@ =~= seq!['<', '/'] + name@);
            let cnt = crate::text::count_matches(source, &tag_end);
            let last: Text = if ls.len() == 0 {
                Vec::new()
            } else {
                copy_text(&ls[ls.len() - 1])
            };
            proof {
                if ls@.len() == 0 {
                    assert(last@ =~= Seq::<char>::empty());
                } else {
                    assert(crate::text::views(ls@)[ls@.len() - 1] == ls@[ls@.len() - 1]@);
                }
            }
            (cnt == 1 || cnt % 2 == 0) && contains(&last, &tag_end)
        },
    }
}

/// A chunk replacement: the cut slice goes, the added slice comes, and the
/// whole is trimmed.
pub open spec fn replace_chunk_spec(source: Seq<char>, cut: Seq<char>, add: Seq<char>) -> Seq<
    char,
> {
    trim_spec(replace_all_spec(source, cut, add))
}

/// Takes a string, splits out a chunk and joins with a new slice, thus
/// replacing the chunk.
pub fn replace_chunk(source: &Text, cut: &Text, add: &Text) -> (r: Text)
    ensures
        r@ == replace_chunk_spec(source@, cut@, add@),
{
    let replaced = replace_all(source, cut, add);
    trim(&replaced)
}

/// The inline inner content of a tag on one line: what stands after the
/// first `>` and before the `<` that follows it.
pub open spec fn inline_inner_spec(line: Seq<char>) -> Option<Seq<char>> {
    let start: int = match find_spec(line, seq!['>']) {
        Some(i) => i + 1,
        None => 0,
    };
    let seg = take_until_char_spec(line.skip(start), '<');
    if seg.len() == 0 {
        None
    } else {
        Some(seg)
    }
}

/// Reads the inline inner content of a paired tag.
pub fn consume_inner_html_inline(line: &Text) -> (r: Option<Text>)
    ensures
        match r {
            Some(t) => inline_inner_spec(line@) == Some(t@),
            None => inline_inner_spec(line@) is None,
        },
{
    let n = line.len();
    let mut gt: Text = Vec::new();
    gt.push('>');
    assert(gt@ =~= seq!['>']);
    let start: usize = match find(line, &gt) {
        Some(i) => {
            proof {
                crate::text::lemma_find_from_in_range(line@, gt@, 0);
                assert(i + 1 <= n);
            }
            i + 1
        },
        None => 0,
    };
    let tail = subtext(line, start, n);
    assert(tail@ =~= line@.skip(start as int));
    let seg = take_until_char(&tail, '<');
    if seg.len() == 0 {
        None
    } else {
        Some(seg)
    }
}

/// The inner content of a tag: what stands between the end of its opening
/// tag and the last occurrence of its closing tag.
pub open spec fn tag_inner_spec(t: Seq<char>, close_tag: Seq<char>) -> Seq<char> {
    match find_spec(t, seq!['>']) {
        None => Seq::empty(),
        Some(g) => match rfind_spec(t, close_tag) {
            Some(e) => {
                if g + 1 <= e {
                    t.subrange(g + 1, e)
                } else {
                    Seq::empty()
                }
            },
            None => Seq::empty(),
        },
    }
}

/// Reads the inner content between an opening tag and the last matching
/// closing token.
pub fn tag_inner(t: &Text, close_tag: &Text) -> (r: Text)
    ensures
        r@ == tag_inner_spec(t@, close_tag@),
{
    let n = t.len();
    let mut gt: Text = Vec::new();
    gt.push('>');
    assert(gt@ =~= seq!['>']);
    match find(t, &gt) {
        None => Vec::new(),
        Some(g) => {
            proof {
                crate::text::lemma_find_from_in_range(t@, gt@, 0);
                assert(g + 1 <= n);
            }
            match rfind(t, close_tag) {
                Some(e) => {
                    if g + 1 <= e {
                        proof {
                            crate::path::lemma_rfind_some_in_range(t@, close_tag@);
                            assert(e <= n);
                        }
                        subtext(t, g + 1, e)
                    } else {
                        Vec::new()
                    }
                },
                None => Vec::new(),
            }
        },
    }
}

/// A component's inner markup: what its template tag wraps.
pub fn consume_component_inner_html(source: &Text) -> (r: Text)
    ensures
        r@ == tag_inner_spec(source@, template_end_tok()),
{
    let close = template_end_text();
    tag_inner(source, &close)
}


/// One prop parsed from a list piece: a separator splits name from the raw
/// value; in dictionary mode the value is a declared default, in attribute
/// mode it is a supplied value with its quotes removed.
pub open spec fn prop_of_piece_spec(piece: Seq<char>, value_sep: Seq<char>, as_dict: bool) -> PropV {
    match find_spec(piece, value_sep) {
        Some(i) => {
            if 0 <= i && i + value_sep.len() <= piece.len() {
                let name = trim_spec(piece.take(i));
                let raw = piece.skip(i + value_sep.len());
                if as_dict {
                    PropV { default: Some(trim_spec(raw)), ..prop_new_spec(name) }
                } else {
                    PropV {
                        value: Some(
                            trim_spec(replace_all_spec(raw, seq!['"'], Seq::<char>::empty())),
                        ),
                        ..prop_new_spec(name)
                    }
                }
            } else {
                prop_new_spec(trim_spec(piece))
            }
        },
        None => prop_new_spec(trim_spec(piece)),
    }
}

/// Props read off a piece list, inserted in order into `acc`.
pub open spec fn evaluate_props_spec(
    pieces: Seq<Seq<char>>,
    value_sep: Seq<char>,
    as_dict: bool,
    acc: Seq<PropV>,
) -> Seq<PropV>
    decreases pieces.len(),
{
    if pieces.len() == 0 {
        acc
    } else {
        evaluate_props_spec(
            pieces.drop_first(),
            value_sep,
            as_dict,
            map_insert_spec(acc, prop_of_piece_spec(pieces[0], value_sep, as_dict)),
        )
    }
}

fn prop_of_piece(piece: &Text, value_sep: &Text, as_dict: bool) -> (r: Prop)
    ensures
        r@ == prop_of_piece_spec(piece@, value_sep@, as_dict),
{
    let n = piece.len();
    match find(piece, value_sep) {
        Some(i) => {
            proof {
                crate::text::lemma_find_from_in_range(piece@, value_sep@, 0);
                assert(i + value_sep@.len() <= n);
            }
            let name_raw = subtext(piece, 0, i);
            assert(name_raw@ =~= piece@.take(i as int));
            let name = trim(&name_raw);
            let raw = subtext(piece, i + value_sep.len(), n);
            assert(raw@ =~= piece@.skip(i + value_sep@.len()));
            let mut r = Prop::new(&name);
            if as_dict {
                let v = trim(&raw);
                r.default_mut(Some(v));
            } else {
                let mut quote: Text = Vec::new();
                quote.push('"');
                assert(quote@ =~= seq!['"']);
                let empty_text: Text = Vec::new();
                assert(empty_text@ =~= Seq::<char>::empty());
                let unquoted = replace_all(&raw, &quote, &empty_text);
                let v = trim(&unquoted);
                r.value_mut(Some(v));
            }
            r
        },
        None => {
            let t = trim(piece);
            Prop::new(&t)
        },
    }
}

/// Evaluates a delimited prop list into a dictionary.
pub fn evaluate_props(pieces: &Vec<Text>, value_sep: &Text, as_dict: bool) -> (r: PropMap)
    ensures
        r@ == evaluate_props_spec(
            crate::text::views(pieces@),
            value_sep@,
            as_dict,
            Seq::<PropV>::empty(),
        ),
{
    let mut map = PropMap::new();
    let n = pieces.len();
    proof {
        assert(crate::text::views(pieces@).skip(0) =~= crate::text::views(pieces@));
    }
    let mut i: usize = 0;
    while i < n
        invariant
            n == pieces@.len(),
            0 <= i <= n,
            evaluate_props_spec(
                crate::text::views(pieces@),
                value_sep@,
                as_dict,
                Seq::<PropV>::empty(),
            ) == evaluate_props_spec(
                crate::text::views(pieces@).skip(i as int),
                value_sep@,
                as_dict,
                map@,
            ),
        decreases n - i,
    {
        proof {
            let tail = crate::text::views(pieces@).skip(i as int);
            assert(tail[0] == pieces@[i as int]@);
            assert(tail.drop_first() =~= crate::text::views(pieces@).skip(i as int + 1));
        }
        let p = prop_of_piece(&pieces[i], value_sep, as_dict);
        map.insert(p);
        i += 1;
    }
    proof {
        assert(crate::text::views(pieces@).skip(n as int) =~= Seq::<Seq<char>>::empty());
    }
    map
}

/// The declared prop dictionary read off a `data-props` attribute value:
/// comma-separated entries, a colon before each default.
pub open spec fn props_dict_spec(list: Seq<char>) -> Seq<PropV> {
    evaluate_props_spec(split_char_spec(list, ','), seq![':'], true, Seq::empty())
}

/// Reads a declared prop dictionary.
pub fn get_props_dict(list: Option<&Text>) -> (r: PropMap)
    ensures
        r@ == (match list {
            Some(l) => props_dict_spec(l@),
            None => Seq::<PropV>::empty(),
        }),
{
    match list {
        Some(l) => {
            let pieces = split_char(l, ',');
            let mut sep: Text = Vec::new();
            sep.push(':');
            assert(sep@ =~= seq![':']);
            evaluate_props(&pieces, &sep, true)
        },
        None => PropMap::new(),
    }
}

/// Tag attributes read off an attribute run: entries split on a quote
/// followed by a space, an equals sign before each value.
pub open spec fn tag_attrs_spec(list: Seq<char>) -> Seq<PropV> {
    evaluate_props_spec(split_pat_spec(list, seq!['"', ' ']), seq!['='], false, Seq::empty())
}

/// Reads tag attributes.
pub fn get_tag_attrs(list: Option<&Text>) -> (r: PropMap)
    ensures
        r@ == (match list {
            Some(l) => tag_attrs_spec(l@),
            None => Seq::<PropV>::empty(),
        }),
{
    match list {
        Some(l) => {
            let mut split_tok: Text = Vec::new();
            split_tok.push('"');
            split_tok.push(' ');
            assert(split_tok@ =~= seq!['"', ' ']);
            let pieces = split_pat(l, &split_tok);
            let mut sep: Text = Vec::new();
            sep.push('=');
            assert(sep@ =~= seq!['=']);
            evaluate_props(&pieces, &sep, false)
        },
        None => PropMap::new(),
    }
}

/// The attribute run on a tag line: the opening token goes, and what is
/// left of the trimmed line before the closing `>` are the attributes.
pub open spec fn attrs_src_spec(line: Seq<char>) -> Seq<char> {
    let name = match tag_name_spec(line) {
        Some(n) => n,
        None => Seq::<char>::empty(),
    };
    let start_tok = seq!['<'] + name;
    let rest = replace_all_spec(line, start_tok, Seq::<char>::empty());
    take_until_char_spec(trim_start_spec(rest), '>')
}

/// The attributes on a tag line.
pub open spec fn get_attrs_inline_spec(line: Seq<char>) -> Seq<PropV> {
    let a = attrs_src_spec(line);
    if a.len() == 0 {
        Seq::empty()
    } else {
        tag_attrs_spec(a)
    }
}

/// Reads the attributes off a tag line.
pub fn get_attrs_inline(line: &Text) -> (r: PropMap)
    ensures
        r@ == get_attrs_inline_spec(line@),
{
    let name: Text = match get_tag_name(line) {
        Some(n) => n,
        None => Vec::new(),
    };
    proof {
        match tag_name_spec(line@) {
            Some(_) => {},
            None => {
                assert(name@ =~= Seq::<char>::empty());
            },
        }
    }
    let mut start_tok: Text = Vec::new();
    start_tok.push('<');
    push_all(&mut start_tok, &name);
    assert(start_tok@ =~= seq!['<'] + name@);
    let empty_text: Text = Vec::new();
    assert(empty_text@ =~= Seq::<char>::empty());
    let rest = replace_all(line, &start_tok, &empty_text);
    let trimmed = trim_start(&rest);
    let attrs = take_until_char(&trimmed, '>');
    if attrs.len() == 0 {
        PropMap::new()
    } else {
        get_tag_attrs(Some(&attrs))
    }
}

/// Lines gathered until one carries the token; the gathering line count
/// and the collected text, each line closed by a newline.
pub open spec fn collect_until_spec(ls: Seq<Seq<char>>, j: int, tok: Seq<char>) -> (Seq<char>, int)
    decreases ls.len() - j + 1,
{
    if j < 0 || j >= ls.len() {
        (Seq::<char>::empty(), ls.len() as int)
    } else if contains_spec(ls[j], tok) {
        (Seq::<char>::empty(), j + 1)
    } else {
        let rest = collect_until_spec(ls, j + 1, tok);
        (ls[j] + seq!['\n'] + rest.0, rest.1)
    }
}

fn collect_until(ls: &Vec<Text>, j: usize, tok: &Text) -> (r: (Text, usize))
    requires
        j <= ls@.len(),
    ensures
        r.0@ == collect_until_spec(crate::text::views(ls@), j as int, tok@).0,
        r.1 as int == collect_until_spec(crate::text::views(ls@), j as int, tok@).1,
        j <= r.1 <= ls@.len(),
    decreases ls@.len() - j,
{
    proof {
        assert(crate::text::views(ls@).len() == ls@.len());
    }
    if j >= ls.len() {
        let empty_text: Text = Vec::new();
        assert(empty_text@ =~= Seq::<char>::empty());
        return (empty_text, ls.len());
    }
    proof {
        assert(crate::text::views(ls@)[j as int] == ls@[j as int]@);
    }
    if contains(&ls[j], tok) {
        let empty_text: Text = Vec::new();
        assert(empty_text@ =~= Seq::<char>::empty());
        return (empty_text, j + 1);
    }
    let rest = collect_until(ls, j + 1, tok);
    let mut out = copy_text(&ls[j]);
    out.push('\n');
    push_all(&mut out, &rest.0);
    proof {
        assert(out@ =~= ls@[j as int]@ + seq!['\n'] + rest.0@);
    }
    (out, rest.1)
}

/// A tag's full markup starting at line `i`: the line itself if it closes
/// inline, else the lines up to its closing token, that token appended.
/// The second component is the next unread line.
pub open spec fn consume_tag_html_spec(ls: Seq<Seq<char>>, i: int, tag: Seq<char>) -> (
    Seq<char>,
    int,
) {
    let pre = if 0 <= i < ls.len() {
        ls[i]
    } else {
        Seq::<char>::empty()
    };
    let end_tok = seq!['<', '/'] + tag;
    if contains_spec(pre, end_tok) || contains_spec(pre, unpaired_close_tok()) {
        (pre, i + 1)
    } else {
        let rest = collect_until_spec(ls, i + 1, end_tok);
        (pre + seq!['\n'] + rest.0 + end_tok, rest.1)
    }
}

/// Reads a whole paired tag off the line list.
pub fn consume_tag_html(ls: &Vec<Text>, i: usize, tag: &Text) -> (r: (Text, usize))
    requires
        i < ls@.len(),
    ensures
        r.0@ == consume_tag_html_spec(crate::text::views(ls@), i as int, tag@).0,
        r.1 as int == consume_tag_html_spec(crate::text::views(ls@), i as int, tag@).1,
        i < r.1 <= ls@.len(),
{
    let n = ls.len();
    proof {
        assert(i < n);
        assert(crate::text::views(ls@)[i as int] == ls@[i as int]@);
    }
    let mut end_tok: Text = Vec::new();
    end_tok.push('<');
    end_tok.push('/');
    push_all(&mut end_tok, tag);
    assert(end_tok@ =~= seq!['<', '/'] + tag@);
    let unpaired = unpaired_close_text();
    if contains(&ls[i], &end_tok) || contains(&ls[i], &unpaired) {
        return (copy_text(&ls[i]), i + 1);
    }
    let rest = collect_until(ls, i + 1, &end_tok);
    let mut out = copy_text(&ls[i]);
    out.push('\n');
    push_all(&mut out, &rest.0);
    push_all(&mut out, &end_tok);
    proof {
        assert(out@ =~= ls@[i as int]@ + seq!['\n'] + rest.0@ + end_tok@);
    }
    (out, rest.1)
}

/// A component usage read until its terminator: whether the tag closed
/// paired, the inner lines, and the index of the terminator line.
pub open spec fn consume_until_spec(ls: Seq<Seq<char>>, j: int, id: Seq<char>) -> (
    bool,
    Seq<char>,
    int,
)
    decreases ls.len() - j + 1,
{
    if j < 0 || j >= ls.len() {
        (true, Seq::<char>::empty(), ls.len() as int)
    } else {
        let t = trim_start_spec(ls[j]);
        if contains_spec(t, unpaired_close_tok()) {
            (false, Seq::<char>::empty(), j)
        } else if starts_with_spec(t, seq!['<', '/'] + id) {
            (true, Seq::<char>::empty(), j)
        } else {
            let rest = consume_until_spec(ls, j + 1, id);
            (rest.0, ls[j] + seq!['\n'] + rest.1, rest.2)
        }
    }
}

/// Reads a component usage until an unpaired close or the matching end
/// tag.
pub fn consume_until_end_token(ls: &Vec<Text>, j: usize, id: &Text) -> (r: (bool, Text, usize))
    requires
        j <= ls@.len(),
    ensures
        r.0 == consume_until_spec(crate::text::views(ls@), j as int, id@).0,
        r.1@ == consume_until_spec(crate::text::views(ls@), j as int, id@).1,
        r.2 as int == consume_until_spec(crate::text::views(ls@), j as int, id@).2,
        j <= r.2 <= ls@.len(),
    decreases ls@.len() - j,
{
    proof {
        assert(crate::text::views(ls@).len() == ls@.len());
    }
    if j >= ls.len() {
        let empty_text: Text = Vec::new();
        assert(empty_text@ =~= Seq::<char>::empty());
        return (true, empty_text, ls.len());
    }
    proof {
        assert(crate::text::views(ls@)[j as int] == ls@[j as int]@);
    }
    let t = trim_start(&ls[j]);
    let unpaired = unpaired_close_text();
    if contains(&t, &unpaired) {
        let empty_text: Text = Vec::new();
        assert(empty_text@ =~= Seq::<char>::empty());
        return (false, empty_text, j);
    }
    let mut end_tok: Text = Vec::new();
    end_tok.push('<');
    end_tok.push('/');
    push_all(&mut end_tok, id);
    assert(end_tok@ =~= seq!['<', '/'] + id@);
    if starts_with(&t, &end_tok) {
        let empty_text: Text = Vec::new();
        assert(empty_text@ =~= Seq::<char>::empty());
        return (true, empty_text, j);
    }
    let rest = consume_until_end_token(ls, j + 1, id);
    let mut out = copy_text(&ls[j]);
    out.push('\n');
    push_all(&mut out, &rest.1);
    proof {
        assert(out@ =~= ls@[j as int]@ + seq!['\n'] + rest.1@);
    }
    (rest.0, out, rest.2)
}

/// Where a linked path points, relative to the entry file or the working
/// directory: `./` is relative to the entry's folder, a leading `/` is
/// absolute under the working directory, and anything else resolves
/// against the entry's folder.
pub open spec fn evaluate_url_spec(
    entry_file: Seq<char>,
    linked_path: Seq<char>,
    cwd: Seq<char>,
) -> Option<Seq<char>> {
    if linked_path.len() == 0 {
        None
    } else {
        let endpoint = crate::path::strip_cwd_spec(entry_file, cwd);
        let parent = crate::path::parent_dir_spec(endpoint);
        let base = crate::path::path_join_spec(cwd, parent);
        let trimmed = trim_start_spec(linked_path);
        if starts_with_spec(trimmed, seq!['.', '/']) {
            Some(
                crate::path::path_join_spec(
                    base,
                    crate::text::replace_first_spec(
                        linked_path,
                        seq!['.', '/'],
                        Seq::<char>::empty(),
                    ),
                ),
            )
        } else if starts_with_spec(trimmed, seq!['/']) {
            Some(
                crate::path::path_join_spec(
                    cwd,
                    crate::text::replace_first_spec(linked_path, seq!['/'], Seq::<char>::empty()),
                ),
            )
        } else {
            Some(crate::path::path_join_spec(base, linked_path))
        }
    }
}

/// Evaluates the url of a linked file relative to the entry file or the
/// working directory.
pub fn evaluate_url(entry_file: &Text, linked_path: &Text, cwd: &Text) -> (r: Option<Text>)
    ensures
        match r {
            Some(t) => evaluate_url_spec(entry_file@, linked_path@, cwd@) == Some(t@),
            None => evaluate_url_spec(entry_file@, linked_path@, cwd@) is None,
        },
{
    if linked_path.len() == 0 {
        return None;
    }
    let endpoint = crate::path::strip_cwd(entry_file, cwd);
    let parent = crate::path::parent_dir(&endpoint);
    let base = crate::path::path_join(cwd, &parent);
    let trimmed = trim_start(linked_path);
    let mut dot_slash: Text = Vec::new();
    dot_slash.push('.');
    dot_slash.push('/');
    assert(dot_slash@ =~= seq!['.', '/']);
    let mut slash: Text = Vec::new();
    slash.push('/');
    assert(slash@ =~= seq!['/']);
    let empty_text: Text = Vec::new();
    assert(empty_text@ =~= Seq::<char>::empty());
    if starts_with(&trimmed, &dot_slash) {
        let rel = crate::text::replace_first(linked_path, &dot_slash, &empty_text);
        Some(crate::path::path_join(&base, &rel))
    } else if starts_with(&trimmed, &slash) {
        let abs = crate::text::replace_first(linked_path, &slash, &empty_text);
        Some(crate::path::path_join(cwd, &abs))
    } else {
        Some(crate::path::path_join(&base, linked_path))
    }
}

} // verus!
