//! The slot resolver: partitions usage children into named placements and
//! a catch-all bucket, then substitutes them into the component's `<slot>`
//! markers. A marker with no matching placement is left unresolved.

use vstd::prelude::*;

use crate::scan::{
    consume_tag_html, consume_tag_html_spec, get_attrs_inline, get_attrs_inline_spec,
    get_tag_name, is_uncommented, is_uncommented_spec, replace_chunk, replace_chunk_spec,
    tag_name_spec, token_before_comment, token_before_comment_spec,
};
use crate::statica_t::map_lookup;
use crate::text::{
    contains, contains_spec, copy_text, join_sep_spec, lines, lines_spec, push_all, text_eq,
    trim_start, trim_start_spec, views, Text,
};
use crate::tokens::{
    name_attr_open_tok, name_attr_open_text, slot_attr_tok, slot_attr_text, slot_start_tok,
    slot_start_text,
};

verus! {

/// The placement stored under the first occurrence of a name.
pub open spec fn placement_lookup(named: Seq<(Seq<char>, Seq<char>)>, name: Seq<char>) -> Option<
    Seq<char>,
>
    decreases named.len(),
{
    if named.len() == 0 {
        None
    } else if named[0].0 == name {
        Some(named[0].1)
    } else {
        placement_lookup(named.drop_first(), name)
    }
}

/// The views of a sequence of placement pairs.
pub open spec fn pair_views(s: Seq<(Text, Text)>) -> Seq<(Seq<char>, Seq<char>)> {
    s.map_values(|p: (Text, Text)| (p.0@, p.1@))
}

fn placement_get(named: &Vec<(Text, Text)>, name: &Text) -> (r: Option<Text>)
    ensures
        match r {
            Some(t) => placement_lookup(pair_views(named@), name@) == Some(t@),
            None => placement_lookup(pair_views(named@), name@) is None,
        },
{
    let n = named.len();
    proof {
        assert(pair_views(named@).skip(0) =~= pair_views(named@));
    }
    let mut i: usize = 0;
    while i < n
        invariant
            n == named@.len(),
            0 <= i <= n,
            placement_lookup(pair_views(named@), name@) == placement_lookup(
                pair_views(named@).skip(i as int),
                name@,
            ),
        decreases n - i,
    {
        proof {
            let tail = pair_views(named@).skip(i as int);
            assert(tail[0] == pair_views(named@)[i as int]);
            assert(pair_views(named@)[i as int] == (named@[i as int].0@, named@[i as int].1@));
            assert(tail.drop_first() =~= pair_views(named@).skip(i as int + 1));
        }
        if text_eq(&named[i].0, name) {
            return Some(copy_text(&named[i].1));
        }
        i += 1;
    }
    proof {
        assert(pair_views(named@).skip(n as int) =~= Seq::<(Seq<char>, Seq<char>)>::empty());
    }
    None
}

/// Children partitioned from line `j` on: the named placements in order of
/// appearance, each with its `slot` attribute stripped, and the catch-all
/// lines.
pub open spec fn collect_placements_spec(ls: Seq<Seq<char>>, j: int) -> (
    Seq<(Seq<char>, Seq<char>)>,
    Seq<Seq<char>>,
)
    decreases ls.len() - j + 1,
{
    if j < 0 || j >= ls.len() {
        (Seq::empty(), Seq::empty())
    } else {
        let line = ls[j];
        if is_uncommented_spec(line, slot_attr_tok()) {
            match tag_name_spec(line) {
                Some(tag) => {
                    let attrs = get_attrs_inline_spec(line);
                    match map_lookup(attrs, seq!['s', 'l', 'o', 't']) {
                        Some(attr) => {
                            let taken = consume_tag_html_spec(ls, j, tag);
                            let value = match attr.value {
                                Some(v) => v,
                                None => Seq::<char>::empty(),
                            };
                            let stripped = crate::text::replace_first_spec(
                                taken.0,
                                slot_attr_tok() + seq!['"'] + value + seq!['"'],
                                Seq::<char>::empty(),
                            );
                            let jn: int = if taken.1 > j && taken.1 <= ls.len() {
                                taken.1
                            } else {
                                j + 1
                            };
                            let rec = collect_placements_spec(ls, jn);
                            (seq![(value, stripped)] + rec.0, rec.1)
                        },
                        None => {
                            let rec = collect_placements_spec(ls, j + 1);
                            (rec.0, seq![line] + rec.1)
                        },
                    }
                },
                None => {
                    let rec = collect_placements_spec(ls, j + 1);
                    (rec.0, seq![line] + rec.1)
                },
            }
        } else {
            let rec = collect_placements_spec(ls, j + 1);
            (rec.0, seq![line] + rec.1)
        }
    }
}

fn collect_placements(ls: &Vec<Text>, j: usize) -> (r: (Vec<(Text, Text)>, Vec<Text>))
    requires
        j <= ls@.len(),
    ensures
        pair_views(r.0@) == collect_placements_spec(views(ls@), j as int).0,
        views(r.1@) == collect_placements_spec(views(ls@), j as int).1,
    decreases ls@.len() - j,
{
    proof {
        assert(views(ls@).len() == ls@.len());
    }
    if j >= ls.len() {
        let named: Vec<(Text, Text)> = Vec::new();
        let rest: Vec<Text> = Vec::new();
        proof {
            assert(pair_views(named@) =~= Seq::<(Seq<char>, Seq<char>)>::empty());
            assert(views(rest@) =~= Seq::<Seq<char>>::empty());
        }
        return (named, rest);
    }
    proof {
        assert(views(ls@)[j as int] == ls@[j as int]@);
    }
    let slot_tok = slot_attr_text();
    if is_uncommented(&ls[j], &slot_tok) {
        match get_tag_name(&ls[j]) {
            Some(tag) => {
                let attrs = get_attrs_inline(&ls[j]);
                let slot_name = crate::text::text_of_str("slot");
                proof {
                    reveal_strlit("slot");
                    assert(slot_name@ =~= seq!['s', 'l', 'o', 't']);
                }
                match attrs.get(&slot_name) {
                    Some(attr) => {
                        let value: Text = match &attr.value {
                            Some(v) => copy_text(v),
                            None => Vec::new(),
                        };
                        proof {
                            match map_lookup(attrs@, seq!['s', 'l', 'o', 't']) {
                                Some(a) => {
                                    match a.value {
                                        Some(_) => {},
                                        None => {
                                            assert(value@ =~= Seq::<char>::empty());
                                        },
                                    }
                                },
                                None => {},
                            }
                        }
                        let taken = consume_tag_html(ls, j, &tag);
                        let mut attr_pat = slot_attr_text();
                        attr_pat.push('"');
                        crate::text::push_all(&mut attr_pat, &value);
                        attr_pat.push('"');
                        proof {
                            assert(attr_pat@ =~= slot_attr_tok() + seq!['"'] + value@
                                + seq!['"']);
                        }
                        let empty_text: Text = Vec::new();
                        proof {
                            assert(empty_text@ =~= Seq::<char>::empty());
                        }
                        let stripped = crate::text::replace_first(&taken.0, &attr_pat, &empty_text);
                        let jn: usize = if taken.1 > j {
                            taken.1
                        } else {
                            j + 1
                        };
                        let rec = collect_placements(ls, jn);
                        let mut named: Vec<(Text, Text)> = Vec::new();
                        named.push((value, stripped));
                        let ghost head = pair_views(named@);
                        let mut rest_named = rec.0;
                        let mut k: usize = 0;
                        proof {
                            assert(head.len() == 1);
                        }
                        while k < rest_named.len()
                            invariant
                                0 <= k <= rest_named@.len(),
                                named@.len() == k + 1,
                                pair_views(named@).take(1) =~= head,
                                forall|m: int|
                                    0 <= m < k ==> pair_views(named@)[m + 1] == pair_views(
                                        rest_named@,
                                    )[m],
                            decreases rest_named@.len() - k,
                        {
                            let pair = (copy_text(&rest_named[k].0), copy_text(&rest_named[k].1));
                            proof {
                                assert(pair_views(rest_named@)[k as int] == (
                                    rest_named@[k as int].0@,
                                    rest_named@[k as int].1@,
                                ));
                            }
                            named.push(pair);
                            k += 1;
                        }
                        proof {
                            assert(pair_views(named@) =~= head + pair_views(rest_named@)) by {
                                assert(pair_views(named@).len() == 1 + pair_views(
                                    rest_named@,
                                ).len());
                                assert(forall|m: int|
                                    0 <= m < pair_views(rest_named@).len() ==> pair_views(
                                        named@,
                                    )[m + 1] == #[trigger] pair_views(rest_named@)[m]);
                                assert(pair_views(named@)[0] == head[0]);
                            }
                        }
                        (named, rec.1)
                    },
                    None => {
                        let rec = collect_placements(ls, j + 1);
                        let mut rest: Vec<Text> = Vec::new();
                        rest.push(copy_text(&ls[j]));
                        let mut other = rec.1;
                        let mut k: usize = 0;
                        while k < other.len()
                            invariant
                                0 <= k <= other@.len(),
                                rest@.len() == k + 1,
                                rest@[0]@ == ls@[j as int]@,
                                forall|m: int| 0 <= m < k ==> rest@[m + 1]@ == other@[m]@,
                            decreases other@.len() - k,
                        {
                            rest.push(copy_text(&other[k]));
                            k += 1;
                        }
                        proof {
                            assert(views(rest@) =~= seq![ls@[j as int]@] + views(other@)) by {
                                assert(views(rest@).len() == 1 + views(other@).len());
                                assert(forall|m: int|
                                    0 <= m < views(other@).len() ==> views(rest@)[m + 1]
                                        == #[trigger] views(other@)[m]);
                            }
                        }
                        (rec.0, rest)
                    },
                }
            },
            None => {
                let rec = collect_placements(ls, j + 1);
                let mut rest: Vec<Text> = Vec::new();
                rest.push(copy_text(&ls[j]));
                let mut other = rec.1;
                let mut k: usize = 0;
                while k < other.len()
                    invariant
                        0 <= k <= other@.len(),
                        rest@.len() == k + 1,
                        rest@[0]@ == ls@[j as int]@,
                        forall|m: int| 0 <= m < k ==> rest@[m + 1]@ == other@[m]@,
                    decreases other@.len() - k,
                {
                    rest.push(copy_text(&other[k]));
                    k += 1;
                }
                proof {
                    assert(views(rest@) =~= seq![ls@[j as int]@] + views(other@)) by {
                        assert(views(rest@).len() == 1 + views(other@).len());
                        assert(forall|m: int|
                            0 <= m < views(other@).len() ==> views(rest@)[m + 1] == #[trigger]
                            views(other@)[m]);
                    }
                }
                (rec.0, rest)
            },
        }
    } else {
        let rec = collect_placements(ls, j + 1);
        let mut rest: Vec<Text> = Vec::new();
        rest.push(copy_text(&ls[j]));
        let mut other = rec.1;
        let mut k: usize = 0;
        while k < other.len()
            invariant
                0 <= k <= other@.len(),
                rest@.len() == k + 1,
                rest@[0]@ == ls@[j as int]@,
                forall|m: int| 0 <= m < k ==> rest@[m + 1]@ == other@[m]@,
            decreases other@.len() - k,
        {
            rest.push(copy_text(&other[k]));
            k += 1;
        }
        proof {
            assert(views(rest@) =~= seq![ls@[j as int]@] + views(other@)) by {
                assert(views(rest@).len() == 1 + views(other@).len());
                assert(forall|m: int|
                    0 <= m < views(other@).len() ==> views(rest@)[m + 1] == #[trigger] views(
                        other@,
                    )[m]);
            }
        }
        (rec.0, rest)
    }
}

/// A line opens a catch-all slot: the slot token uncommented, and no name
/// attribute.
pub open spec fn is_catch_all_spec(line: Seq<char>) -> bool {
    contains_spec(trim_start_spec(line), slot_start_tok()) && !contains_spec(
        trim_start_spec(line),
        name_attr_open_tok(),
    ) && token_before_comment_spec(line, slot_start_tok())
}

/// A line opens a named slot: the slot token uncommented, and a name
/// attribute.
pub open spec fn is_named_slot_spec(line: Seq<char>) -> bool {
    contains_spec(trim_start_spec(line), slot_start_tok()) && contains_spec(
        trim_start_spec(line),
        name_attr_open_tok(),
    ) && token_before_comment_spec(line, slot_start_tok())
}

/// The component body after every slot marker from line `j` on has been
/// filled: a catch-all marker takes the joined rest bucket, a named marker
/// takes its placement, and a marker with no placement stays.
pub open spec fn fill_lines_spec(
    ls: Seq<Seq<char>>,
    j: int,
    named: Seq<(Seq<char>, Seq<char>)>,
    catch_all: Seq<char>,
    acc: Seq<char>,
) -> Seq<char>
    decreases ls.len() - j + 1,
{
    if j < 0 || j >= ls.len() {
        acc
    } else {
        let line = ls[j];
        let slot_word = seq!['s', 'l', 'o', 't'];
        if is_catch_all_spec(line) {
            let taken = consume_tag_html_spec(ls, j, slot_word);
            let jn: int = if taken.1 > j && taken.1 <= ls.len() {
                taken.1
            } else {
                j + 1
            };
            fill_lines_spec(ls, jn, named, catch_all, replace_chunk_spec(acc, taken.0, catch_all))
        } else if is_named_slot_spec(line) {
            let taken = consume_tag_html_spec(ls, j, slot_word);
            let jn: int = if taken.1 > j && taken.1 <= ls.len() {
                taken.1
            } else {
                j + 1
            };
            let attrs = get_attrs_inline_spec(line);
            match map_lookup(attrs, seq!['n', 'a', 'm', 'e']) {
                Some(attr) => {
                    let value = match attr.value {
                        Some(v) => v,
                        None => Seq::<char>::empty(),
                    };
                    match placement_lookup(named, value) {
                        Some(placement) => fill_lines_spec(
                            ls,
                            jn,
                            named,
                            catch_all,
                            replace_chunk_spec(acc, taken.0, placement),
                        ),
                        None => fill_lines_spec(ls, jn, named, catch_all, acc),
                    }
                },
                None => fill_lines_spec(ls, jn, named, catch_all, acc),
            }
        } else {
            fill_lines_spec(ls, j + 1, named, catch_all, acc)
        }
    }
}

fn fill_lines(
    ls: &Vec<Text>,
    j: usize,
    named: &Vec<(Text, Text)>,
    catch_all: &Text,
    acc: Text,
) -> (r: Text)
    requires
        j <= ls@.len(),
    ensures
        r@ == fill_lines_spec(views(ls@), j as int, pair_views(named@), catch_all@, acc@),
    decreases ls@.len() - j,
{
    proof {
        assert(views(ls@).len() == ls@.len());
    }
    if j >= ls.len() {
        return acc;
    }
    proof {
        assert(views(ls@)[j as int] == ls@[j as int]@);
    }
    let line = &ls[j];
    let trimmed = trim_start(line);
    let slot_open = slot_start_text();
    let name_open = name_attr_open_text();
    let has_slot = contains(&trimmed, &slot_open);
    let has_name = contains(&trimmed, &name_open);
    let before = token_before_comment(line, &slot_open);
    let slot_word = crate::text::text_of_str("slot");
    proof {
        reveal_strlit("slot");
        assert(slot_word@ =~= seq!['s', 'l', 'o', 't']);
    }
    if has_slot && !has_name && before {
        let taken = consume_tag_html(ls, j, &slot_word);
        let jn: usize = if taken.1 > j {
            taken.1
        } else {
            j + 1
        };
        let replaced = replace_chunk(&acc, &taken.0, catch_all);
        fill_lines(ls, jn, named, catch_all, replaced)
    } else if has_slot && has_name && before {
        let taken = consume_tag_html(ls, j, &slot_word);
        let jn: usize = if taken.1 > j {
            taken.1
        } else {
            j + 1
        };
        let attrs = get_attrs_inline(line);
        let name_word = crate::text::text_of_str("name");
        proof {
            reveal_strlit("name");
            assert(name_word@ =~= seq!['n', 'a', 'm', 'e']);
        }
        match attrs.get(&name_word) {
            Some(attr) => {
                let value: Text = match &attr.value {
                    Some(v) => copy_text(v),
                    None => Vec::new(),
                };
                proof {
                    match map_lookup(attrs@, seq!['n', 'a', 'm', 'e']) {
                        Some(a) => {
                            match a.value {
                                Some(_) => {},
                                None => {
                                    assert(value@ =~= Seq::<char>::empty());
                                },
                            }
                        },
                        None => {},
                    }
                }
                match placement_get(named, &value) {
                    Some(placement) => {
                        let replaced = replace_chunk(&acc, &taken.0, &placement);
                        fill_lines(ls, jn, named, catch_all, replaced)
                    },
                    None => fill_lines(ls, jn, named, catch_all, acc),
                }
            },
            None => fill_lines(ls, jn, named, catch_all, acc),
        }
    } else {
        fill_lines(ls, j + 1, named, catch_all, acc)
    }
}

/// The slot-filled form of a component body against its usage children.
pub open spec fn fill_component_slots_spec(c_code: Seq<char>, c_children: Seq<char>) -> Seq<char> {
    let parts = collect_placements_spec(lines_spec(c_children), 0);
    let catch_all = join_sep_spec(parts.1, seq!['\n']);
    fill_lines_spec(lines_spec(c_code), 0, parts.0, catch_all, c_code)
}

/// Replaces component slots with their placements, the component children.
pub fn fill_component_slots(c_code: &Text, c_children: &Text) -> (r: Text)
    ensures
        r@ == fill_component_slots_spec(c_code@, c_children@),
{
    let child_lines = lines(c_children);
    let parts = collect_placements(&child_lines, 0);
    let mut nl_sep: Text = Vec::new();
    nl_sep.push('\n');
    assert(nl_sep@ =~= seq!['\n']);
    let catch_all = crate::text::join_sep(&parts.1, &nl_sep);
    let body_lines = lines(c_code);
    let acc = copy_text(c_code);
    fill_lines(&body_lines, 0, &parts.0, &catch_all, acc)
}

} // verus!
