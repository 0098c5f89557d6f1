//! The prop resolver: merges declared and supplied prop values, substitutes
//! the literal placeholder forms across a component body, and suppresses a
//! render pass whose referenced props cannot all be resolved.

use vstd::prelude::*;

use crate::scan::{is_uncommented, is_uncommented_spec};
use crate::statica_t::{
    css_form, dquote_form, map_lookup, record_lookup, squote_form, Data, DataEntry, DataEntryV,
    Diagnostic, DiagnosticKind, Meta, Prop, PropMap, PropV, Proc,
};
use crate::text::{
    contains, contains_spec, copy_text, find, find_spec, lines, lines_spec, push_all, replace_all,
    replace_all_spec, subtext, text_eq, views, Text,
};
use crate::tokens::{value_close_tok, value_close_text, value_open_tok, value_open_text};

verus! {

/// The value a prop resolves to: the usage value first, then a default the
/// usage carries, then the declared default.
pub open spec fn resolved_value_spec(declared: PropV, usage: Option<PropV>) -> Option<Seq<char>> {
    match usage {
        Some(u) => match u.value {
            Some(v) => Some(v),
            None => match u.default {
                Some(d) => Some(d),
                None => declared.default,
            },
        },
        None => declared.default,
    }
}

/// `("name")`
fn dquote_text(name: &Text) -> (r: Text)
    ensures
        r@ == dquote_form(name@),
{
    let mut r: Text = Vec::new();
    r.push('(');
    r.push('"');
    push_all(&mut r, name);
    r.push('"');
    r.push(')');
    proof {
        assert(r@ =~= dquote_form(name@));
    }
    r
}

/// `('name')`
fn squote_text(name: &Text) -> (r: Text)
    ensures
        r@ == squote_form(name@),
{
    let mut r: Text = Vec::new();
    r.push('(');
    r.push('\'');
    push_all(&mut r, name);
    r.push('\'');
    r.push(')');
    proof {
        assert(r@ =~= squote_form(name@));
    }
    r
}

/// `--name`
fn css_text(name: &Text) -> (r: Text)
    ensures
        r@ == css_form(name@),
{
    let mut r: Text = Vec::new();
    r.push('-');
    r.push('-');
    push_all(&mut r, name);
    proof {
        assert(r@ =~= css_form(name@));
    }
    r
}

/// A line references a prop when one of its literal forms stands
/// uncommented on it.
pub open spec fn line_references_spec(line: Seq<char>, name: Seq<char>) -> bool {
    is_uncommented_spec(line, dquote_form(name)) || is_uncommented_spec(line, squote_form(name))
        || is_uncommented_spec(line, css_form(name))
}

/// The body references a prop when some line does.
pub open spec fn references_spec(ls: Seq<Seq<char>>, name: Seq<char>) -> bool
    decreases ls.len(),
{
    if ls.len() == 0 {
        false
    } else {
        line_references_spec(ls[0], name) || references_spec(ls.drop_first(), name)
    }
}

fn line_references(line: &Text, name: &Text) -> (r: bool)
    ensures
        r == line_references_spec(line@, name@),
{
    let dq = dquote_text(name);
    let sq = squote_text(name);
    let cs = css_text(name);
    is_uncommented(line, &dq) || is_uncommented(line, &sq) || is_uncommented(line, &cs)
}

fn references(ls: &Vec<Text>, name: &Text) -> (r: bool)
    ensures
        r == references_spec(views(ls@), name@),
{
    let n = ls.len();
    proof {
        assert(views(ls@).skip(0) =~= views(ls@));
    }
    let mut i: usize = 0;
    while i < n
        invariant
            n == ls@.len(),
            0 <= i <= n,
            references_spec(views(ls@), name@) == references_spec(
                views(ls@).skip(i as int),
                name@,
            ),
        decreases n - i,
    {
        proof {
            let tail = views(ls@).skip(i as int);
            assert(tail[0] == ls@[i as int]@);
            assert(tail.drop_first() =~= views(ls@).skip(i as int + 1));
        }
        if line_references(&ls[i], name) {
            return true;
        }
        i += 1;
    }
    proof {
        assert(views(ls@).skip(n as int) =~= Seq::<Seq<char>>::empty());
    }
    false
}

/// The names of declared props that the body references but that resolve
/// to nothing, in declaration order.
pub open spec fn unresolved_names_spec(
    dict: Seq<PropV>,
    usage: Seq<PropV>,
    ls: Seq<Seq<char>>,
) -> Seq<Seq<char>>
    decreases dict.len(),
{
    if dict.len() == 0 {
        Seq::empty()
    } else {
        let p = dict[0];
        let rest = unresolved_names_spec(dict.drop_first(), usage, ls);
        if resolved_value_spec(p, map_lookup(usage, p.name)) is None && references_spec(
            ls,
            p.name,
        ) {
            seq![p.name] + rest
        } else {
            rest
        }
    }
}

/// Resolves one declared prop against the usage dictionary.
fn resolved_value(declared: &Prop, usage: &PropMap) -> (r: Option<Text>)
    ensures
        match r {
            Some(v) => resolved_value_spec(declared@, map_lookup(usage@, declared@.name)) == Some(
                v@,
            ),
            None => resolved_value_spec(declared@, map_lookup(usage@, declared@.name)) is None,
        },
{
    match usage.get(&declared.name) {
        Some(u) => match &u.value {
            Some(v) => Some(copy_text(v)),
            None => match &u.default {
                Some(d) => Some(copy_text(d)),
                None => match &declared.default {
                    Some(d) => Some(copy_text(d)),
                    None => None,
                },
            },
        },
        None => match &declared.default {
            Some(d) => Some(copy_text(d)),
            None => None,
        },
    }
}

fn unresolved_names(dict: &PropMap, usage: &PropMap, ls: &Vec<Text>) -> (r: Vec<Text>)
    ensures
        views(r@) == unresolved_names_spec(dict@, usage@, views(ls@)),
{
    let n = dict.entries.len();
    let mut r: Vec<Text> = Vec::new();
    proof {
        assert(dict@.skip(0) =~= dict@);
        assert(views(r@) =~= Seq::<Seq<char>>::empty());
    }
    let mut i: usize = 0;
    while i < n
        invariant
            n == dict@.len(),
            0 <= i <= n,
            unresolved_names_spec(dict@, usage@, views(ls@)) == views(r@)
                + unresolved_names_spec(dict@.skip(i as int), usage@, views(ls@)),
        decreases n - i,
    {
        let ghost r0 = views(r@);
        proof {
            let tail = dict@.skip(i as int);
            assert(tail[0] == dict@[i as int]);
            assert(tail.drop_first() =~= dict@.skip(i as int + 1));
        }
        let rv = resolved_value(&dict.entries[i], usage);
        let refs = references(ls, &dict.entries[i].name);
        if rv.is_none() && refs {
            let name = copy_text(&dict.entries[i].name);
            r.push(name);
            proof {
                assert(views(r@) =~= r0 + seq![dict@[i as int].name]);
                assert(r0 + (seq![dict@[i as int].name] + unresolved_names_spec(
                    dict@.skip(i as int + 1),
                    usage@,
                    views(ls@),
                )) =~= views(r@) + unresolved_names_spec(
                    dict@.skip(i as int + 1),
                    usage@,
                    views(ls@),
                ));
            }
        }
        i += 1;
    }
    proof {
        assert(dict@.skip(n as int) =~= Seq::<PropV>::empty());
        assert(views(r@) + unresolved_names_spec(
            Seq::<PropV>::empty(),
            usage@,
            views(ls@),
        ) =~= views(r@));
    }
    r
}

/// A line after the call-style substitutions of every resolvable prop, in
/// declaration order.
pub open spec fn subst_line_spec(line: Seq<char>, dict: Seq<PropV>, usage: Seq<PropV>) -> Seq<char>
    decreases dict.len(),
{
    if dict.len() == 0 {
        line
    } else {
        let p = dict[0];
        let l2 = match resolved_value_spec(p, map_lookup(usage, p.name)) {
            Some(v) => replace_all_spec(
                replace_all_spec(line, dquote_form(p.name), v),
                squote_form(p.name),
                v,
            ),
            None => line,
        };
        subst_line_spec(l2, dict.drop_first(), usage)
    }
}

fn subst_line(line: &Text, dict: &PropMap, usage: &PropMap) -> (r: Text)
    ensures
        r@ == subst_line_spec(line@, dict@, usage@),
{
    let n = dict.entries.len();
    let mut cur = copy_text(line);
    proof {
        assert(dict@.skip(0) =~= dict@);
    }
    let mut i: usize = 0;
    while i < n
        invariant
            n == dict@.len(),
            0 <= i <= n,
            subst_line_spec(line@, dict@, usage@) == subst_line_spec(
                cur@,
                dict@.skip(i as int),
                usage@,
            ),
        decreases n - i,
    {
        proof {
            let tail = dict@.skip(i as int);
            assert(tail[0] == dict@[i as int]);
            assert(tail.drop_first() =~= dict@.skip(i as int + 1));
        }
        match resolved_value(&dict.entries[i], usage) {
            Some(v) => {
                let dq = dquote_text(&dict.entries[i].name);
                let sq = squote_text(&dict.entries[i].name);
                let once = replace_all(&cur, &dq, &v);
                cur = replace_all(&once, &sq, &v);
            },
            None => {},
        }
        i += 1;
    }
    proof {
        assert(dict@.skip(n as int) =~= Seq::<PropV>::empty());
    }
    cur
}

/// The first declared prop whose CSS custom-property form stands
/// uncommented on the line, resolves to a value, and has not yet had its
/// definition inserted.
pub open spec fn css_prop_for_line_spec(
    line: Seq<char>,
    dict: Seq<PropV>,
    usage: Seq<PropV>,
    done: Seq<Seq<char>>,
) -> Option<(Seq<char>, Seq<char>)>
    decreases dict.len(),
{
    if dict.len() == 0 {
        None
    } else {
        let p = dict[0];
        let rv = resolved_value_spec(p, map_lookup(usage, p.name));
        if rv is Some && is_uncommented_spec(line, css_form(p.name)) && !done.contains(p.name) {
            Some((p.name, rv->Some_0))
        } else {
            css_prop_for_line_spec(line, dict.drop_first(), usage, done)
        }
    }
}

fn contains_name(done: &Vec<Text>, name: &Text) -> (r: bool)
    ensures
        r == views(done@).contains(name@),
{
    let n = done.len();
    let mut i: usize = 0;
    while i < n
        invariant
            n == done@.len(),
            0 <= i <= n,
            forall|j: int| 0 <= j < i ==> views(done@)[j] != name@,
        decreases n - i,
    {
        proof {
            assert(views(done@)[i as int] == done@[i as int]@);
        }
        if text_eq(&done[i], name) {
            proof {
                assert(views(done@).contains(name@));
            }
            return true;
        }
        i += 1;
    }
    proof {
        if views(done@).contains(name@) {
            let j = choose|j: int| 0 <= j < views(done@).len() && views(done@)[j] == name@;
            assert(false);
        }
    }
    false
}

fn css_prop_for_line(line: &Text, dict: &PropMap, usage: &PropMap, done: &Vec<Text>) -> (r: Option<
    (Text, Text),
>)
    ensures
        match r {
            Some(pair) => css_prop_for_line_spec(line@, dict@, usage@, views(done@)) == Some(
                (pair.0@, pair.1@),
            ),
            None => css_prop_for_line_spec(line@, dict@, usage@, views(done@)) is None,
        },
{
    let n = dict.entries.len();
    proof {
        assert(dict@.skip(0) =~= dict@);
    }
    let mut i: usize = 0;
    while i < n
        invariant
            n == dict@.len(),
            0 <= i <= n,
            css_prop_for_line_spec(line@, dict@, usage@, views(done@)) == css_prop_for_line_spec(
                line@,
                dict@.skip(i as int),
                usage@,
                views(done@),
            ),
        decreases n - i,
    {
        proof {
            let tail = dict@.skip(i as int);
            assert(tail[0] == dict@[i as int]);
            assert(tail.drop_first() =~= dict@.skip(i as int + 1));
        }
        let rv = resolved_value(&dict.entries[i], usage);
        match rv {
            Some(v) => {
                let cs = css_text(&dict.entries[i].name);
                let used = is_uncommented(line, &cs);
                let already = contains_name(done, &dict.entries[i].name);
                if used && !already {
                    return Some((copy_text(&dict.entries[i].name), v));
                }
            },
            None => {},
        }
        i += 1;
    }
    proof {
        assert(dict@.skip(n as int) =~= Seq::<PropV>::empty());
    }
    None
}

/// The key inside a data-value token on a line: the text between
/// `$value("` and the closing `")`.
pub open spec fn value_key_spec(line: Seq<char>) -> Option<Seq<char>> {
    match find_spec(line, value_open_tok()) {
        Some(vi) => {
            if 0 <= vi && vi + value_open_tok().len() <= line.len() {
                let after = line.skip(vi + value_open_tok().len());
                match find_spec(after, value_close_tok()) {
                    Some(e) => {
                        if 0 <= e {
                            Some(after.take(e))
                        } else {
                            None
                        }
                    },
                    None => None,
                }
            } else {
                None
            }
        },
        None => None,
    }
}

fn value_key(line: &Text) -> (r: Option<Text>)
    ensures
        match r {
            Some(t) => value_key_spec(line@) == Some(t@),
            None => value_key_spec(line@) is None,
        },
{
    let opener = value_open_text();
    let n = line.len();
    match find(line, &opener) {
        Some(vi) => {
            proof {
                crate::text::lemma_find_from_in_range(line@, opener@, 0);
                assert(vi + opener@.len() <= n);
            }
            let after = subtext(line, vi + opener.len(), n);
            assert(after@ =~= line@.skip(vi as int + value_open_tok().len()));
            let closer = value_close_text();
            match find(&after, &closer) {
                Some(e) => {
                    proof {
                        crate::text::lemma_find_from_in_range(after@, closer@, 0);
                    }
                    let key = subtext(&after, 0, e);
                    assert(key@ =~= after@.take(e as int));
                    Some(key)
                },
                None => None,
            }
        },
        None => None,
    }
}

/// What a line with a data-value token becomes: the token replaced by the
/// prop value if the key names a resolvable prop, else by the record field
/// at that pointer; a key that neither side answers silences the line.
pub open spec fn value_line_spec(
    line: Seq<char>,
    dict: Seq<PropV>,
    usage: Seq<PropV>,
    record: Option<DataEntryV>,
) -> Seq<char> {
    match value_key_spec(line) {
        None => Seq::empty(),
        Some(key) => {
            let token = value_open_tok() + key + value_close_tok();
            let from_prop: Option<Seq<char>> = match map_lookup(dict, key) {
                Some(p) => resolved_value_spec(p, map_lookup(usage, key)),
                None => None,
            };
            match from_prop {
                Some(v) => replace_all_spec(line, token, v) + seq!['\n'],
                None => match record {
                    Some(rec) => match record_lookup(rec.data, key) {
                        Some(s) => replace_all_spec(line, token, s) + seq!['\n'],
                        None => Seq::empty(),
                    },
                    None => Seq::empty(),
                },
            }
        },
    }
}

fn value_line(line: &Text, dict: &PropMap, usage: &PropMap, record: Option<&DataEntry>) -> (r:
    Text)
    ensures
        r@ == value_line_spec(line@, dict@, usage@, match record {
            Some(rec) => Some(rec@),
            None => None,
        }),
{
    match value_key(line) {
        None => Vec::new(),
        Some(key) => {
            let mut token = value_open_text();
            push_all(&mut token, &key);
            let closer = value_close_text();
            push_all(&mut token, &closer);
            assert(token@ =~= value_open_tok() + key@ + value_close_tok());
            proof {
                crate::statica_t::lemma_map_lookup_name(dict@, key@);
            }
            let from_prop: Option<Text> = match dict.get(&key) {
                Some(p) => resolved_value(p, usage),
                None => None,
            };
            match from_prop {
                Some(v) => {
                    let mut out = replace_all(line, &token, &v);
                    out.push('\n');
                    assert(out@ =~= replace_all_spec(line@, token@, v@) + seq!['\n']);
                    out
                },
                None => match record {
                    Some(rec) => match rec.pointer(&key) {
                        Some(s) => {
                            let mut out = replace_all(line, &token, &s);
                            out.push('\n');
                            assert(out@ =~= replace_all_spec(line@, token@, s@) + seq!['\n']);
                            out
                        },
                        None => Vec::new(),
                    },
                    None => Vec::new(),
                },
            }
        },
    }
}

/// What one body line contributes, and the CSS definitions inserted so
/// far afterwards.
pub open spec fn resolve_line_spec(
    line: Seq<char>,
    dict: Seq<PropV>,
    usage: Seq<PropV>,
    record: Option<DataEntryV>,
    done: Seq<Seq<char>>,
) -> (Seq<char>, Seq<Seq<char>>) {
    if is_uncommented_spec(line, value_open_tok()) {
        (value_line_spec(line, dict, usage, record), done)
    } else {
        match css_prop_for_line_spec(line, dict, usage, done) {
            Some(pair) => (
                css_form(pair.0) + seq![':', ' '] + pair.1 + seq![';', '\n'] + line + seq!['\n'],
                done + seq![pair.0],
            ),
            None => (subst_line_spec(line, dict, usage) + seq!['\n'], done),
        }
    }
}

fn resolve_line(
    line: &Text,
    dict: &PropMap,
    usage: &PropMap,
    record: Option<&DataEntry>,
    done: &mut Vec<Text>,
) -> (r: Text)
    ensures
        ({
            let spec_pair = resolve_line_spec(line@, dict@, usage@, match record {
                Some(rec) => Some(rec@),
                None => None,
            }, views(old(done)@));
            r@ == spec_pair.0 && views(final(done)@) == spec_pair.1
        }),
{
    let opener = value_open_text();
    if is_uncommented(line, &opener) {
        value_line(line, dict, usage, record)
    } else {
        match css_prop_for_line(line, dict, usage, done) {
            Some(pair) => {
                let mut out = css_text(&pair.0);
                out.push(':');
                out.push(' ');
                push_all(&mut out, &pair.1);
                out.push(';');
                out.push('\n');
                push_all(&mut out, line);
                out.push('\n');
                done.push(pair.0);
                proof {
                    let spec_pair = resolve_line_spec(line@, dict@, usage@, match record {
                        Some(rec) => Some(rec@),
                        None => None,
                    }, views(old(done)@));
                    assert(out@ =~= spec_pair.0);
                    assert(views(done@) =~= spec_pair.1);
                }
                out
            },
            None => {
                let body = subst_line(line, dict, usage);
                let mut out = body;
                out.push('\n');
                proof {
                    assert(out@ =~= subst_line_spec(line@, dict@, usage@) + seq!['\n']);
                }
                out
            },
        }
    }
}

/// The whole body, line by line, CSS insertions threaded through.
pub open spec fn resolve_lines_spec(
    ls: Seq<Seq<char>>,
    dict: Seq<PropV>,
    usage: Seq<PropV>,
    record: Option<DataEntryV>,
    done: Seq<Seq<char>>,
) -> Seq<char>
    decreases ls.len(),
{
    if ls.len() == 0 {
        Seq::empty()
    } else {
        let step = resolve_line_spec(ls[0], dict, usage, record, done);
        step.0 + resolve_lines_spec(ls.drop_first(), dict, usage, record, step.1)
    }
}

/// A body with every prop substituted: each line resolved in order,
/// starting from no inserted CSS definitions.
pub open spec fn resolve_body_spec(
    code: Seq<char>,
    dict: Seq<PropV>,
    usage: Seq<PropV>,
    record: Option<DataEntryV>,
) -> Seq<char> {
    resolve_lines_spec(lines_spec(code), dict, usage, record, Seq::empty())
}

/// What the resolver hands back over the views: the code untouched when
/// the usage dictionary is absent; nothing, plus one diagnostic per
/// unresolved referenced prop, when a referenced prop has no source; else
/// the fully substituted body.
pub open spec fn resolve_props_post(
    code: Seq<char>,
    proc: crate::statica_t::ProcV,
    record: Option<DataEntryV>,
    out: Seq<char>,
    diags: Seq<crate::statica_t::DiagnosticV>,
) -> bool {
    let dict = match proc.props {
        Some(d) => d,
        None => Seq::<PropV>::empty(),
    };
    match proc.usage_props {
        None => out == code && diags.len() == 0,
        Some(u) => {
            let unres = unresolved_names_spec(dict, u, lines_spec(code));
            if unres.len() > 0 {
                &&& out.len() == 0
                &&& diags.len() == unres.len()
                &&& forall|k: int|
                    0 <= k < diags.len() ==> (#[trigger] diags[k]).kind
                        == DiagnosticKind::UnresolvedProp && diags[k].html == unres[k]
                        && diags[k].meta == proc.meta
            } else {
                &&& out == resolve_body_spec(code, dict, u, record)
                &&& diags.len() == 0
            }
        },
    }
}

/// Resolves the props of one render pass across a component body.
pub fn resolve_props(code: &Text, data: &Proc, render_index: usize, records: &Data) -> (r: (
    Text,
    Vec<Diagnostic>,
))
    ensures
        resolve_props_post(code@, data@, if (render_index as int) < records.for_each@.len() {
            Some(records.for_each@[render_index as int]@)
        } else {
            None
        }, r.0@, crate::statica_t::diag_views(r.1@)),
{
    let empty_dict = PropMap::new();
    let dict: &PropMap = match &data.props {
        Some(d) => d,
        None => &empty_dict,
    };
    let usage: &PropMap = match &data.usage_props {
        Some(u) => u,
        None => {
            let out = copy_text(code);
            let diags: Vec<Diagnostic> = Vec::new();
            proof {
                assert(crate::statica_t::diag_views(diags@) =~= Seq::<
                    crate::statica_t::DiagnosticV,
                >::empty());
            }
            return (out, diags);
        },
    };
    let ls = lines(code);
    let unres = unresolved_names(dict, usage, &ls);
    if unres.len() > 0 {
        let mut diags: Vec<Diagnostic> = Vec::new();
        let n = unres.len();
        let mut i: usize = 0;
        while i < n
            invariant
                n == unres@.len(),
                0 <= i <= n,
                crate::statica_t::diag_views(diags@).len() == i,
                forall|k: int|
                    0 <= k < i ==> (#[trigger] crate::statica_t::diag_views(diags@)[k]).kind
                        == DiagnosticKind::UnresolvedProp && crate::statica_t::diag_views(
                        diags@,
                    )[k].html == views(unres@)[k] && crate::statica_t::diag_views(diags@)[k].meta
                        == data@.meta,
            decreases n - i,
        {
            let ghost dv0 = crate::statica_t::diag_views(diags@);
            let d = Diagnostic {
                kind: DiagnosticKind::UnresolvedProp,
                meta: data.meta.duplicate(),
                html: copy_text(&unres[i]),
            };
            let ghost d_v = d@;
            diags.push(d);
            proof {
                assert(crate::statica_t::diag_views(diags@) =~= dv0 + seq![d_v]);
                assert(views(unres@)[i as int] == unres@[i as int]@);
            }
            i += 1;
        }
        let out: Text = Vec::new();
        proof {
            assert(out@.len() == 0);
        }
        return (out, diags);
    }
    let record: Option<&DataEntry> = if render_index < records.for_each.len() {
        Some(&records.for_each[render_index])
    } else {
        None
    };
    let n = ls.len();
    let mut out: Text = Vec::new();
    let mut done: Vec<Text> = Vec::new();
    let ghost dict_v = dict@;
    let ghost usage_v = usage@;
    let ghost record_v: Option<DataEntryV> = match record {
        Some(rec) => Some(rec@),
        None => None,
    };
    proof {
        assert(views(ls@).skip(0) =~= views(ls@));
        assert(views(done@) =~= Seq::<Seq<char>>::empty());
        assert(out@ + resolve_lines_spec(views(ls@), dict_v, usage_v, record_v, views(done@))
            =~= resolve_lines_spec(views(ls@), dict_v, usage_v, record_v, Seq::empty()));
    }
    let mut i: usize = 0;
    while i < n
        invariant
            n == ls@.len(),
            0 <= i <= n,
            dict_v == dict@,
            usage_v == usage@,
            record_v == (match record {
                Some(rec) => Some(rec@),
                None => None,
            }),
            resolve_body_spec(code@, dict_v, usage_v, record_v) == lines_body_partial(
                views(ls@),
                dict_v,
                usage_v,
                record_v,
                out@,
                views(done@),
                i as int,
            ),
            lines_agree(code@, views(ls@)),
        decreases n - i,
    {
        let ghost out0 = out@;
        proof {
            let tail = views(ls@).skip(i as int);
            assert(tail[0] == ls@[i as int]@);
            assert(tail.drop_first() =~= views(ls@).skip(i as int + 1));
        }
        let ghost done0 = views(done@);
        let piece = resolve_line(&ls[i], dict, usage, record, &mut done);
        push_all(&mut out, &piece);
        proof {
            let step = resolve_line_spec(ls@[i as int]@, dict_v, usage_v, record_v, done0);
            assert(out@ =~= out0 + step.0);
            assert(out0 + (step.0 + resolve_lines_spec(
                views(ls@).skip(i as int + 1),
                dict_v,
                usage_v,
                record_v,
                step.1,
            )) =~= out@ + resolve_lines_spec(
                views(ls@).skip(i as int + 1),
                dict_v,
                usage_v,
                record_v,
                views(done@),
            ));
        }
        i += 1;
    }
    proof {
        assert(views(ls@).skip(n as int) =~= Seq::<Seq<char>>::empty());
        assert(out@ + resolve_lines_spec(
            Seq::<Seq<char>>::empty(),
            dict_v,
            usage_v,
            record_v,
            views(done@),
        ) =~= out@);
    }
    let diags: Vec<Diagnostic> = Vec::new();
    proof {
        assert(crate::statica_t::diag_views(diags@) =~= Seq::<
            crate::statica_t::DiagnosticV,
        >::empty());
    }
    (out, diags)
}

/// The invariant of the line loop: what is already emitted plus what the
/// remaining lines will emit, from the current insertion state.
pub open spec fn lines_body_partial(
    ls: Seq<Seq<char>>,
    dict: Seq<PropV>,
    usage: Seq<PropV>,
    record: Option<DataEntryV>,
    out: Seq<char>,
    done: Seq<Seq<char>>,
    i: int,
) -> Seq<char> {
    out + resolve_lines_spec(ls.skip(i), dict, usage, record, done)
}

/// The split lines of a code body are its `lines_spec`.
pub open spec fn lines_agree(code: Seq<char>, ls: Seq<Seq<char>>) -> bool {
    ls == lines_spec(code)
}


/// The resolution order of a prop value: a usage-supplied value wins, then
/// a default the usage carries, and only then the declared default; the
/// declared default is what resolves when the usage supplies nothing.
pub proof fn lemma_prop_resolution_order(declared: PropV, usage: Option<PropV>)
    ensures
        (match usage {
            Some(u) => u.value is Some ==> resolved_value_spec(declared, usage) == u.value,
            None => true,
        }),
        (match usage {
            Some(u) => (u.value is None && u.default is Some) ==> resolved_value_spec(
                declared,
                usage,
            ) == u.default,
            None => true,
        }),
        (match usage {
            Some(u) => (u.value is None && u.default is None) ==> resolved_value_spec(
                declared,
                usage,
            ) == declared.default,
            None => true,
        }),
        usage is None ==> resolved_value_spec(declared, usage) == declared.default,
{
}

} // verus!
