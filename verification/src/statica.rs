//! The component resolver and the top-level transform pipeline.

use vstd::prelude::*;

use crate::checksum::{scope_id, scope_id_spec};
use crate::props::{resolve_props, resolve_props_post, unresolved_names_spec};
use crate::scan::{
    consume_inner_html_inline, consume_tag_html, consume_until_end_token, evaluate_url,
    get_attrs_inline, get_attrs_inline_spec, get_props_dict, get_tag_name, get_valid_id,
    inline_inner_spec, is_uncommented, props_dict_spec, tag_inner, tag_inner_spec, tag_name_spec,
    token_before_comment, token_before_comment_spec,
};
use crate::scope::{transform_css, transform_css_spec, transform_script, transform_script_spec};
use crate::slots::{fill_component_slots, fill_component_slots_spec};
use crate::statica_t::{
    add_prop_spec, diag_views, map_has, map_insert_spec, map_lookup, map_remove_spec,
    prop_new_spec, props_render_spec, Data, DataEntry, DataEntryV, Diagnostic, DiagnosticKind,
    DiagnosticV, Directive, Linked, LinkedV, Meta, MetaV, Prop, PropMap, PropMeta, PropV, Proc,
    ProcV, Props, TransformOutput, Unlisted,
};
use crate::text::{
    contains, contains_spec, copy_text, find, find_spec, lines, lines_spec, push_all,
    starts_with, starts_with_spec, subtext, text_eq, trim, trim_spec, trim_start,
    trim_start_spec, views, Text,
};
use crate::tokens::{
    data_instance_tok, data_instance_text, data_name_tok, data_name_text, data_nested_tok,
    data_nested_text, data_scope_tok, data_scope_text, directive_source_tok,
    directive_source_text, false_lit_tok, false_lit_text, for_each_tok, for_each_text,
    style_end_tag_tok, style_end_tag_text, style_start_tok, style_start_text, script_end_tag_tok,
    script_end_tag_text, script_start_tok, script_start_text, template_end_tok,
    template_start_tok, template_start_text, true_lit_tok, true_lit_text,
};

verus! {

/// How a usage renders under its directives: the repeat directive is
/// stripped, a synthetic prop of its name is registered, and the render
/// expands to one pass per provider record if the name is declared.
pub open spec fn eval_directives_spec(proc: ProcV, usage: Seq<PropV>, data_len: usize) -> (
    int,
    Seq<PropV>,
) {
    let dict = match proc.props {
        Some(d) => d,
        None => Seq::<PropV>::empty(),
    };
    match map_lookup(usage, for_each_tok()) {
        Some(dp) => match dp.value {
            Some(body) => {
                let m1 = map_remove_spec(usage, dp.name);
                let np = PropV {
                    value: Some(Seq::<char>::empty()),
                    source: directive_source_tok(),
                    ..prop_new_spec(body)
                };
                let m2 = map_insert_spec(m1, np);
                if map_has(dict, body) {
                    (data_len as int, m2)
                } else {
                    (1, m2)
                }
            },
            None => (1, usage),
        },
        None => (1, usage),
    }
}

/// Evaluates component directives and passes directive props on to the
/// prop list.
pub fn evaluate_usage_directives(proc: &Proc, usage_props: PropMap, records: &Data) -> (r:
    Directive)
    requires
        crate::statica_t::data_wf(records),
    ensures
        r.render_count as int == eval_directives_spec(proc@, usage_props@, records.length).0,
        r.props@ == eval_directives_spec(proc@, usage_props@, records.length).1,
{
    let directive_name = for_each_text();
    let empty_dict = PropMap::new();
    let dict: &PropMap = match &proc.props {
        Some(d) => d,
        None => &empty_dict,
    };
    let mut map = usage_props;
    let found: Option<(Text, Text)> = match map.get(&directive_name) {
        Some(dp) => match &dp.value {
            Some(body) => Some((copy_text(&dp.name), copy_text(body))),
            None => None,
        },
        None => None,
    };
    match found {
        Some(pair) => {
            proof {
                crate::statica_t::lemma_map_lookup_name(map@, for_each_tok());
            }
            map.remove(&pair.0);
            let mut np = Prop::new(&pair.1);
            let empty_value: Text = Vec::new();
            np.value_mut(Some(empty_value));
            let source = directive_source_text();
            np.prop_meta_mut(PropMeta { source });
            proof {
                assert(np@ == (PropV {
                    value: Some(Seq::<char>::empty()),
                    source: directive_source_tok(),
                    ..prop_new_spec(pair.1@)
                }));
            }
            map.insert(np);
            if dict.contains_key(&pair.1) {
                Directive { render_count: records.length, props: map }
            } else {
                Directive { render_count: 1, props: map }
            }
        },
        None => Directive { render_count: 1, props: map },
    }
}

/// What one render pass yields.
pub struct RenderOut {
    pub html: Text,
    pub style: Option<Text>,
    pub script: Option<Text>,
    pub diagnostics: Vec<Diagnostic>,
}

/// The view of a render pass.
pub struct RenderV {
    pub html: Seq<char>,
    pub style: Option<Seq<char>>,
    pub script: Option<Seq<char>>,
    pub diags: Seq<DiagnosticV>,
}

/// The prop resolution of one pass, as a function of its inputs.
pub open spec fn resolve_props_fn(
    code: Seq<char>,
    proc: ProcV,
    record: Option<DataEntryV>,
) -> (Seq<char>, Seq<DiagnosticV>) {
    let dict = match proc.props {
        Some(d) => d,
        None => Seq::<PropV>::empty(),
    };
    match proc.usage_props {
        None => (code, Seq::empty()),
        Some(u) => {
            let unres = unresolved_names_spec(dict, u, lines_spec(code));
            if unres.len() > 0 {
                (
                    Seq::empty(),
                    unres.map_values(
                        |n: Seq<char>|
                            DiagnosticV {
                                kind: DiagnosticKind::UnresolvedProp,
                                meta: proc.meta,
                                html: n,
                            },
                    ),
                )
            } else {
                (crate::props::resolve_body_spec(code, dict, u, record), Seq::empty())
            }
        },
    }
}

/// The provider record a pass sees.
pub open spec fn record_at(records: &Data, render_index: usize) -> Option<DataEntryV> {
    if (render_index as int) < records.for_each@.len() {
        Some(records.for_each@[render_index as int]@)
    } else {
        None
    }
}

/// The four data attributes of an instance, rendered:
/// `data-x-scope="…" data-x-nested="…" data-x-name="…" data-x-instance="…"`.
pub open spec fn instance_attrs_spec(
    scope: Seq<char>,
    is_nested: bool,
    name: Seq<char>,
    ordinal: u64,
) -> Seq<char> {
    data_scope_tok() + seq!['=', '"'] + scope + seq!['"', ' '] + data_nested_tok() + seq!['=', '"']
        + (if is_nested {
        true_lit_tok()
    } else {
        false_lit_tok()
    }) + seq!['"', ' '] + data_name_tok() + seq!['=', '"'] + name + seq!['"', ' ']
        + data_instance_tok() + seq!['=', '"'] + crate::digits::dec_spec(ordinal as nat) + seq!['"']
}

/// Builds the four instance attributes.
pub fn instance_attrs(scope: &Text, is_nested: bool, name: &Text, ordinal: u64) -> (r: Text)
    ensures
        r@ == instance_attrs_spec(scope@, is_nested, name@, ordinal),
{
    let mut r = data_scope_text();
    r.push('=');
    r.push('"');
    push_all(&mut r, scope);
    r.push('"');
    r.push(' ');
    let dn = data_nested_text();
    push_all(&mut r, &dn);
    r.push('=');
    r.push('"');
    if is_nested {
        let t = true_lit_text();
        push_all(&mut r, &t);
    } else {
        let f = false_lit_text();
        push_all(&mut r, &f);
    }
    r.push('"');
    r.push(' ');
    let dname = data_name_text();
    push_all(&mut r, &dname);
    r.push('=');
    r.push('"');
    push_all(&mut r, name);
    r.push('"');
    r.push(' ');
    let dinst = data_instance_text();
    push_all(&mut r, &dinst);
    r.push('=');
    r.push('"');
    let num = crate::digits::u64_to_dec(ordinal);
    push_all(&mut r, &num);
    r.push('"');
    proof {
        assert(r@ =~= instance_attrs_spec(scope@, is_nested, name@, ordinal));
    }
    r
}

/// The style block of a pass: the `<style>`…`</style>` span of the inner
/// markup, if both ends stand there in order.
pub open spec fn style_span_spec(inner: Seq<char>) -> Option<Seq<char>> {
    match find_spec(inner, style_start_tok()) {
        Some(s0) => match find_spec(inner, style_end_tag_tok()) {
            Some(s1) => {
                if 0 <= s0 && s0 <= s1 && s1 + style_end_tag_tok().len() <= inner.len() {
                    Some(inner.subrange(s0, s1 + style_end_tag_tok().len()))
                } else {
                    None
                }
            },
            None => None,
        },
        None => None,
    }
}

/// The script block of a pass.
pub open spec fn script_span_spec(inner: Seq<char>) -> Option<Seq<char>> {
    match find_spec(inner, script_start_tok()) {
        Some(s0) => match find_spec(inner, script_end_tag_tok()) {
            Some(s1) => {
                if 0 <= s0 && s0 <= s1 && s1 + script_end_tag_tok().len() <= inner.len() {
                    Some(inner.subrange(s0, s1 + script_end_tag_tok().len()))
                } else {
                    None
                }
            },
            None => None,
        },
        None => None,
    }
}

fn find_span(inner: &Text, open_tok: &Text, close_tok: &Text) -> (r: Option<Text>)
    ensures
        ({
            let spec_r = match find_spec(inner@, open_tok@) {
                Some(s0) => match find_spec(inner@, close_tok@) {
                    Some(s1) => {
                        if 0 <= s0 && s0 <= s1 && s1 + close_tok@.len() <= inner@.len() {
                            Some(inner@.subrange(s0, s1 + close_tok@.len()))
                        } else {
                            None
                        }
                    },
                    None => None,
                },
                None => None,
            };
            match r {
                Some(t) => spec_r == Some(t@),
                None => spec_r is None,
            }
        }),
{
    let n = inner.len();
    match find(inner, open_tok) {
        Some(s0) => match find(inner, close_tok) {
            Some(s1) => {
                proof {
                    crate::text::lemma_find_from_in_range(inner@, close_tok@, 0);
                    assert(s1 + close_tok@.len() <= n);
                }
                if s0 <= s1 {
                    let span = subtext(inner, s0, s1 + close_tok.len());
                    Some(span)
                } else {
                    None
                }
            },
            None => None,
        },
        None => None,
    }
}

/// What resolving one component instance yields, over the views: the
/// rendered markup, the pooled style and script pieces, and the recorded
/// diagnostics.
#[verifier::opaque]
pub open spec fn resolve_component_spec(
    proc: ProcV,
    render_index: usize,
    is_nested: bool,
    records: &Data,
) -> RenderV {
    let c_code = match proc.usage_inner_html {
        Some(inner) => fill_component_slots_spec(proc.html, inner),
        None => proc.html,
    };
    let code = trim_start_spec(c_code);
    if !starts_with_spec(code, template_start_tok()) {
        RenderV {
            html: Seq::empty(),
            style: None,
            script: None,
            diags: seq![
                DiagnosticV {
                    kind: DiagnosticKind::MalformedComponent,
                    meta: proc.meta,
                    html: proc.html,
                },
            ],
        }
    } else {
        let is_fragment = proc.is_fragment == Some(true);
        let scope: Seq<char> = if is_fragment {
            Seq::empty()
        } else {
            scope_id_spec(code, proc.usage as nat)
        };
        let pr = resolve_props_fn(code, proc, record_at(records, render_index));
        if pr.1.len() > 0 {
            RenderV { html: Seq::empty(), style: None, script: None, diags: pr.1 }
        } else {
            let inner = tag_inner_spec(pr.0, template_end_tok());
            if inner.len() == 0 {
                RenderV { html: Seq::empty(), style: None, script: None, diags: Seq::empty() }
            } else {
                let style_piece: Option<Seq<char>> = match style_span_spec(inner) {
                    Some(span) => Some(transform_css_spec(span, scope)),
                    None => None,
                };
                let tags1 = match style_span_spec(inner) {
                    Some(span) => crate::scan::replace_chunk_spec(inner, span, Seq::empty()),
                    None => inner,
                };
                let script_piece: Option<Seq<char>> = match script_span_spec(inner) {
                    Some(span) => Some(transform_script_spec(span, scope, proc.usage)),
                    None => None,
                };
                let tags = match script_span_spec(inner) {
                    Some(span) => crate::scan::replace_chunk_spec(tags1, span, Seq::empty()),
                    None => tags1,
                };
                if is_fragment {
                    RenderV { html: tags, style: style_piece, script: script_piece, diags: Seq::empty() }
                } else if !crate::scan::has_root_spec(tags) {
                    let attrs = instance_attrs_spec(scope, is_nested, proc.meta.name, proc.usage);
                    let html = seq!['<', 'd', 'i', 'v', ' '] + attrs + seq!['>'] + tags + seq![
                        '<',
                        '/',
                        'd',
                        'i',
                        'v',
                        '>',
                    ];
                    RenderV { html: html, style: style_piece, script: script_piece, diags: Seq::empty() }
                } else {
                    let troot = trim_start_spec(tags);
                    let root_line = crate::scan::first_line_spec(troot);
                    match tag_name_spec(root_line) {
                        Some(name) => {
                            let attrs0 = get_attrs_inline_spec(root_line);
                            let a1 = add_prop_spec(attrs0, data_scope_tok(), Some(scope));
                            let a2 = add_prop_spec(
                                a1,
                                data_nested_tok(),
                                Some(
                                    if is_nested {
                                        true_lit_tok()
                                    } else {
                                        false_lit_tok()
                                    },
                                ),
                            );
                            let a3 = add_prop_spec(a2, data_name_tok(), Some(proc.meta.name));
                            let a4 = add_prop_spec(
                                a3,
                                data_instance_tok(),
                                Some(crate::digits::dec_spec(proc.usage as nat)),
                            );
                            let root_attrs = props_render_spec(a4);
                            let inner2 = tag_inner_spec(troot, seq!['<', '/'] + name);
                            let html = seq!['<'] + name + seq![' '] + trim_spec(root_attrs)
                                + seq!['>'] + inner2 + seq!['<', '/'] + name + seq!['>'];
                            RenderV {
                                html: html,
                                style: style_piece,
                                script: script_piece,
                                diags: Seq::empty(),
                            }
                        },
                        None => RenderV {
                            html: Seq::empty(),
                            style: style_piece,
                            script: script_piece,
                            diags: Seq::empty(),
                        },
                    }
                }
            }
        }
    }
}

/// Renders one component instance: fills slots, validates the template
/// shape, resolves props, extracts style and script for pooling, and
/// wraps or decorates the root with the four instance attributes.
#[verifier::rlimit(100)]
#[verifier::spinoff_prover]
pub fn resolve_component(data: &Proc, render_index: usize, is_nested: bool, records: &Data) -> (r:
    RenderOut)
    ensures
        ({
            let spec_r = resolve_component_spec(data@, render_index, is_nested, records);
            &&& r.html@ == spec_r.html
            &&& (match r.style {
                Some(ref s) => spec_r.style == Some(s@),
                None => spec_r.style is None,
            })
            &&& (match r.script {
                Some(ref s) => spec_r.script == Some(s@),
                None => spec_r.script is None,
            })
            &&& diag_views(r.diagnostics@) == spec_r.diags
        }),
{
    proof {
        reveal(resolve_component_spec);
    }
    let c_code: Text = match &data.usage_inner_html {
        Some(inner) => fill_component_slots(&data.html, inner),
        None => copy_text(&data.html),
    };
    let code = trim_start(&c_code);
    let template_open = template_start_text();
    if !starts_with(&code, &template_open) {
        let d = Diagnostic {
            kind: DiagnosticKind::MalformedComponent,
            meta: data.meta.duplicate(),
            html: copy_text(&data.html),
        };
        let mut diags: Vec<Diagnostic> = Vec::new();
        diags.push(d);
        proof {
            assert(diag_views(diags@) =~= resolve_component_spec(
                data@,
                render_index,
                is_nested,
                records,
            ).diags);
        }
        return RenderOut { html: Vec::new(), style: None, script: None, diagnostics: diags };
    }
    let is_fragment = match &data.is_fragment {
        Some(b) => *b,
        None => false,
    };
    proof {
        assert(is_fragment == (data@.is_fragment == Some(true)));
    }
    let scope: Text = if is_fragment {
        Vec::new()
    } else {
        scope_id(&code, data.usage)
    };
    proof {
        if is_fragment {
            assert(scope@ =~= Seq::<char>::empty());
        }
    }
    let pr = resolve_props(&code, data, render_index, records);
    proof {
        lemma_resolve_props_fn(code@, data@, record_at(records, render_index), pr.0@, diag_views(
            pr.1@,
        ));
    }
    if pr.1.len() > 0 {
        return RenderOut { html: Vec::new(), style: None, script: None, diagnostics: pr.1 };
    }
    let template_close_part = crate::tokens::template_end_text();
    let inner = tag_inner(&pr.0, &template_close_part);
    if inner.len() == 0 {
        let diags: Vec<Diagnostic> = Vec::new();
        proof {
            assert(diag_views(diags@) =~= Seq::<DiagnosticV>::empty());
        }
        return RenderOut { html: Vec::new(), style: None, script: None, diagnostics: diags };
    }
    let style_open = style_start_text();
    let style_close = style_end_tag_text();
    let style_span = find_span(&inner, &style_open, &style_close);
    let empty_text: Text = Vec::new();
    proof {
        assert(empty_text@ =~= Seq::<char>::empty());
    }
    let (style_piece, tags1): (Option<Text>, Text) = match style_span {
        Some(span) => {
            let css = transform_css(&span, &scope);
            let t = crate::scan::replace_chunk(&inner, &span, &empty_text);
            (Some(css), t)
        },
        None => (None, copy_text(&inner)),
    };
    let script_open = script_start_text();
    let script_close = script_end_tag_text();
    let script_span = find_span(&inner, &script_open, &script_close);
    let (script_piece, tags): (Option<Text>, Text) = match script_span {
        Some(span) => {
            let js = transform_script(&span, &scope, data.usage);
            let t = crate::scan::replace_chunk(&tags1, &span, &empty_text);
            (Some(js), t)
        },
        None => (None, tags1),
    };
    let diags: Vec<Diagnostic> = Vec::new();
    proof {
        assert(diag_views(diags@) =~= Seq::<DiagnosticV>::empty());
    }
    if is_fragment {
        return RenderOut { html: tags, style: style_piece, script: script_piece, diagnostics: diags };
    }
    if !crate::scan::has_root_node(&tags) {
        let attrs = instance_attrs(&scope, is_nested, &data.meta.name, data.usage);
        let mut html = crate::text::text_of_str("<div ");
        proof {
            reveal_strlit("<div ");
            assert(html@ =~= seq!['<', 'd', 'i', 'v', ' ']);
        }
        push_all(&mut html, &attrs);
        html.push('>');
        push_all(&mut html, &tags);
        let close_div = crate::text::text_of_str("</div>");
        proof {
            reveal_strlit("</div>");
            assert(close_div@ =~= seq!['<', '/', 'd', 'i', 'v', '>']);
        }
        push_all(&mut html, &close_div);
        proof {
            assert(html@ =~= resolve_component_spec(data@, render_index, is_nested, records).html);
        }
        return RenderOut { html, style: style_piece, script: script_piece, diagnostics: diags };
    }
    let troot = trim_start(&tags);
    let root_lines = lines(&troot);
    let root_line: Text = if root_lines.len() == 0 {
        Vec::new()
    } else {
        copy_text(&root_lines[0])
    };
    proof {
        if root_lines@.len() == 0 {
            assert(root_line@ =~= Seq::<char>::empty());
        } else {
            assert(views(root_lines@)[0] == root_lines@[0]@);
        }
        assert(root_line@ == crate::scan::first_line_spec(trim_start_spec(tags@)));
    }
    match get_tag_name(&root_line) {
        Some(name) => {
            let attrs0 = get_attrs_inline(&root_line);
            let mut props = Props::new(attrs0);
            let ds = data_scope_text();
            props.add_prop(&ds, Some(copy_text(&scope)));
            let dn = data_nested_text();
            let nested_value: Text = if is_nested {
                true_lit_text()
            } else {
                false_lit_text()
            };
            props.add_prop(&dn, Some(nested_value));
            let dname = data_name_text();
            props.add_prop(&dname, Some(copy_text(&data.meta.name)));
            let dinst = data_instance_text();
            let num = crate::digits::u64_to_dec(data.usage);
            props.add_prop(&dinst, Some(num));
            let root_attrs = props.to_string();
            let mut close_tag: Text = Vec::new();
            close_tag.push('<');
            close_tag.push('/');
            push_all(&mut close_tag, &name);
            assert(close_tag@ =~= seq!['<', '/'] + name@);
            let inner2 = tag_inner(&troot, &close_tag);
            let mut html: Text = Vec::new();
            html.push('<');
            push_all(&mut html, &name);
            html.push(' ');
            let trimmed_attrs = trim(&root_attrs);
            push_all(&mut html, &trimmed_attrs);
            html.push('>');
            push_all(&mut html, &inner2);
            push_all(&mut html, &close_tag);
            html.push('>');
            proof {
                assert(html@ =~= resolve_component_spec(
                    data@,
                    render_index,
                    is_nested,
                    records,
                ).html);
            }
            RenderOut { html, style: style_piece, script: script_piece, diagnostics: diags }
        },
        None => {
            RenderOut { html: Vec::new(), style: style_piece, script: script_piece, diagnostics: diags }
        },
    }
}

/// The relational contract of the prop resolver pins exactly the
/// functional form used by the component resolver.
proof fn lemma_resolve_props_fn(
    code: Seq<char>,
    proc: ProcV,
    record: Option<DataEntryV>,
    out: Seq<char>,
    diags: Seq<DiagnosticV>,
)
    requires
        resolve_props_post(code, proc, record, out, diags),
    ensures
        out == resolve_props_fn(code, proc, record).0,
        diags == resolve_props_fn(code, proc, record).1,
{
    let dict = match proc.props {
        Some(d) => d,
        None => Seq::<PropV>::empty(),
    };
    match proc.usage_props {
        None => {
            assert(diags =~= Seq::<DiagnosticV>::empty());
        },
        Some(u) => {
            let unres = unresolved_names_spec(dict, u, lines_spec(code));
            if unres.len() > 0 {
                assert(out =~= Seq::<char>::empty());
                assert(diags =~= unres.map_values(
                    |n: Seq<char>|
                        DiagnosticV {
                            kind: DiagnosticKind::UnresolvedProp,
                            meta: proc.meta,
                            html: n,
                        },
                ));
            } else {
                assert(diags =~= Seq::<DiagnosticV>::empty());
            }
        },
    }
}


/// Everything a usage site yields across its render passes.
pub struct ComponentOut {
    pub html: Text,
    pub next: usize,
    pub styles: Vec<Text>,
    pub scripts: Vec<Text>,
    pub diagnostics: Vec<Diagnostic>,
}

/// The view of all render passes: markup, pooled pieces and diagnostics
/// concatenated in pass order.
pub struct RenderAllV {
    pub html: Seq<char>,
    pub styles: Seq<Seq<char>>,
    pub scripts: Seq<Seq<char>>,
    pub diags: Seq<DiagnosticV>,
}

/// A pooled piece as a sequence: one element when present.
pub open spec fn opt_piece(o: Option<Seq<char>>) -> Seq<Seq<char>> {
    match o {
        Some(s) => seq![s],
        None => Seq::empty(),
    }
}

/// The passes `k..count` of one usage, concatenated: the directive demands
/// exactly one rendered instance per pass, each seeing its own record.
#[verifier::opaque]
pub open spec fn render_passes_spec(
    proc: ProcV,
    k: int,
    count: int,
    is_nested: bool,
    records: &Data,
) -> RenderAllV
    decreases count - k + 1,
{
    if k < 0 || k >= count || count > usize::MAX {
        RenderAllV {
            html: Seq::empty(),
            styles: Seq::empty(),
            scripts: Seq::empty(),
            diags: Seq::empty(),
        }
    } else {
        let one = resolve_component_spec(proc, k as usize, is_nested, records);
        let rest = render_passes_spec(proc, k + 1, count, is_nested, records);
        RenderAllV {
            html: one.html + rest.html,
            styles: opt_piece(one.style) + rest.styles,
            scripts: opt_piece(one.script) + rest.scripts,
            diags: one.diags + rest.diags,
        }
    }
}

/// The next line the scanner reads after a terminator at `stop`.
pub open spec fn after_stop(stop: int, len: int) -> int {
    if stop < len {
        stop + 1
    } else {
        len
    }
}

/// The processing state after a usage site's bookkeeping: the fragment
/// flag and declared dictionary read off the definition, the directive
/// evaluated over the usage attributes.
pub open spec fn component_setup_spec(proc: ProcV, records: &Data) -> (ProcV, int) {
    let usage = match proc.usage_html {
        Some(u) => u,
        None => Seq::<char>::empty(),
    };
    let attrs = get_attrs_inline_spec(proc.html);
    let frag = match map_lookup(attrs, crate::tokens::data_fragment_tok()) {
        Some(a) => match a.value {
            Some(v) => v == true_lit_tok(),
            None => false,
        },
        None => false,
    };
    let dict = match map_lookup(attrs, crate::tokens::data_props_tok()) {
        Some(p) => match p.value {
            Some(v) => props_dict_spec(v),
            None => Seq::<PropV>::empty(),
        },
        None => Seq::<PropV>::empty(),
    };
    let usage_attrs = get_attrs_inline_spec(usage);
    let proc1 = ProcV { is_fragment: Some(frag), props: Some(dict), ..proc };
    let dir = eval_directives_spec(proc1, usage_attrs, records.length);
    let proc2 = ProcV { usage_props: Some(dir.1), ..proc1 };
    (proc2, dir.0)
}

/// What one usage site compiles to: the processing state after
/// bookkeeping, the rendered passes by tag shape, and the next line.
#[verifier::opaque]
pub open spec fn transform_component_spec(
    ls: Seq<Seq<char>>,
    i: int,
    proc: ProcV,
    is_nested: bool,
    records: &Data,
) -> (RenderAllV, int, ProcV) {
    let usage = match proc.usage_html {
        Some(u) => u,
        None => Seq::<char>::empty(),
    };
    let setup = component_setup_spec(proc, records);
    let proc2 = setup.0;
    let count = setup.1;
    let id = proc.meta.name;
    let tag_open = contains_spec(usage, seq!['<'] + id);
    let tag_close = contains_spec(usage, seq!['<', '/'] + id);
    let unpaired = contains_spec(usage, crate::tokens::unpaired_close_tok());
    if tag_open && unpaired {
        (render_passes_spec(proc2, 0, count, is_nested, records), i + 1, proc2)
    } else if tag_open && !unpaired && !tag_close {
        let c = crate::scan::consume_until_spec(ls, i + 1, id);
        if !c.0 {
            (
                render_passes_spec(proc2, 0, count, is_nested, records),
                after_stop(c.2, ls.len() as int),
                proc2,
            )
        } else {
            let proc3 = ProcV { usage_inner_html: Some(c.1), ..proc2 };
            (
                render_passes_spec(proc3, 0, count, is_nested, records),
                after_stop(c.2, ls.len() as int),
                proc3,
            )
        }
    } else if tag_open && tag_close {
        let proc3 = ProcV { usage_inner_html: inline_inner_spec(usage), ..proc2 };
        (render_passes_spec(proc3, 0, count, is_nested, records), i + 1, proc3)
    } else {
        (
            RenderAllV {
                html: usage,
                styles: Seq::empty(),
                scripts: Seq::empty(),
                diags: Seq::empty(),
            },
            i + 1,
            proc2,
        )
    }
}

#[verifier::rlimit(100)]
#[verifier::spinoff_prover]
fn render_passes(data: &Proc, count: usize, is_nested: bool, records: &Data) -> (r: (
    Text,
    Vec<Text>,
    Vec<Text>,
    Vec<Diagnostic>,
))
    ensures
        ({
            let spec_r = render_passes_spec(data@, 0, count as int, is_nested, records);
            &&& r.0@ == spec_r.html
            &&& views(r.1@) == spec_r.styles
            &&& views(r.2@) == spec_r.scripts
            &&& diag_views(r.3@) == spec_r.diags
        }),
{
    let mut html: Text = Vec::new();
    let mut styles: Vec<Text> = Vec::new();
    let mut scripts: Vec<Text> = Vec::new();
    let mut diags: Vec<Diagnostic> = Vec::new();
    proof {
        reveal(render_passes_spec);
        assert(html@ + render_passes_spec(data@, 0, count as int, is_nested, records).html
            =~= render_passes_spec(data@, 0, count as int, is_nested, records).html);
        assert(views(styles@) + render_passes_spec(
            data@,
            0,
            count as int,
            is_nested,
            records,
        ).styles =~= render_passes_spec(data@, 0, count as int, is_nested, records).styles);
        assert(views(scripts@) + render_passes_spec(
            data@,
            0,
            count as int,
            is_nested,
            records,
        ).scripts =~= render_passes_spec(data@, 0, count as int, is_nested, records).scripts);
        assert(diag_views(diags@) + render_passes_spec(
            data@,
            0,
            count as int,
            is_nested,
            records,
        ).diags =~= render_passes_spec(data@, 0, count as int, is_nested, records).diags);
    }
    let mut k: usize = 0;
    while k < count
        invariant
            0 <= k <= count,
            render_passes_spec(data@, 0, count as int, is_nested, records).html == html@
                + render_passes_spec(data@, k as int, count as int, is_nested, records).html,
            render_passes_spec(data@, 0, count as int, is_nested, records).styles == views(styles@)
                + render_passes_spec(data@, k as int, count as int, is_nested, records).styles,
            render_passes_spec(data@, 0, count as int, is_nested, records).scripts == views(
                scripts@,
            ) + render_passes_spec(data@, k as int, count as int, is_nested, records).scripts,
            render_passes_spec(data@, 0, count as int, is_nested, records).diags == diag_views(
                diags@,
            ) + render_passes_spec(data@, k as int, count as int, is_nested, records).diags,
        decreases count - k,
    {
        let ghost html0 = html@;
        let ghost styles0 = views(styles@);
        let ghost scripts0 = views(scripts@);
        let ghost diags0 = diag_views(diags@);
        let one = resolve_component(data, k, is_nested, records);
        push_all(&mut html, &one.html);
        match one.style {
            Some(s) => {
                styles.push(s);
            },
            None => {},
        }
        match one.script {
            Some(s) => {
                scripts.push(s);
            },
            None => {},
        }
        let mut d = one.diagnostics;
        let mut m: usize = 0;
        let ghost d_v = diag_views(d@);
        while m < d.len()
            invariant
                0 <= m <= d@.len(),
                d_v == diag_views(d@),
                diag_views(diags@) == diags0 + diag_views(d@).take(m as int),
            decreases d@.len() - m,
        {
            let ghost before = diag_views(diags@);
            let item = Diagnostic {
                kind: d[m].kind,
                meta: d[m].meta.duplicate(),
                html: copy_text(&d[m].html),
            };
            proof {
                assert(item@ == diag_views(d@)[m as int]);
            }
            diags.push(item);
            proof {
                assert(diag_views(diags@) =~= before + seq![diag_views(d@)[m as int]]);
                assert(before + seq![diag_views(d@)[m as int]] =~= diags0 + diag_views(d@).take(
                    m as int + 1,
                ));
            }
            m += 1;
        }
        proof {
            reveal(render_passes_spec);
            let one_spec = resolve_component_spec(data@, k, is_nested, records);
            let step = render_passes_spec(data@, k as int, count as int, is_nested, records);
            let rest = render_passes_spec(data@, k as int + 1, count as int, is_nested, records);
            assert(diag_views(d@).take(d@.len() as int) =~= diag_views(d@));
            assert(html@ =~= html0 + one_spec.html);
            assert(html0 + (one_spec.html + rest.html) =~= html@ + rest.html);
            assert(views(styles@) =~= styles0 + opt_piece(one_spec.style));
            assert(styles0 + (opt_piece(one_spec.style) + rest.styles) =~= views(styles@)
                + rest.styles);
            assert(views(scripts@) =~= scripts0 + opt_piece(one_spec.script));
            assert(scripts0 + (opt_piece(one_spec.script) + rest.scripts) =~= views(scripts@)
                + rest.scripts);
            assert(diag_views(diags@) =~= diags0 + one_spec.diags);
            assert(diags0 + (one_spec.diags + rest.diags) =~= diag_views(diags@) + rest.diags);
        }
        k += 1;
    }
    proof {
        reveal(render_passes_spec);
        let fin = render_passes_spec(data@, count as int, count as int, is_nested, records);
        assert(fin.html =~= Seq::<char>::empty());
        assert(fin.styles =~= Seq::<Seq<char>>::empty());
        assert(fin.scripts =~= Seq::<Seq<char>>::empty());
        assert(fin.diags =~= Seq::<DiagnosticV>::empty());
        assert(html@ + Seq::<char>::empty() =~= html@);
        assert(views(styles@) + Seq::<Seq<char>>::empty() =~= views(styles@));
        assert(views(scripts@) + Seq::<Seq<char>>::empty() =~= views(scripts@));
        assert(diag_views(diags@) + Seq::<DiagnosticV>::empty() =~= diag_views(diags@));
    }
    (html, styles, scripts, diags)
}

/// Replaces one usage site with the code its render passes generate.
pub fn transform_component(
    ls: &Vec<Text>,
    i: usize,
    data: &mut Proc,
    is_nested: bool,
    records: &Data,
) -> (r: ComponentOut)
    requires
        i < ls@.len(),
        crate::statica_t::data_wf(records),
    ensures
        ({
            let spec_r = transform_component_spec(
                views(ls@),
                i as int,
                old(data)@,
                is_nested,
                records,
            );
            &&& r.html@ == spec_r.0.html
            &&& views(r.styles@) == spec_r.0.styles
            &&& views(r.scripts@) == spec_r.0.scripts
            &&& diag_views(r.diagnostics@) == spec_r.0.diags
            &&& r.next as int == spec_r.1
            &&& final(data)@ == spec_r.2
            &&& i < r.next <= ls@.len()
        }),
{
    let n_lines = ls.len();
    proof {
        reveal(transform_component_spec);
        assert(i < n_lines);
    }
    let usage_html: Text = match &data.usage_html {
        Some(u) => copy_text(u),
        None => Vec::new(),
    };
    proof {
        match old(data)@.usage_html {
            Some(_) => {},
            None => {
                assert(usage_html@ =~= Seq::<char>::empty());
            },
        }
    }
    let attrs = get_attrs_inline(&data.html);
    let frag_name = crate::tokens::data_fragment_text();
    let is_fragment: bool = match attrs.get(&frag_name) {
        Some(a) => match &a.value {
            Some(v) => {
                let t = true_lit_text();
                text_eq(v, &t)
            },
            None => false,
        },
        None => false,
    };
    data.is_fragment_mut(Some(is_fragment));
    let props_name = crate::tokens::data_props_text();
    let dict: PropMap = match attrs.get(&props_name) {
        Some(p) => match &p.value {
            Some(v) => get_props_dict(Some(v)),
            None => PropMap::new(),
        },
        None => PropMap::new(),
    };
    proof {
        assert(dict@ == (match map_lookup(get_attrs_inline_spec(old(data)@.html), crate::tokens::data_props_tok()) {
            Some(p) => match p.value {
                Some(v) => props_dict_spec(v),
                None => Seq::<PropV>::empty(),
            },
            None => Seq::<PropV>::empty(),
        }));
    }
    data.props_mut(Some(dict));
    let usage_attrs = get_attrs_inline(&usage_html);
    let directive = evaluate_usage_directives(data, usage_attrs, records);
    data.usage_props_mut(Some(directive.props));
    let render_count = directive.render_count;
    proof {
        let setup = component_setup_spec(old(data)@, records);
        assert(data@ == setup.0);
        assert(render_count as int == setup.1);
    }
    let mut ctag_open: Text = Vec::new();
    ctag_open.push('<');
    push_all(&mut ctag_open, &data.meta.name);
    assert(ctag_open@ =~= seq!['<'] + old(data)@.meta.name);
    let mut ctag_close: Text = Vec::new();
    ctag_close.push('<');
    ctag_close.push('/');
    push_all(&mut ctag_close, &data.meta.name);
    assert(ctag_close@ =~= seq!['<', '/'] + old(data)@.meta.name);
    let unpaired_tok = crate::tokens::unpaired_close_text();
    let tag_open = contains(&usage_html, &ctag_open);
    let tag_close = contains(&usage_html, &ctag_close);
    let unpaired = contains(&usage_html, &unpaired_tok);
    if tag_open && unpaired {
        let passes = render_passes(data, render_count, is_nested, records);
        ComponentOut {
            html: passes.0,
            next: i + 1,
            styles: passes.1,
            scripts: passes.2,
            diagnostics: passes.3,
        }
    } else if tag_open && !unpaired && !tag_close {
        let c = consume_until_end_token(ls, i + 1, &data.meta.name);
        let stop = c.2;
        let next: usize = if stop < ls.len() {
            stop + 1
        } else {
            ls.len()
        };
        if !c.0 {
            let passes = render_passes(data, render_count, is_nested, records);
            ComponentOut {
                html: passes.0,
                next,
                styles: passes.1,
                scripts: passes.2,
                diagnostics: passes.3,
            }
        } else {
            data.usage_inner_html_mut(Some(c.1));
            let passes = render_passes(data, render_count, is_nested, records);
            ComponentOut {
                html: passes.0,
                next,
                styles: passes.1,
                scripts: passes.2,
                diagnostics: passes.3,
            }
        }
    } else if tag_open && tag_close {
        let inner = consume_inner_html_inline(&usage_html);
        data.usage_inner_html_mut(inner);
        let passes = render_passes(data, render_count, is_nested, records);
        ComponentOut {
            html: passes.0,
            next: i + 1,
            styles: passes.1,
            scripts: passes.2,
            diagnostics: passes.3,
        }
    } else {
        let styles: Vec<Text> = Vec::new();
        let scripts: Vec<Text> = Vec::new();
        let diags: Vec<Diagnostic> = Vec::new();
        proof {
            assert(views(styles@) =~= Seq::<Seq<char>>::empty());
            assert(views(scripts@) =~= Seq::<Seq<char>>::empty());
            assert(diag_views(diags@) =~= Seq::<DiagnosticV>::empty());
        }
        ComponentOut {
            html: usage_html,
            next: i + 1,
            styles,
            scripts,
            diagnostics: diags,
        }
    }
}


/// The filesystem snapshot the host hands in: path and content of every
/// file a compile may read. Reading a path means looking it up here.
pub struct FileStore {
    pub files: Vec<(Text, Text)>,
}

impl FileStore {
    /// An empty snapshot.
    pub fn new() -> (r: FileStore)
        ensures
            crate::slots::pair_views(r.files@) == Seq::<(Seq<char>, Seq<char>)>::empty(),
    {
        let r = FileStore { files: Vec::new() };
        proof {
            assert(crate::slots::pair_views(r.files@) =~= Seq::<(Seq<char>, Seq<char>)>::empty());
        }
        r
    }

    /// Reads a file's content out of the snapshot.
    pub fn read(&self, path: &Text) -> (r: Option<Text>)
        ensures
            match r {
                Some(t) => crate::statica_t::record_lookup(
                    crate::slots::pair_views(self.files@),
                    path@,
                ) == Some(t@),
                None => crate::statica_t::record_lookup(
                    crate::slots::pair_views(self.files@),
                    path@,
                ) is None,
            },
    {
        let n = self.files.len();
        proof {
            assert(crate::slots::pair_views(self.files@).skip(0) =~= crate::slots::pair_views(
                self.files@,
            ));
        }
        let mut i: usize = 0;
        while i < n
            invariant
                n == self.files@.len(),
                0 <= i <= n,
                crate::statica_t::record_lookup(crate::slots::pair_views(self.files@), path@)
                    == crate::statica_t::record_lookup(
                    crate::slots::pair_views(self.files@).skip(i as int),
                    path@,
                ),
            decreases n - i,
        {
            proof {
                let tail = crate::slots::pair_views(self.files@).skip(i as int);
                assert(tail[0] == crate::slots::pair_views(self.files@)[i as int]);
                assert(crate::slots::pair_views(self.files@)[i as int] == (
                    self.files@[i as int].0@,
                    self.files@[i as int].1@,
                ));
                assert(tail.drop_first() =~= crate::slots::pair_views(self.files@).skip(
                    i as int + 1,
                ));
            }
            if text_eq(&self.files[i].0, path) {
                return Some(copy_text(&self.files[i].1));
            }
            i += 1;
        }
        proof {
            assert(crate::slots::pair_views(self.files@).skip(n as int) =~= Seq::<
                (Seq<char>, Seq<char>),
            >::empty());
        }
        None
    }

    /// Whether a path exists in the snapshot.
    pub fn has_path(&self, path: &Text) -> (r: bool)
        ensures
            r == (crate::statica_t::record_lookup(
                crate::slots::pair_views(self.files@),
                path@,
            ) is Some),
    {
        self.read(path).is_some()
    }
}

/// The views of registered-but-unused definitions.
pub open spec fn unl_views(s: Seq<Unlisted>) -> Seq<crate::statica_t::UnlistedV> {
    s.map_values(|u: Unlisted| u@)
}

/// The warning recorded for each definition never used.
pub open spec fn unused_diags_spec(us: Seq<crate::statica_t::UnlistedV>) -> Seq<DiagnosticV> {
    us.map_values(
        |u: crate::statica_t::UnlistedV|
            DiagnosticV { kind: DiagnosticKind::UnusedComponent, meta: u.meta, html: u.html },
    )
}

/// An ordinary line: already trimmed, and matching none of the scanner's
/// special rules (asset link, comment, template, link tag, component tag).
pub open spec fn plain_line_spec(line: Seq<char>) -> bool {
    &&& line.len() > 0
    &&& trim_start_spec(line) == line
    &&& crate::text::trim_end_spec(line) == line
    &&& !(contains_spec(line, crate::tokens::rel_attr_tok()) && contains_spec(
        line,
        crate::tokens::href_attr_tok(),
    ))
    &&& !contains_spec(line, crate::tokens::src_attr_tok())
    &&& !starts_with_spec(line, crate::tokens::comment_start_tok())
    &&& !contains_spec(line, template_start_tok())
    &&& !starts_with_spec(line, crate::tokens::link_start_tok())
    &&& !starts_with_spec(line, crate::tokens::component_tag_start_tok())
}

/// A trimmed usage of a component tag, with no other rule applying.
pub open spec fn undef_line_spec(line: Seq<char>) -> bool {
    &&& line.len() > 0
    &&& trim_start_spec(line) == line
    &&& crate::text::trim_end_spec(line) == line
    &&& !(contains_spec(line, crate::tokens::rel_attr_tok()) && contains_spec(
        line,
        crate::tokens::href_attr_tok(),
    ))
    &&& !contains_spec(line, crate::tokens::src_attr_tok())
    &&& !starts_with_spec(line, crate::tokens::comment_start_tok())
    &&& !contains_spec(line, template_start_tok())
    &&& !starts_with_spec(line, crate::tokens::link_start_tok())
    &&& starts_with_spec(line, crate::tokens::component_tag_start_tok())
    &&& token_before_comment_spec(line, crate::tokens::component_tag_start_tok())
    &&& tag_name_spec(line) is Some
}

/// A trimmed one-line comment: copied verbatim, and its opener silences
/// every other rule on the line.
pub open spec fn plain_comment_line(line: Seq<char>) -> bool {
    &&& line.len() > 0
    &&& trim_start_spec(line) == line
    &&& crate::text::trim_end_spec(line) == line
    &&& starts_with_spec(line, crate::tokens::comment_start_tok())
    &&& contains_spec(line, crate::tokens::comment_end_tok())
}

/// A line the scanner copies: empty, plain, or a one-line comment.
pub open spec fn empty_or_plain(line: Seq<char>) -> bool {
    line.len() == 0 || plain_line_spec(line) || plain_comment_line(line)
}

/// All lines from `i` on are copied verbatim.
pub open spec fn all_plain(ls: Seq<Seq<char>>, i: int) -> bool {
    forall|j: int| i <= j < ls.len() ==> empty_or_plain(#[trigger] ls[j])
}

/// All lines from `i` on are copied verbatim or are undefined component
/// usages.
pub open spec fn all_semi(ls: Seq<Seq<char>>, i: int) -> bool {
    forall|j: int| i <= j < ls.len() ==> empty_or_plain(#[trigger] ls[j]) || undef_line_spec(ls[j])
}

/// The compiled text of a copy-or-drop suffix: plain lines pass, undefined
/// component usages vanish.
pub open spec fn plain_code_spec(ls: Seq<Seq<char>>, i: int) -> Seq<char>
    decreases ls.len() - i + 1,
{
    if i < 0 || i >= ls.len() {
        Seq::empty()
    } else if undef_line_spec(ls[i]) {
        plain_code_spec(ls, i + 1)
    } else {
        ls[i] + seq!['\n'] + plain_code_spec(ls, i + 1)
    }
}

/// The undefined component usages of a suffix, in order.
pub open spec fn undef_lines_spec(ls: Seq<Seq<char>>, i: int) -> Seq<Seq<char>>
    decreases ls.len() - i + 1,
{
    if i < 0 || i >= ls.len() {
        Seq::empty()
    } else if undef_line_spec(ls[i]) {
        seq![ls[i]] + undef_lines_spec(ls, i + 1)
    } else {
        undef_lines_spec(ls, i + 1)
    }
}


/// A line counter raised by `d`, held at the top instead of wrapping.
pub open spec fn ln_next(ln: usize, d: int) -> usize {
    if ln + d <= usize::MAX {
        (ln + d) as usize
    } else {
        usize::MAX
    }
}

/// Raises a line counter without ever wrapping.
fn ln_add(ln: usize, d: usize) -> (r: usize)
    ensures
        r == ln_next(ln, d as int),
        r >= ln,
{
    if ln <= usize::MAX - d {
        ln + d
    } else {
        usize::MAX
    }
}

fn append_texts(a: &mut Vec<Text>, b: Vec<Text>)
    ensures
        views(final(a)@) == views(old(a)@) + views(b@),
{
    let mut other = b;
    let ghost b0 = other@;
    a.append(&mut other);
    proof {
        assert(views(a@) =~= views(old(a)@) + views(b0));
    }
}

fn append_diags(a: &mut Vec<Diagnostic>, b: Vec<Diagnostic>)
    ensures
        diag_views(final(a)@) == diag_views(old(a)@) + diag_views(b@),
{
    let mut other = b;
    let ghost b0 = other@;
    a.append(&mut other);
    proof {
        assert(diag_views(a@) =~= diag_views(old(a)@) + diag_views(b0));
    }
}

fn append_linked(a: &mut Vec<Linked>, b: Vec<Linked>)
    ensures
        crate::statica_t::linked_views(final(a)@) == crate::statica_t::linked_views(old(a)@)
            + crate::statica_t::linked_views(b@),
{
    let mut other = b;
    let ghost b0 = other@;
    a.append(&mut other);
    proof {
        assert(crate::statica_t::linked_views(a@) =~= crate::statica_t::linked_views(old(a)@)
            + crate::statica_t::linked_views(b0));
    }
}

/// The lines of a comment block from its opener on: each following raw
/// line up to and including the one that closes it.
pub open spec fn comment_tail_spec(ls: Seq<Seq<char>>, j: int) -> (Seq<char>, int)
    decreases ls.len() - j + 1,
{
    if j < 0 || j >= ls.len() {
        (Seq::<char>::empty(), ls.len() as int)
    } else if contains_spec(ls[j], crate::tokens::comment_end_tok()) {
        (ls[j] + seq!['\n'], j + 1)
    } else {
        let rest = comment_tail_spec(ls, j + 1);
        (ls[j] + seq!['\n'] + rest.0, rest.1)
    }
}

/// A whole top-level comment, copied verbatim in full: the opening line
/// and the rest up to the closing token, untouched.
pub open spec fn consume_comment_spec(ls: Seq<Seq<char>>, i: int) -> (Seq<char>, int) {
    let first = if 0 <= i < ls.len() {
        ls[i]
    } else {
        Seq::<char>::empty()
    };
    if contains_spec(first, crate::tokens::comment_end_tok()) {
        (first + seq!['\n'], i + 1)
    } else {
        let t = comment_tail_spec(ls, i + 1);
        (first + seq!['\n'] + t.0, t.1)
    }
}

fn comment_tail(ls: &Vec<Text>, j: usize) -> (r: (Text, usize))
    requires
        j <= ls@.len(),
    ensures
        r.0@ == comment_tail_spec(views(ls@), j as int).0,
        r.1 as int == comment_tail_spec(views(ls@), j as int).1,
        j <= r.1 <= ls@.len(),
    decreases ls@.len() - j,
{
    proof {
        assert(views(ls@).len() == ls@.len());
    }
    if j >= ls.len() {
        let empty_text: Text = Vec::new();
        assert(empty_text@ =~= Seq::<char>::empty());
        return (empty_text, ls.len());
    }
    proof {
        assert(views(ls@)[j as int] == ls@[j as int]@);
    }
    let closer = crate::tokens::comment_end_text();
    if contains(&ls[j], &closer) {
        let mut out = copy_text(&ls[j]);
        out.push('\n');
        assert(out@ =~= ls@[j as int]@ + seq!['\n']);
        return (out, j + 1);
    }
    let rest = comment_tail(ls, j + 1);
    let mut out = copy_text(&ls[j]);
    out.push('\n');
    push_all(&mut out, &rest.0);
    proof {
        assert(out@ =~= ls@[j as int]@ + seq!['\n'] + rest.0@);
    }
    (out, rest.1)
}

fn consume_comment(ls: &Vec<Text>, i: usize) -> (r: (Text, usize))
    requires
        i < ls@.len(),
    ensures
        r.0@ == consume_comment_spec(views(ls@), i as int).0,
        r.1 as int == consume_comment_spec(views(ls@), i as int).1,
        i < r.1 <= ls@.len(),
{
    let n = ls.len();
    proof {
        assert(i < n);
        assert(views(ls@)[i as int] == ls@[i as int]@);
    }
    let first = copy_text(&ls[i]);
    let closer = crate::tokens::comment_end_text();
    if contains(&first, &closer) {
        let mut out = first;
        out.push('\n');
        proof {
            assert(out@ =~= ls@[i as int]@ + seq!['\n']);
        }
        (out, i + 1)
    } else {
        let t = comment_tail(ls, i + 1);
        let mut out = first;
        out.push('\n');
        push_all(&mut out, &t.0);
        proof {
            assert(out@ =~= ls@[i as int]@ + seq!['\n'] + t.0@);
        }
        (out, t.1)
    }
}

/// The views of the registered definitions.
pub open spec fn reg_views(s: Seq<Proc>) -> Seq<ProcV> {
    s.map_values(|p: Proc| p@)
}

/// The index of the first registered definition of this name.
pub open spec fn reg_lookup(reg: Seq<ProcV>, name: Seq<char>) -> Option<int>
    decreases reg.len(),
{
    if reg.len() == 0 {
        None
    } else if reg[0].meta.name == name {
        Some(0)
    } else {
        match reg_lookup(reg.drop_first(), name) {
            Some(j) => Some(j + 1),
            None => None,
        }
    }
}

proof fn lemma_reg_lookup_at(reg: Seq<ProcV>, name: Seq<char>, j: int)
    requires
        0 <= j < reg.len(),
        reg[j].meta.name == name,
        forall|t: int| 0 <= t < j ==> reg[t].meta.name != name,
    ensures
        reg_lookup(reg, name) == Some(j),
    decreases j,
{
    if j > 0 {
        lemma_reg_lookup_at(reg.drop_first(), name, j - 1);
    }
}

proof fn lemma_reg_lookup_missing(reg: Seq<ProcV>, name: Seq<char>)
    requires
        forall|t: int| 0 <= t < reg.len() ==> reg[t].meta.name != name,
    ensures
        reg_lookup(reg, name) is None,
    decreases reg.len(),
{
    if reg.len() > 0 {
        lemma_reg_lookup_missing(reg.drop_first(), name);
    }
}

/// The unused list without the first definition of this name.
pub open spec fn unl_remove_spec(
    s: Seq<crate::statica_t::UnlistedV>,
    name: Seq<char>,
) -> Seq<crate::statica_t::UnlistedV>
    decreases s.len(),
{
    if s.len() == 0 {
        s
    } else if s[0].meta.name == name {
        s.drop_first()
    } else {
        seq![s[0]] + unl_remove_spec(s.drop_first(), name)
    }
}

proof fn lemma_unl_remove_at(s: Seq<crate::statica_t::UnlistedV>, name: Seq<char>, j: int)
    requires
        0 <= j < s.len(),
        s[j].meta.name == name,
        forall|t: int| 0 <= t < j ==> s[t].meta.name != name,
    ensures
        unl_remove_spec(s, name) == s.remove(j),
    decreases j,
{
    if j == 0 {
        assert(unl_remove_spec(s, name) =~= s.remove(0));
    } else {
        lemma_unl_remove_at(s.drop_first(), name, j - 1);
        assert(seq![s[0]] + s.drop_first().remove(j - 1) =~= s.remove(j));
    }
}

proof fn lemma_unl_remove_missing(s: Seq<crate::statica_t::UnlistedV>, name: Seq<char>)
    requires
        forall|t: int| 0 <= t < s.len() ==> s[t].meta.name != name,
    ensures
        unl_remove_spec(s, name) == s,
    decreases s.len(),
{
    if s.len() > 0 {
        lemma_unl_remove_missing(s.drop_first(), name);
        assert(seq![s[0]] + s.drop_first() =~= s);
    }
}

/// A usage counter raised by one render, held at the top instead of
/// wrapping.
pub open spec fn usage_bump(u: u64) -> u64 {
    if u < u64::MAX {
        (u + 1) as u64
    } else {
        u
    }
}

/// One recorded diagnostic, by view.
pub open spec fn diag_spec(
    kind: DiagnosticKind,
    name: Seq<char>,
    file: Seq<char>,
    ln: usize,
    html: Seq<char>,
) -> DiagnosticV {
    DiagnosticV { kind, meta: MetaV { name, file, line: ln, col: 0 }, html }
}

/// What an asset attribute on a line contributes: the resolved edge when
/// the target is in the snapshot, else a missing-asset diagnostic; a line
/// without the attribute or an unresolvable path contributes nothing.
pub open spec fn link_capture_spec(
    line: Seq<char>,
    attr: Seq<char>,
    is_comp_link: bool,
    file: Seq<char>,
    cwd: Seq<char>,
    store: Seq<(Seq<char>, Seq<char>)>,
    ln: usize,
) -> (Seq<LinkedV>, Seq<DiagnosticV>) {
    match map_lookup(get_attrs_inline_spec(line), attr) {
        Some(p) => match p.value {
            Some(path) => match crate::scan::evaluate_url_spec(file, path, cwd) {
                Some(asset) => {
                    if crate::statica_t::record_lookup(store, asset) is Some {
                        (
                            seq![LinkedV { file: file, asset: asset, is_component: is_comp_link }],
                            Seq::<DiagnosticV>::empty(),
                        )
                    } else {
                        (
                            Seq::<LinkedV>::empty(),
                            seq![
                                diag_spec(
                                    DiagnosticKind::MissingLinkedAsset,
                                    asset,
                                    file,
                                    ln,
                                    trim_spec(line),
                                ),
                            ],
                        )
                    }
                },
                None => (Seq::<LinkedV>::empty(), Seq::<DiagnosticV>::empty()),
            },
            None => (Seq::<LinkedV>::empty(), Seq::<DiagnosticV>::empty()),
        },
        None => (Seq::<LinkedV>::empty(), Seq::<DiagnosticV>::empty()),
    }
}

/// The next line the scanner reads, bounded into the line list.
pub open spec fn next_line(i: int, next: int, len: int) -> int {
    if i < next && next <= len {
        next
    } else {
        i + 1
    }
}

/// The result of one scan, over the views: the compiled text, the linked
/// assets and diagnostics in discovery order, the pooled style and script
/// pieces, and the registries as the scan leaves them.
pub struct ScanResV {
    pub code: Seq<char>,
    pub linked: Seq<LinkedV>,
    pub diags: Seq<DiagnosticV>,
    pub styles: Seq<Seq<char>>,
    pub scripts: Seq<Seq<char>>,
    pub reg: Seq<ProcV>,
    pub unl: Seq<crate::statica_t::UnlistedV>,
}

/// The whole scan, line by line, as a function of its inputs: what the
/// scanner emits, records and registers from line `i` on. Each rule of the
/// scan mirrors one branch here: empty lines copied, asset links captured,
/// comments copied verbatim in full, templates compiled innermost-first
/// and registered, linked component files read from the snapshot and
/// registered, known usages rendered, unknown ones dropped with a
/// diagnostic, anything else copied trimmed, and every definition still
/// unused at the end reported.
#[verifier::opaque]
pub open spec fn scan_spec(
    ls: Seq<Seq<char>>,
    i: int,
    ln: usize,
    reg: Seq<ProcV>,
    unl: Seq<crate::statica_t::UnlistedV>,
    file: Seq<char>,
    cwd: Seq<char>,
    store: Seq<(Seq<char>, Seq<char>)>,
    records: &Data,
    is_comp: bool,
    depth: u32,
) -> ScanResV
    decreases depth, ls.len() - i + 1,
{
    if i < 0 || i >= ls.len() {
        ScanResV {
            code: Seq::empty(),
            linked: Seq::empty(),
            diags: unused_diags_spec(unl),
            styles: Seq::empty(),
            scripts: Seq::empty(),
            reg: reg,
            unl: unl,
        }
    } else {
        let line = ls[i];
        if line.len() == 0 {
            let rest = scan_spec(
                ls,
                i + 1,
                ln_next(ln, 1),
                reg,
                unl,
                file,
                cwd,
                store,
                records,
                is_comp,
                depth,
            );
            ScanResV { code: seq!['\n'] + rest.code, ..rest }
        } else {
            let trimmed = trim_start_spec(line);
            let is_linked_rel = crate::scan::is_uncommented_spec(line, crate::tokens::rel_attr_tok())
                && contains_spec(trimmed, crate::tokens::href_attr_tok());
            let is_linked_src = crate::scan::is_uncommented_spec(
                line,
                crate::tokens::src_attr_tok(),
            );
            let comp_flag = contains_spec(trimmed, crate::tokens::rel_component_tok());
            let cap_rel = if is_linked_rel {
                link_capture_spec(line, seq!['h', 'r', 'e', 'f'], comp_flag, file, cwd, store, ln)
            } else {
                (Seq::<LinkedV>::empty(), Seq::<DiagnosticV>::empty())
            };
            let cap_src = if is_linked_src {
                link_capture_spec(line, seq!['s', 'r', 'c'], comp_flag, file, cwd, store, ln)
            } else {
                (Seq::<LinkedV>::empty(), Seq::<DiagnosticV>::empty())
            };
            let linked_here = cap_rel.0 + cap_src.0;
            let diags_here = cap_rel.1 + cap_src.1;
            if starts_with_spec(trimmed, crate::tokens::comment_start_tok()) {
                let block = consume_comment_spec(ls, i);
                let jn = next_line(i, block.1, ls.len() as int);
                let rest = scan_spec(
                    ls,
                    jn,
                    ln_next(ln, block.1 - i),
                    reg,
                    unl,
                    file,
                    cwd,
                    store,
                    records,
                    is_comp,
                    depth,
                );
                ScanResV {
                    code: block.0 + rest.code,
                    linked: linked_here + rest.linked,
                    diags: diags_here + rest.diags,
                    ..rest
                }
            } else {
                let has_gt = contains_spec(trimmed, seq!['>']);
                let attrs_t = get_attrs_inline_spec(trimmed);
                let has_id = map_lookup(attrs_t, seq!['i', 'd']) is Some;
                let candidate = match map_lookup(attrs_t, seq!['i', 'd']) {
                    Some(a) => match a.value {
                        Some(v) => crate::scan::valid_id_spec(v),
                        None => None,
                    },
                    None => None,
                };
                let is_inner_template = ln > 1 && crate::scan::is_uncommented_spec(
                    line,
                    template_start_tok(),
                ) && has_gt;
                if is_inner_template && has_id {
                    match candidate {
                        Some(c_id) => {
                            let taken = crate::scan::consume_tag_html_spec(
                                ls,
                                i,
                                seq!['t', 'e', 'm', 'p', 'l', 'a', 't', 'e'],
                            );
                            let jn = next_line(i, taken.1, ls.len() as int);
                            if depth == 0 {
                                let rest = scan_spec(
                                    ls,
                                    jn,
                                    ln_next(ln, taken.1 - i),
                                    reg,
                                    unl,
                                    file,
                                    cwd,
                                    store,
                                    records,
                                    is_comp,
                                    depth,
                                );
                                ScanResV {
                                    code: rest.code,
                                    linked: linked_here + rest.linked,
                                    diags: diags_here + seq![
                                        diag_spec(
                                            DiagnosticKind::MalformedComponent,
                                            c_id,
                                            file,
                                            ln,
                                            trim_spec(line),
                                        ),
                                    ] + rest.diags,
                                    ..rest
                                }
                            } else {
                                let sub = scan_spec(
                                    lines_spec(trim_start_spec(taken.0)),
                                    0,
                                    1,
                                    Seq::empty(),
                                    Seq::empty(),
                                    file,
                                    cwd,
                                    store,
                                    records,
                                    true,
                                    (depth - 1) as u32,
                                );
                                let meta = MetaV { name: c_id, file: file, line: ln, col: 0 };
                                let fresh = ProcV {
                                    meta: meta,
                                    html: sub.code,
                                    is_fragment: None,
                                    props: None,
                                    usage: 0,
                                    usage_html: None,
                                    usage_inner_html: None,
                                    usage_props: None,
                                };
                                let rest = scan_spec(
                                    ls,
                                    jn,
                                    ln_next(ln, taken.1 - i),
                                    reg + seq![fresh],
                                    unl + seq![
                                        crate::statica_t::UnlistedV { meta: meta, html: sub.code },
                                    ],
                                    file,
                                    cwd,
                                    store,
                                    records,
                                    is_comp,
                                    depth,
                                );
                                ScanResV {
                                    code: rest.code,
                                    linked: linked_here + sub.linked + rest.linked,
                                    diags: diags_here + sub.diags + rest.diags,
                                    styles: sub.styles + rest.styles,
                                    scripts: sub.scripts + rest.scripts,
                                    reg: rest.reg,
                                    unl: rest.unl,
                                }
                            }
                        },
                        None => {
                            let rest = scan_spec(
                                ls,
                                i + 1,
                                ln_next(ln, 1),
                                reg,
                                unl,
                                file,
                                cwd,
                                store,
                                records,
                                is_comp,
                                depth,
                            );
                            ScanResV {
                                code: rest.code,
                                linked: linked_here + rest.linked,
                                diags: diags_here + rest.diags,
                                ..rest
                            }
                        },
                    }
                } else {
                    let is_inline_link = starts_with_spec(trimmed, crate::tokens::link_start_tok())
                        && contains_spec(trimmed, crate::tokens::href_attr_tok()) && has_gt
                        && token_before_comment_spec(line, crate::tokens::link_start_tok());
                    let is_component_link = is_inline_link && contains_spec(
                        trimmed,
                        crate::tokens::rel_component_tok(),
                    );
                    if is_component_link {
                        let url = match candidate {
                            Some(c_id) => match map_lookup(attrs_t, seq!['h', 'r', 'e', 'f']) {
                                Some(p) => match p.value {
                                    Some(path) => crate::scan::evaluate_url_spec(file, path, cwd),
                                    None => None,
                                },
                                None => None,
                            },
                            None => None,
                        };
                        let registered = candidate is Some && url is Some && crate::statica_t::record_lookup(
                            store,
                            url->Some_0,
                        ) is Some && depth > 0;
                        if registered {
                            let c_id = candidate->Some_0;
                            let c_file = url->Some_0;
                            let code_text = crate::statica_t::record_lookup(
                                store,
                                c_file,
                            )->Some_0;
                            let sub = scan_spec(
                                lines_spec(trim_start_spec(code_text)),
                                0,
                                1,
                                Seq::empty(),
                                Seq::empty(),
                                c_file,
                                cwd,
                                store,
                                records,
                                true,
                                (depth - 1) as u32,
                            );
                            let meta = MetaV { name: c_id, file: c_file, line: ln, col: 0 };
                            let fresh = ProcV {
                                meta: meta,
                                html: sub.code,
                                is_fragment: None,
                                props: None,
                                usage: 0,
                                usage_html: None,
                                usage_inner_html: None,
                                usage_props: None,
                            };
                            let rest = scan_spec(
                                ls,
                                i + 1,
                                ln_next(ln, 1),
                                reg + seq![fresh],
                                unl + seq![
                                    crate::statica_t::UnlistedV { meta: meta, html: sub.code },
                                ],
                                file,
                                cwd,
                                store,
                                records,
                                is_comp,
                                depth,
                            );
                            ScanResV {
                                code: rest.code,
                                linked: (linked_here + sub.linked) + rest.linked,
                                diags: (diags_here + sub.diags) + rest.diags,
                                styles: sub.styles + rest.styles,
                                scripts: sub.scripts + rest.scripts,
                                reg: rest.reg,
                                unl: rest.unl,
                            }
                        } else {
                            let extra: Seq<DiagnosticV> = match candidate {
                                Some(c_id) => match url {
                                    Some(c_file) => match crate::statica_t::record_lookup(
                                        store,
                                        c_file,
                                    ) {
                                        Some(code_text) => seq![
                                            diag_spec(
                                                DiagnosticKind::MalformedComponent,
                                                c_id,
                                                c_file,
                                                ln,
                                                trim_spec(line),
                                            ),
                                        ],
                                        None => seq![
                                            diag_spec(
                                                DiagnosticKind::MissingLinkedAsset,
                                                c_id,
                                                c_file,
                                                ln,
                                                trim_spec(line),
                                            ),
                                        ],
                                    },
                                    None => Seq::empty(),
                                },
                                None => Seq::empty(),
                            };
                            let rest = scan_spec(
                                ls,
                                i + 1,
                                ln_next(ln, 1),
                                reg,
                                unl,
                                file,
                                cwd,
                                store,
                                records,
                                is_comp,
                                depth,
                            );
                            ScanResV {
                                code: rest.code,
                                linked: linked_here + rest.linked,
                                diags: (diags_here + extra) + rest.diags,
                                ..rest
                            }
                        }
                    } else {
                        let is_component_tag = starts_with_spec(
                            trimmed,
                            crate::tokens::component_tag_start_tok(),
                        ) && token_before_comment_spec(
                            line,
                            crate::tokens::component_tag_start_tok(),
                        );
                        let name_opt = tag_name_spec(trimmed);
                        if is_component_tag && name_opt is Some {
                            let c_name = name_opt->Some_0;
                            match reg_lookup(reg, c_name) {
                                None => {
                                    let rest = scan_spec(
                                        ls,
                                        i + 1,
                                        ln_next(ln, 1),
                                        reg,
                                        unl,
                                        file,
                                        cwd,
                                        store,
                                        records,
                                        is_comp,
                                        depth,
                                    );
                                    ScanResV {
                                        code: rest.code,
                                        linked: linked_here + rest.linked,
                                        diags: diags_here + seq![
                                            diag_spec(
                                                DiagnosticKind::UndefinedComponent,
                                                c_name,
                                                file,
                                                ln,
                                                trim_spec(line),
                                            ),
                                        ] + rest.diags,
                                        ..rest
                                    }
                                },
                                Some(j) => {
                                    let proc1 = ProcV {
                                        usage_html: Some(trim_spec(line)),
                                        ..reg[j]
                                    };
                                    let tc = transform_component_spec(
                                        ls,
                                        i,
                                        proc1,
                                        is_comp,
                                        records,
                                    );
                                    let proc3 = ProcV { usage: usage_bump(tc.2.usage), ..tc.2 };
                                    let jn = next_line(i, tc.1, ls.len() as int);
                                    let rest = scan_spec(
                                        ls,
                                        jn,
                                        ln_next(ln, tc.1 - i),
                                        reg.update(j, proc3),
                                        unl_remove_spec(unl, c_name),
                                        file,
                                        cwd,
                                        store,
                                        records,
                                        is_comp,
                                        depth,
                                    );
                                    ScanResV {
                                        code: tc.0.html + seq!['\n'] + rest.code,
                                        linked: linked_here + rest.linked,
                                        diags: (diags_here + tc.0.diags) + rest.diags,
                                        styles: tc.0.styles + rest.styles,
                                        scripts: tc.0.scripts + rest.scripts,
                                        reg: rest.reg,
                                        unl: rest.unl,
                                    }
                                },
                            }
                        } else {
                            let rest = scan_spec(
                                ls,
                                i + 1,
                                ln_next(ln, 1),
                                reg,
                                unl,
                                file,
                                cwd,
                                store,
                                records,
                                is_comp,
                                depth,
                            );
                            ScanResV {
                                code: trim_spec(line) + seq!['\n'] + rest.code,
                                linked: linked_here + rest.linked,
                                diags: diags_here + rest.diags,
                                ..rest
                            }
                        }
                    }
                }
            }
        }
    }
}

/// A comment opener at the head of a line silences the asset captures.
proof fn lemma_comment_head_silences(line: Seq<char>)
    requires
        trim_start_spec(line) == line,
        starts_with_spec(line, crate::tokens::comment_start_tok()),
    ensures
        !crate::scan::is_uncommented_spec(line, crate::tokens::rel_attr_tok()),
        !crate::scan::is_uncommented_spec(line, crate::tokens::src_attr_tok()),
{
    assert(crate::text::match_at(line, crate::tokens::comment_start_tok(), 0));
    assert(crate::text::find_spec(line, crate::tokens::comment_start_tok()) == Some(0int));
    crate::text::lemma_find_from_characterization(line, crate::tokens::rel_attr_tok(), 0);
    crate::text::lemma_find_from_characterization(line, crate::tokens::src_attr_tok(), 0);
    assert(!token_before_comment_spec(line, crate::tokens::rel_attr_tok()));
    assert(!token_before_comment_spec(line, crate::tokens::src_attr_tok()));
}

/// A scan over copied lines alone: the text passes through, and the only
/// diagnostics are the unused-definition warnings.
pub proof fn lemma_scan_spec_plain(
    ls: Seq<Seq<char>>,
    i: int,
    ln: usize,
    reg: Seq<ProcV>,
    unl: Seq<crate::statica_t::UnlistedV>,
    file: Seq<char>,
    cwd: Seq<char>,
    store: Seq<(Seq<char>, Seq<char>)>,
    records: &Data,
    is_comp: bool,
    depth: u32,
)
    requires
        0 <= i <= ls.len(),
        all_plain(ls, i),
    ensures
        ({
            let r = scan_spec(ls, i, ln, reg, unl, file, cwd, store, records, is_comp, depth);
            &&& r.code == crate::text::join_nl_spec(ls.skip(i))
            &&& r.linked == Seq::<LinkedV>::empty()
            &&& r.styles == Seq::<Seq<char>>::empty()
            &&& r.scripts == Seq::<Seq<char>>::empty()
            &&& r.diags == unused_diags_spec(unl)
            &&& r.reg == reg
            &&& r.unl == unl
        }),
    decreases ls.len() - i,
{
    reveal(scan_spec);
    let r = scan_spec(ls, i, ln, reg, unl, file, cwd, store, records, is_comp, depth);
    if i >= ls.len() {
        assert(ls.skip(i) =~= Seq::<Seq<char>>::empty());
    } else {
        let line = ls[i];
        lemma_scan_spec_plain(
            ls,
            i + 1,
            ln_next(ln, 1),
            reg,
            unl,
            file,
            cwd,
            store,
            records,
            is_comp,
            depth,
        );
        assert(ls.skip(i)[0] == line);
        assert(ls.skip(i).drop_first() =~= ls.skip(i + 1));
        let rest = scan_spec(
            ls,
            i + 1,
            ln_next(ln, 1),
            reg,
            unl,
            file,
            cwd,
            store,
            records,
            is_comp,
            depth,
        );
        if line.len() == 0 {
            assert(r.code =~= line + seq!['\n'] + rest.code);
        } else if plain_comment_line(line) {
            lemma_comment_head_silences(line);
            let block = consume_comment_spec(ls, i);
            assert(block.0 == line + seq!['\n'] && block.1 == i + 1);
            assert(next_line(i, i + 1, ls.len() as int) == i + 1);
            assert(r.code =~= line + seq!['\n'] + rest.code);
            assert(r.linked =~= Seq::<LinkedV>::empty());
            assert(r.diags =~= unused_diags_spec(unl));
        } else {
            assert(plain_line_spec(line));
            assert(trim_spec(line) == line);
            assert(r.code =~= line + seq!['\n'] + rest.code);
            assert(r.linked =~= Seq::<LinkedV>::empty());
            assert(r.diags =~= unused_diags_spec(unl));
        }
    }
}

/// A scan over copied lines and undefined usages: the usages vanish, each
/// leaving one diagnostic, in line order, before the unused warnings.
pub proof fn lemma_scan_spec_semi(
    ls: Seq<Seq<char>>,
    i: int,
    ln: usize,
    unl: Seq<crate::statica_t::UnlistedV>,
    file: Seq<char>,
    cwd: Seq<char>,
    store: Seq<(Seq<char>, Seq<char>)>,
    records: &Data,
    is_comp: bool,
    depth: u32,
)
    requires
        0 <= i <= ls.len(),
        all_semi(ls, i),
    ensures
        ({
            let r = scan_spec(
                ls,
                i,
                ln,
                Seq::<ProcV>::empty(),
                unl,
                file,
                cwd,
                store,
                records,
                is_comp,
                depth,
            );
            let undefs = undef_lines_spec(ls, i);
            &&& r.code == plain_code_spec(ls, i)
            &&& r.linked == Seq::<LinkedV>::empty()
            &&& r.styles == Seq::<Seq<char>>::empty()
            &&& r.scripts == Seq::<Seq<char>>::empty()
            &&& r.diags.len() == undefs.len() + unl.len()
            &&& (forall|k: int|
                0 <= k < undefs.len() ==> (#[trigger] r.diags[k]).kind
                    == DiagnosticKind::UndefinedComponent && r.diags[k].html == undefs[k])
            &&& (forall|k: int|
                undefs.len() <= k < r.diags.len() ==> (#[trigger] r.diags[k]).kind
                    == DiagnosticKind::UnusedComponent)
            &&& r.reg == Seq::<ProcV>::empty()
            &&& r.unl == unl
        }),
    decreases ls.len() - i,
{
    reveal(scan_spec);
    let reg = Seq::<ProcV>::empty();
    let r = scan_spec(ls, i, ln, reg, unl, file, cwd, store, records, is_comp, depth);
    if i >= ls.len() {
        assert(unused_diags_spec(unl).len() == unl.len());
        assert forall|k: int| 0 <= k < unl.len() implies (#[trigger] r.diags[k]).kind
            == DiagnosticKind::UnusedComponent by {
            assert(r.diags[k] == unused_diags_spec(unl)[k]);
        }
    } else {
        let line = ls[i];
        lemma_scan_spec_semi(
            ls,
            i + 1,
            ln_next(ln, 1),
            unl,
            file,
            cwd,
            store,
            records,
            is_comp,
            depth,
        );
        let rest = scan_spec(
            ls,
            i + 1,
            ln_next(ln, 1),
            reg,
            unl,
            file,
            cwd,
            store,
            records,
            is_comp,
            depth,
        );
        let undefs = undef_lines_spec(ls, i);
        let undefs1 = undef_lines_spec(ls, i + 1);
        if line.len() == 0 || plain_line_spec(line) || plain_comment_line(line) {
            assert(!undef_line_spec(line));
            if line.len() == 0 {
                assert(r.code =~= line + seq!['\n'] + rest.code);
            } else if plain_comment_line(line) {
                lemma_comment_head_silences(line);
                let block = consume_comment_spec(ls, i);
                assert(block.0 == line + seq!['\n'] && block.1 == i + 1);
                assert(next_line(i, i + 1, ls.len() as int) == i + 1);
                assert(r.code =~= line + seq!['\n'] + rest.code);
                assert(r.linked =~= Seq::<LinkedV>::empty());
                assert(r.diags =~= rest.diags);
            } else {
                assert(trim_spec(line) == line);
                assert(r.code =~= line + seq!['\n'] + rest.code);
                assert(r.linked =~= Seq::<LinkedV>::empty());
                assert(r.diags =~= rest.diags);
            }
            assert(undefs =~= undefs1);
        } else {
            assert(undef_line_spec(line));
            assert(trim_spec(line) == line);
            let d = diag_spec(
                DiagnosticKind::UndefinedComponent,
                tag_name_spec(trim_start_spec(line))->Some_0,
                file,
                ln,
                trim_spec(line),
            );
            assert(r.code == rest.code);
            assert(r.linked =~= Seq::<LinkedV>::empty());
            assert(r.diags =~= seq![d] + rest.diags);
            assert(undefs =~= seq![line] + undefs1);
            assert forall|k: int| 0 <= k < undefs.len() implies (#[trigger] r.diags[k]).kind
                == DiagnosticKind::UndefinedComponent && r.diags[k].html == undefs[k] by {
                if k == 0 {
                    assert(r.diags[0] == d);
                    assert(undefs[0] == line);
                } else {
                    assert(r.diags[k] == rest.diags[k - 1]);
                    assert(undefs[k] == undefs1[k - 1]);
                }
            }
            assert forall|k: int| undefs.len() <= k < r.diags.len() implies (
                #[trigger] r.diags[k]).kind == DiagnosticKind::UnusedComponent by {
                assert(r.diags[k] == rest.diags[k - 1]);
            }
        }
    }
}

/// What one scan pass hands back.
pub struct ScanOut {
    pub code: Text,
    pub linked: Vec<Linked>,
    pub diagnostics: Vec<Diagnostic>,
    pub styles: Vec<Text>,
    pub scripts: Vec<Text>,
}

fn index_of_proc(reg: &Vec<Proc>, name: &Text) -> (r: Option<usize>)
    ensures
        r matches Some(j) ==> {
            &&& j < reg@.len()
            &&& reg@[j as int].meta.name@ == name@
            &&& forall|t: int| 0 <= t < j ==> reg@[t].meta.name@ != name@
            &&& reg_lookup(reg_views(reg@), name@) == Some(j as int)
        },
        r is None ==> reg_lookup(reg_views(reg@), name@) is None,
{
    let n = reg.len();
    let mut i: usize = 0;
    while i < n
        invariant
            n == reg@.len(),
            0 <= i <= n,
            forall|j: int| 0 <= j < i ==> reg@[j].meta.name@ != name@,
        decreases n - i,
    {
        if text_eq(&reg[i].meta.name, name) {
            proof {
                lemma_reg_lookup_at(reg_views(reg@), name@, i as int);
            }
            return Some(i);
        }
        i += 1;
    }
    proof {
        lemma_reg_lookup_missing(reg_views(reg@), name@);
    }
    None
}

/// Strikes the first definition of this name off the unused list.
fn remove_unlisted(unl: &mut Vec<Unlisted>, name: &Text)
    ensures
        unl_views(final(unl)@) == unl_remove_spec(unl_views(old(unl)@), name@),
{
    let n = unl.len();
    let mut i: usize = 0;
    while i < n
        invariant
            n == unl@.len(),
            0 <= i <= n,
            unl == old(unl),
            forall|j: int| 0 <= j < i ==> unl_views(unl@)[j].meta.name != name@,
        decreases n - i,
    {
        proof {
            assert(unl_views(unl@)[i as int] == unl@[i as int]@);
        }
        if text_eq(&unl[i].meta.name, name) {
            proof {
                lemma_unl_remove_at(unl_views(unl@), name@, i as int);
            }
            unl.remove(i);
            proof {
                assert(unl_views(unl@) =~= unl_views(old(unl)@).remove(i as int));
            }
            return ;
        }
        i += 1;
    }
    proof {
        lemma_unl_remove_missing(unl_views(unl@), name@);
    }
}

/// One scan over the lines of a source, from line `i` on. Definitions are
/// registered as they appear; usages render; everything else is copied.
/// At the end of the scan every registered-but-unused definition is
/// reported. `depth` bounds nested definition compiles, so cyclic
/// component references end as diagnostics instead of running away.
#[verifier::loop_isolation(false)]
#[verifier::rlimit(100)]
#[verifier::spinoff_prover]
// Every scanner function below — the branch helpers and the dispatching
// `scan` — carries the same contract: everything it hands back and leaves
// behind equals `scan_spec` of its inputs.

/// Records what an asset-linking line contributes: the resolved edges and
/// the missing-asset diagnostics, exactly `link_capture_spec` for the
/// `href` and `src` attributes in that order.
fn capture_links(
    ls: &Vec<Text>,
    i: usize,
    file: &Text,
    cwd: &Text,
    store: &FileStore,
    ln: usize,
) -> (r: (Vec<Linked>, Vec<Diagnostic>))
    requires
        i < ls@.len(),
    ensures
        ({
            let line = views(ls@)[i as int];
            let trimmed = trim_start_spec(line);
            let comp_flag = contains_spec(trimmed, crate::tokens::rel_component_tok());
            let store_v = crate::slots::pair_views(store.files@);
            let cap_rel = if crate::scan::is_uncommented_spec(line, crate::tokens::rel_attr_tok())
                && contains_spec(trimmed, crate::tokens::href_attr_tok()) {
                link_capture_spec(line, seq!['h', 'r', 'e', 'f'], comp_flag, file@, cwd@, store_v, ln)
            } else {
                (Seq::<LinkedV>::empty(), Seq::<DiagnosticV>::empty())
            };
            let cap_src = if crate::scan::is_uncommented_spec(
                line,
                crate::tokens::src_attr_tok(),
            ) {
                link_capture_spec(line, seq!['s', 'r', 'c'], comp_flag, file@, cwd@, store_v, ln)
            } else {
                (Seq::<LinkedV>::empty(), Seq::<DiagnosticV>::empty())
            };
            &&& crate::statica_t::linked_views(r.0@) == cap_rel.0 + cap_src.0
            &&& diag_views(r.1@) == cap_rel.1 + cap_src.1
        }),
{
    let ghost ls_v = views(ls@);
    let ghost store_v = crate::slots::pair_views(store.files@);
    proof {
        assert(views(ls@)[i as int] == ls@[i as int]@);
    }
    let trimmed = trim_start(&ls[i]);
    let rel_tok = crate::tokens::rel_attr_text();
    let href_tok = crate::tokens::href_attr_text();
    let src_tok = crate::tokens::src_attr_text();
    let rel_component_tok = crate::tokens::rel_component_text();
    let is_linked_rel = is_uncommented(&ls[i], &rel_tok) && contains(&trimmed, &href_tok);
    let is_linked_src = is_uncommented(&ls[i], &src_tok);
    let is_linked_component = contains(&trimmed, &rel_component_tok);
    let mut linked_here: Vec<Linked> = Vec::new();
    let mut diags_here: Vec<Diagnostic> = Vec::new();
    if is_linked_rel {
        let attrs = get_attrs_inline(&ls[i]);
        let href_name = crate::text::text_of_str("href");
        proof {
            reveal_strlit("href");
            assert(href_name@ =~= seq!['h', 'r', 'e', 'f']);
        }
        match attrs.get(&href_name) {
            Some(p) => match &p.value {
                Some(path) => match evaluate_url(file, path, cwd) {
                    Some(asset) => {
                        if store.has_path(&asset) {
                            linked_here.push(
                                Linked {
                                    file: copy_text(file),
                                    asset,
                                    is_component: is_linked_component,
                                },
                            );
                        } else {
                            diags_here.push(
                                Diagnostic {
                                    kind: DiagnosticKind::MissingLinkedAsset,
                                    meta: Meta {
                                        name: copy_text(&asset),
                                        file: copy_text(file),
                                        cursor: crate::statica_t::Cursor { line: ln, col: 0 },
                                    },
                                    html: trim(&ls[i]),
                                },
                            );
                        }
                    },
                    None => {},
                },
                None => {},
            },
            None => {},
        }
    }
    if is_linked_src {
        let attrs = get_attrs_inline(&ls[i]);
        let src_name = crate::text::text_of_str("src");
        proof {
            reveal_strlit("src");
            assert(src_name@ =~= seq!['s', 'r', 'c']);
        }
        match attrs.get(&src_name) {
            Some(p) => match &p.value {
                Some(path) => match evaluate_url(file, path, cwd) {
                    Some(asset) => {
                        if store.has_path(&asset) {
                            linked_here.push(
                                Linked {
                                    file: copy_text(file),
                                    asset,
                                    is_component: is_linked_component,
                                },
                            );
                        } else {
                            diags_here.push(
                                Diagnostic {
                                    kind: DiagnosticKind::MissingLinkedAsset,
                                    meta: Meta {
                                        name: copy_text(&asset),
                                        file: copy_text(file),
                                        cursor: crate::statica_t::Cursor { line: ln, col: 0 },
                                    },
                                    html: trim(&ls[i]),
                                },
                            );
                        }
                    },
                    None => {},
                },
                None => {},
            },
            None => {},
        }
    }
    proof {
        let line_s = ls_v[i as int];
        let trimmed_s = trim_start_spec(line_s);
        let comp_flag = contains_spec(trimmed_s, crate::tokens::rel_component_tok());
        let cap_rel = if crate::scan::is_uncommented_spec(line_s, crate::tokens::rel_attr_tok())
            && contains_spec(trimmed_s, crate::tokens::href_attr_tok()) {
            link_capture_spec(line_s, seq!['h', 'r', 'e', 'f'], comp_flag, file@, cwd@, store_v, ln)
        } else {
            (Seq::<LinkedV>::empty(), Seq::<DiagnosticV>::empty())
        };
        let cap_src = if crate::scan::is_uncommented_spec(line_s, crate::tokens::src_attr_tok()) {
            link_capture_spec(line_s, seq!['s', 'r', 'c'], comp_flag, file@, cwd@, store_v, ln)
        } else {
            (Seq::<LinkedV>::empty(), Seq::<DiagnosticV>::empty())
        };
        assert(crate::statica_t::linked_views(linked_here@) =~= cap_rel.0 + cap_src.0);
        assert(diag_views(diags_here@) =~= cap_rel.1 + cap_src.1);
    }
    (linked_here, diags_here)
}

/// A top-level comment block: copied verbatim in full, nothing inside it
/// treated by any other rule.
#[verifier::rlimit(100)]
#[verifier::spinoff_prover]
fn scan_comment(
    ls: &Vec<Text>,
    i: usize,
    ln: usize,
    reg: &mut Vec<Proc>,
    unl: &mut Vec<Unlisted>,
    file: &Text,
    cwd: &Text,
    store: &FileStore,
    records: &Data,
    is_comp: bool,
    depth: u32,
) -> (out: ScanOut)
    requires
        i < ls@.len(),
        crate::statica_t::data_wf(records),
        views(ls@)[i as int].len() > 0,
        starts_with_spec(
            trim_start_spec(views(ls@)[i as int]),
            crate::tokens::comment_start_tok(),
        ),
    ensures
        ({
            let res = scan_spec(
                views(ls@),
                i as int,
                ln,
                reg_views(old(reg)@),
                unl_views(old(unl)@),
                file@,
                cwd@,
                crate::slots::pair_views(store.files@),
                records,
                is_comp,
                depth,
            );
            &&& out.code@ == res.code
            &&& crate::statica_t::linked_views(out.linked@) == res.linked
            &&& diag_views(out.diagnostics@) == res.diags
            &&& views(out.styles@) == res.styles
            &&& views(out.scripts@) == res.scripts
            &&& reg_views(final(reg)@) == res.reg
            &&& unl_views(final(unl)@) == res.unl
        }),
    decreases depth, ls@.len() - i, 0nat,
{
    let ghost ls_v = views(ls@);
    let ghost reg0 = reg_views(old(reg)@);
    let ghost unl0 = unl_views(old(unl)@);
    let ghost store_v = crate::slots::pair_views(store.files@);
    let ghost res = scan_spec(
        ls_v,
        i as int,
        ln,
        reg0,
        unl0,
        file@,
        cwd@,
        store_v,
        records,
        is_comp,
        depth,
    );
    let n = ls.len();
    proof {
        assert(i < n);
        assert(views(ls@)[i as int] == ls@[i as int]@);
    }
    let here = capture_links(ls, i, file, cwd, store, ln);
    let block = consume_comment(ls, i);
    let d = block.1 - i;
    let rest = scan(ls, block.1, ln_add(ln, d), reg, unl, file, cwd, store, records, is_comp, depth);
    let mut code = block.0;
    push_all(&mut code, &rest.code);
    let mut linked = here.0;
    append_linked(&mut linked, rest.linked);
    let mut diagnostics = here.1;
    append_diags(&mut diagnostics, rest.diagnostics);
    proof {
        reveal(scan_spec);
        assert(next_line(i as int, block.1 as int, ls_v.len() as int) == block.1 as int);
        assert(code@ =~= res.code);
        assert(crate::statica_t::linked_views(linked@) =~= res.linked);
        assert(diag_views(diagnostics@) =~= res.diags);
    }
    return ScanOut { code, linked, diagnostics, styles: rest.styles, scripts: rest.scripts };
}

/// An inline template with an id attribute: a valid component id compiles
/// the block innermost-first and registers the definition; any other id
/// is none of this compiler's business and the line is dropped.
#[verifier::rlimit(100)]
#[verifier::spinoff_prover]
fn scan_template(
    ls: &Vec<Text>,
    i: usize,
    ln: usize,
    reg: &mut Vec<Proc>,
    unl: &mut Vec<Unlisted>,
    file: &Text,
    cwd: &Text,
    store: &FileStore,
    records: &Data,
    is_comp: bool,
    depth: u32,
) -> (out: ScanOut)
    requires
        i < ls@.len(),
        crate::statica_t::data_wf(records),
        views(ls@)[i as int].len() > 0,
        !starts_with_spec(
            trim_start_spec(views(ls@)[i as int]),
            crate::tokens::comment_start_tok(),
        ),
        ln > 1,
        crate::scan::is_uncommented_spec(views(ls@)[i as int], template_start_tok()),
        contains_spec(trim_start_spec(views(ls@)[i as int]), seq!['>']),
        map_lookup(
            get_attrs_inline_spec(trim_start_spec(views(ls@)[i as int])),
            seq!['i', 'd'],
        ) is Some,
    ensures
        ({
            let res = scan_spec(
                views(ls@),
                i as int,
                ln,
                reg_views(old(reg)@),
                unl_views(old(unl)@),
                file@,
                cwd@,
                crate::slots::pair_views(store.files@),
                records,
                is_comp,
                depth,
            );
            &&& out.code@ == res.code
            &&& crate::statica_t::linked_views(out.linked@) == res.linked
            &&& diag_views(out.diagnostics@) == res.diags
            &&& views(out.styles@) == res.styles
            &&& views(out.scripts@) == res.scripts
            &&& reg_views(final(reg)@) == res.reg
            &&& unl_views(final(unl)@) == res.unl
        }),
    decreases depth, ls@.len() - i, 0nat,
{
    let ghost ls_v = views(ls@);
    let ghost reg0 = reg_views(old(reg)@);
    let ghost unl0 = unl_views(old(unl)@);
    let ghost store_v = crate::slots::pair_views(store.files@);
    let ghost res = scan_spec(
        ls_v,
        i as int,
        ln,
        reg0,
        unl0,
        file@,
        cwd@,
        store_v,
        records,
        is_comp,
        depth,
    );
    let n = ls.len();
    proof {
        assert(i < n);
        assert(views(ls@)[i as int] == ls@[i as int]@);
    }
    let here = capture_links(ls, i, file, cwd, store, ln);
    let mut linked_here = here.0;
    let mut diags_here = here.1;
    let trimmed = trim_start(&ls[i]);
    let attrs = get_attrs_inline(&trimmed);
    let id_name = crate::text::text_of_str("id");
    proof {
        reveal_strlit("id");
        assert(id_name@ =~= seq!['i', 'd']);
    }
    let candidate: Option<Text> = match attrs.get(&id_name) {
        Some(id_attr) => match &id_attr.value {
            Some(v) => get_valid_id(v),
            None => None,
        },
        None => None,
    };
    match candidate {
        Some(c_id) => {
            let template_word = crate::text::text_of_str("template");
            proof {
                reveal_strlit("template");
                assert(template_word@ =~= seq!['t', 'e', 'm', 'p', 'l', 'a', 't', 'e']);
            }
            let taken = consume_tag_html(ls, i, &template_word);
            let d = taken.1 - i;
            if depth == 0 {
                diags_here.push(
                    Diagnostic {
                        kind: DiagnosticKind::MalformedComponent,
                        meta: Meta {
                            name: copy_text(&c_id),
                            file: copy_text(file),
                            cursor: crate::statica_t::Cursor { line: ln, col: 0 },
                        },
                        html: trim(&ls[i]),
                    },
                );
                let rest = scan(ls, taken.1, ln_add(ln, d), reg, unl, file, cwd, store, records, is_comp, depth);
                let mut linked = linked_here;
                append_linked(&mut linked, rest.linked);
                let mut diagnostics = diags_here;
                append_diags(&mut diagnostics, rest.diagnostics);
                proof {
                    reveal(scan_spec);
                    assert(next_line(i as int, taken.1 as int, ls_v.len() as int)
                        == taken.1 as int);
                    assert(crate::statica_t::linked_views(linked@) =~= res.linked);
                    assert(diag_views(diagnostics@) =~= res.diags);
                }
                return ScanOut {
                    code: rest.code,
                    linked,
                    diagnostics,
                    styles: rest.styles,
                    scripts: rest.scripts,
                };
            }
            let body = trim_start(&taken.0);
            let ls2 = lines(&body);
            let mut reg2: Vec<Proc> = Vec::new();
            let mut unl2: Vec<Unlisted> = Vec::new();
            proof {
                assert(reg_views(reg2@) =~= Seq::<ProcV>::empty());
                assert(unl_views(unl2@) =~= Seq::<crate::statica_t::UnlistedV>::empty());
            }
            let sub = scan(&ls2, 0, 1, &mut reg2, &mut unl2, file, cwd, store, records, true, depth - 1);
            let c_html = sub.code;
            reg.push(
                Proc {
                    meta: Meta {
                        name: copy_text(&c_id),
                        file: copy_text(file),
                        cursor: crate::statica_t::Cursor { line: ln, col: 0 },
                    },
                    html: copy_text(&c_html),
                    is_fragment: None,
                    props: None,
                    usage: 0,
                    usage_html: None,
                    usage_inner_html: None,
                    usage_props: None,
                },
            );
            unl.push(
                Unlisted {
                    meta: Meta {
                        name: copy_text(&c_id),
                        file: copy_text(file),
                        cursor: crate::statica_t::Cursor { line: ln, col: 0 },
                    },
                    html: c_html,
                },
            );
            proof {
                reveal(scan_spec);
                assert(next_line(i as int, taken.1 as int, ls_v.len() as int) == taken.1 as int);
                assert(reg_views(reg@) =~= reg0 + seq![reg@[reg@.len() - 1]@]);
                assert(unl_views(unl@) =~= unl0 + seq![unl@[unl@.len() - 1]@]);
            }
            let rest = scan(ls, taken.1, ln_add(ln, d), reg, unl, file, cwd, store, records, is_comp, depth);
            let mut linked = linked_here;
            append_linked(&mut linked, sub.linked);
            append_linked(&mut linked, rest.linked);
            let mut diagnostics = diags_here;
            append_diags(&mut diagnostics, sub.diagnostics);
            append_diags(&mut diagnostics, rest.diagnostics);
            let mut styles = sub.styles;
            append_texts(&mut styles, rest.styles);
            let mut scripts = sub.scripts;
            append_texts(&mut scripts, rest.scripts);
            proof {
                reveal(scan_spec);
                assert(crate::statica_t::linked_views(linked@) =~= res.linked);
                assert(diag_views(diagnostics@) =~= res.diags);
                assert(views(styles@) =~= res.styles);
                assert(views(scripts@) =~= res.scripts);
            }
            return ScanOut { code: rest.code, linked, diagnostics, styles, scripts };
        },
        None => {
            // A template with some other id is none of this compiler's
            // business; the line is dropped.
            let rest = scan(ls, i + 1, ln_add(ln, 1), reg, unl, file, cwd, store, records, is_comp, depth);
            let mut linked = linked_here;
            append_linked(&mut linked, rest.linked);
            let mut diagnostics = diags_here;
            append_diags(&mut diagnostics, rest.diagnostics);
            proof {
                reveal(scan_spec);
                assert(crate::statica_t::linked_views(linked@) =~= res.linked);
                assert(diag_views(diagnostics@) =~= res.diags);
            }
            return ScanOut {
                code: rest.code,
                linked,
                diagnostics,
                styles: rest.styles,
                scripts: rest.scripts,
            };
        },
    }
}

/// A component link: the target file is read from the snapshot, compiled
/// innermost-first and registered under its id; a missing target is one
/// missing-asset diagnostic and no registration; an exhausted registration
/// depth reports the cycle instead of following it. The line itself never
/// reaches the output.
#[verifier::rlimit(100)]
#[verifier::spinoff_prover]
fn scan_component_link(
    ls: &Vec<Text>,
    i: usize,
    ln: usize,
    reg: &mut Vec<Proc>,
    unl: &mut Vec<Unlisted>,
    file: &Text,
    cwd: &Text,
    store: &FileStore,
    records: &Data,
    is_comp: bool,
    depth: u32,
) -> (out: ScanOut)
    requires
        i < ls@.len(),
        crate::statica_t::data_wf(records),
        views(ls@)[i as int].len() > 0,
        !starts_with_spec(
            trim_start_spec(views(ls@)[i as int]),
            crate::tokens::comment_start_tok(),
        ),
        !(ln > 1 && crate::scan::is_uncommented_spec(views(ls@)[i as int], template_start_tok())
            && contains_spec(trim_start_spec(views(ls@)[i as int]), seq!['>']) && map_lookup(
            get_attrs_inline_spec(trim_start_spec(views(ls@)[i as int])),
            seq!['i', 'd'],
        ) is Some),
        starts_with_spec(trim_start_spec(views(ls@)[i as int]), crate::tokens::link_start_tok()),
        contains_spec(trim_start_spec(views(ls@)[i as int]), crate::tokens::href_attr_tok()),
        contains_spec(trim_start_spec(views(ls@)[i as int]), seq!['>']),
        token_before_comment_spec(views(ls@)[i as int], crate::tokens::link_start_tok()),
        contains_spec(trim_start_spec(views(ls@)[i as int]), crate::tokens::rel_component_tok()),
    ensures
        ({
            let res = scan_spec(
                views(ls@),
                i as int,
                ln,
                reg_views(old(reg)@),
                unl_views(old(unl)@),
                file@,
                cwd@,
                crate::slots::pair_views(store.files@),
                records,
                is_comp,
                depth,
            );
            &&& out.code@ == res.code
            &&& crate::statica_t::linked_views(out.linked@) == res.linked
            &&& diag_views(out.diagnostics@) == res.diags
            &&& views(out.styles@) == res.styles
            &&& views(out.scripts@) == res.scripts
            &&& reg_views(final(reg)@) == res.reg
            &&& unl_views(final(unl)@) == res.unl
        }),
    decreases depth, ls@.len() - i, 0nat,
{
    let ghost ls_v = views(ls@);
    let ghost reg0 = reg_views(old(reg)@);
    let ghost unl0 = unl_views(old(unl)@);
    let ghost store_v = crate::slots::pair_views(store.files@);
    let ghost res = scan_spec(
        ls_v,
        i as int,
        ln,
        reg0,
        unl0,
        file@,
        cwd@,
        store_v,
        records,
        is_comp,
        depth,
    );
    let n = ls.len();
    proof {
        assert(i < n);
        assert(views(ls@)[i as int] == ls@[i as int]@);
    }
    let here = capture_links(ls, i, file, cwd, store, ln);
    let mut linked_here = here.0;
    let mut diags_here = here.1;
    let trimmed = trim_start(&ls[i]);
    let attrs = get_attrs_inline(&trimmed);
    let id_name = crate::text::text_of_str("id");
    proof {
        reveal_strlit("id");
        assert(id_name@ =~= seq!['i', 'd']);
    }
    let candidate: Option<Text> = match attrs.get(&id_name) {
        Some(id_attr) => match &id_attr.value {
            Some(v) => get_valid_id(v),
            None => None,
        },
        None => None,
    };
    match candidate {
        Some(c_id) => {
            let href_name = crate::text::text_of_str("href");
            proof {
                reveal_strlit("href");
                assert(href_name@ =~= seq!['h', 'r', 'e', 'f']);
            }
            let url: Option<Text> = match attrs.get(&href_name) {
                Some(p) => match &p.value {
                    Some(path) => evaluate_url(file, path, cwd),
                    None => None,
                },
                None => None,
            };
            match url {
                Some(c_file) => match store.read(&c_file) {
                    Some(code_text) => {
                        if depth == 0 {
                            diags_here.push(
                                Diagnostic {
                                    kind: DiagnosticKind::MalformedComponent,
                                    meta: Meta {
                                        name: copy_text(&c_id),
                                        file: c_file,
                                        cursor: crate::statica_t::Cursor { line: ln, col: 0 },
                                    },
                                    html: trim(&ls[i]),
                                },
                            );
                        } else {
                            let body = trim_start(&code_text);
                            let ls2 = lines(&body);
                            let mut reg2: Vec<Proc> = Vec::new();
                            let mut unl2: Vec<Unlisted> = Vec::new();
                            proof {
                                assert(reg_views(reg2@) =~= Seq::<ProcV>::empty());
                                assert(unl_views(unl2@) =~= Seq::<
                                    crate::statica_t::UnlistedV,
                                >::empty());
                            }
                            let sub = scan(
                                &ls2,
                                0,
                                1,
                                &mut reg2,
                                &mut unl2,
                                &c_file,
                                cwd,
                                store,
                                records,
                                true,
                                depth - 1,
                            );
                            let c_html = sub.code;
                            reg.push(
                                Proc {
                                    meta: Meta {
                                        name: copy_text(&c_id),
                                        file: copy_text(&c_file),
                                        cursor: crate::statica_t::Cursor { line: ln, col: 0 },
                                    },
                                    html: copy_text(&c_html),
                                    is_fragment: None,
                                    props: None,
                                    usage: 0,
                                    usage_html: None,
                                    usage_inner_html: None,
                                    usage_props: None,
                                },
                            );
                            unl.push(
                                Unlisted {
                                    meta: Meta {
                                        name: copy_text(&c_id),
                                        file: copy_text(&c_file),
                                        cursor: crate::statica_t::Cursor { line: ln, col: 0 },
                                    },
                                    html: c_html,
                                },
                            );
                            let mut sub_linked = sub.linked;
                            append_linked(&mut linked_here, sub_linked);
                            append_diags(&mut diags_here, sub.diagnostics);
                            proof {
                                reveal(scan_spec);
                                assert(reg_views(reg@) =~= reg0 + seq![reg@[reg@.len() - 1]@]);
                                assert(unl_views(unl@) =~= unl0 + seq![unl@[unl@.len() - 1]@]);
                            }
                            let rest = scan(ls, i + 1, ln_add(ln, 1), reg, unl, file, cwd, store, records, is_comp, depth);
                            let mut linked = linked_here;
                            append_linked(&mut linked, rest.linked);
                            let mut diagnostics = diags_here;
                            append_diags(&mut diagnostics, rest.diagnostics);
                            let mut styles = sub.styles;
                            append_texts(&mut styles, rest.styles);
                            let mut scripts = sub.scripts;
                            append_texts(&mut scripts, rest.scripts);
                            proof {
                                reveal(scan_spec);
                                assert(crate::statica_t::linked_views(linked@) =~= res.linked);
                                assert(diag_views(diagnostics@) =~= res.diags);
                                assert(views(styles@) =~= res.styles);
                                assert(views(scripts@) =~= res.scripts);
                            }
                            return ScanOut {
                                code: rest.code,
                                linked,
                                diagnostics,
                                styles,
                                scripts,
                            };
                        }
                    },
                    None => {
                        diags_here.push(
                            Diagnostic {
                                kind: DiagnosticKind::MissingLinkedAsset,
                                meta: Meta {
                                    name: copy_text(&c_id),
                                    file: c_file,
                                    cursor: crate::statica_t::Cursor { line: ln, col: 0 },
                                },
                                html: trim(&ls[i]),
                            },
                        );
                    },
                },
                None => {},
            }
        },
        None => {},
    }
    let rest = scan(ls, i + 1, ln_add(ln, 1), reg, unl, file, cwd, store, records, is_comp, depth);
    let mut linked = linked_here;
    append_linked(&mut linked, rest.linked);
    let mut diagnostics = diags_here;
    append_diags(&mut diagnostics, rest.diagnostics);
    proof {
        reveal(scan_spec);
        assert(crate::statica_t::linked_views(linked@) =~= res.linked);
        assert(diag_views(diagnostics@) =~= res.diags);
    }
    return ScanOut {
        code: rest.code,
        linked,
        diagnostics,
        styles: rest.styles,
        scripts: rest.scripts,
    };
}

/// A component usage: a registered id renders through its passes and its
/// registration leaves the unused list; an unregistered one is dropped
/// with one diagnostic.
#[verifier::rlimit(100)]
#[verifier::spinoff_prover]
fn scan_component_tag(
    ls: &Vec<Text>,
    i: usize,
    ln: usize,
    reg: &mut Vec<Proc>,
    unl: &mut Vec<Unlisted>,
    file: &Text,
    cwd: &Text,
    store: &FileStore,
    records: &Data,
    is_comp: bool,
    depth: u32,
) -> (out: ScanOut)
    requires
        i < ls@.len(),
        crate::statica_t::data_wf(records),
        views(ls@)[i as int].len() > 0,
        !starts_with_spec(
            trim_start_spec(views(ls@)[i as int]),
            crate::tokens::comment_start_tok(),
        ),
        !(ln > 1 && crate::scan::is_uncommented_spec(views(ls@)[i as int], template_start_tok())
            && contains_spec(trim_start_spec(views(ls@)[i as int]), seq!['>']) && map_lookup(
            get_attrs_inline_spec(trim_start_spec(views(ls@)[i as int])),
            seq!['i', 'd'],
        ) is Some),
        !(starts_with_spec(trim_start_spec(views(ls@)[i as int]), crate::tokens::link_start_tok())
            && contains_spec(trim_start_spec(views(ls@)[i as int]), crate::tokens::href_attr_tok())
            && contains_spec(trim_start_spec(views(ls@)[i as int]), seq!['>'])
            && token_before_comment_spec(views(ls@)[i as int], crate::tokens::link_start_tok())
            && contains_spec(
            trim_start_spec(views(ls@)[i as int]),
            crate::tokens::rel_component_tok(),
        )),
        starts_with_spec(
            trim_start_spec(views(ls@)[i as int]),
            crate::tokens::component_tag_start_tok(),
        ),
        token_before_comment_spec(views(ls@)[i as int], crate::tokens::component_tag_start_tok()),
        tag_name_spec(trim_start_spec(views(ls@)[i as int])) is Some,
    ensures
        ({
            let res = scan_spec(
                views(ls@),
                i as int,
                ln,
                reg_views(old(reg)@),
                unl_views(old(unl)@),
                file@,
                cwd@,
                crate::slots::pair_views(store.files@),
                records,
                is_comp,
                depth,
            );
            &&& out.code@ == res.code
            &&& crate::statica_t::linked_views(out.linked@) == res.linked
            &&& diag_views(out.diagnostics@) == res.diags
            &&& views(out.styles@) == res.styles
            &&& views(out.scripts@) == res.scripts
            &&& reg_views(final(reg)@) == res.reg
            &&& unl_views(final(unl)@) == res.unl
        }),
    decreases depth, ls@.len() - i, 0nat,
{
    let ghost ls_v = views(ls@);
    let ghost reg0 = reg_views(old(reg)@);
    let ghost unl0 = unl_views(old(unl)@);
    let ghost store_v = crate::slots::pair_views(store.files@);
    let ghost res = scan_spec(
        ls_v,
        i as int,
        ln,
        reg0,
        unl0,
        file@,
        cwd@,
        store_v,
        records,
        is_comp,
        depth,
    );
    let n = ls.len();
    proof {
        assert(i < n);
        assert(views(ls@)[i as int] == ls@[i as int]@);
    }
    let here = capture_links(ls, i, file, cwd, store, ln);
    let mut linked_here = here.0;
    let mut diags_here = here.1;
    let trimmed = trim_start(&ls[i]);
    let c_name = match get_tag_name(&trimmed) {
        Some(name) => name,
        None => {
            proof {
                assert(false);
            }
            Vec::new()
        },
    };
    match index_of_proc(reg, &c_name) {
        None => {
            let d = Diagnostic {
                kind: DiagnosticKind::UndefinedComponent,
                meta: Meta {
                    name: c_name,
                    file: copy_text(file),
                    cursor: crate::statica_t::Cursor { line: ln, col: 0 },
                },
                html: trim(&ls[i]),
            };
            let ghost d_v = d@;
            diags_here.push(d);
            let rest = scan(ls, i + 1, ln_add(ln, 1), reg, unl, file, cwd, store, records, is_comp, depth);
            let mut linked = linked_here;
            append_linked(&mut linked, rest.linked);
            let mut diagnostics = diags_here;
            append_diags(&mut diagnostics, rest.diagnostics);
            proof {
                reveal(scan_spec);
                assert(crate::statica_t::linked_views(linked@) =~= res.linked);
                assert(diag_views(diagnostics@) =~= res.diags);
            }
            return ScanOut {
                code: rest.code,
                linked,
                diagnostics,
                styles: rest.styles,
                scripts: rest.scripts,
            };
        },
        Some(j) => {
            let mut data = reg.remove(j);
            proof {
                assert(data@ == reg0[j as int]);
            }
            data.usage_html_mut(Some(trim(&ls[i])));
            let cout = transform_component(ls, i, &mut data, is_comp, records);
            if data.usage < u64::MAX {
                data.inc_usage(1);
            }
            let ghost proc3 = data@;
            reg.insert(j, data);
            proof {
                assert(reg_views(reg@) =~= reg0.update(j as int, proc3));
            }
            remove_unlisted(unl, &c_name);
            let d = cout.next - i;
            proof {
                assert(next_line(i as int, cout.next as int, ls_v.len() as int)
                    == cout.next as int);
            }
            let rest = scan(ls, cout.next, ln_add(ln, d), reg, unl, file, cwd, store, records, is_comp, depth);
            let mut code = cout.html;
            code.push('\n');
            push_all(&mut code, &rest.code);
            let mut linked = linked_here;
            append_linked(&mut linked, rest.linked);
            let mut diagnostics = diags_here;
            append_diags(&mut diagnostics, cout.diagnostics);
            append_diags(&mut diagnostics, rest.diagnostics);
            let mut styles = cout.styles;
            append_texts(&mut styles, rest.styles);
            let mut scripts = cout.scripts;
            append_texts(&mut scripts, rest.scripts);
            proof {
                reveal(scan_spec);
                assert(code@ =~= res.code);
                assert(crate::statica_t::linked_views(linked@) =~= res.linked);
                assert(diag_views(diagnostics@) =~= res.diags);
                assert(views(styles@) =~= res.styles);
                assert(views(scripts@) =~= res.scripts);
            }
            return ScanOut { code, linked, diagnostics, styles, scripts };
        },
    }
}

/// One scan over the lines of a source, from line `i` on: empty lines and
/// ordinary text are copied, asset links captured, comments copied
/// verbatim, definitions registered innermost-first, usages rendered, and
/// every definition still unused at the end reported. The whole result is
/// `scan_spec` of the inputs. `depth` bounds nested definition compiles,
/// so cyclic component references end as diagnostics instead of running
/// away.
#[verifier::loop_isolation(false)]
#[verifier::rlimit(100)]
#[verifier::spinoff_prover]
fn scan(
    ls: &Vec<Text>,
    i: usize,
    ln: usize,
    reg: &mut Vec<Proc>,
    unl: &mut Vec<Unlisted>,
    file: &Text,
    cwd: &Text,
    store: &FileStore,
    records: &Data,
    is_comp: bool,
    depth: u32,
) -> (out: ScanOut)
    requires
        i <= ls@.len(),
        crate::statica_t::data_wf(records),
    ensures
        ({
            let res = scan_spec(
                views(ls@),
                i as int,
                ln,
                reg_views(old(reg)@),
                unl_views(old(unl)@),
                file@,
                cwd@,
                crate::slots::pair_views(store.files@),
                records,
                is_comp,
                depth,
            );
            &&& out.code@ == res.code
            &&& crate::statica_t::linked_views(out.linked@) == res.linked
            &&& diag_views(out.diagnostics@) == res.diags
            &&& views(out.styles@) == res.styles
            &&& views(out.scripts@) == res.scripts
            &&& reg_views(final(reg)@) == res.reg
            &&& unl_views(final(unl)@) == res.unl
        }),
    decreases depth, ls@.len() - i, 1nat,
{
    let ghost ls_v = views(ls@);
    let ghost reg0 = reg_views(old(reg)@);
    let ghost unl0 = unl_views(old(unl)@);
    let ghost store_v = crate::slots::pair_views(store.files@);
    let ghost res = scan_spec(
        ls_v,
        i as int,
        ln,
        reg0,
        unl0,
        file@,
        cwd@,
        store_v,
        records,
        is_comp,
        depth,
    );
    let n = ls.len();
    if i >= n {
        let mut diags: Vec<Diagnostic> = Vec::new();
        let m = unl.len();
        let mut k: usize = 0;
        while k < m
            invariant
                m == unl@.len(),
                0 <= k <= m,
                diag_views(diags@) == unused_diags_spec(unl_views(unl@)).take(k as int),
            decreases m - k,
        {
            let ghost before = diag_views(diags@);
            let d = Diagnostic {
                kind: DiagnosticKind::UnusedComponent,
                meta: unl[k].meta.duplicate(),
                html: copy_text(&unl[k].html),
            };
            proof {
                assert(unl_views(unl@)[k as int] == unl@[k as int]@);
                assert(unused_diags_spec(unl_views(unl@))[k as int] == d@);
            }
            diags.push(d);
            proof {
                assert(diag_views(diags@) =~= before + seq![d@]);
                assert(before + seq![d@] =~= unused_diags_spec(unl_views(unl@)).take(k as int + 1));
            }
            k += 1;
        }
        proof {
            reveal(scan_spec);
            assert(unused_diags_spec(unl_views(unl@)).take(m as int) =~= unused_diags_spec(
                unl_views(unl@),
            ));
            assert(views(ls@).skip(i as int) =~= Seq::<Seq<char>>::empty());
        }
        let out_linked: Vec<Linked> = Vec::new();
        let out_styles: Vec<Text> = Vec::new();
        let out_scripts: Vec<Text> = Vec::new();
        proof {
            assert(crate::statica_t::linked_views(out_linked@) =~= Seq::<LinkedV>::empty());
            assert(views(out_styles@) =~= Seq::<Seq<char>>::empty());
            assert(views(out_scripts@) =~= Seq::<Seq<char>>::empty());
        }
        return ScanOut {
            code: Vec::new(),
            linked: out_linked,
            diagnostics: diags,
            styles: out_styles,
            scripts: out_scripts,
        };
    }
    proof {
        assert(views(ls@)[i as int] == ls@[i as int]@);
    }
    // Empty lines are copied as they are.
    if ls[i].len() == 0 {
        let rest = scan(ls, i + 1, ln_add(ln, 1), reg, unl, file, cwd, store, records, is_comp, depth);
        let mut code: Text = Vec::new();
        code.push('\n');
        push_all(&mut code, &rest.code);
        proof {
            reveal(scan_spec);
            assert(code@ =~= seq!['\n'] + rest.code@);
        }
        return ScanOut {
            code,
            linked: rest.linked,
            diagnostics: rest.diagnostics,
            styles: rest.styles,
            scripts: rest.scripts,
        };
    }
    let trimmed = trim_start(&ls[i]);
    // A top-level comment is copied in full, no other rule applying.
    let comment_open = crate::tokens::comment_start_text();
    if starts_with(&trimmed, &comment_open) {
        return scan_comment(ls, i, ln, reg, unl, file, cwd, store, records, is_comp, depth);
    }
    let template_open = template_start_text();
    let mut gt_tok: Text = Vec::new();
    gt_tok.push('>');
    proof {
        assert(gt_tok@ =~= seq!['>']);
    }
    let has_gt = contains(&trimmed, &gt_tok);
    let id_name = crate::text::text_of_str("id");
    proof {
        reveal_strlit("id");
        assert(id_name@ =~= seq!['i', 'd']);
    }
    let has_id_attr: bool = {
        let attrs = get_attrs_inline(&trimmed);
        attrs.get(&id_name).is_some()
    };
    let is_inner_template = ln > 1 && is_uncommented(&ls[i], &template_open) && has_gt;
    if is_inner_template && has_id_attr {
        return scan_template(ls, i, ln, reg, unl, file, cwd, store, records, is_comp, depth);
    }
    let href_tok = crate::tokens::href_attr_text();
    let rel_component_tok = crate::tokens::rel_component_text();
    let link_open = crate::tokens::link_start_text();
    let is_inline_link = starts_with(&trimmed, &link_open) && contains(&trimmed, &href_tok)
        && has_gt && token_before_comment(&ls[i], &link_open);
    let is_component_link = is_inline_link && contains(&trimmed, &rel_component_tok);
    if is_component_link {
        return scan_component_link(ls, i, ln, reg, unl, file, cwd, store, records, is_comp, depth);
    }
    let comp_open = crate::tokens::component_tag_start_text();
    let is_component_tag = starts_with(&trimmed, &comp_open) && token_before_comment(
        &ls[i],
        &comp_open,
    );
    let has_tag_name = get_tag_name(&trimmed).is_some();
    if is_component_tag && has_tag_name {
        return scan_component_tag(ls, i, ln, reg, unl, file, cwd, store, records, is_comp, depth);
    }
    // Anything else is copied, trimmed.
    let here = capture_links(ls, i, file, cwd, store, ln);
    let rest = scan(ls, i + 1, ln_add(ln, 1), reg, unl, file, cwd, store, records, is_comp, depth);
    let mut code = trim(&ls[i]);
    code.push('\n');
    push_all(&mut code, &rest.code);
    let mut linked = here.0;
    append_linked(&mut linked, rest.linked);
    let mut diagnostics = here.1;
    append_diags(&mut diagnostics, rest.diagnostics);
    proof {
        reveal(scan_spec);
        let lv = ls_v[i as int];
        assert(code@ =~= trim_spec(lv) + seq!['\n'] + rest.code@);
        assert(crate::statica_t::linked_views(linked@) =~= res.linked);
        assert(diag_views(diagnostics@) =~= res.diags);
    }
    ScanOut { code, linked, diagnostics, styles: rest.styles, scripts: rest.scripts }
}

/// Everything pooled, flushed behind the compiled text: one namespaced
/// style tag and one namespaced script tag, each present only when its
/// pool holds anything.
pub open spec fn concat_texts(s: Seq<Seq<char>>) -> Seq<char>
    decreases s.len(),
{
    if s.len() == 0 {
        Seq::empty()
    } else {
        s[0] + concat_texts(s.drop_first())
    }
}

proof fn lemma_concat_texts_snoc(s: Seq<Seq<char>>, k: int)
    requires
        0 <= k < s.len(),
    ensures
        concat_texts(s.take(k + 1)) == concat_texts(s.take(k)) + s[k],
    decreases k,
{
    if k == 0 {
        assert(s.take(1) =~= seq![s[0]]);
        assert(s.take(0) =~= Seq::<Seq<char>>::empty());
        assert(seq![s[0]].drop_first() =~= Seq::<Seq<char>>::empty());
        assert(concat_texts(s.take(1)) =~= concat_texts(s.take(0)) + s[0]);
    } else {
        lemma_concat_texts_snoc(s.drop_first(), k - 1);
        assert(s.take(k + 1).drop_first() =~= s.drop_first().take(k));
        assert(s.take(k).drop_first() =~= s.drop_first().take(k - 1));
        assert(s.take(k + 1)[0] == s[0]);
        assert(s.take(k)[0] == s[0]);
        assert(concat_texts(s.take(k + 1)) =~= concat_texts(s.take(k)) + s[k]);
    }
}

/// The page after its pending pools flush: the compiled text, then one
/// pooled style tag and one pooled script tag, each only when its pool
/// holds anything.
pub open spec fn flush_spec(
    code: Seq<char>,
    styles: Seq<Seq<char>>,
    scripts: Seq<Seq<char>>,
) -> Seq<char> {
    let with_style = if styles.len() > 0 {
        code + seq!['\n'] + crate::scope::style_open_tag_spec() + seq!['\n'] + concat_texts(styles)
            + style_end_tag_tok() + seq!['\n']
    } else {
        code
    };
    if scripts.len() > 0 {
        with_style + seq!['\n'] + crate::scope::script_open_tag_spec() + concat_texts(scripts)
            + seq!['\n'] + script_end_tag_tok() + seq!['\n']
    } else {
        with_style
    }
}

/// The marker a pooled script tag carries.
pub open spec fn script_marker() -> Seq<char> {
    crate::scope::data_namespace_prefix() + crate::tokens::global_script_id_tok()
}

/// Both pending pools are empty.
pub open spec fn pools_empty(m: &crate::memory::Memory) -> bool {
    m.component.style@.len() == 0 && m.component.script@.len() == 0
}

/// A page already in compiled form: it starts flush, ends in a newline,
/// every line is an ordinary trimmed line, and it does not call for a
/// client runtime it does not already carry.
pub open spec fn page_plain_spec(code: Seq<char>) -> bool {
    &&& trim_start_spec(code) == code
    &&& (code.len() == 0 || code[code.len() - 1] == '\n')
    &&& all_plain(lines_spec(code), 0)
    &&& (!contains_spec(code, script_marker()) || contains_spec(
        code,
        crate::tokens::global_core_script_id_tok(),
    ))
}

/// A page of ordinary lines and undefined component usages only.
pub open spec fn page_semi_spec(code: Seq<char>) -> bool {
    let compiled = plain_code_spec(lines_spec(code), 0);
    &&& trim_start_spec(code) == code
    &&& (code.len() == 0 || code[code.len() - 1] == '\n')
    &&& all_semi(lines_spec(code), 0)
    &&& (!contains_spec(compiled, script_marker()) || contains_spec(
        compiled,
        crate::tokens::global_core_script_id_tok(),
    ))
}

/// Splitting a newline-terminated text into lines and writing each line
/// back with its newline gives the text back.
pub proof fn lemma_join_lines_identity(code: Seq<char>)
    requires
        code.len() == 0 || code[code.len() - 1] == '\n',
    ensures
        crate::text::join_nl_spec(lines_spec(code)) == code,
{
    if code.len() == 0 {
        assert(lines_spec(code) =~= Seq::<Seq<char>>::empty());
    } else {
        let t = code.drop_last();
        crate::text::lemma_join_nl_split(t, 0);
        assert(t.skip(0) =~= t);
        assert(t + seq!['\n'] =~= code);
    }
}

/// What one page compile hands back, over the views: the scan of the
/// trimmed source with fresh registries, its pools flushed behind the
/// text, and the client runtime injected when a pooled script calls for
/// it.
pub open spec fn transform_post(
    code: Seq<char>,
    file: Seq<char>,
    cwd: Seq<char>,
    store: Seq<(Seq<char>, Seq<char>)>,
    records: &Data,
    core_code: Seq<char>,
    style_pool: Seq<Seq<char>>,
    script_pool: Seq<Seq<char>>,
    depth: u32,
    out: &TransformOutput,
) -> bool {
    let body = trim_start_spec(code);
    let sres = scan_spec(
        lines_spec(body),
        0,
        1,
        Seq::<ProcV>::empty(),
        Seq::<crate::statica_t::UnlistedV>::empty(),
        file,
        cwd,
        store,
        records,
        starts_with_spec(body, template_start_tok()),
        depth,
    );
    let styles_all = style_pool + sres.styles;
    let scripts_all = script_pool + sres.scripts;
    &&& out.code@ == crate::scope::add_core_script_spec(
        flush_spec(sres.code, styles_all, scripts_all),
        core_code,
    )
    &&& crate::statica_t::linked_views(out.linked_list@) == sres.linked
    &&& diag_views(out.diagnostics@) == sres.diags
}

/// The compile is deterministic: two results that both answer the same
/// inputs — source, file, directories, snapshot, records, runtime, pending
/// pools and depth — carry the same compiled text, the same linked assets
/// and the same diagnostics.
pub proof fn lemma_transform_deterministic(
    code: Seq<char>,
    file: Seq<char>,
    cwd: Seq<char>,
    store: Seq<(Seq<char>, Seq<char>)>,
    records: &Data,
    core_code: Seq<char>,
    style_pool: Seq<Seq<char>>,
    script_pool: Seq<Seq<char>>,
    depth: u32,
    out1: &TransformOutput,
    out2: &TransformOutput,
)
    requires
        transform_post(
            code,
            file,
            cwd,
            store,
            records,
            core_code,
            style_pool,
            script_pool,
            depth,
            out1,
        ),
        transform_post(
            code,
            file,
            cwd,
            store,
            records,
            core_code,
            style_pool,
            script_pool,
            depth,
            out2,
        ),
    ensures
        out1.code@ == out2.code@,
        crate::statica_t::linked_views(out1.linked_list@) == crate::statica_t::linked_views(
            out2.linked_list@,
        ),
        diag_views(out1.diagnostics@) == diag_views(out2.diagnostics@),
{
}

/// Compiles one page: scans the source, registers and renders components,
/// queues per-instance style and script into the memory's pending pools,
/// flushes the pools into one tag each, and injects the client runtime
/// when any script was pooled. The whole result — compiled text, linked
/// assets, diagnostics — is `transform_post`, a function of the inputs.
///
/// Recompiling a page that is already fully compiled — no component
/// syntax left, and no runtime call it does not carry — is a no-op: the
/// text comes back byte-identical. A page whose only component syntax is
/// usages of undefined components compiles to the page without them, one
/// diagnostic recorded per dropped usage.
#[verifier::rlimit(100)]
#[verifier::spinoff_prover]
pub fn transform(
    code: &Text,
    file: &Text,
    cwd: &Text,
    store: &FileStore,
    records: &Data,
    core_code: &Text,
    memo: &mut crate::memory::Memory,
    depth: u32,
) -> (out: TransformOutput)
    requires
        crate::statica_t::data_wf(records),
    ensures
        transform_post(
            code@,
            file@,
            cwd@,
            crate::slots::pair_views(store.files@),
            records,
            core_code@,
            views(old(memo).component.style@),
            views(old(memo).component.script@),
            depth,
            &out,
        ),
        final(memo).component.style@.len() == 0,
        final(memo).component.script@.len() == 0,
        final(memo).files == old(memo).files,
        final(memo).linked == old(memo).linked,
        final(memo).edited_asset == old(memo).edited_asset,
        final(memo).watch_mode == old(memo).watch_mode,
        final(memo).edited_env == old(memo).edited_env,
        (page_plain_spec(code@) && pools_empty(old(memo))) ==> {
            &&& out.code@ == code@
            &&& out.linked_list@.len() == 0
            &&& out.diagnostics@.len() == 0
        },
        (page_semi_spec(code@) && pools_empty(old(memo))) ==> {
            let undefs = undef_lines_spec(lines_spec(code@), 0);
            &&& out.code@ == plain_code_spec(lines_spec(code@), 0)
            &&& out.linked_list@.len() == 0
            &&& diag_views(out.diagnostics@).len() == undefs.len()
            &&& (forall|k: int|
                0 <= k < undefs.len() ==> (#[trigger] diag_views(out.diagnostics@)[k]).kind
                    == DiagnosticKind::UndefinedComponent && diag_views(out.diagnostics@)[k].html
                    == undefs[k])
        },
{
    let body = trim_start(code);
    let ls = lines(&body);
    let mut reg: Vec<Proc> = Vec::new();
    let mut unl: Vec<Unlisted> = Vec::new();
    let template_open = template_start_text();
    let is_comp = starts_with(&body, &template_open);
    proof {
        assert(reg_views(reg@) =~= Seq::<ProcV>::empty());
        assert(unl_views(unl@) =~= Seq::<crate::statica_t::UnlistedV>::empty());
    }
    let ghost store_v = crate::slots::pair_views(store.files@);
    let ghost sres = scan_spec(
        lines_spec(trim_start_spec(code@)),
        0,
        1,
        Seq::<ProcV>::empty(),
        Seq::<crate::statica_t::UnlistedV>::empty(),
        file@,
        cwd@,
        store_v,
        records,
        starts_with_spec(trim_start_spec(code@), template_start_tok()),
        depth,
    );
    let sc = scan(&ls, 0, 1, &mut reg, &mut unl, file, cwd, store, records, is_comp, depth);
    proof {
        assert(views(ls@) == lines_spec(trim_start_spec(code@)));
        assert(sc.code@ == sres.code);
        assert(crate::statica_t::linked_views(sc.linked@) == sres.linked);
        assert(diag_views(sc.diagnostics@) == sres.diags);
        assert(views(sc.styles@) == sres.styles);
        assert(views(sc.scripts@) == sres.scripts);
        if page_plain_spec(code@) {
            lemma_scan_spec_plain(
                lines_spec(trim_start_spec(code@)),
                0,
                1,
                Seq::<ProcV>::empty(),
                Seq::<crate::statica_t::UnlistedV>::empty(),
                file@,
                cwd@,
                store_v,
                records,
                starts_with_spec(trim_start_spec(code@), template_start_tok()),
                depth,
            );
            lemma_join_lines_identity(code@);
            assert(unused_diags_spec(
                Seq::<crate::statica_t::UnlistedV>::empty(),
            ) =~= Seq::<DiagnosticV>::empty());
            assert(lines_spec(trim_start_spec(code@)).skip(0) =~= lines_spec(
                trim_start_spec(code@),
            ));
            assert(sres.code == code@);
        }
        if page_semi_spec(code@) {
            lemma_scan_spec_semi(
                lines_spec(trim_start_spec(code@)),
                0,
                1,
                Seq::<crate::statica_t::UnlistedV>::empty(),
                file@,
                cwd@,
                store_v,
                records,
                starts_with_spec(trim_start_spec(code@), template_start_tok()),
                depth,
            );
        }
    }
    append_texts(&mut memo.component.style, sc.styles);
    append_texts(&mut memo.component.script, sc.scripts);
    let ghost styles_all = views(old(memo).component.style@) + sres.styles;
    let ghost scripts_all = views(old(memo).component.script@) + sres.scripts;
    let mut code2 = sc.code;
    proof {
        assert(views(memo.component.style@) == styles_all);
        assert(views(memo.component.script@) == scripts_all);
    }
    let ghost with_style: Seq<char> = if styles_all.len() > 0 {
        sres.code + seq!['\n'] + crate::scope::style_open_tag_spec() + seq!['\n'] + concat_texts(
            styles_all,
        ) + style_end_tag_tok() + seq!['\n']
    } else {
        sres.code
    };
    if memo.component.style.len() > 0 {
        code2.push('\n');
        let style_tag = crate::scope::style_open_tag();
        push_all(&mut code2, &style_tag);
        code2.push('\n');
        let ghost pre = code2@;
        let mut k: usize = 0;
        while k < memo.component.style.len()
            invariant
                views(memo.component.style@) == styles_all,
                0 <= k <= memo.component.style@.len(),
                code2@ == pre + concat_texts(styles_all.take(k as int)),
            decreases memo.component.style@.len() - k,
        {
            let piece = copy_text(&memo.component.style[k]);
            push_all(&mut code2, &piece);
            proof {
                assert(piece@ == styles_all[k as int]);
                lemma_concat_texts_snoc(styles_all, k as int);
            }
            k += 1;
        }
        proof {
            assert(styles_all.take(styles_all.len() as int) =~= styles_all);
        }
        let style_close = style_end_tag_text();
        push_all(&mut code2, &style_close);
        code2.push('\n');
    }
    proof {
        assert(code2@ =~= with_style);
    }
    if memo.component.script.len() > 0 {
        code2.push('\n');
        let script_tag = crate::scope::script_open_tag();
        push_all(&mut code2, &script_tag);
        let ghost pre2 = code2@;
        let mut k: usize = 0;
        while k < memo.component.script.len()
            invariant
                views(memo.component.script@) == scripts_all,
                0 <= k <= memo.component.script@.len(),
                code2@ == pre2 + concat_texts(scripts_all.take(k as int)),
            decreases memo.component.script@.len() - k,
        {
            let piece = copy_text(&memo.component.script[k]);
            push_all(&mut code2, &piece);
            proof {
                assert(piece@ == scripts_all[k as int]);
                lemma_concat_texts_snoc(scripts_all, k as int);
            }
            k += 1;
        }
        proof {
            assert(scripts_all.take(scripts_all.len() as int) =~= scripts_all);
        }
        code2.push('\n');
        let script_close = script_end_tag_text();
        push_all(&mut code2, &script_close);
        code2.push('\n');
        proof {
            assert(code2@ =~= with_style + seq!['\n'] + crate::scope::script_open_tag_spec()
                + concat_texts(scripts_all) + seq!['\n'] + script_end_tag_tok() + seq!['\n']);
        }
    }
    proof {
        assert(code2@ =~= flush_spec(sres.code, styles_all, scripts_all));
    }
    memo.component = crate::memory::Component { style: Vec::new(), script: Vec::new() };
    let with_core = crate::scope::add_core_script(&code2, core_code);
    proof {
        assert(with_core@ == crate::scope::add_core_script_spec(
            flush_spec(sres.code, styles_all, scripts_all),
            core_code@,
        ));
        if page_plain_spec(code@) && pools_empty(old(memo)) {
            assert(styles_all.len() == 0);
            assert(scripts_all.len() == 0);
            assert(code2@ == code@);
            assert(with_core@ == code@);
            assert(sc.linked@.len() == 0) by {
                assert(crate::statica_t::linked_views(sc.linked@).len() == sc.linked@.len());
            }
            assert(sc.diagnostics@.len() == 0) by {
                assert(diag_views(sc.diagnostics@).len() == sc.diagnostics@.len());
            }
        }
        if page_semi_spec(code@) && pools_empty(old(memo)) {
            assert(code2@ == plain_code_spec(lines_spec(code@), 0));
            assert(with_core@ == code2@);
            assert(sc.linked@.len() == 0) by {
                assert(crate::statica_t::linked_views(sc.linked@).len() == sc.linked@.len());
            }
        }
    }
    TransformOutput { linked_list: sc.linked, code: with_core, diagnostics: sc.diagnostics }
}

} // verus!
