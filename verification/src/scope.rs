//! The scoping engine: rewrites a component instance's style rules and
//! script code so they stay confined to that instance's subtree.

use vstd::prelude::*;

use crate::scan::{replace_chunk, replace_chunk_spec, tag_inner, tag_inner_spec};
use crate::statica_t::{nested_exclusion, scoped_selector_spec, ScopedSelector};
use crate::text::{
    contains, contains_spec, copy_text, find, find_spec, lines, lines_spec, match_at, push_all,
    replace_all, replace_all_spec, starts_with, starts_with_spec, subtext, text_of_str, trim,
    trim_spec, Text,
};
use crate::tokens::{
    body_tag_open_tok, body_tag_open_text, global_core_script_id_tok, global_core_script_id_text,
    global_css_id_tok, global_css_id_text, global_script_id_tok, global_script_id_text,
    query_factory_tok, query_factory_text, query_fn_name_tok, query_fn_name_text, script_end_part_tok,
    script_end_part_text, script_end_tag_tok, script_end_tag_text, script_start_tok,
    script_start_text, static_query_fn_tok, static_query_fn_text, style_end_part_tok,
    style_end_part_text, style_start_tok, style_start_text,
};

verus! {

/// `data-namespace="`, the marker prefix on pooled tags.
pub open spec fn data_namespace_prefix() -> Seq<char> {
    seq![
        'd',
        'a',
        't',
        'a',
        '-',
        'n',
        'a',
        'm',
        'e',
        's',
        'p',
        'a',
        'c',
        'e',
        '=',
        '"',
    ]
}

/// `data-namespace="`
pub fn data_namespace_prefix_text() -> (r: Text)
    ensures
        r@ == data_namespace_prefix(),
{
    let r = text_of_str("data-namespace=\"");
    proof {
        reveal_strlit("data-namespace=\"");
        assert(r@ =~= data_namespace_prefix());
    }
    r
}

/// The one pooled style tag of a page.
pub open spec fn style_open_tag_spec() -> Seq<char> {
    style_start_tok() + seq![' '] + data_namespace_prefix() + global_css_id_tok() + seq!['"', '>']
}

/// Builds the pooled style tag.
pub fn style_open_tag() -> (r: Text)
    ensures
        r@ == style_open_tag_spec(),
{
    let mut r = style_start_text();
    r.push(' ');
    let prefix = data_namespace_prefix_text();
    push_all(&mut r, &prefix);
    let id = global_css_id_text();
    push_all(&mut r, &id);
    r.push('"');
    r.push('>');
    proof {
        assert(r@ =~= style_open_tag_spec());
    }
    r
}

/// The one pooled script tag of a page.
pub open spec fn script_open_tag_spec() -> Seq<char> {
    script_start_tok() + seq![' '] + data_namespace_prefix() + global_script_id_tok() + seq![
        '"',
        '>',
    ]
}

/// Builds the pooled script tag.
pub fn script_open_tag() -> (r: Text)
    ensures
        r@ == script_open_tag_spec(),
{
    let mut r = script_start_text();
    r.push(' ');
    let prefix = data_namespace_prefix_text();
    push_all(&mut r, &prefix);
    let id = global_script_id_text();
    push_all(&mut r, &id);
    r.push('"');
    r.push('>');
    proof {
        assert(r@ =~= script_open_tag_spec());
    }
    r
}

/// The selector standing on a CSS line: what comes before its rule-open
/// brace, trimmed.
pub open spec fn css_selector_of(line: Seq<char>) -> Seq<char> {
    let end_i: int = match find_spec(line, seq!['{']) {
        Some(i) => i,
        None => line.len() as int,
    };
    trim_spec(line.take(end_i))
}

/// A line whose selector is sound to rescope: no at-rule, and the selector
/// part carries no `:`, `}`, `;` or `{`.
pub open spec fn css_valid_selector_line(line: Seq<char>) -> bool {
    let sel = css_selector_of(line);
    !starts_with_spec(line, seq!['@']) && !contains_spec(sel, seq![':']) && !contains_spec(
        sel,
        seq!['}'],
    ) && !contains_spec(sel, seq![';']) && !contains_spec(sel, seq!['{'])
}

/// A selector line that the engine rescopes for this scope: valid, a
/// nonempty scope, and not an id selector.
pub open spec fn css_line_is_scoped(line: Seq<char>, scope: Seq<char>) -> bool {
    line.len() > 0 && !contains_spec(line, style_start_tok()) && !contains_spec(
        line,
        style_end_part_tok(),
    ) && css_valid_selector_line(line) && scope.len() > 0 && !starts_with_spec(
        css_selector_of(line),
        seq!['#'],
    )
}

/// What one CSS line contributes: style tag lines vanish into the pooled
/// tag, scoped selector lines are rewritten, everything else passes
/// through.
pub open spec fn css_line_spec(line: Seq<char>, scope: Seq<char>) -> Seq<char> {
    if line.len() == 0 {
        Seq::empty()
    } else if contains_spec(line, style_start_tok()) {
        Seq::empty()
    } else if contains_spec(line, style_end_part_tok()) {
        Seq::empty()
    } else if css_line_is_scoped(line, scope) {
        let open_tok: Seq<char> = if contains_spec(line, seq!['{']) {
            seq!['{']
        } else {
            Seq::empty()
        };
        seq!['\n'] + scoped_selector_spec(css_selector_of(line), scope) + seq![' '] + open_tok
            + seq!['\n']
    } else {
        line + seq!['\n']
    }
}

/// The whole style body, line by line.
pub open spec fn transform_css_lines_spec(ls: Seq<Seq<char>>, scope: Seq<char>) -> Seq<char>
    decreases ls.len(),
{
    if ls.len() == 0 {
        Seq::empty()
    } else {
        css_line_spec(ls[0], scope) + transform_css_lines_spec(ls.drop_first(), scope)
    }
}

/// The scoped form of a style body.
pub open spec fn transform_css_spec(code: Seq<char>, scope: Seq<char>) -> Seq<char> {
    transform_css_lines_spec(lines_spec(code), scope)
}

fn css_line(line: &Text, scope: &Text) -> (r: Text)
    ensures
        r@ == css_line_spec(line@, scope@),
{
    if line.len() == 0 {
        return Vec::new();
    }
    let style_open = style_start_text();
    if contains(line, &style_open) {
        return Vec::new();
    }
    let style_close = style_end_part_text();
    if contains(line, &style_close) {
        return Vec::new();
    }
    let mut brace: Text = Vec::new();
    brace.push('{');
    assert(brace@ =~= seq!['{']);
    let end_i: usize = match find(line, &brace) {
        Some(i) => {
            proof {
                crate::text::lemma_find_from_in_range(line@, brace@, 0);
            }
            i
        },
        None => line.len(),
    };
    let raw_sel = subtext(line, 0, end_i);
    assert(raw_sel@ =~= line@.take(end_i as int));
    let sel = trim(&raw_sel);
    let mut at: Text = Vec::new();
    at.push('@');
    assert(at@ =~= seq!['@']);
    let mut colon: Text = Vec::new();
    colon.push(':');
    assert(colon@ =~= seq![':']);
    let mut close_brace: Text = Vec::new();
    close_brace.push('}');
    assert(close_brace@ =~= seq!['}']);
    let mut semi: Text = Vec::new();
    semi.push(';');
    assert(semi@ =~= seq![';']);
    let valid = !starts_with(line, &at) && !contains(&sel, &colon) && !contains(&sel, &close_brace)
        && !contains(&sel, &semi) && !contains(&sel, &brace);
    let mut hash: Text = Vec::new();
    hash.push('#');
    assert(hash@ =~= seq!['#']);
    let is_id = starts_with(&sel, &hash);
    if valid && scope.len() > 0 && !is_id {
        let scoped = ScopedSelector::new(&sel, scope);
        let mut r: Text = Vec::new();
        r.push('\n');
        push_all(&mut r, &scoped.class);
        r.push(' ');
        if contains(line, &brace) {
            r.push('{');
        }
        r.push('\n');
        proof {
            if contains_spec(line@, seq!['{']) {
                assert(r@ =~= seq!['\n'] + scoped_selector_spec(css_selector_of(line@), scope@)
                    + seq![' '] + seq!['{'] + seq!['\n']);
            } else {
                assert(r@ =~= seq!['\n'] + scoped_selector_spec(css_selector_of(line@), scope@)
                    + seq![' '] + Seq::<char>::empty() + seq!['\n']);
            }
        }
        r
    } else {
        let mut r = copy_text(line);
        r.push('\n');
        assert(r@ =~= line@ + seq!['\n']);
        r
    }
}

/// Rewrites a style body for one scope, line by line.
pub fn transform_css(code: &Text, scope: &Text) -> (r: Text)
    ensures
        r@ == transform_css_spec(code@, scope@),
{
    let ls = lines(code);
    let n = ls.len();
    let mut r: Text = Vec::new();
    proof {
        assert(crate::text::views(ls@).skip(0) =~= crate::text::views(ls@));
        assert(r@ + transform_css_lines_spec(crate::text::views(ls@), scope@)
            =~= transform_css_lines_spec(crate::text::views(ls@), scope@));
    }
    let mut i: usize = 0;
    while i < n
        invariant
            n == ls@.len(),
            0 <= i <= n,
            transform_css_lines_spec(crate::text::views(ls@), scope@) == r@
                + transform_css_lines_spec(crate::text::views(ls@).skip(i as int), scope@),
        decreases n - i,
    {
        let ghost r0 = r@;
        proof {
            let tail = crate::text::views(ls@).skip(i as int);
            assert(tail[0] == ls@[i as int]@);
            assert(tail.drop_first() =~= crate::text::views(ls@).skip(i as int + 1));
            assert(r0 + (css_line_spec(tail[0], scope@) + transform_css_lines_spec(
                tail.drop_first(),
                scope@,
            )) =~= (r0 + css_line_spec(ls@[i as int]@, scope@)) + transform_css_lines_spec(
                crate::text::views(ls@).skip(i as int + 1),
                scope@,
            ));
        }
        let piece = css_line(&ls[i], scope);
        push_all(&mut r, &piece);
        i += 1;
    }
    proof {
        assert(crate::text::views(ls@).skip(n as int) =~= Seq::<Seq<char>>::empty());
        assert(r@ + transform_css_lines_spec(Seq::<Seq<char>>::empty(), scope@) =~= r@);
    }
    r
}

/// A rescoped selector line always carries the nested exclusion, so a
/// parent's scoped rule cannot match inside a nested child component.
pub proof fn lemma_css_scoped_line_isolates(line: Seq<char>, scope: Seq<char>)
    requires
        css_line_is_scoped(line, scope),
    ensures
        contains_spec(css_line_spec(line, scope), nested_exclusion()),
{
    let sel = css_selector_of(line);
    let q = nested_exclusion();
    let p = crate::statica_t::scope_attr_selector(scope);
    let s = scoped_selector_spec(sel, scope);
    let i: int = p.len() as int + 1 + sel.len() as int + 1 + p.len() as int + 2;
    assert(match_at(s, q, i)) by {
        assert(s.subrange(i, i + q.len() as int) =~= q);
    }
    let out = css_line_spec(line, scope);
    let open_tok: Seq<char> = if contains_spec(line, seq!['{']) {
        seq!['{']
    } else {
        Seq::empty()
    };
    assert(out =~= seq!['\n'] + s + (seq![' '] + open_tok + seq!['\n']));
    assert(match_at(out, q, 1 + i)) by {
        assert(out.subrange(1 + i, 1 + i + q.len() as int) =~= s.subrange(i, i + q.len() as int));
    }
    crate::text::lemma_contains_of_match(out, q, 1 + i);
}

/// The scope-bound name of the client query helper: `find_<scope>`.
pub open spec fn scoped_query_fn_name_spec(scope: Seq<char>) -> Seq<char> {
    query_fn_name_tok() + seq!['_'] + scope
}

/// The definition of the scope-bound query helper: a function that defers
/// to the query factory with this scope and instance.
pub open spec fn scoped_query_fn_spec(scope: Seq<char>, instance: u64) -> Seq<char> {
    seq!['f', 'u', 'n', 'c', 't', 'i', 'o', 'n', ' '] + scoped_query_fn_name_spec(scope) + seq![
        '(',
        's',
        'e',
        'l',
        ')',
        ' ',
        '{',
        ' ',
        'r',
        'e',
        't',
        'u',
        'r',
        'n',
        ' ',
    ] + query_factory_tok() + seq!['(', 's', 'e', 'l', ',', ' ', '"'] + scope + seq!['"', ',', ' ']
        + crate::digits::dec_spec(instance as nat) + seq![')', ';', ' ', '}']
}

/// What the static-function pass yields: the helper definitions to add,
/// and the source with each static call rebound to its scoped helper.
pub open spec fn static_fns_spec(code: Seq<char>, scope: Seq<char>, instance: u64) -> (
    Seq<char>,
    Seq<char>,
) {
    if contains_spec(code, static_query_fn_tok()) {
        (
            seq!['\n'] + scoped_query_fn_spec(scope, instance),
            replace_all_spec(code, static_query_fn_tok(), scoped_query_fn_name_spec(scope)),
        )
    } else {
        (Seq::empty(), code)
    }
}

/// Transforms client-bound static functions.
pub fn transform_static_fns(code: &Text, scope: &Text, instance: u64) -> (r: (Text, Text))
    ensures
        r.0@ == static_fns_spec(code@, scope@, instance).0,
        r.1@ == static_fns_spec(code@, scope@, instance).1,
{
    let token = static_query_fn_text();
    if contains(code, &token) {
        let mut fn_name = query_fn_name_text();
        fn_name.push('_');
        push_all(&mut fn_name, scope);
        assert(fn_name@ =~= scoped_query_fn_name_spec(scope@));
        let src = replace_all(code, &token, &fn_name);
        let mut def: Text = Vec::new();
        def.push('\n');
        let head = text_of_str("function ");
        proof {
            reveal_strlit("function ");
            assert(head@ =~= seq!['f', 'u', 'n', 'c', 't', 'i', 'o', 'n', ' ']);
        }
        push_all(&mut def, &head);
        push_all(&mut def, &fn_name);
        let open_args = text_of_str("(sel) { return ");
        proof {
            reveal_strlit("(sel) { return ");
            assert(open_args@ =~= seq![
                '(',
                's',
                'e',
                'l',
                ')',
                ' ',
                '{',
                ' ',
                'r',
                'e',
                't',
                'u',
                'r',
                'n',
                ' ',
            ]);
        }
        push_all(&mut def, &open_args);
        let factory = query_factory_text();
        push_all(&mut def, &factory);
        let call_open = text_of_str("(sel, \"");
        proof {
            reveal_strlit("(sel, \"");
            assert(call_open@ =~= seq!['(', 's', 'e', 'l', ',', ' ', '"']);
        }
        push_all(&mut def, &call_open);
        push_all(&mut def, scope);
        let mid = text_of_str("\", ");
        proof {
            reveal_strlit("\", ");
            assert(mid@ =~= seq!['"', ',', ' ']);
        }
        push_all(&mut def, &mid);
        let num = crate::digits::u64_to_dec(instance);
        push_all(&mut def, &num);
        let tail = text_of_str("); }");
        proof {
            reveal_strlit("); }");
            assert(tail@ =~= seq![')', ';', ' ', '}']);
        }
        push_all(&mut def, &tail);
        proof {
            assert(def@ =~= seq!['\n'] + scoped_query_fn_spec(scope@, instance));
        }
        (def, src)
    } else {
        let empty_text: Text = Vec::new();
        assert(empty_text@ =~= Seq::<char>::empty());
        (empty_text, copy_text(code))
    }
}

/// The scoped form of a script body: an immediately-invoked function keyed
/// by the scope id, static calls rebound; a fragment's script is a bare
/// block, untouched.
pub open spec fn transform_script_spec(code: Seq<char>, scope: Seq<char>, instance: u64) -> Seq<
    char,
> {
    let inner = tag_inner_spec(code, script_end_part_tok());
    if scope.len() > 0 {
        let pair = static_fns_spec(inner, scope, instance);
        seq!['\n', '(', 'f', 'u', 'n', 'c', 't', 'i', 'o', 'n', ' ', 'x', '_'] + scope + seq![
            '(',
            ')',
            ' ',
            '{',
        ] + pair.0 + seq!['\n'] + trim_spec(pair.1) + seq!['}', ')', '(', ')', ';']
    } else {
        seq!['\n', '{', '\n'] + trim_spec(inner) + seq!['\n', '}']
    }
}

/// Rewrites a script block for one scope.
pub fn transform_script(code: &Text, scope: &Text, instance: u64) -> (r: Text)
    ensures
        r@ == transform_script_spec(code@, scope@, instance),
{
    let close = script_end_part_text();
    let inner = tag_inner(code, &close);
    if scope.len() > 0 {
        let pair = transform_static_fns(&inner, scope, instance);
        let mut r: Text = Vec::new();
        let head = text_of_str("\n(function x_");
        proof {
            reveal_strlit("\n(function x_");
            assert(head@ =~= seq![
                '\n',
                '(',
                'f',
                'u',
                'n',
                'c',
                't',
                'i',
                'o',
                'n',
                ' ',
                'x',
                '_',
            ]);
        }
        push_all(&mut r, &head);
        push_all(&mut r, scope);
        let args = text_of_str("() {");
        proof {
            reveal_strlit("() {");
            assert(args@ =~= seq!['(', ')', ' ', '{']);
        }
        push_all(&mut r, &args);
        push_all(&mut r, &pair.0);
        r.push('\n');
        let body = trim(&pair.1);
        push_all(&mut r, &body);
        let tail = text_of_str("})();");
        proof {
            reveal_strlit("})();");
            assert(tail@ =~= seq!['}', ')', '(', ')', ';']);
        }
        push_all(&mut r, &tail);
        proof {
            assert(r@ =~= transform_script_spec(code@, scope@, instance));
        }
        r
    } else {
        let mut r: Text = Vec::new();
        r.push('\n');
        r.push('{');
        r.push('\n');
        let body = trim(&inner);
        push_all(&mut r, &body);
        r.push('\n');
        r.push('}');
        proof {
            assert(r@ =~= transform_script_spec(code@, scope@, instance));
        }
        r
    }
}

/// The page-level client-runtime block injected at the body tag: the body
/// opener, then the core script under its fixed id.
pub open spec fn core_block_spec(core_code: Seq<char>) -> Seq<char> {
    body_tag_open_tok() + script_start_tok() + seq![' ', 'i', 'd', '=', '"']
        + global_core_script_id_tok() + seq!['"', '>', '\n'] + core_code + script_end_tag_tok()
}

/// A page that pools any script gets the client runtime injected once at
/// its body tag; a page that already carries it is left alone.
pub open spec fn add_core_script_spec(source: Seq<char>, core_code: Seq<char>) -> Seq<char> {
    let marker = data_namespace_prefix() + global_script_id_tok();
    if contains_spec(source, marker) && !contains_spec(source, global_core_script_id_tok()) {
        replace_chunk_spec(source, body_tag_open_tok(), core_block_spec(core_code))
    } else {
        source
    }
}

/// Injects the client runtime into a page that needs it.
pub fn add_core_script(source: &Text, core_code: &Text) -> (r: Text)
    ensures
        r@ == add_core_script_spec(source@, core_code@),
{
    let mut marker = data_namespace_prefix_text();
    let script_id = global_script_id_text();
    push_all(&mut marker, &script_id);
    let core_id = global_core_script_id_text();
    if contains(source, &marker) && !contains(source, &core_id) {
        let mut block = body_tag_open_text();
        let script_open = script_start_text();
        push_all(&mut block, &script_open);
        let id_attr = text_of_str(" id=\"");
        proof {
            reveal_strlit(" id=\"");
            assert(id_attr@ =~= seq![' ', 'i', 'd', '=', '"']);
        }
        push_all(&mut block, &id_attr);
        push_all(&mut block, &core_id);
        block.push('"');
        block.push('>');
        block.push('\n');
        push_all(&mut block, core_code);
        let script_close = script_end_tag_text();
        push_all(&mut block, &script_close);
        proof {
            assert(block@ =~= core_block_spec(core_code@));
        }
        let body_open = body_tag_open_text();
        replace_chunk(source, &body_open, &block)
    } else {
        copy_text(source)
    }
}

} // verus!
