//! The stable textual contract: every token the compiler recognizes or
//! emits, as a spec-level character sequence and as an executable builder.

use vstd::prelude::*;

use crate::text::{text_of_str, Text};

verus! {

/// `<template`
pub open spec fn template_start_tok() -> Seq<char> {
    seq!['<', 't', 'e', 'm', 'p', 'l', 'a', 't', 'e']
}

/// `<template`
pub fn template_start_text() -> (r: Text)
    ensures
        r@ == template_start_tok(),
{
    let r = text_of_str("<template");
    proof {
        reveal_strlit("<template");
        assert(r@ =~= template_start_tok());
    }
    r
}

/// `</template`
pub open spec fn template_end_tok() -> Seq<char> {
    seq!['<', '/', 't', 'e', 'm', 'p', 'l', 'a', 't', 'e']
}

/// `</template`
pub fn template_end_text() -> (r: Text)
    ensures
        r@ == template_end_tok(),
{
    let r = text_of_str("</template");
    proof {
        reveal_strlit("</template");
        assert(r@ =~= template_end_tok());
    }
    r
}

/// `<link`
pub open spec fn link_start_tok() -> Seq<char> {
    seq!['<', 'l', 'i', 'n', 'k']
}

/// `<link`
pub fn link_start_text() -> (r: Text)
    ensures
        r@ == link_start_tok(),
{
    let r = text_of_str("<link");
    proof {
        reveal_strlit("<link");
        assert(r@ =~= link_start_tok());
    }
    r
}

/// `<!--`
pub open spec fn comment_start_tok() -> Seq<char> {
    seq!['<', '!', '-', '-']
}

/// `<!--`
pub fn comment_start_text() -> (r: Text)
    ensures
        r@ == comment_start_tok(),
{
    let r = text_of_str("<!--");
    proof {
        reveal_strlit("<!--");
        assert(r@ =~= comment_start_tok());
    }
    r
}

/// `-->`
pub open spec fn comment_end_tok() -> Seq<char> {
    seq!['-', '-', '>']
}

/// `-->`
pub fn comment_end_text() -> (r: Text)
    ensures
        r@ == comment_end_tok(),
{
    let r = text_of_str("-->");
    proof {
        reveal_strlit("-->");
        assert(r@ =~= comment_end_tok());
    }
    r
}

/// `<x-`
pub open spec fn component_tag_start_tok() -> Seq<char> {
    seq!['<', 'x', '-']
}

/// `<x-`
pub fn component_tag_start_text() -> (r: Text)
    ensures
        r@ == component_tag_start_tok(),
{
    let r = text_of_str("<x-");
    proof {
        reveal_strlit("<x-");
        assert(r@ =~= component_tag_start_tok());
    }
    r
}

/// `x-`
pub open spec fn component_prefix_tok() -> Seq<char> {
    seq!['x', '-']
}

/// `x-`
pub fn component_prefix_text() -> (r: Text)
    ensures
        r@ == component_prefix_tok(),
{
    let r = text_of_str("x-");
    proof {
        reveal_strlit("x-");
        assert(r@ =~= component_prefix_tok());
    }
    r
}

/// `/>`
pub open spec fn unpaired_close_tok() -> Seq<char> {
    seq!['/', '>']
}

/// `/>`
pub fn unpaired_close_text() -> (r: Text)
    ensures
        r@ == unpaired_close_tok(),
{
    let r = text_of_str("/>");
    proof {
        reveal_strlit("/>");
        assert(r@ =~= unpaired_close_tok());
    }
    r
}

/// `data-x-scope`
pub open spec fn data_scope_tok() -> Seq<char> {
    seq!['d', 'a', 't', 'a', '-', 'x', '-', 's', 'c', 'o', 'p', 'e']
}

/// `data-x-scope`
pub fn data_scope_text() -> (r: Text)
    ensures
        r@ == data_scope_tok(),
{
    let r = text_of_str("data-x-scope");
    proof {
        reveal_strlit("data-x-scope");
        assert(r@ =~= data_scope_tok());
    }
    r
}

/// `data-x-nested`
pub open spec fn data_nested_tok() -> Seq<char> {
    seq!['d', 'a', 't', 'a', '-', 'x', '-', 'n', 'e', 's', 't', 'e', 'd']
}

/// `data-x-nested`
pub fn data_nested_text() -> (r: Text)
    ensures
        r@ == data_nested_tok(),
{
    let r = text_of_str("data-x-nested");
    proof {
        reveal_strlit("data-x-nested");
        assert(r@ =~= data_nested_tok());
    }
    r
}

/// `data-x-name`
pub open spec fn data_name_tok() -> Seq<char> {
    seq!['d', 'a', 't', 'a', '-', 'x', '-', 'n', 'a', 'm', 'e']
}

/// `data-x-name`
pub fn data_name_text() -> (r: Text)
    ensures
        r@ == data_name_tok(),
{
    let r = text_of_str("data-x-name");
    proof {
        reveal_strlit("data-x-name");
        assert(r@ =~= data_name_tok());
    }
    r
}

/// `data-x-instance`
pub open spec fn data_instance_tok() -> Seq<char> {
    seq!['d', 'a', 't', 'a', '-', 'x', '-', 'i', 'n', 's', 't', 'a', 'n', 'c', 'e']
}

/// `data-x-instance`
pub fn data_instance_text() -> (r: Text)
    ensures
        r@ == data_instance_tok(),
{
    let r = text_of_str("data-x-instance");
    proof {
        reveal_strlit("data-x-instance");
        assert(r@ =~= data_instance_tok());
    }
    r
}

/// `data-fragment`
pub open spec fn data_fragment_tok() -> Seq<char> {
    seq!['d', 'a', 't', 'a', '-', 'f', 'r', 'a', 'g', 'm', 'e', 'n', 't']
}

/// `data-fragment`
pub fn data_fragment_text() -> (r: Text)
    ensures
        r@ == data_fragment_tok(),
{
    let r = text_of_str("data-fragment");
    proof {
        reveal_strlit("data-fragment");
        assert(r@ =~= data_fragment_tok());
    }
    r
}

/// `data-props`
pub open spec fn data_props_tok() -> Seq<char> {
    seq!['d', 'a', 't', 'a', '-', 'p', 'r', 'o', 'p', 's']
}

/// `data-props`
pub fn data_props_text() -> (r: Text)
    ensures
        r@ == data_props_tok(),
{
    let r = text_of_str("data-props");
    proof {
        reveal_strlit("data-props");
        assert(r@ =~= data_props_tok());
    }
    r
}

/// `:for-each`
pub open spec fn for_each_tok() -> Seq<char> {
    seq![':', 'f', 'o', 'r', '-', 'e', 'a', 'c', 'h']
}

/// `:for-each`
pub fn for_each_text() -> (r: Text)
    ensures
        r@ == for_each_tok(),
{
    let r = text_of_str(":for-each");
    proof {
        reveal_strlit(":for-each");
        assert(r@ =~= for_each_tok());
    }
    r
}

/// `_x_style`
pub open spec fn global_css_id_tok() -> Seq<char> {
    seq!['_', 'x', '_', 's', 't', 'y', 'l', 'e']
}

/// `_x_style`
pub fn global_css_id_text() -> (r: Text)
    ensures
        r@ == global_css_id_tok(),
{
    let r = text_of_str("_x_style");
    proof {
        reveal_strlit("_x_style");
        assert(r@ =~= global_css_id_tok());
    }
    r
}

/// `_x_script`
pub open spec fn global_script_id_tok() -> Seq<char> {
    seq!['_', 'x', '_', 's', 'c', 'r', 'i', 'p', 't']
}

/// `_x_script`
pub fn global_script_id_text() -> (r: Text)
    ensures
        r@ == global_script_id_tok(),
{
    let r = text_of_str("_x_script");
    proof {
        reveal_strlit("_x_script");
        assert(r@ =~= global_script_id_tok());
    }
    r
}

/// `_x_core_script`
pub open spec fn global_core_script_id_tok() -> Seq<char> {
    seq!['_', 'x', '_', 'c', 'o', 'r', 'e', '_', 's', 'c', 'r', 'i', 'p', 't']
}

/// `_x_core_script`
pub fn global_core_script_id_text() -> (r: Text)
    ensures
        r@ == global_core_script_id_tok(),
{
    let r = text_of_str("_x_core_script");
    proof {
        reveal_strlit("_x_core_script");
        assert(r@ =~= global_core_script_id_tok());
    }
    r
}

/// `$find`
pub open spec fn static_query_fn_tok() -> Seq<char> {
    seq!['$', 'f', 'i', 'n', 'd']
}

/// `$find`
pub fn static_query_fn_text() -> (r: Text)
    ensures
        r@ == static_query_fn_tok(),
{
    let r = text_of_str("$find");
    proof {
        reveal_strlit("$find");
        assert(r@ =~= static_query_fn_tok());
    }
    r
}

/// `_x_QueryByScope`
pub open spec fn query_factory_tok() -> Seq<char> {
    seq!['_', 'x', '_', 'Q', 'u', 'e', 'r', 'y', 'B', 'y', 'S', 'c', 'o', 'p', 'e']
}

/// `_x_QueryByScope`
pub fn query_factory_text() -> (r: Text)
    ensures
        r@ == query_factory_tok(),
{
    let r = text_of_str("_x_QueryByScope");
    proof {
        reveal_strlit("_x_QueryByScope");
        assert(r@ =~= query_factory_tok());
    }
    r
}

/// `find`
pub open spec fn query_fn_name_tok() -> Seq<char> {
    seq!['f', 'i', 'n', 'd']
}

/// `find`
pub fn query_fn_name_text() -> (r: Text)
    ensures
        r@ == query_fn_name_tok(),
{
    let r = text_of_str("find");
    proof {
        reveal_strlit("find");
        assert(r@ =~= query_fn_name_tok());
    }
    r
}

/// `<body>`
pub open spec fn body_tag_open_tok() -> Seq<char> {
    seq!['<', 'b', 'o', 'd', 'y', '>']
}

/// `<body>`
pub fn body_tag_open_text() -> (r: Text)
    ensures
        r@ == body_tag_open_tok(),
{
    let r = text_of_str("<body>");
    proof {
        reveal_strlit("<body>");
        assert(r@ =~= body_tag_open_tok());
    }
    r
}

/// `<style`
pub open spec fn style_start_tok() -> Seq<char> {
    seq!['<', 's', 't', 'y', 'l', 'e']
}

/// `<style`
pub fn style_start_text() -> (r: Text)
    ensures
        r@ == style_start_tok(),
{
    let r = text_of_str("<style");
    proof {
        reveal_strlit("<style");
        assert(r@ =~= style_start_tok());
    }
    r
}

/// `</style`
pub open spec fn style_end_part_tok() -> Seq<char> {
    seq!['<', '/', 's', 't', 'y', 'l', 'e']
}

/// `</style`
pub fn style_end_part_text() -> (r: Text)
    ensures
        r@ == style_end_part_tok(),
{
    let r = text_of_str("</style");
    proof {
        reveal_strlit("</style");
        assert(r@ =~= style_end_part_tok());
    }
    r
}

/// `</style>`
pub open spec fn style_end_tag_tok() -> Seq<char> {
    seq!['<', '/', 's', 't', 'y', 'l', 'e', '>']
}

/// `</style>`
pub fn style_end_tag_text() -> (r: Text)
    ensures
        r@ == style_end_tag_tok(),
{
    let r = text_of_str("</style>");
    proof {
        reveal_strlit("</style>");
        assert(r@ =~= style_end_tag_tok());
    }
    r
}

/// `<script`
pub open spec fn script_start_tok() -> Seq<char> {
    seq!['<', 's', 'c', 'r', 'i', 'p', 't']
}

/// `<script`
pub fn script_start_text() -> (r: Text)
    ensures
        r@ == script_start_tok(),
{
    let r = text_of_str("<script");
    proof {
        reveal_strlit("<script");
        assert(r@ =~= script_start_tok());
    }
    r
}

/// `</script`
pub open spec fn script_end_part_tok() -> Seq<char> {
    seq!['<', '/', 's', 'c', 'r', 'i', 'p', 't']
}

/// `</script`
pub fn script_end_part_text() -> (r: Text)
    ensures
        r@ == script_end_part_tok(),
{
    let r = text_of_str("</script");
    proof {
        reveal_strlit("</script");
        assert(r@ =~= script_end_part_tok());
    }
    r
}

/// `</script>`
pub open spec fn script_end_tag_tok() -> Seq<char> {
    seq!['<', '/', 's', 'c', 'r', 'i', 'p', 't', '>']
}

/// `</script>`
pub fn script_end_tag_text() -> (r: Text)
    ensures
        r@ == script_end_tag_tok(),
{
    let r = text_of_str("</script>");
    proof {
        reveal_strlit("</script>");
        assert(r@ =~= script_end_tag_tok());
    }
    r
}

/// `$value("`
pub open spec fn value_open_tok() -> Seq<char> {
    seq!['$', 'v', 'a', 'l', 'u', 'e', '(', '"']
}

/// `$value("`
pub fn value_open_text() -> (r: Text)
    ensures
        r@ == value_open_tok(),
{
    let r = text_of_str("$value(\"");
    proof {
        reveal_strlit("$value(\"");
        assert(r@ =~= value_open_tok());
    }
    r
}

/// `")`
pub open spec fn value_close_tok() -> Seq<char> {
    seq!['"', ')']
}

/// `")`
pub fn value_close_text() -> (r: Text)
    ensures
        r@ == value_close_tok(),
{
    let r = text_of_str("\")");
    proof {
        reveal_strlit("\")");
        assert(r@ =~= value_close_tok());
    }
    r
}

/// `<slot`
pub open spec fn slot_start_tok() -> Seq<char> {
    seq!['<', 's', 'l', 'o', 't']
}

/// `<slot`
pub fn slot_start_text() -> (r: Text)
    ensures
        r@ == slot_start_tok(),
{
    let r = text_of_str("<slot");
    proof {
        reveal_strlit("<slot");
        assert(r@ =~= slot_start_tok());
    }
    r
}

/// `slot=`
pub open spec fn slot_attr_tok() -> Seq<char> {
    seq!['s', 'l', 'o', 't', '=']
}

/// `slot=`
pub fn slot_attr_text() -> (r: Text)
    ensures
        r@ == slot_attr_tok(),
{
    let r = text_of_str("slot=");
    proof {
        reveal_strlit("slot=");
        assert(r@ =~= slot_attr_tok());
    }
    r
}

/// `name="`
pub open spec fn name_attr_open_tok() -> Seq<char> {
    seq!['n', 'a', 'm', 'e', '=', '"']
}

/// `name="`
pub fn name_attr_open_text() -> (r: Text)
    ensures
        r@ == name_attr_open_tok(),
{
    let r = text_of_str("name=\"");
    proof {
        reveal_strlit("name=\"");
        assert(r@ =~= name_attr_open_tok());
    }
    r
}

/// `rel=`
pub open spec fn rel_attr_tok() -> Seq<char> {
    seq!['r', 'e', 'l', '=']
}

/// `rel=`
pub fn rel_attr_text() -> (r: Text)
    ensures
        r@ == rel_attr_tok(),
{
    let r = text_of_str("rel=");
    proof {
        reveal_strlit("rel=");
        assert(r@ =~= rel_attr_tok());
    }
    r
}

/// `href=`
pub open spec fn href_attr_tok() -> Seq<char> {
    seq!['h', 'r', 'e', 'f', '=']
}

/// `href=`
pub fn href_attr_text() -> (r: Text)
    ensures
        r@ == href_attr_tok(),
{
    let r = text_of_str("href=");
    proof {
        reveal_strlit("href=");
        assert(r@ =~= href_attr_tok());
    }
    r
}

/// `src=`
pub open spec fn src_attr_tok() -> Seq<char> {
    seq!['s', 'r', 'c', '=']
}

/// `src=`
pub fn src_attr_text() -> (r: Text)
    ensures
        r@ == src_attr_tok(),
{
    let r = text_of_str("src=");
    proof {
        reveal_strlit("src=");
        assert(r@ =~= src_attr_tok());
    }
    r
}

/// `rel="component"`
pub open spec fn rel_component_tok() -> Seq<char> {
    seq!['r', 'e', 'l', '=', '"', 'c', 'o', 'm', 'p', 'o', 'n', 'e', 'n', 't', '"']
}

/// `rel="component"`
pub fn rel_component_text() -> (r: Text)
    ensures
        r@ == rel_component_tok(),
{
    let r = text_of_str("rel=\"component\"");
    proof {
        reveal_strlit("rel=\"component\"");
        assert(r@ =~= rel_component_tok());
    }
    r
}

/// `id`
pub open spec fn id_attr_tok() -> Seq<char> {
    seq!['i', 'd']
}

/// `id`
pub fn id_attr_text() -> (r: Text)
    ensures
        r@ == id_attr_tok(),
{
    let r = text_of_str("id");
    proof {
        reveal_strlit("id");
        assert(r@ =~= id_attr_tok());
    }
    r
}

/// `true`
pub open spec fn true_lit_tok() -> Seq<char> {
    seq!['t', 'r', 'u', 'e']
}

/// `true`
pub fn true_lit_text() -> (r: Text)
    ensures
        r@ == true_lit_tok(),
{
    let r = text_of_str("true");
    proof {
        reveal_strlit("true");
        assert(r@ =~= true_lit_tok());
    }
    r
}

/// `false`
pub open spec fn false_lit_tok() -> Seq<char> {
    seq!['f', 'a', 'l', 's', 'e']
}

/// `false`
pub fn false_lit_text() -> (r: Text)
    ensures
        r@ == false_lit_tok(),
{
    let r = text_of_str("false");
    proof {
        reveal_strlit("false");
        assert(r@ =~= false_lit_tok());
    }
    r
}

/// `directive`
pub open spec fn directive_source_tok() -> Seq<char> {
    seq!['d', 'i', 'r', 'e', 'c', 't', 'i', 'v', 'e']
}

/// `directive`
pub fn directive_source_text() -> (r: Text)
    ensures
        r@ == directive_source_tok(),
{
    let r = text_of_str("directive");
    proof {
        reveal_strlit("directive");
        assert(r@ =~= directive_source_tok());
    }
    r
}

/// `_x_`
pub open spec fn scope_infix_tok() -> Seq<char> {
    seq!['_', 'x', '_']
}

/// `_x_`
pub fn scope_infix_text() -> (r: Text)
    ensures
        r@ == scope_infix_tok(),
{
    let r = text_of_str("_x_");
    proof {
        reveal_strlit("_x_");
        assert(r@ =~= scope_infix_tok());
    }
    r
}

} // verus!
