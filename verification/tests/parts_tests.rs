use jampass::checksum::{checksum, scope_id};
use jampass::data::{get_data_file_name, slugify};
use jampass::digits::{u64_to_dec, u64_to_hex};
use jampass::scan::{
    consume_inner_html_inline, get_attrs_inline, get_props_dict, get_tag_name, get_valid_id,
    has_root_node, is_text_node, is_uncommented, replace_chunk,
};
use jampass::scope::{add_core_script, transform_css, transform_script, transform_static_fns};
use jampass::slots::fill_component_slots;
use jampass::statica_t::{
    attrs_to_string, DataEntry, Prop, PropMap, PropMeta, Props, ScopedSelector,
};

fn t(s: &str) -> Vec<char> {
    s.chars().collect()
}

fn s(v: &[char]) -> String {
    v.iter().collect()
}

#[test]
fn decimal_and_hex_rendering() {
    assert_eq!(s(&u64_to_dec(0)), "0");
    assert_eq!(s(&u64_to_dec(42)), "42");
    assert_eq!(s(&u64_to_dec(1009)), "1009");
    assert_eq!(s(&u64_to_hex(0)), "0");
    assert_eq!(s(&u64_to_hex(255)), "ff");
    assert_eq!(s(&u64_to_hex(0x11e60398)), "11e60398");
}

#[test]
fn checksum_matches_adler() {
    let text = "Wikipedia";
    let sum = checksum(&t(text));
    assert_eq!(sum.as_u32, adler::adler32_slice(text.as_bytes()));
    assert_eq!(sum.as_u32, 0x11e60398);
    assert_eq!(s(&sum.as_hex), "11e60398");
}

#[test]
fn scope_id_shape_and_uniqueness() {
    let body = t("  <template id=\"x-a\"><p>z</p></template>  ");
    let first = s(&scope_id(&body, 0));
    let second = s(&scope_id(&body, 1));
    let again = s(&scope_id(&body, 0));
    assert_ne!(first, second);
    assert_eq!(first, again);
    let trimmed = "<template id=\"x-a\"><p>z</p></template>";
    let expected = format!("{:x}_0", adler::adler32_slice(trimmed.as_bytes()));
    assert_eq!(first, expected);
}

#[test]
fn tag_names_and_ids() {
    assert_eq!(get_tag_name(&t("<div class=\"a\">")).map(|v| s(&v)), Some("div".into()));
    assert_eq!(get_tag_name(&t("  <x-card/>")).map(|v| s(&v)), Some("x-card".into()));
    assert_eq!(get_tag_name(&t("plain text")), None);
    assert_eq!(get_tag_name(&t("<!-- comment -->")), None);
    assert_eq!(get_tag_name(&t("</div>")), None);
    assert_eq!(get_valid_id(&t("x-card")).map(|v| s(&v)), Some("x-card".into()));
    assert_eq!(get_valid_id(&t("card")), None);
    assert_eq!(get_valid_id(&t("x-")), None);
}

#[test]
fn uncommented_gate() {
    assert!(is_uncommented(&t("<link rel=\"x\">"), &t("rel=")));
    assert!(!is_uncommented(&t("<!-- <link rel=\"x\"> -->"), &t("rel=")));
    assert!(!is_uncommented(&t("<p>nothing here</p>"), &t("rel=")));
}

#[test]
fn text_and_root_nodes() {
    assert!(is_text_node(&t("hello world")));
    assert!(!is_text_node(&t("<div>hello</div>")));
    assert!(has_root_node(&t("<div>Hi</div>")));
    assert!(has_root_node(&t("<div>\n<p>a</p>\n</div>")));
    assert!(!has_root_node(&t("just text")));
    assert!(!has_root_node(&t("")));
}

#[test]
fn inline_inner_content() {
    assert_eq!(consume_inner_html_inline(&t("<x-w>inner</x-w>")).map(|v| s(&v)), Some("inner".into()));
    assert_eq!(consume_inner_html_inline(&t("<x-w/>")), None);
}

#[test]
fn chunk_replacement_trims() {
    let out = replace_chunk(&t("  a MID b  "), &t("MID"), &t("x"));
    assert_eq!(s(&out), "a x b");
}

#[test]
fn attrs_and_props_dictionaries() {
    let attrs = get_attrs_inline(&t("<a rel=\"component\" href=\"./c.html\" id=\"x-c\">"));
    assert_eq!(attrs.get(&t("rel")).and_then(|p| p.value.as_ref()).map(|v| s(v)), Some("component".into()));
    assert_eq!(attrs.get(&t("href")).and_then(|p| p.value.as_ref()).map(|v| s(v)), Some("./c.html".into()));
    assert_eq!(attrs.get(&t("id")).and_then(|p| p.value.as_ref()).map(|v| s(v)), Some("x-c".into()));
    let dict = get_props_dict(Some(&t("title:Hello, count:3, flag")));
    assert_eq!(dict.get(&t("title")).and_then(|p| p.default.as_ref()).map(|v| s(v)), Some("Hello".into()));
    assert_eq!(dict.get(&t("count")).and_then(|p| p.default.as_ref()).map(|v| s(v)), Some("3".into()));
    assert!(dict.get(&t("flag")).map(|p| p.default.is_none()).unwrap());
    assert!(dict.get(&t("absent")).is_none());
}

#[test]
fn prop_renders_as_attribute() {
    let mut p = Prop::new(&t("title"));
    assert_eq!(s(&p.to_string()), "title=\"\" ");
    p.value_mut(Some(t("Hello")));
    assert_eq!(s(&p.to_string()), "title=\"Hello\" ");
    let unnamed = Prop::new(&t(""));
    assert_eq!(s(&unnamed.to_string()), "");
}

#[test]
fn props_add_and_render() {
    let mut map = PropMap::new();
    map.insert(Prop::new(&t("id")));
    let mut props = Props::new(map);
    props.add_prop(&t("class"), Some(t("a")));
    props.add_prop(&t("class"), Some(t("b")));
    let rendered = s(&props.to_string());
    assert_eq!(rendered, "id=\"\" class=\"a b\" ");
}

#[test]
fn prop_map_insert_replaces_and_remove_removes() {
    let mut map = PropMap::new();
    let mut a = Prop::new(&t("k"));
    a.value_mut(Some(t("one")));
    map.insert(a);
    let mut b = Prop::new(&t("k"));
    b.value_mut(Some(t("two")));
    map.insert(b);
    assert_eq!(map.len(), 1);
    assert_eq!(map.get(&t("k")).and_then(|p| p.value.as_ref()).map(|v| s(v)), Some("two".into()));
    map.remove(&t("k"));
    assert!(map.get(&t("k")).is_none());
    let rendered = s(&attrs_to_string(&map));
    assert_eq!(rendered, "");
}

#[test]
fn scoped_selector_forms() {
    let scoped = ScopedSelector::new(&t(".box"), &t("abc_0"));
    assert_eq!(
        s(&scoped.class),
        "[data-x-scope=\"abc_0\"] .box,[data-x-scope=\"abc_0\"]> :not([data-x-nested=\"true\"]) .box"
    );
    assert_eq!(s(&scoped.name), ".box_x_abc_0");
    assert!(ScopedSelector::is_scoped(&t("box_x_abc")));
    assert!(!ScopedSelector::is_scoped(&t("box")));
}

#[test]
fn css_rewriting_rules() {
    let css = t("<style>\n.box {\ncolor: red;\n}\n#id {\nx: y;\n}\n@media x {\n}\n</style>");
    let out = s(&transform_css(&css, &t("sc_0")));
    assert!(out.contains("[data-x-scope=\"sc_0\"] .box,[data-x-scope=\"sc_0\"]> :not([data-x-nested=\"true\"]) .box {"));
    assert!(out.contains("color: red;"));
    assert!(out.contains("#id {"), "id selectors must not be rescoped: {}", out);
    assert!(out.contains("@media x {"), "at-rules must not be rescoped: {}", out);
    assert!(!out.contains("<style"), "style tag lines must vanish into the pool: {}", out);
}

#[test]
fn static_fns_rewrite() {
    let (defs, src) = transform_static_fns(&t("let a = $find(\"p\");"), &t("sc_0"), 3);
    assert_eq!(s(&src), "let a = find_sc_0(\"p\");");
    assert_eq!(
        s(&defs),
        "\nfunction find_sc_0(sel) { return _x_QueryByScope(sel, \"sc_0\", 3); }"
    );
    let (defs2, src2) = transform_static_fns(&t("no tokens"), &t("sc_0"), 3);
    assert_eq!(s(&defs2), "");
    assert_eq!(s(&src2), "no tokens");
}

#[test]
fn script_wrapping() {
    let scoped = s(&transform_script(&t("<script>\nwork();\n</script>"), &t("sc_0"), 0));
    assert_eq!(scoped, "\n(function x_sc_0() {\nwork();})();");
    let unscoped = s(&transform_script(&t("<script>\nwork();\n</script>"), &t(""), 0));
    assert_eq!(unscoped, "\n{\nwork();\n}");
}

#[test]
fn core_script_injection_is_idempotent() {
    let page = t("<body>\n<script data-namespace=\"_x_script\">\nz\n</script>\n");
    let once = add_core_script(&page, &t("core();"));
    let once_s = s(&once);
    assert!(once_s.contains("<script id=\"_x_core_script\">"));
    assert_eq!(once_s.matches("core();").count(), 1);
    let twice = add_core_script(&once, &t("core();"));
    assert_eq!(s(&twice), once_s);
    let plain = add_core_script(&t("<body>\n<p>a</p>\n"), &t("core();"));
    assert_eq!(s(&plain), "<body>\n<p>a</p>\n");
}

#[test]
fn slot_filling_direct() {
    let body = t("<div>\n<slot name=\"greeting\"></slot>\n<slot></slot>\n</div>");
    let children = t("<span slot=\"greeting\">Hi</span>\n<b>rest</b>");
    let out = s(&fill_component_slots(&body, &children));
    assert!(out.contains(">Hi</span>"), "named slot not filled: {}", out);
    assert!(out.contains("<b>rest</b>"), "catch-all not filled: {}", out);
    assert!(!out.contains("slot=\"greeting\""), "slot attribute kept: {}", out);
    assert!(!out.contains("<slot"), "markers left: {}", out);
}

#[test]
fn unmatched_slot_marker_is_left() {
    let body = t("<div>\n<slot name=\"missing\"></slot>\n</div>");
    let children = t("<b>rest</b>");
    let out = s(&fill_component_slots(&body, &children));
    assert!(out.contains("<slot name=\"missing\">"), "unmatched marker dropped: {}", out);
}

#[test]
fn data_record_pointer() {
    let entry = DataEntry::new(t("a.md"), vec![(t("/name"), t("A")), (t("/n/deep"), t("B"))]);
    assert_eq!(entry.pointer(&t("/name")).map(|v| s(&v)), Some("A".into()));
    assert_eq!(entry.pointer(&t("/n/deep")).map(|v| s(&v)), Some("B".into()));
    assert_eq!(entry.pointer(&t("/gone")), None);
}

#[test]
fn data_names_and_slugs() {
    assert_eq!(s(&get_data_file_name(&t("posts/hello.data.json"))), "hello");
    assert_eq!(s(&get_data_file_name(&t("posts/hello.md"))), "hello");
    assert_eq!(s(&slugify(&t("a b/c\nd"))), "a-b-c-d");
    let mut meta = PropMeta { source: t("directive") };
    meta.source.push('!');
    assert_eq!(s(&meta.source), "directive!");
}
