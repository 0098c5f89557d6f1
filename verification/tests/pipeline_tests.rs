use jampass::memory::{Component, EditedAsset, Memory};
use jampass::statica::{transform, FileStore};
use jampass::statica_t::{Data, DataEntry, Diagnostic, DiagnosticKind, TransformOutput};

fn t(s: &str) -> Vec<char> {
    s.chars().collect()
}

fn s(v: &[char]) -> String {
    v.iter().collect()
}

fn fresh_memory() -> Memory {
    Memory {
        files: Vec::new(),
        linked: Vec::new(),
        component: Component { style: Vec::new(), script: Vec::new() },
        watch_mode: false,
        edited_env: false,
        edited_asset: EditedAsset { was_edited: false, path: Vec::new(), original_path: None },
    }
}

fn no_records() -> Data {
    Data { for_each: Vec::new(), length: 0 }
}

fn compile_with(
    src: &str,
    store: FileStore,
    records: &Data,
) -> (String, Vec<DiagnosticKind>, Vec<(String, String)>) {
    let code = t(src);
    let file = t("/proj/index.html");
    let cwd = t("/proj");
    let core = t("core();");
    let mut memo = fresh_memory();
    let out: TransformOutput = transform(&code, &file, &cwd, &store, records, &core, &mut memo, 8);
    let kinds: Vec<DiagnosticKind> = out.diagnostics.iter().map(|d: &Diagnostic| d.kind).collect();
    let linked: Vec<(String, String)> =
        out.linked_list.iter().map(|l| (s(&l.file), s(&l.asset))).collect();
    (s(&out.code), kinds, linked)
}

fn compile(src: &str) -> (String, Vec<DiagnosticKind>) {
    let (code, kinds, _) = compile_with(src, FileStore { files: Vec::new() }, &no_records());
    (code, kinds)
}

fn adler_hex(text: &str) -> String {
    format!("{:x}", adler::adler32_slice(text.as_bytes()))
}

#[test]
fn idempotence_on_compiled_output() {
    let page = "<html>\n<!-- compiled output -->\n<body>\n<p>hello</p>\n</body>\n</html>\n";
    let (once, kinds) = compile(page);
    assert_eq!(once, page);
    assert!(kinds.is_empty());
    let (twice, kinds2) = compile(&once);
    assert_eq!(twice, once);
    assert!(kinds2.is_empty());
}

#[test]
fn end_to_end_single_usage() {
    let template_line = "<template id=\"x-card\" data-props=\"t:Hi\"><div>$value(\"t\")</div></template>";
    let page = format!("<div id=\"top\"></div>\n{}\n<x-card/>\n", template_line);
    let hash = adler_hex(template_line);
    let expected = format!(
        "<div id=\"top\"></div>\n<div data-x-scope=\"{}_0\" data-x-nested=\"false\" data-x-name=\"x-card\" data-x-instance=\"0\">Hi</div>\n",
        hash
    );
    let (out, kinds) = compile(&page);
    assert_eq!(out, expected);
    assert!(kinds.is_empty());
    let (again, _) = compile(&page);
    assert_eq!(again, out);
}

#[test]
fn scope_ids_differ_per_usage_and_are_stable() {
    let page = "<main></main>\n<template id=\"x-a\"><div>z</div></template>\n<x-a/>\n<x-a/>\n";
    let (out, _) = compile(page);
    let scopes: Vec<&str> = out
        .match_indices("data-x-scope=\"")
        .map(|(i, _)| {
            let rest = &out[i + 14..];
            &rest[..rest.find('"').unwrap()]
        })
        .collect();
    assert_eq!(scopes.len(), 2);
    assert_ne!(scopes[0], scopes[1]);
    assert!(out.contains("data-x-instance=\"0\""));
    assert!(out.contains("data-x-instance=\"1\""));
    let (out2, _) = compile(page);
    assert_eq!(out, out2);
}

#[test]
fn prop_round_trip_defaults() {
    let page = "<main></main>\n<template id=\"x-note\" data-props=\"title:Hello\">\n<div>\n<p>(\"title\")</p>\n<p>('title')</p>\n<span style=\"--title\">x</span>\n</div>\n</template>\n<x-note/>\n";
    let (out, kinds) = compile(page);
    assert!(kinds.is_empty(), "diagnostics: {:?}", kinds);
    assert!(out.contains("<p>Hello</p>"), "missing dquote substitution in {}", out);
    assert!(out.matches("<p>Hello</p>").count() == 2, "squote substitution missing in {}", out);
    assert!(out.contains("--title: Hello;"), "missing css custom property in {}", out);
}

#[test]
fn prop_round_trip_override() {
    let page = "<main></main>\n<template id=\"x-note\" data-props=\"title:Hello\">\n<div>\n<p>(\"title\")</p>\n<p>('title')</p>\n<span style=\"--title\">x</span>\n</div>\n</template>\n<x-note title=\"Bye\"></x-note>\n";
    let (out, kinds) = compile(page);
    assert!(kinds.is_empty(), "diagnostics: {:?}", kinds);
    assert!(out.matches("<p>Bye</p>").count() == 2, "override not applied in {}", out);
    assert!(out.contains("--title: Bye;"), "missing css custom property in {}", out);
    assert!(!out.contains("Hello"));
}

#[test]
fn slot_fidelity() {
    let page = "<main></main>\n<template id=\"x-box\">\n<div>\n<slot name=\"greeting\"></slot>\n<slot></slot>\n</div>\n</template>\n<x-box>\n<span slot=\"greeting\">Hi</span>\n<b>rest</b>\n</x-box>\n";
    let (out, kinds) = compile(page);
    assert!(kinds.is_empty(), "diagnostics: {:?}", kinds);
    assert!(out.contains(">Hi</span>"), "named placement dropped in {}", out);
    assert!(out.contains("<b>rest</b>"), "catch-all placement dropped in {}", out);
    assert!(!out.contains("<slot"), "slot markers left in {}", out);
    assert!(!out.contains("slot=\"greeting\""), "slot attribute not stripped in {}", out);
}

#[test]
fn css_isolation_qualifier() {
    let page = "<main></main>\n<template id=\"x-s\">\n<div class=\"box\">\n<style>\n.box {\ncolor: red;\n}\n</style>\n</div>\n</template>\n<x-s/>\n";
    let (out, kinds) = compile(page);
    assert!(kinds.is_empty(), "diagnostics: {:?}", kinds);
    assert!(out.contains("<style data-namespace=\"_x_style\">"), "pooled style tag missing in {}", out);
    assert!(
        out.contains(":not([data-x-nested=\"true\"]) .box"),
        "nested exclusion missing in {}",
        out
    );
    assert!(out.contains("[data-x-scope=\""), "scope attribute selector missing in {}", out);
    assert!(out.contains("color: red;"));
    // The style block itself left the component markup and went to the pool.
    let body_part = &out[..out.find("<style data-namespace").unwrap()];
    assert!(!body_part.contains("color: red;"));
}

#[test]
fn directive_expansion_three_records() {
    let rec = |name: &str, file: &str| DataEntry {
        file: t(file),
        data: vec![(t("/name"), t(name))],
    };
    let records = Data {
        for_each: vec![rec("A", "a.md"), rec("B", "b.md"), rec("C", "c.md")],
        length: 3,
    };
    let page = "<main></main>\n<template id=\"x-item\" data-props=\"item\"><div>$value(\"/name\")</div></template>\n<x-item :for-each=\"item\" />\n";
    let (out, kinds, _) = compile_with(page, FileStore { files: Vec::new() }, &records);
    assert!(kinds.is_empty(), "diagnostics: {:?}", kinds);
    assert_eq!(out.matches("data-x-name=\"x-item\"").count(), 3, "expected 3 instances in {}", out);
    let a = out.find(">A<").unwrap();
    let b = out.find(">B<").unwrap();
    let c = out.find(">C<").unwrap();
    assert!(a < b && b < c, "records out of order in {}", out);
}

#[test]
fn directive_without_provider_renders_once() {
    let page = "<main></main>\n<template id=\"x-item\" data-props=\"item\"><div>one</div></template>\n<x-item :for-each=\"item\" />\n";
    let (out, _) = compile(page);
    assert_eq!(out.matches("data-x-name=\"x-item\"").count(), 0);
    let records = Data { for_each: Vec::new(), length: 0 };
    let (out2, _, _) = compile_with(page, FileStore { files: Vec::new() }, &records);
    assert_eq!(out2.matches("data-x-name=\"x-item\"").count(), 0);
}

#[test]
fn undefined_usage_dropped_with_one_diagnostic() {
    let page = "<header></header>\n<x-missing/>\n<footer></footer>\n";
    let (out, kinds) = compile(page);
    assert_eq!(out, "<header></header>\n<footer></footer>\n");
    assert_eq!(kinds, vec![DiagnosticKind::UndefinedComponent]);
}

#[test]
fn unused_component_warns() {
    let page = "<main></main>\n<template id=\"x-lonely\"><div>z</div></template>\n";
    let (out, kinds) = compile(page);
    assert!(!out.contains("x-lonely"));
    assert_eq!(kinds, vec![DiagnosticKind::UnusedComponent]);
}

#[test]
fn unresolved_prop_suppresses_pass() {
    let page = "<main></main>\n<template id=\"x-p\" data-props=\"name\">\n<div>\n<p>(\"name\")</p>\n</div>\n</template>\n<x-p/>\n";
    let (out, kinds) = compile(page);
    assert_eq!(kinds, vec![DiagnosticKind::UnresolvedProp]);
    assert!(!out.contains("(\"name\")"), "partial substitution shipped in {}", out);
    assert!(!out.contains("data-x-name=\"x-p\""), "suppressed pass still rendered in {}", out);
}

#[test]
fn linked_asset_recorded_and_missing_reported() {
    let mut store = FileStore { files: Vec::new() };
    store.files.push((t("/proj/style.css"), t("body{}")));
    let page = "<link rel=\"stylesheet\" href=\"./style.css\">\n<link rel=\"stylesheet\" href=\"./absent.css\">\n";
    let (out, kinds, linked) = compile_with(page, store, &no_records());
    assert!(out.contains("<link rel=\"stylesheet\" href=\"./style.css\">"));
    assert_eq!(linked.len(), 1);
    assert_eq!(linked[0].1, "/proj/style.css");
    assert_eq!(kinds, vec![DiagnosticKind::MissingLinkedAsset]);
}

#[test]
fn linked_component_file_compiles_and_registers() {
    let mut store = FileStore { files: Vec::new() };
    store.files.push((
        t("/proj/card.html"),
        t("<template id=\"x-card\"><div>from file</div></template>\n"),
    ));
    let page = "<main></main>\n<link rel=\"component\" id=\"x-card\" href=\"./card.html\">\n<x-card/>\n";
    let (out, kinds, linked) = compile_with(page, store, &no_records());
    assert!(kinds.is_empty(), "diagnostics: {:?}", kinds);
    assert!(out.contains(">from file</div>"), "component body missing in {}", out);
    assert!(out.contains("data-x-name=\"x-card\""));
    assert_eq!(linked.len(), 1);
    assert_eq!(linked[0].1, "/proj/card.html");
}

#[test]
fn malformed_component_empty_output() {
    let mut store = FileStore { files: Vec::new() };
    store.files.push((t("/proj/bad.html"), t("<p>not a template</p>\n")));
    let page = "<main></main>\n<link rel=\"component\" id=\"x-bad\" href=\"./bad.html\">\n<x-bad/>\n";
    let (out, kinds, _) = compile_with(page, store, &no_records());
    assert!(kinds.contains(&DiagnosticKind::MalformedComponent), "kinds: {:?}", kinds);
    assert!(!out.contains("not a template"));
}

#[test]
fn fragment_emits_raw_children() {
    let page = "<main></main>\n<template id=\"x-f\" data-fragment=\"true\">\n<div>\n<em>frag</em>\n</div>\n</template>\n<x-f/>\n";
    let (out, kinds) = compile(page);
    assert!(kinds.is_empty(), "diagnostics: {:?}", kinds);
    assert!(out.contains("<em>frag</em>"));
    assert!(!out.contains("data-x-scope"), "fragment was scoped in {}", out);
}

#[test]
fn script_scoped_and_core_injected() {
    let page = "<body>\n<template id=\"x-j\">\n<div>\n<p>app</p>\n<script>\nlet n = $find(\"p\");\n</script>\n</div>\n</template>\n<x-j/>\n</body>\n";
    let (out, kinds) = compile(page);
    assert!(kinds.is_empty(), "diagnostics: {:?}", kinds);
    assert!(out.contains("<script data-namespace=\"_x_script\">"), "pooled script missing in {}", out);
    assert!(out.contains("(function x_"), "scoped wrapper missing in {}", out);
    assert!(out.contains("_x_QueryByScope"), "query factory rewrite missing in {}", out);
    assert!(!out.contains("$find"), "static query token left in {}", out);
    assert!(out.contains("<script id=\"_x_core_script\">"), "core runtime missing in {}", out);
    assert!(out.contains("core();"));
}

#[test]
fn comments_pass_through_untouched() {
    let page = "<main></main>\n<!-- a note about <x-card/> usage -->\n<p>after</p>\n";
    let (out, kinds) = compile(page);
    assert!(out.contains("<!-- a note about <x-card/> usage -->"));
    assert!(out.contains("<p>after</p>"));
    assert!(kinds.is_empty());
}

#[test]
fn multi_line_comment_consumed_verbatim() {
    let page = "<main></main>\n<!--\n<x-hidden/>\n-->\n<p>tail</p>\n";
    let (out, kinds) = compile(page);
    assert!(out.contains("<x-hidden/>"));
    assert!(out.contains("<p>tail</p>"));
    assert!(kinds.is_empty(), "comment body treated as usage: {:?}", kinds);
}

#[test]
fn paired_usage_inline_inner() {
    let page = "<main></main>\n<template id=\"x-w\">\n<div>\n<slot></slot>\n</div>\n</template>\n<x-w>inner text</x-w>\n";
    let (out, kinds) = compile(page);
    assert!(kinds.is_empty(), "diagnostics: {:?}", kinds);
    assert!(out.contains("inner text"), "inline inner lost in {}", out);
    assert!(!out.contains("<slot"), "marker left in {}", out);
}

#[test]
fn empty_page_compiles_to_empty() {
    let (out, kinds) = compile("");
    assert_eq!(out, "");
    assert!(kinds.is_empty());
}

#[test]
fn cyclic_linked_components_end_with_diagnostics() {
    let mut store = FileStore { files: Vec::new() };
    store.files.push((
        t("/proj/a.html"),
        t("<template id=\"x-a\">\n<div>\n<link rel=\"component\" id=\"x-b\" href=\"./b.html\">\n<x-b/>\n</div>\n</template>\n"),
    ));
    store.files.push((
        t("/proj/b.html"),
        t("<template id=\"x-b\">\n<div>\n<link rel=\"component\" id=\"x-a\" href=\"./a.html\">\n<x-a/>\n</div>\n</template>\n"),
    ));
    let page = "<main></main>\n<link rel=\"component\" id=\"x-a\" href=\"./a.html\">\n<x-a/>\n";
    // The bounded registration depth turns the cycle into diagnostics
    // instead of an endless descent.
    let (out, kinds, _) = compile_with(page, store, &no_records());
    assert!(out.contains("data-x-name=\"x-a\""), "outer component missing in {}", out);
    assert!(kinds.contains(&DiagnosticKind::MalformedComponent), "kinds: {:?}", kinds);
}

#[test]
fn first_line_template_is_the_files_own_definition() {
    let page = "<template id=\"x-self\"><div>a</div></template>\n<x-self/>\n";
    let (out, kinds) = compile(page);
    assert!(out.contains("<template id=\"x-self\">"), "own definition dropped in {}", out);
    assert_eq!(kinds, vec![DiagnosticKind::UndefinedComponent]);
}

#[test]
fn recompiling_compiled_script_page_is_stable() {
    let page = "<body>\n<template id=\"x-j\">\n<div>\n<p>app</p>\n<script>\nwork();\n</script>\n</div>\n</template>\n<x-j/>\n</body>\n";
    let (once, kinds) = compile(page);
    assert!(kinds.is_empty(), "diagnostics: {:?}", kinds);
    let (twice, kinds2) = compile(&once);
    assert!(kinds2.is_empty(), "diagnostics on recompile: {:?}", kinds2);
    let (thrice, kinds3) = compile(&twice);
    assert_eq!(thrice, twice, "a normalized compiled page must be a fixed point");
    assert!(kinds3.is_empty());
}
