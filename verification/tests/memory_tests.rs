use jampass::memory::{
    capture_linked_asset, eval_linked_asset_edit, handle_component_rename, html, is_component,
    is_linked_naive, Component, EditedAsset, File, Memory,
};
use jampass::path::{
    evaluate_cwd, extension, file_name, is_data, is_valid_path, path_join, prefix_with_owd,
    starts_with_owd, strip_crate_cwd, strip_cwd, strip_cwd_for_output, strip_data_dir, Strategy,
};
use jampass::scan::evaluate_url;

fn t(s: &str) -> Vec<char> {
    s.chars().collect()
}

fn s(v: &[char]) -> String {
    v.iter().collect()
}

fn fresh_memory() -> Memory {
    Memory {
        files: Vec::new(),
        linked: Vec::new(),
        component: Component { style: Vec::new(), script: Vec::new() },
        watch_mode: false,
        edited_env: false,
        edited_asset: EditedAsset { was_edited: false, path: Vec::new(), original_path: None },
    }
}

#[test]
fn checksum_gate_decides_reprocessing() {
    let mut memo = fresh_memory();
    let file = t("/proj/index.html");
    let code = t("<p>v1</p>");
    assert!(html(&file, &code, &mut memo), "first sight must process");
    assert!(!html(&file, &code, &mut memo), "unchanged content must be skipped");
    let code2 = t("<p>v2</p>");
    assert!(html(&file, &code2, &mut memo), "changed content must reprocess");
    assert!(!html(&file, &code2, &mut memo));
    memo.edited_asset.was_edited = true;
    assert!(html(&file, &code2, &mut memo), "an edited asset forces reprocessing");
}

#[test]
fn components_and_empty_files_skipped() {
    let mut memo = fresh_memory();
    assert!(!html(&t("/proj/c.html"), &t("  <template id=\"x-c\">"), &mut memo));
    assert!(!html(&t("/proj/empty.html"), &t(""), &mut memo));
    assert!(memo.files.is_empty());
}

#[test]
fn clear_resets_fingerprints_keeps_graph() {
    let mut memo = fresh_memory();
    memo.files.push(File { checksum: 7, path: t("/proj/a.html") });
    capture_linked_asset(&t("/proj/a.html"), &t("/proj/s.css"), &mut memo);
    memo.clear();
    assert!(memo.files.is_empty());
    assert_eq!(memo.linked.len(), 1, "clear must keep the dependency graph");
    assert!(!memo.edited_asset.was_edited);
}

#[test]
fn linked_edges_deduplicate() {
    let mut memo = fresh_memory();
    capture_linked_asset(&t("/proj/a.html"), &t("/proj/s.css"), &mut memo);
    capture_linked_asset(&t("/proj/a.html"), &t("/proj/s.css"), &mut memo);
    capture_linked_asset(&t("/proj/b.html"), &t("/proj/s.css"), &mut memo);
    assert_eq!(memo.linked.len(), 1);
    assert_eq!(memo.linked[0].1.len(), 2);
}

#[test]
fn asset_edit_walks_reverse_edges() {
    let mut memo = fresh_memory();
    // card.html is referenced by page.html; page.html is referenced by index.html
    capture_linked_asset(&t("/proj/page.html"), &t("/proj/card.html"), &mut memo);
    capture_linked_asset(&t("/proj/index.html"), &t("/proj/page.html"), &mut memo);
    memo.edited_asset.was_edited = true;
    let out = eval_linked_asset_edit(&t("/proj/card.html"), &mut memo);
    let out_s: Vec<String> = out.iter().map(|v| s(v)).collect();
    assert!(out_s.contains(&"/proj/page.html".to_string()), "direct referencer missing: {:?}", out_s);
    assert!(out_s.contains(&"/proj/index.html".to_string()), "transitive referencer missing: {:?}", out_s);
    assert_eq!(out_s.len(), 2, "no file may be listed twice: {:?}", out_s);
    assert!(!memo.edited_asset.was_edited, "edited mark must be cleared");
}

#[test]
fn cyclic_graph_walk_ends() {
    let mut memo = fresh_memory();
    capture_linked_asset(&t("/proj/a.html"), &t("/proj/b.html"), &mut memo);
    capture_linked_asset(&t("/proj/b.html"), &t("/proj/a.html"), &mut memo);
    let out = eval_linked_asset_edit(&t("/proj/a.html"), &mut memo);
    let out_s: Vec<String> = out.iter().map(|v| s(v)).collect();
    assert!(out_s.contains(&"/proj/b.html".to_string()));
}

#[test]
fn component_rename_remembers_original() {
    let mut memo = fresh_memory();
    capture_linked_asset(&t("/proj/index.html"), &t("/proj/card.html"), &mut memo);
    let first = handle_component_rename(&t("/proj/card.html"), &t("/proj/tile.html"), &mut memo);
    let first_s: Vec<String> = first.iter().map(|v| s(v)).collect();
    assert!(first_s.contains(&"/proj/index.html".to_string()));
    assert_eq!(memo.edited_asset.original_path.as_ref().map(|v| s(v)), Some("/proj/card.html".into()));
    // renaming back to the original name evaluates the original path
    let back = handle_component_rename(&t("/proj/tile.html"), &t("/proj/card.html"), &mut memo);
    let back_s: Vec<String> = back.iter().map(|v| s(v)).collect();
    assert!(back_s.contains(&"/proj/index.html".to_string()));
}

#[test]
fn component_and_linked_detection() {
    assert!(is_component(&t("  <template id=\"x-a\">")));
    assert!(!is_component(&t("<div></div>")));
    assert!(is_linked_naive(&t("a/app.js"), &t("whatever")));
    assert!(is_linked_naive(&t("a/site.css"), &t("whatever")));
    assert!(is_linked_naive(&t("a/card.html"), &t("<template id=\"x-a\">")));
    assert!(!is_linked_naive(&t("a/page.html"), &t("<div></div>")));
}

#[test]
fn path_stripping_and_prefixing() {
    assert_eq!(s(&strip_cwd(&t("/proj/src/a.html"), &t("/proj"))), "src/a.html");
    assert_eq!(s(&strip_cwd(&t("/elsewhere/a.html"), &t("/proj"))), ".");
    assert_eq!(s(&strip_crate_cwd(&t("/pkg/js/core.js"), &t("/pkg"))), "js/core.js");
    assert_eq!(s(&strip_data_dir(&t("/proj/data/posts/a.md"), &t("/proj/data"), &t("/proj"))), "posts/a.md");
    assert_eq!(s(&strip_data_dir(&t("/proj/other/a.md"), &t("/proj/data"), &t("/proj"))), "other/a.md");
    assert_eq!(
        s(&strip_cwd_for_output(&t("/proj/src/a.html"), &t("/proj"), &t("/proj/src"))),
        "a.html"
    );
    assert_eq!(
        s(&prefix_with_owd(&t("/proj/src/a.html"), &t("/proj/public"), &t("/proj"), &t("/proj/src"))),
        "/proj/public/a.html"
    );
    assert_eq!(s(&path_join(&t("/a"), &t("b/c"))), "/a/b/c");
    assert_eq!(s(&path_join(&t("/a"), &t("/abs"))), "/abs");
    assert!(starts_with_owd(&t("/proj/public/a.html"), &t("/proj/public")));
    assert!(!starts_with_owd(&t("/proj/publicity/a.html"), &t("/proj/public")));
}

#[test]
fn path_names_and_extensions() {
    assert_eq!(s(&file_name(&t("/a/b/c.txt"))), "c.txt");
    assert_eq!(extension(&t("/a/b/c.txt")).map(|v| s(&v)), Some("txt".into()));
    assert_eq!(extension(&t("/a/b/.env")), None);
    assert_eq!(extension(&t("/a/b/noext")), None);
}

#[test]
fn data_file_rules() {
    assert!(is_data(&t("/proj/data/posts/a.md"), &t("/proj/data")));
    assert!(is_data(&t("/proj/src/list.data.json"), &t("/proj/data")));
    assert!(!is_data(&t("/proj/src/page.html"), &t("/proj/data")));
}

#[test]
fn valid_path_rules() {
    let owd = t("/proj/public");
    let data = t("/proj/data");
    assert!(is_valid_path(&t("/proj/src/a.html"), &owd, &data));
    assert!(is_valid_path(&t("/proj/.env"), &owd, &data));
    assert!(!is_valid_path(&t("/proj/.git"), &owd, &data));
    assert!(!is_valid_path(&t("/proj/node_modules"), &owd, &data));
    assert!(!is_valid_path(&t("/proj/public/a.html"), &owd, &data));
    assert!(!is_valid_path(&t("/proj/data/a.md"), &owd, &data));
    assert!(!is_valid_path(&t("/proj/.hidden"), &owd, &data));
}

#[test]
fn strategy_selection() {
    assert_eq!(evaluate_cwd(true, false, false), Strategy::Index);
    assert_eq!(evaluate_cwd(false, true, false), Strategy::Index);
    assert_eq!(evaluate_cwd(false, false, true), Strategy::Src);
    assert_eq!(evaluate_cwd(false, false, false), Strategy::Nil);
}

#[test]
fn url_evaluation_forms() {
    let entry = t("/proj/pages/about.html");
    let cwd = t("/proj");
    assert_eq!(
        evaluate_url(&entry, &t("./card.html"), &cwd).map(|v| s(&v)),
        Some("/proj/pages/card.html".into())
    );
    assert_eq!(
        evaluate_url(&entry, &t("/shared/site.css"), &cwd).map(|v| s(&v)),
        Some("/proj/shared/site.css".into())
    );
    assert_eq!(
        evaluate_url(&entry, &t("img/logo.png"), &cwd).map(|v| s(&v)),
        Some("/proj/pages/img/logo.png".into())
    );
    assert_eq!(evaluate_url(&entry, &t(""), &cwd), None);
}
