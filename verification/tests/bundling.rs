use script_bundler::bundle::{
    build_bundle, bundle_adjacent_script_import_lines, bundle_script_import_lines,
    entry_needs_helper, entry_needs_script, script_adjacent_paths, script_needs_helper,
};
use script_bundler::extract::bundle_common_import_lines;
use script_bundler::imports::extract_function_names_from_import;
use script_bundler::paths::{describe_paths, resolve_adjacent_script_path, PathsMap};

fn lines(xs: &[&str]) -> Vec<String> {
    xs.iter().map(|x| x.to_string()).collect()
}

fn paths_for(root: &str, group: &str, script: &str) -> PathsMap {
    describe_paths(&group.to_string(), &script.to_string(), &root.to_string())
}

#[test]
fn describe_paths_formats_addresses() {
    let p = paths_for("/data", "g1", "s1");
    assert_eq!(p.download, "/data/g1/s1/download.py");
    assert_eq!(p.script, "/data/g1/s1/script.py");
    assert_eq!(p.common_helpers, "/data/common/helpers.py");
    assert_eq!(p.project, "/data");
}

#[test]
fn symbol_list_is_split_and_trimmed() {
    let got = extract_function_names_from_import(&"from common.helpers import a, b ,  c".to_string());
    assert_eq!(got, lines(&["a", "b", "c"]));
}

#[test]
fn no_import_shape_requests_nothing() {
    let got = extract_function_names_from_import(&"x = 1".to_string());
    assert!(got.is_empty());
    let broken = extract_function_names_from_import(&"from a b import x".to_string());
    assert!(broken.is_empty());
}

#[test]
fn import_shape_matches_anywhere_in_the_line() {
    let got = extract_function_names_from_import(&"xfrom m import q".to_string());
    assert_eq!(got, lines(&["q"]));
}

#[test]
fn import_without_symbol_clause_requests_nothing() {
    assert!(extract_function_names_from_import(&"from m import".to_string()).is_empty());
    assert!(extract_function_names_from_import(&"from m import ".to_string()).is_empty());
}

#[test]
fn indented_definitions_are_headers() {
    let helper = lines(&["    def f():", "        return 1", "", "g = 0"]);
    let got = bundle_common_import_lines(&"from common.helpers import f".to_string(), &helper);
    assert_eq!(got, lines(&["    def f():", "        return 1", ""]));
}

#[test]
fn indented_constant_is_a_header() {
    let helper = lines(&["    K = 1", "", "L = 2"]);
    let got = bundle_common_import_lines(&"from common.helpers import K".to_string(), &helper);
    assert_eq!(got, lines(&["    K = 1", ""]));
}

#[test]
fn unicode_whitespace_is_trimmed_from_symbols() {
    let got = extract_function_names_from_import(&"from m import \u{a0}a\u{a0}, b".to_string());
    assert_eq!(got, lines(&["a", "b"]));
}

#[test]
fn helper_extraction_keeps_requested_blocks() {
    let helper = lines(&[
        "HEAD = 0",
        "def alpha(x):",
        "    return 1",
        "",
        "def beta(y):",
        "    return 2",
        "",
        "GAMMA = 3",
    ]);
    let got = bundle_common_import_lines(
        &"from common.helpers import beta, alpha".to_string(),
        &helper,
    );
    let want = lines(&[
        "def alpha(x):",
        "    return 1",
        "",
        "def beta(y):",
        "    return 2",
        "",
    ]);
    assert_eq!(got, want);
}

#[test]
fn extraction_is_idempotent() {
    let helper = lines(&["K = 1", "", "def f(a):", "    return a", "", "L = 2"]);
    let line = "from common.helpers import f, K".to_string();
    let first = bundle_common_import_lines(&line, &helper);
    let second = bundle_common_import_lines(&line, &helper);
    assert_eq!(first, second);
}

#[test]
fn absent_symbol_yields_empty() {
    let helper = lines(&["K = 1", "def f(a):", "    return a"]);
    let got = bundle_common_import_lines(&"from common.helpers import missing".to_string(), &helper);
    assert!(got.is_empty());
}

#[test]
fn blank_line_closes_block_dedent_does_not() {
    let helper = lines(&["def f():", "    return 1", "x = 2", "", "y = 3"]);
    let got = bundle_common_import_lines(&"from common.helpers import f".to_string(), &helper);
    assert_eq!(got, lines(&["def f():", "    return 1", "x = 2", ""]));
}

#[test]
fn non_import_lines_unchanged_in_order() {
    let entry = lines(&["a = 1", "print(a)", "import os", "b = 2"]);
    let p = paths_for("/r", "g", "s");
    let got = build_bundle(&entry, &None, &None, &Vec::new(), &p);
    assert_eq!(got, lines(&["a = 1", "print(a)", "b = 2"]));
}

#[test]
fn helper_import_spliced_in_place() {
    let entry = lines(&["start = 1", "from common.helpers import CONST_X, helper_fn", "end = 2"]);
    let helper = lines(&["CONST_X = 1", "def helper_fn(): return 1", "", "CONST_Y = 2"]);
    let p = paths_for("/r", "g", "s");
    let got = build_bundle(&entry, &Some(helper), &None, &Vec::new(), &p);
    let want = lines(&["start = 1", "CONST_X = 1", "def helper_fn(): return 1", "", "end = 2"]);
    assert_eq!(got, want);
}

#[test]
fn adjacent_address_from_dotted_path() {
    let p = paths_for("/r", "entry_group", "entry_script");
    let got = resolve_adjacent_script_path("from groupA.scriptB.utils import helper", &p);
    assert_eq!(got, Some("/r/groupA/scriptB/utils.py".to_string()));
}

#[test]
fn adjacent_address_ignores_entry_context() {
    let line = "from groupA.scriptB.utils import helper";
    let p1 = paths_for("/r", "one_group", "one_script");
    let p2 = paths_for("/r", "another_group", "another_script");
    assert_eq!(
        resolve_adjacent_script_path(line, &p1),
        resolve_adjacent_script_path(line, &p2)
    );
    let p3 = paths_for("/other", "one_group", "one_script");
    assert_eq!(
        resolve_adjacent_script_path(line, &p3),
        Some("/other/groupA/scriptB/utils.py".to_string())
    );
}

#[test]
fn too_few_dotted_segments_do_not_resolve() {
    let p = paths_for("/r", "g", "s");
    assert_eq!(resolve_adjacent_script_path("from a.b import x", &p), None);
    assert_eq!(resolve_adjacent_script_path("import onlyone", &p), None);
    assert_eq!(resolve_adjacent_script_path("lonely", &p), None);
}

#[test]
fn sibling_script_resolution() {
    let script = lines(&[
        "s = 1",
        "from common.helpers import K",
        "from groupA.scriptB.utils import t",
    ]);
    let helper = lines(&["K = 9", "", "L = 8"]);
    let adjacent = vec![lines(&["t1 = 0"])];
    let p = paths_for("/r", "g", "s");
    let got = bundle_script_import_lines(&script, &helper, &p, &adjacent);
    assert_eq!(got, lines(&["s = 1", "K = 9", "", "t1 = 0"]));
}

#[test]
fn adjacent_markers_resolve_via_helper_module() {
    let helper = lines(&["AA = 7", "", "CC = 1"]);
    let adjacent = lines(&["from common.helpers import AA", "keep = 1"]);
    let got = bundle_adjacent_script_import_lines(&adjacent, &helper);
    assert_eq!(got, lines(&["AA = 7", "", "keep = 1"]));
}

#[test]
fn entry_script_family_resolution() {
    let entry = lines(&["x = 1", "from pkg.script import run"]);
    let script = lines(&["s = 1"]);
    let p = paths_for("/r", "g", "s");
    let got = build_bundle(&entry, &None, &Some(script), &Vec::new(), &p);
    assert_eq!(got, lines(&["x = 1", "s = 1"]));
}

#[test]
fn fetch_need_predicates() {
    assert!(entry_needs_helper(&lines(&["from common.helpers import a"])));
    assert!(!entry_needs_helper(&lines(&["import x", "a = 1"])));
    assert!(!entry_needs_helper(&lines(&["print(common.helpers)"])));
    assert!(entry_needs_script(&lines(&["from pkg.script import y"])));
    assert!(!entry_needs_script(&lines(&["from common.helpers import a"])));
    assert!(script_needs_helper(&lines(&["a = 1", "from common.helpers import b"])));
    assert!(!script_needs_helper(&lines(&["a = 1"])));
}

#[test]
fn adjacent_paths_listed_in_line_order() {
    let script = lines(&[
        "from g1.s1.f1 import a",
        "keep = 1",
        "from g2.s2.f2 import b",
        "from nodots import c",
    ]);
    let p = paths_for("/r", "g", "s");
    let got = script_adjacent_paths(&script, &p);
    assert_eq!(got, lines(&["/r/g1/s1/f1.py", "/r/g2/s2/f2.py"]));
}
