use zos_server::wrapping::{calculate_wrapping_cost, select_blobs, WrappingCostAnalyzer};

const SOURCE: &str = "#[derive(Debug)]\nuse std::fmt;\nstruct Foo {\n    x: u32,\n}\n  #[derive(Debug)]  \r\nenum Bar { A }\n";

#[test]
fn needs_and_cost_of_a_source() {
    let mut a = WrappingCostAnalyzer::new();
    let w = a.create_object_wrapper("0123456789abcdef", SOURCE);
    assert_eq!(w.object_id, "0123456789abcdef");
    assert_eq!(w.object_type, "blob");
    assert_eq!(w.required_macros, vec!["#[derive(Debug)]".to_string()]);
    assert_eq!(w.required_imports, vec!["use std::fmt;".to_string()]);
    assert_eq!(w.required_types, vec!["Foo".to_string(), "Bar".to_string()]);
    assert_eq!(w.compilation_deps, vec!["use std::fmt;".to_string()]);
    // 1 + 2*1 + 3*2 + 1*1 + 4*1
    assert_eq!(w.wrapping_cost, 14);
    assert_eq!(a.total_wrapping_cost(), 14);
    assert_eq!(w.content_hash.len() > 0, true);
}

#[test]
fn cost_formula_weights() {
    let v = |n: usize| (0..n).map(|i| i.to_string()).collect::<Vec<String>>();
    assert_eq!(calculate_wrapping_cost(&v(0), &v(0), &v(0), &v(0)), 1);
    assert_eq!(calculate_wrapping_cost(&v(1), &v(2), &v(3), &v(4)), 1 + 2 + 6 + 3 + 16);
}

#[test]
fn same_content_hashes_the_same() {
    let mut a = WrappingCostAnalyzer::new();
    let w1 = a.create_object_wrapper("a", "fn main() {}");
    let w2 = a.create_object_wrapper("b", "fn main() {}");
    let w3 = a.create_object_wrapper("c", "fn main() { }");
    assert_eq!(w1.content_hash, w2.content_hash);
    assert_ne!(w1.content_hash, w3.content_hash);
}

#[test]
fn objects_group_by_frequent_needs() {
    let mut a = WrappingCostAnalyzer::new();
    for id in ["o1", "o2", "o3"] {
        let w = a.create_object_wrapper(id, "#[test]\nstruct Common;\n");
        a.add_object(w);
    }
    let w = a.create_object_wrapper("o4", "use x::y;\n");
    a.add_object(w);
    assert_eq!(a.object_count(), 4);
    let groups = a.find_optimal_wrapping_groups();
    assert_eq!(groups.len(), 2);
    let shared = groups.get("M:#[test]|T:Common;").unwrap();
    assert_eq!(shared, &vec!["o1".to_string(), "o2".to_string(), "o3".to_string()]);
    assert_eq!(groups.get("").unwrap(), &vec!["o4".to_string()]);
    let (single, grouped, savings) = a.optimization_potential(groups.len());
    // three objects of 1 + 2 + 3, one of 1 + 1 + 4
    assert_eq!(single, 3 * 6 + 6);
    assert_eq!(grouped, 20);
    assert_eq!(savings, 4);
}

#[test]
fn blob_lines_are_selected() {
    let out = "aaa blob 10\nbbb tree 20\nccc blob 0\nddd blob 100000\neee blob 99999\nfff blob x\nggg blob\n";
    assert_eq!(select_blobs(out), vec!["aaa".to_string(), "eee".to_string()]);
    let many: String = (0..150).map(|i| format!("h{} blob 5\n", i)).collect();
    assert_eq!(select_blobs(&many).len(), 100);
}

#[test]
fn small_sources_fit() {
    let a = WrappingCostAnalyzer::new();
    assert!(a.wrapper_fits(SOURCE));
    assert!(a.wrapper_fits(""));
}
