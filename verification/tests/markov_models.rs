use zos_server::markov::{
    encode_model, extract_top_transitions, load_model, matrix_csv, top_transitions, TransitionCounts,
    TransitionMatrix, VennMarkovAnalyzer,
};

fn le(x: u32) -> Vec<u8> {
    x.to_le_bytes().to_vec()
}

fn record(from: u32, to: u32, count: u32) -> Vec<u8> {
    let mut v = le(from);
    v.extend(le(to));
    v.extend(le(count));
    v
}

#[test]
fn path_training_counts_each_window() {
    let mut a = VennMarkovAnalyzer::new();
    a.train_path("abab");
    assert_eq!(a.path_total, 3);
    assert_eq!(a.path_model.count_of('a', 'b'), Some(2));
    assert_eq!(a.path_model.count_of('b', 'a'), Some(1));
    assert_eq!(a.path_model.count_of('b', 'b'), None);
    assert_eq!(a.combined_total, 3);
}

#[test]
fn venn_overlaps_partition_the_union() {
    let mut a = VennMarkovAnalyzer::new();
    a.train_path("abc");
    assert!(a.train_content("bcd"));
    let (a_only, b_only, both, union) = a.compute_venn_overlaps();
    assert_eq!((a_only, b_only, both, union), (1, 1, 1, 3));
    assert_eq!(union, a_only + b_only + both);
}

#[test]
fn model_specific_patterns_are_sorted_and_split() {
    let mut a = VennMarkovAnalyzer::new();
    a.train_path("abcb");
    assert!(a.train_content("bcbd"));
    let (path_only, content_only, shared) = a.find_model_specific_patterns();
    // path transitions: ab, bc, cb; content: bc, cb, bd
    assert_eq!(path_only, vec!["abc".to_string()]);
    assert_eq!(content_only, vec!["cbd".to_string()]);
    assert_eq!(shared, vec!["bcb".to_string(), "cbc".to_string()]);
}

#[test]
fn rustc_sources_are_recognised() {
    let mut a = VennMarkovAnalyzer::new();
    assert!(a.consider_file("./compiler/rustc_lexer/src/lib.rs".to_string()));
    assert!(!a.consider_file("./library/core/src/lib.rs".to_string()));
    assert!(!a.consider_file("./compiler/rustc_lexer/README.md".to_string()));
    assert_eq!(a.files_to_train(), 1);
    assert_eq!(zos_server::markov::content_path("./x/rustc_a.rs"), "/mnt/data1/x/rustc_a.rs");
    assert_eq!(zos_server::markov::content_path("x/rustc_a.rs"), "/mnt/data1/x/rustc_a.rs");
}

#[test]
fn encoded_model_groups_records_by_first_character() {
    let mut m = TransitionCounts::new();
    m.record('a', 'b');
    m.record('b', 'c');
    m.record('a', 'c');
    m.record('a', 'b');
    let bytes = encode_model(&m);
    let mut want = le(2);
    want.extend(record('a' as u32, 'b' as u32, 2));
    want.extend(record('a' as u32, 'c' as u32, 1));
    want.extend(record('b' as u32, 'c' as u32, 1));
    assert_eq!(bytes, want);
}

#[test]
fn encoding_then_loading_one_successor_per_character() {
    let mut m = TransitionCounts::new();
    m.record('x', 'y');
    m.record('y', 'z');
    m.record('x', 'y');
    let loaded = load_model(&encode_model(&m));
    assert_eq!(loaded.len(), 2);
    assert_eq!(loaded.count_of('x', 'y'), Some(2));
    assert_eq!(loaded.count_of('y', 'z'), Some(1));
}

#[test]
fn loading_reads_only_what_the_header_announces() {
    let mut data = le(1);
    data.extend(record('a' as u32, 'b' as u32, 5));
    data.extend(record('c' as u32, 'd' as u32, 7));
    let m = load_model(&data);
    assert_eq!(m.len(), 1);
    assert_eq!(m.count_of('a', 'b'), Some(5));
    assert_eq!(m.count_of('c', 'd'), None);
}

#[test]
fn loading_stops_at_a_truncated_record_and_maps_bad_code_points_to_nul() {
    let mut data = le(5);
    data.extend(record(0xD800, 'q' as u32, 3));
    data.extend(vec![1, 2, 3]);
    let m = load_model(&data);
    assert_eq!(m.len(), 1);
    assert_eq!(m.count_of('\0', 'q'), Some(3));
    assert_eq!(load_model(&vec![1, 2]).len(), 0);
}

#[test]
fn later_records_replace_earlier_ones() {
    let mut data = le(2);
    data.extend(record('a' as u32, 'b' as u32, 5));
    data.extend(record('a' as u32, 'b' as u32, 9));
    let m = load_model(&data);
    assert_eq!(m.count_of('a', 'b'), Some(9));
}

#[test]
fn top_transitions_keep_order_among_equal_counts() {
    let items = vec![('a', 'b', 3), ('c', 'd', 5), ('e', 'f', 3), ('g', 'h', 5), ('i', 'j', 1)];
    let top = top_transitions(items, 3);
    assert_eq!(top, vec![('c', 'd', 5), ('g', 'h', 5), ('a', 'b', 3)]);
    assert_eq!(top_transitions(vec![('a', 'b', 1)], 3), vec![('a', 'b', 1)]);
}

#[test]
fn extracting_needs_a_header() {
    assert_eq!(extract_top_transitions(&vec![0, 0]), Err("Cannot read count".to_string()));
}

#[test]
fn extracting_marks_non_ascii_and_keeps_three() {
    let mut data = le(4);
    data.extend(record('a' as u32, 'b' as u32, 1));
    data.extend(record(0x263A, 'c' as u32, 9));
    data.extend(record('d' as u32, 'e' as u32, 4));
    data.extend(record('f' as u32, 'g' as u32, 4));
    let top = extract_top_transitions(&data).unwrap();
    assert_eq!(top, vec![('?', 'c', 9), ('d', 'e', 4), ('f', 'g', 4)]);
}

#[test]
fn transition_matrix_rows_and_csv() {
    let mut tm = TransitionMatrix::new();
    tm.add_model("m.bin".to_string(), vec![('a', 'b', 12)]);
    let matrix = tm.create_transition_matrix();
    assert_eq!(matrix.len(), 2);
    assert_eq!(
        matrix[0],
        vec![
            "Model", "Top1_From", "Top1_To", "Top1_Count", "Top2_From", "Top2_To", "Top2_Count", "Top3_From",
            "Top3_To", "Top3_Count"
        ]
    );
    assert_eq!(matrix[1], vec!["m.bin", "'a'", "'b'", "12", "-", "-", "0", "-", "-", "0"]);
    let csv = matrix_csv(&matrix);
    assert!(csv.ends_with("m.bin,'a','b',12,-,-,0,-,-,0\n"));
    assert!(csv.starts_with("Model,Top1_From,"));
    assert_eq!(tm.model_count(), 1);
}

#[test]
fn pair_totals_aggregate_across_models() {
    let items = vec![('a', 'b', 5), ('x', 'y', 7), ('a', 'b', 4), ('q', 'r', 9), ('x', 'y', 1)];
    let totals = zos_server::markov::aggregate_pair_totals(&items);
    assert_eq!(totals, vec![(('a', 'b'), 9), (('x', 'y'), 8), (('q', 'r'), 9)]);
    assert_eq!(zos_server::markov::transition_instances(&items), 26);
    assert_eq!(
        zos_server::markov::top_totals(totals, 2),
        vec![(('a', 'b'), 9), (('q', 'r'), 9)]
    );
    assert_eq!(zos_server::markov::aggregate_pair_totals(&vec![]), vec![]);
}
