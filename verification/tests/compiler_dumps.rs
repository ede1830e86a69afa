use zos_server::compiler_dumper::{
    build_representation_model, classify_representation_type, get_all_dump_configs, model_overlap,
    tokenize_content, RepresentationType, UniversalCompilerDumper,
};

#[test]
fn ten_dumps_in_order() {
    let cs = get_all_dump_configs();
    let names: Vec<&str> = cs.iter().map(|c| c.name.as_str()).collect();
    assert_eq!(
        names,
        vec!["ast", "hir", "mir", "llvm_ir", "assembly", "object", "binary", "expanded", "flowgraph", "borrowck"]
    );
    assert_eq!(cs[5].post_process_cmd, Some("hexdump -C".to_string()));
    assert_eq!(cs[6].rustc_flags, vec!["-o".to_string(), "temp_binary".to_string()]);
    assert_eq!(cs[3].output_extension, "ll");
    assert_eq!(cs[0].post_process_cmd, None);
}

#[test]
fn representation_kinds() {
    assert_eq!(classify_representation_type("binary"), RepresentationType::ELF);
    assert_eq!(classify_representation_type("borrowck"), RepresentationType::DataFlow);
    assert_eq!(classify_representation_type("expanded"), RepresentationType::AST);
}

#[test]
fn object_tokens_are_short() {
    assert_eq!(
        tokenize_content("0000000 7f45 4c46\n0123456789 ab", "object"),
        vec!["0000000".to_string(), "7f45".to_string(), "4c46".to_string(), "ab".to_string()]
    );
    assert_eq!(tokenize_content("  mov  eax,\n ret ", "assembly"), vec!["mov", "eax,", "ret"]);
}

#[test]
fn trigram_model_of_mir() {
    let m = build_representation_model("x y z x y z", "mir");
    assert_eq!(m.total_transitions, 4);
    assert_eq!(m.representation_type, RepresentationType::MIR);
    assert_eq!(m.transitions.get("x y").unwrap().get("z"), Some(&2));
    assert_eq!(m.transitions.get("y z").unwrap().get("x"), Some(&1));
    assert_eq!(m.transitions.len(), 3);
}

#[test]
fn too_few_tokens_give_no_windows() {
    let m = build_representation_model("a b c", "assembly");
    assert_eq!(m.total_transitions, 0);
    assert_eq!(m.transitions.len(), 0);
}

#[test]
fn overlap_of_two_models() {
    let m1 = build_representation_model("a b a c", "object");
    let m2 = build_representation_model("a b d e", "binary");
    // m1: a->b, b->a, a->c ; m2: a->b, b->d, d->e
    assert_eq!(model_overlap(&m1, &m2), (1, 3));
    assert_eq!(model_overlap(&m2, &m1), (1, 2));
    let mut d = UniversalCompilerDumper::new();
    d.add_representation("object", "a b a c");
    d.add_representation("binary", "a b d e");
    assert_eq!(d.overlap_of("object", "binary"), Some((1, 3)));
    assert_eq!(d.overlap_of("object", "hir"), None);
    assert_eq!(d.model_names().len(), 2);
    assert_eq!(d.dump_configurations().len(), 10);
}
