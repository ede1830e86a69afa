use zos_server::unified::{
    classify_function, lattice_energy, DatasetSeed, GitManager, HuggingFaceManager, LoadedSoInfo, NixManager,
    P2PVerb, PeerInfo, UnifiedOutcome, UnifiedP2PServer,
};

fn reply(server: &mut UnifiedP2PServer, verb: P2PVerb) -> Result<String, String> {
    match server.execute_verb(verb) {
        UnifiedOutcome::Done(r) => r,
        UnifiedOutcome::NeedsRuntime(_) => panic!("verb needs the runtime"),
    }
}

fn peer(id: &str) -> PeerInfo {
    PeerInfo {
        peer_id: id.to_string(),
        git_endpoint: "https://github.com/user/repo".to_string(),
        huggingface_repo: "user/dataset".to_string(),
        nix_store_path: "/nix/store/...".to_string(),
        mathematical_capabilities: vec!["lattice_analysis".to_string(), "parquet_generation".to_string()],
        dataset_contributions: vec!["rustc_analysis".to_string()],
        last_seen: "2026-01-08T16:00:00Z".to_string(),
        lattice_support: true,
        parquet_generation: true,
    }
}

#[test]
fn new_server_is_empty() {
    let mut s = UnifiedP2PServer::new();
    assert_eq!(s.temp_dir, "/tmp/unified_p2p");
    assert_eq!(
        reply(&mut s, P2PVerb::GetSelfStatus),
        Ok("📊 Server status: Loaded SOs: 0, Rustc: false, Cargo: false, Functions: 0".to_string())
    );
    assert_eq!(reply(&mut s, P2PVerb::ListLoadedSo), Ok("📋 Loaded .so files (0):\n".to_string()));
    let _ = (GitManager::new(), HuggingFaceManager::new(), NixManager::new());
}

#[test]
fn registering_a_peer_records_its_capabilities() {
    let mut s = UnifiedP2PServer::new();
    assert_eq!(reply(&mut s, P2PVerb::RegisterPeer(peer("peer_001"))), Ok("🌐 Registered peer: peer_001".to_string()));
    let caps = s.get_peer_capabilities("peer_001").expect("capabilities");
    assert_eq!(caps.len(), 2);
    assert!(s.get_peer_capabilities("peer_002").is_none());
}

#[test]
fn seeding_a_dataset() {
    let mut s = UnifiedP2PServer::new();
    let seed = DatasetSeed {
        dataset_name: "rustc".to_string(),
        version: "1".to_string(),
        mathematical_framework: "lattice".to_string(),
        peer_seeds: vec![peer("p")],
        git_refs: vec![],
        hf_commits: vec![],
        lattice_dimensions: 3,
        function_count: 10,
        total_energy: 99,
    };
    assert_eq!(reply(&mut s, P2PVerb::SeedDataset(seed)), Ok("🌱 Seeded dataset: rustc".to_string()));
    assert_eq!(s.get_dataset_info("rustc").unwrap().total_energy, 99);
}

#[test]
fn lattice_energy_and_classification() {
    let mut s = UnifiedP2PServer::new();
    assert_eq!(
        reply(&mut s, P2PVerb::CalculateLattice("main".to_string(), vec![100, 150])),
        Ok("🧮 Calculated lattice for main: energy=250".to_string())
    );
    let a = s.get_function_analysis("main").unwrap();
    assert_eq!(a.energy, 250);
    assert_eq!(a.classification, "HIGH_ENERGY");
    assert_eq!(a.size, 0);
    reply(&mut s, P2PVerb::CalculateLattice("helper".to_string(), vec![10])).unwrap();
    assert_eq!(
        reply(&mut s, P2PVerb::CompareEnergy("main".to_string(), "helper".to_string())),
        Ok("⚡ main has higher energy than helper (250 vs 10)".to_string())
    );
    assert_eq!(
        reply(&mut s, P2PVerb::CompareEnergy("ghost".to_string(), "helper".to_string())),
        Ok("⚡ ghost has lower energy than helper (0 vs 10)".to_string())
    );
    assert_eq!(
        reply(&mut s, P2PVerb::GenerateParquet("ds".to_string(), "/tmp/out".to_string())),
        Ok("📦 Generated Parquet: ds -> Generated 2 functions to /tmp/out".to_string())
    );
}

#[test]
fn classification_rules() {
    assert_eq!(classify_function("_ZN4core3fmt", 10), "MANGLED_RUST");
    assert_eq!(classify_function("my_fmt_helper", 500), "FORMATTER");
    assert_eq!(classify_function("DebugStruct", 500), "FORMATTER");
    assert_eq!(classify_function("big", 201), "HIGH_ENERGY");
    assert_eq!(classify_function("big", 200), "STANDARD");
    assert_eq!(classify_function("small", 49), "LOW_ENERGY");
    assert_eq!(classify_function("small", 50), "STANDARD");
    assert_eq!(lattice_energy(&vec![1, 2, 3]), 6);
}

#[test]
fn loaded_objects_are_listed_unloaded_and_inspected() {
    let mut s = UnifiedP2PServer::new();
    s.record_loaded_so(LoadedSoInfo {
        name: "math".to_string(),
        path: "/tmp/libmath.so".to_string(),
        symbols: vec!["add".to_string(), "multiply".to_string()],
        load_time: "t".to_string(),
        size: 10,
    });
    assert_eq!(
        reply(&mut s, P2PVerb::ListLoadedSo),
        Ok("📋 Loaded .so files (1):\nmath: 2 symbols (/tmp/libmath.so)".to_string())
    );
    assert_eq!(
        reply(&mut s, P2PVerb::GetSoSymbols("math".to_string())),
        Ok("🔍 Symbols in math (2):\nadd\nmultiply".to_string())
    );
    match s.execute_verb(P2PVerb::ReloadSo("math".to_string())) {
        UnifiedOutcome::NeedsRuntime(P2PVerb::ReloadSo(n)) => assert_eq!(n, "math"),
        _ => panic!("reload needs the loader"),
    }
    assert_eq!(reply(&mut s, P2PVerb::UnloadSo("math".to_string())), Ok("🗑️ Unloaded .so: math".to_string()));
    assert_eq!(reply(&mut s, P2PVerb::UnloadSo("math".to_string())), Ok("⚠️ .so not found: math".to_string()));
    assert_eq!(
        reply(&mut s, P2PVerb::GetSoSymbols("math".to_string())),
        Ok("❌ .so not loaded: math".to_string())
    );
    assert_eq!(
        reply(&mut s, P2PVerb::ReloadSo("math".to_string())),
        Ok("❌ .so not found for reload: math".to_string())
    );
    assert_eq!(
        reply(&mut s, P2PVerb::CallSoFunction("math".to_string(), "add".to_string(), vec![])),
        Err("SO not loaded: math".to_string())
    );
}

#[test]
fn compiler_and_cargo_gates() {
    let mut s = UnifiedP2PServer::new();
    assert_eq!(
        reply(&mut s, P2PVerb::CallRustcMain(vec![])),
        Err("rustc_driver not loaded. Use LoadRustcDriver first.".to_string())
    );
    assert_eq!(reply(&mut s, P2PVerb::GetRustcVersion), Err("rustc_driver not loaded".to_string()));
    assert_eq!(reply(&mut s, P2PVerb::CompileSelf), Err("rustc_driver not loaded for self-compilation".to_string()));
    s.record_rustc_driver("/lib/librustc_driver.so".to_string());
    assert_eq!(reply(&mut s, P2PVerb::GetRustcVersion), Err("rustc_driver SO not found".to_string()));
    assert_eq!(
        reply(&mut s, P2PVerb::CallCargoMain(vec![])),
        Err("Cargo not loaded. Use LoadCargo first.".to_string())
    );
    assert_eq!(
        reply(&mut s, P2PVerb::LoadCargo("cargo".to_string())),
        Ok("📦 Loaded Cargo: Loaded binary path: cargo".to_string())
    );
    match s.execute_verb(P2PVerb::CallCargoMain(vec!["cargo".to_string()])) {
        UnifiedOutcome::NeedsRuntime(_) => {}
        _ => panic!("cargo runs outside"),
    }
    match s.execute_verb(P2PVerb::LoadCargo("libcargo.so".to_string())) {
        UnifiedOutcome::NeedsRuntime(_) => {}
        _ => panic!("a shared cargo is loaded by the loader"),
    }
    assert_eq!(
        reply(&mut s, P2PVerb::CompileToBinary("a".to_string(), "b".to_string(), "exe".to_string())),
        Err("Invalid output type. Use: bin, lib, or so".to_string())
    );
}

#[test]
fn stub_managers_and_defaults() {
    let mut s = UnifiedP2PServer::new();
    assert_eq!(
        reply(&mut s, P2PVerb::SyncGitRepo("https://x".to_string(), "main".to_string())),
        Ok("🔄 Synced repo: https://x (synced)".to_string())
    );
    assert_eq!(
        reply(&mut s, P2PVerb::PublishToHF("ds".to_string(), "u/r".to_string())),
        Ok("🤗 Published to HuggingFace: ds -> published".to_string())
    );
    assert_eq!(
        reply(&mut s, P2PVerb::StartTrace("core".to_string(), "mir".to_string())),
        Ok("🔍 Started trace: core_mir".to_string())
    );
    assert_eq!(
        reply(&mut s, P2PVerb::Extract("src".to_string(), "sel".to_string())),
        Ok("📤 Extracted from src: 0 bytes".to_string())
    );
    assert_eq!(reply(&mut s, P2PVerb::LoadSo("p".to_string(), "x".to_string())), Ok("✅ Loaded plugin: p".to_string()));
    assert_eq!(reply(&mut s, P2PVerb::ClusterFunctions(vec![])), Ok("🤖 Verb executed".to_string()));
}

#[test]
fn nm_output_gives_exported_code_symbols() {
    let out = "0000000000001000 T main\n                 U puts\n0000000000002000 W run_compiler_x\nbad line\n0000000000003000 D data\n";
    assert_eq!(
        zos_server::unified::symbols_from_nm(out),
        vec!["main".to_string(), "run_compiler_x".to_string()]
    );
}

#[test]
fn call_only_candidates_repeat_per_pattern() {
    let syms = vec!["Rustc_Driver_Main".to_string(), "Foo".to_string(), "compile_interface".to_string()];
    assert_eq!(
        zos_server::unified::call_only_functions(&syms),
        vec![
            "Rustc_Driver_Main".to_string(),
            "Rustc_Driver_Main".to_string(),
            "compile_interface".to_string(),
            "compile_interface".to_string(),
        ]
    );
}

#[test]
fn registered_capabilities_survive_other_verbs() {
    let mut s = UnifiedP2PServer::new();
    reply(&mut s, P2PVerb::RegisterPeer(peer("peer_001"))).unwrap();
    let mut other = peer("peer_002");
    other.mathematical_capabilities = vec!["x".to_string()];
    reply(&mut s, P2PVerb::RegisterPeer(other)).unwrap();
    reply(&mut s, P2PVerb::GetSelfStatus).unwrap();
    reply(&mut s, P2PVerb::UnloadSo("none".to_string())).unwrap();
    let caps = s.get_peer_capabilities("peer_001").expect("capabilities");
    assert_eq!(caps, &vec!["lattice_analysis".to_string(), "parquet_generation".to_string()]);
    assert_eq!(s.get_peer_capabilities("peer_002"), Some(&vec!["x".to_string()]));
    assert!(s.get_peer_capabilities("peer_003").is_none());
}
