use zos_server::bootstrap::{
    classify_step, crate_build_path, lock_file_content, BootstrapEngine, BuildStage, BuildStep, EigenMatrix,
    EigenMatrixMeta, GovernanceRules, ImmutableSequence, SecurityProperties, StepKind, VerificationHashes,
};
use zos_server::strmap::StrMap;

fn step(name: &str, kind: &str, output: &str) -> BuildStep {
    BuildStep {
        name: name.to_string(),
        step_type: kind.to_string(),
        path: None,
        source: None,
        output: output.to_string(),
        description: None,
        lock_file: None,
        depends_on: None,
        locked_dependencies: None,
        test_command: None,
    }
}

fn stage(name: &str, order: u32, deps: &[&str], steps: Vec<BuildStep>) -> BuildStage {
    BuildStage {
        name: name.to_string(),
        order,
        dependencies: deps.iter().map(|d| d.to_string()).collect(),
        step: steps,
    }
}

fn matrix(stages: Vec<BuildStage>) -> EigenMatrix {
    let s = |x: &str| x.to_string();
    EigenMatrix {
        eigenmatrix: EigenMatrixMeta { version: s("1.0"), bootstrap_hash: s("h"), dao_adoption_block: 7, immutable: true },
        stage: stages,
        verification: VerificationHashes {
            foundation_hash: s("a"),
            build_system_hash: s("b"),
            core_services_hash: s("c"),
            complete_system_hash: s("d"),
        },
        governance: GovernanceRules {
            required_votes: 13,
            voting_period_blocks: 100,
            proposal_deposit: s("1 SOL"),
            emergency_override_seats: vec![1, 2],
        },
        immutable_sequence: ImmutableSequence {
            step_1: s("1"),
            step_2: s("2"),
            step_3: s("3"),
            step_4: s("4"),
            step_5: s("5"),
            step_6: s("6"),
        },
        security: SecurityProperties {
            deterministic_builds: true,
            reproducible_hashes: true,
            zero_external_deps_foundation: true,
            dao_controlled_updates: true,
            fibonacci_governance: true,
            self_hosting_verification: true,
        },
    }
}

#[test]
fn stages_run_by_order_stably() {
    let e = BootstrapEngine::new(matrix(vec![
        stage("c", 2, &[], vec![]),
        stage("a", 0, &[], vec![]),
        stage("b", 2, &[], vec![]),
        stage("z", 1, &[], vec![]),
    ]));
    assert_eq!(e.stage_order(), vec![1, 3, 0, 2]);
}

#[test]
fn dependencies_are_met_by_step_prefixes() {
    let mut e = BootstrapEngine::new(matrix(vec![stage("core", 1, &["foundation", "tools"], vec![])]));
    assert_eq!(e.check_dependencies(0), Err("Missing dependency: foundation".to_string()));
    e.complete_step("foundation", "zos-types");
    assert_eq!(e.completed_steps, vec!["foundation::zos-types".to_string()]);
    assert_eq!(e.check_dependencies(0), Err("Missing dependency: tools".to_string()));
    e.complete_step("tools", "rustc");
    assert_eq!(e.check_dependencies(0), Ok(()));
}

#[test]
fn step_kinds_and_paths() {
    assert_eq!(classify_step(&step("p", "plugin_build", "o")), Ok(StepKind::PluginBuild));
    assert_eq!(classify_step(&step("p", "magic", "o")), Err("Unknown step type: magic".to_string()));
    assert_eq!(crate_build_path(&step("p", "crate_build", "o")), Err("Missing path for crate_build".to_string()));
}

#[test]
fn plugin_and_service_builds_keep_artifacts() {
    let mut e = BootstrapEngine::new(matrix(vec![]));
    assert_eq!(e.plugin_build(&step("p1", "plugin_build", "libp1.so")), Ok(()));
    assert_eq!(e.service_build(&step("s1", "service_build", "s1.bin")), Ok(()));
    assert_eq!(e.build_artifacts.get("p1"), Some(&"libp1.so".to_string()));
    assert_eq!(e.build_artifacts.get("s1"), Some(&"s1.bin".to_string()));
    e.finish_stage(4);
    assert_eq!(e.current_stage, 5);
}

#[test]
fn lock_file_lists_pins() {
    let mut deps: StrMap<String> = StrMap::new();
    deps.insert("serde".to_string(), "1.0.0".to_string());
    deps.insert("toml".to_string(), "0.8".to_string());
    assert_eq!(lock_file_content(&deps), "# Bootstrap lock file\nserde=1.0.0\ntoml=0.8\n");
}

#[test]
fn proposal_json_is_sorted_and_compact() {
    let e = BootstrapEngine::new(matrix(vec![]));
    assert_eq!(
        e.propose_eigenmatrix_update("2.0").unwrap(),
        "{\"changes\":\"Updated rustc_driver lock versions and added new security features\",\"current_version\":\"1.0\",\"proposed_version\":\"2.0\",\"required_votes\":13,\"type\":\"eigenmatrix_update\",\"voting_period\":100}"
    );
}
