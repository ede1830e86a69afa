use zos_server::plugin_registry::{sandbox_dir, PluginMetadata, PluginRegistry};

fn meta(name: &str, hash: &str, approved: bool) -> PluginMetadata {
    PluginMetadata {
        name: name.to_string(),
        version: "1.0".to_string(),
        so_path: format!("/opt/{}.so", name),
        so_hash: hash.to_string(),
        dao_approved: approved,
        test_env_passed: false,
        services: vec![],
    }
}

#[test]
fn registrations_follow_dao_approvals() {
    let mut r = PluginRegistry::new();
    assert_eq!(
        r.register_plugin(meta("p", "h1", true)),
        Err("Plugin claims DAO approval but not in registry".to_string())
    );
    assert_eq!(r.register_plugin(meta("p", "h1", false)), Ok(()));
    assert_eq!(r.load_check("p"), Err("Plugin not DAO approved for production".to_string()));
    assert_eq!(r.load_check("q"), Err("Plugin not registered".to_string()));
    r.dao_approve_plugin("p", "h1");
    assert_eq!(r.load_check("p"), Ok("/opt/p.so".to_string()));
    r.dao_approve_plugin("p", "h2");
    assert_eq!(r.register_plugin(meta("p", "h1", true)), Err("Plugin version not DAO approved".to_string()));
    assert_eq!(r.register_plugin(meta("p", "h2", true)), Ok(()));
}

#[test]
fn status_report() {
    let mut r = PluginRegistry::new();
    r.register_plugin(meta("a", "h", false)).unwrap();
    r.dao_approve_plugin("a", "h");
    r.record_loaded("a", vec!["svc".to_string()]);
    assert_eq!(
        r.get_plugin_status(),
        "{\"dao_approved\":1,\"loaded_plugins\":1,\"plugins\":[{\"dao_approved\":true,\"loaded\":true,\"name\":\"a\",\"services\":0,\"version\":\"1.0\"}],\"registered_plugins\":1}"
    );
    assert_eq!(sandbox_dir("a"), "/tmp/zos_plugin_test_a");
}
