use zos_server::minimal_server::{
    call_service, cross_build_script, deploy_response, deploy_script, port_for_wallet, rebuild_script, rebuild_url,
    DeployOutcome, DeployRequest, ServerConfig,
};

#[test]
fn config_defaults_and_settings() {
    let c = ServerConfig::from_settings(None, None);
    assert_eq!((c.http_port, c.domain.as_str(), c.max_users), (8080, "localhost", 50));
    let c = ServerConfig::from_settings(Some("9000"), Some("zos.example"));
    assert_eq!((c.http_port, c.domain.as_str()), (9000, "zos.example"));
    assert_eq!(ServerConfig::from_settings(Some("70000"), None).http_port, 8080);
    assert_eq!(ServerConfig::from_settings(Some("port"), None).http_port, 8080);
}

#[test]
fn wallet_ports() {
    assert_eq!(port_for_wallet("abc"), 20003);
    assert_eq!(port_for_wallet(&"x".repeat(1234)), 20234);
}

#[test]
fn free_services() {
    assert_eq!(call_service("pi"), "π ≈ 3.1415926536 (calculated using Leibniz formula)");
    assert_eq!(call_service("nope"), "Unknown service: nope");
}

#[test]
fn deployment_script_names_instance_and_port() {
    let s = deploy_script("zos2", 8081);
    assert!(s.starts_with("#!/bin/bash\nset -e\necho \"🔧 ZOS1 deploying ZOS2 on port 8081\"\n"));
    assert!(s.contains("sudo mkdir -p /opt/zos2/{bin,data,config,logs}\n"));
    assert!(s.contains("Environment=ZOS_HTTP_PORT=8081\n"));
    assert!(s.ends_with("sudo systemctl start zos2.service\n\necho \"✅ ZOS2 deployed successfully\"\n"));
}

#[test]
fn deployment_replies() {
    let req = DeployRequest {
        target_port: 8081,
        instance_name: "zos2".to_string(),
        rebuild_self: true,
        prepare_windows: false,
    };
    let r = deploy_response(&req, DeployOutcome::Succeeded);
    assert_eq!((r.status.as_str(), r.message.as_str(), r.port), ("success", "ZOS2 deployed successfully", 8081));
    let r = deploy_response(&req, DeployOutcome::ScriptFailed("boom".to_string()));
    assert_eq!((r.status.as_str(), r.message.as_str()), ("error", "Deployment failed: boom"));
    let r = deploy_response(&req, DeployOutcome::TaskFailed("join".to_string()));
    assert_eq!(r.message, "Task failed: join");
    assert_eq!(rebuild_url(&req, true), Some("http://localhost:8081/rebuild".to_string()));
    assert_eq!(rebuild_url(&req, false), None);
}

#[test]
fn rebuild_and_cross_scripts() {
    assert!(!rebuild_script(false).contains("windows"));
    assert!(rebuild_script(true).contains("rustup target add x86_64-pc-windows-gnu\n"));
    let s = cross_build_script(&vec!["a".to_string(), "b".to_string()]);
    assert!(s.contains(
        "\n\necho \"Building for a...\" && cargo build --release --target a\necho \"Building for b...\" && cargo build --release --target b\n\n"
    ));
}
