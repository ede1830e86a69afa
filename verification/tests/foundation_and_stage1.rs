use zos_server::community::{calculate_server_token_allocation, new_proposal, ContributedResources, ProposalStatus};
use zos_server::foundation::{CompilerEvent, LibStep, LibVerb, LibWrapperState, PluginDriver, SecurityLevel};
use zos_server::stage1::{ip_from_reply, update_params, update_succeeded, ConfigSettings, DDNSConfig, DdnsState, ZosConfig};

#[test]
fn security_levels_order_and_values() {
    assert!(SecurityLevel::Safe < SecurityLevel::Critical);
    assert_eq!(SecurityLevel::Privileged.value(), 2);
    assert_eq!(SecurityLevel::Safe.value(), 0);
}

#[test]
fn event_stream_bind_maps_in_order() {
    let d = PluginDriver::new()
        .react(CompilerEvent { event_type: 1, data: vec![1] })
        .react(CompilerEvent { event_type: 2, data: vec![2, 3] });
    let d = d.bind(|e: CompilerEvent| CompilerEvent { event_type: e.event_type * 10, data: e.data });
    let types: Vec<u32> = d.extract().iter().map(|e| e.event_type).collect();
    assert_eq!(types, vec![10, 20]);
    assert_eq!(d.extract()[1].data, vec![2, 3]);
}

#[test]
fn library_verbs() {
    let mut s = LibWrapperState::new();
    assert!(matches!(s.execute_verb(LibVerb::ReloadLib), LibStep::Fail(e) if e == "No library path set"));
    assert!(matches!(s.execute_verb(LibVerb::LoadLib("/x.so".to_string())), LibStep::Load(p) if p == "/x.so"));
    assert_eq!(s.library_loaded("/x.so".to_string()), "Library loaded successfully");
    assert!(matches!(s.execute_verb(LibVerb::ReloadLib), LibStep::Load(p) if p == "/x.so"));
    assert!(matches!(s.execute_verb(LibVerb::ReadSymbol("f".to_string())), LibStep::Reply(r) if r == "Symbol f read"));
    assert!(matches!(s.execute_verb(LibVerb::SaveResults("o".to_string())), LibStep::Reply(r) if r == "Results saved to o"));
}

fn resources() -> ContributedResources {
    ContributedResources { cpu_cores: 4, memory_gb: 16, storage_gb: 100, bandwidth_mbps: 10, gpu_units: 1, specialized_hardware: vec![] }
}

#[test]
fn server_tokens_and_proposals() {
    assert_eq!(calculate_server_token_allocation(&resources()), 4000 + 1600 + 1000 + 500 + 5000);
    let p = new_proposal("alice", "T", "D", 10, resources(), 99);
    assert_eq!(p.proposal_id, "prop_alice_99");
    assert_eq!(p.status, ProposalStatus::Voting);
    assert_eq!(p.community_benefit, "Community infrastructure improvement");
}

#[test]
fn stage1_configuration_from_settings() {
    let none = ConfigSettings {
        http_port: None,
        https_port: Some("x".to_string()),
        domain: None,
        cert_path: None,
        key_path: None,
        namecheap_domain: Some("d".to_string()),
        namecheap_host: None,
        namecheap_password: Some("p".to_string()),
    };
    let c = ZosConfig::from_settings(&none);
    assert_eq!((c.http_port, c.https_port, c.domain.as_str()), (8080, 8443, "localhost"));
    assert!(c.ddns.is_none());
    let all = ConfigSettings {
        http_port: Some("9090".to_string()),
        https_port: None,
        domain: Some("node".to_string()),
        cert_path: Some("/c".to_string()),
        key_path: None,
        namecheap_domain: Some("d".to_string()),
        namecheap_host: Some("h".to_string()),
        namecheap_password: Some("p".to_string()),
    };
    let c = ZosConfig::from_settings(&all);
    assert_eq!(c.http_port, 9090);
    let d = c.ddns.unwrap();
    assert_eq!((d.enabled, d.host.as_str(), d.update_interval_minutes), (true, "h", 5));
}

#[test]
fn dynamic_dns_steps() {
    assert_eq!(ip_from_reply("  1.2.3.4\n"), Some("1.2.3.4".to_string()));
    assert_eq!(ip_from_reply(" \n"), None);
    assert!(update_succeeded("<x><ErrCount>0</ErrCount></x>"));
    assert!(!update_succeeded("<ErrCount>1</ErrCount>"));
    let cfg = DDNSConfig { enabled: true, domain: "d".to_string(), host: "h".to_string(), password: "p".to_string(), update_interval_minutes: 5 };
    let params = update_params(&cfg, "1.2.3.4");
    assert_eq!(params[3], ("ip".to_string(), "1.2.3.4".to_string()));
    let mut s = DdnsState::new();
    assert!(s.needs_update("1.2.3.4"));
    assert!(!s.check_outcome("1.2.3.4", Some(false)));
    assert!(s.last_ip.is_none());
    assert!(s.check_outcome("1.2.3.4", Some(true)));
    assert!(!s.needs_update("1.2.3.4"));
    assert!(s.needs_update("5.6.7.8"));
}
