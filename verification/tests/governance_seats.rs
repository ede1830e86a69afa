use zos_server::governance::{
    compile_result, compile_workspace, get_chamber_info, get_seat_resources, has_dev_center_access, AccessLevel,
    LibP2PVerb, PluginInfo, VerbRegistry, VerbReply,
};

#[test]
fn chambers_and_ports() {
    assert_eq!(get_chamber_info(0), ("root", 5000));
    assert_eq!(get_chamber_info(1), ("senate", 5001));
    assert_eq!(get_chamber_info(100), ("senate", 5100));
    assert_eq!(get_chamber_info(101), ("representatives", 5201));
    assert_eq!(get_chamber_info(600), ("representatives", 5700));
    assert_eq!(get_chamber_info(601), ("vendors", 6301));
    assert_eq!(get_chamber_info(1618), ("vendors", 7318));
    assert_eq!(get_chamber_info(1619), ("public", 4001));
}

#[test]
fn seat_resources_by_rank() {
    let root = get_seat_resources(0);
    assert_eq!((root.cpu_centicores, root.memory_mb, root.api_calls_per_minute, root.can_add_servers), (400, 8192, 0, true));
    assert_eq!(get_seat_resources(50).memory_mb, 4096);
    assert_eq!(get_seat_resources(300).can_add_servers, false);
    assert_eq!(get_seat_resources(9999).cpu_centicores, 50);
}

#[test]
fn dev_center_access_rules() {
    assert!(has_dev_center_access(0));
    assert!(has_dev_center_access(100));
    assert!(has_dev_center_access(111));
    assert!(!has_dev_center_access(112));
    assert!(!has_dev_center_access(611));
}

fn verb(id: &str, service: &str, access: AccessLevel, seat: u32) -> LibP2PVerb {
    LibP2PVerb {
        verb_id: id.to_string(),
        service_name: service.to_string(),
        protocol: "/zos/1".to_string(),
        handler: "h".to_string(),
        access_level: access,
        seat_number: seat,
    }
}

#[test]
fn verb_access_and_routing() {
    let mut r = VerbRegistry::new();
    r.register_plugin(PluginInfo {
        name: "rustc_driver".to_string(),
        protocol: "/rustc".to_string(),
        seat_owner: 7,
        guarded: true,
        permissions: vec![],
    });
    assert_eq!(
        r.register_verb(verb("compile", "rustc_driver", AccessLevel::SeatHolders, 8)),
        Err("Access denied to guarded plugin".to_string())
    );
    assert_eq!(r.register_verb(verb("compile", "rustc_driver", AccessLevel::SeatHolders, 7)), Ok(()));
    assert_eq!(r.register_verb(verb("c", "compiler", AccessLevel::Chamber("senate".to_string()), 7)), Ok(()));
    assert_eq!(r.register_verb(verb("s", "build", AccessLevel::Specific(vec![3, 700]), 1)), Ok(()));
    assert!(r.can_access_verb("c", 100));
    assert!(!r.can_access_verb("c", 101));
    assert!(r.can_access_verb("s", 700));
    assert!(!r.can_access_verb("s", 4));
    assert!(!r.can_access_verb("missing", 1));
    r.peer_seats.insert("peerA".to_string(), 50);
    r.peer_seats.insert("peerB".to_string(), 612);
    match r.handle_verb_request("compile", "peerA") {
        Ok(VerbReply::Compile(seat)) => assert_eq!(seat, 50),
        _ => panic!("expected a compilation"),
    }
    match r.handle_verb_request("compile", "peerB") {
        Err(e) => assert_eq!(e, "Dev center access required for rustc_driver"),
        _ => panic!("expected refusal"),
    }
    match r.handle_verb_request("c", "peerA") {
        Ok(VerbReply::Bytes(b)) => assert_eq!(b, b"compiler response".to_vec()),
        _ => panic!("expected bytes"),
    }
    match r.handle_verb_request("compile", "stranger") {
        Err(e) => assert_eq!(e, "Access denied"),
        _ => panic!("expected refusal"),
    }
}

#[test]
fn compile_bookkeeping() {
    assert_eq!(compile_workspace(42), "/tmp/zos_compile_seat_42");
    let ok = compile_result(true, "out".to_string(), String::new());
    assert_eq!(ok.artifacts, vec!["binary".to_string()]);
    assert!(compile_result(false, String::new(), "err".to_string()).artifacts.is_empty());
}
