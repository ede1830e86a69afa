use zos_server::port_market::{BlockPortManager, ServiceType};

#[test]
fn new_manager_has_three_free_services() {
    let m = BlockPortManager::new(10);
    assert_eq!(m.current_block, 0);
    assert_eq!(m.block_duration_ms, 400);
    assert_eq!(m.free_tier_services.len(), 3);
    assert_eq!(m.free_tier_services[0].name, "pi_calculator");
    assert_eq!(m.free_tier_services[1].credits_cost, 2);
    assert_eq!(m.free_tier_services[2].max_execution_time_ms, 2000);
    assert!(m.get_marketplace_listings().is_empty());
}

#[test]
fn ports_are_leased_from_the_user_range_in_order() {
    let mut m = BlockPortManager::new(10);
    assert_eq!(m.allocate_user_port("alice_wallet", ServiceType::Compute), Ok(20000));
    assert_eq!(m.allocate_user_port("bob_wallet_", ServiceType::Storage), Ok(20001));
    assert_eq!(m.find_available_port(20000, 20001), Err("No available ports in range".to_string()));
    assert_eq!(m.find_available_port(20000, 20005), Ok(20002));
}

#[test]
fn capacity_is_enforced() {
    let mut m = BlockPortManager::new(1);
    assert_eq!(m.allocate_user_port("alice_wallet", ServiceType::Compute), Ok(20000));
    assert_eq!(
        m.allocate_user_port("bob_wallet_", ServiceType::Network),
        Err("No available ports - server at capacity".to_string())
    );
}

#[test]
fn sharing_is_capped_at_five() {
    let mut m = BlockPortManager::new(10);
    m.allocate_user_port("owner_wallet", ServiceType::Compute).unwrap();
    for i in 0..5 {
        assert_eq!(m.share_port("owner_wallet", &format!("friend_{i}")), Ok(()));
    }
    assert_eq!(m.share_port("owner_wallet", "friend_6"), Err("Maximum shares reached".to_string()));
    assert_eq!(m.share_port("stranger", "x"), Err("User session not found".to_string()));
}

#[test]
fn listing_and_buying_a_port() {
    let mut m = BlockPortManager::new(10);
    let port = m.allocate_user_port("seller_wallet", ServiceType::Custom("api".to_string())).unwrap();
    let id = m.list_port_for_sale("seller_wallet", 50, 3, "fast api").unwrap();
    assert_eq!(id, format!("listing_{port}_0"));
    assert_eq!(m.get_marketplace_listings().len(), 1);
    assert_eq!(m.buy_port_access("buyer_1", &id), Ok(port));
    assert_eq!(m.buy_port_access("buyer_2", &id), Ok(port));
    assert_eq!(m.buy_port_access("buyer_3", &id), Ok(port));
    assert_eq!(m.buy_port_access("buyer_4", &id), Err("Port at maximum capacity".to_string()));
    assert_eq!(m.buy_port_access("buyer_4", "nope"), Err("Listing not found".to_string()));
    assert_eq!(
        m.list_port_for_sale("nobody", 1, 1, "x"),
        Err("User session not found".to_string())
    );
}

#[test]
fn free_services_charge_credits() {
    let mut m = BlockPortManager::new(10);
    assert_eq!(
        m.execute_free_service("carol_wallet", "pi_calculator"),
        Err("No active session - allocate a port first".to_string())
    );
    m.allocate_user_port("carol_wallet", ServiceType::Compute).unwrap();
    assert_eq!(m.execute_free_service("carol_wallet", "pi_calculator"), Ok("π ≈ 3.1415926536".to_string()));
    assert!(m
        .execute_free_service("carol_wallet", "fibonacci_meme")
        .unwrap()
        .contains("6765 pairs"));
    assert_eq!(m.execute_free_service("carol_wallet", "nope"), Err("Service not found".to_string()));
    let session = m.user_sessions.get("carol_wallet").unwrap();
    assert_eq!(session.credits_spent, 3);
    assert_eq!(session.services_used, vec!["pi_calculator".to_string(), "fibonacci_meme".to_string()]);
}

#[test]
fn leases_expire_with_their_listings() {
    let mut m = BlockPortManager::new(10);
    m.allocate_user_port("dave_wallet", ServiceType::Compute).unwrap();
    let id = m.list_port_for_sale("dave_wallet", 5, 1, "d").unwrap();
    m.advance_block();
    assert_eq!(m.current_block, 1);
    assert!(m.active_ports.get(20000).is_none());
    assert!(m.get_marketplace_listings().is_empty());
    assert_eq!(m.buy_port_access("x", &id), Err("Listing not found".to_string()));
    assert_eq!(m.allocate_user_port("erin_wallet", ServiceType::Compute), Ok(20000));
}

#[test]
fn user_status_lists_lease_and_services() {
    let mut m = BlockPortManager::new(10);
    assert_eq!(m.get_user_status("carol_wallet"), Err("User session not found".to_string()));
    m.allocate_user_port("carol_wallet", ServiceType::Compute).unwrap();
    m.execute_free_service("carol_wallet", "pi_calculator").unwrap();
    assert_eq!(
        m.get_user_status("carol_wallet").unwrap(),
        "{\"active_port\":{\"blocks_remaining\":1,\"expires_at_block\":1,\"port\":20000,\"shared_with\":0,\"usage_count\":1},\"available_services\":[\"pi_calculator\",\"fibonacci_meme\",\"prime_poetry\"],\"credits_spent\":1,\"current_block\":0,\"marketplace_listings\":0,\"server_capacity\":\"1/10\",\"services_used\":[\"pi_calculator\"],\"user_id\":\"carol_wallet\"}"
    );
}
