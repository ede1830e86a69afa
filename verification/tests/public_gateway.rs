use zos_server::gateway::{EarningsTier, GatewayReply, PricingTier, PublicGateway, RateLimit, ReferralStatus};
use zos_server::strmap::StrMap;

fn gateway_with_services() -> PublicGateway {
    let mut g = PublicGateway::new("gw.example");
    let url = g.register_wallet_endpoint("w1", "alice", vec![20000, 20001]).unwrap();
    assert_eq!(url, "https://gw.example/w1");
    assert_eq!(
        g.add_service("w1", "ai", 20001, PricingTier::Premium),
        Ok("https://gw.example/w1/ai".to_string())
    );
    assert_eq!(
        g.add_service("w1", "echo", 20000, PricingTier::Free),
        Ok("https://gw.example/w1/echo".to_string())
    );
    g
}

fn body_of(r: Result<GatewayReply, String>) -> String {
    match r {
        Ok(GatewayReply::Response(h)) => {
            assert_eq!(h.status_code, 200);
            assert_eq!(h.headers.get("Content-Type").map(|s| s.as_str()), Some("application/json"));
            assert_eq!(h.headers.get("Access-Control-Allow-Origin").map(|s| s.as_str()), Some("*"));
            String::from_utf8(h.body).unwrap()
        }
        Ok(GatewayReply::Swap(..)) => panic!("swap"),
        Ok(GatewayReply::Quote(..)) => panic!("quote"),
        Err(e) => panic!("{}", e),
    }
}

fn refusal_of(r: Result<GatewayReply, String>) -> (u16, String) {
    match r {
        Ok(GatewayReply::Response(h)) => {
            assert_eq!(h.headers.get("Content-Type").map(|s| s.as_str()), Some("application/json"));
            (h.status_code, String::from_utf8(h.body).unwrap())
        }
        _ => panic!("expected a reply"),
    }
}

fn err_of(r: Result<GatewayReply, String>) -> String {
    match r {
        Err(e) => e,
        Ok(_) => panic!("expected an error"),
    }
}

#[test]
fn new_gateway_defaults() {
    let g = PublicGateway::new("gw.example");
    assert_eq!(g.domain, "gw.example");
    assert_eq!(g.wallet_endpoints.len(), 0);
    assert_eq!(g.service_registry.len(), 0);
    assert_eq!(g.payment_processor.supported_tokens.len(), 2);
    assert_eq!(g.rate_limiter.global_limits, RateLimit { requests_per_minute: 1000, requests_per_hour: 10000 });
    assert_eq!(g.libp2p_bridge.connection_pool.max_connections, 1000);
}

#[test]
fn registered_endpoint_records() {
    let g = gateway_with_services();
    let ep = g.wallet_endpoints.get("w1").unwrap();
    assert_eq!(ep.user_id, "alice");
    assert_eq!(ep.allocated_ports, vec![20000, 20001]);
    assert_eq!(ep.rate_limits, RateLimit { requests_per_minute: 100, requests_per_hour: 1000 });
    assert_eq!(ep.services.len(), 2);
    let cfg = ep.services.get("ai").unwrap();
    assert_eq!(cfg.port, 20001);
    assert!(cfg.payment_required);
    assert_eq!(cfg.description, "Service ai on port 20001");
    let svc = g.service_registry.get("w1_ai").unwrap();
    assert_eq!(svc.http_path, "/w1/ai");
    assert_eq!(svc.libp2p_port, 20001);
    assert!(svc.cors_enabled);
    assert!(!svc.auth_required);
    assert!(!g.service_registry.get("w1_echo").unwrap().payment_required);
}

#[test]
fn add_service_refusals() {
    let mut g = gateway_with_services();
    assert_eq!(
        g.add_service("nobody", "ai", 20001, PricingTier::Basic),
        Err("Wallet endpoint not found".to_string())
    );
    assert_eq!(
        g.add_service("w1", "other", 30000, PricingTier::Basic),
        Err("Port not allocated to this wallet".to_string())
    );
    assert_eq!(g.service_registry.len(), 2);
}

#[test]
fn routes_without_counting() {
    let mut g = gateway_with_services();
    let h: StrMap<String> = StrMap::new();
    assert_eq!(
        err_of(g.handle_http_request("/w1", "GET", &h, 1000, 0)),
        "Invalid path format. Expected: /{wallet}/{service}"
    );
    match g.handle_http_request("/w1/ai/swap", "POST", &h, 1000, 0) {
        Ok(GatewayReply::Swap(w, s)) => assert_eq!((w.as_str(), s.as_str()), ("w1", "ai")),
        _ => panic!("expected a swap"),
    }
    match g.handle_http_request("/w1/ai/quote", "GET", &h, 1000, 0) {
        Ok(GatewayReply::Quote(w, s)) => assert_eq!((w.as_str(), s.as_str()), ("w1", "ai")),
        _ => panic!("expected a quote"),
    }
    assert_eq!(g.rate_limiter.current_usage.current_usage.len(), 0);
}

#[test]
fn free_service_answers_forwarded_json() {
    let mut g = gateway_with_services();
    let h: StrMap<String> = StrMap::new();
    let body = body_of(g.handle_http_request("/w1/echo", "GET", &h, 0, 0));
    assert_eq!(
        body,
        "{\"method\":\"GET\",\"port\":20000,\"response\":\"Service response from libp2p\",\"service\":\"echo\",\"timestamp\":\"1970-01-01T00:00:00+00:00\"}"
    );
    let u = g.rate_limiter.current_usage.current_usage.get("w1").unwrap();
    assert_eq!((u.requests_this_minute, u.requests_this_hour, u.last_reset), (1, 1, 0));
}

#[test]
fn paid_service_needs_a_valid_token() {
    let mut g = gateway_with_services();
    let mut h: StrMap<String> = StrMap::new();
    assert_eq!(
        refusal_of(g.handle_http_request("/w1/ai", "POST", &h, 50, 0)),
        (402, "{\"error\":\"Payment required. Include X-Payment-Token header\"}".to_string())
    );
    h.insert("X-Payment-Token".to_string(), "pay_x".to_string());
    assert_eq!(
        refusal_of(g.handle_http_request("/w1/ai", "POST", &h, 50, 0)),
        (402, "{\"error\":\"Invalid payment token\"}".to_string())
    );
    let mut good: StrMap<String> = StrMap::new();
    good.insert("X-Payment-Token".to_string(), "pay_1234567".to_string());
    let body = body_of(g.handle_http_request("/w1/ai", "POST", &good, 50, 0));
    assert!(body.starts_with("{\"method\":\"POST\",\"port\":20001,"));
    assert_eq!(
        refusal_of(g.handle_http_request("/w1/missing", "GET", &good, 50, 0)),
        (404, "{\"error\":\"Service not found\"}".to_string())
    );
    let u = g.rate_limiter.current_usage.current_usage.get("w1").unwrap();
    assert_eq!(u.requests_this_minute, 4);
}

#[test]
fn wallet_budget_limits_requests() {
    let mut g = gateway_with_services();
    g.rate_limiter
        .per_wallet_limits
        .insert("w1".to_string(), RateLimit { requests_per_minute: 1, requests_per_hour: 1000 });
    let h: StrMap<String> = StrMap::new();
    body_of(g.handle_http_request("/w1/echo", "GET", &h, 10, 0));
    assert_eq!(
        refusal_of(g.handle_http_request("/w1/echo", "GET", &h, 20, 0)),
        (429, "{\"error\":\"Rate limit exceeded: too many requests per minute\"}".to_string())
    );
    body_of(g.handle_http_request("/w1/echo", "GET", &h, 100, 0));
}

#[test]
fn clock_fits_the_counters() {
    let mut g = gateway_with_services();
    let h: StrMap<String> = StrMap::new();
    body_of(g.handle_http_request("/w1/echo", "GET", &h, 500, 0));
    assert!(g.clock_fits("/w1/echo", 500));
    assert!(!g.clock_fits("/w1/echo", 499));
    assert!(g.clock_fits("/w2/echo", 0));
    assert!(g.clock_fits("/w1/echo/swap", 0));
}

#[test]
fn referral_links_need_a_commission_system() {
    let mut g = gateway_with_services();
    assert_eq!(
        g.create_referral_link("walletAAAA", "w1/ai", StrMap::new(), 1000),
        Err("Commission system not initialized".to_string())
    );
    assert_eq!(g.track_referral("ref_walletAAAA_1000", "refereeBBBB", 1005), Err("Commission system not initialized".to_string()));
    assert!(g.commission_system.is_none());
}

#[test]
fn referrals_are_tracked_once_per_referee() {
    let mut g = gateway_with_services();
    g.initialize_commission_system();
    assert_eq!(
        g.create_referral_link("walletAAAA", "w1/ai", StrMap::new(), 1000),
        Ok("https://gw.example/w1/ai?ref=ref_walletAAAA_1000".to_string())
    );
    assert_eq!(g.track_referral("ref_nope", "refereeBBBB", 1005), Err("Invalid referral code".to_string()));
    assert_eq!(g.track_referral("ref_walletAAAA_1000", "refereeBBBB", 1005), Ok(()));
    assert_eq!(g.track_referral("ref_walletAAAA_1000", "refereeBBBB", 1010), Ok(()));
    assert_eq!(g.track_referral("ref_walletAAAA_1000", "refereeCCCC", 1020), Ok(()));
    let c = g.commission_system.as_ref().unwrap();
    let link = c.referral_links.get("ref_walletAAAA_1000").unwrap();
    assert_eq!((link.click_count, link.conversion_count, link.created_at), (3, 2, 1000));
    let rec = c.referral_tracking.get("walletAAAA_refereeBBBB").unwrap();
    assert_eq!(rec.referral_code, "ref_walletAAAA_1000");
    assert_eq!(rec.first_transaction_at, 1005);
    assert_eq!(rec.status, ReferralStatus::Active);
    assert_eq!(c.referral_tracking.len(), 2);
    let acct = c.earnings_ledger.get("walletAAAA").unwrap();
    assert_eq!((acct.referral_count, acct.tier, acct.last_payout), (2, EarningsTier::Bronze, 1020));
}
