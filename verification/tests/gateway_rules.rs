use zos_server::gateway::{
    check_service_port, create_gateway_routes, default_tokens, http_path, payment_token_valid, route_request,
    service_key, service_url, wallet_url, EarningsTier, GatewayRoute, HttpResponse, LibP2PBridge, PricingTier,
    RateLimitCounters, ReferralLink, ServiceConfig, UsageCounters,
};
use zos_server::strmap::StrMap;

#[test]
fn earnings_tiers_by_referrals() {
    assert_eq!(EarningsTier::for_referrals(0), EarningsTier::Bronze);
    assert_eq!(EarningsTier::for_referrals(10), EarningsTier::Bronze);
    assert_eq!(EarningsTier::for_referrals(11), EarningsTier::Silver);
    assert_eq!(EarningsTier::for_referrals(50), EarningsTier::Silver);
    assert_eq!(EarningsTier::for_referrals(51), EarningsTier::Gold);
    assert_eq!(EarningsTier::for_referrals(200), EarningsTier::Gold);
    assert_eq!(EarningsTier::for_referrals(201), EarningsTier::Platinum);
}

#[test]
fn payment_tokens() {
    assert!(payment_token_valid("pay_abc123xyz"));
    assert!(!payment_token_valid("pay_abc"));
    assert!(!payment_token_valid("tok_abc123xyz"));
    assert!(!payment_token_valid("pay_123456"));
    assert!(payment_token_valid("pay_1234567"));
}

#[test]
fn request_paths_route_to_actions() {
    match route_request("/0xABC/ai-service/swap").unwrap() {
        GatewayRoute::Swap(w, s) => assert_eq!((w.as_str(), s.as_str()), ("0xABC", "ai-service")),
        _ => panic!("swap"),
    }
    match route_request("//0xABC/ai-service/quote").unwrap() {
        GatewayRoute::Quote(w, _) => assert_eq!(w, "0xABC"),
        _ => panic!("quote"),
    }
    match route_request("0xABC/ai-service/pay").unwrap() {
        GatewayRoute::Service(w, s) => assert_eq!((w.as_str(), s.as_str()), ("0xABC", "ai-service")),
        _ => panic!("service"),
    }
    match route_request("/0xABC/").unwrap() {
        GatewayRoute::Service(w, s) => assert_eq!((w.as_str(), s.as_str()), ("0xABC", "")),
        _ => panic!("empty service"),
    }
    assert_eq!(
        route_request("/0xABC").err(),
        Some("Invalid path format. Expected: /{wallet}/{service}".to_string())
    );
}

#[test]
fn rate_limits_per_minute_and_hour() {
    let mut counters = RateLimitCounters::new();
    assert_eq!(counters.check("w", 1000, 2, 100), Ok(()));
    assert_eq!(counters.check("w", 1010, 2, 100), Ok(()));
    assert_eq!(
        counters.check("w", 1020, 2, 100),
        Err("Rate limit exceeded: too many requests per minute".to_string())
    );
    assert_eq!(counters.check("w", 1061, 2, 100), Ok(()));
    let u = counters.current_usage.get("w").unwrap();
    assert_eq!(u.requests_this_minute, 1);
    assert_eq!(u.requests_this_hour, 3);
    assert_eq!(u.last_reset, 1061);

    let mut hourly = UsageCounters::starting(0);
    assert_eq!(hourly.count_request(100, 10, 1), Ok(()));
    assert_eq!(
        hourly.count_request(5000, 10, 1),
        Err("Rate limit exceeded: too many requests per hour".to_string())
    );
    assert_eq!(hourly.requests_this_minute, 0);
    assert_eq!(hourly.last_reset, 5000);
}

#[test]
fn service_records() {
    let c = ServiceConfig::for_service("ai", 20001, PricingTier::Premium);
    assert_eq!(c.description, "Service ai on port 20001");
    assert!(c.payment_required);
    assert!(!ServiceConfig::for_service("ai", 1, PricingTier::Free).payment_required);
    assert_eq!(check_service_port(&vec![20000, 20001], 20001), Ok(()));
    assert_eq!(check_service_port(&vec![20000], 20001), Err("Port not allocated to this wallet".to_string()));
    assert_eq!(service_key("0xW", "ai"), "0xW_ai");
    assert_eq!(service_url("node1.solfunmeme.com", "0xW", "ai"), "https://node1.solfunmeme.com/0xW/ai");
    assert_eq!(wallet_url("node1.solfunmeme.com", "0xW"), "https://node1.solfunmeme.com/0xW");
    assert_eq!(http_path("0xW", "ai"), "/0xW/ai");
}

#[test]
fn referral_links() {
    let link = ReferralLink::new("0xREF", "ai", StrMap::new(), 1_700_000_000);
    assert_eq!(link.link_id, "ref_0xREF_1700000000");
    assert_eq!(link.click_count, 0);
    assert_eq!(link.created_at, 1_700_000_000);
    assert_eq!(link.url("node1.solfunmeme.com"), "https://node1.solfunmeme.com/ai?ref=ref_0xREF_1700000000");
}

#[test]
fn gateway_defaults_and_replies() {
    let tokens = default_tokens();
    assert_eq!(tokens.len(), 2);
    assert_eq!(tokens[0].symbol, "USDC");
    assert_eq!(tokens[1].decimals, 9);
    let bridge = LibP2PBridge::new();
    assert_eq!(bridge.connection_pool.max_connections, 1000);
    assert_eq!(bridge.connection_pool.connection_timeout, 30000);
    let r = HttpResponse::service_reply(b"{}".to_vec());
    assert_eq!(r.status_code, 200);
    assert_eq!(r.headers.get("Access-Control-Allow-Origin").map(|s| s.as_str()), Some("*"));
    let q = HttpResponse::quote_reply(vec![], true);
    assert_eq!(q.headers.get("X-Cache").map(|s| s.as_str()), Some("HIT"));
    assert_eq!(HttpResponse::swap_reply(vec![]).headers.len(), 1);
    let routes = create_gateway_routes();
    assert!(routes.starts_with("\n🌐 ZOS Public Gateway Routes:\n\nBase URL: https://node1.solfunmeme.com\n"));
    assert!(routes.contains("429 Too Many Requests            → Rate limited"));
}

#[test]
fn gateway_route_table_lists_routes_and_statuses() {
    let routes = create_gateway_routes();
    assert_eq!(routes, create_gateway_routes());
    for line in [
        "Base URL: https://node1.solfunmeme.com",
        "POST /{wallet}/{service}/swap",
        "GET  /{wallet}/{service}/quote",
        "X-Payment-Token",
        "200 OK",
        "402 Payment Required",
        "429 Too Many Requests",
        "404 Not Found",
        "500 Internal Server Error",
    ] {
        assert!(routes.contains(line), "{}", line);
    }
}
