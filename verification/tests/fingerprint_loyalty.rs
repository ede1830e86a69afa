use zos_server::fingerprint::{
    DeviceFingerprint, FingerprintManager, IpFingerprint, ResponseFingerprint, UserTier, VerificationLevel,
};

fn device(canvas: &str) -> DeviceFingerprint {
    let s = |x: &str| x.to_string();
    DeviceFingerprint {
        user_agent: s("ua"),
        screen_resolution: s("1920x1080"),
        timezone: s("UTC"),
        language: s("en"),
        platform: s("linux"),
        webgl_vendor: s("v"),
        canvas_hash: s(canvas),
        audio_hash: s("audio"),
        font_list_hash: s("fonts"),
    }
}

fn ip() -> IpFingerprint {
    IpFingerprint {
        ip_hash: "iphash".to_string(),
        country: "NL".to_string(),
        asn: "AS1".to_string(),
        is_vpn: false,
        is_tor: false,
        risk_score: 3,
    }
}

#[test]
fn new_users_start_free_with_100_credits() {
    let mut m = FingerprintManager::new();
    let id = m.create_fingerprint(device("c1"), ip());
    assert!(id.starts_with("user_"));
    let u = m.get_user(&id).unwrap();
    assert_eq!((u.loyalty_points, u.usage_credits, u.tier), (0, 100, UserTier::Free));
    assert_eq!(u.verification_level, VerificationLevel::Anonymous);
    let id2 = m.create_fingerprint(device("c1"), ip());
    assert_eq!(id, id2);
    let id3 = m.create_fingerprint(device("c2"), ip());
    assert_ne!(id, id3);
}

#[test]
fn verifications_award_points_credits_and_tiers() {
    let mut m = FingerprintManager::new();
    let id = m.create_fingerprint(device("c1"), ip());
    assert_eq!(m.verify_email(&id, "a@b.c", 1000), Ok(50));
    let u = m.get_user(&id).unwrap();
    assert_eq!((u.loyalty_points, u.usage_credits, u.tier), (50, 105, UserTier::Free));
    assert_eq!(m.verify_twitter(&id, "@a", 1000), Ok(75));
    let u = m.get_user(&id).unwrap();
    // 125 points reach Bronze, whose daily limit raises the credits to 500
    assert_eq!((u.loyalty_points, u.usage_credits, u.tier), (125, 500, UserTier::Bronze));
    assert_eq!(u.verifications.get("twitter").unwrap().expires_at, Some(1000 + 86400 * 30));
    assert_eq!(m.verify_kyc(&id, "doc", 1000), Ok(500));
    let u = m.get_user(&id).unwrap();
    assert_eq!((u.loyalty_points, u.usage_credits, u.tier), (625, 2000, UserTier::Silver));
    assert_eq!(u.verification_level, VerificationLevel::Premium);
    assert_eq!(m.verify_email("nobody", "x", 1), Err("User not found".to_string()));
}

#[test]
fn bonuses_cookies_and_spending() {
    let mut m = FingerprintManager::new();
    let id = m.create_fingerprint(device("c1"), ip());
    assert_eq!(m.daily_login_bonus(&id), Ok(10));
    assert_eq!(m.accept_loyalty_cookies(&id, 77), Ok(format!("zos_loyalty_{}_77", id)));
    let u = m.get_user(&id).unwrap();
    assert_eq!((u.loyalty_points, u.usage_credits), (35, 126));
    let resp = |r: u32| ResponseFingerprint {
        typing_pattern: vec![],
        mouse_movement: String::new(),
        click_pattern: vec![],
        scroll_behavior: String::new(),
        interaction_rhythm_milli: r,
    };
    assert_eq!(m.update_response_fingerprint(&id, resp(900)), Ok(()));
    assert_eq!(m.update_response_fingerprint(&id, resp(800)), Ok(()));
    assert_eq!(m.get_user(&id).unwrap().loyalty_points, 40);
    assert_eq!(m.consume_credits(&id, 1000), Ok(false));
    assert_eq!(m.consume_credits(&id, 27), Ok(true));
    assert_eq!(m.get_user(&id).unwrap().usage_credits, 100);
}
