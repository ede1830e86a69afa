use zos_server::unix_accounts::{create_unix_user, AccountType, RiskLevel, UnixAccountManager, VouchType};

#[test]
fn tiers_are_installed() {
    let m = UnixAccountManager::new();
    let free = m.account_tiers.get("free").unwrap();
    assert_eq!(free.tier_name, "Free");
    assert_eq!(free.resource_limits.memory_limit_mb, 128);
    assert_eq!(free.permissions, vec!["ssh".to_string(), "basic_shell".to_string()]);
    let balanced = m.account_tiers.get("balanced").unwrap();
    assert_eq!(balanced.balance_requirement, 1000);
    assert_eq!(balanced.max_vouched_users, 2);
    let premium = m.account_tiers.get("premium").unwrap();
    assert_eq!(premium.resource_limits.cpu_quota, 50);
    assert_eq!(premium.permissions.len(), 5);
    assert_eq!(m.account_tiers.len(), 3);
}

#[test]
fn accounts_get_consecutive_user_ids() {
    let mut m = UnixAccountManager::new();
    let a = m.create_account_at("alice", AccountType::Free, None, 0, 100).unwrap();
    assert_eq!(a.user_id, 1000);
    assert_eq!(a.group_id, 1000);
    assert_eq!(a.home_directory, "/home/alice");
    assert_eq!(a.shell, "/bin/bash");
    assert_eq!(a.created_at, 100);
    assert_eq!(a.reputation_score, 50);
    let b = m.create_account_at("bob", AccountType::Premium, None, 20000, 100).unwrap();
    assert_eq!(b.user_id, 1001);
    assert_eq!(b.balance_requirement, 10000);
    assert_eq!(b.permissions.len(), 5);
    assert_eq!(m.system_resources.total_users, 2);
    assert_eq!(
        m.create_account_at("alice", AccountType::Free, None, 0, 100).unwrap_err(),
        "Username already exists"
    );
}

#[test]
fn balance_or_vouch_is_needed() {
    let mut m = UnixAccountManager::new();
    assert_eq!(
        m.create_account_at("carl", AccountType::Balanced, None, 10, 1).unwrap_err(),
        "Insufficient balance. Need 1000 credits or voucher"
    );
    assert_eq!(
        m.create_account_at("carl", AccountType::Balanced, Some("vera"), 10, 1).unwrap_err(),
        "No valid vouch found"
    );
    m.create_account_at("vera_voucher", AccountType::Balanced, None, 5000, 1).unwrap();
    assert_eq!(
        m.vouch_for_user("vera_voucher", "carl", VouchType::Limited, 300),
        Ok("vouch_vera_voucher_carl".to_string())
    );
    assert_eq!(m.user_accounts.get("vera_voucher").unwrap().current_balance, 4700);
    let c = m.create_account_at("carl", AccountType::Balanced, Some("vera_voucher"), 10, 2).unwrap();
    assert_eq!(c.vouched_by.as_deref(), Some("vera_voucher"));
}

#[test]
fn vouching_limits() {
    let mut m = UnixAccountManager::new();
    m.create_account_at("free_user", AccountType::Free, None, 0, 1).unwrap();
    assert_eq!(
        m.vouch_for_user("free_user", "x", VouchType::FullAccess, 0),
        Err("Voucher tier cannot vouch for users".to_string())
    );
    assert_eq!(m.vouch_for_user("ghost", "x", VouchType::FullAccess, 0), Err("Voucher not found".to_string()));
    m.create_account_at("rich_user", AccountType::Balanced, None, 1500, 1).unwrap();
    assert_eq!(
        m.vouch_for_user("rich_user", "a", VouchType::Educational, 2000),
        Err("Insufficient balance for stake".to_string())
    );
    m.vouch_for_user("rich_user", "a", VouchType::Educational, 100).unwrap();
    m.vouch_for_user("rich_user", "b", VouchType::Probationary, 100).unwrap();
    assert_eq!(
        m.vouch_for_user("rich_user", "c", VouchType::Limited, 100),
        Err("Voucher has reached maximum vouched users".to_string())
    );
    let record = m.vouching_system.get("vouch_rich_user_a").unwrap();
    assert!(record.active);
    assert_eq!(record.conditions, vec!["maintain_good_standing".to_string()]);
}

#[test]
fn staking_pools_take_credits() {
    let mut m = UnixAccountManager::new();
    m.create_account_at("staker_1", AccountType::Premium, None, 12000, 1).unwrap();
    assert_eq!(m.create_staking_pool_at("staker_1", 500, 42), Ok("pool_staker_1_42".to_string()));
    let pool = m.staking_pools.get("pool_staker_1_42").unwrap();
    assert_eq!(pool.total_staked, 500);
    assert_eq!(pool.risk_level, RiskLevel::Low);
    assert_eq!(m.user_accounts.get("staker_1").unwrap().current_balance, 11500);
    assert_eq!(
        m.create_staking_pool_at("staker_1", 50000, 43),
        Err("Insufficient balance for staking pool".to_string())
    );
    assert_eq!(m.create_staking_pool_at("nobody", 1, 43), Err("Staker not found".to_string()));
}

#[test]
fn balance_check_flags_short_accounts() {
    let mut m = UnixAccountManager::new();
    m.create_account_at("keeper", AccountType::Premium, None, 10000, 1).unwrap();
    m.create_account_at("spender", AccountType::Premium, None, 10500, 1).unwrap();
    m.create_account_at("freeloader", AccountType::Free, None, 0, 1).unwrap();
    m.create_staking_pool_at("spender", 1000, 2).unwrap();
    assert_eq!(m.check_balance_requirements(), vec!["spender".to_string()]);
    assert!(!m.user_accounts.get("spender").unwrap().good_standing);
    assert!(m.user_accounts.get("keeper").unwrap().good_standing);
    assert!(m.user_accounts.get("freeloader").unwrap().good_standing);
}

#[test]
fn unix_commands_for_an_account() {
    let mut m = UnixAccountManager::new();
    let a = m.create_account_at("dana", AccountType::Balanced, None, 1000, 1).unwrap();
    let (useradd, limits, quota) = create_unix_user(&a);
    assert_eq!(useradd, "useradd -u 1000 -g 1000 -d /home/dana -s /bin/bash -c 'ZOS User' dana");
    assert_eq!(
        limits,
        "dana soft cpu 15\ndana hard cpu 15\ndana soft memlock 512\ndana hard memlock 512"
    );
    assert_eq!(quota, "setquota -u dana 1024000 1024000 0 0 /");
}

#[test]
fn voucher_and_tier_lookups() {
    let mut m = UnixAccountManager::new();
    m.create_account_at("vera_voucher", AccountType::Balanced, None, 5000, 1).unwrap();
    assert_eq!(m.validate_voucher("vera_voucher", "carl"), Err("No valid vouch found".to_string()));
    m.vouch_for_user("vera_voucher", "carl", VouchType::Limited, 300).unwrap();
    assert_eq!(m.validate_voucher("vera_voucher", "carl"), Ok(()));
    assert_eq!(m.get_user_tier("vera_voucher").unwrap().tier_name, "Balanced");
    assert_eq!(m.get_user_tier("nobody").err(), Some("User not found".to_string()));
}

#[test]
fn account_calls_refuse_before_the_clock() {
    let mut m = UnixAccountManager::new();
    let a = m.create_account("alice", AccountType::Free, None, 0).unwrap();
    assert_eq!(a.user_id, 1000);
    assert_eq!(
        m.create_account("alice", AccountType::Free, None, 0).unwrap_err(),
        "Username already exists".to_string()
    );
    assert_eq!(m.create_staking_pool("nobody", 1).unwrap_err(), "Staker not found".to_string());
    assert_eq!(
        m.create_staking_pool("alice", 1).unwrap_err(),
        "Insufficient balance for staking pool".to_string()
    );
}
