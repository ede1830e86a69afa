//! Unix accounts backed by credits: three tiers with their resource limits
//! and permissions, account creation (by balance or by a voucher's vouch),
//! vouching with a stake, staking pools, and the balance check that takes
//! accounts out of good standing.
use vstd::prelude::*;
use vstd::string::*;
use crate::clock;
use crate::strmap::{StrMap, keys_where, count_where};
use crate::text;

verus! {

/// How an account is held.
#[derive(Debug, Clone, Copy, PartialEq, Eq, Structural)]
pub enum AccountType {
    /// vouched for, or in good standing
    Free,
    /// keeps a balance
    Balanced,
    /// backed by stakers
    Staked,
    /// keeps a high balance
    Premium,
    Admin,
    /// temporary access
    Guest,
}

/// What a vouch grants.
#[derive(Debug, Clone, Copy, PartialEq, Eq, Structural)]
pub enum VouchType {
    FullAccess,
    Limited,
    Probationary,
    Educational,
}

/// Risk of a staking pool.
#[derive(Debug, Clone, Copy, PartialEq, Eq, Structural)]
pub enum RiskLevel {
    Low,
    Medium,
    High,
    Critical,
}

/// Limits a Unix account runs under. The CPU quota is in whole percent.
#[derive(Debug, Clone, Copy, PartialEq, Eq, Structural)]
pub struct ResourceLimits {
    pub cpu_quota: u32,
    pub memory_limit_mb: u64,
    pub disk_quota_mb: u64,
    pub network_bandwidth_kbps: u64,
    pub process_limit: u32,
    pub file_descriptors: u32,
    pub cron_jobs: u32,
    pub login_sessions: u32,
}

/// A tier of accounts. The staking power is in whole units.
pub struct AccountTier {
    pub tier_name: String,
    pub balance_requirement: u64,
    pub resource_limits: ResourceLimits,
    pub permissions: Vec<String>,
    pub max_vouched_users: u32,
    pub staking_power: u32,
}

/// A Unix account. The reputation is in whole points.
#[derive(Debug)]
pub struct UnixAccount {
    pub username: String,
    pub user_id: u32,
    pub group_id: u32,
    pub home_directory: String,
    pub shell: String,
    pub account_type: AccountType,
    pub balance_requirement: u64,
    pub current_balance: u64,
    pub vouched_by: Option<String>,
    pub staked_by: Vec<String>,
    pub total_stake: u64,
    pub created_at: u64,
    pub last_login: u64,
    pub resource_limits: ResourceLimits,
    pub permissions: Vec<String>,
    pub good_standing: bool,
    pub reputation_score: u32,
}

/// One user's vouch for another.
pub struct VouchRecord {
    pub voucher_id: String,
    pub vouched_user: String,
    pub vouch_type: VouchType,
    pub stake_amount: u64,
    pub conditions: Vec<String>,
    pub expires_at: Option<u64>,
    pub active: bool,
}

/// A penalty taken from a staker.
pub struct SlashEvent {
    pub user_id: String,
    pub reason: String,
    pub amount_slashed: u64,
    pub timestamp: u64,
}

/// Credits a user put up to back others.
pub struct StakingPool {
    pub pool_id: String,
    pub staker_id: String,
    pub total_staked: u64,
    pub backed_users: Vec<String>,
    pub risk_level: RiskLevel,
    pub rewards_earned: u64,
    pub slashing_history: Vec<SlashEvent>,
}

/// Usage of the machine. The usage figures are in whole percent.
pub struct SystemResources {
    pub total_users: u32,
    pub active_users: u32,
    pub cpu_usage: u32,
    pub memory_usage: u32,
    pub disk_usage: u32,
    pub network_usage: u32,
}

/// The accounts, vouches, pools and tiers of one machine.
pub struct UnixAccountManager {
    pub user_accounts: StrMap<UnixAccount>,
    pub vouching_system: StrMap<VouchRecord>,
    pub staking_pools: StrMap<StakingPool>,
    pub account_tiers: StrMap<AccountTier>,
    pub system_resources: SystemResources,
}

/// Limits of the free tier.
pub open spec fn free_limits() -> ResourceLimits {
    ResourceLimits {
        cpu_quota: 5,
        memory_limit_mb: 128,
        disk_quota_mb: 100,
        network_bandwidth_kbps: 100,
        process_limit: 10,
        file_descriptors: 100,
        cron_jobs: 2,
        login_sessions: 1,
    }
}

/// Limits of the balanced tier.
pub open spec fn balanced_limits() -> ResourceLimits {
    ResourceLimits {
        cpu_quota: 15,
        memory_limit_mb: 512,
        disk_quota_mb: 1000,
        network_bandwidth_kbps: 1000,
        process_limit: 25,
        file_descriptors: 500,
        cron_jobs: 5,
        login_sessions: 2,
    }
}

/// Limits of the premium tier.
pub open spec fn premium_limits() -> ResourceLimits {
    ResourceLimits {
        cpu_quota: 50,
        memory_limit_mb: 2048,
        disk_quota_mb: 10000,
        network_bandwidth_kbps: 10000,
        process_limit: 100,
        file_descriptors: 2000,
        cron_jobs: 20,
        login_sessions: 5,
    }
}

/// The tier stored under `key` is the standard one: free (no balance, ssh
/// and a basic shell, no vouching), balanced (1000 credits, a compiler, two
/// vouches) or premium (10000 credits, docker and admin tools, ten vouches).
pub open spec fn is_standard_tier(t: AccountTier, key: Seq<char>) -> bool {
    if key == "free"@ {
        &&& t.tier_name@ == "Free"@
        &&& t.balance_requirement == 0
        &&& t.resource_limits == free_limits()
        &&& text::string_views(t.permissions@) == seq!["ssh"@, "basic_shell"@]
        &&& t.max_vouched_users == 0
        &&& t.staking_power == 0
    } else if key == "balanced"@ {
        &&& t.tier_name@ == "Balanced"@
        &&& t.balance_requirement == 1000
        &&& t.resource_limits == balanced_limits()
        &&& text::string_views(t.permissions@) == seq!["ssh"@, "shell"@, "compiler"@]
        &&& t.max_vouched_users == 2
        &&& t.staking_power == 1
    } else if key == "premium"@ {
        &&& t.tier_name@ == "Premium"@
        &&& t.balance_requirement == 10000
        &&& t.resource_limits == premium_limits()
        &&& text::string_views(t.permissions@) == seq![
            "ssh"@,
            "shell"@,
            "compiler"@,
            "docker"@,
            "admin_tools"@,
        ]
        &&& t.max_vouched_users == 10
        &&& t.staking_power == 5
    } else {
        false
    }
}

/// The tier map holds exactly the three standard tiers.
pub open spec fn standard_tiers(m: Map<Seq<char>, AccountTier>) -> bool {
    &&& m.dom() == set!["free"@, "balanced"@, "premium"@]
    &&& forall|k: Seq<char>| #[trigger] m.contains_key(k) ==> is_standard_tier(m[k], k)
}

/// The tier an account type draws on.
pub open spec fn tier_key(t: AccountType) -> Seq<char> {
    match t {
        AccountType::Balanced => "balanced"@,
        AccountType::Premium => "premium"@,
        _ => "free"@,
    }
}

/// The balance an account type asks for.
pub open spec fn balance_requirement_of(t: AccountType) -> u64 {
    match t {
        AccountType::Balanced => 1000,
        AccountType::Premium => 10000,
        _ => 0,
    }
}

/// The key of a vouch.
pub open spec fn vouch_key(voucher: Seq<char>, user: Seq<char>) -> Seq<char> {
    "vouch_"@ + voucher + "_"@ + user
}

/// Builds `vouch_key`.
fn vouch_key_string(voucher: &str, user: &str) -> (r: String)
    ensures
        r@ == vouch_key(voucher@, user@),
{
    let mut r = String::from_str("vouch_");
    r.append(voucher);
    r.append("_");
    r.append(user);
    r
}

/// Why an account cannot be created, checked in this order: the name is
/// taken, the tier is missing, the balance is short with no voucher, the
/// voucher's vouch for the user is missing or inactive.
pub open spec fn create_error(
    accounts: Map<Seq<char>, UnixAccount>,
    tiers: Map<Seq<char>, AccountTier>,
    vouches: Map<Seq<char>, VouchRecord>,
    username: Seq<char>,
    t: AccountType,
    voucher: Option<Seq<char>>,
    initial_balance: u64,
) -> Option<Seq<char>> {
    if accounts.contains_key(username) {
        Some("Username already exists"@)
    } else if !tiers.contains_key(tier_key(t)) {
        Some("Invalid account tier"@)
    } else if initial_balance < balance_requirement_of(t) && voucher is None {
        Some(
            "Insufficient balance. Need "@ + text::decimal(balance_requirement_of(t) as nat)
                + " credits or voucher"@,
        )
    } else {
        match voucher {
            Some(v) => if !vouches.contains_key(vouch_key(v, username)) {
                Some("No valid vouch found"@)
            } else if !vouches[vouch_key(v, username)].active {
                Some("Vouch is not active"@)
            } else {
                None
            },
            None => None,
        }
    }
}

/// The characters of an optional string slice.
pub open spec fn opt_str(o: Option<&str>) -> Option<Seq<char>> {
    match o {
        Some(s) => Some(s@),
        None => None,
    }
}

/// The characters of an optional string.
pub open spec fn opt_chars(o: Option<String>) -> Option<Seq<char>> {
    match o {
        Some(s) => Some(s@),
        None => None,
    }
}

/// The account made for `username` as the `n`-th account (counting from 0)
/// at `now`.
pub open spec fn is_new_account(
    a: UnixAccount,
    username: Seq<char>,
    t: AccountType,
    voucher: Option<Seq<char>>,
    initial_balance: u64,
    n: nat,
    tier: AccountTier,
    now: i64,
) -> bool {
    &&& a.username@ == username
    &&& a.user_id == 1000 + n
    &&& a.group_id == a.user_id
    &&& a.home_directory@ == "/home/"@ + username
    &&& a.shell@ == "/bin/bash"@
    &&& a.account_type == t
    &&& a.balance_requirement == balance_requirement_of(t)
    &&& a.current_balance == initial_balance
    &&& opt_chars(a.vouched_by) == voucher
    &&& a.staked_by@.len() == 0
    &&& a.total_stake == 0
    &&& a.created_at == now as u64
    &&& a.last_login == 0
    &&& a.resource_limits == tier.resource_limits
    &&& a.permissions@ == tier.permissions@
    &&& a.good_standing
    &&& a.reputation_score == 50
}

/// The vouches of `voucher` that are active.
pub open spec fn active_by(voucher: Seq<char>) -> spec_fn(VouchRecord) -> bool {
    |v: VouchRecord| v.voucher_id@ == voucher && v.active
}

/// How many active vouches `voucher` has given.
pub open spec fn active_vouches(vouches: Map<Seq<char>, VouchRecord>, voucher: Seq<char>) -> nat {
    keys_where(vouches, active_by(voucher)).len()
}

/// Why a vouch is refused, checked in this order.
pub open spec fn vouch_error(
    accounts: Map<Seq<char>, UnixAccount>,
    tiers: Map<Seq<char>, AccountTier>,
    vouches: Map<Seq<char>, VouchRecord>,
    voucher: Seq<char>,
    stake: u64,
) -> Option<Seq<char>> {
    if !accounts.contains_key(voucher) {
        Some("Voucher not found"@)
    } else if !tiers.contains_key(tier_key(accounts[voucher].account_type)) {
        Some("Tier not found"@)
    } else if tiers[tier_key(accounts[voucher].account_type)].max_vouched_users == 0 {
        Some("Voucher tier cannot vouch for users"@)
    } else if (active_vouches(vouches, voucher) as u32) >= tiers[tier_key(
        accounts[voucher].account_type,
    )].max_vouched_users {
        Some("Voucher has reached maximum vouched users"@)
    } else if accounts[voucher].current_balance < stake {
        Some("Insufficient balance for stake"@)
    } else {
        None
    }
}

/// The account takes a balance it does not keep and its stakers do not
/// cover.
pub open spec fn violates(a: UnixAccount) -> bool {
    &&& (a.account_type == AccountType::Balanced || a.account_type == AccountType::Premium)
    &&& a.current_balance < a.balance_requirement
    &&& a.total_stake < a.balance_requirement
}

/// The names, in the given order, of the accounts that violate.
pub open spec fn violators(ks: Seq<Seq<char>>, m: Map<Seq<char>, UnixAccount>) -> Seq<Seq<char>>
    decreases ks.len(),
{
    if ks.len() == 0 {
        Seq::empty()
    } else {
        let r = violators(ks.drop_last(), m);
        if violates(m[ks.last()]) {
            r.push(ks.last())
        } else {
            r
        }
    }
}

/// An account after the balance check.
pub open spec fn checked(a: UnixAccount) -> UnixAccount {
    if violates(a) {
        UnixAccount { good_standing: false, ..a }
    } else {
        a
    }
}

/// A copy of a string list.
fn copy_strings(v: &Vec<String>) -> (r: Vec<String>)
    ensures
        r@ == v@,
{
    let mut r: Vec<String> = Vec::new();
    let mut i: usize = 0;
    while i < v.len()
        invariant
            i <= v@.len(),
            r@ == v@.take(i as int),
        decreases v@.len() - i,
    {
        r.push(v[i].clone());
        i = i + 1;
        assert(r@ =~= v@.take(i as int));
    }
    assert(v@.take(v@.len() as int) =~= v@);
    r
}

impl UnixAccount {
    /// A field-for-field copy.
    pub fn duplicate(&self) -> (r: Self)
        ensures
            same_account(r, *self),
    {
        UnixAccount {
            username: self.username.clone(),
            user_id: self.user_id,
            group_id: self.group_id,
            home_directory: self.home_directory.clone(),
            shell: self.shell.clone(),
            account_type: self.account_type,
            balance_requirement: self.balance_requirement,
            current_balance: self.current_balance,
            vouched_by: match &self.vouched_by {
                Some(v) => Some(v.clone()),
                None => None,
            },
            staked_by: copy_strings(&self.staked_by),
            total_stake: self.total_stake,
            created_at: self.created_at,
            last_login: self.last_login,
            resource_limits: self.resource_limits,
            permissions: copy_strings(&self.permissions),
            good_standing: self.good_standing,
            reputation_score: self.reputation_score,
        }
    }
}

/// Two accounts hold the same values.
pub open spec fn same_account(a: UnixAccount, b: UnixAccount) -> bool {
    &&& a.username == b.username
    &&& a.user_id == b.user_id
    &&& a.group_id == b.group_id
    &&& a.home_directory == b.home_directory
    &&& a.shell == b.shell
    &&& a.account_type == b.account_type
    &&& a.balance_requirement == b.balance_requirement
    &&& a.current_balance == b.current_balance
    &&& a.vouched_by == b.vouched_by
    &&& a.staked_by@ == b.staked_by@
    &&& a.total_stake == b.total_stake
    &&& a.created_at == b.created_at
    &&& a.last_login == b.last_login
    &&& a.resource_limits == b.resource_limits
    &&& a.permissions@ == b.permissions@
    &&& a.good_standing == b.good_standing
    &&& a.reputation_score == b.reputation_score
}

/// The shell commands that set an account up: the `useradd` line, the
/// limits lines and the quota line.
pub open spec fn unix_user_commands(a: UnixAccount) -> (Seq<char>, Seq<char>, Seq<char>) {
    let u = a.username@;
    let cpu = text::decimal(a.resource_limits.cpu_quota as nat);
    let mem = text::decimal(a.resource_limits.memory_limit_mb as nat);
    let kb = text::decimal((a.resource_limits.disk_quota_mb * 1024) as nat);
    (
        "useradd -u "@ + text::decimal(a.user_id as nat) + " -g "@ + text::decimal(a.group_id as nat)
            + " -d "@ + a.home_directory@ + " -s "@ + a.shell@ + " -c 'ZOS User' "@ + u,
        u + " soft cpu "@ + cpu + "\n"@ + u + " hard cpu "@ + cpu + "\n"@ + u + " soft memlock "@ + mem
            + "\n"@ + u + " hard memlock "@ + mem,
        "setquota -u "@ + u + " "@ + kb + " "@ + kb + " 0 0 /"@,
    )
}

/// Computes `unix_user_commands`.
pub fn create_unix_user(account: &UnixAccount) -> (r: (String, String, String))
    requires
        account.resource_limits.disk_quota_mb * 1024 <= u64::MAX,
    ensures
        (r.0@, r.1@, r.2@) == unix_user_commands(*account),
{
    let u = account.username.as_str();
    let mut useradd = String::from_str("useradd -u ");
    useradd.append(text::decimal_string(account.user_id as u64).as_str());
    useradd.append(" -g ");
    useradd.append(text::decimal_string(account.group_id as u64).as_str());
    useradd.append(" -d ");
    useradd.append(account.home_directory.as_str());
    useradd.append(" -s ");
    useradd.append(account.shell.as_str());
    useradd.append(" -c 'ZOS User' ");
    useradd.append(u);
    let cpu = text::decimal_string(account.resource_limits.cpu_quota as u64);
    let mem = text::decimal_string(account.resource_limits.memory_limit_mb);
    let mut limits = String::from_str(u);
    limits.append(" soft cpu ");
    limits.append(cpu.as_str());
    limits.append("\n");
    limits.append(u);
    limits.append(" hard cpu ");
    limits.append(cpu.as_str());
    limits.append("\n");
    limits.append(u);
    limits.append(" soft memlock ");
    limits.append(mem.as_str());
    limits.append("\n");
    limits.append(u);
    limits.append(" hard memlock ");
    limits.append(mem.as_str());
    let kb = text::decimal_string(account.resource_limits.disk_quota_mb * 1024);
    let mut quota = String::from_str("setquota -u ");
    quota.append(u);
    quota.append(" ");
    quota.append(kb.as_str());
    quota.append(" ");
    quota.append(kb.as_str());
    quota.append(" 0 0 /");
    (useradd, limits, quota)
}

impl UnixAccountManager {
    /// The maps are well formed, the tiers are the standard ones, and the
    /// accounts carry distinct user ids from 1000 up to 1000 plus the
    /// number of accounts.
    pub open spec fn wf(&self) -> bool {
        &&& self.user_accounts.wf()
        &&& self.vouching_system.wf()
        &&& self.staking_pools.wf()
        &&& self.account_tiers.wf()
        &&& standard_tiers(self.account_tiers@)
        &&& forall|k: Seq<char>| #[trigger]
            self.user_accounts@.contains_key(k) ==> 1000 <= self.user_accounts@[k].user_id < 1000
                + self.user_accounts@.dom().len()
        &&& forall|a: Seq<char>, b: Seq<char>|
            #![trigger self.user_accounts@[a], self.user_accounts@[b]]
            self.user_accounts@.contains_key(a) && self.user_accounts@.contains_key(b) && a != b
                ==> self.user_accounts@[a].user_id != self.user_accounts@[b].user_id
    }

    /// A manager with the three standard tiers and no accounts, vouches or
    /// pools.
    pub fn new() -> (m: Self)
        ensures
            m.wf(),
            m.user_accounts@ == Map::<Seq<char>, UnixAccount>::empty(),
            m.vouching_system@ == Map::<Seq<char>, VouchRecord>::empty(),
            m.staking_pools@ == Map::<Seq<char>, StakingPool>::empty(),
            m.system_resources.total_users == 0,
            m.system_resources.active_users == 0,
    {
        let mut m = UnixAccountManager {
            user_accounts: StrMap::new(),
            vouching_system: StrMap::new(),
            staking_pools: StrMap::new(),
            account_tiers: StrMap::new(),
            system_resources: SystemResources {
                total_users: 0,
                active_users: 0,
                cpu_usage: 0,
                memory_usage: 0,
                disk_usage: 0,
                network_usage: 0,
            },
        };
        m.initialize_account_tiers();
        m
    }

    /// Stores the three standard tiers.
    fn initialize_account_tiers(&mut self)
        requires
            old(self).account_tiers.wf(),
            old(self).account_tiers@ == Map::<Seq<char>, AccountTier>::empty(),
        ensures
            final(self).account_tiers.wf(),
            standard_tiers(final(self).account_tiers@),
            final(self).user_accounts == old(self).user_accounts,
            final(self).vouching_system == old(self).vouching_system,
            final(self).staking_pools == old(self).staking_pools,
            final(self).system_resources == old(self).system_resources,
    {
        let mut free_permissions: Vec<String> = Vec::new();
        free_permissions.push(String::from_str("ssh"));
        free_permissions.push(String::from_str("basic_shell"));
        assert(text::string_views(free_permissions@) =~= seq!["ssh"@, "basic_shell"@]);
        let mut balanced_permissions: Vec<String> = Vec::new();
        balanced_permissions.push(String::from_str("ssh"));
        balanced_permissions.push(String::from_str("shell"));
        balanced_permissions.push(String::from_str("compiler"));
        assert(text::string_views(balanced_permissions@) =~= seq!["ssh"@, "shell"@, "compiler"@]);
        let mut premium_permissions: Vec<String> = Vec::new();
        premium_permissions.push(String::from_str("ssh"));
        premium_permissions.push(String::from_str("shell"));
        premium_permissions.push(String::from_str("compiler"));
        premium_permissions.push(String::from_str("docker"));
        premium_permissions.push(String::from_str("admin_tools"));
        assert(text::string_views(premium_permissions@) =~= seq![
            "ssh"@,
            "shell"@,
            "compiler"@,
            "docker"@,
            "admin_tools"@,
        ]);
        let free = AccountTier {
            tier_name: String::from_str("Free"),
            balance_requirement: 0,
            resource_limits: ResourceLimits {
                cpu_quota: 5,
                memory_limit_mb: 128,
                disk_quota_mb: 100,
                network_bandwidth_kbps: 100,
                process_limit: 10,
                file_descriptors: 100,
                cron_jobs: 2,
                login_sessions: 1,
            },
            permissions: free_permissions,
            max_vouched_users: 0,
            staking_power: 0,
        };
        let balanced = AccountTier {
            tier_name: String::from_str("Balanced"),
            balance_requirement: 1000,
            resource_limits: ResourceLimits {
                cpu_quota: 15,
                memory_limit_mb: 512,
                disk_quota_mb: 1000,
                network_bandwidth_kbps: 1000,
                process_limit: 25,
                file_descriptors: 500,
                cron_jobs: 5,
                login_sessions: 2,
            },
            permissions: balanced_permissions,
            max_vouched_users: 2,
            staking_power: 1,
        };
        let premium = AccountTier {
            tier_name: String::from_str("Premium"),
            balance_requirement: 10000,
            resource_limits: ResourceLimits {
                cpu_quota: 50,
                memory_limit_mb: 2048,
                disk_quota_mb: 10000,
                network_bandwidth_kbps: 10000,
                process_limit: 100,
                file_descriptors: 2000,
                cron_jobs: 20,
                login_sessions: 5,
            },
            permissions: premium_permissions,
            max_vouched_users: 10,
            staking_power: 5,
        };
        proof {
            reveal_strlit("free");
            reveal_strlit("balanced");
            reveal_strlit("premium");
        }
        assert(is_standard_tier(free, "free"@));
        assert("free"@.len() == 4 && "balanced"@.len() == 8 && "premium"@.len() == 7);
        assert(is_standard_tier(balanced, "balanced"@));
        assert(is_standard_tier(premium, "premium"@));
        self.account_tiers.insert(String::from_str("free"), free);
        self.account_tiers.insert(String::from_str("balanced"), balanced);
        self.account_tiers.insert(String::from_str("premium"), premium);
        assert(self.account_tiers@.dom() =~= set!["free"@, "balanced"@, "premium"@]);
    }

    /// Why an account cannot be created, as `create_error` says, or `None`.
    fn create_refusal(&self, username: &str, account_type: AccountType, voucher: Option<&str>, initial_balance: u64) -> (r:
        Option<String>)
        requires
            self.wf(),
        ensures
            match r {
                Some(e) => create_error(
                    self.user_accounts@,
                    self.account_tiers@,
                    self.vouching_system@,
                    username@,
                    account_type,
                    opt_str(voucher),
                    initial_balance,
                ) == Some(e@),
                None => create_error(
                    self.user_accounts@,
                    self.account_tiers@,
                    self.vouching_system@,
                    username@,
                    account_type,
                    opt_str(voucher),
                    initial_balance,
                ) is None,
            },
    {
        if self.user_accounts.contains_key(username) {
            return Some(String::from_str("Username already exists"));
        }
        let (tier, balance_req): (&str, u64) = match account_type {
            AccountType::Balanced => ("balanced", 1000),
            AccountType::Premium => ("premium", 10000),
            _ => ("free", 0),
        };
        proof {
            reveal_strlit("free");
            reveal_strlit("balanced");
            reveal_strlit("premium");
        }
        assert(tier@ == tier_key(account_type));
        if !self.account_tiers.contains_key(tier) {
            return Some(String::from_str("Invalid account tier"));
        }
        if initial_balance < balance_req && voucher.is_none() {
            let mut e = String::from_str("Insufficient balance. Need ");
            e.append(text::decimal_string(balance_req).as_str());
            e.append(" credits or voucher");
            return Some(e);
        }
        match voucher {
            Some(v) => {
                let key = vouch_key_string(v, username);
                match self.vouching_system.get(key.as_str()) {
                    Some(vouch) => {
                        if !vouch.active {
                            return Some(String::from_str("Vouch is not active"));
                        }
                    },
                    None => {
                        return Some(String::from_str("No valid vouch found"));
                    },
                }
            },
            None => {},
        }
        None
    }

    /// Creates an account at `now`: on a balance that meets the type's
    /// requirement, or on an active vouch of `voucher` for the user. The
    /// account gets the next user id and the limits and permissions of its
    /// tier.
    pub fn create_account_at(
        &mut self,
        username: &str,
        account_type: AccountType,
        voucher: Option<&str>,
        initial_balance: u64,
        now: i64,
    ) -> (r: Result<UnixAccount, String>)
        requires
            old(self).wf(),
            old(self).user_accounts@.dom().len() + 1000 < u32::MAX,
            old(self).system_resources.total_users < u32::MAX,
        ensures
            final(self).wf(),
            final(self).vouching_system == old(self).vouching_system,
            final(self).staking_pools == old(self).staking_pools,
            final(self).account_tiers == old(self).account_tiers,
            match create_error(
                old(self).user_accounts@,
                old(self).account_tiers@,
                old(self).vouching_system@,
                username@,
                account_type,
                opt_str(voucher),
                initial_balance,
            ) {
                Some(e) => r is Err && r->Err_0@ == e && final(self).user_accounts
                    == old(self).user_accounts && final(self).system_resources
                    == old(self).system_resources,
                None => r is Ok && is_new_account(
                    r->Ok_0,
                    username@,
                    account_type,
                    opt_str(voucher),
                    initial_balance,
                    old(self).user_accounts@.dom().len(),
                    old(self).account_tiers@[tier_key(account_type)],
                    now,
                ) && final(self).user_accounts@.dom() == old(self).user_accounts@.dom().insert(username@)
                    && final(self).user_accounts@.remove(username@) == old(self).user_accounts@.remove(
                    username@,
                ) && same_account(final(self).user_accounts@[username@], r->Ok_0)
                    && final(self).system_resources.total_users == old(
                    self,
                ).system_resources.total_users + 1 && final(self).system_resources.active_users
                    == old(self).system_resources.active_users,
            },
    {
        if let Some(e) = self.create_refusal(username, account_type, voucher, initial_balance) {
            return Err(e);
        }
        let (tier, balance_req): (&str, u64) = match account_type {
            AccountType::Balanced => ("balanced", 1000),
            AccountType::Premium => ("premium", 10000),
            _ => ("free", 0),
        };
        proof {
            reveal_strlit("free");
            reveal_strlit("balanced");
            reveal_strlit("premium");
        }
        assert(tier@ == tier_key(account_type));
        let account_tier = match self.account_tiers.get(tier) {
            Some(t) => t,
            None => {
                return Err(String::from_str("Invalid account tier"));
            },
        };
        let n = self.user_accounts.len();
        proof {
            self.user_accounts.lemma_len();
        }
        let user_id: u32 = 1000 + n as u32;
        let account = UnixAccount {
            username: String::from_str(username),
            user_id,
            group_id: user_id,
            home_directory: String::from_str("/home/").concat(username),
            shell: String::from_str("/bin/bash"),
            account_type,
            balance_requirement: balance_req,
            current_balance: initial_balance,
            vouched_by: match voucher {
                Some(v) => Some(String::from_str(v)),
                None => None,
            },
            staked_by: Vec::new(),
            total_stake: 0,
            created_at: now as u64,
            last_login: 0,
            resource_limits: account_tier.resource_limits,
            permissions: copy_strings(&account_tier.permissions),
            good_standing: true,
            reputation_score: 50,
        };
        let stored = account.duplicate();
        let ghost old_accounts = self.user_accounts@;
        let ghost sv = stored;
        self.user_accounts.insert(String::from_str(username), stored);
        self.system_resources.total_users = self.system_resources.total_users + 1;
        proof {
            assert(self.user_accounts@.remove(username@) =~= old_accounts.remove(username@));
            assert(self.user_accounts@[username@] == sv);
            assert forall|k: Seq<char>| #[trigger] self.user_accounts@.contains_key(k) implies 1000
                <= self.user_accounts@[k].user_id < 1000 + self.user_accounts@.dom().len() by {
                if k != username@ {
                    assert(old_accounts.contains_key(k));
                }
            }
            assert forall|a: Seq<char>, b: Seq<char>|
                self.user_accounts@.contains_key(a) && self.user_accounts@.contains_key(b) && a != b implies
                #[trigger] self.user_accounts@[a].user_id != #[trigger] self.user_accounts@[b].user_id by {
                if a != username@ {
                    assert(old_accounts.contains_key(a));
                }
                if b != username@ {
                    assert(old_accounts.contains_key(b));
                }
            }
            self.user_accounts.lemma_len();
            assert(self.user_accounts@.dom() =~= old_accounts.dom().insert(username@));
            assert(!old_accounts.dom().contains(username@));
            assert(self.user_accounts@.dom().len() == old_accounts.dom().len() + 1);
        }
        Ok(account)
    }

    /// Creates an account now.
    pub fn create_account(
        &mut self,
        username: &str,
        account_type: AccountType,
        voucher: Option<&str>,
        initial_balance: u64,
    ) -> (r: Result<UnixAccount, String>)
        requires
            old(self).wf(),
            old(self).user_accounts@.dom().len() + 1000 < u32::MAX,
            old(self).system_resources.total_users < u32::MAX,
        ensures
            final(self).wf(),
            final(self).vouching_system == old(self).vouching_system,
            final(self).staking_pools == old(self).staking_pools,
            final(self).account_tiers == old(self).account_tiers,
            match create_error(
                old(self).user_accounts@,
                old(self).account_tiers@,
                old(self).vouching_system@,
                username@,
                account_type,
                opt_str(voucher),
                initial_balance,
            ) {
                Some(e) => r is Err && r->Err_0@ == e && *final(self) == *old(self),
                None => (r matches Err(e) && e@ == clock::clock_error() && *final(self) == *old(self)) || r is Ok && (exists|now: i64| #[trigger] is_new_account(
                    r->Ok_0,
                    username@,
                    account_type,
                    opt_str(voucher),
                    initial_balance,
                    old(self).user_accounts@.dom().len(),
                    old(self).account_tiers@[tier_key(account_type)],
                    now,
                )) && final(self).user_accounts@.dom() == old(self).user_accounts@.dom().insert(username@)
                    && final(self).user_accounts@.remove(username@) == old(self).user_accounts@.remove(
                    username@,
                ) && same_account(final(self).user_accounts@[username@], r->Ok_0)
                    && final(self).system_resources.total_users == old(
                    self,
                ).system_resources.total_users + 1 && final(self).system_resources.active_users
                    == old(self).system_resources.active_users,
            },
    {
        if let Some(e) = self.create_refusal(username, account_type, voucher, initial_balance) {
            return Err(e);
        }
        let now = match clock::unix_timestamp() {
            Ok(t) => t,
            Err(e) => {
                return Err(e);
            },
        };
        self.create_account_at(username, account_type, voucher, initial_balance, now)
    }

    /// Counts the active vouches of a voucher.
    fn count_active_vouches(&self, voucher: &str) -> (n: usize)
        requires
            self.vouching_system.wf(),
        ensures
            n == active_vouches(self.vouching_system@, voucher@),
    {
        let m = &self.vouching_system;
        let len = m.len();
        proof {
            m.lemma_len();
        }
        let mut n: usize = 0;
        let mut i: usize = 0;
        while i < len
            invariant
                m.wf(),
                len == m.key_seq().len(),
                len == m.val_seq().len(),
                i <= len,
                n == count_where(m.val_seq().take(i as int), active_by(voucher@)),
                n <= i,
            decreases len - i,
        {
            assert(m.val_seq().take(i + 1).drop_last() =~= m.val_seq().take(i as int));
            let v = m.value_at(i);
            if v.active && text::str_eq(v.voucher_id.as_str(), voucher) {
                n = n + 1;
            }
            i = i + 1;
        }
        proof {
            assert(m.val_seq().take(len as int) =~= m.val_seq());
            m.lemma_count_where(active_by(voucher@));
        }
        n
    }

    /// Vouches, with a stake taken from the voucher's balance, for a user:
    /// the voucher's tier must allow vouching and have room for one more
    /// active vouch. A vouch of the same voucher for the same user is
    /// replaced.
    pub fn vouch_for_user(&mut self, voucher_id: &str, username: &str, vouch_type: VouchType, stake_amount: u64) -> (r:
        Result<String, String>)
        requires
            old(self).wf(),
        ensures
            final(self).wf(),
            final(self).staking_pools == old(self).staking_pools,
            final(self).account_tiers == old(self).account_tiers,
            final(self).system_resources == old(self).system_resources,
            match vouch_error(
                old(self).user_accounts@,
                old(self).account_tiers@,
                old(self).vouching_system@,
                voucher_id@,
                stake_amount,
            ) {
                Some(e) => r is Err && r->Err_0@ == e && final(self).user_accounts
                    == old(self).user_accounts && final(self).vouching_system
                    == old(self).vouching_system,
                None => {
                    let key = vouch_key(voucher_id@, username@);
                    let before = old(self).user_accounts@[voucher_id@];
                    &&& r is Ok
                    &&& r->Ok_0@ == key
                    &&& final(self).vouching_system@.dom() == old(self).vouching_system@.dom().insert(key)
                    &&& final(self).vouching_system@.remove(key) == old(self).vouching_system@.remove(key)
                    &&& final(self).vouching_system@[key].voucher_id@ == voucher_id@
                    &&& final(self).vouching_system@[key].vouched_user@ == username@
                    &&& final(self).vouching_system@[key].vouch_type == vouch_type
                    &&& final(self).vouching_system@[key].stake_amount == stake_amount
                    &&& text::string_views(final(self).vouching_system@[key].conditions@) == seq![
                        "maintain_good_standing"@,
                    ]
                    &&& final(self).vouching_system@[key].expires_at is None
                    &&& final(self).vouching_system@[key].active
                    &&& final(self).user_accounts@ == old(self).user_accounts@.insert(
                        voucher_id@,
                        UnixAccount { current_balance: (before.current_balance - stake_amount) as u64, ..before },
                    )
                },
            },
    {
        let (account_type, balance) = match self.user_accounts.get(voucher_id) {
            Some(a) => (a.account_type, a.current_balance),
            None => {
                return Err(String::from_str("Voucher not found"));
            },
        };
        let tier = match account_type {
            AccountType::Balanced => "balanced",
            AccountType::Premium => "premium",
            _ => "free",
        };
        proof {
            reveal_strlit("free");
            reveal_strlit("balanced");
            reveal_strlit("premium");
        }
        assert(tier@ == tier_key(account_type));
        let max = match self.account_tiers.get(tier) {
            Some(t) => t.max_vouched_users,
            None => {
                return Err(String::from_str("Tier not found"));
            },
        };
        if max == 0 {
            return Err(String::from_str("Voucher tier cannot vouch for users"));
        }
        let current = self.count_active_vouches(voucher_id) as u32;
        if current >= max {
            return Err(String::from_str("Voucher has reached maximum vouched users"));
        }
        if balance < stake_amount {
            return Err(String::from_str("Insufficient balance for stake"));
        }
        let key = vouch_key_string(voucher_id, username);
        let mut conditions: Vec<String> = Vec::new();
        conditions.push(String::from_str("maintain_good_standing"));
        let record = VouchRecord {
            voucher_id: String::from_str(voucher_id),
            vouched_user: String::from_str(username),
            vouch_type,
            stake_amount,
            conditions,
            expires_at: None,
            active: true,
        };
        let ghost old_vouches = self.vouching_system@;
        self.vouching_system.insert(key.clone(), record);
        assert(self.vouching_system@.dom() =~= old_vouches.dom().insert(key@));
        assert(self.vouching_system@.remove(key@) =~= old_vouches.remove(key@));
        let ghost old_accounts = self.user_accounts@;
        let mut account = match self.user_accounts.remove(voucher_id) {
            Some(a) => a,
            None => {
                return Err(String::from_str("Voucher not found"));
            },
        };
        account.current_balance = account.current_balance - stake_amount;
        let ghost updated = account;
        self.user_accounts.insert(String::from_str(voucher_id), account);
        proof {
            assert(self.user_accounts@ =~= old_accounts.insert(voucher_id@, updated));
            assert(self.user_accounts@.dom() =~= old_accounts.dom());
            assert forall|k: Seq<char>| #[trigger] self.user_accounts@.contains_key(k) implies 1000
                <= self.user_accounts@[k].user_id < 1000 + self.user_accounts@.dom().len() by {
                assert(old_accounts.contains_key(k));
            }
            assert forall|a: Seq<char>, b: Seq<char>|
                self.user_accounts@.contains_key(a) && self.user_accounts@.contains_key(b) && a != b implies
                #[trigger] self.user_accounts@[a].user_id != #[trigger] self.user_accounts@[b].user_id by {
                assert(old_accounts.contains_key(a) && old_accounts.contains_key(b));
            }
        }
        Ok(key)
    }

    /// Opens a staking pool of `staker_id` at `now` with credits taken from
    /// the staker's balance.
    pub fn create_staking_pool_at(&mut self, staker_id: &str, initial_stake: u64, now: i64) -> (r:
        Result<String, String>)
        requires
            old(self).wf(),
        ensures
            final(self).wf(),
            final(self).vouching_system == old(self).vouching_system,
            final(self).account_tiers == old(self).account_tiers,
            final(self).system_resources == old(self).system_resources,
            !old(self).user_accounts@.contains_key(staker_id@) ==> r is Err && r->Err_0@
                == "Staker not found"@ && final(self).user_accounts == old(self).user_accounts
                && final(self).staking_pools == old(self).staking_pools,
            old(self).user_accounts@.contains_key(staker_id@)
                && old(self).user_accounts@[staker_id@].current_balance < initial_stake ==> r is Err
                && r->Err_0@ == "Insufficient balance for staking pool"@ && final(self).user_accounts
                == old(self).user_accounts && final(self).staking_pools == old(self).staking_pools,
            old(self).user_accounts@.contains_key(staker_id@)
                && old(self).user_accounts@[staker_id@].current_balance >= initial_stake ==> {
                let id = "pool_"@ + staker_id@ + "_"@ + text::signed_decimal(now as int);
                let before = old(self).user_accounts@[staker_id@];
                &&& r is Ok
                &&& r->Ok_0@ == id
                &&& final(self).staking_pools@.dom() == old(self).staking_pools@.dom().insert(id)
                &&& final(self).staking_pools@.remove(id) == old(self).staking_pools@.remove(id)
                &&& final(self).staking_pools@[id].pool_id@ == id
                &&& final(self).staking_pools@[id].staker_id@ == staker_id@
                &&& final(self).staking_pools@[id].total_staked == initial_stake
                &&& final(self).staking_pools@[id].backed_users@.len() == 0
                &&& final(self).staking_pools@[id].risk_level == RiskLevel::Low
                &&& final(self).staking_pools@[id].rewards_earned == 0
                &&& final(self).staking_pools@[id].slashing_history@.len() == 0
                &&& final(self).user_accounts@ == old(self).user_accounts@.insert(
                    staker_id@,
                    UnixAccount { current_balance: (before.current_balance - initial_stake) as u64, ..before },
                )
            },
    {
        let balance = match self.user_accounts.get(staker_id) {
            Some(a) => a.current_balance,
            None => {
                return Err(String::from_str("Staker not found"));
            },
        };
        if balance < initial_stake {
            return Err(String::from_str("Insufficient balance for staking pool"));
        }
        let ghost old_accounts = self.user_accounts@;
        let mut account = match self.user_accounts.remove(staker_id) {
            Some(a) => a,
            None => {
                return Err(String::from_str("Staker not found"));
            },
        };
        let mut id = String::from_str("pool_");
        id.append(staker_id);
        id.append("_");
        id.append(text::signed_decimal_string(now).as_str());
        let pool = StakingPool {
            pool_id: id.clone(),
            staker_id: String::from_str(staker_id),
            total_staked: initial_stake,
            backed_users: Vec::new(),
            risk_level: RiskLevel::Low,
            rewards_earned: 0,
            slashing_history: Vec::new(),
        };
        account.current_balance = account.current_balance - initial_stake;
        let ghost updated = account;
        self.user_accounts.insert(String::from_str(staker_id), account);
        let ghost old_pools = self.staking_pools@;
        self.staking_pools.insert(id.clone(), pool);
        proof {
            assert(self.staking_pools@.dom() =~= old_pools.dom().insert(id@));
            assert(self.staking_pools@.remove(id@) =~= old_pools.remove(id@));
            assert(self.user_accounts@ =~= old_accounts.insert(staker_id@, updated));
            assert(self.user_accounts@.dom() =~= old_accounts.dom());
            assert forall|k: Seq<char>| #[trigger] self.user_accounts@.contains_key(k) implies 1000
                <= self.user_accounts@[k].user_id < 1000 + self.user_accounts@.dom().len() by {
                assert(old_accounts.contains_key(k));
            }
            assert forall|a: Seq<char>, b: Seq<char>|
                self.user_accounts@.contains_key(a) && self.user_accounts@.contains_key(b) && a != b implies
                #[trigger] self.user_accounts@[a].user_id != #[trigger] self.user_accounts@[b].user_id by {
                assert(old_accounts.contains_key(a) && old_accounts.contains_key(b));
            }
        }
        Ok(id)
    }

    /// Opens a staking pool now.
    pub fn create_staking_pool(&mut self, staker_id: &str, initial_stake: u64) -> (r: Result<String, String>)
        requires
            old(self).wf(),
        ensures
            final(self).wf(),
            final(self).vouching_system == old(self).vouching_system,
            final(self).account_tiers == old(self).account_tiers,
            final(self).system_resources == old(self).system_resources,
            !old(self).user_accounts@.contains_key(staker_id@) ==> r is Err && r->Err_0@
                == "Staker not found"@ && *final(self) == *old(self),
            old(self).user_accounts@.contains_key(staker_id@)
                && old(self).user_accounts@[staker_id@].current_balance < initial_stake ==> r is Err
                && r->Err_0@ == "Insufficient balance for staking pool"@ && *final(self) == *old(self),
            old(self).user_accounts@.contains_key(staker_id@)
                && old(self).user_accounts@[staker_id@].current_balance >= initial_stake ==> (r matches Err(e)
                && e@ == clock::clock_error() && *final(self) == *old(self)) || ({
                &&& exists|now: i64|
                    {
                        let id = "pool_"@ + staker_id@ + "_"@ + #[trigger] text::signed_decimal(now as int);
                        let before = old(self).user_accounts@[staker_id@];
                        &&& r is Ok
                        &&& r->Ok_0@ == id
                        &&& final(self).staking_pools@.dom() == old(self).staking_pools@.dom().insert(id)
                        &&& final(self).staking_pools@.remove(id) == old(self).staking_pools@.remove(id)
                        &&& final(self).staking_pools@[id].pool_id@ == id
                        &&& final(self).staking_pools@[id].staker_id@ == staker_id@
                        &&& final(self).staking_pools@[id].total_staked == initial_stake
                        &&& final(self).staking_pools@[id].backed_users@.len() == 0
                        &&& final(self).staking_pools@[id].risk_level == RiskLevel::Low
                        &&& final(self).staking_pools@[id].rewards_earned == 0
                        &&& final(self).staking_pools@[id].slashing_history@.len() == 0
                        &&& final(self).user_accounts@ == old(self).user_accounts@.insert(
                            staker_id@,
                            UnixAccount { current_balance: (before.current_balance - initial_stake) as u64, ..before },
                        )
                    }
            }),
    {
        match self.user_accounts.get(staker_id) {
            None => {
                return Err(String::from_str("Staker not found"));
            },
            Some(a) => {
                if a.current_balance < initial_stake {
                    return Err(String::from_str("Insufficient balance for staking pool"));
                }
            },
        }
        let now = match clock::unix_timestamp() {
            Ok(t) => t,
            Err(e) => {
                return Err(e);
            },
        };
        self.create_staking_pool_at(staker_id, initial_stake, now)
    }

    /// Takes out of good standing every balanced or premium account whose
    /// balance and stake both fall short of its requirement, and returns
    /// their names in storage order.
    pub fn check_balance_requirements(&mut self) -> (r: Vec<String>)
        requires
            old(self).wf(),
        ensures
            final(self).wf(),
            text::string_views(r@) == violators(old(self).user_accounts.key_seq(), old(self).user_accounts@),
            final(self).user_accounts@ == old(self).user_accounts@.map_values(|a: UnixAccount| checked(a)),
            final(self).vouching_system == old(self).vouching_system,
            final(self).staking_pools == old(self).staking_pools,
            final(self).account_tiers == old(self).account_tiers,
            final(self).system_resources == old(self).system_resources,
    {
        let ghost orig = self.user_accounts;
        let ghost vouches0 = self.vouching_system;
        let ghost pools0 = self.staking_pools;
        let ghost tiers0 = self.account_tiers;
        let ghost res0 = self.system_resources;
        let ghost keys0 = self.user_accounts.key_seq();
        let ghost vals0 = self.user_accounts.val_seq();
        let ghost map0 = self.user_accounts@;
        let n = self.user_accounts.len();
        proof {
            self.user_accounts.lemma_len();
            assert forall|j: int| 0 <= j < n implies #[trigger] map0[keys0[j]] == vals0[j] by {
                orig.lemma_entry(j);
            }
        }
        let mut violations: Vec<String> = Vec::new();
        let mut i: usize = 0;
        assert(keys0.take(0) =~= Seq::<Seq<char>>::empty());
        while i < n
            invariant
                self.user_accounts.wf(),
                n == keys0.len(),
                n == vals0.len(),
                i <= n,
                self.user_accounts.key_seq() == keys0,
                self.vouching_system == vouches0,
                self.staking_pools == pools0,
                self.account_tiers == tiers0,
                self.system_resources == res0,
                self.user_accounts.val_seq().len() == n,
                forall|j: int| 0 <= j < i ==> #[trigger] self.user_accounts.val_seq()[j] == checked(vals0[j]),
                forall|j: int| i <= j < n ==> #[trigger] self.user_accounts.val_seq()[j] == vals0[j],
                forall|j: int| 0 <= j < n ==> #[trigger] map0[keys0[j]] == vals0[j],
                text::string_views(violations@) == violators(keys0.take(i as int), map0),
            decreases n - i,
        {
            let key = self.user_accounts.key_at(i).clone();
            let ghost before = self.user_accounts.val_seq();
            let account = self.user_accounts.value_mut_at(i);
            let bad = (account.account_type == AccountType::Balanced || account.account_type
                == AccountType::Premium) && account.current_balance < account.balance_requirement
                && account.total_stake < account.balance_requirement;
            if bad {
                account.good_standing = false;
            }
            proof {
                assert(keys0.take(i + 1).drop_last() =~= keys0.take(i as int));
                assert(keys0.take(i + 1).last() == keys0[i as int]);
            }
            if bad {
                let ghost old_v = violations@;
                violations.push(key);
                assert(text::string_views(violations@) =~= text::string_views(old_v).push(keys0[i as int]));
            }
            i = i + 1;
        }
        proof {
            assert(keys0.take(n as int) =~= keys0);
            let m = self.user_accounts@;
            assert forall|k: Seq<char>| #[trigger] m.contains_key(k) == map0.contains_key(k) by {
                if m.contains_key(k) {
                    self.user_accounts.lemma_key(k);
                    let a = keys0.index_of(k);
                    orig.lemma_entry(a);
                }
                if map0.contains_key(k) {
                    orig.lemma_key(k);
                    let a = keys0.index_of(k);
                    self.user_accounts.lemma_entry(a);
                }
            }
            assert forall|k: Seq<char>| #[trigger] m.contains_key(k) implies m[k] == checked(map0[k]) by {
                self.user_accounts.lemma_key(k);
                let a = keys0.index_of(k);
                self.user_accounts.lemma_entry(a);
                orig.lemma_entry(a);
            }
            assert(m =~= map0.map_values(|a: UnixAccount| checked(a)));
            assert(m.dom() =~= map0.dom());
            assert forall|k: Seq<char>| #[trigger] m.contains_key(k) implies 1000 <= m[k].user_id < 1000
                + m.dom().len() by {
                assert(map0.contains_key(k));
            }
            assert forall|a: Seq<char>, b: Seq<char>|
                m.contains_key(a) && m.contains_key(b) && a != b implies #[trigger] m[a].user_id
                != #[trigger] m[b].user_id by {
                assert(map0.contains_key(a) && map0.contains_key(b));
            }
        }
        violations
    }
}


/// What checking the vouch of `voucher` for `user` finds wrong, if anything.
pub open spec fn voucher_error(vouches: Map<Seq<char>, VouchRecord>, voucher: Seq<char>, user: Seq<char>) -> Option<
    Seq<char>,
> {
    let k = vouch_key(voucher, user);
    if !vouches.contains_key(k) {
        Some("No valid vouch found"@)
    } else if !vouches[k].active {
        Some("Vouch is not active"@)
    } else {
        None
    }
}

/// What looking up the tier of `user` finds: the user's tier, or why there
/// is none.
pub open spec fn user_tier_of(
    accounts: Map<Seq<char>, UnixAccount>,
    tiers: Map<Seq<char>, AccountTier>,
    user: Seq<char>,
) -> Result<AccountTier, Seq<char>> {
    if !accounts.contains_key(user) {
        Err("User not found"@)
    } else if !tiers.contains_key(tier_key(accounts[user].account_type)) {
        Err("Tier not found"@)
    } else {
        Ok(tiers[tier_key(accounts[user].account_type)])
    }
}

impl UnixAccountManager {
    /// Checks that `voucher_id` has an active vouch for `username`.
    pub fn validate_voucher(&self, voucher_id: &str, username: &str) -> (r: Result<(), String>)
        requires
            self.wf(),
        ensures
            match voucher_error(self.vouching_system@, voucher_id@, username@) {
                Some(e) => r is Err && r->Err_0@ == e,
                None => r is Ok,
            },
    {
        let key = vouch_key_string(voucher_id, username);
        match self.vouching_system.get(key.as_str()) {
            Some(vouch) => {
                if vouch.active {
                    Ok(())
                } else {
                    Err(String::from_str("Vouch is not active"))
                }
            },
            None => Err(String::from_str("No valid vouch found")),
        }
    }

    /// The tier of the user's account type (`free` for a type without a
    /// tier of its own).
    pub fn get_user_tier(&self, user_id: &str) -> (r: Result<&AccountTier, String>)
        requires
            self.wf(),
        ensures
            match user_tier_of(self.user_accounts@, self.account_tiers@, user_id@) {
                Ok(t) => r is Ok && *r->Ok_0 == t,
                Err(e) => r is Err && r->Err_0@ == e,
            },
    {
        let account = match self.user_accounts.get(user_id) {
            Some(a) => a,
            None => {
                return Err(String::from_str("User not found"));
            },
        };
        let tier_name = match account.account_type {
            AccountType::Free => "free",
            AccountType::Balanced => "balanced",
            AccountType::Premium => "premium",
            _ => "free",
        };
        proof {
            reveal_strlit("free");
            reveal_strlit("balanced");
            reveal_strlit("premium");
        }
        assert(tier_name@ == tier_key(account.account_type));
        match self.account_tiers.get(tier_name) {
            Some(t) => Ok(t),
            None => Err(String::from_str("Tier not found")),
        }
    }
}

} // verus!
