//! The community resource economy's records: contributed resources and the
//! tokens they earn, proposals, allocations, vesting, and benefits.
use vstd::prelude::*;
use crate::strmap::StrMap;
use crate::text;

verus! {

/// What a token allocation rewards.
#[derive(Debug, Clone, Copy, PartialEq, Eq, Structural)]
pub enum AllocationType {
    ServerContribution,
    CommunityProject,
    UserReward,
    DeveloperGrant,
    StakingReward,
    GovernanceReward,
}

/// What a community benefit gives.
#[derive(Debug, Clone, Copy, PartialEq, Eq, Structural)]
pub enum BenefitType {
    FreeAccounts,
    PriorityAccess,
    ExtraResources,
    DeveloperTools,
    CommunityStatus,
    TokenRewards,
}

/// What a resource pool holds.
#[derive(Debug, Clone, Copy, PartialEq, Eq, Structural)]
pub enum PoolType {
    Compute,
    Storage,
    Network,
    GPU,
    Development,
    Gaming,
    AI_Training,
    Community,
}

/// Where a proposal stands.
#[derive(Debug, Clone, Copy, PartialEq, Eq, Structural)]
pub enum ProposalStatus {
    Draft,
    Voting,
    Approved,
    Rejected,
    Implemented,
}

/// Someone a pool gave to.
pub struct Beneficiary {
    pub user_id: String,
    pub allocation_amount: u64,
    pub allocation_reason: String,
    pub granted_at: u64,
}

/// A benefit the community offers.
pub struct CommunityBenefit {
    pub benefit_type: BenefitType,
    pub description: String,
    pub token_reward: u64,
    pub resource_allocation: Option<u64>,
    pub eligibility_criteria: Vec<String>,
}

/// What a server contributes.
pub struct ContributedResources {
    pub cpu_cores: u32,
    pub memory_gb: u32,
    pub storage_gb: u32,
    pub bandwidth_mbps: u32,
    pub gpu_units: u32,
    pub specialized_hardware: Vec<String>,
}

/// A request for tokens and resources.
pub struct ResourceProposal {
    pub proposal_id: String,
    pub proposer_id: String,
    pub title: String,
    pub description: String,
    pub requested_tokens: u64,
    pub requested_resources: ContributedResources,
    pub community_benefit: String,
    pub votes_for: u64,
    pub votes_against: u64,
    pub status: ProposalStatus,
}

/// How an allocation is released.
pub struct VestingSchedule {
    pub total_amount: u64,
    pub cliff_period: u64,
    pub vesting_period: u64,
    pub released_amount: u64,
}

/// Tokens given to someone.
pub struct TokenAllocation {
    pub recipient_id: String,
    pub allocation_type: AllocationType,
    pub amount: u64,
    pub vesting_schedule: Option<VestingSchedule>,
    pub conditions: Vec<String>,
    pub allocated_by: String,
    pub allocated_at: u64,
}

/// The tokens a server earns for what it contributes: 1000 per CPU core,
/// 100 per GB of memory, 10 per GB of storage, 50 per Mbps and 5000 per GPU.
pub open spec fn token_allocation(r: ContributedResources) -> nat {
    (r.cpu_cores * 1000 + r.memory_gb * 100 + r.storage_gb * 10 + r.bandwidth_mbps * 50 + r.gpu_units * 5000) as nat
}

/// Computes `token_allocation`.
pub fn calculate_server_token_allocation(resources: &ContributedResources) -> (t: u64)
    ensures
        t == token_allocation(*resources),
{
    let cpu = resources.cpu_cores as u64 * 1000;
    let memory = resources.memory_gb as u64 * 100;
    let storage = resources.storage_gb as u64 * 10;
    let bandwidth = resources.bandwidth_mbps as u64 * 50;
    let gpu = resources.gpu_units as u64 * 5000;
    cpu + memory + storage + bandwidth + gpu
}

/// A new community proposal made at `now`: open for voting with no votes.
pub fn new_proposal(
    proposer_id: &str,
    title: &str,
    description: &str,
    requested_tokens: u64,
    requested_resources: ContributedResources,
    now: i64,
) -> (p: ResourceProposal)
    ensures
        p.proposal_id@ == "prop_"@ + proposer_id@ + "_"@ + text::signed_decimal(now as int),
        p.proposer_id@ == proposer_id@,
        p.title@ == title@,
        p.description@ == description@,
        p.requested_tokens == requested_tokens,
        p.requested_resources == requested_resources,
        p.community_benefit@ == "Community infrastructure improvement"@,
        p.votes_for == 0 && p.votes_against == 0,
        p.status == ProposalStatus::Voting,
{
    let mut id = String::from_str("prop_");
    id.append(proposer_id);
    id.append("_");
    let stamp = text::signed_decimal_string(now);
    id.append(stamp.as_str());
    ResourceProposal {
        proposal_id: id,
        proposer_id: String::from_str(proposer_id),
        title: String::from_str(title),
        description: String::from_str(description),
        requested_tokens,
        requested_resources,
        community_benefit: String::from_str("Community infrastructure improvement"),
        votes_for: 0,
        votes_against: 0,
        status: ProposalStatus::Voting,
    }
}


/// A server of the community. Its distribution policy, reputation and
/// uptime, which are floats, are kept by the caller.
pub struct CommunityServer {
    pub server_id: String,
    pub operator_id: String,
    pub server_name: String,
    pub location: String,
    pub contributed_resources: ContributedResources,
    pub token_allocation: u64,
    pub active_users: u32,
    pub community_benefits: Vec<CommunityBenefit>,
}

/// A pool of one server's resources and who it gave to. Its price per unit,
/// and the reputation requirement and staking multiplier of its rules, which
/// are floats, are kept by the caller.
pub struct ResourcePool {
    pub pool_id: String,
    pub server_id: String,
    pub pool_type: PoolType,
    pub total_capacity: u64,
    pub allocated_capacity: u64,
    pub max_per_user: u64,
    pub cooldown_period: u64,
    pub community_priority: bool,
    pub beneficiaries: Vec<Beneficiary>,
}

/// The totals over the servers. The average uptime, a float, is kept by the
/// caller.
pub struct CommunityMetrics {
    pub total_servers: u32,
    pub total_contributed_resources: ContributedResources,
    pub total_active_users: u32,
    pub token_circulation: u64,
    pub community_projects: u32,
}

/// Servers, their pools, the tokens given out and the proposals.
pub struct CommunityResourceEconomy {
    pub servers: StrMap<CommunityServer>,
    pub resource_pools: StrMap<ResourcePool>,
    pub token_distribution: StrMap<TokenAllocation>,
    pub governance_proposals: StrMap<ResourceProposal>,
    pub community_metrics: CommunityMetrics,
}

/// The name of a pool type, as `Debug` writes the variant.
pub open spec fn pool_type_name(t: PoolType) -> Seq<char> {
    match t {
        PoolType::Compute => "Compute"@,
        PoolType::Storage => "Storage"@,
        PoolType::Network => "Network"@,
        PoolType::GPU => "GPU"@,
        PoolType::Development => "Development"@,
        PoolType::Gaming => "Gaming"@,
        PoolType::AI_Training => "AI_Training"@,
        PoolType::Community => "Community"@,
    }
}

/// Writes `pool_type_name`.
fn pool_type_text(t: PoolType) -> (r: &'static str)
    ensures
        r@ == pool_type_name(t),
{
    proof {
        reveal_strlit("Compute");
        reveal_strlit("Storage");
        reveal_strlit("Network");
        reveal_strlit("GPU");
        reveal_strlit("Development");
        reveal_strlit("Gaming");
        reveal_strlit("AI_Training");
        reveal_strlit("Community");
    }
    match t {
        PoolType::Compute => "Compute",
        PoolType::Storage => "Storage",
        PoolType::Network => "Network",
        PoolType::GPU => "GPU",
        PoolType::Development => "Development",
        PoolType::Gaming => "Gaming",
        PoolType::AI_Training => "AI_Training",
        PoolType::Community => "Community",
    }
}

/// The id of a server's pool of a type.
pub open spec fn pool_id_of(server_id: Seq<char>, t: PoolType) -> Seq<char> {
    server_id + "_"@ + pool_type_name(t)
}

/// A fresh pool of `server_id`: empty, with its capacity, limit per user
/// and cooldown.
pub open spec fn fresh_pool(p: ResourcePool, server_id: Seq<char>, t: PoolType, total: nat, per_user: nat, cooldown: u64) -> bool {
    &&& p.pool_id@ == pool_id_of(server_id, t)
    &&& p.server_id@ == server_id
    &&& p.pool_type == t
    &&& p.total_capacity == total
    &&& p.allocated_capacity == 0
    &&& p.max_per_user == per_user
    &&& p.cooldown_period == cooldown
    &&& p.community_priority
    &&& p.beneficiaries@.len() == 0
}

/// The pools a server gets: compute (100 units and 10 per user for each
/// core, an hour's cooldown) and storage (1024 MB and 100 per user for each
/// GB, a day's cooldown).
pub open spec fn server_pools(pools: Map<Seq<char>, ResourcePool>, server_id: Seq<char>, r: ContributedResources) -> bool {
    &&& pools.contains_key(pool_id_of(server_id, PoolType::Compute))
    &&& fresh_pool(
        pools[pool_id_of(server_id, PoolType::Compute)],
        server_id,
        PoolType::Compute,
        r.cpu_cores as nat * 100,
        r.cpu_cores as nat * 10,
        3600,
    )
    &&& pools.contains_key(pool_id_of(server_id, PoolType::Storage))
    &&& fresh_pool(
        pools[pool_id_of(server_id, PoolType::Storage)],
        server_id,
        PoolType::Storage,
        r.storage_gb as nat * 1024,
        r.storage_gb as nat * 100,
        86400,
    )
}

/// The resources of the servers, summed field by field: CPU cores, memory,
/// storage, bandwidth, GPUs and active users.
pub open spec fn server_totals(vs: Seq<CommunityServer>) -> (nat, nat, nat, nat, nat, nat)
    decreases vs.len(),
{
    if vs.len() == 0 {
        (0, 0, 0, 0, 0, 0)
    } else {
        let t = server_totals(vs.drop_last());
        let r = vs.last().contributed_resources;
        (
            t.0 + r.cpu_cores as nat,
            t.1 + r.memory_gb as nat,
            t.2 + r.storage_gb as nat,
            t.3 + r.bandwidth_mbps as nat,
            t.4 + r.gpu_units as nat,
            t.5 + vs.last().active_users as nat,
        )
    }
}

/// Each total fits in a `u32`.
pub open spec fn totals_fit(t: (nat, nat, nat, nat, nat, nat)) -> bool {
    t.0 <= u32::MAX && t.1 <= u32::MAX && t.2 <= u32::MAX && t.3 <= u32::MAX && t.4 <= u32::MAX && t.5 <= u32::MAX
}

/// The metrics recomputed from the servers: their number (as a `u32`),
/// their resources and users summed; circulation and projects unchanged.
pub open spec fn metrics_of(m: CommunityMetrics, n: nat, t: (nat, nat, nat, nat, nat, nat)) -> bool {
    &&& m.total_servers == n as u32
    &&& m.total_contributed_resources.cpu_cores == t.0
    &&& m.total_contributed_resources.memory_gb == t.1
    &&& m.total_contributed_resources.storage_gb == t.2
    &&& m.total_contributed_resources.bandwidth_mbps == t.3
    &&& m.total_contributed_resources.gpu_units == t.4
    &&& m.total_contributed_resources.specialized_hardware@.len() == 0
    &&& m.total_active_users == t.5
}

/// Empty resources.
fn no_resources() -> (r: ContributedResources)
    ensures
        r.cpu_cores == 0 && r.memory_gb == 0 && r.storage_gb == 0 && r.bandwidth_mbps == 0 && r.gpu_units == 0,
        r.specialized_hardware@.len() == 0,
{
    ContributedResources {
        cpu_cores: 0,
        memory_gb: 0,
        storage_gb: 0,
        bandwidth_mbps: 0,
        gpu_units: 0,
        specialized_hardware: Vec::new(),
    }
}

/// Two strings in a vector.
fn two_strings(a: &str, b: &str) -> (v: Vec<String>)
    ensures
        text::string_views(v@) == seq![a@, b@],
{
    let mut v: Vec<String> = Vec::new();
    v.push(String::from_str(a));
    v.push(String::from_str(b));
    assert(text::string_views(v@) =~= seq![a@, b@]);
    v
}

/// The benefits a server offers: free accounts (ten per core) for members
/// in good standing, and developer tools (five per core, 50 tokens) for
/// verified developers.
pub open spec fn default_benefits(bs: Seq<CommunityBenefit>, cpu: u32) -> bool {
    &&& bs.len() == 2
    &&& bs[0].benefit_type == BenefitType::FreeAccounts
    &&& bs[0].description@ == "Free Unix accounts for community members"@
    &&& bs[0].token_reward == 0
    &&& bs[0].resource_allocation == Some((cpu as nat * 10) as u64)
    &&& text::string_views(bs[0].eligibility_criteria@) == seq!["good_standing"@, "community_member"@]
    &&& bs[1].benefit_type == BenefitType::DeveloperTools
    &&& bs[1].description@ == "Compiler and development tool access"@
    &&& bs[1].token_reward == 50
    &&& bs[1].resource_allocation == Some((cpu as nat * 5) as u64)
    &&& text::string_views(bs[1].eligibility_criteria@) == seq!["developer_verified"@, "project_contribution"@]
}

impl CommunityResourceEconomy {
    /// Its tables are well formed.
    pub open spec fn wf(&self) -> bool {
        &&& self.servers.wf()
        &&& self.resource_pools.wf()
        &&& self.token_distribution.wf()
        &&& self.governance_proposals.wf()
    }

    /// No servers, pools, allocations or proposals; every metric zero.
    pub fn new() -> (e: Self)
        ensures
            e.wf(),
            e.servers@ == Map::<Seq<char>, CommunityServer>::empty(),
            e.resource_pools@ == Map::<Seq<char>, ResourcePool>::empty(),
            e.token_distribution@ == Map::<Seq<char>, TokenAllocation>::empty(),
            e.governance_proposals@ == Map::<Seq<char>, ResourceProposal>::empty(),
            metrics_of(e.community_metrics, 0, (0, 0, 0, 0, 0, 0)),
            e.community_metrics.token_circulation == 0,
            e.community_metrics.community_projects == 0,
    {
        CommunityResourceEconomy {
            servers: StrMap::new(),
            resource_pools: StrMap::new(),
            token_distribution: StrMap::new(),
            governance_proposals: StrMap::new(),
            community_metrics: CommunityMetrics {
                total_servers: 0,
                total_contributed_resources: no_resources(),
                total_active_users: 0,
                token_circulation: 0,
                community_projects: 0,
            },
        }
    }

    /// Adds the compute and storage pools of a server.
    fn create_server_resource_pools(&mut self, server_id: &str, resources: &ContributedResources) -> (r: Result<(), String>)
        requires
            old(self).wf(),
        ensures
            final(self).wf(),
            r is Ok,
            server_pools(final(self).resource_pools@, server_id@, *resources),
            final(self).resource_pools@.dom() == old(self).resource_pools@.dom().insert(
                pool_id_of(server_id@, PoolType::Compute),
            ).insert(pool_id_of(server_id@, PoolType::Storage)),
            forall|k: Seq<char>| #![trigger old(self).resource_pools@[k]]
                k != pool_id_of(server_id@, PoolType::Compute) && k != pool_id_of(server_id@, PoolType::Storage)
                    && old(self).resource_pools@.contains_key(k) ==> final(self).resource_pools@[k] == old(
                    self,
                ).resource_pools@[k],
            final(self).servers == old(self).servers,
            final(self).token_distribution == old(self).token_distribution,
            final(self).governance_proposals == old(self).governance_proposals,
            final(self).community_metrics == old(self).community_metrics,
    {
        proof {
            reveal_strlit("Compute");
            reveal_strlit("Storage");
        }
        let mut compute_id = String::from_str(server_id);
        compute_id.append("_");
        compute_id.append(pool_type_text(PoolType::Compute));
        let compute = ResourcePool {
            pool_id: compute_id.clone(),
            server_id: String::from_str(server_id),
            pool_type: PoolType::Compute,
            total_capacity: resources.cpu_cores as u64 * 100,
            allocated_capacity: 0,
            max_per_user: resources.cpu_cores as u64 * 10,
            cooldown_period: 3600,
            community_priority: true,
            beneficiaries: Vec::new(),
        };
        self.resource_pools.insert(compute_id, compute);
        let mut storage_id = String::from_str(server_id);
        storage_id.append("_");
        storage_id.append(pool_type_text(PoolType::Storage));
        let storage = ResourcePool {
            pool_id: storage_id.clone(),
            server_id: String::from_str(server_id),
            pool_type: PoolType::Storage,
            total_capacity: resources.storage_gb as u64 * 1024,
            allocated_capacity: 0,
            max_per_user: resources.storage_gb as u64 * 100,
            cooldown_period: 86400,
            community_priority: true,
            beneficiaries: Vec::new(),
        };
        self.resource_pools.insert(storage_id, storage);
        proof {
            assert(pool_id_of(server_id@, PoolType::Compute) != pool_id_of(server_id@, PoolType::Storage)) by {
                let a = pool_id_of(server_id@, PoolType::Compute);
                let b = pool_id_of(server_id@, PoolType::Storage);
                reveal_strlit("_");
                let n = server_id@.len() as int;
                assert(a[n + 1] == "Compute"@[0]);
                assert(b[n + 1] == "Storage"@[0]);
            }
            assert(self.resource_pools@.dom() =~= old(self).resource_pools@.dom().insert(
                pool_id_of(server_id@, PoolType::Compute),
            ).insert(pool_id_of(server_id@, PoolType::Storage)));
        }
        Ok(())
    }

    /// Records `amount` tokens for `recipient_id` from `server_id` at `now`.
    fn distribute_tokens(
        &mut self,
        server_id: &str,
        recipient_id: &str,
        allocation_type: AllocationType,
        amount: u64,
        now: i64,
    ) -> (r: Result<(), String>)
        requires
            old(self).wf(),
        ensures
            final(self).wf(),
            r is Ok,
            final(self).token_distribution@.dom() == old(self).token_distribution@.dom().insert(
                "alloc_"@ + recipient_id@ + "_"@ + text::signed_decimal(now as int),
            ),
            ({
                let a = final(self).token_distribution@["alloc_"@ + recipient_id@ + "_"@ + text::signed_decimal(
                    now as int,
                )];
                &&& a.recipient_id@ == recipient_id@
                &&& a.allocation_type == allocation_type
                &&& a.amount == amount
                &&& a.vesting_schedule is None
                &&& a.conditions@.len() == 0
                &&& a.allocated_by@ == server_id@
                &&& a.allocated_at == now as u64
            }),
            forall|k: Seq<char>|
                k != "alloc_"@ + recipient_id@ + "_"@ + text::signed_decimal(now as int)
                    && #[trigger] old(self).token_distribution@.contains_key(k) ==> final(self).token_distribution@[k]
                    == old(self).token_distribution@[k],
            final(self).servers == old(self).servers,
            final(self).resource_pools == old(self).resource_pools,
            final(self).governance_proposals == old(self).governance_proposals,
            final(self).community_metrics == old(self).community_metrics,
    {
        let mut id = String::from_str("alloc_");
        id.append(recipient_id);
        id.append("_");
        id.append(text::signed_decimal_string(now).as_str());
        let allocation = TokenAllocation {
            recipient_id: String::from_str(recipient_id),
            allocation_type,
            amount,
            vesting_schedule: None,
            conditions: Vec::new(),
            allocated_by: String::from_str(server_id),
            allocated_at: now as u64,
        };
        let ghost key = id@;
        self.token_distribution.insert(id, allocation);
        assert(self.token_distribution@.dom() =~= old(self).token_distribution@.dom().insert(key));
        Ok(())
    }

    /// Recomputes the metrics from the servers.
    fn update_community_metrics(&mut self)
        requires
            old(self).wf(),
            totals_fit(server_totals(old(self).servers.val_seq())),
        ensures
            final(self).wf(),
            metrics_of(
                final(self).community_metrics,
                old(self).servers@.dom().len(),
                server_totals(old(self).servers.val_seq()),
            ),
            final(self).community_metrics.token_circulation == old(self).community_metrics.token_circulation,
            final(self).community_metrics.community_projects == old(self).community_metrics.community_projects,
            final(self).servers == old(self).servers,
            final(self).resource_pools == old(self).resource_pools,
            final(self).token_distribution == old(self).token_distribution,
            final(self).governance_proposals == old(self).governance_proposals,
    {
        proof {
            self.servers.lemma_len();
        }
        let ghost vs = self.servers.val_seq();
        let n = self.servers.len();
        let mut cpu: u32 = 0;
        let mut mem: u32 = 0;
        let mut sto: u32 = 0;
        let mut bw: u32 = 0;
        let mut gpu: u32 = 0;
        let mut users: u32 = 0;
        let mut i: usize = 0;
        while i < n
            invariant
                self.wf(),
                vs == self.servers.val_seq(),
                n == vs.len(),
                n == self.servers.key_seq().len(),
                i <= n,
                totals_fit(server_totals(vs)),
                (cpu as nat, mem as nat, sto as nat, bw as nat, gpu as nat, users as nat) == server_totals(
                    vs.take(i as int),
                ),
            decreases n - i,
        {
            proof {
                lemma_totals_grow(vs, i + 1);
            }
            let s = self.servers.value_at(i);
            assert(vs.take(i + 1).drop_last() =~= vs.take(i as int));
            assert(vs.take(i + 1).last() == *s);
            cpu = cpu + s.contributed_resources.cpu_cores;
            mem = mem + s.contributed_resources.memory_gb;
            sto = sto + s.contributed_resources.storage_gb;
            bw = bw + s.contributed_resources.bandwidth_mbps;
            gpu = gpu + s.contributed_resources.gpu_units;
            users = users + s.active_users;
            i = i + 1;
        }
        assert(vs.take(n as int) =~= vs);
        self.community_metrics.total_servers = n as u32;
        self.community_metrics.total_contributed_resources = ContributedResources {
            cpu_cores: cpu,
            memory_gb: mem,
            storage_gb: sto,
            bandwidth_mbps: bw,
            gpu_units: gpu,
            specialized_hardware: Vec::new(),
        };
        self.community_metrics.total_active_users = users;
    }
}

/// The totals over the first `i` servers stay within those over all.
proof fn lemma_totals_grow(vs: Seq<CommunityServer>, i: int)
    requires
        0 <= i <= vs.len(),
    ensures
        server_totals(vs.take(i)).0 <= server_totals(vs).0,
        server_totals(vs.take(i)).1 <= server_totals(vs).1,
        server_totals(vs.take(i)).2 <= server_totals(vs).2,
        server_totals(vs.take(i)).3 <= server_totals(vs).3,
        server_totals(vs.take(i)).4 <= server_totals(vs).4,
        server_totals(vs.take(i)).5 <= server_totals(vs).5,
    decreases vs.len(),
{
    if i == vs.len() {
        assert(vs.take(i) =~= vs);
    } else {
        lemma_totals_grow(vs.drop_last(), i);
        assert(vs.drop_last().take(i) =~= vs.take(i));
    }
}


/// The id of the server `operator` registers at `now`.
pub open spec fn server_id_of(operator: Seq<char>, now: i64) -> Seq<char> {
    "server_"@ + operator + "_"@ + text::signed_decimal(now as int)
}

/// The totals with a server of resources `r` and no users added.
pub open spec fn with_resources(t: (nat, nat, nat, nat, nat, nat), r: ContributedResources) -> (
    nat,
    nat,
    nat,
    nat,
    nat,
    nat,
) {
    (
        t.0 + r.cpu_cores as nat,
        t.1 + r.memory_gb as nat,
        t.2 + r.storage_gb as nat,
        t.3 + r.bandwidth_mbps as nat,
        t.4 + r.gpu_units as nat,
        t.5,
    )
}

/// A server as it is registered: its operator's, with the tokens its
/// resources earn, no users yet and the default benefits.
pub open spec fn registered_server(
    s: CommunityServer,
    id: Seq<char>,
    operator: Seq<char>,
    name: Seq<char>,
    location: Seq<char>,
    r: ContributedResources,
) -> bool {
    &&& s.server_id@ == id
    &&& s.operator_id@ == operator
    &&& s.server_name@ == name
    &&& s.location@ == location
    &&& s.contributed_resources == r
    &&& s.token_allocation == token_allocation(r)
    &&& s.active_users == 0
    &&& default_benefits(s.community_benefits@, r.cpu_cores)
}

/// Replacing one server changes each total by at most the new server's part.
proof fn lemma_totals_update(vs: Seq<CommunityServer>, i: int, x: CommunityServer)
    requires
        0 <= i < vs.len(),
    ensures
        ({
            let a = server_totals(vs.update(i, x));
            let b = server_totals(vs);
            let r = x.contributed_resources;
            &&& a.0 <= b.0 + r.cpu_cores
            &&& a.1 <= b.1 + r.memory_gb
            &&& a.2 <= b.2 + r.storage_gb
            &&& a.3 <= b.3 + r.bandwidth_mbps
            &&& a.4 <= b.4 + r.gpu_units
            &&& a.5 <= b.5 + x.active_users
        }),
    decreases vs.len(),
{
    if i == vs.len() - 1 {
        assert(vs.update(i, x).drop_last() =~= vs.drop_last());
    } else {
        lemma_totals_update(vs.drop_last(), i, x);
        assert(vs.update(i, x).drop_last() =~= vs.drop_last().update(i, x));
    }
}

/// The benefits of a server with `cpu` cores.
fn default_benefit_list(cpu: u32) -> (bs: Vec<CommunityBenefit>)
    ensures
        default_benefits(bs@, cpu),
{
    let mut bs: Vec<CommunityBenefit> = Vec::new();
    bs.push(
        CommunityBenefit {
            benefit_type: BenefitType::FreeAccounts,
            description: String::from_str("Free Unix accounts for community members"),
            token_reward: 0,
            resource_allocation: Some(cpu as u64 * 10),
            eligibility_criteria: two_strings("good_standing", "community_member"),
        },
    );
    bs.push(
        CommunityBenefit {
            benefit_type: BenefitType::DeveloperTools,
            description: String::from_str("Compiler and development tool access"),
            token_reward: 50,
            resource_allocation: Some(cpu as u64 * 5),
            eligibility_criteria: two_strings("developer_verified", "project_contribution"),
        },
    );
    bs
}

impl CommunityResourceEconomy {
    /// Registers the server `server_name` of `operator_id` at `now`: it earns
    /// tokens for its resources, which the operator receives; its compute
    /// and storage pools open; the metrics are recomputed.
    pub fn register_community_server(
        &mut self,
        operator_id: &str,
        server_name: &str,
        location: &str,
        resources: ContributedResources,
        now: i64,
    ) -> (r: Result<String, String>)
        requires
            old(self).wf(),
            totals_fit(with_resources(server_totals(old(self).servers.val_seq()), resources)),
        ensures
            final(self).wf(),
            r is Ok,
            r->Ok_0@ == server_id_of(operator_id@, now),
            final(self).servers@.dom() == old(self).servers@.dom().insert(r->Ok_0@),
            registered_server(final(self).servers@[r->Ok_0@], r->Ok_0@, operator_id@, server_name@, location@, resources),
            forall|k: Seq<char>| k != r->Ok_0@ && #[trigger] old(self).servers@.contains_key(k) ==> final(self).servers@[k]
                == old(self).servers@[k],
            server_pools(final(self).resource_pools@, r->Ok_0@, resources),
            final(self).resource_pools@.dom() == old(self).resource_pools@.dom().insert(
                pool_id_of(r->Ok_0@, PoolType::Compute),
            ).insert(pool_id_of(r->Ok_0@, PoolType::Storage)),
            within_capacity(old(self).resource_pools@) ==> within_capacity(final(self).resource_pools@),
            forall|k: Seq<char>| #![trigger old(self).resource_pools@[k]]
                k != pool_id_of(r->Ok_0@, PoolType::Compute) && k != pool_id_of(r->Ok_0@, PoolType::Storage)
                    && old(self).resource_pools@.contains_key(k) ==> final(self).resource_pools@[k] == old(
                    self,
                ).resource_pools@[k],
            final(self).token_distribution@.dom() == old(self).token_distribution@.dom().insert(
                "alloc_"@ + operator_id@ + "_"@ + text::signed_decimal(now as int),
            ),
            ({
                let a = final(self).token_distribution@["alloc_"@ + operator_id@ + "_"@ + text::signed_decimal(
                    now as int,
                )];
                &&& a.recipient_id@ == operator_id@
                &&& a.allocation_type == AllocationType::ServerContribution
                &&& a.amount == token_allocation(resources)
                &&& a.allocated_by@ == r->Ok_0@
                &&& a.allocated_at == now as u64
            }),
            final(self).governance_proposals == old(self).governance_proposals,
            metrics_of(
                final(self).community_metrics,
                final(self).servers@.dom().len(),
                server_totals(final(self).servers.val_seq()),
            ),
            final(self).community_metrics.token_circulation == old(self).community_metrics.token_circulation,
            final(self).community_metrics.community_projects == old(self).community_metrics.community_projects,
    {
        let mut server_id = String::from_str("server_");
        server_id.append(operator_id);
        server_id.append("_");
        server_id.append(text::signed_decimal_string(now).as_str());
        let token_allocation = calculate_server_token_allocation(&resources);
        let benefits = default_benefit_list(resources.cpu_cores);
        let _ = self.create_server_resource_pools(server_id.as_str(), &resources);
        let _ = self.distribute_tokens(
            server_id.as_str(),
            operator_id,
            AllocationType::ServerContribution,
            token_allocation,
            now,
        );
        let ghost r0 = resources;
        let server = CommunityServer {
            server_id: server_id.clone(),
            operator_id: String::from_str(operator_id),
            server_name: String::from_str(server_name),
            location: String::from_str(location),
            contributed_resources: resources,
            token_allocation,
            active_users: 0,
            community_benefits: benefits,
        };
        let ghost sv = server;
        let ghost vs0 = self.servers.val_seq();
        let ghost servers0 = self.servers;
        match self.servers.find(server_id.as_str()) {
            Some(i) => {
                let slot = self.servers.value_mut_at(i);
                *slot = server;
                proof {
                    servers0.lemma_update_at(&self.servers, i as int, sv);
                    servers0.lemma_len();
                    lemma_totals_update(vs0, i as int, sv);
                    assert(self.servers@.dom() =~= servers0@.dom().insert(server_id@));
                }
            },
            None => {
                self.servers.insert(server_id.clone(), server);
                proof {
                    assert(self.servers.val_seq().drop_last() =~= vs0);
                    assert(self.servers@.dom() =~= servers0@.dom().insert(server_id@));
                }
            },
        }
        proof {
            self.servers.lemma_len();
        }
        self.update_community_metrics();
        Ok(server_id)
    }
}


/// Why an allocation is refused, checked in this order: the server is
/// unknown, it has no pool of that type, the pool lacks the room, the amount
/// exceeds what one user may take.
pub open spec fn allocation_error(
    servers: Map<Seq<char>, CommunityServer>,
    pools: Map<Seq<char>, ResourcePool>,
    server_id: Seq<char>,
    t: PoolType,
    amount: u64,
) -> Option<Seq<char>> {
    let pid = pool_id_of(server_id, t);
    if !servers.contains_key(server_id) {
        Some("Server not found"@)
    } else if !pools.contains_key(pid) {
        Some("Resource pool not found"@)
    } else if pools[pid].allocated_capacity + amount > pools[pid].total_capacity {
        Some("Insufficient resources available"@)
    } else if amount > pools[pid].max_per_user {
        Some("Exceeds maximum allocation per user"@)
    } else {
        None
    }
}

/// No pool has given out more than it holds.
pub open spec fn within_capacity(pools: Map<Seq<char>, ResourcePool>) -> bool {
    forall|k: Seq<char>| #[trigger] pools.contains_key(k) ==> pools[k].allocated_capacity <= pools[k].total_capacity
}

/// A pool after giving `amount` to `user` at `now`.
pub open spec fn allocated(before: ResourcePool, after: ResourcePool, user: Seq<char>, t: PoolType, amount: u64, now: i64) -> bool {
    &&& after.pool_id == before.pool_id
    &&& after.server_id == before.server_id
    &&& after.pool_type == before.pool_type
    &&& after.total_capacity == before.total_capacity
    &&& after.allocated_capacity == before.allocated_capacity + amount
    &&& after.max_per_user == before.max_per_user
    &&& after.cooldown_period == before.cooldown_period
    &&& after.community_priority == before.community_priority
    &&& after.beneficiaries@.len() == before.beneficiaries@.len() + 1
    &&& forall|i: int| 0 <= i < before.beneficiaries@.len() ==> #[trigger] after.beneficiaries@[i] == before.beneficiaries@[i]
    &&& {
        let b = after.beneficiaries@.last();
        &&& b.user_id@ == user
        &&& b.allocation_amount == amount
        &&& b.allocation_reason@ == pool_type_name(t) + " allocation"@
        &&& b.granted_at == now as u64
    }
}

impl CommunityResourceEconomy {
    /// Gives `amount` units of a server's pool of type `resource_type` to
    /// `user_id` at `now`, for `token_cost` tokens (what the pool's price per
    /// unit makes of the amount).
    pub fn allocate_resources(
        &mut self,
        server_id: &str,
        user_id: &str,
        resource_type: PoolType,
        amount: u64,
        token_cost: u64,
        now: i64,
    ) -> (r: Result<String, String>)
        requires
            old(self).wf(),
            old(self).resource_pools@.contains_key(pool_id_of(server_id@, resource_type)) ==> old(
                self,
            ).resource_pools@[pool_id_of(server_id@, resource_type)].allocated_capacity + amount <= u64::MAX,
        ensures
            final(self).wf(),
            match allocation_error(old(self).servers@, old(self).resource_pools@, server_id@, resource_type, amount) {
                Some(e) => r is Err && r->Err_0@ == e && final(self).resource_pools == old(self).resource_pools,
                None => r is Ok && r->Ok_0@ == "Allocated "@ + text::decimal(amount as nat) + " units for "@
                    + text::decimal(token_cost as nat) + " tokens"@ && {
                    let pid = pool_id_of(server_id@, resource_type);
                    &&& final(self).resource_pools@.dom() == old(self).resource_pools@.dom()
                    &&& allocated(
                        old(self).resource_pools@[pid],
                        final(self).resource_pools@[pid],
                        user_id@,
                        resource_type,
                        amount,
                        now,
                    )
                    &&& forall|k: Seq<char>| k != pid && #[trigger] old(self).resource_pools@.contains_key(k)
                        ==> final(self).resource_pools@[k] == old(self).resource_pools@[k]
                },
            },
            within_capacity(old(self).resource_pools@) ==> within_capacity(final(self).resource_pools@),
            final(self).servers == old(self).servers,
            final(self).token_distribution == old(self).token_distribution,
            final(self).governance_proposals == old(self).governance_proposals,
            final(self).community_metrics == old(self).community_metrics,
    {
        if !self.servers.contains_key(server_id) {
            return Err(String::from_str("Server not found"));
        }
        let mut pool_id = String::from_str(server_id);
        pool_id.append("_");
        pool_id.append(pool_type_text(resource_type));
        let pi = match self.resource_pools.find(pool_id.as_str()) {
            Some(i) => i,
            None => {
                return Err(String::from_str("Resource pool not found"));
            },
        };
        proof {
            self.resource_pools.lemma_entry(pi as int);
        }
        let pool = self.resource_pools.value_at(pi);
        if pool.allocated_capacity + amount > pool.total_capacity {
            return Err(String::from_str("Insufficient resources available"));
        }
        if amount > pool.max_per_user {
            return Err(String::from_str("Exceeds maximum allocation per user"));
        }
        let mut reason = String::from_str(pool_type_text(resource_type));
        reason.append(" allocation");
        let ghost pools0 = self.resource_pools;
        let ghost before = *pool;
        let p = self.resource_pools.value_mut_at(pi);
        p.allocated_capacity = p.allocated_capacity + amount;
        p.beneficiaries.push(
            Beneficiary {
                user_id: String::from_str(user_id),
                allocation_amount: amount,
                allocation_reason: reason,
                granted_at: now as u64,
            },
        );
        proof {
            let after = self.resource_pools.val_seq()[pi as int];
            pools0.lemma_update_at(&self.resource_pools, pi as int, after);
            assert(allocated(before, after, user_id@, resource_type, amount, now));
            assert(self.resource_pools@.dom() =~= pools0@.dom());
        }
        let mut msg = String::from_str("Allocated ");
        msg.append(text::decimal_string(amount).as_str());
        msg.append(" units for ");
        msg.append(text::decimal_string(token_cost).as_str());
        msg.append(" tokens");
        Ok(msg)
    }
}


impl CommunityResourceEconomy {
    /// Opens a community proposal of `proposer_id` at `now` for voting and
    /// returns its id.
    pub fn propose_community_project(
        &mut self,
        proposer_id: &str,
        title: &str,
        description: &str,
        requested_tokens: u64,
        requested_resources: ContributedResources,
        now: i64,
    ) -> (r: Result<String, String>)
        requires
            old(self).wf(),
        ensures
            final(self).wf(),
            r is Ok,
            r->Ok_0@ == "prop_"@ + proposer_id@ + "_"@ + text::signed_decimal(now as int),
            final(self).governance_proposals@.dom() == old(self).governance_proposals@.dom().insert(r->Ok_0@),
            ({
                let p = final(self).governance_proposals@[r->Ok_0@];
                &&& p.proposal_id@ == r->Ok_0@
                &&& p.proposer_id@ == proposer_id@
                &&& p.title@ == title@
                &&& p.description@ == description@
                &&& p.requested_tokens == requested_tokens
                &&& p.requested_resources == requested_resources
                &&& p.community_benefit@ == "Community infrastructure improvement"@
                &&& p.votes_for == 0 && p.votes_against == 0
                &&& p.status == ProposalStatus::Voting
            }),
            forall|k: Seq<char>| k != r->Ok_0@ && #[trigger] old(self).governance_proposals@.contains_key(k)
                ==> final(self).governance_proposals@[k] == old(self).governance_proposals@[k],
            final(self).servers == old(self).servers,
            final(self).resource_pools == old(self).resource_pools,
            final(self).token_distribution == old(self).token_distribution,
            final(self).community_metrics == old(self).community_metrics,
    {
        let p = new_proposal(proposer_id, title, description, requested_tokens, requested_resources, now);
        let id = p.proposal_id.clone();
        self.governance_proposals.insert(p.proposal_id.clone(), p);
        assert(self.governance_proposals@.dom() =~= old(self).governance_proposals@.dom().insert(id@));
        Ok(id)
    }
}

} // verus!
