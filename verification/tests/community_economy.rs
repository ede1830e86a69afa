use zos_server::community::{
    calculate_server_token_allocation, AllocationType, BenefitType, CommunityResourceEconomy, ContributedResources,
    PoolType, ProposalStatus,
};

fn res(cpu: u32, mem: u32, storage: u32, bw: u32, gpu: u32) -> ContributedResources {
    ContributedResources {
        cpu_cores: cpu,
        memory_gb: mem,
        storage_gb: storage,
        bandwidth_mbps: bw,
        gpu_units: gpu,
        specialized_hardware: Vec::new(),
    }
}

#[test]
fn token_allocation_formula() {
    assert_eq!(calculate_server_token_allocation(&res(4, 16, 100, 10, 1)), 4000 + 1600 + 1000 + 500 + 5000);
}

#[test]
fn registering_a_server_opens_pools_and_pays_the_operator() {
    let mut e = CommunityResourceEconomy::new();
    let id = e.register_community_server("op_12345678", "Node", "Paris", res(4, 16, 100, 10, 1), 1700).unwrap();
    assert_eq!(id, "server_op_12345678_1700");
    let s = e.servers.get(&id).unwrap();
    assert_eq!(s.token_allocation, 12100);
    assert_eq!(s.community_benefits.len(), 2);
    assert_eq!(s.community_benefits[0].benefit_type, BenefitType::FreeAccounts);
    assert_eq!(s.community_benefits[0].resource_allocation, Some(40));
    assert_eq!(s.community_benefits[1].resource_allocation, Some(20));
    let compute = e.resource_pools.get("server_op_12345678_1700_Compute").unwrap();
    assert_eq!((compute.total_capacity, compute.max_per_user, compute.cooldown_period), (400, 40, 3600));
    let storage = e.resource_pools.get("server_op_12345678_1700_Storage").unwrap();
    assert_eq!((storage.total_capacity, storage.max_per_user, storage.cooldown_period), (102400, 10000, 86400));
    let a = e.token_distribution.get("alloc_op_12345678_1700").unwrap();
    assert_eq!(a.amount, 12100);
    assert_eq!(a.allocation_type, AllocationType::ServerContribution);
    assert_eq!(a.allocated_by, id);
    let m = &e.community_metrics;
    assert_eq!(m.total_servers, 1);
    assert_eq!(m.total_contributed_resources.cpu_cores, 4);
    assert_eq!(m.total_contributed_resources.storage_gb, 100);
    e.register_community_server("op_2", "B", "Oslo", res(2, 8, 10, 5, 0), 1800).unwrap();
    assert_eq!(e.community_metrics.total_servers, 2);
    assert_eq!(e.community_metrics.total_contributed_resources.cpu_cores, 6);
}

#[test]
fn allocations_respect_capacity_and_limits() {
    let mut e = CommunityResourceEconomy::new();
    let id = e.register_community_server("op_1", "N", "L", res(1, 1, 1, 1, 0), 5).unwrap();
    assert_eq!(
        e.allocate_resources("nope", "u", PoolType::Compute, 1, 1, 6).unwrap_err(),
        "Server not found"
    );
    assert_eq!(
        e.allocate_resources(&id, "u", PoolType::GPU, 1, 1, 6).unwrap_err(),
        "Resource pool not found"
    );
    assert_eq!(
        e.allocate_resources(&id, "u", PoolType::Compute, 11, 11, 6).unwrap_err(),
        "Exceeds maximum allocation per user"
    );
    assert_eq!(e.allocate_resources(&id, "u", PoolType::Compute, 10, 10, 6).unwrap(), "Allocated 10 units for 10 tokens");
    let pool = e.resource_pools.get(&format!("{}_Compute", id)).unwrap();
    assert_eq!(pool.allocated_capacity, 10);
    assert_eq!(pool.beneficiaries[0].allocation_reason, "Compute allocation");
    for _ in 0..9 {
        e.allocate_resources(&id, "u", PoolType::Compute, 10, 10, 7).unwrap();
    }
    assert_eq!(
        e.allocate_resources(&id, "u", PoolType::Compute, 1, 1, 8).unwrap_err(),
        "Insufficient resources available"
    );
}

#[test]
fn proposals_open_for_voting() {
    let mut e = CommunityResourceEconomy::new();
    let id = e.propose_community_project("alice", "Mirror", "A mirror", 500, res(1, 0, 0, 0, 0), 42).unwrap();
    assert_eq!(id, "prop_alice_42");
    let p = e.governance_proposals.get(&id).unwrap();
    assert_eq!(p.status, ProposalStatus::Voting);
    assert_eq!(p.community_benefit, "Community infrastructure improvement");
}
