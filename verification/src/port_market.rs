//! Block-scoped port leases: users hold a port for one block, share it,
//! list it for sale, sell access to it, and run free-tier services.
use vstd::prelude::*;
use vstd::string::*;
use crate::port_table::PortTable;
use crate::strmap::StrMap;
use crate::text;

verus! {

/// What a leased port serves.
#[derive(Debug)]
pub enum ServiceType {
    Compute,
    Storage,
    Network,
    Custom(String),
}

/// Copies of the strings.
pub fn clone_strings(v: &Vec<String>) -> (r: Vec<String>)
    ensures
        r@ == v@,
{
    let mut r: Vec<String> = Vec::new();
    let mut i: usize = 0;
    while i < v.len()
        invariant
            i <= v@.len(),
            r@ == v@.take(i as int),
        decreases v@.len() - i,
    {
        r.push(v[i].clone());
        i = i + 1;
        assert(r@ =~= v@.take(i as int));
    }
    assert(v@.take(v@.len() as int) =~= v@);
    r
}

/// A port leased to a user.
#[derive(Debug)]
pub struct UserPort {
    pub port: u16,
    pub user_id: String,
    pub allocated_at_block: u64,
    pub expires_at_block: u64,
    pub service_type: ServiceType,
    pub shareable: bool,
    pub resellable: bool,
    pub shared_with: Vec<String>,
    pub usage_count: u32,
}

/// Access to a port offered on the marketplace.
#[derive(Debug)]
pub struct PortListing {
    pub listing_id: String,
    pub port: u16,
    pub seller_id: String,
    pub price_credits: u64,
    pub duration_blocks: u64,
    pub service_description: String,
    pub max_shares: u32,
}

/// A user's session.
#[derive(Debug)]
pub struct UserSession {
    pub user_id: String,
    pub current_port: Option<u16>,
    pub credits_spent: u64,
    pub services_used: Vec<String>,
    pub block_started: u64,
}

/// A service that any session may run.
#[derive(Debug)]
pub struct FreeService {
    pub name: String,
    pub code: String,
    pub description: String,
    pub max_execution_time_ms: u64,
    pub credits_cost: u64,
}

/// The first port of `q..=end` that `taken` lacks.
pub open spec fn first_free_from(taken: Set<u16>, q: int, end: int) -> Option<u16>
    decreases end - q + 1,
{
    if q > end || q < 0 || q > 65535 {
        None
    } else if !taken.contains(q as u16) {
        Some(q as u16)
    } else {
        first_free_from(taken, q + 1, end)
    }
}

/// Error when the server holds as many ports as it has seats.
pub open spec fn capacity_error() -> Seq<char> {
    "No available ports - server at capacity"@
}

/// Error when every port of the range is leased.
pub open spec fn range_error() -> Seq<char> {
    "No available ports in range"@
}

/// First port of the user range.
pub open spec fn user_range_start() -> u16 {
    20000
}

/// Last port of the user range.
pub open spec fn user_range_end() -> u16 {
    29999
}

/// Most users a port may be shared with by its owner.
pub open spec fn max_port_shares() -> nat {
    5
}

/// Shares that a listing allows.
pub open spec fn listing_max_shares() -> u32 {
    3
}

/// The reply of a free service.
pub open spec fn free_service_output(name: Seq<char>) -> Seq<char> {
    if name == "pi_calculator"@ {
        "π ≈ 3.1415926536"@
    } else if name == "fibonacci_meme"@ {
        "🐰 Fibonacci rabbits after 20 months: 6765 pairs\n📈 That's exponential growth! 🚀"@
    } else if name == "prime_poetry"@ {
        "🎭 Prime Poetry:\nTwo, three, five, seven,\nEleven, thirteen, seventeen,\nPrimes dance in mathematical heaven! ✨\nFound 25 primes under 100"@
    } else {
        "Service executed successfully"@
    }
}

/// Index of the first service called `name`.
pub open spec fn service_index(services: Seq<FreeService>, name: Seq<char>) -> Option<int>
    decreases services.len(),
{
    if services.len() == 0 {
        None
    } else {
        match service_index(services.drop_last(), name) {
            Some(i) => Some(i),
            None => if services.last().name@ == name {
                Some(services.len() - 1)
            } else {
                None
            },
        }
    }
}

/// Leases, listings and sessions, advanced block by block.
pub struct BlockPortManager {
    pub current_block: u64,
    pub block_duration_ms: u64,
    pub max_concurrent_users: u32,
    pub active_ports: PortTable,
    pub port_marketplace: StrMap<PortListing>,
    pub user_sessions: StrMap<UserSession>,
    pub free_tier_services: Vec<FreeService>,
}

impl BlockPortManager {
    /// Tables well formed, no more leases than seats, every listing on a leased port.
    pub open spec fn wf(&self) -> bool {
        &&& self.active_ports.wf()
        &&& self.port_marketplace.wf()
        &&& self.user_sessions.wf()
        &&& self.active_ports@.dom().len() <= self.max_concurrent_users
        &&& self.listings_on_active_ports()
    }

    /// Every listing offers a port that is leased now.
    pub open spec fn listings_on_active_ports(&self) -> bool {
        forall|id: Seq<char>| #[trigger]
            self.port_marketplace@.contains_key(id) ==> self.active_ports@.contains_key(
                self.port_marketplace@[id].port,
            )
    }

    /// A manager with no leases and the three free services.
    pub fn new(max_concurrent: u32) -> (m: Self)
        ensures
            m.wf(),
            m.current_block == 0,
            m.block_duration_ms == 400,
            m.max_concurrent_users == max_concurrent,
            m.active_ports@ == Map::<u16, UserPort>::empty(),
            m.port_marketplace@ == Map::<Seq<char>, PortListing>::empty(),
            m.user_sessions@ == Map::<Seq<char>, UserSession>::empty(),
            m.free_tier_services@.len() == 3,
            m.free_tier_services@[0].name@ == "pi_calculator"@,
            m.free_tier_services@[0].description@ == "Calculate π using Leibniz formula"@,
            m.free_tier_services@[0].max_execution_time_ms == 5000,
            m.free_tier_services@[0].credits_cost == 1,
            m.free_tier_services@[1].name@ == "fibonacci_meme"@,
            m.free_tier_services@[1].description@ == "Fibonacci sequence with rabbit meme"@,
            m.free_tier_services@[1].max_execution_time_ms == 3000,
            m.free_tier_services@[1].credits_cost == 2,
            m.free_tier_services@[2].name@ == "prime_poetry"@,
            m.free_tier_services@[2].description@ == "Prime numbers with poetic flair"@,
            m.free_tier_services@[2].max_execution_time_ms == 2000,
            m.free_tier_services@[2].credits_cost == 1,
    {
        let mut services: Vec<FreeService> = Vec::new();
        services.push(
            FreeService {
                name: String::from_str("pi_calculator"),
                code: String::from_str(
                    "\nfn calculate_pi(iterations: u32) -> f64 {\n    let mut pi = 0.0;\n    for i in 0..iterations {\n        let term = 4.0 / (2.0 * i as f64 + 1.0);\n        if i % 2 == 0 { pi += term; } else { pi -= term; }\n    }\n    pi\n}\nprintln!(\"π ≈ {:.10}\", calculate_pi(1000000));\n",
                ),
                description: String::from_str("Calculate π using Leibniz formula"),
                max_execution_time_ms: 5000,
                credits_cost: 1,
            },
        );
        services.push(
            FreeService {
                name: String::from_str("fibonacci_meme"),
                code: String::from_str(
                    "\nfn fibonacci(n: u32) -> u64 {\n    match n {\n        0 => 0, 1 => 1,\n        _ => fibonacci(n-1) + fibonacci(n-2)\n    }\n}\nlet fib = fibonacci(20);\nprintln!(\"🐰 Fibonacci rabbits after 20 months: {} pairs\", fib);\nprintln!(\"📈 That's exponential growth! 🚀\");\n",
                ),
                description: String::from_str("Fibonacci sequence with rabbit meme"),
                max_execution_time_ms: 3000,
                credits_cost: 2,
            },
        );
        services.push(
            FreeService {
                name: String::from_str("prime_poetry"),
                code: String::from_str(
                    "\nfn is_prime(n: u32) -> bool {\n    if n < 2 { return false; }\n    for i in 2..=(n as f64).sqrt() as u32 {\n        if n % i == 0 { return false; }\n    }\n    true\n}\nlet primes: Vec<u32> = (2..100).filter(|&n| is_prime(n)).collect();\nprintln!(\"🎭 Prime Poetry:\");\nprintln!(\"Two, three, five, seven,\");\nprintln!(\"Eleven, thirteen, seventeen,\");\nprintln!(\"Primes dance in mathematical heaven! ✨\");\nprintln!(\"Found {} primes under 100\", primes.len());\n",
                ),
                description: String::from_str("Prime numbers with poetic flair"),
                max_execution_time_ms: 2000,
                credits_cost: 1,
            },
        );
        let m = BlockPortManager {
            current_block: 0,
            block_duration_ms: 400,
            max_concurrent_users: max_concurrent,
            active_ports: PortTable::new(),
            port_marketplace: StrMap::new(),
            user_sessions: StrMap::new(),
            free_tier_services: services,
        };
        proof {
            m.active_ports.lemma_keys();
        }
        m
    }

    /// The first free port of `start..=end`.
    pub fn find_available_port(&self, start: u16, end: u16) -> (r: Result<u16, String>)
        requires
            self.active_ports.wf(),
        ensures
            match first_free_from(self.active_ports@.dom(), start as int, end as int) {
                Some(p) => r == Ok::<u16, String>(p),
                None => r is Err && r->Err_0@ == range_error(),
            },
    {
        let mut q: u32 = start as u32;
        while q <= end as u32
            invariant
                self.active_ports.wf(),
                start <= q,
                q == start || q <= end as u32 + 1,
                first_free_from(self.active_ports@.dom(), start as int, end as int)
                    == first_free_from(self.active_ports@.dom(), q as int, end as int),
            decreases end as u32 + 1 - q,
        {
            if !self.active_ports.contains(q as u16) {
                return Ok(q as u16);
            }
            q = q + 1;
        }
        Err(String::from_str("No available ports in range"))
    }

    /// Leases the first free port of the user range to `user_id` for one
    /// block and opens (or replaces) the user's session.
    pub fn allocate_user_port(&mut self, user_id: &str, service_type: ServiceType) -> (r: Result<
        u16,
        String,
    >)
        requires
            old(self).wf(),
            old(self).current_block < u64::MAX,
        ensures
            final(self).wf(),
            final(self).current_block == old(self).current_block,
            final(self).block_duration_ms == old(self).block_duration_ms,
            final(self).max_concurrent_users == old(self).max_concurrent_users,
            final(self).free_tier_services == old(self).free_tier_services,
            final(self).port_marketplace@ == old(self).port_marketplace@,
            old(self).active_ports@.dom().len() >= old(self).max_concurrent_users ==> r is Err
                && r->Err_0@ == capacity_error() && final(self).active_ports@
                == old(self).active_ports@ && final(self).user_sessions@
                == old(self).user_sessions@,
            old(self).active_ports@.dom().len() < old(self).max_concurrent_users ==> match first_free_from(
                old(self).active_ports@.dom(),
                user_range_start() as int,
                user_range_end() as int,
            ) {
                None => r is Err && r->Err_0@ == range_error() && final(self).active_ports@
                    == old(self).active_ports@ && final(self).user_sessions@
                    == old(self).user_sessions@,
                Some(p) => {
                    let lease = final(self).active_ports@[p];
                    let session = final(self).user_sessions@[user_id@];
                    &&& r == Ok::<u16, String>(p)
                    &&& final(self).active_ports@ == old(self).active_ports@.insert(p, lease)
                    &&& lease.port == p
                    &&& lease.user_id@ == user_id@
                    &&& lease.allocated_at_block == old(self).current_block
                    &&& lease.expires_at_block == old(self).current_block + 1
                    &&& lease.service_type == service_type
                    &&& lease.shareable
                    &&& lease.resellable
                    &&& lease.shared_with@.len() == 0
                    &&& lease.usage_count == 0
                    &&& final(self).user_sessions@ == old(self).user_sessions@.insert(
                        user_id@,
                        session,
                    )
                    &&& session.user_id@ == user_id@
                    &&& session.current_port == Some(p)
                    &&& session.credits_spent == 0
                    &&& session.services_used@.len() == 0
                    &&& session.block_started == old(self).current_block
                },
            },
    {
        if self.active_ports.len() >= self.max_concurrent_users as usize {
            return Err(String::from_str("No available ports - server at capacity"));
        }
        let port = match self.find_available_port(20000, 29999) {
            Ok(p) => p,
            Err(e) => {
                return Err(e);
            },
        };
        let ghost old_active = self.active_ports@;
        proof {
            self.active_ports.lemma_keys();
        }
        let user_port = UserPort {
            port,
            user_id: String::from_str(user_id),
            allocated_at_block: self.current_block,
            expires_at_block: self.current_block + 1,
            service_type,
            shareable: true,
            resellable: true,
            shared_with: Vec::new(),
            usage_count: 0,
        };
        self.active_ports.insert(user_port);
        let session = UserSession {
            user_id: String::from_str(user_id),
            current_port: Some(port),
            credits_spent: 0,
            services_used: Vec::new(),
            block_started: self.current_block,
        };
        self.user_sessions.insert(String::from_str(user_id), session);
        proof {
            self.active_ports.lemma_keys();
            assert(self.active_ports@.dom() =~= old_active.dom().insert(port));
            assert(!old_active.dom().contains(port)) by {
                lemma_first_free_is_free(old_active.dom(), 20000, 29999);
            }
            assert forall|id: Seq<char>| #[trigger] self.port_marketplace@.contains_key(id) implies self.active_ports@.contains_key(
                self.port_marketplace@[id].port,
            ) by {
                assert(old_active.contains_key(self.port_marketplace@[id].port));
            }
        }
        Ok(port)
    }

    /// Shares the owner's current port with another user, up to five users.
    pub fn share_port(&mut self, owner_id: &str, share_with: &str) -> (r: Result<(), String>)
        requires
            old(self).wf(),
        ensures
            final(self).wf(),
            final(self).current_block == old(self).current_block,
            final(self).max_concurrent_users == old(self).max_concurrent_users,
            final(self).free_tier_services == old(self).free_tier_services,
            final(self).port_marketplace@ == old(self).port_marketplace@,
            final(self).user_sessions@ == old(self).user_sessions@,
            !old(self).user_sessions@.contains_key(owner_id@) ==> r is Err && r->Err_0@
                == "User session not found"@ && final(self).active_ports@
                == old(self).active_ports@,
            old(self).user_sessions@.contains_key(owner_id@) ==> match old(self).user_sessions@[owner_id@].current_port {
                None => r is Err && r->Err_0@ == "No active port to share"@ && final(self).active_ports@ == old(self).active_ports@,
                Some(port) => if !old(self).active_ports@.contains_key(port) {
                    r is Err && r->Err_0@ == "Port not found"@ && final(self).active_ports@ == old(self).active_ports@
                } else if !old(self).active_ports@[port].shareable {
                    r is Err && r->Err_0@ == "Port is not shareable"@ && final(self).active_ports@
                        == old(self).active_ports@
                } else if old(self).active_ports@[port].shared_with@.len() >= max_port_shares() {
                    r is Err && r->Err_0@ == "Maximum shares reached"@ && final(self).active_ports@
                        == old(self).active_ports@
                } else {
                    let before = old(self).active_ports@[port];
                    let after = final(self).active_ports@[port];
                    &&& r is Ok
                    &&& final(self).active_ports@ == old(self).active_ports@.insert(port, after)
                    &&& after.shared_with@.len() == before.shared_with@.len() + 1
                    &&& after.shared_with@.drop_last() == before.shared_with@
                    &&& after.shared_with@.last()@ == share_with@
                    &&& after.port == before.port
                    &&& after.user_id == before.user_id
                    &&& after.allocated_at_block == before.allocated_at_block
                    &&& after.expires_at_block == before.expires_at_block
                    &&& after.service_type == before.service_type
                    &&& after.shareable == before.shareable
                    &&& after.resellable == before.resellable
                    &&& after.usage_count == before.usage_count
                },
            },
    {
        let port = match self.user_sessions.get(owner_id) {
            None => {
                return Err(String::from_str("User session not found"));
            },
            Some(session) => match session.current_port {
                None => {
                    return Err(String::from_str("No active port to share"));
                },
                Some(p) => p,
            },
        };
        let ghost old_active = self.active_ports@;
        match self.active_ports.get(port) {
            None => {
                return Err(String::from_str("Port not found"));
            },
            Some(up) => {
                if !up.shareable {
                    return Err(String::from_str("Port is not shareable"));
                }
                if up.shared_with.len() >= 5 {
                    return Err(String::from_str("Maximum shares reached"));
                }
            },
        }
        proof {
            self.active_ports.lemma_keys();
        }
        let mut up = match self.active_ports.remove(port) {
            Some(u) => u,
            None => {
                return Err(String::from_str("Port not found"));
            },
        };
        let ghost before = up;
        assert(old_active.contains_key(port));
        assert(up.port == port);
        up.shared_with.push(String::from_str(share_with));
        assert(up.shared_with@.drop_last() =~= before.shared_with@);
        self.active_ports.insert(up);
        proof {
            self.active_ports.lemma_keys();
            assert(self.active_ports@.dom() =~= old_active.dom());
            assert(self.active_ports@ =~= old_active.insert(port, self.active_ports@[port]));
            assert forall|id: Seq<char>| #[trigger] self.port_marketplace@.contains_key(id) implies self.active_ports@.contains_key(
                self.port_marketplace@[id].port,
            ) by {
                assert(old_active.contains_key(self.port_marketplace@[id].port));
            }
        }
        Ok(())
    }

    /// Lists the seller's current port on the marketplace; the listing's id
    /// is `listing_<port>_<block>`.
    pub fn list_port_for_sale(
        &mut self,
        seller_id: &str,
        price_credits: u64,
        duration_blocks: u64,
        description: &str,
    ) -> (r: Result<String, String>)
        requires
            old(self).wf(),
        ensures
            final(self).wf(),
            final(self).current_block == old(self).current_block,
            final(self).max_concurrent_users == old(self).max_concurrent_users,
            final(self).free_tier_services == old(self).free_tier_services,
            final(self).active_ports@ == old(self).active_ports@,
            final(self).user_sessions@ == old(self).user_sessions@,
            !old(self).user_sessions@.contains_key(seller_id@) ==> r is Err && r->Err_0@
                == "User session not found"@ && final(self).port_marketplace@
                == old(self).port_marketplace@,
            old(self).user_sessions@.contains_key(seller_id@) ==> match old(self).user_sessions@[seller_id@].current_port {
                None => r is Err && r->Err_0@ == "No active port to sell"@ && final(self).port_marketplace@
                    == old(self).port_marketplace@,
                Some(port) => if !old(self).active_ports@.contains_key(port) {
                    r is Err && r->Err_0@ == "Port not found"@ && final(self).port_marketplace@
                        == old(self).port_marketplace@
                } else if !old(self).active_ports@[port].resellable {
                    r is Err && r->Err_0@ == "Port is not resellable"@ && final(self).port_marketplace@
                        == old(self).port_marketplace@
                } else {
                    let id = "listing_"@ + text::decimal(port as nat) + "_"@ + text::decimal(
                        old(self).current_block as nat,
                    );
                    let l = final(self).port_marketplace@[id];
                    &&& r is Ok
                    &&& r->Ok_0@ == id
                    &&& final(self).port_marketplace@ == old(self).port_marketplace@.insert(id, l)
                    &&& l.listing_id@ == id
                    &&& l.port == port
                    &&& l.seller_id@ == seller_id@
                    &&& l.price_credits == price_credits
                    &&& l.duration_blocks == duration_blocks
                    &&& l.service_description@ == description@
                    &&& l.max_shares == listing_max_shares()
                },
            },
    {
        let port = match self.user_sessions.get(seller_id) {
            None => {
                return Err(String::from_str("User session not found"));
            },
            Some(session) => match session.current_port {
                None => {
                    return Err(String::from_str("No active port to sell"));
                },
                Some(p) => p,
            },
        };
        match self.active_ports.get(port) {
            None => {
                return Err(String::from_str("Port not found"));
            },
            Some(up) => {
                if !up.resellable {
                    return Err(String::from_str("Port is not resellable"));
                }
            },
        }
        let mut listing_id = String::from_str("listing_");
        listing_id.append(text::decimal_string(port as u64).as_str());
        listing_id.append("_");
        listing_id.append(text::decimal_string(self.current_block).as_str());
        let ghost old_market = self.port_marketplace@;
        let ghost id = listing_id@;
        let listing = PortListing {
            listing_id: listing_id.clone(),
            port,
            seller_id: String::from_str(seller_id),
            price_credits,
            duration_blocks,
            service_description: String::from_str(description),
            max_shares: 3,
        };
        self.port_marketplace.insert(listing_id.clone(), listing);
        proof {
            assert forall|k: Seq<char>| #[trigger] self.port_marketplace@.contains_key(k) implies self.active_ports@.contains_key(
                self.port_marketplace@[k].port,
            ) by {
                if k != id {
                    assert(old_market.contains_key(k));
                }
            }
        }
        Ok(listing_id)
    }

    /// Sells a share of a listed port to `buyer_id`, up to the listing's limit.
    pub fn buy_port_access(&mut self, buyer_id: &str, listing_id: &str) -> (r: Result<u16, String>)
        requires
            old(self).wf(),
        ensures
            final(self).wf(),
            final(self).current_block == old(self).current_block,
            final(self).max_concurrent_users == old(self).max_concurrent_users,
            final(self).free_tier_services == old(self).free_tier_services,
            final(self).port_marketplace@ == old(self).port_marketplace@,
            final(self).user_sessions@ == old(self).user_sessions@,
            !old(self).port_marketplace@.contains_key(listing_id@) ==> r is Err && r->Err_0@
                == "Listing not found"@ && final(self).active_ports@ == old(self).active_ports@,
            old(self).port_marketplace@.contains_key(listing_id@) ==> {
                let l = old(self).port_marketplace@[listing_id@];
                let before = old(self).active_ports@[l.port];
                let after = final(self).active_ports@[l.port];
                if before.shared_with@.len() >= l.max_shares {
                    r is Err && r->Err_0@ == "Port at maximum capacity"@ && final(self).active_ports@
                        == old(self).active_ports@
                } else {
                    &&& r == Ok::<u16, String>(l.port)
                    &&& final(self).active_ports@ == old(self).active_ports@.insert(l.port, after)
                    &&& after.shared_with@.drop_last() == before.shared_with@
                    &&& after.shared_with@.len() == before.shared_with@.len() + 1
                    &&& after.shared_with@.last()@ == buyer_id@
                    &&& after.port == before.port
                    &&& after.user_id == before.user_id
                    &&& after.allocated_at_block == before.allocated_at_block
                    &&& after.expires_at_block == before.expires_at_block
                    &&& after.service_type == before.service_type
                    &&& after.shareable == before.shareable
                    &&& after.resellable == before.resellable
                    &&& after.usage_count == before.usage_count
                }
            },
    {
        let (port, max_shares) = match self.port_marketplace.get(listing_id) {
            None => {
                return Err(String::from_str("Listing not found"));
            },
            Some(l) => (l.port, l.max_shares),
        };
        let ghost old_active = self.active_ports@;
        proof {
            self.active_ports.lemma_keys();
        }
        let mut up = match self.active_ports.remove(port) {
            Some(u) => u,
            None => {
                return Err(String::from_str("Port no longer available"));
            },
        };
        if up.shared_with.len() >= max_shares as usize {
            self.active_ports.insert(up);
            proof {
                assert(self.active_ports@ =~= old_active);
            }
            return Err(String::from_str("Port at maximum capacity"));
        }
        let ghost before = up;
        up.shared_with.push(String::from_str(buyer_id));
        assert(up.shared_with@.drop_last() =~= before.shared_with@);
        self.active_ports.insert(up);
        proof {
            self.active_ports.lemma_keys();
            assert(self.active_ports@.dom() =~= old_active.dom());
            assert(self.active_ports@ =~= old_active.insert(port, self.active_ports@[port]));
            assert forall|id: Seq<char>| #[trigger] self.port_marketplace@.contains_key(id) implies self.active_ports@.contains_key(
                self.port_marketplace@[id].port,
            ) by {
                assert(old_active.contains_key(self.port_marketplace@[id].port));
            }
        }
        Ok(port)
    }

    /// Running `service` for `user_id` keeps every counter in range.
    pub open spec fn free_service_fits(&self, user_id: Seq<char>, service: Seq<char>) -> bool {
        match service_index(self.free_tier_services@, service) {
            None => true,
            Some(i) => self.user_sessions@.contains_key(user_id) ==> {
                let session = self.user_sessions@[user_id];
                &&& session.credits_spent + self.free_tier_services@[i].credits_cost <= u64::MAX
                &&& match session.current_port {
                    Some(p) => self.active_ports@.contains_key(p) ==> self.active_ports@[p].usage_count
                        < u32::MAX,
                    None => true,
                }
            },
        }
    }

    /// Runs a free service for a user with a session: records the service,
    /// charges its credits and counts a use of the user's port.
    pub fn execute_free_service(&mut self, user_id: &str, service_name: &str) -> (r: Result<
        String,
        String,
    >)
        requires
            old(self).wf(),
            old(self).free_service_fits(user_id@, service_name@),
        ensures
            final(self).wf(),
            final(self).current_block == old(self).current_block,
            final(self).max_concurrent_users == old(self).max_concurrent_users,
            final(self).free_tier_services == old(self).free_tier_services,
            final(self).port_marketplace@ == old(self).port_marketplace@,
            match service_index(old(self).free_tier_services@, service_name@) {
                None => r is Err && r->Err_0@ == "Service not found"@ && final(self).user_sessions@
                    == old(self).user_sessions@ && final(self).active_ports@
                    == old(self).active_ports@,
                Some(i) => if !old(self).user_sessions@.contains_key(user_id@) {
                    r is Err && r->Err_0@ == "No active session - allocate a port first"@ && final(self).user_sessions@ == old(self).user_sessions@ && final(self).active_ports@
                        == old(self).active_ports@
                } else {
                    let before = old(self).user_sessions@[user_id@];
                    let after = final(self).user_sessions@[user_id@];
                    &&& r is Ok
                    &&& r->Ok_0@ == free_service_output(service_name@)
                    &&& final(self).user_sessions@ == old(self).user_sessions@.insert(
                        user_id@,
                        after,
                    )
                    &&& after.user_id == before.user_id
                    &&& after.current_port == before.current_port
                    &&& after.block_started == before.block_started
                    &&& after.credits_spent == before.credits_spent
                        + old(self).free_tier_services@[i].credits_cost
                    &&& after.services_used@.drop_last() == before.services_used@
                    &&& after.services_used@.len() == before.services_used@.len() + 1
                    &&& after.services_used@.last()@ == service_name@
                    &&& match before.current_port {
                        Some(p) => if old(self).active_ports@.contains_key(p) {
                            let pb = old(self).active_ports@[p];
                            let pa = final(self).active_ports@[p];
                            &&& final(self).active_ports@ == old(self).active_ports@.insert(p, pa)
                            &&& pa.usage_count == pb.usage_count + 1
                            &&& pa.port == pb.port
                            &&& pa.user_id == pb.user_id
                            &&& pa.allocated_at_block == pb.allocated_at_block
                            &&& pa.expires_at_block == pb.expires_at_block
                            &&& pa.service_type == pb.service_type
                            &&& pa.shareable == pb.shareable
                            &&& pa.resellable == pb.resellable
                            &&& pa.shared_with == pb.shared_with
                        } else {
                            final(self).active_ports@ == old(self).active_ports@
                        },
                        None => final(self).active_ports@ == old(self).active_ports@,
                    }
                },
            },
    {
        let mut idx: usize = 0;
        let mut found: Option<usize> = None;
        while idx < self.free_tier_services.len()
            invariant
                idx <= self.free_tier_services@.len(),
                found is None ==> service_index(self.free_tier_services@.take(idx as int), service_name@) is None,
                found matches Some(f) ==> service_index(self.free_tier_services@, service_name@) == Some(f as int) && f < self.free_tier_services@.len(),
            decreases self.free_tier_services@.len() - idx,
        {
            if found.is_none() {
                let ghost t = self.free_tier_services@.take(idx + 1);
                assert(t.drop_last() =~= self.free_tier_services@.take(idx as int));
                if text::str_eq(self.free_tier_services[idx].name.as_str(), service_name) {
                    found = Some(idx);
                    proof {
                        lemma_service_index_prefix(self.free_tier_services@, service_name@, idx + 1);
                    }
                }
            }
            idx = idx + 1;
        }
        assert(self.free_tier_services@.take(self.free_tier_services@.len() as int) =~= self.free_tier_services@);
        let si = match found {
            None => {
                return Err(String::from_str("Service not found"));
            },
            Some(f) => f,
        };
        let cost = self.free_tier_services[si].credits_cost;
        let ghost old_sessions = self.user_sessions@;
        let ghost old_active = self.active_ports@;
        let mut session = match self.user_sessions.remove(user_id) {
            None => {
                return Err(String::from_str("No active session - allocate a port first"));
            },
            Some(s) => s,
        };
        let ghost before = session;
        let result = if text::str_eq(service_name, "pi_calculator") {
            String::from_str("π ≈ 3.1415926536")
        } else if text::str_eq(service_name, "fibonacci_meme") {
            String::from_str(
                "🐰 Fibonacci rabbits after 20 months: 6765 pairs\n📈 That's exponential growth! 🚀",
            )
        } else if text::str_eq(service_name, "prime_poetry") {
            String::from_str(
                "🎭 Prime Poetry:\nTwo, three, five, seven,\nEleven, thirteen, seventeen,\nPrimes dance in mathematical heaven! ✨\nFound 25 primes under 100",
            )
        } else {
            String::from_str("Service executed successfully")
        };
        session.services_used.push(String::from_str(service_name));
        assert(session.services_used@.drop_last() =~= before.services_used@);
        session.credits_spent = session.credits_spent + cost;
        let current = session.current_port;
        self.user_sessions.insert(String::from_str(user_id), session);
        assert(self.user_sessions@ =~= old_sessions.insert(user_id@, self.user_sessions@[user_id@]));
        match current {
            Some(p) => {
                proof {
                    self.active_ports.lemma_keys();
                }
                match self.active_ports.remove(p) {
                    Some(mut up) => {
                        assert(up.port == p);
                        up.usage_count = up.usage_count + 1;
                        self.active_ports.insert(up);
                        proof {
                            self.active_ports.lemma_keys();
                            assert(self.active_ports@.dom() =~= old_active.dom());
                            assert(self.active_ports@ =~= old_active.insert(p, self.active_ports@[p]));
                        }
                    },
                    None => {},
                }
            },
            None => {},
        }
        proof {
            assert forall|id: Seq<char>| #[trigger] self.port_marketplace@.contains_key(id) implies self.active_ports@.contains_key(
                self.port_marketplace@[id].port,
            ) by {
                assert(old_active.contains_key(self.port_marketplace@[id].port));
            }
        }
        Ok(result)
    }

    /// Moves to the next block: leases that end by it expire, and listings
    /// on expired ports leave the marketplace.
    pub fn advance_block(&mut self)
        requires
            old(self).wf(),
            old(self).current_block < u64::MAX,
        ensures
            final(self).wf(),
            final(self).listings_on_active_ports(),
            final(self).current_block == old(self).current_block + 1,
            final(self).block_duration_ms == old(self).block_duration_ms,
            final(self).max_concurrent_users == old(self).max_concurrent_users,
            final(self).free_tier_services == old(self).free_tier_services,
            final(self).user_sessions@ == old(self).user_sessions@,
            final(self).active_ports@ == old(self).active_ports@.restrict(
                old(self).active_ports@.dom().filter(
                    |k: u16| old(self).active_ports@[k].expires_at_block > old(self).current_block + 1,
                ),
            ),
            final(self).port_marketplace@ == old(self).port_marketplace@.restrict(
                old(self).port_marketplace@.dom().filter(
                    |id: Seq<char>| final(self).active_ports@.contains_key(
                        old(self).port_marketplace@[id].port,
                    ),
                ),
            ),
    {
        self.current_block = self.current_block + 1;
        let ghost old_active = self.active_ports@;
        proof {
            self.active_ports.lemma_keys();
        }
        self.active_ports.expire(self.current_block);
        proof {
            self.active_ports.lemma_keys();
            assert(self.active_ports@.dom().subset_of(old_active.dom()));
            vstd::set_lib::lemma_len_subset(self.active_ports@.dom(), old_active.dom());
        }
        let ghost m0 = self.port_marketplace;
        let ghost act = self.active_ports@;
        let ghost ap = self.active_ports;
        let ghost us = self.user_sessions;
        let ghost fts = self.free_tier_services;
        let ghost cb = self.current_block;
        let ghost bd = self.block_duration_ms;
        let ghost mx = self.max_concurrent_users;
        let ghost market = self.port_marketplace@;
        let ghost keys = self.port_marketplace.key_seq();
        let ghost vals = self.port_marketplace.val_seq();
        let mut drop: Vec<String> = Vec::new();
        let mut i: usize = 0;
        let n = self.port_marketplace.len();
        proof {
            m0.lemma_len();
        }
        while i < n
            invariant
                self.port_marketplace.wf(),
                self.active_ports.wf(),
                self.active_ports@ == act,
                self.active_ports == ap,
                self.user_sessions == us,
                self.free_tier_services == fts,
                self.current_block == cb,
                self.block_duration_ms == bd,
                self.max_concurrent_users == mx,
                self.port_marketplace == m0,
                m0@ == market,
                m0.key_seq() == keys,
                m0.val_seq() == vals,
                keys.len() == vals.len(),
                n == keys.len(),
                i <= n,
                forall|k: Seq<char>| #[trigger]
                    text::string_views(drop@).contains(k) <==> exists|j: int|
                        0 <= j < i && keys[j] == k && !self.active_ports@.contains_key(vals[j].port),
            decreases n - i,
        {
            let port = self.port_marketplace.value_at(i).port;
            let ghost dv_old = text::string_views(drop@);
            let pushed = !self.active_ports.contains(port);
            if pushed {
                drop.push(self.port_marketplace.key_at(i).clone());
            }
            proof {
                let dv = text::string_views(drop@);
                if pushed {
                    assert(dv =~= dv_old.push(keys[i as int]));
                } else {
                    assert(dv =~= dv_old);
                }
                assert forall|k: Seq<char>| #[trigger] dv.contains(k) <==> exists|j: int|
                    0 <= j < i + 1 && keys[j] == k && !self.active_ports@.contains_key(vals[j].port) by {
                    if dv.contains(k) {
                        let a = choose|a: int| 0 <= a < dv.len() && dv[a] == k;
                        if pushed && a == dv.len() - 1 {
                            assert(keys[i as int] == k);
                        } else {
                            assert(dv_old[a] == k);
                            assert(dv_old.contains(k));
                            let j = choose|j: int|
                                0 <= j < i && keys[j] == k && !self.active_ports@.contains_key(vals[j].port);
                            assert(keys[j] == k);
                        }
                    }
                    if exists|j: int|
                        0 <= j < i + 1 && keys[j] == k && !self.active_ports@.contains_key(vals[j].port) {
                        let j = choose|j: int|
                            0 <= j < i + 1 && keys[j] == k && !self.active_ports@.contains_key(vals[j].port);
                        if j == i {
                            assert(dv[dv.len() - 1] == k);
                        } else {
                            assert(dv_old.contains(k));
                            let a = choose|a: int| 0 <= a < dv_old.len() && dv_old[a] == k;
                            assert(dv[a] == k);
                        }
                    }
                }
            }
            i = i + 1;
        }
        let ghost dv = text::string_views(drop@);
        let mut d: usize = 0;
        while d < drop.len()
            invariant
                self.port_marketplace.wf(),
                self.active_ports.wf(),
                self.active_ports@ == act,
                self.active_ports == ap,
                self.user_sessions == us,
                self.free_tier_services == fts,
                self.current_block == cb,
                self.block_duration_ms == bd,
                self.max_concurrent_users == mx,
                d <= drop@.len(),
                dv == text::string_views(drop@),
                self.port_marketplace@ == market.remove_keys(dv.take(d as int).to_set()),
            decreases drop@.len() - d,
        {
            let _ = self.port_marketplace.remove(drop[d].as_str());
            proof {
                lemma_take_to_set(dv, d as int);
                assert(self.port_marketplace@ =~= market.remove_keys(dv.take(d + 1).to_set()));
            }
            d = d + 1;
        }
        proof {
            assert(dv.take(dv.len() as int) =~= dv);
            let keep = market.dom().filter(|id: Seq<char>| act.contains_key(market[id].port));
            assert forall|k: Seq<char>| #[trigger] market.dom().contains(k) implies (dv.to_set().contains(k)
                <==> !keep.contains(k)) by {
                assert(dv.to_set().contains(k) == dv.contains(k));
                if dv.contains(k) {
                    let j = choose|j: int|
                        0 <= j < n && keys[j] == k && !act.contains_key(vals[j].port);
                    m0.lemma_entry(j);
                }
                if !keep.contains(k) {
                    m0.lemma_key(k);
                    let idx = keys.index_of(k);
                    m0.lemma_entry(idx);
                    assert(keys[idx] == k && !act.contains_key(vals[idx].port));
                }
            }
            assert(self.port_marketplace@ =~= market.restrict(keep));
        }
    }

    /// The listings on the marketplace, one per listing id.
    pub fn get_marketplace_listings(&self) -> (r: Vec<&PortListing>)
        requires
            self.wf(),
        ensures
            r@.len() == self.port_marketplace@.dom().len(),
            forall|i: int|
                #![trigger r@[i]]
                #![trigger self.port_marketplace.key_seq()[i]]
                0 <= i < r@.len() ==> self.port_marketplace@.contains_key(
                    self.port_marketplace.key_seq()[i],
                ) && *r@[i] == self.port_marketplace@[self.port_marketplace.key_seq()[i]],
            forall|id: Seq<char>|
                #[trigger] self.port_marketplace@.contains_key(id) ==> exists|i: int|
                    0 <= i < r@.len() && *r@[i] == self.port_marketplace@[id],
    {
        let n = self.port_marketplace.len();
        let mut r: Vec<&PortListing> = Vec::new();
        let mut i: usize = 0;
        while i < n
            invariant
                self.wf(),
                n == self.port_marketplace.key_seq().len(),
                i <= n,
                r@.len() == i,
                forall|j: int| 0 <= j < i ==> *r@[j] == self.port_marketplace.val_seq()[j],
            decreases n - i,
        {
            r.push(self.port_marketplace.value_at(i));
            i = i + 1;
        }
        proof {
            self.port_marketplace.lemma_len();
            assert forall|j: int| #![trigger r@[j]] #![trigger self.port_marketplace.key_seq()[j]] 0 <= j < r@.len() implies self.port_marketplace@.contains_key(
                self.port_marketplace.key_seq()[j],
            ) && *r@[j] == self.port_marketplace@[self.port_marketplace.key_seq()[j]] by {
                self.port_marketplace.lemma_entry(j);
            }
            assert forall|id: Seq<char>| #[trigger] self.port_marketplace@.contains_key(id) implies exists|j: int|
                0 <= j < r@.len() && *r@[j] == self.port_marketplace@[id] by {
                self.port_marketplace.lemma_key(id);
                let j = self.port_marketplace.key_seq().index_of(id);
                self.port_marketplace.lemma_entry(j);
                assert(*r@[j] == self.port_marketplace@[id]);
            }
        }
        r
    }
}

/// The first free port of a range is free, inside the range.
pub proof fn lemma_first_free_is_free(taken: Set<u16>, q: int, end: int)
    ensures
        first_free_from(taken, q, end) matches Some(p) ==> !taken.contains(p) && q <= p <= end,
    decreases end - q + 1,
{
    if q > end || q < 0 || q > 65535 {
    } else if !taken.contains(q as u16) {
    } else {
        lemma_first_free_is_free(taken, q + 1, end);
    }
}


/// The first service named `name` among the first `k` is the first among all.
pub proof fn lemma_service_index_prefix(services: Seq<FreeService>, name: Seq<char>, k: int)
    requires
        0 <= k <= services.len(),
        service_index(services.take(k), name) is Some,
    ensures
        service_index(services, name) == service_index(services.take(k), name),
    decreases services.len() - k,
{
    if k < services.len() {
        let t = services.drop_last();
        assert(t.take(k) =~= services.take(k));
        lemma_service_index_prefix(t, name, k);
    } else {
        assert(services.take(k) =~= services);
    }
}

/// The first `d + 1` items as a set: the first `d`, and item `d`.
pub proof fn lemma_take_to_set<T>(s: Seq<T>, d: int)
    requires
        0 <= d < s.len(),
    ensures
        s.take(d + 1).to_set() == s.take(d).to_set().insert(s[d]),
{
    assert forall|x: T| #[trigger] s.take(d + 1).to_set().contains(x) == s.take(d).to_set().insert(
        s[d],
    ).contains(x) by {
        let t1 = s.take(d + 1);
        let t0 = s.take(d);
        if t1.contains(x) {
            let a = choose|a: int| 0 <= a < t1.len() && t1[a] == x;
            if a < d {
                assert(t0[a] == x);
            }
        }
        if t0.contains(x) {
            let a = choose|a: int| 0 <= a < t0.len() && t0[a] == x;
            assert(t1[a] == x);
        }
        if x == s[d] {
            assert(s.take(d + 1)[d] == x);
        }
    }
    assert(s.take(d + 1).to_set() =~= s.take(d).to_set().insert(s[d]));
}


/// The items of a JSON array of strings, separated by commas.
pub open spec fn json_string_items(ss: Seq<Seq<char>>) -> Seq<char>
    decreases ss.len(),
{
    if ss.len() == 0 {
        Seq::empty()
    } else if ss.len() == 1 {
        crate::sync::json_quoted(ss[0])
    } else {
        json_string_items(ss.drop_last()) + ","@ + crate::sync::json_quoted(ss.last())
    }
}

/// Strings as a compact JSON array.
pub open spec fn json_string_list(ss: Seq<Seq<char>>) -> Seq<char> {
    "["@ + json_string_items(ss) + "]"@
}

/// Writes `json_string_list`.
pub fn string_list_json(v: &Vec<String>) -> (r: String)
    ensures
        r@ == json_string_list(text::string_views(v@)),
{
    let ghost ss = text::string_views(v@);
    let mut r = String::from_str("[");
    let ghost head = r@;
    let mut i: usize = 0;
    assert(ss.take(0) =~= Seq::<Seq<char>>::empty());
    assert(r@ =~= head + json_string_items(ss.take(0)));
    while i < v.len()
        invariant
            ss == text::string_views(v@),
            i <= ss.len(),
            r@ == head + json_string_items(ss.take(i as int)),
        decreases ss.len() - i,
    {
        if i > 0 {
            r.append(",");
        }
        r.append(crate::sync::json_quote(v[i].as_str()).as_str());
        assert(ss.take(i + 1).drop_last() =~= ss.take(i as int));
        assert(ss[i as int] == v@[i as int]@);
        if i == 0 {
            assert(ss.take(1)[0] == ss[0]);
        }
        assert(r@ =~= head + json_string_items(ss.take(i + 1)));
        i = i + 1;
    }
    assert(ss.take(ss.len() as int) =~= ss);
    r.append("]");
    r
}

/// The names of the free services, in order.
pub open spec fn service_names(services: Seq<FreeService>) -> Seq<Seq<char>> {
    services.map_values(|s: FreeService| s.name@)
}

/// The lease of a user's current port, as JSON: `null` where the user holds
/// no port or the port is no longer leased.
pub open spec fn active_port_json(ports: Map<u16, UserPort>, current: Option<u16>, block: u64) -> Seq<char> {
    match current {
        Some(p) => if ports.contains_key(p) {
            let up = ports[p];
            "{\"blocks_remaining\":"@ + text::decimal(
                (if up.expires_at_block >= block { up.expires_at_block - block } else { 0 }) as nat,
            ) + ",\"expires_at_block\":"@ + text::decimal(up.expires_at_block as nat) + ",\"port\":"@ + text::decimal(
                p as nat,
            ) + ",\"shared_with\":"@ + text::decimal(up.shared_with@.len()) + ",\"usage_count\":"@ + text::decimal(
                up.usage_count as nat,
            ) + "}"@
        } else {
            "null"@
        },
        None => "null"@,
    }
}

/// A user's status as compact JSON, keys in alphabetical order.
pub open spec fn user_status_json(
    ports: Map<u16, UserPort>,
    session: UserSession,
    services: Seq<FreeService>,
    block: u64,
    listings: nat,
    capacity: u32,
    user_id: Seq<char>,
) -> Seq<char> {
    "{\"active_port\":"@ + active_port_json(ports, session.current_port, block) + ",\"available_services\":"@
        + json_string_list(service_names(services)) + ",\"credits_spent\":"@ + text::decimal(
        session.credits_spent as nat,
    ) + ",\"current_block\":"@ + text::decimal(block as nat) + ",\"marketplace_listings\":"@ + text::decimal(
        listings,
    ) + ",\"server_capacity\":\""@ + text::decimal(ports.dom().len()) + "/"@ + text::decimal(capacity as nat)
        + "\",\"services_used\":"@ + json_string_list(text::string_views(session.services_used@)) + ",\"user_id\":"@
        + crate::sync::json_quoted(user_id) + "}"@
}

/// Writes `active_port_json`.
fn active_port_text(ports: &PortTable, current: Option<u16>, block: u64) -> (r: String)
    requires
        ports.wf(),
    ensures
        r@ == active_port_json(ports@, current, block),
{
    match current {
        Some(p) => match ports.get(p) {
            Some(up) => {
                let remaining = if up.expires_at_block >= block {
                    up.expires_at_block - block
                } else {
                    0
                };
                let mut r = String::from_str("{\"blocks_remaining\":");
                r.append(text::decimal_string(remaining).as_str());
                r.append(",\"expires_at_block\":");
                r.append(text::decimal_string(up.expires_at_block).as_str());
                r.append(",\"port\":");
                r.append(text::decimal_string(p as u64).as_str());
                r.append(",\"shared_with\":");
                r.append(text::decimal_string(up.shared_with.len() as u64).as_str());
                r.append(",\"usage_count\":");
                r.append(text::decimal_string(up.usage_count as u64).as_str());
                r.append("}");
                r
            },
            None => String::from_str("null"),
        },
        None => String::from_str("null"),
    }
}

impl BlockPortManager {
    /// The status of a user with a session: the current lease, the free
    /// services, the credits spent and services used, the listings and the
    /// leases against the capacity.
    pub fn get_user_status(&self, user_id: &str) -> (r: Result<String, String>)
        requires
            self.wf(),
        ensures
            !self.user_sessions@.contains_key(user_id@) ==> r is Err && r->Err_0@ == "User session not found"@,
            self.user_sessions@.contains_key(user_id@) ==> r is Ok && r->Ok_0@ == user_status_json(
                self.active_ports@,
                self.user_sessions@[user_id@],
                self.free_tier_services@,
                self.current_block,
                self.port_marketplace@.dom().len(),
                self.max_concurrent_users,
                user_id@,
            ),
    {
        let session = match self.user_sessions.get(user_id) {
            Some(s) => s,
            None => {
                return Err(String::from_str("User session not found"));
            },
        };
        let mut names: Vec<String> = Vec::new();
        let mut i: usize = 0;
        while i < self.free_tier_services.len()
            invariant
                i <= self.free_tier_services@.len(),
                text::string_views(names@) == service_names(self.free_tier_services@).take(i as int),
            decreases self.free_tier_services@.len() - i,
        {
            let n = self.free_tier_services[i].name.clone();
            assert(n@ == self.free_tier_services@[i as int].name@);
            let ghost before = text::string_views(names@);
            names.push(n);
            assert(text::string_views(names@) =~= before.push(n@));
            assert(service_names(self.free_tier_services@).take(i + 1) =~= service_names(self.free_tier_services@).take(
                i as int,
            ).push(self.free_tier_services@[i as int].name@));
            i = i + 1;
        }
        assert(service_names(self.free_tier_services@).take(self.free_tier_services@.len() as int)
            =~= service_names(self.free_tier_services@));
        let mut r = String::from_str("{\"active_port\":");
        r.append(active_port_text(&self.active_ports, session.current_port, self.current_block).as_str());
        r.append(",\"available_services\":");
        r.append(string_list_json(&names).as_str());
        r.append(",\"credits_spent\":");
        r.append(text::decimal_string(session.credits_spent).as_str());
        r.append(",\"current_block\":");
        r.append(text::decimal_string(self.current_block).as_str());
        r.append(",\"marketplace_listings\":");
        proof {
            self.port_marketplace.lemma_len();
        }
        r.append(text::decimal_string(self.port_marketplace.len() as u64).as_str());
        r.append(",\"server_capacity\":\"");
        r.append(text::decimal_string(self.active_ports.len() as u64).as_str());
        r.append("/");
        r.append(text::decimal_string(self.max_concurrent_users as u64).as_str());
        r.append("\",\"services_used\":");
        r.append(string_list_json(&session.services_used).as_str());
        r.append(",\"user_id\":");
        r.append(crate::sync::json_quote(user_id).as_str());
        r.append("}");
        Ok(r)
    }
}

} // verus!
