//! The parts of a user's dashboard that hold no scores: allocations, usage
//! counters, milestone progress, marketplace records and notifications, with
//! the values a new dashboard starts from.
use vstd::prelude::*;
use vstd::string::*;
use crate::text;

verus! {

/// The port a user holds now.
pub struct PortAllocation {
    pub port: u16,
    pub allocated_at_block: u64,
    pub expires_at_block: u64,
    pub blocks_remaining: u64,
    pub service_type: String,
    pub shareable: bool,
    pub shared_count: u32,
    pub usage_count: u32,
}

/// The governance seat a user holds.
pub struct SeatAssignment {
    pub seat_number: u32,
    pub chamber: String,
    pub held_since_block: u64,
    pub total_blocks_held: u64,
    pub challenges_faced: u32,
    pub challenges_won: u32,
    pub next_challenger: Option<String>,
    pub threat_level: String,
}

/// A port another user shares with this one.
pub struct SharedPort {
    pub port: u16,
    pub owner: String,
    pub shared_at: u64,
    pub expires_at: u64,
    pub usage_allowed: u32,
    pub usage_consumed: u32,
}

/// A port the user held earlier.
pub struct PortHistory {
    pub port: u16,
    pub allocated_at: u64,
    pub duration_blocks: u64,
    pub services_used: Vec<String>,
    pub credits_spent: u64,
    pub shared_with: u32,
}

/// Ports and seats, now and before.
pub struct AllocationInfo {
    pub current_port: Option<PortAllocation>,
    pub seat_assignment: Option<SeatAssignment>,
    pub shared_ports: Vec<SharedPort>,
    pub port_history: Vec<PortHistory>,
}

/// Counters of the current day.
pub struct DailyUsage {
    pub ports_allocated: u32,
    pub services_executed: u32,
    pub credits_spent: u64,
    pub credits_earned: u64,
    pub shares_given: u32,
    pub shares_received: u32,
}

/// Counters of the current week.
pub struct WeeklyUsage {
    pub total_blocks_active: u64,
    pub average_daily_credits: u64,
    pub most_used_service: String,
    pub marketplace_transactions: u32,
}

/// Counters since the account was made.
pub struct AllTimeUsage {
    pub total_ports_allocated: u64,
    pub total_services_executed: u64,
    pub total_credits_earned: u64,
    pub total_credits_spent: u64,
    pub highest_rank_achieved: u32,
    pub longest_streak: u32,
}

/// A reward already paid out.
pub struct CompletedReward {
    pub reward_type: String,
    pub amount: u64,
    pub earned_at: u64,
    pub source: String,
}

/// Progress toward a milestone.
pub struct MilestoneProgress {
    pub milestone_name: String,
    pub current_progress: u64,
    pub target: u64,
    pub reward: u64,
    pub estimated_completion: Option<u64>,
}

/// A port the user offers for sale.
pub struct ActiveListing {
    pub listing_id: String,
    pub port: u16,
    pub price: u64,
    pub duration: u64,
    pub views: u32,
    pub interested_buyers: u32,
}

/// A port access the user bought.
pub struct PurchaseHistory {
    pub port: u16,
    pub seller: String,
    pub price: u64,
    pub purchased_at: u64,
    pub usage_duration: u64,
}

/// What a notification is about.
#[derive(Debug, Clone, Copy, PartialEq, Eq, Structural)]
pub enum NotificationType {
    PortExpiring,
    SeatChallenged,
    RankChanged,
    RewardEarned,
    MarketplaceSale,
    VerificationRequired,
    SystemUpdate,
}

/// A message to the user.
pub struct Notification {
    pub id: String,
    pub notification_type: NotificationType,
    pub title: String,
    pub message: String,
    pub timestamp: u64,
    pub read: bool,
    pub action_url: Option<String>,
}

/// A change that a user action brings to the dashboard.
pub struct DashboardUpdate {
    pub port_allocated: Option<u16>,
    pub service_executed: Option<String>,
    pub credits_changed: Option<i64>,
    pub rank_changed: Option<u32>,
}

impl AllocationInfo {
    /// No port, no seat, no shares, no history.
    pub fn empty() -> (a: Self)
        ensures
            a.current_port is None,
            a.seat_assignment is None,
            a.shared_ports@.len() == 0,
            a.port_history@.len() == 0,
    {
        AllocationInfo {
            current_port: None,
            seat_assignment: None,
            shared_ports: Vec::new(),
            port_history: Vec::new(),
        }
    }
}

impl DailyUsage {
    /// Every counter at zero.
    pub fn zero() -> (d: Self)
        ensures
            d.ports_allocated == 0,
            d.services_executed == 0,
            d.credits_spent == 0,
            d.credits_earned == 0,
            d.shares_given == 0,
            d.shares_received == 0,
    {
        DailyUsage {
            ports_allocated: 0,
            services_executed: 0,
            credits_spent: 0,
            credits_earned: 0,
            shares_given: 0,
            shares_received: 0,
        }
    }
}

impl WeeklyUsage {
    /// Every counter at zero and no service used yet.
    pub fn zero() -> (w: Self)
        ensures
            w.total_blocks_active == 0,
            w.average_daily_credits == 0,
            w.most_used_service@ == "None"@,
            w.marketplace_transactions == 0,
    {
        WeeklyUsage {
            total_blocks_active: 0,
            average_daily_credits: 0,
            most_used_service: String::from_str("None"),
            marketplace_transactions: 0,
        }
    }
}

impl AllTimeUsage {
    /// Every counter at zero.
    pub fn zero() -> (a: Self)
        ensures
            a.total_ports_allocated == 0,
            a.total_services_executed == 0,
            a.total_credits_earned == 0,
            a.total_credits_spent == 0,
            a.highest_rank_achieved == 0,
            a.longest_streak == 0,
    {
        AllTimeUsage {
            total_ports_allocated: 0,
            total_services_executed: 0,
            total_credits_earned: 0,
            total_credits_spent: 0,
            highest_rank_achieved: 0,
            longest_streak: 0,
        }
    }
}

impl MilestoneProgress {
    /// The first milestone of a new user: the bronze tier, 100 points away,
    /// worth 100.
    pub fn bronze_tier() -> (m: Self)
        ensures
            m.milestone_name@ == "Bronze Tier"@,
            m.current_progress == 0,
            m.target == 100,
            m.reward == 100,
            m.estimated_completion is None,
    {
        MilestoneProgress {
            milestone_name: String::from_str("Bronze Tier"),
            current_progress: 0,
            target: 100,
            reward: 100,
            estimated_completion: None,
        }
    }
}

impl Notification {
    /// The greeting a new dashboard shows, stamped `now`, unread, pointing to
    /// the verification page.
    pub fn welcome(now: u64) -> (n: Self)
        ensures
            n.id@ == "welcome"@,
            n.notification_type == NotificationType::SystemUpdate,
            n.title@ == "Welcome to ZOS!"@,
            n.message@ == "Complete your profile to earn bonus credits"@,
            n.timestamp == now,
            !n.read,
            n.action_url is Some && n.action_url->0@ == "/verify"@,
    {
        Notification {
            id: String::from_str("welcome"),
            notification_type: NotificationType::SystemUpdate,
            title: String::from_str("Welcome to ZOS!"),
            message: String::from_str("Complete your profile to earn bonus credits"),
            timestamp: now,
            read: false,
            action_url: Some(String::from_str("/verify")),
        }
    }
}

/// How many of the notifications are unread.
pub open spec fn unread_in(ns: Seq<Notification>) -> nat
    decreases ns.len(),
{
    if ns.len() == 0 {
        0
    } else {
        unread_in(ns.drop_last()) + if ns.last().read {
            0nat
        } else {
            1nat
        }
    }
}

/// Counts the unread notifications.
pub fn unread_count(notifications: &Vec<Notification>) -> (n: usize)
    ensures
        n == unread_in(notifications@),
{
    let mut n: usize = 0;
    let mut i: usize = 0;
    while i < notifications.len()
        invariant
            i <= notifications@.len(),
            n == unread_in(notifications@.take(i as int)),
            n <= i,
        decreases notifications@.len() - i,
    {
        assert(notifications@.take(i + 1).drop_last() =~= notifications@.take(i as int));
        if !notifications[i].read {
            n = n + 1;
        }
        i = i + 1;
    }
    assert(notifications@.take(i as int) =~= notifications@);
    n
}

/// The dashboard API's endpoints: method, path and what each gives.
pub open spec fn dashboard_endpoints() -> Seq<(Seq<char>, Seq<char>, Seq<char>)> {
    seq![
        ("GET"@, "/dashboard/{user_id}"@, "Full dashboard JSON"@),
        ("GET"@, "/dashboard/{user_id}/quick"@, "Quick stats summary"@),
        ("GET"@, "/dashboard/{user_id}/allocations"@, "Current port and seat allocations"@),
        ("GET"@, "/dashboard/{user_id}/usage"@, "Usage statistics and history"@),
        ("GET"@, "/dashboard/{user_id}/rewards"@, "Rewards and milestone progress"@),
        ("GET"@, "/dashboard/{user_id}/competitive"@, "Ranking and competitive status"@),
        ("GET"@, "/dashboard/{user_id}/marketplace"@, "Marketplace activity and stats"@),
        ("GET"@, "/dashboard/{user_id}/notifications"@, "Unread notifications"@),
        ("POST"@, "/dashboard/{user_id}/notifications/{id}/read"@, "Mark notification as read"@),
        ("WebSocket"@, "/dashboard/{user_id}/live"@, "Real-time dashboard updates"@),
    ]
}

/// One entry of the endpoint list: a blank line, the method and path, then
/// the description on an indented arrow line.
pub open spec fn endpoint_text(e: (Seq<char>, Seq<char>, Seq<char>)) -> Seq<char> {
    "\n"@ + e.0 + " "@ + e.1 + "\n  → "@ + e.2 + "\n"@
}

/// The endpoint list of the dashboard API: a title, then one entry for each
/// endpoint, in order.
pub open spec fn dashboard_routes_text() -> Seq<char> {
    "\n🎯 ZOS Dashboard API Endpoints:\n"@ + text::concat(dashboard_endpoints().map_values(|e| endpoint_text(e)))
}

/// The list names ten endpoints: the dashboard and seven of its parts to
/// read, a notification to mark as read, and a live feed.
pub proof fn law_dashboard_endpoints()
    ensures
        dashboard_endpoints().len() == 10,
        forall|i: int| 0 <= i < 8 ==> (#[trigger] dashboard_endpoints()[i]).0 == "GET"@,
        dashboard_endpoints()[8].0 == "POST"@,
        dashboard_endpoints()[8].1 == "/dashboard/{user_id}/notifications/{id}/read"@,
        dashboard_endpoints()[9].0 == "WebSocket"@,
        dashboard_endpoints()[9].1 == "/dashboard/{user_id}/live"@,
        dashboard_endpoints().map_values(|e: (Seq<char>, Seq<char>, Seq<char>)| e.1).take(8) == seq![
            "/dashboard/{user_id}"@,
            "/dashboard/{user_id}/quick"@,
            "/dashboard/{user_id}/allocations"@,
            "/dashboard/{user_id}/usage"@,
            "/dashboard/{user_id}/rewards"@,
            "/dashboard/{user_id}/competitive"@,
            "/dashboard/{user_id}/marketplace"@,
            "/dashboard/{user_id}/notifications"@,
        ],
{
    assert(dashboard_endpoints().map_values(|e: (Seq<char>, Seq<char>, Seq<char>)| e.1).take(8) =~= seq![
        "/dashboard/{user_id}"@,
        "/dashboard/{user_id}/quick"@,
        "/dashboard/{user_id}/allocations"@,
        "/dashboard/{user_id}/usage"@,
        "/dashboard/{user_id}/rewards"@,
        "/dashboard/{user_id}/competitive"@,
        "/dashboard/{user_id}/marketplace"@,
        "/dashboard/{user_id}/notifications"@,
    ]);
}

/// Appends one entry of the endpoint list.
fn push_endpoint(r: &mut String, method: &str, path: &str, description: &str)
    ensures
        final(r)@ == old(r)@ + endpoint_text((method@, path@, description@)),
{
    r.append("\n");
    r.append(method);
    r.append(" ");
    r.append(path);
    r.append("\n  → ");
    r.append(description);
    r.append("\n");
}

/// Lists the dashboard API's endpoints.
pub fn dashboard_routes() -> (r: String)
    ensures
        r@ == dashboard_routes_text(),
{
    let mut r = String::from_str("\n🎯 ZOS Dashboard API Endpoints:\n");
    push_endpoint(&mut r, "GET", "/dashboard/{user_id}", "Full dashboard JSON");
    push_endpoint(&mut r, "GET", "/dashboard/{user_id}/quick", "Quick stats summary");
    push_endpoint(&mut r, "GET", "/dashboard/{user_id}/allocations", "Current port and seat allocations");
    push_endpoint(&mut r, "GET", "/dashboard/{user_id}/usage", "Usage statistics and history");
    push_endpoint(&mut r, "GET", "/dashboard/{user_id}/rewards", "Rewards and milestone progress");
    push_endpoint(&mut r, "GET", "/dashboard/{user_id}/competitive", "Ranking and competitive status");
    push_endpoint(&mut r, "GET", "/dashboard/{user_id}/marketplace", "Marketplace activity and stats");
    push_endpoint(&mut r, "GET", "/dashboard/{user_id}/notifications", "Unread notifications");
    push_endpoint(&mut r, "POST", "/dashboard/{user_id}/notifications/{id}/read", "Mark notification as read");
    push_endpoint(&mut r, "WebSocket", "/dashboard/{user_id}/live", "Real-time dashboard updates");
    proof {
        let es = dashboard_endpoints().map_values(|e| endpoint_text(e));
        reveal_with_fuel(text::concat, 11);
        assert(es.take(10) =~= es);
        assert(r@ =~= "\n🎯 ZOS Dashboard API Endpoints:\n"@ + text::concat(es));
    }
    r
}

} // verus!
