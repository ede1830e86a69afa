//! The public HTTP gateway, without its prices: wallet endpoints and the
//! service registry, the request path grammar and its routes, per-wallet
//! request counting, payment-token shape, the handling of a service call,
//! referral links, tracked referrals and earnings tiers.
use vstd::prelude::*;
use vstd::string::*;
use crate::strmap::StrMap;
use crate::text;
use crate::sync;
use crate::timeline;

verus! {

/// Standing of a referral.
#[derive(Debug, Clone, Copy, PartialEq, Eq, Structural)]
pub enum ReferralStatus {
    Active,
    Inactive,
    Suspended,
    Graduated,
}

/// Earnings tier, by number of referrals.
#[derive(Debug, Clone, Copy, PartialEq, Eq, Structural)]
pub enum EarningsTier {
    Bronze,
    Silver,
    Gold,
    Platinum,
}

/// What a commission was paid for.
#[derive(Debug, Clone, Copy, PartialEq, Eq, Structural)]
pub enum CommissionType {
    SwapFee,
    ReferralBonus,
    ServiceFee,
    VolumeBonus,
}

/// Tokens a wallet can pay with.
#[derive(Debug, Clone, Copy, PartialEq, Eq, Structural)]
pub enum PaymentMethod {
    USDC,
    USDT,
    SOL,
    SOLFUNMEME,
    Lightning,
}

/// Price class of a service.
#[derive(Debug, Clone, Copy, PartialEq, Eq, Structural)]
pub enum PricingTier {
    Free,
    Basic,
    Premium,
    Enterprise,
}

/// State of a payment.
#[derive(Debug, Clone, Copy, PartialEq, Eq, Structural)]
pub enum PaymentStatus {
    Pending,
    Confirmed,
    Failed,
    Refunded,
}

/// A link through which a wallet refers others to a service.
pub struct ReferralLink {
    pub link_id: String,
    pub referrer_wallet: String,
    pub service_endpoint: String,
    pub custom_params: StrMap<String>,
    pub click_count: u32,
    pub conversion_count: u32,
    pub created_at: u64,
}

/// A service as its wallet's endpoint lists it.
pub struct ServiceConfig {
    pub service_name: String,
    pub port: u16,
    pub pricing_tier: PricingTier,
    pub payment_required: bool,
    pub description: String,
    pub api_spec: Option<String>,
}

/// A token the gateway accepts.
pub struct TokenConfig {
    pub symbol: String,
    pub contract_address: String,
    pub decimals: u8,
    pub is_stablecoin: bool,
    pub swap_enabled: bool,
}

/// A peer the gateway forwards to.
pub struct PeerConnection {
    pub peer_id: String,
    pub multiaddr: String,
    pub protocols: Vec<String>,
    pub last_seen: u64,
}

/// How a protocol is served.
pub struct ProtocolHandler {
    pub protocol: String,
    pub handler_type: String,
    pub port_mapping: u16,
}

/// Limits of the connection pool.
pub struct ConnectionPool {
    pub max_connections: u32,
    pub active_connections: u32,
    pub connection_timeout: u64,
}

/// The gateway's side of the peer network.
pub struct LibP2PBridge {
    pub peer_connections: StrMap<PeerConnection>,
    pub protocol_handlers: StrMap<ProtocolHandler>,
    pub connection_pool: ConnectionPool,
}

/// An HTTP reply.
pub struct HttpResponse {
    pub status_code: u16,
    pub headers: StrMap<String>,
    pub body: Vec<u8>,
}

/// The tier that a number of referrals earns: up to 10 bronze, up to 50
/// silver, up to 200 gold, platinum beyond.
pub open spec fn tier_for(referrals: u32) -> EarningsTier {
    if referrals <= 10 {
        EarningsTier::Bronze
    } else if referrals <= 50 {
        EarningsTier::Silver
    } else if referrals <= 200 {
        EarningsTier::Gold
    } else {
        EarningsTier::Platinum
    }
}

impl EarningsTier {
    /// The tier of a referrer with `referrals` referrals.
    pub fn for_referrals(referrals: u32) -> (t: Self)
        ensures
            t == tier_for(referrals),
    {
        if referrals <= 10 {
            EarningsTier::Bronze
        } else if referrals <= 50 {
            EarningsTier::Silver
        } else if referrals <= 200 {
            EarningsTier::Gold
        } else {
            EarningsTier::Platinum
        }
    }
}

/// A payment token is accepted when it starts with `pay_` and is longer
/// than 10 bytes (its UTF-8 length as `str::len` reports it).
pub open spec fn payment_token_ok(token: Seq<char>) -> bool {
    text::has_prefix(token, "pay_"@) && (vstd::utf8::encode_utf8(token).len() as usize) > 10
}

/// Checks a payment token's shape.
pub fn payment_token_valid(token: &str) -> (r: bool)
    ensures
        r == payment_token_ok(token@),
{
    text::starts_with(token, "pay_") && token.len() > 10
}

/// Where a request goes.
pub enum GatewayRoute {
    /// `/{wallet}/{service}/swap`
    Swap(String, String),
    /// `/{wallet}/{service}/quote`
    Quote(String, String),
    /// `/{wallet}/{service}` with any other third segment
    Service(String, String),
}

/// The characters of a route.
pub enum RouteView {
    Swap(Seq<char>, Seq<char>),
    Quote(Seq<char>, Seq<char>),
    Service(Seq<char>, Seq<char>),
}

impl View for GatewayRoute {
    type V = RouteView;

    open spec fn view(&self) -> RouteView {
        match self {
            GatewayRoute::Swap(w, s) => RouteView::Swap(w@, s@),
            GatewayRoute::Quote(w, s) => RouteView::Quote(w@, s@),
            GatewayRoute::Service(w, s) => RouteView::Service(w@, s@),
        }
    }
}

/// The reply to a path with fewer than two segments.
pub open spec fn bad_path_error() -> Seq<char> {
    "Invalid path format. Expected: /{wallet}/{service}"@
}

/// The segments of a request path: leading slashes dropped, the rest split
/// at every slash.
pub open spec fn path_segments(path: Seq<char>) -> Seq<Seq<char>> {
    text::split_on(text::trim_start_char(path, '/'), '/')
}

/// The route of a request path.
pub open spec fn route_of(path: Seq<char>) -> Result<RouteView, Seq<char>> {
    let parts = path_segments(path);
    if parts.len() < 2 {
        Err(bad_path_error())
    } else if parts.len() > 2 && parts[2] == "swap"@ {
        Ok(RouteView::Swap(parts[0], parts[1]))
    } else if parts.len() > 2 && parts[2] == "quote"@ {
        Ok(RouteView::Quote(parts[0], parts[1]))
    } else {
        Ok(RouteView::Service(parts[0], parts[1]))
    }
}

/// Reads the wallet, the service and the action from a request path.
pub fn route_request(path: &str) -> (r: Result<GatewayRoute, String>)
    ensures
        match r {
            Ok(route) => route_of(path@) == Ok::<RouteView, Seq<char>>(route@),
            Err(e) => route_of(path@) == Err::<RouteView, Seq<char>>(e@),
        },
{
    let trimmed = text::trim_start_char_str(path, '/');
    let parts = text::split_str(trimmed.as_str(), '/');
    assert(text::string_views(parts@) == path_segments(path@));
    if parts.len() < 2 {
        return Err(String::from_str("Invalid path format. Expected: /{wallet}/{service}"));
    }
    let wallet = parts[0].clone();
    let service = parts[1].clone();
    if parts.len() > 2 && text::str_eq(parts[2].as_str(), "swap") {
        Ok(GatewayRoute::Swap(wallet, service))
    } else if parts.len() > 2 && text::str_eq(parts[2].as_str(), "quote") {
        Ok(GatewayRoute::Quote(wallet, service))
    } else {
        Ok(GatewayRoute::Service(wallet, service))
    }
}

/// Requests counted for one wallet.
#[derive(Debug, Clone, Copy, PartialEq, Eq, Structural)]
pub struct UsageCounters {
    pub requests_this_minute: u32,
    pub requests_this_hour: u32,
    pub last_reset: u64,
}

/// The counters after the resets that `now` calls for. The minute counter
/// restarts when more than 60 seconds passed since the last reset, which
/// also moves the reset time to `now`; the hour counter restarts when more
/// than 3600 seconds passed since the (possibly moved) reset time.
pub open spec fn after_reset(u: UsageCounters, now: u64) -> UsageCounters {
    let m = if now - u.last_reset > 60 {
        UsageCounters {
            requests_this_minute: 0,
            requests_this_hour: u.requests_this_hour,
            last_reset: now,
        }
    } else {
        u
    };
    if now - m.last_reset > 3600 {
        UsageCounters {
            requests_this_minute: m.requests_this_minute,
            requests_this_hour: 0,
            last_reset: m.last_reset,
        }
    } else {
        m
    }
}

/// The refusal when the minute's requests are used up.
pub open spec fn minute_limit_error() -> Seq<char> {
    "Rate limit exceeded: too many requests per minute"@
}

/// The refusal when the hour's requests are used up.
pub open spec fn hour_limit_error() -> Seq<char> {
    "Rate limit exceeded: too many requests per hour"@
}

/// The counters after a request at `now` under the given limits, and
/// whether it is admitted. A refused request still leaves the resets done.
pub open spec fn admission(u: UsageCounters, now: u64, per_minute: u32, per_hour: u32) -> (
    UsageCounters,
    Result<(), Seq<char>>,
) {
    let v = after_reset(u, now);
    if v.requests_this_minute >= per_minute {
        (v, Err(minute_limit_error()))
    } else if v.requests_this_hour >= per_hour {
        (v, Err(hour_limit_error()))
    } else {
        (
            UsageCounters {
                requests_this_minute: (v.requests_this_minute + 1) as u32,
                requests_this_hour: (v.requests_this_hour + 1) as u32,
                last_reset: v.last_reset,
            },
            Ok(()),
        )
    }
}

impl UsageCounters {
    /// No requests yet; the clock starts at `now`.
    pub fn starting(now: u64) -> (u: Self)
        ensures
            u == (UsageCounters { requests_this_minute: 0, requests_this_hour: 0, last_reset: now }),
    {
        UsageCounters { requests_this_minute: 0, requests_this_hour: 0, last_reset: now }
    }

    /// Counts a request at `now`, or refuses it when a limit is reached.
    pub fn count_request(&mut self, now: u64, per_minute: u32, per_hour: u32) -> (r: Result<(), String>)
        requires
            old(self).last_reset <= now,
        ensures
            *final(self) == admission(*old(self), now, per_minute, per_hour).0,
            match r {
                Ok(()) => admission(*old(self), now, per_minute, per_hour).1 == Ok::<(), Seq<char>>(()),
                Err(e) => admission(*old(self), now, per_minute, per_hour).1 == Err::<(), Seq<char>>(e@),
            },
    {
        if now - self.last_reset > 60 {
            self.requests_this_minute = 0;
            self.last_reset = now;
        }
        if now - self.last_reset > 3600 {
            self.requests_this_hour = 0;
        }
        if self.requests_this_minute >= per_minute {
            return Err(String::from_str("Rate limit exceeded: too many requests per minute"));
        }
        if self.requests_this_hour >= per_hour {
            return Err(String::from_str("Rate limit exceeded: too many requests per hour"));
        }
        self.requests_this_minute = self.requests_this_minute + 1;
        self.requests_this_hour = self.requests_this_hour + 1;
        Ok(())
    }
}

/// Every wallet's request counters.
pub struct RateLimitCounters {
    pub current_usage: StrMap<UsageCounters>,
}

/// The counters a wallet has, or fresh ones started at `now`.
pub open spec fn counters_or_fresh(m: Map<Seq<char>, UsageCounters>, wallet: Seq<char>, now: u64) -> UsageCounters {
    if m.contains_key(wallet) {
        m[wallet]
    } else {
        UsageCounters { requests_this_minute: 0, requests_this_hour: 0, last_reset: now }
    }
}

impl RateLimitCounters {
    /// No wallet counted yet.
    pub fn new() -> (c: Self)
        ensures
            c.current_usage.wf(),
            c.current_usage@ == Map::<Seq<char>, UsageCounters>::empty(),
    {
        RateLimitCounters { current_usage: StrMap::new() }
    }

    /// Counts a request of the wallet at `now` under its limits, starting its
    /// counters at `now` when it has none.
    pub fn check(&mut self, wallet: &str, now: u64, per_minute: u32, per_hour: u32) -> (r: Result<(), String>)
        requires
            old(self).current_usage.wf(),
            old(self).current_usage@.contains_key(wallet@) ==> old(self).current_usage@[wallet@].last_reset <= now,
        ensures
            final(self).current_usage.wf(),
            final(self).current_usage@ == old(self).current_usage@.insert(
                wallet@,
                admission(counters_or_fresh(old(self).current_usage@, wallet@, now), now, per_minute, per_hour).0,
            ),
            match r {
                Ok(()) => admission(counters_or_fresh(old(self).current_usage@, wallet@, now), now, per_minute, per_hour).1
                    == Ok::<(), Seq<char>>(()),
                Err(e) => admission(counters_or_fresh(old(self).current_usage@, wallet@, now), now, per_minute, per_hour).1
                    == Err::<(), Seq<char>>(e@),
            },
    {
        let mut usage = match self.current_usage.remove(wallet) {
            Some(u) => u,
            None => UsageCounters::starting(now),
        };
        let r = usage.count_request(now, per_minute, per_hour);
        self.current_usage.insert(String::from_str(wallet), usage);
        r
    }
}

/// The record of a service in its wallet's endpoint: it costs nothing only
/// in the free tier, and its description names it and its port.
pub open spec fn service_description(name: Seq<char>, port: u16) -> Seq<char> {
    "Service "@ + name + " on port "@ + text::decimal(port as nat)
}

impl ServiceConfig {
    /// The record for a service on `port` in the given price class.
    pub fn for_service(name: &str, port: u16, tier: PricingTier) -> (c: Self)
        ensures
            c.service_name@ == name@,
            c.port == port,
            c.pricing_tier == tier,
            c.payment_required == (tier != PricingTier::Free),
            c.description@ == service_description(name@, port),
            c.api_spec is None,
    {
        let mut description = String::from_str("Service ");
        description.append(name);
        description.append(" on port ");
        description.append(text::decimal_string(port as u64).as_str());
        ServiceConfig {
            service_name: String::from_str(name),
            port,
            pricing_tier: tier,
            payment_required: tier != PricingTier::Free,
            description,
            api_spec: None,
        }
    }
}

/// The refusal of a service on a port the wallet does not hold.
pub open spec fn port_not_allocated_error() -> Seq<char> {
    "Port not allocated to this wallet"@
}

/// A service may be added on a port only where the wallet holds that port.
pub fn check_service_port(allocated: &Vec<u16>, port: u16) -> (r: Result<(), String>)
    ensures
        r is Ok <==> allocated@.contains(port),
        r is Err ==> r->Err_0@ == port_not_allocated_error(),
{
    let mut i: usize = 0;
    while i < allocated.len()
        invariant
            i <= allocated@.len(),
            forall|j: int| 0 <= j < i ==> allocated@[j] != port,
        decreases allocated@.len() - i,
    {
        if allocated[i] == port {
            return Ok(());
        }
        i = i + 1;
    }
    Err(String::from_str("Port not allocated to this wallet"))
}

/// The registry key of a wallet's service.
pub open spec fn service_key_of(wallet: Seq<char>, service: Seq<char>) -> Seq<char> {
    wallet + "_"@ + service
}

/// Builds `service_key_of`.
pub fn service_key(wallet: &str, service: &str) -> (r: String)
    ensures
        r@ == service_key_of(wallet@, service@),
{
    let mut r = String::from_str(wallet);
    r.append("_");
    r.append(service);
    r
}

/// The public address of a wallet's service.
pub open spec fn service_url_of(domain: Seq<char>, wallet: Seq<char>, service: Seq<char>) -> Seq<char> {
    "https://"@ + domain + "/"@ + wallet + "/"@ + service
}

/// Builds `service_url_of`.
pub fn service_url(domain: &str, wallet: &str, service: &str) -> (r: String)
    ensures
        r@ == service_url_of(domain@, wallet@, service@),
{
    let mut r = String::from_str("https://");
    r.append(domain);
    r.append("/");
    r.append(wallet);
    r.append("/");
    r.append(service);
    r
}

/// The public address of a wallet's endpoint.
pub open spec fn wallet_url_of(domain: Seq<char>, wallet: Seq<char>) -> Seq<char> {
    "https://"@ + domain + "/"@ + wallet
}

/// Builds `wallet_url_of`.
pub fn wallet_url(domain: &str, wallet: &str) -> (r: String)
    ensures
        r@ == wallet_url_of(domain@, wallet@),
{
    let mut r = String::from_str("https://");
    r.append(domain);
    r.append("/");
    r.append(wallet);
    r
}

/// The path under which a wallet's service answers.
pub open spec fn http_path_of(wallet: Seq<char>, service: Seq<char>) -> Seq<char> {
    "/"@ + wallet + "/"@ + service
}

/// Builds `http_path_of`.
pub fn http_path(wallet: &str, service: &str) -> (r: String)
    ensures
        r@ == http_path_of(wallet@, service@),
{
    let mut r = String::from_str("/");
    r.append(wallet);
    r.append("/");
    r.append(service);
    r
}

/// The id of a referral link made by `wallet` at time `now`.
pub open spec fn referral_id_of(wallet: Seq<char>, now: i64) -> Seq<char> {
    "ref_"@ + wallet + "_"@ + text::signed_decimal(now as int)
}

/// The address a referral link hands out.
pub open spec fn referral_url_of(domain: Seq<char>, endpoint: Seq<char>, link_id: Seq<char>) -> Seq<char> {
    "https://"@ + domain + "/"@ + endpoint + "?ref="@ + link_id
}

impl ReferralLink {
    /// A fresh link of `referrer_wallet` to a service, made at `now` (seconds
    /// since the epoch), with no clicks yet.
    pub fn new(referrer_wallet: &str, service_endpoint: &str, custom_params: StrMap<String>, now: i64) -> (l: Self)
        ensures
            l.link_id@ == referral_id_of(referrer_wallet@, now),
            l.referrer_wallet@ == referrer_wallet@,
            l.service_endpoint@ == service_endpoint@,
            l.custom_params == custom_params,
            l.click_count == 0,
            l.conversion_count == 0,
            l.created_at == now as u64,
    {
        let mut link_id = String::from_str("ref_");
        link_id.append(referrer_wallet);
        link_id.append("_");
        link_id.append(text::signed_decimal_string(now).as_str());
        ReferralLink {
            link_id,
            referrer_wallet: String::from_str(referrer_wallet),
            service_endpoint: String::from_str(service_endpoint),
            custom_params,
            click_count: 0,
            conversion_count: 0,
            created_at: now as u64,
        }
    }

    /// The address this link hands out on `domain`.
    pub fn url(&self, domain: &str) -> (r: String)
        ensures
            r@ == referral_url_of(domain@, self.service_endpoint@, self.link_id@),
    {
        let mut r = String::from_str("https://");
        r.append(domain);
        r.append("/");
        r.append(self.service_endpoint.as_str());
        r.append("?ref=");
        r.append(self.link_id.as_str());
        r
    }
}

/// The tokens a new gateway accepts: USDC (6 decimals, a stablecoin) and
/// SOLFUNMEME (9 decimals), both swappable.
pub open spec fn is_default_token_list(v: Seq<TokenConfig>) -> bool {
    &&& v.len() == 2
    &&& v[0].symbol@ == "USDC"@
    &&& v[0].contract_address@ == "EPjFWdd5AufqSSqeM2qN1xzybapC8G4wEGGkZwyTDt1v"@
    &&& v[0].decimals == 6
    &&& v[0].is_stablecoin
    &&& v[0].swap_enabled
    &&& v[1].symbol@ == "SOLFUNMEME"@
    &&& v[1].contract_address@ == "SoLFuNMeMeTokenAddress123456789"@
    &&& v[1].decimals == 9
    &&& !v[1].is_stablecoin
    &&& v[1].swap_enabled
}

/// Builds the tokens a new gateway accepts.
pub fn default_tokens() -> (v: Vec<TokenConfig>)
    ensures
        is_default_token_list(v@),
{
    let mut v: Vec<TokenConfig> = Vec::new();
    v.push(
        TokenConfig {
            symbol: String::from_str("USDC"),
            contract_address: String::from_str("EPjFWdd5AufqSSqeM2qN1xzybapC8G4wEGGkZwyTDt1v"),
            decimals: 6,
            is_stablecoin: true,
            swap_enabled: true,
        },
    );
    v.push(
        TokenConfig {
            symbol: String::from_str("SOLFUNMEME"),
            contract_address: String::from_str("SoLFuNMeMeTokenAddress123456789"),
            decimals: 9,
            is_stablecoin: false,
            swap_enabled: true,
        },
    );
    v
}

impl LibP2PBridge {
    /// No peers, no handlers, a pool of 1000 connections with a 30000 ms
    /// timeout.
    pub fn new() -> (b: Self)
        ensures
            b.peer_connections.wf(),
            b.peer_connections@ == Map::<Seq<char>, PeerConnection>::empty(),
            b.protocol_handlers.wf(),
            b.protocol_handlers@ == Map::<Seq<char>, ProtocolHandler>::empty(),
            b.connection_pool.max_connections == 1000,
            b.connection_pool.active_connections == 0,
            b.connection_pool.connection_timeout == 30000,
    {
        LibP2PBridge {
            peer_connections: StrMap::new(),
            protocol_handlers: StrMap::new(),
            connection_pool: ConnectionPool {
                max_connections: 1000,
                active_connections: 0,
                connection_timeout: 30000,
            },
        }
    }
}

impl HttpResponse {
    /// The headers' names and texts.
    pub open spec fn header_text(&self) -> Map<Seq<char>, Seq<char>> {
        self.headers@.map_values(|s: String| s@)
    }

    /// A 200 reply with a JSON body, open to every origin: what a service
    /// call answers.
    pub fn service_reply(body: Vec<u8>) -> (h: Self)
        ensures
            h.status_code == 200,
            h.body@ == body@,
            h.headers.wf(),
            h.header_text() == map![
                "Content-Type"@ => "application/json"@,
                "Access-Control-Allow-Origin"@ => "*"@,
            ],
    {
        let mut headers: StrMap<String> = StrMap::new();
        headers.insert(String::from_str("Content-Type"), String::from_str("application/json"));
        headers.insert(String::from_str("Access-Control-Allow-Origin"), String::from_str("*"));
        let h = HttpResponse { status_code: 200, headers, body };
        assert(h.header_text() =~= map![
            "Content-Type"@ => "application/json"@,
            "Access-Control-Allow-Origin"@ => "*"@,
        ]);
        h
    }

    /// A refusal with the given status whose JSON body gives the reason,
    /// open to every origin.
    pub fn error_reply(status: u16, message: &str) -> (h: Self)
        ensures
            is_error_reply(h, status, message@),
    {
        let mut text = String::from_str("{\"error\":");
        text.append(sync::json_quote(message).as_str());
        text.append("}");
        let mut headers: StrMap<String> = StrMap::new();
        headers.insert(String::from_str("Content-Type"), String::from_str("application/json"));
        headers.insert(String::from_str("Access-Control-Allow-Origin"), String::from_str("*"));
        let h = HttpResponse { status_code: status, headers, body: sync::utf8_bytes(text.as_str()) };
        assert(h.header_text() =~= map!["Content-Type"@ => "application/json"@, "Access-Control-Allow-Origin"@ => "*"@]);
        h
    }

    /// A 200 reply with a JSON body: what a swap answers.
    pub fn swap_reply(body: Vec<u8>) -> (h: Self)
        ensures
            h.status_code == 200,
            h.body@ == body@,
            h.headers.wf(),
            h.header_text() == map!["Content-Type"@ => "application/json"@],
    {
        let mut headers: StrMap<String> = StrMap::new();
        headers.insert(String::from_str("Content-Type"), String::from_str("application/json"));
        let h = HttpResponse { status_code: 200, headers, body };
        assert(h.header_text() =~= map!["Content-Type"@ => "application/json"@]);
        h
    }

    /// A 200 reply with a JSON body that says whether the quote came from
    /// the cache.
    pub fn quote_reply(body: Vec<u8>, cache_hit: bool) -> (h: Self)
        ensures
            h.status_code == 200,
            h.body@ == body@,
            h.headers.wf(),
            h.header_text() == map![
                "Content-Type"@ => "application/json"@,
                "X-Cache"@ => if cache_hit { "HIT"@ } else { "MISS"@ },
            ],
    {
        let mut headers: StrMap<String> = StrMap::new();
        headers.insert(String::from_str("Content-Type"), String::from_str("application/json"));
        let hit = if cache_hit {
            String::from_str("HIT")
        } else {
            String::from_str("MISS")
        };
        headers.insert(String::from_str("X-Cache"), hit);
        let h = HttpResponse { status_code: 200, headers, body };
        assert(h.header_text() =~= map![
            "Content-Type"@ => "application/json"@,
            "X-Cache"@ => if cache_hit { "HIT"@ } else { "MISS"@ },
        ]);
        h
    }
}

/// The gateway's route list.
pub open spec fn gateway_routes_text() -> Seq<char> {
    "\n🌐 ZOS Public Gateway Routes:\n\n"@ + "Base URL: https://node1.solfunmeme.com"@ + "\n\nWallet Endpoints:\n  GET  /{wallet}                    → Wallet info and services\n  POST /{wallet}/register           → Register new service\n\nService Endpoints:\n  GET    /{wallet}/{service}        → Call service (GET)\n  POST   /{wallet}/{service}        → Call service (POST)\n  PUT    /{wallet}/{service}        → Call service (PUT)\n  DELETE /{wallet}/{service}        → Call service (DELETE)\n\nPayment Endpoints:\n  "@ + "POST /{wallet}/{service}/swap"@ + "     → Swap tokens\n  "@ + "GET  /{wallet}/{service}/quote"@ + "    → Get swap quote\n  POST /{wallet}/{service}/pay      → Process payment\n\nHeaders:\n  "@ + "X-Payment-Token"@ + ": pay_abc123...    → Payment authorization\n  X-Wallet-Address: 0x123...        → Caller wallet\n  Content-Type: application/json    → Request format\n\nHTTP Status Codes:\n  "@ + "200 OK"@ + "                           → Success\n  "@ + "402 Payment Required"@ + "             → Need payment\n  "@ + "429 Too Many Requests"@ + "            → Rate limited\n  "@ + "404 Not Found"@ + "                    → Service not found\n  "@ + "500 Internal Server Error"@ + "        → Server error\n\nExample Requests:\n\n# Get service quote\ncurl https://node1.solfunmeme.com/0xABC.../ai-service/quote \\\n  -d '{\"from_token\":\"SOLFUNMEME\",\"to_token\":\"USDC\",\"amount\":100}'\n\n# Execute paid service\ncurl https://node1.solfunmeme.com/0xABC.../ai-service \\\n  -H \"X-Payment-Token: pay_xyz789...\" \\\n  -d '{\"prompt\":\"Generate code\"}'\n\n# Swap tokens\ncurl https://node1.solfunmeme.com/0xABC.../ai-service/swap \\\n  -d '{\"from_token\":\"SOLFUNMEME\",\"to_token\":\"USDC\",\"amount\":100,\"slippage_tolerance\":0.5}'\n"@
}

/// The route list names the base address, the swap and quote routes, the
/// payment header, and the statuses 200, 402, 429, 404 and 500.
pub proof fn law_gateway_routes_listed()
    ensures
        text::contains_sub(gateway_routes_text(), "Base URL: https://node1.solfunmeme.com"@),
        text::contains_sub(gateway_routes_text(), "POST /{wallet}/{service}/swap"@),
        text::contains_sub(gateway_routes_text(), "GET  /{wallet}/{service}/quote"@),
        text::contains_sub(gateway_routes_text(), "X-Payment-Token"@),
        text::contains_sub(gateway_routes_text(), "200 OK"@),
        text::contains_sub(gateway_routes_text(), "402 Payment Required"@),
        text::contains_sub(gateway_routes_text(), "429 Too Many Requests"@),
        text::contains_sub(gateway_routes_text(), "404 Not Found"@),
        text::contains_sub(gateway_routes_text(), "500 Internal Server Error"@),
{
    {
        let a = "\n🌐 ZOS Public Gateway Routes:\n\n"@;
        let t = gateway_routes_text();
        assert(t.subrange(a.len() as int, (a.len() + "Base URL: https://node1.solfunmeme.com"@.len()) as int) =~= "Base URL: https://node1.solfunmeme.com"@);
    }
    {
        let a = "\n🌐 ZOS Public Gateway Routes:\n\n"@ + "Base URL: https://node1.solfunmeme.com"@ + "\n\nWallet Endpoints:\n  GET  /{wallet}                    → Wallet info and services\n  POST /{wallet}/register           → Register new service\n\nService Endpoints:\n  GET    /{wallet}/{service}        → Call service (GET)\n  POST   /{wallet}/{service}        → Call service (POST)\n  PUT    /{wallet}/{service}        → Call service (PUT)\n  DELETE /{wallet}/{service}        → Call service (DELETE)\n\nPayment Endpoints:\n  "@;
        let t = gateway_routes_text();
        assert(t.subrange(a.len() as int, (a.len() + "POST /{wallet}/{service}/swap"@.len()) as int) =~= "POST /{wallet}/{service}/swap"@);
    }
    {
        let a = "\n🌐 ZOS Public Gateway Routes:\n\n"@ + "Base URL: https://node1.solfunmeme.com"@ + "\n\nWallet Endpoints:\n  GET  /{wallet}                    → Wallet info and services\n  POST /{wallet}/register           → Register new service\n\nService Endpoints:\n  GET    /{wallet}/{service}        → Call service (GET)\n  POST   /{wallet}/{service}        → Call service (POST)\n  PUT    /{wallet}/{service}        → Call service (PUT)\n  DELETE /{wallet}/{service}        → Call service (DELETE)\n\nPayment Endpoints:\n  "@ + "POST /{wallet}/{service}/swap"@ + "     → Swap tokens\n  "@;
        let t = gateway_routes_text();
        assert(t.subrange(a.len() as int, (a.len() + "GET  /{wallet}/{service}/quote"@.len()) as int) =~= "GET  /{wallet}/{service}/quote"@);
    }
    {
        let a = "\n🌐 ZOS Public Gateway Routes:\n\n"@ + "Base URL: https://node1.solfunmeme.com"@ + "\n\nWallet Endpoints:\n  GET  /{wallet}                    → Wallet info and services\n  POST /{wallet}/register           → Register new service\n\nService Endpoints:\n  GET    /{wallet}/{service}        → Call service (GET)\n  POST   /{wallet}/{service}        → Call service (POST)\n  PUT    /{wallet}/{service}        → Call service (PUT)\n  DELETE /{wallet}/{service}        → Call service (DELETE)\n\nPayment Endpoints:\n  "@ + "POST /{wallet}/{service}/swap"@ + "     → Swap tokens\n  "@ + "GET  /{wallet}/{service}/quote"@ + "    → Get swap quote\n  POST /{wallet}/{service}/pay      → Process payment\n\nHeaders:\n  "@;
        let t = gateway_routes_text();
        assert(t.subrange(a.len() as int, (a.len() + "X-Payment-Token"@.len()) as int) =~= "X-Payment-Token"@);
    }
    {
        let a = "\n🌐 ZOS Public Gateway Routes:\n\n"@ + "Base URL: https://node1.solfunmeme.com"@ + "\n\nWallet Endpoints:\n  GET  /{wallet}                    → Wallet info and services\n  POST /{wallet}/register           → Register new service\n\nService Endpoints:\n  GET    /{wallet}/{service}        → Call service (GET)\n  POST   /{wallet}/{service}        → Call service (POST)\n  PUT    /{wallet}/{service}        → Call service (PUT)\n  DELETE /{wallet}/{service}        → Call service (DELETE)\n\nPayment Endpoints:\n  "@ + "POST /{wallet}/{service}/swap"@ + "     → Swap tokens\n  "@ + "GET  /{wallet}/{service}/quote"@ + "    → Get swap quote\n  POST /{wallet}/{service}/pay      → Process payment\n\nHeaders:\n  "@ + "X-Payment-Token"@ + ": pay_abc123...    → Payment authorization\n  X-Wallet-Address: 0x123...        → Caller wallet\n  Content-Type: application/json    → Request format\n\nHTTP Status Codes:\n  "@;
        let t = gateway_routes_text();
        assert(t.subrange(a.len() as int, (a.len() + "200 OK"@.len()) as int) =~= "200 OK"@);
    }
    {
        let a = "\n🌐 ZOS Public Gateway Routes:\n\n"@ + "Base URL: https://node1.solfunmeme.com"@ + "\n\nWallet Endpoints:\n  GET  /{wallet}                    → Wallet info and services\n  POST /{wallet}/register           → Register new service\n\nService Endpoints:\n  GET    /{wallet}/{service}        → Call service (GET)\n  POST   /{wallet}/{service}        → Call service (POST)\n  PUT    /{wallet}/{service}        → Call service (PUT)\n  DELETE /{wallet}/{service}        → Call service (DELETE)\n\nPayment Endpoints:\n  "@ + "POST /{wallet}/{service}/swap"@ + "     → Swap tokens\n  "@ + "GET  /{wallet}/{service}/quote"@ + "    → Get swap quote\n  POST /{wallet}/{service}/pay      → Process payment\n\nHeaders:\n  "@ + "X-Payment-Token"@ + ": pay_abc123...    → Payment authorization\n  X-Wallet-Address: 0x123...        → Caller wallet\n  Content-Type: application/json    → Request format\n\nHTTP Status Codes:\n  "@ + "200 OK"@ + "                           → Success\n  "@;
        let t = gateway_routes_text();
        assert(t.subrange(a.len() as int, (a.len() + "402 Payment Required"@.len()) as int) =~= "402 Payment Required"@);
    }
    {
        let a = "\n🌐 ZOS Public Gateway Routes:\n\n"@ + "Base URL: https://node1.solfunmeme.com"@ + "\n\nWallet Endpoints:\n  GET  /{wallet}                    → Wallet info and services\n  POST /{wallet}/register           → Register new service\n\nService Endpoints:\n  GET    /{wallet}/{service}        → Call service (GET)\n  POST   /{wallet}/{service}        → Call service (POST)\n  PUT    /{wallet}/{service}        → Call service (PUT)\n  DELETE /{wallet}/{service}        → Call service (DELETE)\n\nPayment Endpoints:\n  "@ + "POST /{wallet}/{service}/swap"@ + "     → Swap tokens\n  "@ + "GET  /{wallet}/{service}/quote"@ + "    → Get swap quote\n  POST /{wallet}/{service}/pay      → Process payment\n\nHeaders:\n  "@ + "X-Payment-Token"@ + ": pay_abc123...    → Payment authorization\n  X-Wallet-Address: 0x123...        → Caller wallet\n  Content-Type: application/json    → Request format\n\nHTTP Status Codes:\n  "@ + "200 OK"@ + "                           → Success\n  "@ + "402 Payment Required"@ + "             → Need payment\n  "@;
        let t = gateway_routes_text();
        assert(t.subrange(a.len() as int, (a.len() + "429 Too Many Requests"@.len()) as int) =~= "429 Too Many Requests"@);
    }
    {
        let a = "\n🌐 ZOS Public Gateway Routes:\n\n"@ + "Base URL: https://node1.solfunmeme.com"@ + "\n\nWallet Endpoints:\n  GET  /{wallet}                    → Wallet info and services\n  POST /{wallet}/register           → Register new service\n\nService Endpoints:\n  GET    /{wallet}/{service}        → Call service (GET)\n  POST   /{wallet}/{service}        → Call service (POST)\n  PUT    /{wallet}/{service}        → Call service (PUT)\n  DELETE /{wallet}/{service}        → Call service (DELETE)\n\nPayment Endpoints:\n  "@ + "POST /{wallet}/{service}/swap"@ + "     → Swap tokens\n  "@ + "GET  /{wallet}/{service}/quote"@ + "    → Get swap quote\n  POST /{wallet}/{service}/pay      → Process payment\n\nHeaders:\n  "@ + "X-Payment-Token"@ + ": pay_abc123...    → Payment authorization\n  X-Wallet-Address: 0x123...        → Caller wallet\n  Content-Type: application/json    → Request format\n\nHTTP Status Codes:\n  "@ + "200 OK"@ + "                           → Success\n  "@ + "402 Payment Required"@ + "             → Need payment\n  "@ + "429 Too Many Requests"@ + "            → Rate limited\n  "@;
        let t = gateway_routes_text();
        assert(t.subrange(a.len() as int, (a.len() + "404 Not Found"@.len()) as int) =~= "404 Not Found"@);
    }
    {
        let a = "\n🌐 ZOS Public Gateway Routes:\n\n"@ + "Base URL: https://node1.solfunmeme.com"@ + "\n\nWallet Endpoints:\n  GET  /{wallet}                    → Wallet info and services\n  POST /{wallet}/register           → Register new service\n\nService Endpoints:\n  GET    /{wallet}/{service}        → Call service (GET)\n  POST   /{wallet}/{service}        → Call service (POST)\n  PUT    /{wallet}/{service}        → Call service (PUT)\n  DELETE /{wallet}/{service}        → Call service (DELETE)\n\nPayment Endpoints:\n  "@ + "POST /{wallet}/{service}/swap"@ + "     → Swap tokens\n  "@ + "GET  /{wallet}/{service}/quote"@ + "    → Get swap quote\n  POST /{wallet}/{service}/pay      → Process payment\n\nHeaders:\n  "@ + "X-Payment-Token"@ + ": pay_abc123...    → Payment authorization\n  X-Wallet-Address: 0x123...        → Caller wallet\n  Content-Type: application/json    → Request format\n\nHTTP Status Codes:\n  "@ + "200 OK"@ + "                           → Success\n  "@ + "402 Payment Required"@ + "             → Need payment\n  "@ + "429 Too Many Requests"@ + "            → Rate limited\n  "@ + "404 Not Found"@ + "                    → Service not found\n  "@;
        let t = gateway_routes_text();
        assert(t.subrange(a.len() as int, (a.len() + "500 Internal Server Error"@.len()) as int) =~= "500 Internal Server Error"@);
    }
}

/// Lists the gateway's routes, headers and status codes, with examples.
pub fn create_gateway_routes() -> (r: String)
    ensures
        r@ == gateway_routes_text(),
{
    let mut r = String::new();
    r.append("\n🌐 ZOS Public Gateway Routes:\n\n");
    r.append("Base URL: https://node1.solfunmeme.com");
    r.append("\n\nWallet Endpoints:\n  GET  /{wallet}                    → Wallet info and services\n  POST /{wallet}/register           → Register new service\n\nService Endpoints:\n  GET    /{wallet}/{service}        → Call service (GET)\n  POST   /{wallet}/{service}        → Call service (POST)\n  PUT    /{wallet}/{service}        → Call service (PUT)\n  DELETE /{wallet}/{service}        → Call service (DELETE)\n\nPayment Endpoints:\n  ");
    r.append("POST /{wallet}/{service}/swap");
    r.append("     → Swap tokens\n  ");
    r.append("GET  /{wallet}/{service}/quote");
    r.append("    → Get swap quote\n  POST /{wallet}/{service}/pay      → Process payment\n\nHeaders:\n  ");
    r.append("X-Payment-Token");
    r.append(": pay_abc123...    → Payment authorization\n  X-Wallet-Address: 0x123...        → Caller wallet\n  Content-Type: application/json    → Request format\n\nHTTP Status Codes:\n  ");
    r.append("200 OK");
    r.append("                           → Success\n  ");
    r.append("402 Payment Required");
    r.append("             → Need payment\n  ");
    r.append("429 Too Many Requests");
    r.append("            → Rate limited\n  ");
    r.append("404 Not Found");
    r.append("                    → Service not found\n  ");
    r.append("500 Internal Server Error");
    r.append("        → Server error\n\nExample Requests:\n\n# Get service quote\ncurl https://node1.solfunmeme.com/0xABC.../ai-service/quote \\\n  -d '{\"from_token\":\"SOLFUNMEME\",\"to_token\":\"USDC\",\"amount\":100}'\n\n# Execute paid service\ncurl https://node1.solfunmeme.com/0xABC.../ai-service \\\n  -H \"X-Payment-Token: pay_xyz789...\" \\\n  -d '{\"prompt\":\"Generate code\"}'\n\n# Swap tokens\ncurl https://node1.solfunmeme.com/0xABC.../ai-service/swap \\\n  -d '{\"from_token\":\"SOLFUNMEME\",\"to_token\":\"USDC\",\"amount\":100,\"slippage_tolerance\":0.5}'\n");
    r
}

/// A request budget: so many requests a minute and so many an hour.
#[derive(Debug, Clone, Copy, PartialEq, Eq, Structural)]
pub struct RateLimit {
    pub requests_per_minute: u32,
    pub requests_per_hour: u32,
}

/// A wallet's public endpoint: the ports it holds, the services it offers
/// (by name), how it can be paid and its own request budget.
pub struct WalletEndpoint {
    pub wallet_address: String,
    pub user_id: String,
    pub allocated_ports: Vec<u16>,
    pub services: StrMap<ServiceConfig>,
    pub payment_methods: Vec<PaymentMethod>,
    pub rate_limits: RateLimit,
    pub custom_domain: Option<String>,
}

/// A service as the gateway's registry lists it, under
/// `service_key_of(wallet, service)`.
pub struct ServiceEndpoint {
    pub service_name: String,
    pub wallet_address: String,
    pub libp2p_port: u16,
    pub http_path: String,
    pub pricing_tier: PricingTier,
    pub payment_required: bool,
    pub cors_enabled: bool,
    pub auth_required: bool,
}

/// The tokens the gateway takes.
pub struct PaymentProcessor {
    pub supported_tokens: Vec<TokenConfig>,
}

/// Request budgets (a global one and, where set, one per wallet) and every
/// wallet's counters.
pub struct RateLimiter {
    pub global_limits: RateLimit,
    pub per_wallet_limits: StrMap<RateLimit>,
    pub current_usage: RateLimitCounters,
}

/// The public gateway: wallet endpoints, the service registry, accepted
/// tokens, the peer bridge and the rate limiter.
pub struct PublicGateway {
    pub domain: String,
    pub wallet_endpoints: StrMap<WalletEndpoint>,
    pub service_registry: StrMap<ServiceEndpoint>,
    pub payment_processor: PaymentProcessor,
    pub libp2p_bridge: LibP2PBridge,
    pub rate_limiter: RateLimiter,
    pub commission_system: Option<CommissionSystem>,
}

/// A referral: who brought whom, through which link, and since when.
pub struct ReferralRecord {
    pub referrer_wallet: String,
    pub referee_wallet: String,
    pub referral_code: String,
    pub first_transaction_at: u64,
    pub status: ReferralStatus,
}

/// A wallet's standing as a referrer: how many it brought, its tier, and
/// when it was last credited. (Its amounts are floating point and kept by
/// the caller.)
pub struct EarningsAccount {
    pub wallet_address: String,
    pub referral_count: u32,
    pub tier: EarningsTier,
    pub last_payout: u64,
}

/// Referral links, the referrals made through them (keyed
/// `referrer_referee`) and the referrers' accounts.
pub struct CommissionSystem {
    pub referral_tracking: StrMap<ReferralRecord>,
    pub earnings_ledger: StrMap<EarningsAccount>,
    pub referral_links: StrMap<ReferralLink>,
}

/// What the gateway makes of a request: a reply, or a swap or quote of a
/// wallet's service, which is priced elsewhere.
pub enum GatewayReply {
    Response(HttpResponse),
    Swap(String, String),
    Quote(String, String),
}

/// The budget that applies to a wallet: its own where one is set, else the
/// global one.
pub open spec fn limits_of(per_wallet: Map<Seq<char>, RateLimit>, global: RateLimit, wallet: Seq<char>) -> RateLimit {
    if per_wallet.contains_key(wallet) {
        per_wallet[wallet]
    } else {
        global
    }
}

impl RateLimiter {
    /// The budget of `wallet`.
    pub fn limits_for(&self, wallet: &str) -> (l: RateLimit)
        requires
            self.per_wallet_limits.wf(),
        ensures
            l == limits_of(self.per_wallet_limits@, self.global_limits, wallet@),
    {
        match self.per_wallet_limits.get(wallet) {
            Some(l) => *l,
            None => self.global_limits,
        }
    }
}

/// The refusal of a request for a wallet that registered no endpoint.
pub open spec fn wallet_not_found_error() -> Seq<char> {
    "Wallet endpoint not found"@
}

/// The refusal of a call of an unregistered service.
pub open spec fn service_not_found_error() -> Seq<char> {
    "Service not found"@
}

/// The refusal of a paid call without a payment token.
pub open spec fn payment_required_error() -> Seq<char> {
    "Payment required. Include X-Payment-Token header"@
}

/// The refusal of a paid call whose token has the wrong shape.
pub open spec fn invalid_token_error() -> Seq<char> {
    "Invalid payment token"@
}

/// The header that carries a payment token.
pub open spec fn payment_header() -> Seq<char> {
    "X-Payment-Token"@
}

/// The compact JSON that a forwarded call answers, keys in sorted order:
/// the method, the service's port, a fixed response text, the service's
/// name and the time of the call.
pub open spec fn forwarded_json(service: Seq<char>, port: u16, method: Seq<char>, stamp: Seq<char>) -> Seq<char> {
    "{\"method\":"@ + sync::json_quoted(method) + ",\"port\":"@ + text::decimal(port as nat)
        + ",\"response\":\"Service response from libp2p\",\"service\":"@ + sync::json_quoted(service)
        + ",\"timestamp\":"@ + sync::json_quoted(stamp) + "}"@
}

/// What a call of a wallet's service answers once the rate limiter let it
/// through: an unregistered service is refused with status 404, a paid one
/// without a token of the right shape with 402 (Payment Required);
/// otherwise the call is forwarded and its JSON comes back.
pub open spec fn service_answer(
    registry: Map<Seq<char>, ServiceEndpoint>,
    headers: Map<Seq<char>, Seq<char>>,
    wallet: Seq<char>,
    service: Seq<char>,
    method: Seq<char>,
    stamp: Seq<char>,
) -> Result<Seq<char>, (u16, Seq<char>)> {
    let key = service_key_of(wallet, service);
    if !registry.contains_key(key) {
        Err((404, service_not_found_error()))
    } else if registry[key].payment_required && !headers.contains_key(payment_header()) {
        Err((402, payment_required_error()))
    } else if registry[key].payment_required && !payment_token_ok(headers[payment_header()]) {
        Err((402, invalid_token_error()))
    } else {
        Ok(forwarded_json(registry[key].service_name@, registry[key].libp2p_port, method, stamp))
    }
}

/// The JSON body of a refused call: an object whose `error` is the reason.
pub open spec fn error_json(message: Seq<char>) -> Seq<char> {
    "{\"error\":"@ + sync::json_quoted(message) + "}"@
}

/// A reply with the given status whose JSON body gives `message` as the
/// reason, open to every origin.
pub open spec fn is_error_reply(h: HttpResponse, status: u16, message: Seq<char>) -> bool {
    &&& h.status_code == status
    &&& h.body@ == vstd::utf8::encode_utf8(error_json(message))
    &&& h.headers.wf()
    &&& h.header_text() == map!["Content-Type"@ => "application/json"@, "Access-Control-Allow-Origin"@ => "*"@]
}

/// The texts of a string-valued map.
pub open spec fn text_map(m: &StrMap<String>) -> Map<Seq<char>, Seq<char>> {
    m@.map_values(|s: String| s@)
}

/// The counters of the wallet a path addresses were not reset after `now`.
pub open spec fn clock_not_behind(usage: Map<Seq<char>, UsageCounters>, path: Seq<char>, now: u64) -> bool {
    match route_of(path) {
        Ok(RouteView::Service(w, _)) => usage.contains_key(w) ==> usage[w].last_reset <= now,
        _ => true,
    }
}

/// Builds `forwarded_json` with the time of the call in RFC 3339.
fn forwarded_body(service: &str, port: u16, method: &str, secs: i64, nanos: u32) -> (r: String)
    ensures
        r@ == forwarded_json(service@, port, method@, timeline::rfc3339_text(secs, nanos)),
{
    let mut r = String::from_str("{\"method\":");
    r.append(sync::json_quote(method).as_str());
    r.append(",\"port\":");
    r.append(text::decimal_string(port as u64).as_str());
    r.append(",\"response\":\"Service response from libp2p\",\"service\":");
    r.append(sync::json_quote(service).as_str());
    r.append(",\"timestamp\":");
    let stamp = timeline::format_rfc3339(secs, nanos);
    r.append(sync::json_quote(stamp.as_str()).as_str());
    r.append("}");
    r
}

impl PublicGateway {
    /// The gateway's maps hold no key twice, and so does each endpoint's
    /// service list.
    pub open spec fn wf(&self) -> bool {
        &&& self.wallet_endpoints.wf()
        &&& self.service_registry.wf()
        &&& self.rate_limiter.per_wallet_limits.wf()
        &&& self.rate_limiter.current_usage.current_usage.wf()
        &&& forall|w: Seq<char>| #[trigger] self.wallet_endpoints@.contains_key(w)
            ==> self.wallet_endpoints@[w].services.wf()
        &&& match self.commission_system {
            Some(c) => c.wf(),
            None => true,
        }
    }

    /// A gateway on `domain` with no endpoints and no services, taking the
    /// default tokens, allowing 1000 requests a minute and 10000 an hour to
    /// a wallet without a budget of its own.
    pub fn new(domain: &str) -> (g: Self)
        ensures
            g.wf(),
            g.domain@ == domain@,
            g.wallet_endpoints@ == Map::<Seq<char>, WalletEndpoint>::empty(),
            g.service_registry@ == Map::<Seq<char>, ServiceEndpoint>::empty(),
            is_default_token_list(g.payment_processor.supported_tokens@),
            g.libp2p_bridge.peer_connections@ == Map::<Seq<char>, PeerConnection>::empty(),
            g.libp2p_bridge.protocol_handlers@ == Map::<Seq<char>, ProtocolHandler>::empty(),
            g.libp2p_bridge.connection_pool.max_connections == 1000,
            g.libp2p_bridge.connection_pool.active_connections == 0,
            g.libp2p_bridge.connection_pool.connection_timeout == 30000,
            g.rate_limiter.global_limits == (RateLimit { requests_per_minute: 1000, requests_per_hour: 10000 }),
            g.rate_limiter.per_wallet_limits@ == Map::<Seq<char>, RateLimit>::empty(),
            g.rate_limiter.current_usage.current_usage@ == Map::<Seq<char>, UsageCounters>::empty(),
            g.commission_system is None,
    {
        PublicGateway {
            domain: String::from_str(domain),
            wallet_endpoints: StrMap::new(),
            service_registry: StrMap::new(),
            payment_processor: PaymentProcessor { supported_tokens: default_tokens() },
            libp2p_bridge: LibP2PBridge::new(),
            rate_limiter: RateLimiter {
                global_limits: RateLimit { requests_per_minute: 1000, requests_per_hour: 10000 },
                per_wallet_limits: StrMap::new(),
                current_usage: RateLimitCounters::new(),
            },
            commission_system: None,
        }
    }

    /// Registers (or replaces) the endpoint of `wallet_address` with the
    /// given ports, no services, payment in USDC or SOLFUNMEME and a budget
    /// of 100 requests a minute and 1000 an hour; answers its public URL.
    pub fn register_wallet_endpoint(&mut self, wallet_address: &str, user_id: &str, allocated_ports: Vec<u16>) -> (r:
        Result<String, String>)
        requires
            old(self).wf(),
        ensures
            final(self).wf(),
            r is Ok,
            r->Ok_0@ == wallet_url_of(old(self).domain@, wallet_address@),
            final(self).wallet_endpoints@.contains_key(wallet_address@),
            final(self).wallet_endpoints@.remove(wallet_address@) == old(self).wallet_endpoints@.remove(wallet_address@),
            final(self).wallet_endpoints@[wallet_address@].wallet_address@ == wallet_address@,
            final(self).wallet_endpoints@[wallet_address@].user_id@ == user_id@,
            final(self).wallet_endpoints@[wallet_address@].allocated_ports@ == allocated_ports@,
            final(self).wallet_endpoints@[wallet_address@].services@ == Map::<Seq<char>, ServiceConfig>::empty(),
            final(self).wallet_endpoints@[wallet_address@].payment_methods@ == seq![
                PaymentMethod::USDC,
                PaymentMethod::SOLFUNMEME,
            ],
            final(self).wallet_endpoints@[wallet_address@].rate_limits == (RateLimit {
                requests_per_minute: 100,
                requests_per_hour: 1000,
            }),
            final(self).wallet_endpoints@[wallet_address@].custom_domain is None,
            final(self).domain == old(self).domain,
            final(self).service_registry == old(self).service_registry,
            final(self).payment_processor == old(self).payment_processor,
            final(self).libp2p_bridge == old(self).libp2p_bridge,
            final(self).rate_limiter == old(self).rate_limiter,
            final(self).commission_system == old(self).commission_system,
    {
        let mut payment_methods: Vec<PaymentMethod> = Vec::new();
        payment_methods.push(PaymentMethod::USDC);
        payment_methods.push(PaymentMethod::SOLFUNMEME);
        let endpoint = WalletEndpoint {
            wallet_address: String::from_str(wallet_address),
            user_id: String::from_str(user_id),
            allocated_ports,
            services: StrMap::new(),
            payment_methods,
            rate_limits: RateLimit { requests_per_minute: 100, requests_per_hour: 1000 },
            custom_domain: None,
        };
        let ghost before = self.wallet_endpoints@;
        self.wallet_endpoints.insert(String::from_str(wallet_address), endpoint);
        assert(self.wallet_endpoints@.remove(wallet_address@) =~= before.remove(wallet_address@));
        assert forall|w: Seq<char>| #[trigger] self.wallet_endpoints@.contains_key(w) implies self.wallet_endpoints@[
            w].services.wf() by {
            if w != wallet_address@ {
                assert(before.contains_key(w));
            }
        }
        Ok(wallet_url(self.domain.as_str(), wallet_address))
    }

    /// Adds a service on one of the wallet's ports, priced by `pricing_tier`:
    /// its record goes into the wallet's service list under its name and
    /// into the registry under `service_key_of`; answers the service's
    /// public URL. Fails, changing nothing, where the wallet has no endpoint
    /// or does not hold the port.
    pub fn add_service(&mut self, wallet_address: &str, service_name: &str, libp2p_port: u16, pricing_tier: PricingTier) -> (r:
        Result<String, String>)
        requires
            old(self).wf(),
        ensures
            final(self).wf(),
            !old(self).wallet_endpoints@.contains_key(wallet_address@) ==> r is Err && r->Err_0@
                == wallet_not_found_error() && *final(self) == *old(self),
            old(self).wallet_endpoints@.contains_key(wallet_address@) && !old(self).wallet_endpoints@[wallet_address@].allocated_ports@.contains(
                libp2p_port,
            ) ==> r is Err && r->Err_0@ == port_not_allocated_error() && *final(self) == *old(self),
            old(self).wallet_endpoints@.contains_key(wallet_address@) && old(self).wallet_endpoints@[wallet_address@].allocated_ports@.contains(
                libp2p_port,
            ) ==> {
                let old_ep = old(self).wallet_endpoints@[wallet_address@];
                let ep = final(self).wallet_endpoints@[wallet_address@];
                let key = service_key_of(wallet_address@, service_name@);
                let cfg = ep.services@[service_name@];
                let svc = final(self).service_registry@[key];
                &&& r is Ok
                &&& r->Ok_0@ == service_url_of(old(self).domain@, wallet_address@, service_name@)
                &&& final(self).wallet_endpoints@.contains_key(wallet_address@)
                &&& final(self).wallet_endpoints@.remove(wallet_address@) == old(self).wallet_endpoints@.remove(
                    wallet_address@,
                )
                &&& ep.wallet_address == old_ep.wallet_address
                &&& ep.user_id == old_ep.user_id
                &&& ep.allocated_ports == old_ep.allocated_ports
                &&& ep.payment_methods == old_ep.payment_methods
                &&& ep.rate_limits == old_ep.rate_limits
                &&& ep.custom_domain == old_ep.custom_domain
                &&& ep.services@.contains_key(service_name@)
                &&& ep.services@.remove(service_name@) == old_ep.services@.remove(service_name@)
                &&& cfg.service_name@ == service_name@
                &&& cfg.port == libp2p_port
                &&& cfg.pricing_tier == pricing_tier
                &&& cfg.payment_required == (pricing_tier != PricingTier::Free)
                &&& cfg.description@ == service_description(service_name@, libp2p_port)
                &&& cfg.api_spec is None
                &&& final(self).service_registry@.contains_key(key)
                &&& final(self).service_registry@.remove(key) == old(self).service_registry@.remove(key)
                &&& svc.service_name@ == service_name@
                &&& svc.wallet_address@ == wallet_address@
                &&& svc.libp2p_port == libp2p_port
                &&& svc.http_path@ == http_path_of(wallet_address@, service_name@)
                &&& svc.pricing_tier == pricing_tier
                &&& svc.payment_required == (pricing_tier != PricingTier::Free)
                &&& svc.cors_enabled
                &&& !svc.auth_required
                &&& final(self).domain == old(self).domain
                &&& final(self).payment_processor == old(self).payment_processor
                &&& final(self).libp2p_bridge == old(self).libp2p_bridge
                &&& final(self).rate_limiter == old(self).rate_limiter
                &&& final(self).commission_system == old(self).commission_system
            },
    {
        match self.wallet_endpoints.get(wallet_address) {
            None => {
                return Err(String::from_str("Wallet endpoint not found"));
            },
            Some(ep) => {
                if let Err(e) = check_service_port(&ep.allocated_ports, libp2p_port) {
                    return Err(e);
                }
            },
        }
        let ghost before = self.wallet_endpoints@;
        let mut ep = match self.wallet_endpoints.remove(wallet_address) {
            Some(e) => e,
            None => {
                return Err(String::from_str("Wallet endpoint not found"));
            },
        };
        let ghost old_services = ep.services@;
        let config = ServiceConfig::for_service(service_name, libp2p_port, pricing_tier);
        let payment_required = config.payment_required;
        ep.services.insert(String::from_str(service_name), config);
        assert(ep.services@.remove(service_name@) =~= old_services.remove(service_name@));
        self.wallet_endpoints.insert(String::from_str(wallet_address), ep);
        assert(self.wallet_endpoints@.remove(wallet_address@) =~= before.remove(wallet_address@));
        assert forall|w: Seq<char>| #[trigger] self.wallet_endpoints@.contains_key(w) implies self.wallet_endpoints@[
            w].services.wf() by {
            if w != wallet_address@ {
                assert(before.contains_key(w));
            }
        }
        let endpoint = ServiceEndpoint {
            service_name: String::from_str(service_name),
            wallet_address: String::from_str(wallet_address),
            libp2p_port,
            http_path: http_path(wallet_address, service_name),
            pricing_tier,
            payment_required,
            cors_enabled: true,
            auth_required: false,
        };
        let key = service_key(wallet_address, service_name);
        let ghost registry_before = self.service_registry@;
        self.service_registry.insert(key, endpoint);
        assert(self.service_registry@.remove(service_key_of(wallet_address@, service_name@)) =~= registry_before.remove(
            service_key_of(wallet_address@, service_name@),
        ));
        Ok(service_url(self.domain.as_str(), wallet_address, service_name))
    }

    /// Whether the counters of the wallet that `path` addresses were not
    /// reset after `now_secs`, as `handle_http_request` needs.
    pub fn clock_fits(&self, path: &str, now_secs: i64) -> (b: bool)
        requires
            self.wf(),
        ensures
            b == clock_not_behind(self.rate_limiter.current_usage.current_usage@, path@, now_secs as u64),
    {
        match route_request(path) {
            Ok(GatewayRoute::Service(w, _)) => match self.rate_limiter.current_usage.current_usage.get(w.as_str()) {
                Some(u) => u.last_reset <= now_secs as u64,
                None => true,
            },
            _ => true,
        }
    }

    /// Answers an HTTP request at `now_secs` seconds and `now_nanos`
    /// nanoseconds after the epoch. A path with fewer than two segments is
    /// refused; a swap or quote path is handed back for pricing; any other
    /// path calls a service: the wallet's request is counted (its own budget,
    /// else the global one; a refusal, answered with status 429 (Too Many
    /// Requests), still keeps the counter resets), then `service_answer`
    /// decides: a refusal comes back with its status (404 or 402), the
    /// forwarded JSON in a 200 reply; every reply is open to every origin.
    /// Only the counters ever change.
    pub fn handle_http_request(
        &mut self,
        path: &str,
        method: &str,
        headers: &StrMap<String>,
        now_secs: i64,
        now_nanos: u32,
    ) -> (r: Result<GatewayReply, String>)
        requires
            old(self).wf(),
            headers.wf(),
            clock_not_behind(old(self).rate_limiter.current_usage.current_usage@, path@, now_secs as u64),
        ensures
            final(self).wf(),
            final(self).domain == old(self).domain,
            final(self).wallet_endpoints == old(self).wallet_endpoints,
            final(self).service_registry == old(self).service_registry,
            final(self).payment_processor == old(self).payment_processor,
            final(self).libp2p_bridge == old(self).libp2p_bridge,
            final(self).rate_limiter.global_limits == old(self).rate_limiter.global_limits,
            final(self).rate_limiter.per_wallet_limits == old(self).rate_limiter.per_wallet_limits,
            final(self).commission_system == old(self).commission_system,
            match route_of(path@) {
                Err(e) => r is Err && r->Err_0@ == e && *final(self) == *old(self),
                Ok(RouteView::Swap(w, s)) => r matches Ok(GatewayReply::Swap(rw, rs)) && rw@ == w && rs@ == s
                    && *final(self) == *old(self),
                Ok(RouteView::Quote(w, s)) => r matches Ok(GatewayReply::Quote(rw, rs)) && rw@ == w && rs@ == s
                    && *final(self) == *old(self),
                Ok(RouteView::Service(w, s)) => {
                    let usage = old(self).rate_limiter.current_usage.current_usage@;
                    let lim = limits_of(old(self).rate_limiter.per_wallet_limits@, old(self).rate_limiter.global_limits, w);
                    let adm = admission(
                        counters_or_fresh(usage, w, now_secs as u64),
                        now_secs as u64,
                        lim.requests_per_minute,
                        lim.requests_per_hour,
                    );
                    let answer = service_answer(
                        old(self).service_registry@,
                        text_map(headers),
                        w,
                        s,
                        method@,
                        timeline::rfc3339_text(now_secs, now_nanos),
                    );
                    &&& final(self).rate_limiter.current_usage.current_usage@ == usage.insert(w, adm.0)
                    &&& match adm.1 {
                        Err(e) => r matches Ok(GatewayReply::Response(h)) && is_error_reply(h, 429, e),
                        Ok(()) => match answer {
                            Err((status, e)) => r matches Ok(GatewayReply::Response(h)) && is_error_reply(h, status, e),
                            Ok(body) => r matches Ok(GatewayReply::Response(h)) && h.status_code == 200
                                && h.body@ == vstd::utf8::encode_utf8(body) && h.headers.wf() && h.header_text() == map![
                                "Content-Type"@ => "application/json"@,
                                "Access-Control-Allow-Origin"@ => "*"@,
                            ],
                        },
                    }
                },
            },
    {
        let route = route_request(path);
        let (wallet, service) = match route {
            Err(e) => {
                return Err(e);
            },
            Ok(GatewayRoute::Swap(w, s)) => {
                return Ok(GatewayReply::Swap(w, s));
            },
            Ok(GatewayRoute::Quote(w, s)) => {
                return Ok(GatewayReply::Quote(w, s));
            },
            Ok(GatewayRoute::Service(w, s)) => (w, s),
        };
        let limits = self.rate_limiter.limits_for(wallet.as_str());
        let now = now_secs as u64;
        let admitted = self.rate_limiter.current_usage.check(
            wallet.as_str(),
            now,
            limits.requests_per_minute,
            limits.requests_per_hour,
        );
        if let Err(e) = admitted {
            return Ok(GatewayReply::Response(HttpResponse::error_reply(429, e.as_str())));
        }
        let key = service_key(wallet.as_str(), service.as_str());
        let svc = match self.service_registry.get(key.as_str()) {
            None => {
                return Ok(GatewayReply::Response(HttpResponse::error_reply(404, "Service not found")));
            },
            Some(svc) => svc,
        };
        if svc.payment_required {
            match headers.get("X-Payment-Token") {
                None => {
                    return Ok(
                        GatewayReply::Response(
                            HttpResponse::error_reply(402, "Payment required. Include X-Payment-Token header"),
                        ),
                    );
                },
                Some(token) => {
                    if !payment_token_valid(token.as_str()) {
                        return Ok(GatewayReply::Response(HttpResponse::error_reply(402, "Invalid payment token")));
                    }
                },
            }
        }
        let body = forwarded_body(svc.service_name.as_str(), svc.libp2p_port, method, now_secs, now_nanos);
        Ok(GatewayReply::Response(HttpResponse::service_reply(sync::utf8_bytes(body.as_str()))))
    }
}

/// The refusal where no commission system was set up.
pub open spec fn no_commission_system_error() -> Seq<char> {
    "Commission system not initialized"@
}

/// The refusal of a referral code that no link has.
pub open spec fn invalid_referral_code_error() -> Seq<char> {
    "Invalid referral code"@
}

/// The key under which the referral of `referee` by `referrer` is tracked.
pub open spec fn referral_key_of(referrer: Seq<char>, referee: Seq<char>) -> Seq<char> {
    referrer + "_"@ + referee
}

/// How many referrals a wallet's account counts (none without an account).
pub open spec fn referral_count_of(ledger: Map<Seq<char>, EarningsAccount>, wallet: Seq<char>) -> nat {
    if ledger.contains_key(wallet) {
        ledger[wallet].referral_count as nat
    } else {
        0
    }
}

/// The characters of an outcome.
pub open spec fn outcome_view(r: Result<(), String>) -> Result<(), Seq<char>> {
    match r {
        Ok(()) => Ok(()),
        Err(e) => Err(e@),
    }
}

/// What following the referral link `code` by `referee` at `now` makes of
/// the system `c0` (giving `c1` and the outcome `r`): an unknown code is
/// refused and nothing changes; otherwise the link counts a click, and the
/// first time the referrer brings this referee the referral is recorded as
/// active, the link counts a conversion, and the referrer's account (opened
/// where it had none) counts one more referral, takes the tier of its new
/// count and is credited at `now`.
pub open spec fn referral_tracked(
    c0: CommissionSystem,
    c1: CommissionSystem,
    code: Seq<char>,
    referee: Seq<char>,
    now: i64,
    r: Result<(), Seq<char>>,
) -> bool {
    if !c0.referral_links@.contains_key(code) {
        r == Err::<(), Seq<char>>(invalid_referral_code_error()) && c1 == c0
    } else {
        let link0 = c0.referral_links@[code];
        let link1 = c1.referral_links@[code];
        let referrer = link0.referrer_wallet@;
        let key = referral_key_of(referrer, referee);
        let fresh = !c0.referral_tracking@.contains_key(key);
        &&& r == Ok::<(), Seq<char>>(())
        &&& c1.referral_links@.contains_key(code)
        &&& c1.referral_links@.remove(code) == c0.referral_links@.remove(code)
        &&& link1.link_id == link0.link_id
        &&& link1.referrer_wallet == link0.referrer_wallet
        &&& link1.service_endpoint == link0.service_endpoint
        &&& link1.custom_params == link0.custom_params
        &&& link1.created_at == link0.created_at
        &&& link1.click_count == link0.click_count + 1
        &&& link1.conversion_count == link0.conversion_count + if fresh {
            1int
        } else {
            0int
        }
        &&& if fresh {
            let rec = c1.referral_tracking@[key];
            let acct = c1.earnings_ledger@[referrer];
            let count = referral_count_of(c0.earnings_ledger@, referrer) + 1;
            &&& c1.referral_tracking@.contains_key(key)
            &&& c1.referral_tracking@.remove(key) == c0.referral_tracking@.remove(key)
            &&& rec.referrer_wallet@ == referrer
            &&& rec.referee_wallet@ == referee
            &&& rec.referral_code@ == code
            &&& rec.first_transaction_at == now as u64
            &&& rec.status == ReferralStatus::Active
            &&& c1.earnings_ledger@.contains_key(referrer)
            &&& c1.earnings_ledger@.remove(referrer) == c0.earnings_ledger@.remove(referrer)
            &&& acct.wallet_address@ == if c0.earnings_ledger@.contains_key(referrer) {
                c0.earnings_ledger@[referrer].wallet_address@
            } else {
                referrer
            }
            &&& acct.referral_count == count
            &&& acct.tier == tier_for(count as u32)
            &&& acct.last_payout == now as u64
        } else {
            c1.referral_tracking == c0.referral_tracking && c1.earnings_ledger == c0.earnings_ledger
        }
    }
}

impl CommissionSystem {
    /// No map holds a key twice.
    pub open spec fn wf(&self) -> bool {
        &&& self.referral_tracking.wf()
        &&& self.earnings_ledger.wf()
        &&& self.referral_links.wf()
    }

    /// Following `code` by `referee` stays within the counters' range, and
    /// where it is a first referral both wallets are at least 8 bytes long,
    /// cut at a character boundary (the referral is announced by the first 8
    /// bytes of each).
    pub open spec fn can_track(&self, code: Seq<char>, referee: Seq<char>) -> bool {
        self.referral_links@.contains_key(code) ==> {
            let link = self.referral_links@[code];
            let key = referral_key_of(link.referrer_wallet@, referee);
            &&& link.click_count < u32::MAX
            &&& !self.referral_tracking@.contains_key(key) ==> {
                &&& link.conversion_count < u32::MAX
                &&& referral_count_of(self.earnings_ledger@, link.referrer_wallet@) < u32::MAX
                &&& text::byte_prefix(link.referrer_wallet@, 8) is Some
                &&& text::byte_prefix(referee, 8) is Some
            }
        }
    }

    /// No links, referrals or accounts.
    pub fn new() -> (c: Self)
        ensures
            c.wf(),
            c.referral_tracking@ == Map::<Seq<char>, ReferralRecord>::empty(),
            c.earnings_ledger@ == Map::<Seq<char>, EarningsAccount>::empty(),
            c.referral_links@ == Map::<Seq<char>, ReferralLink>::empty(),
    {
        CommissionSystem {
            referral_tracking: StrMap::new(),
            earnings_ledger: StrMap::new(),
            referral_links: StrMap::new(),
        }
    }

    /// Credits `wallet`'s account at `now`, opening it (no referrals, bronze)
    /// where it has none; a referral bonus also counts one more referral and
    /// moves the account to the tier of its new count.
    pub fn credit_account(&mut self, wallet: &str, referral_bonus: bool, now: i64)
        requires
            old(self).wf(),
            referral_bonus ==> referral_count_of(old(self).earnings_ledger@, wallet@) < u32::MAX,
        ensures
            final(self).wf(),
            final(self).referral_tracking == old(self).referral_tracking,
            final(self).referral_links == old(self).referral_links,
            final(self).earnings_ledger@.contains_key(wallet@),
            final(self).earnings_ledger@.remove(wallet@) == old(self).earnings_ledger@.remove(wallet@),
            ({
                let acct = final(self).earnings_ledger@[wallet@];
                let before = referral_count_of(old(self).earnings_ledger@, wallet@);
                &&& acct.wallet_address@ == if old(self).earnings_ledger@.contains_key(wallet@) {
                    old(self).earnings_ledger@[wallet@].wallet_address@
                } else {
                    wallet@
                }
                &&& acct.referral_count == if referral_bonus { before + 1 } else { before }
                &&& acct.tier == if referral_bonus {
                    tier_for((before + 1) as u32)
                } else if old(self).earnings_ledger@.contains_key(wallet@) {
                    old(self).earnings_ledger@[wallet@].tier
                } else {
                    EarningsTier::Bronze
                }
                &&& acct.last_payout == now as u64
            }),
    {
        let ghost ledger0 = self.earnings_ledger@;
        let mut account = match self.earnings_ledger.remove(wallet) {
            Some(a) => a,
            None => EarningsAccount {
                wallet_address: String::from_str(wallet),
                referral_count: 0,
                tier: EarningsTier::Bronze,
                last_payout: now as u64,
            },
        };
        if referral_bonus {
            account.referral_count = account.referral_count + 1;
            account.tier = EarningsTier::for_referrals(account.referral_count);
        }
        account.last_payout = now as u64;
        self.earnings_ledger.insert(String::from_str(wallet), account);
        assert(self.earnings_ledger@.remove(wallet@) =~= ledger0.remove(wallet@));
    }

    /// Follows the referral link `code` by `referee` at `now`, as
    /// `referral_tracked` says.
    pub fn track_referral(&mut self, referral_code: &str, referee_wallet: &str, now: i64) -> (r: Result<(), String>)
        requires
            old(self).wf(),
            old(self).can_track(referral_code@, referee_wallet@),
        ensures
            final(self).wf(),
            referral_tracked(*old(self), *final(self), referral_code@, referee_wallet@, now, outcome_view(r)),
    {
        if !self.referral_links.contains_key(referral_code) {
            return Err(String::from_str("Invalid referral code"));
        }
        let ghost links0 = self.referral_links@;
        let ghost tracking0 = self.referral_tracking@;
        let mut link = match self.referral_links.remove(referral_code) {
            Some(l) => l,
            None => {
                return Err(String::from_str("Invalid referral code"));
            },
        };
        link.click_count = link.click_count + 1;
        let key = service_key(link.referrer_wallet.as_str(), referee_wallet);
        if !self.referral_tracking.contains_key(key.as_str()) {
            let record = ReferralRecord {
                referrer_wallet: link.referrer_wallet.clone(),
                referee_wallet: String::from_str(referee_wallet),
                referral_code: String::from_str(referral_code),
                first_transaction_at: now as u64,
                status: ReferralStatus::Active,
            };
            self.referral_tracking.insert(key, record);
            assert(self.referral_tracking@.remove(referral_key_of(link.referrer_wallet@, referee_wallet@))
                =~= tracking0.remove(referral_key_of(link.referrer_wallet@, referee_wallet@)));
            link.conversion_count = link.conversion_count + 1;
            self.credit_account(link.referrer_wallet.as_str(), true, now);
        }
        self.referral_links.insert(String::from_str(referral_code), link);
        assert(self.referral_links@.remove(referral_code@) =~= links0.remove(referral_code@));
        Ok(())
    }
}

impl PublicGateway {
    /// Sets up an empty commission system (its rates, which are floating
    /// point, are kept by the caller).
    pub fn initialize_commission_system(&mut self)
        requires
            old(self).wf(),
        ensures
            final(self).wf(),
            final(self).commission_system is Some,
            final(self).commission_system->Some_0.referral_tracking@ == Map::<Seq<char>, ReferralRecord>::empty(),
            final(self).commission_system->Some_0.earnings_ledger@ == Map::<Seq<char>, EarningsAccount>::empty(),
            final(self).commission_system->Some_0.referral_links@ == Map::<Seq<char>, ReferralLink>::empty(),
            final(self).domain == old(self).domain,
            final(self).wallet_endpoints == old(self).wallet_endpoints,
            final(self).service_registry == old(self).service_registry,
            final(self).payment_processor == old(self).payment_processor,
            final(self).libp2p_bridge == old(self).libp2p_bridge,
            final(self).rate_limiter == old(self).rate_limiter,
    {
        self.commission_system = Some(CommissionSystem::new());
    }

    /// Makes a referral link of `referrer_wallet` to a service at `now` and
    /// answers the address it hands out; refused where no commission system
    /// was set up.
    pub fn create_referral_link(
        &mut self,
        referrer_wallet: &str,
        service_endpoint: &str,
        custom_params: StrMap<String>,
        now: i64,
    ) -> (r: Result<String, String>)
        requires
            old(self).wf(),
            old(self).commission_system is Some ==> text::byte_prefix(referrer_wallet@, 8) is Some,
        ensures
            final(self).wf(),
            final(self).domain == old(self).domain,
            final(self).wallet_endpoints == old(self).wallet_endpoints,
            final(self).service_registry == old(self).service_registry,
            final(self).payment_processor == old(self).payment_processor,
            final(self).libp2p_bridge == old(self).libp2p_bridge,
            final(self).rate_limiter == old(self).rate_limiter,
            match old(self).commission_system {
                None => r is Err && r->Err_0@ == no_commission_system_error() && final(self).commission_system is None,
                Some(c0) => {
                    let id = referral_id_of(referrer_wallet@, now);
                    let c1 = final(self).commission_system->Some_0;
                    let link = c1.referral_links@[id];
                    &&& r is Ok
                    &&& r->Ok_0@ == referral_url_of(old(self).domain@, service_endpoint@, id)
                    &&& final(self).commission_system is Some
                    &&& c1.referral_tracking == c0.referral_tracking
                    &&& c1.earnings_ledger == c0.earnings_ledger
                    &&& c1.referral_links@.contains_key(id)
                    &&& c1.referral_links@.remove(id) == c0.referral_links@.remove(id)
                    &&& link.link_id@ == id
                    &&& link.referrer_wallet@ == referrer_wallet@
                    &&& link.service_endpoint@ == service_endpoint@
                    &&& link.custom_params == custom_params
                    &&& link.click_count == 0
                    &&& link.conversion_count == 0
                    &&& link.created_at == now as u64
                },
            },
    {
        let link = ReferralLink::new(referrer_wallet, service_endpoint, custom_params, now);
        let mut system = match self.commission_system.take() {
            Some(c) => c,
            None => {
                return Err(String::from_str("Commission system not initialized"));
            },
        };
        let url = link.url(self.domain.as_str());
        let ghost links0 = system.referral_links@;
        let id = link.link_id.clone();
        system.referral_links.insert(id, link);
        assert(system.referral_links@.remove(referral_id_of(referrer_wallet@, now)) =~= links0.remove(
            referral_id_of(referrer_wallet@, now),
        ));
        self.commission_system = Some(system);
        Ok(url)
    }

    /// Follows the referral link `referral_code` by `referee_wallet` at
    /// `now`, as `referral_tracked` says; refused where no commission system
    /// was set up.
    pub fn track_referral(&mut self, referral_code: &str, referee_wallet: &str, now: i64) -> (r: Result<(), String>)
        requires
            old(self).wf(),
            match old(self).commission_system {
                Some(c) => c.can_track(referral_code@, referee_wallet@),
                None => true,
            },
        ensures
            final(self).wf(),
            final(self).domain == old(self).domain,
            final(self).wallet_endpoints == old(self).wallet_endpoints,
            final(self).service_registry == old(self).service_registry,
            final(self).payment_processor == old(self).payment_processor,
            final(self).libp2p_bridge == old(self).libp2p_bridge,
            final(self).rate_limiter == old(self).rate_limiter,
            match old(self).commission_system {
                None => r is Err && r->Err_0@ == no_commission_system_error() && final(self).commission_system is None,
                Some(c0) => final(self).commission_system is Some && referral_tracked(
                    c0,
                    final(self).commission_system->Some_0,
                    referral_code@,
                    referee_wallet@,
                    now,
                    outcome_view(r),
                ),
            },
    {
        let mut system = match self.commission_system.take() {
            Some(c) => c,
            None => {
                return Err(String::from_str("Commission system not initialized"));
            },
        };
        let r = system.track_referral(referral_code, referee_wallet, now);
        self.commission_system = Some(system);
        r
    }
}

} // verus!
