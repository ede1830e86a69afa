//! The stage-one node's configuration and its dynamic DNS: which IP
//! services are asked, what their replies give, when the record is updated
//! and what the update reply means.
use vstd::prelude::*;
use crate::text;

verus! {

/// The Namecheap dynamic DNS account.
pub struct DDNSConfig {
    pub enabled: bool,
    pub domain: String,
    pub host: String,
    pub password: String,
    pub update_interval_minutes: u64,
}

/// The node's configuration.
pub struct ZosConfig {
    pub http_port: u16,
    pub https_port: u16,
    pub domain: String,
    pub cert_path: Option<String>,
    pub key_path: Option<String>,
    pub solana_rpc: String,
    pub max_concurrent_users: u32,
    pub block_duration_ms: u64,
    pub ddns: Option<DDNSConfig>,
}

/// The node's peer-to-peer behaviour (it has none of its own yet).
pub struct ZosBehaviour;

/// The settings the configuration falls back on, `None` where unset.
pub struct ConfigSettings {
    pub http_port: Option<String>,
    pub https_port: Option<String>,
    pub domain: Option<String>,
    pub cert_path: Option<String>,
    pub key_path: Option<String>,
    pub namecheap_domain: Option<String>,
    pub namecheap_host: Option<String>,
    pub namecheap_password: Option<String>,
}

/// The characters of an optional string.
pub open spec fn opt_chars(o: Option<String>) -> Option<Seq<char>> {
    match o {
        Some(s) => Some(s@),
        None => None,
    }
}

/// A port setting, or `default` where it is missing or no port number.
pub open spec fn port_or(s: Option<Seq<char>>, default: u16) -> u16 {
    match s {
        Some(v) => match text::parse_u32(v) {
            Ok(n) => if n <= 65535 {
                n as u16
            } else {
                default
            },
            Err(_) => default,
        },
        None => default,
    }
}

/// Reads a port setting.
fn read_port(s: &Option<String>, default: u16) -> (p: u16)
    ensures
        p == port_or(opt_chars(*s), default),
{
    match s {
        Some(v) => match text::parse_u32_str(v.as_str()) {
            Ok(n) => if n <= 65535 {
                n as u16
            } else {
                default
            },
            Err(_) => default,
        },
        None => default,
    }
}

/// A copy of an optional string.
fn copy_opt(o: &Option<String>) -> (r: Option<String>)
    ensures
        opt_chars(r) == opt_chars(*o),
{
    match o {
        Some(s) => Some(s.clone()),
        None => None,
    }
}

impl ZosConfig {
    /// The configuration from the settings, where no configuration file
    /// exists: ports 8080 and 8443 unless set, `localhost`, the mainnet RPC,
    /// 50 users, blocks of 400 ms, and dynamic DNS when the Namecheap
    /// domain, host and password are all set (every 5 minutes).
    pub fn from_settings(s: &ConfigSettings) -> (c: Self)
        ensures
            c.http_port == port_or(opt_chars(s.http_port), 8080),
            c.https_port == port_or(opt_chars(s.https_port), 8443),
            c.domain@ == (match s.domain {
                Some(d) => d@,
                None => "localhost"@,
            }),
            opt_chars(c.cert_path) == opt_chars(s.cert_path),
            opt_chars(c.key_path) == opt_chars(s.key_path),
            c.solana_rpc@ == "https://api.mainnet-beta.solana.com"@,
            c.max_concurrent_users == 50,
            c.block_duration_ms == 400,
            (s.namecheap_domain is Some && s.namecheap_host is Some && s.namecheap_password is Some) == c.ddns is Some,
            c.ddns matches Some(d) ==> d.enabled && d.domain@ == s.namecheap_domain->Some_0@ && d.host@
                == s.namecheap_host->Some_0@ && d.password@ == s.namecheap_password->Some_0@
                && d.update_interval_minutes == 5,
    {
        let ddns = match (&s.namecheap_domain, &s.namecheap_host, &s.namecheap_password) {
            (Some(domain), Some(host), Some(password)) => Some(
                DDNSConfig {
                    enabled: true,
                    domain: domain.clone(),
                    host: host.clone(),
                    password: password.clone(),
                    update_interval_minutes: 5,
                },
            ),
            _ => None,
        };
        ZosConfig {
            http_port: read_port(&s.http_port, 8080),
            https_port: read_port(&s.https_port, 8443),
            domain: match &s.domain {
                Some(d) => d.clone(),
                None => String::from_str("localhost"),
            },
            cert_path: copy_opt(&s.cert_path),
            key_path: copy_opt(&s.key_path),
            solana_rpc: String::from_str("https://api.mainnet-beta.solana.com"),
            max_concurrent_users: 50,
            block_duration_ms: 400,
            ddns,
        }
    }
}

/// The services asked for the node's address, in order.
pub open spec fn ip_services() -> Seq<Seq<char>> {
    seq![
        "https://api.ipify.org"@,
        "https://icanhazip.com"@,
        "https://ipecho.net/plain"@,
        "https://checkip.amazonaws.com"@,
    ]
}

/// Lists `ip_services`.
pub fn ip_service_urls() -> (r: Vec<String>)
    ensures
        text::string_views(r@) == ip_services(),
{
    let mut r: Vec<String> = Vec::new();
    r.push(String::from_str("https://api.ipify.org"));
    r.push(String::from_str("https://icanhazip.com"));
    r.push(String::from_str("https://ipecho.net/plain"));
    r.push(String::from_str("https://checkip.amazonaws.com"));
    assert(text::string_views(r@) =~= ip_services());
    r
}

/// The address in an IP service's reply: the reply trimmed, if anything
/// is left.
pub fn ip_from_reply(body: &str) -> (r: Option<String>)
    ensures
        match r {
            Some(ip) => ip@ == text::trim(body@) && ip@.len() > 0,
            None => text::trim(body@).len() == 0,
        },
{
    let t = text::trim_str(body);
    if t.unicode_len() == 0 {
        None
    } else {
        Some(t)
    }
}

/// The address the DNS update is sent to.
pub open spec fn update_url() -> Seq<char> {
    "https://dynamicdns.park-your-domain.com/update"@
}

/// The query of a DNS update: host, domain, password and address.
pub fn update_params(config: &DDNSConfig, ip: &str) -> (r: Vec<(String, String)>)
    ensures
        r@.len() == 4,
        r@[0].0@ == "host"@ && r@[0].1@ == config.host@,
        r@[1].0@ == "domain"@ && r@[1].1@ == config.domain@,
        r@[2].0@ == "password"@ && r@[2].1@ == config.password@,
        r@[3].0@ == "ip"@ && r@[3].1@ == ip@,
{
    let mut r: Vec<(String, String)> = Vec::new();
    r.push((String::from_str("host"), config.host.clone()));
    r.push((String::from_str("domain"), config.domain.clone()));
    r.push((String::from_str("password"), config.password.clone()));
    r.push((String::from_str("ip"), String::from_str(ip)));
    r
}

/// A successful update reply reports no errors.
pub fn update_succeeded(body: &str) -> (r: bool)
    ensures
        r == text::contains_sub(body@, "<ErrCount>0</ErrCount>"@),
{
    text::contains_str(body, "<ErrCount>0</ErrCount>")
}

/// The address the DNS record was last set to.
pub struct DdnsState {
    pub last_ip: Option<String>,
}

impl DdnsState {
    /// Nothing set yet.
    pub fn new() -> (s: Self)
        ensures
            s.last_ip is None,
    {
        DdnsState { last_ip: None }
    }

    /// Whether the record must be updated for the current address: only
    /// when it differs from the last one set.
    pub fn needs_update(&self, current_ip: &str) -> (r: bool)
        ensures
            r == (opt_chars(self.last_ip) != Some(current_ip@)),
    {
        match &self.last_ip {
            Some(ip) => !text::str_eq(ip.as_str(), current_ip),
            None => true,
        }
    }

    /// After an update attempt: a successful one records the address. The
    /// check reports success when nothing needed updating or the update
    /// succeeded.
    pub fn check_outcome(&mut self, current_ip: &str, updated: Option<bool>) -> (r: bool)
        ensures
            match updated {
                None => r && final(self).last_ip == old(self).last_ip,
                Some(true) => r && opt_chars(final(self).last_ip) == Some(current_ip@),
                Some(false) => !r && final(self).last_ip == old(self).last_ip,
            },
    {
        match updated {
            None => true,
            Some(true) => {
                self.last_ip = Some(String::from_str(current_ip));
                true
            },
            Some(false) => false,
        }
    }
}

} // verus!
