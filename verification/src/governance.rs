//! Seat-based governance: the chamber and port of a seat rank, the
//! resources a seat gets, and who may call which peer-to-peer verb.
use vstd::prelude::*;
use crate::strmap::StrMap;
use crate::text;

verus! {

/// The chamber of a rank and the port its seat listens on.
pub open spec fn chamber_of(rank: u32) -> (Seq<char>, u16) {
    if rank == 0 {
        ("root"@, 5000)
    } else if rank <= 100 {
        ("senate"@, (5000 + rank) as u16)
    } else if rank <= 600 {
        ("representatives"@, (5100 + rank) as u16)
    } else if rank <= 1618 {
        ("vendors"@, (5700 + rank) as u16)
    } else {
        ("public"@, 4001)
    }
}

/// The chamber of a seat rank and its port: root on 5000, the senate
/// (ranks 1 to 100) from 5001, the representatives (101 to 600) from 5201,
/// the vendors (601 to 1618) from 6301, and the public on 4001.
pub fn get_chamber_info(rank: u32) -> (r: (&'static str, u16))
    ensures
        (r.0@, r.1) == chamber_of(rank),
{
    if rank == 0 {
        ("root", 5000)
    } else if rank <= 100 {
        ("senate", 5000 + rank as u16)
    } else if rank <= 600 {
        ("representatives", 5100 + rank as u16)
    } else if rank <= 1618 {
        ("vendors", 5700 + rank as u16)
    } else {
        ("public", 4001)
    }
}

/// What a seat may use. CPU is counted in hundredths of a core.
#[derive(Debug, Clone, Copy, PartialEq, Eq, Structural)]
pub struct SeatResources {
    pub cpu_centicores: u32,
    pub memory_mb: u32,
    pub storage_gb: u32,
    pub bandwidth_mbps: u32,
    pub api_calls_per_minute: u32,
    pub office_space_mb: u32,
    pub can_add_servers: bool,
}

/// The resources of a seat rank: root, the senate, the representatives,
/// and everyone else.
pub open spec fn seat_resources(rank: u32) -> SeatResources {
    if rank == 0 {
        SeatResources {
            cpu_centicores: 400,
            memory_mb: 8192,
            storage_gb: 100,
            bandwidth_mbps: 1000,
            api_calls_per_minute: 0,
            office_space_mb: 1000,
            can_add_servers: true,
        }
    } else if rank <= 100 {
        SeatResources {
            cpu_centicores: 200,
            memory_mb: 4096,
            storage_gb: 50,
            bandwidth_mbps: 500,
            api_calls_per_minute: 1000,
            office_space_mb: 500,
            can_add_servers: true,
        }
    } else if rank <= 600 {
        SeatResources {
            cpu_centicores: 100,
            memory_mb: 2048,
            storage_gb: 25,
            bandwidth_mbps: 250,
            api_calls_per_minute: 500,
            office_space_mb: 250,
            can_add_servers: false,
        }
    } else {
        SeatResources {
            cpu_centicores: 50,
            memory_mb: 1024,
            storage_gb: 10,
            bandwidth_mbps: 100,
            api_calls_per_minute: 100,
            office_space_mb: 100,
            can_add_servers: false,
        }
    }
}

/// Computes `seat_resources`.
pub fn get_seat_resources(rank: u32) -> (r: SeatResources)
    ensures
        r == seat_resources(rank),
{
    if rank == 0 {
        SeatResources {
            cpu_centicores: 400,
            memory_mb: 8192,
            storage_gb: 100,
            bandwidth_mbps: 1000,
            api_calls_per_minute: 0,
            office_space_mb: 1000,
            can_add_servers: true,
        }
    } else if rank <= 100 {
        SeatResources {
            cpu_centicores: 200,
            memory_mb: 4096,
            storage_gb: 50,
            bandwidth_mbps: 500,
            api_calls_per_minute: 1000,
            office_space_mb: 500,
            can_add_servers: true,
        }
    } else if rank <= 600 {
        SeatResources {
            cpu_centicores: 100,
            memory_mb: 2048,
            storage_gb: 25,
            bandwidth_mbps: 250,
            api_calls_per_minute: 500,
            office_space_mb: 250,
            can_add_servers: false,
        }
    } else {
        SeatResources {
            cpu_centicores: 50,
            memory_mb: 1024,
            storage_gb: 10,
            bandwidth_mbps: 100,
            api_calls_per_minute: 100,
            office_space_mb: 100,
            can_add_servers: false,
        }
    }
}

/// Whether a service runs.
pub enum ServiceStatus {
    Running,
    Stopped,
    Error(String),
}

/// Who may call a verb.
pub enum AccessLevel {
    Public,
    SeatHolders,
    Chamber(String),
    Specific(Vec<u32>),
}

/// A verb offered over the peer-to-peer network.
pub struct LibP2PVerb {
    pub verb_id: String,
    pub service_name: String,
    pub protocol: String,
    pub handler: String,
    pub access_level: AccessLevel,
    pub seat_number: u32,
}

/// A plugin that serves verbs, owned by a seat and possibly guarded.
pub struct PluginInfo {
    pub name: String,
    pub protocol: String,
    pub seat_owner: u32,
    pub guarded: bool,
    pub permissions: Vec<String>,
}

/// Whether `seat` may call a verb of the given access level: anyone for a
/// public verb, any seat above 0 for seat holders, the seats of the named
/// chamber, or the listed seats.
pub open spec fn access_allows(level: AccessLevel, seat: u32) -> bool {
    match level {
        AccessLevel::Public => true,
        AccessLevel::SeatHolders => seat > 0,
        AccessLevel::Chamber(c) => if c@ == "senate"@ {
            1 <= seat <= 100
        } else if c@ == "representatives"@ {
            101 <= seat <= 600
        } else if c@ == "vendors"@ {
            601 <= seat <= 1618
        } else {
            false
        },
        AccessLevel::Specific(seats) => seats@.contains(seat),
    }
}

/// Decides `access_allows`.
fn level_allows(level: &AccessLevel, seat: u32) -> (r: bool)
    ensures
        r == access_allows(*level, seat),
{
    match level {
        AccessLevel::Public => true,
        AccessLevel::SeatHolders => seat > 0,
        AccessLevel::Chamber(c) => {
            if text::str_eq(c.as_str(), "senate") {
                1 <= seat && seat <= 100
            } else if text::str_eq(c.as_str(), "representatives") {
                101 <= seat && seat <= 600
            } else if text::str_eq(c.as_str(), "vendors") {
                601 <= seat && seat <= 1618
            } else {
                false
            }
        },
        AccessLevel::Specific(seats) => {
            let mut i: usize = 0;
            while i < seats.len()
                invariant
                    i <= seats@.len(),
                    access_allows(*level, seat) == seats@.contains(seat),
                    forall|j: int| 0 <= j < i ==> seats@[j] != seat,
                decreases seats@.len() - i,
            {
                if seats[i] == seat {
                    assert(seats@[i as int] == seat);
                    assert(seats@.contains(seat));
                    return true;
                }
                i = i + 1;
            }
            assert(!seats@.contains(seat));
            false
        },
    }
}

/// Whether a seat may use the guarded compiler driver without owning it:
/// root, the senate, and every tenth representative (ranks ending in 1).
pub open spec fn dev_center_access(seat: u32) -> bool {
    seat <= 100 || (seat <= 600 && seat % 10 == 1)
}

/// Decides `dev_center_access`.
pub fn has_dev_center_access(seat: u32) -> (r: bool)
    ensures
        r == dev_center_access(seat),
{
    if seat <= 100 {
        true
    } else if seat <= 600 {
        seat % 10 == 1
    } else {
        false
    }
}

/// What a permitted verb request leads to.
pub enum VerbReply {
    /// The reply bytes.
    Bytes(Vec<u8>),
    /// A compilation to run for this seat with the request's data.
    Compile(u32),
}

/// The verbs, the plugins, and the seat of each known peer (by its id's
/// text).
pub struct VerbRegistry {
    pub verbs: StrMap<LibP2PVerb>,
    pub plugins: StrMap<PluginInfo>,
    pub peer_seats: StrMap<u32>,
}

/// The seat of a peer, 0 for an unknown one.
pub open spec fn seat_of(peers: Map<Seq<char>, u32>, peer: Seq<char>) -> u32 {
    if peers.contains_key(peer) {
        peers[peer]
    } else {
        0
    }
}

/// What a verb request gives: refused without access, unknown services
/// refused, the compiler driver (guarded plugins only for their owner or
/// seats with dev-center access) compiles, the compiler and build services
/// answer at once.
pub open spec fn verb_outcome(
    verbs: Map<Seq<char>, LibP2PVerb>,
    plugins: Map<Seq<char>, PluginInfo>,
    seat: u32,
    verb_id: Seq<char>,
) -> Result<VerbReplyView, Seq<char>> {
    if !verbs.contains_key(verb_id) || !access_allows(verbs[verb_id].access_level, seat) {
        Err("Access denied"@)
    } else {
        let service = verbs[verb_id].service_name@;
        if service == "rustc_driver"@ {
            if !plugins.contains_key("rustc_driver"@) {
                Err("rustc_driver plugin not found"@)
            } else if plugins["rustc_driver"@].guarded && plugins["rustc_driver"@].seat_owner != seat
                && !dev_center_access(seat) {
                Err("Dev center access required for rustc_driver"@)
            } else {
                Ok(VerbReplyView::Compile(seat))
            }
        } else if service == "compiler"@ {
            Ok(VerbReplyView::Bytes("compiler response"@))
        } else if service == "build"@ {
            Ok(VerbReplyView::Bytes("build response"@))
        } else {
            Err("Unknown service"@)
        }
    }
}

/// The contents of a reply.
pub enum VerbReplyView {
    Bytes(Seq<char>),
    Compile(u32),
}

/// The bytes of an ASCII text.
pub open spec fn ascii_bytes(s: Seq<char>) -> Seq<u8> {
    s.map_values(|c: char| c as u8)
}

/// The bytes of a short ASCII reply.
fn reply_bytes(s: &str) -> (r: Vec<u8>)
    requires
        forall|i: int| 0 <= i < s@.len() ==> (#[trigger] s@[i] as u32) < 128,
    ensures
        r@ == ascii_bytes(s@),
{
    let cs = text::chars_of(s);
    let mut r: Vec<u8> = Vec::new();
    let mut i: usize = 0;
    while i < cs.len()
        invariant
            cs@ == s@,
            forall|j: int| 0 <= j < s@.len() ==> (#[trigger] s@[j] as u32) < 128,
            i <= cs@.len(),
            r@ == ascii_bytes(s@.take(i as int)),
        decreases cs@.len() - i,
    {
        let c = cs[i];
        assert((c as u32) < 128);
        r.push(c as u8);
        assert(s@.take(i + 1) =~= s@.take(i as int).push(c));
        assert(r@ =~= ascii_bytes(s@.take(i + 1)));
        i = i + 1;
    }
    assert(s@.take(cs@.len() as int) =~= s@);
    r
}

impl VerbRegistry {
    /// The maps are well formed.
    pub open spec fn wf(&self) -> bool {
        &&& self.verbs.wf()
        &&& self.plugins.wf()
        &&& self.peer_seats.wf()
    }

    /// No verbs, plugins or peers.
    pub fn new() -> (r: Self)
        ensures
            r.wf(),
            r.verbs@ == Map::<Seq<char>, LibP2PVerb>::empty(),
            r.plugins@ == Map::<Seq<char>, PluginInfo>::empty(),
            r.peer_seats@ == Map::<Seq<char>, u32>::empty(),
    {
        VerbRegistry { verbs: StrMap::new(), plugins: StrMap::new(), peer_seats: StrMap::new() }
    }

    /// Keeps a plugin under its name.
    pub fn register_plugin(&mut self, plugin: PluginInfo)
        requires
            old(self).wf(),
        ensures
            final(self).wf(),
            final(self).plugins@ == old(self).plugins@.insert(plugin.name@, plugin),
            final(self).verbs@ == old(self).verbs@,
            final(self).peer_seats@ == old(self).peer_seats@,
    {
        let name = plugin.name.clone();
        self.plugins.insert(name, plugin);
    }

    /// Keeps a verb under its id, unless its service is a guarded plugin of
    /// another seat.
    pub fn register_verb(&mut self, verb: LibP2PVerb) -> (r: Result<(), String>)
        requires
            old(self).wf(),
        ensures
            final(self).wf(),
            final(self).plugins@ == old(self).plugins@,
            final(self).peer_seats@ == old(self).peer_seats@,
            ({
                let p = old(self).plugins@;
                let s = verb.service_name@;
                if p.contains_key(s) && p[s].seat_owner != verb.seat_number && p[s].guarded {
                    r is Err && r->Err_0@ == "Access denied to guarded plugin"@ && final(self).verbs@ == old(
                        self,
                    ).verbs@
                } else {
                    r is Ok && final(self).verbs@ == old(self).verbs@.insert(verb.verb_id@, verb)
                }
            }),
    {
        match self.plugins.get(verb.service_name.as_str()) {
            Some(plugin) => {
                if plugin.seat_owner != verb.seat_number && plugin.guarded {
                    return Err(String::from_str("Access denied to guarded plugin"));
                }
            },
            None => {},
        }
        let id = verb.verb_id.clone();
        self.verbs.insert(id, verb);
        Ok(())
    }

    /// Whether `seat` may call the verb `verb_id`; no one may call an
    /// unknown verb.
    pub fn can_access_verb(&self, verb_id: &str, requester_seat: u32) -> (r: bool)
        requires
            self.wf(),
        ensures
            r == (self.verbs@.contains_key(verb_id@) && access_allows(
                self.verbs@[verb_id@].access_level,
                requester_seat,
            )),
    {
        match self.verbs.get(verb_id) {
            Some(verb) => level_allows(&verb.access_level, requester_seat),
            None => false,
        }
    }

    /// The seat of a peer, 0 for an unknown one.
    pub fn seat_of_peer(&self, peer: &str) -> (s: u32)
        requires
            self.wf(),
        ensures
            s == seat_of(self.peer_seats@, peer@),
    {
        match self.peer_seats.get(peer) {
            Some(s) => *s,
            None => 0,
        }
    }

    /// Handles a verb request from a peer; see `verb_outcome`. A
    /// compilation is left to the caller, which has the request's data.
    pub fn handle_verb_request(&self, verb_id: &str, requester_peer: &str) -> (r: Result<VerbReply, String>)
        requires
            self.wf(),
        ensures
            match verb_outcome(self.verbs@, self.plugins@, seat_of(self.peer_seats@, requester_peer@), verb_id@) {
                Ok(VerbReplyView::Compile(s)) => r matches Ok(VerbReply::Compile(t)) && t == s,
                Ok(VerbReplyView::Bytes(b)) => r matches Ok(VerbReply::Bytes(v)) && v@ == ascii_bytes(b),
                Err(e) => r is Err && r->Err_0@ == e,
            },
    {
        let seat = self.seat_of_peer(requester_peer);
        if !self.can_access_verb(verb_id, seat) {
            return Err(String::from_str("Access denied"));
        }
        let verb = match self.verbs.get(verb_id) {
            Some(v) => v,
            None => {
                return Err(String::from_str("Verb not found"));
            },
        };
        let service = verb.service_name.as_str();
        if text::str_eq(service, "rustc_driver") {
            match self.plugins.get("rustc_driver") {
                None => Err(String::from_str("rustc_driver plugin not found")),
                Some(plugin) => {
                    if plugin.guarded && plugin.seat_owner != seat && !has_dev_center_access(seat) {
                        Err(String::from_str("Dev center access required for rustc_driver"))
                    } else {
                        Ok(VerbReply::Compile(seat))
                    }
                },
            }
        } else if text::str_eq(service, "compiler") {
            proof {
                reveal_strlit("compiler response");
            }
            Ok(VerbReply::Bytes(reply_bytes("compiler response")))
        } else if text::str_eq(service, "build") {
            proof {
                reveal_strlit("build response");
            }
            Ok(VerbReply::Bytes(reply_bytes("build response")))
        } else {
            Err(String::from_str("Unknown service"))
        }
    }
}

/// A compilation asked for over the network: source files by path, the
/// compiler's arguments, and a target.
pub struct CompileRequest {
    pub sources: StrMap<String>,
    pub args: Vec<String>,
    pub target: Option<String>,
}

/// The result of a compilation.
pub struct CompileResult {
    pub success: bool,
    pub stdout: String,
    pub stderr: String,
    pub artifacts: Vec<String>,
}

/// The directory a seat's compilation runs in.
pub fn compile_workspace(seat: u32) -> (r: String)
    ensures
        r@ == "/tmp/zos_compile_seat_"@ + text::decimal(seat as nat),
{
    let mut r = String::from_str("/tmp/zos_compile_seat_");
    let d = text::decimal_string(seat as u64);
    r.append(d.as_str());
    r
}

/// The result of a finished compilation: a binary when it succeeded.
pub fn compile_result(success: bool, stdout: String, stderr: String) -> (r: CompileResult)
    ensures
        r.success == success,
        r.stdout@ == stdout@,
        r.stderr@ == stderr@,
        text::string_views(r.artifacts@) == (if success { seq!["binary"@] } else { Seq::<Seq<char>>::empty() }),
{
    let mut artifacts: Vec<String> = Vec::new();
    if success {
        artifacts.push(String::from_str("binary"));
    }
    assert(text::string_views(artifacts@) =~= (if success { seq!["binary"@] } else { Seq::<Seq<char>>::empty() }));
    CompileResult { success, stdout, stderr, artifacts }
}

} // verus!
