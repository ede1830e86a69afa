//! The unified peer server: its verbs, the peers, datasets and function
//! analyses it keeps, what it knows of the shared objects it loaded, and the
//! decision, for each verb, between a reply computed from that state and a
//! hand-off to the compiler, loader or process runtime.
use vstd::prelude::*;
use vstd::string::*;
use crate::strmap::StrMap;
use crate::text;

verus! {

/// A peer of the network and what it offers.
pub struct PeerInfo {
    pub peer_id: String,
    pub git_endpoint: String,
    pub huggingface_repo: String,
    pub nix_store_path: String,
    pub mathematical_capabilities: Vec<String>,
    pub dataset_contributions: Vec<String>,
    pub last_seen: String,
    pub lattice_support: bool,
    pub parquet_generation: bool,
}

/// A dataset seeded into the network.
pub struct DatasetSeed {
    pub dataset_name: String,
    pub version: String,
    pub mathematical_framework: String,
    pub peer_seeds: Vec<PeerInfo>,
    pub git_refs: Vec<String>,
    pub hf_commits: Vec<String>,
    pub lattice_dimensions: u32,
    pub function_count: u64,
    pub total_energy: u64,
}

/// The lattice analysis of one function.
pub struct FunctionAnalysis {
    pub name: String,
    pub coordinates: Vec<u64>,
    pub energy: u64,
    pub classification: String,
    pub size: u64,
}

/// The characters and numbers of a `FunctionAnalysis`.
pub struct AnalysisView {
    pub name: Seq<char>,
    pub coordinates: Seq<u64>,
    pub energy: u64,
    pub classification: Seq<char>,
    pub size: u64,
}

impl View for FunctionAnalysis {
    type V = AnalysisView;

    open spec fn view(&self) -> AnalysisView {
        AnalysisView {
            name: self.name@,
            coordinates: self.coordinates@,
            energy: self.energy,
            classification: self.classification@,
            size: self.size,
        }
    }
}

/// What the server records of a shared object it loaded; the library handle
/// itself lives with the loader.
pub struct LoadedSoInfo {
    pub name: String,
    pub path: String,
    pub symbols: Vec<String>,
    pub load_time: String,
    pub size: u64,
}

/// A verb of the unified server.
pub enum P2PVerb {
    /// name, path
    LoadSo(String, String),
    /// plugin, event type
    RegisterEvent(String, u32),
    /// plugin, data
    AttachData(String, Vec<u8>),
    /// plugin, file paths
    RunWithFiles(String, Vec<String>),
    /// plugin
    CaptureResult(String),
    /// name, source code
    CompileSource(String, String),
    /// name, file path
    CompileFile(String, String),
    /// plugin, function, parameter
    InvokeFunction(String, String, u32),
    /// crate, phase
    StartTrace(String, String),
    /// crate
    StopTrace(String),
    /// crate, command
    PerfRecord(String, String),
    /// crate, command
    StraceRecord(String, String),
    /// first trace, second trace
    CompareTraces(String, String),
    /// target, pattern
    Intercept(String, String),
    /// source, selector
    Extract(String, String),
    /// data id, destination
    Exfiltrate(String, String),
    /// data id, transform
    Munge(String, String),
    /// name, source code
    CompileAndLoad(String, String),
    /// (name, path) pairs
    LoadMultipleSo(Vec<(String, String)>),
    /// name
    UnloadSo(String),
    ListLoadedSo,
    /// object, function, arguments
    CallSoFunction(String, String, Vec<String>),
    /// object
    GetSoSymbols(String),
    /// object
    ReloadSo(String),
    /// name, source, output type (`bin`, `lib` or `so`)
    CompileToBinary(String, String, String),
    RegisterPeer(PeerInfo),
    SeedDataset(DatasetSeed),
    /// peer
    QueryCapabilities(String),
    /// dataset, analysis type
    RequestAnalysis(String, String),
    /// result id, data
    ShareResults(String, Vec<u8>),
    /// repository, branch
    SyncGitRepo(String, String),
    /// dataset, repository
    PublishToHF(String, String),
    CompileSelf,
    RebootSelf,
    /// new source of the server
    UpdateSelf(String),
    GetSelfStatus,
    /// path of cargo
    LoadCargo(String),
    /// arguments
    CallCargoMain(Vec<String>),
    /// project, arguments
    CargoBuild(String, Vec<String>),
    /// project, arguments
    CargoRun(String, Vec<String>),
    /// project, arguments
    CargoTest(String, Vec<String>),
    /// path of the compiler driver library
    LoadRustcDriver(String),
    /// arguments
    CallRustcMain(Vec<String>),
    /// name, source, compiler arguments
    CompileViaRustc(String, String, Vec<String>),
    GetRustcVersion,
    /// function, coordinates
    CalculateLattice(String, Vec<u64>),
    /// first function, second function
    CompareEnergy(String, String),
    /// functions
    ClusterFunctions(Vec<String>),
    /// dataset, output path
    GenerateParquet(String, String),
}

/// Loads plugins; this build has no loader behind it, so every load succeeds.
pub struct PluginDriver;

impl PluginDriver {
    pub fn new() -> (d: Self) {
        PluginDriver
    }

    /// Accepts the plugin.
    pub fn load_plugin(&mut self, name: &str, path: &str) -> (r: Result<(), String>)
        ensures
            r is Ok,
    {
        Ok(())
    }
}

/// Mirrors repositories; this build reports every sync as done.
pub struct GitManager;

impl GitManager {
    pub fn new() -> (g: Self) {
        GitManager
    }

    /// Reports the repository as synced.
    pub fn sync_repo(&self, repo_url: &str, branch: &str) -> (r: String)
        ensures
            r@ == "synced"@,
    {
        String::from_str("synced")
    }
}

/// Publishes datasets; this build reports every publication as done.
pub struct HuggingFaceManager;

impl HuggingFaceManager {
    pub fn new() -> (h: Self) {
        HuggingFaceManager
    }

    /// Reports the dataset as published.
    pub fn publish_dataset(&self, dataset_name: &str, hf_repo: &str) -> (r: String)
        ensures
            r@ == "published"@,
    {
        String::from_str("published")
    }
}

/// Builds through Nix; nothing is wired to it yet.
pub struct NixManager;

impl NixManager {
    pub fn new() -> (n: Self) {
        NixManager
    }
}

/// The class of a function, from its name and lattice energy: mangled Rust
/// names first, then formatting code, then by energy (above 200 high, below
/// 50 low).
pub open spec fn classification_of(name: Seq<char>, energy: u64) -> Seq<char> {
    if text::contains_sub(name, "_ZN"@) {
        "MANGLED_RUST"@
    } else if text::contains_sub(name, "fmt"@) || text::contains_sub(name, "Debug"@) {
        "FORMATTER"@
    } else if energy > 200 {
        "HIGH_ENERGY"@
    } else if energy < 50 {
        "LOW_ENERGY"@
    } else {
        "STANDARD"@
    }
}

/// Classifies a function.
pub fn classify_function(name: &str, energy: u64) -> (r: String)
    ensures
        r@ == classification_of(name@, energy),
{
    if text::contains_str(name, "_ZN") {
        String::from_str("MANGLED_RUST")
    } else if text::contains_str(name, "fmt") || text::contains_str(name, "Debug") {
        String::from_str("FORMATTER")
    } else if energy > 200 {
        String::from_str("HIGH_ENERGY")
    } else if energy < 50 {
        String::from_str("LOW_ENERGY")
    } else {
        String::from_str("STANDARD")
    }
}

/// The sum of the coordinates: a function's lattice energy.
pub open spec fn coords_sum(c: Seq<u64>) -> nat
    decreases c.len(),
{
    if c.len() == 0 {
        0
    } else {
        coords_sum(c.drop_last()) + (c.last() as nat)
    }
}

/// Sums the coordinates.
pub fn lattice_energy(coords: &Vec<u64>) -> (e: u64)
    requires
        coords_sum(coords@) <= u64::MAX,
    ensures
        e == coords_sum(coords@),
{
    let mut e: u64 = 0;
    let mut i: usize = 0;
    while i < coords.len()
        invariant
            i <= coords@.len(),
            e == coords_sum(coords@.take(i as int)),
            coords_sum(coords@) <= u64::MAX,
        decreases coords@.len() - i,
    {
        assert(coords@.take(i + 1).drop_last() =~= coords@.take(i as int));
        proof {
            lemma_sum_prefix(coords@, i + 1);
        }
        e = e + coords[i];
        i = i + 1;
    }
    assert(coords@.take(i as int) =~= coords@);
    e
}

/// A prefix sums to no more than the whole.
pub proof fn lemma_sum_prefix(c: Seq<u64>, n: int)
    requires
        0 <= n <= c.len(),
    ensures
        coords_sum(c.take(n)) <= coords_sum(c),
    decreases c.len(),
{
    if n < c.len() {
        assert(c.drop_last().take(n) =~= c.take(n));
        lemma_sum_prefix(c.drop_last(), n);
    } else {
        assert(c.take(n) =~= c);
    }
}

/// The server's state as maps.
pub struct UnifiedView {
    pub loaded_sos: Map<Seq<char>, LoadedSoInfo>,
    pub rustc_driver_loaded: bool,
    pub rustc_driver_path: Option<Seq<char>>,
    pub cargo_loaded: bool,
    pub cargo_path: Option<Seq<char>>,
    pub peers: Map<Seq<char>, PeerInfo>,
    pub datasets: Map<Seq<char>, DatasetSeed>,
    pub analyses: Map<Seq<char>, AnalysisView>,
    pub lattice: Map<Seq<char>, Seq<u64>>,
}

/// The state of the unified server that its verbs read and change.
pub struct UnifiedP2PServer {
    pub loaded_sos: StrMap<LoadedSoInfo>,
    pub temp_dir: String,
    pub rustc_driver_loaded: bool,
    pub rustc_driver_path: Option<String>,
    pub cargo_loaded: bool,
    pub cargo_path: Option<String>,
    pub peers: StrMap<PeerInfo>,
    pub datasets: StrMap<DatasetSeed>,
    pub function_analyses: StrMap<FunctionAnalysis>,
    pub lattice_cache: StrMap<Vec<u64>>,
    pub plugin_driver: PluginDriver,
    pub git_manager: GitManager,
    pub hf_manager: HuggingFaceManager,
    pub nix_manager: NixManager,
}

/// The characters of an optional string.
pub open spec fn opt_chars(o: Option<String>) -> Option<Seq<char>> {
    match o {
        Some(s) => Some(s@),
        None => None,
    }
}

impl View for UnifiedP2PServer {
    type V = UnifiedView;

    open spec fn view(&self) -> UnifiedView {
        UnifiedView {
            loaded_sos: self.loaded_sos@,
            rustc_driver_loaded: self.rustc_driver_loaded,
            rustc_driver_path: opt_chars(self.rustc_driver_path),
            cargo_loaded: self.cargo_loaded,
            cargo_path: opt_chars(self.cargo_path),
            peers: self.peers@,
            datasets: self.datasets@,
            analyses: self.function_analyses@.map_values(|a: FunctionAnalysis| a@),
            lattice: self.lattice_cache@.map_values(|v: Vec<u64>| v@),
        }
    }
}

/// `true` or `false`, as `bool` displays.
pub open spec fn bool_text(b: bool) -> Seq<char> {
    if b {
        "true"@
    } else {
        "false"@
    }
}

/// One line of the loaded-object listing.
pub open spec fn so_line(name: Seq<char>, info: LoadedSoInfo) -> Seq<char> {
    name + ": "@ + text::decimal(info.symbols@.len()) + " symbols ("@ + info.path@ + ")"@
}

/// The listing lines, in the given order of names.
pub open spec fn so_lines(order: Seq<Seq<char>>, m: Map<Seq<char>, LoadedSoInfo>) -> Seq<Seq<char>> {
    order.map_values(|k: Seq<char>| so_line(k, m[k]))
}

/// The energy recorded for a function, or 0.
pub open spec fn energy_of(s: UnifiedView, f: Seq<char>) -> u64 {
    if s.analyses.contains_key(f) {
        s.analyses[f].energy
    } else {
        0
    }
}

/// How the first energy compares to the second.
pub open spec fn comparison_word(e1: u64, e2: u64) -> Seq<char> {
    if e1 > e2 {
        "higher"@
    } else if e1 < e2 {
        "lower"@
    } else {
        "equal"@
    }
}

/// The refusal when the compiler driver is not loaded, or its object is gone.
pub open spec fn rustc_gate(s: UnifiedView, not_loaded: Seq<char>) -> Option<Result<Seq<char>, Seq<char>>> {
    if !s.rustc_driver_loaded {
        Some(Err(not_loaded))
    } else if !s.loaded_sos.contains_key("rustc_driver"@) {
        Some(Err("rustc_driver SO not found"@))
    } else {
        None
    }
}

/// The reply to a verb that the state alone decides, or `None` for a verb
/// that needs the compiler, the loader or the process. `order` is the order
/// in which the loaded objects are listed.
pub open spec fn reply_of(s: UnifiedView, order: Seq<Seq<char>>, v: P2PVerb) -> Option<
    Result<Seq<char>, Seq<char>>,
> {
    match v {
        P2PVerb::LoadSo(name, _) => Some(Ok("✅ Loaded plugin: "@ + name@)),
        P2PVerb::UnloadSo(name) => Some(
            Ok(
                if s.loaded_sos.contains_key(name@) {
                    "🗑️ Unloaded .so: "@ + name@
                } else {
                    "⚠️ .so not found: "@ + name@
                },
            ),
        ),
        P2PVerb::ListLoadedSo => Some(
            Ok(
                "📋 Loaded .so files ("@ + text::decimal(order.len()) + "):\n"@ + text::join(
                    so_lines(order, s.loaded_sos),
                    "\n"@,
                ),
            ),
        ),
        P2PVerb::CallSoFunction(so, _, _) => if s.loaded_sos.contains_key(so@) {
            None
        } else {
            Some(Err("SO not loaded: "@ + so@))
        },
        P2PVerb::GetSoSymbols(so) => Some(
            Ok(
                if s.loaded_sos.contains_key(so@) {
                    "🔍 Symbols in "@ + so@ + " ("@ + text::decimal(
                        s.loaded_sos[so@].symbols@.len(),
                    ) + "):\n"@ + text::join(text::string_views(s.loaded_sos[so@].symbols@), "\n"@)
                } else {
                    "❌ .so not loaded: "@ + so@
                },
            ),
        ),
        P2PVerb::ReloadSo(so) => if s.loaded_sos.contains_key(so@) {
            None
        } else {
            Some(Ok("❌ .so not found for reload: "@ + so@))
        },
        P2PVerb::CompileToBinary(_, _, t) => if t@ == "bin"@ || t@ == "lib"@ || t@ == "so"@ {
            None
        } else {
            Some(Err("Invalid output type. Use: bin, lib, or so"@))
        },
        P2PVerb::CallRustcMain(_) => rustc_gate(
            s,
            "rustc_driver not loaded. Use LoadRustcDriver first."@,
        ),
        P2PVerb::GetRustcVersion => rustc_gate(s, "rustc_driver not loaded"@),
        P2PVerb::CompileSelf => rustc_gate(s, "rustc_driver not loaded for self-compilation"@),
        P2PVerb::LoadCargo(path) => if text::has_suffix(path@, ".so"@) {
            None
        } else {
            Some(Ok("📦 Loaded Cargo: Loaded binary path: "@ + path@))
        },
        P2PVerb::CallCargoMain(_) => if !s.cargo_loaded {
            Some(Err("Cargo not loaded. Use LoadCargo first."@))
        } else if s.cargo_path is None {
            Some(Err("No Cargo path available"@))
        } else {
            None
        },
        P2PVerb::GetSelfStatus => Some(
            Ok(
                "📊 Server status: Loaded SOs: "@ + text::decimal(s.loaded_sos.dom().len())
                    + ", Rustc: "@ + bool_text(s.rustc_driver_loaded) + ", Cargo: "@ + bool_text(
                    s.cargo_loaded,
                ) + ", Functions: "@ + text::decimal(s.analyses.dom().len()),
            ),
        ),
        P2PVerb::CalculateLattice(f, c) => Some(
            Ok("🧮 Calculated lattice for "@ + f@ + ": energy="@ + text::decimal(coords_sum(c@))),
        ),
        P2PVerb::CompareEnergy(f1, f2) => Some(
            Ok(
                "⚡ "@ + f1@ + " has "@ + comparison_word(energy_of(s, f1@), energy_of(s, f2@))
                    + " energy than "@ + f2@ + " ("@ + text::decimal(energy_of(s, f1@) as nat)
                    + " vs "@ + text::decimal(energy_of(s, f2@) as nat) + ")"@,
            ),
        ),
        P2PVerb::RegisterPeer(p) => Some(Ok("🌐 Registered peer: "@ + p.peer_id@)),
        P2PVerb::SeedDataset(d) => Some(Ok("🌱 Seeded dataset: "@ + d.dataset_name@)),
        P2PVerb::GenerateParquet(name, out) => Some(
            Ok(
                "📦 Generated Parquet: "@ + name@ + " -> Generated "@ + text::decimal(
                    s.analyses.dom().len(),
                ) + " functions to "@ + out@,
            ),
        ),
        P2PVerb::SyncGitRepo(url, _) => Some(Ok("🔄 Synced repo: "@ + url@ + " ("@ + "synced"@ + ")"@)),
        P2PVerb::PublishToHF(name, _) => Some(
            Ok("🤗 Published to HuggingFace: "@ + name@ + " -> "@ + "published"@),
        ),
        P2PVerb::StartTrace(c, phase) => Some(Ok("🔍 Started trace: "@ + c@ + "_"@ + phase@)),
        P2PVerb::Extract(source, _) => Some(Ok("📤 Extracted from "@ + source@ + ": 0 bytes"@)),
        P2PVerb::CompileSource(_, _) | P2PVerb::CompileAndLoad(_, _) | P2PVerb::LoadMultipleSo(_)
        | P2PVerb::LoadRustcDriver(_) | P2PVerb::CompileViaRustc(_, _, _) | P2PVerb::CargoBuild(
            _,
            _,
        ) | P2PVerb::CargoRun(_, _) | P2PVerb::CargoTest(_, _) | P2PVerb::RebootSelf
        | P2PVerb::UpdateSelf(_) => None,
        _ => Some(Ok("🤖 Verb executed"@)),
    }
}

/// The state after a verb that the state alone decides.
pub open spec fn next_of(s: UnifiedView, v: P2PVerb) -> UnifiedView {
    match v {
        P2PVerb::UnloadSo(name) => UnifiedView { loaded_sos: s.loaded_sos.remove(name@), ..s },
        P2PVerb::LoadCargo(path) => UnifiedView {
            cargo_loaded: true,
            cargo_path: Some(path@),
            ..s
        },
        P2PVerb::CalculateLattice(f, c) => UnifiedView {
            analyses: s.analyses.insert(
                f@,
                AnalysisView {
                    name: f@,
                    coordinates: c@,
                    energy: coords_sum(c@) as u64,
                    classification: classification_of(f@, coords_sum(c@) as u64),
                    size: 0,
                },
            ),
            lattice: s.lattice.insert(f@, c@),
            ..s
        },
        P2PVerb::RegisterPeer(p) => UnifiedView { peers: s.peers.insert(p.peer_id@, p), ..s },
        P2PVerb::SeedDataset(d) => UnifiedView {
            datasets: s.datasets.insert(d.dataset_name@, d),
            ..s
        },
        _ => s,
    }
}

/// The state after the verbs `vs` in turn, as `execute_verb` leaves it:
/// each verb is paired with whether it was carried out on the state (the
/// state then moves by `next_of`) or handed back for the runtime (the state
/// stays).
pub open spec fn after_verbs(s: UnifiedView, vs: Seq<(P2PVerb, bool)>) -> UnifiedView
    decreases vs.len(),
{
    if vs.len() == 0 {
        s
    } else {
        let t = after_verbs(s, vs.drop_last());
        if vs.last().1 {
            next_of(t, vs.last().0)
        } else {
            t
        }
    }
}

/// The verb registers a peer under `id`.
pub open spec fn registers_peer(v: P2PVerb, id: Seq<char>) -> bool {
    v matches P2PVerb::RegisterPeer(q) && q.peer_id@ == id
}

/// A registered peer keeps the record (and so the capabilities) it was
/// registered with through any verbs that do not register a peer under the
/// same id, and an id that is not registered stays unregistered through
/// them: `get_peer_capabilities` gives what the last registration gave, or
/// nothing.
pub proof fn law_peer_registration_kept(s: UnifiedView, vs: Seq<(P2PVerb, bool)>, id: Seq<char>)
    requires
        forall|i: int| 0 <= i < vs.len() ==> !registers_peer(#[trigger] vs[i].0, id),
    ensures
        after_verbs(s, vs).peers.contains_key(id) == s.peers.contains_key(id),
        s.peers.contains_key(id) ==> after_verbs(s, vs).peers[id] == s.peers[id],
    decreases vs.len(),
{
    if vs.len() > 0 {
        let t = vs.drop_last();
        assert forall|i: int| 0 <= i < t.len() implies !registers_peer(#[trigger] t[i].0, id) by {
            assert(t[i] == vs[i]);
        }
        law_peer_registration_kept(s, t, id);
        assert(!registers_peer(vs[vs.len() - 1].0, id));
    }
}

/// Registering a peer makes its record the one kept under its id.
pub proof fn law_register_then_lookup(s: UnifiedView, p: PeerInfo)
    ensures
        next_of(s, P2PVerb::RegisterPeer(p)).peers.contains_key(p.peer_id@),
        next_of(s, P2PVerb::RegisterPeer(p)).peers[p.peer_id@] == p,
{
}

/// The characters of a reply.
pub open spec fn reply_view(r: Result<String, String>) -> Result<Seq<char>, Seq<char>> {
    match r {
        Ok(s) => Ok(s@),
        Err(e) => Err(e@),
    }
}

/// What a verb needs from outside the server's state.
pub enum UnifiedOutcome {
    /// The verb was carried out on the state; this is its reply.
    Done(Result<String, String>),
    /// The verb needs the compiler, the loader or the process.
    NeedsRuntime(P2PVerb),
}

/// The verb reads only what the server can compute: the coordinates of a
/// lattice sum to a `u64`.
pub open spec fn verb_in_range(v: P2PVerb) -> bool {
    match v {
        P2PVerb::CalculateLattice(_, c) => coords_sum(c@) <= u64::MAX,
        _ => true,
    }
}

impl UnifiedP2PServer {
    /// The maps are well formed.
    pub open spec fn wf(&self) -> bool {
        &&& self.loaded_sos.wf()
        &&& self.peers.wf()
        &&& self.datasets.wf()
        &&& self.function_analyses.wf()
        &&& self.lattice_cache.wf()
    }

    /// A server with nothing loaded, registered or analysed, working in
    /// `/tmp/unified_p2p`.
    pub fn new() -> (s: Self)
        ensures
            s.wf(),
            s@.loaded_sos == Map::<Seq<char>, LoadedSoInfo>::empty(),
            !s@.rustc_driver_loaded,
            s@.rustc_driver_path is None,
            !s@.cargo_loaded,
            s@.cargo_path is None,
            s@.peers == Map::<Seq<char>, PeerInfo>::empty(),
            s@.datasets == Map::<Seq<char>, DatasetSeed>::empty(),
            s@.analyses == Map::<Seq<char>, AnalysisView>::empty(),
            s@.lattice == Map::<Seq<char>, Seq<u64>>::empty(),
            s.temp_dir@ == "/tmp/unified_p2p"@,
    {
        let s = UnifiedP2PServer {
            loaded_sos: StrMap::new(),
            temp_dir: String::from_str("/tmp/unified_p2p"),
            rustc_driver_loaded: false,
            rustc_driver_path: None,
            cargo_loaded: false,
            cargo_path: None,
            peers: StrMap::new(),
            datasets: StrMap::new(),
            function_analyses: StrMap::new(),
            lattice_cache: StrMap::new(),
            plugin_driver: PluginDriver::new(),
            git_manager: GitManager::new(),
            hf_manager: HuggingFaceManager::new(),
            nix_manager: NixManager::new(),
        };
        assert(s@.analyses =~= Map::<Seq<char>, AnalysisView>::empty());
        assert(s@.lattice =~= Map::<Seq<char>, Seq<u64>>::empty());
        s
    }

    /// The capabilities a registered peer offers.
    pub fn get_peer_capabilities(&self, peer_id: &str) -> (r: Option<&Vec<String>>)
        requires
            self.wf(),
        ensures
            match r {
                Some(c) => self@.peers.contains_key(peer_id@) && *c
                    == self@.peers[peer_id@].mathematical_capabilities,
                None => !self@.peers.contains_key(peer_id@),
            },
    {
        match self.peers.get(peer_id) {
            Some(p) => Some(&p.mathematical_capabilities),
            None => None,
        }
    }

    /// A seeded dataset.
    pub fn get_dataset_info(&self, dataset_name: &str) -> (r: Option<&DatasetSeed>)
        requires
            self.wf(),
        ensures
            match r {
                Some(d) => self@.datasets.contains_key(dataset_name@) && *d
                    == self@.datasets[dataset_name@],
                None => !self@.datasets.contains_key(dataset_name@),
            },
    {
        self.datasets.get(dataset_name)
    }

    /// A function's analysis.
    pub fn get_function_analysis(&self, func_name: &str) -> (r: Option<&FunctionAnalysis>)
        requires
            self.wf(),
        ensures
            match r {
                Some(a) => self@.analyses.contains_key(func_name@) && a@ == self@.analyses[func_name@],
                None => !self@.analyses.contains_key(func_name@),
            },
    {
        self.function_analyses.get(func_name)
    }

    /// Records a shared object that the loader opened, under its name.
    pub fn record_loaded_so(&mut self, info: LoadedSoInfo)
        requires
            old(self).wf(),
        ensures
            final(self).wf(),
            final(self)@ == (UnifiedView {
                loaded_sos: old(self)@.loaded_sos.insert(info.name@, info),
                ..old(self)@
            }),
    {
        let name = info.name.clone();
        self.loaded_sos.insert(name, info);
    }

    /// Records that the compiler driver was loaded from `path`.
    pub fn record_rustc_driver(&mut self, path: String)
        requires
            old(self).wf(),
        ensures
            final(self).wf(),
            final(self)@ == (UnifiedView {
                rustc_driver_loaded: true,
                rustc_driver_path: Some(path@),
                ..old(self)@
            }),
    {
        self.rustc_driver_loaded = true;
        self.rustc_driver_path = Some(path);
    }

    /// Records that cargo was loaded from `path`.
    pub fn record_cargo(&mut self, path: String)
        requires
            old(self).wf(),
        ensures
            final(self).wf(),
            final(self)@ == (UnifiedView { cargo_loaded: true, cargo_path: Some(path@), ..old(self)@ }),
    {
        self.cargo_loaded = true;
        self.cargo_path = Some(path);
    }

    /// Forgets a shared object, as a reload does before it opens it again.
    pub fn forget_loaded_so(&mut self, name: &str)
        requires
            old(self).wf(),
        ensures
            final(self).wf(),
            final(self)@ == (UnifiedView {
                loaded_sos: old(self)@.loaded_sos.remove(name@),
                ..old(self)@
            }),
    {
        let _ = self.loaded_sos.remove(name);
    }

    /// The listing of the loaded objects.
    fn list_loaded(&self) -> (r: String)
        requires
            self.wf(),
        ensures
            r@ == "📋 Loaded .so files ("@ + text::decimal(self.loaded_sos.key_seq().len())
                + "):\n"@ + text::join(so_lines(self.loaded_sos.key_seq(), self@.loaded_sos), "\n"@),
    {
        let ghost order = self.loaded_sos.key_seq();
        let n = self.loaded_sos.len();
        let mut lines: Vec<String> = Vec::new();
        let mut i: usize = 0;
        while i < n
            invariant
                self.wf(),
                n == order.len(),
                order == self.loaded_sos.key_seq(),
                i <= n,
                text::string_views(lines@) == so_lines(order, self@.loaded_sos).take(i as int),
            decreases n - i,
        {
            let name = self.loaded_sos.key_at(i);
            let info = self.loaded_sos.value_at(i);
            proof {
                self.loaded_sos.lemma_entry(i as int);
            }
            let mut line = name.clone();
            line.append(": ");
            line.append(text::decimal_string(info.symbols.len() as u64).as_str());
            line.append(" symbols (");
            line.append(info.path.as_str());
            line.append(")");
            let ghost old_lines = lines@;
            lines.push(line);
            assert(text::string_views(lines@) =~= text::string_views(old_lines).push(line@));
            assert(so_lines(order, self@.loaded_sos).take(i + 1) =~= so_lines(
                order,
                self@.loaded_sos,
            ).take(i as int).push(line@));
            i = i + 1;
        }
        assert(so_lines(order, self@.loaded_sos).take(n as int) =~= so_lines(
            order,
            self@.loaded_sos,
        ));
        let mut r = String::from_str("📋 Loaded .so files (");
        r.append(text::decimal_string(n as u64).as_str());
        r.append("):\n");
        r.append(text::join_strings(&lines, "\n").as_str());
        r
    }

    /// Carries out a verb that the state alone decides; hands back the ones
    /// that need the compiler, the loader or the process.
    pub fn execute_verb(&mut self, verb: P2PVerb) -> (r: UnifiedOutcome)
        requires
            old(self).wf(),
            verb_in_range(verb),
        ensures
            final(self).wf(),
            final(self).temp_dir == old(self).temp_dir,
            match r {
                UnifiedOutcome::Done(res) => reply_of(old(self)@, old(self).loaded_sos.key_seq(), verb)
                    == Some(reply_view(res)) && final(self)@ == next_of(old(self)@, verb),
                UnifiedOutcome::NeedsRuntime(v) => reply_of(
                    old(self)@,
                    old(self).loaded_sos.key_seq(),
                    verb,
                ) is None && v == verb && final(self)@ == old(self)@,
            },
    {
        let ghost s0 = self@;
        match verb {
            P2PVerb::LoadSo(name, path) => {
                let _ = self.plugin_driver.load_plugin(name.as_str(), path.as_str());
                UnifiedOutcome::Done(Ok(String::from_str("✅ Loaded plugin: ").concat(name.as_str())))
            },
            P2PVerb::UnloadSo(name) => {
                let reply = match self.loaded_sos.remove(name.as_str()) {
                    Some(_) => String::from_str("🗑️ Unloaded .so: ").concat(name.as_str()),
                    None => String::from_str("⚠️ .so not found: ").concat(name.as_str()),
                };
                UnifiedOutcome::Done(Ok(reply))
            },
            P2PVerb::ListLoadedSo => UnifiedOutcome::Done(Ok(self.list_loaded())),
            P2PVerb::CallSoFunction(so, f, args) => {
                if self.loaded_sos.contains_key(so.as_str()) {
                    UnifiedOutcome::NeedsRuntime(P2PVerb::CallSoFunction(so, f, args))
                } else {
                    UnifiedOutcome::Done(Err(String::from_str("SO not loaded: ").concat(so.as_str())))
                }
            },
            P2PVerb::GetSoSymbols(so) => {
                let reply = match self.loaded_sos.get(so.as_str()) {
                    Some(info) => {
                        let mut r = String::from_str("🔍 Symbols in ");
                        r.append(so.as_str());
                        r.append(" (");
                        r.append(text::decimal_string(info.symbols.len() as u64).as_str());
                        r.append("):\n");
                        r.append(text::join_strings(&info.symbols, "\n").as_str());
                        r
                    },
                    None => String::from_str("❌ .so not loaded: ").concat(so.as_str()),
                };
                UnifiedOutcome::Done(Ok(reply))
            },
            P2PVerb::ReloadSo(so) => {
                if self.loaded_sos.contains_key(so.as_str()) {
                    UnifiedOutcome::NeedsRuntime(P2PVerb::ReloadSo(so))
                } else {
                    UnifiedOutcome::Done(
                        Ok(String::from_str("❌ .so not found for reload: ").concat(so.as_str())),
                    )
                }
            },
            P2PVerb::CompileToBinary(name, source, t) => {
                if text::str_eq(t.as_str(), "bin") || text::str_eq(t.as_str(), "lib")
                    || text::str_eq(t.as_str(), "so") {
                    UnifiedOutcome::NeedsRuntime(P2PVerb::CompileToBinary(name, source, t))
                } else {
                    UnifiedOutcome::Done(Err(String::from_str("Invalid output type. Use: bin, lib, or so")))
                }
            },
            P2PVerb::CallRustcMain(args) => {
                if !self.rustc_driver_loaded {
                    UnifiedOutcome::Done(
                        Err(String::from_str("rustc_driver not loaded. Use LoadRustcDriver first.")),
                    )
                } else if !self.loaded_sos.contains_key("rustc_driver") {
                    UnifiedOutcome::Done(Err(String::from_str("rustc_driver SO not found")))
                } else {
                    UnifiedOutcome::NeedsRuntime(P2PVerb::CallRustcMain(args))
                }
            },
            P2PVerb::GetRustcVersion => {
                if !self.rustc_driver_loaded {
                    UnifiedOutcome::Done(Err(String::from_str("rustc_driver not loaded")))
                } else if !self.loaded_sos.contains_key("rustc_driver") {
                    UnifiedOutcome::Done(Err(String::from_str("rustc_driver SO not found")))
                } else {
                    UnifiedOutcome::NeedsRuntime(P2PVerb::GetRustcVersion)
                }
            },
            P2PVerb::CompileSelf => {
                if !self.rustc_driver_loaded {
                    UnifiedOutcome::Done(
                        Err(String::from_str("rustc_driver not loaded for self-compilation")),
                    )
                } else if !self.loaded_sos.contains_key("rustc_driver") {
                    UnifiedOutcome::Done(Err(String::from_str("rustc_driver SO not found")))
                } else {
                    UnifiedOutcome::NeedsRuntime(P2PVerb::CompileSelf)
                }
            },
            P2PVerb::LoadCargo(path) => {
                if text::ends_with(path.as_str(), ".so") {
                    UnifiedOutcome::NeedsRuntime(P2PVerb::LoadCargo(path))
                } else {
                    let reply = String::from_str("📦 Loaded Cargo: Loaded binary path: ").concat(
                        path.as_str(),
                    );
                    self.cargo_loaded = true;
                    self.cargo_path = Some(path);
                    UnifiedOutcome::Done(Ok(reply))
                }
            },
            P2PVerb::CallCargoMain(args) => {
                if !self.cargo_loaded {
                    UnifiedOutcome::Done(Err(String::from_str("Cargo not loaded. Use LoadCargo first.")))
                } else if self.cargo_path.is_none() {
                    UnifiedOutcome::Done(Err(String::from_str("No Cargo path available")))
                } else {
                    UnifiedOutcome::NeedsRuntime(P2PVerb::CallCargoMain(args))
                }
            },
            P2PVerb::GetSelfStatus => {
                let mut r = String::from_str("📊 Server status: Loaded SOs: ");
                r.append(text::decimal_string(self.loaded_sos.len() as u64).as_str());
                r.append(", Rustc: ");
                r.append(if self.rustc_driver_loaded { "true" } else { "false" });
                r.append(", Cargo: ");
                r.append(if self.cargo_loaded { "true" } else { "false" });
                r.append(", Functions: ");
                r.append(text::decimal_string(self.function_analyses.len() as u64).as_str());
                proof {
                    self.function_analyses.lemma_len();
                    assert(self@.analyses.dom() =~= self.function_analyses@.dom());
                    self.loaded_sos.lemma_len();
                }
                UnifiedOutcome::Done(Ok(r))
            },
            P2PVerb::CalculateLattice(f, coords) => {
                let energy = lattice_energy(&coords);
                let classification = classify_function(f.as_str(), energy);
                let mut reply = String::from_str("🧮 Calculated lattice for ");
                reply.append(f.as_str());
                reply.append(": energy=");
                reply.append(text::decimal_string(energy).as_str());
                let ghost old_analyses = self.function_analyses@;
                let ghost old_lattice = self.lattice_cache@;
                let ghost cv = coords@;
                let analysis = FunctionAnalysis {
                    name: f.clone(),
                    coordinates: coords.clone(),
                    energy,
                    classification,
                    size: 0,
                };
                self.function_analyses.insert(f.clone(), analysis);
                self.lattice_cache.insert(f, coords);
                proof {
                    assert(self@.analyses =~= s0.analyses.insert(
                        f@,
                        AnalysisView {
                            name: f@,
                            coordinates: cv,
                            energy: coords_sum(cv) as u64,
                            classification: classification_of(f@, coords_sum(cv) as u64),
                            size: 0,
                        },
                    ));
                    assert(self@.lattice =~= s0.lattice.insert(f@, cv));
                }
                UnifiedOutcome::Done(Ok(reply))
            },
            P2PVerb::CompareEnergy(f1, f2) => {
                let e1: u64 = match self.function_analyses.get(f1.as_str()) {
                    Some(a) => a.energy,
                    None => 0,
                };
                let e2: u64 = match self.function_analyses.get(f2.as_str()) {
                    Some(a) => a.energy,
                    None => 0,
                };
                let word = if e1 > e2 {
                    "higher"
                } else if e1 < e2 {
                    "lower"
                } else {
                    "equal"
                };
                let mut r = String::from_str("⚡ ");
                r.append(f1.as_str());
                r.append(" has ");
                r.append(word);
                r.append(" energy than ");
                r.append(f2.as_str());
                r.append(" (");
                r.append(text::decimal_string(e1).as_str());
                r.append(" vs ");
                r.append(text::decimal_string(e2).as_str());
                r.append(")");
                assert(e1 == energy_of(s0, f1@));
                assert(e2 == energy_of(s0, f2@));
                UnifiedOutcome::Done(Ok(r))
            },
            P2PVerb::RegisterPeer(peer) => {
                let reply = String::from_str("🌐 Registered peer: ").concat(peer.peer_id.as_str());
                let id = peer.peer_id.clone();
                self.peers.insert(id, peer);
                UnifiedOutcome::Done(Ok(reply))
            },
            P2PVerb::SeedDataset(dataset) => {
                let reply = String::from_str("🌱 Seeded dataset: ").concat(
                    dataset.dataset_name.as_str(),
                );
                let name = dataset.dataset_name.clone();
                self.datasets.insert(name, dataset);
                UnifiedOutcome::Done(Ok(reply))
            },
            P2PVerb::GenerateParquet(name, out) => {
                let mut r = String::from_str("📦 Generated Parquet: ");
                r.append(name.as_str());
                r.append(" -> Generated ");
                r.append(text::decimal_string(self.function_analyses.len() as u64).as_str());
                r.append(" functions to ");
                r.append(out.as_str());
                proof {
                    self.function_analyses.lemma_len();
                    assert(self@.analyses.dom() =~= self.function_analyses@.dom());
                }
                UnifiedOutcome::Done(Ok(r))
            },
            P2PVerb::SyncGitRepo(url, branch) => {
                let status = self.git_manager.sync_repo(url.as_str(), branch.as_str());
                let mut r = String::from_str("🔄 Synced repo: ");
                r.append(url.as_str());
                r.append(" (");
                r.append(status.as_str());
                r.append(")");
                UnifiedOutcome::Done(Ok(r))
            },
            P2PVerb::PublishToHF(name, repo) => {
                let status = self.hf_manager.publish_dataset(name.as_str(), repo.as_str());
                let mut r = String::from_str("🤗 Published to HuggingFace: ");
                r.append(name.as_str());
                r.append(" -> ");
                r.append(status.as_str());
                UnifiedOutcome::Done(Ok(r))
            },
            P2PVerb::StartTrace(c, phase) => {
                let mut r = String::from_str("🔍 Started trace: ");
                r.append(c.as_str());
                r.append("_");
                r.append(phase.as_str());
                UnifiedOutcome::Done(Ok(r))
            },
            P2PVerb::Extract(source, selector) => {
                let mut r = String::from_str("📤 Extracted from ");
                r.append(source.as_str());
                r.append(": 0 bytes");
                UnifiedOutcome::Done(Ok(r))
            },
            P2PVerb::CompileSource(a, b) => UnifiedOutcome::NeedsRuntime(P2PVerb::CompileSource(a, b)),
            P2PVerb::CompileAndLoad(a, b) => UnifiedOutcome::NeedsRuntime(P2PVerb::CompileAndLoad(a, b)),
            P2PVerb::LoadMultipleSo(l) => UnifiedOutcome::NeedsRuntime(P2PVerb::LoadMultipleSo(l)),
            P2PVerb::LoadRustcDriver(p) => UnifiedOutcome::NeedsRuntime(P2PVerb::LoadRustcDriver(p)),
            P2PVerb::CompileViaRustc(a, b, c) => UnifiedOutcome::NeedsRuntime(
                P2PVerb::CompileViaRustc(a, b, c),
            ),
            P2PVerb::CargoBuild(a, b) => UnifiedOutcome::NeedsRuntime(P2PVerb::CargoBuild(a, b)),
            P2PVerb::CargoRun(a, b) => UnifiedOutcome::NeedsRuntime(P2PVerb::CargoRun(a, b)),
            P2PVerb::CargoTest(a, b) => UnifiedOutcome::NeedsRuntime(P2PVerb::CargoTest(a, b)),
            P2PVerb::RebootSelf => UnifiedOutcome::NeedsRuntime(P2PVerb::RebootSelf),
            P2PVerb::UpdateSelf(a) => UnifiedOutcome::NeedsRuntime(P2PVerb::UpdateSelf(a)),
            _ => UnifiedOutcome::Done(Ok(String::from_str("🤖 Verb executed"))),
        }
    }
}


/// The exported code symbol a line of `nm -D` lists: the third word of a
/// line of at least three words whose second is `T` or `W`.
pub open spec fn nm_symbol(line: Seq<char>) -> Option<Seq<char>> {
    let w = text::words(line);
    if w.len() >= 3 && (w[1] == "T"@ || w[1] == "W"@) {
        Some(w[2])
    } else {
        None
    }
}

/// The exported code symbols of the lines, in order.
pub open spec fn nm_symbols(ls: Seq<Seq<char>>) -> Seq<Seq<char>>
    decreases ls.len(),
{
    if ls.len() == 0 {
        Seq::empty()
    } else {
        match nm_symbol(ls.last()) {
            Some(s) => nm_symbols(ls.drop_last()).push(s),
            None => nm_symbols(ls.drop_last()),
        }
    }
}

/// Reads the exported code symbols from the output of `nm -D`.
pub fn symbols_from_nm(output: &str) -> (r: Vec<String>)
    ensures
        text::string_views(r@) == nm_symbols(text::lines(output@)),
{
    proof {
        reveal_strlit("T");
        reveal_strlit("W");
    }
    let ls = text::lines_of(output);
    let ghost lv = text::string_views(ls@);
    let mut r: Vec<String> = Vec::new();
    let mut i: usize = 0;
    assert(text::string_views(r@) =~= nm_symbols(lv.take(0)));
    while i < ls.len()
        invariant
            lv == text::string_views(ls@),
            lv == text::lines(output@),
            i <= lv.len(),
            text::string_views(r@) == nm_symbols(lv.take(i as int)),
        decreases lv.len() - i,
    {
        let w = text::split_words(ls[i].as_str());
        assert(lv.take(i + 1).drop_last() =~= lv.take(i as int));
        assert(lv[i as int] == ls@[i as int]@);
        assert(text::string_views(w@) == w@.map_values(|x: String| x@));
        if w.len() >= 3 && (text::str_eq(w[1].as_str(), "T") || text::str_eq(w[1].as_str(), "W")) {
            let ghost before = text::string_views(r@);
            r.push(w[2].clone());
            assert(text::string_views(r@) =~= before.push(w@[2]@));
        }
        i = i + 1;
    }
    assert(lv.take(lv.len() as int) =~= lv);
    r
}

/// The name parts of functions that only call others.
pub open spec fn wrapper_patterns() -> Seq<Seq<char>> {
    seq!["run_compiler"@, "interface"@, "driver"@, "compile"@, "main"@]
}

/// The symbol once for each of the first `k` patterns its lowercase form
/// contains.
pub open spec fn pattern_hits(sym: Seq<char>, k: nat) -> Seq<Seq<char>>
    decreases k,
{
    if k == 0 {
        Seq::empty()
    } else {
        let rest = pattern_hits(sym, (k - 1) as nat);
        if text::contains_sub(crate::retro_games::lowercase(sym), wrapper_patterns()[k - 1]) {
            rest.push(sym)
        } else {
            rest
        }
    }
}

/// For each symbol in turn, the symbol once per pattern it matches.
pub open spec fn call_only_hits(syms: Seq<Seq<char>>) -> Seq<Seq<char>>
    decreases syms.len(),
{
    if syms.len() == 0 {
        Seq::empty()
    } else {
        call_only_hits(syms.drop_last()) + pattern_hits(syms.last(), 5)
    }
}

/// The symbols that look like functions that only call others: each
/// symbol once per pattern (`run_compiler`, `interface`, `driver`,
/// `compile`, `main`) its lowercase form contains.
pub fn call_only_functions(symbols: &Vec<String>) -> (r: Vec<String>)
    ensures
        text::string_views(r@) == call_only_hits(text::string_views(symbols@)),
{
    let ghost sv = text::string_views(symbols@);
    let mut patterns: Vec<&str> = Vec::new();
    patterns.push("run_compiler");
    patterns.push("interface");
    patterns.push("driver");
    patterns.push("compile");
    patterns.push("main");
    assert(patterns@.map_values(|p: &str| p@) =~= wrapper_patterns());
    let mut r: Vec<String> = Vec::new();
    let mut i: usize = 0;
    assert(text::string_views(r@) =~= call_only_hits(sv.take(0)));
    while i < symbols.len()
        invariant
            sv == text::string_views(symbols@),
            i <= sv.len(),
            patterns@.len() == 5,
            patterns@.map_values(|p: &str| p@) == wrapper_patterns(),
            text::string_views(r@) == call_only_hits(sv.take(i as int)),
        decreases sv.len() - i,
    {
        let lower = crate::retro_games::to_lowercase(symbols[i].as_str());
        let ghost head = text::string_views(r@);
        let mut k: usize = 0;
        assert(head + pattern_hits(sv[i as int], 0) =~= head);
        while k < 5
            invariant
                sv == text::string_views(symbols@),
                i < sv.len(),
                k <= 5,
                patterns@.len() == 5,
                patterns@.map_values(|p: &str| p@) == wrapper_patterns(),
                lower@ == crate::retro_games::lowercase(sv[i as int]),
                text::string_views(r@) == head + pattern_hits(sv[i as int], k as nat),
            decreases 5 - k,
        {
            assert(patterns@[k as int]@ == wrapper_patterns()[k as int]);
            if text::contains_str(lower.as_str(), patterns[k]) {
                let ghost before = text::string_views(r@);
                r.push(symbols[i].clone());
                assert(text::string_views(r@) =~= before.push(sv[i as int]));
            }
            k = k + 1;
        }
        assert(sv.take(i + 1).drop_last() =~= sv.take(i as int));
        assert(text::string_views(r@) =~= call_only_hits(sv.take(i + 1)));
        i = i + 1;
    }
    assert(sv.take(sv.len() as int) =~= sv);
    r
}

impl UnifiedP2PServer {
    /// The call-only candidates among the symbols of the loaded compiler
    /// driver; none where it is not loaded.
    pub fn find_call_only_functions(&self) -> (r: Vec<String>)
        requires
            self.wf(),
        ensures
            self@.loaded_sos.contains_key("rustc_driver"@) ==> text::string_views(r@) == call_only_hits(
                text::string_views(self@.loaded_sos["rustc_driver"@].symbols@),
            ),
            !self@.loaded_sos.contains_key("rustc_driver"@) ==> r@.len() == 0,
    {
        match self.loaded_sos.get("rustc_driver") {
            Some(so) => call_only_functions(&so.symbols),
            None => Vec::new(),
        }
    }
}

} // verus!
