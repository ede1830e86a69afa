//! The zero-dependency foundation: security levels, plugin metadata, the
//! plugin traits, the compiler event stream of the plugin driver, and the
//! verbs of the shared-library wrapper.
use vstd::prelude::*;

verus! {

/// How much a plugin may do, from safe to critical.
#[derive(Debug, Clone, Copy, PartialEq, Eq, PartialOrd, Ord, Structural)]
pub enum SecurityLevel {
    Safe,
    Controlled,
    Privileged,
    Critical,
}

/// The number of a security level.
pub open spec fn level_value(l: SecurityLevel) -> u8 {
    match l {
        SecurityLevel::Safe => 0,
        SecurityLevel::Controlled => 1,
        SecurityLevel::Privileged => 2,
        SecurityLevel::Critical => 3,
    }
}

impl SecurityLevel {
    /// The level's number: 0 for safe up to 3 for critical.
    pub fn value(&self) -> (v: u8)
        ensures
            v == level_value(*self),
    {
        match self {
            SecurityLevel::Safe => 0,
            SecurityLevel::Controlled => 1,
            SecurityLevel::Privileged => 2,
            SecurityLevel::Critical => 3,
        }
    }
}

/// A reference to an orbit of the LMFDB, by its identifiers only.
pub struct LMFDBOrbitRef {
    pub orbit_id: String,
    pub complexity_class: String,
    pub lmfdb_url: String,
}

/// What a plugin declares about itself.
pub struct PluginMeta {
    pub name: String,
    pub version: String,
    pub security_level: SecurityLevel,
    pub lmfdb_orbit: Option<LMFDBOrbitRef>,
}

/// How far a seat holder leads the next contender.
#[derive(Debug, Clone, Copy, PartialEq, Eq, Structural)]
pub enum ThreatLevel {
    Safe,
    Comfortable,
    Threatened,
    Critical,
    Overtaken,
}

/// An event of the compiler: its type and its data.
pub struct CompilerEvent {
    pub event_type: u32,
    pub data: Vec<u8>,
}

/// The stream of compiler events the plugins react to.
pub struct PluginDriver {
    stream: Vec<CompilerEvent>,
}

impl PluginDriver {
    /// The events, oldest first.
    pub closed spec fn events(&self) -> Seq<CompilerEvent> {
        self.stream@
    }

    /// No events.
    pub fn new() -> (d: Self)
        ensures
            d.events().len() == 0,
    {
        PluginDriver { stream: Vec::new() }
    }

    /// Adds an event at the end.
    pub fn react(self, event: CompilerEvent) -> (d: Self)
        ensures
            d.events() == self.events().push(event),
    {
        let mut s = self.stream;
        s.push(event);
        PluginDriver { stream: s }
    }

    /// The events.
    pub fn extract(&self) -> (r: &[CompilerEvent])
        ensures
            r@ == self.events(),
    {
        self.stream.as_slice()
    }

    /// Replaces every event by what `f` makes of it, keeping the order.
    pub fn bind<F: Fn(CompilerEvent) -> CompilerEvent>(self, f: F) -> (d: Self)
        requires
            forall|e: CompilerEvent| #[trigger] f.requires((e,)),
        ensures
            d.events().len() == self.events().len(),
            forall|i: int| 0 <= i < self.events().len() ==> f.ensures((self.events()[i],), #[trigger] d.events()[i]),
    {
        let ghost orig = self.stream@;
        let n = self.stream.len();
        let mut rest = self.stream;
        let mut rev: Vec<CompilerEvent> = Vec::new();
        while rest.len() > 0
            invariant
                forall|e: CompilerEvent| #[trigger] f.requires((e,)),
                n == orig.len(),
                rest@ == orig.take(rest@.len() as int),
                rest@.len() + rev@.len() == n,
                forall|k: int| 0 <= k < rev@.len() ==> f.ensures((orig[n - 1 - k],), #[trigger] rev@[k]),
            decreases rest@.len(),
        {
            let e = rest.pop().unwrap();
            proof {
                assert(e == orig[rest@.len() as int]);
                assert(orig.take(rest@.len() as int) =~= orig.take(rest@.len() as int + 1).drop_last());
            }
            rev.push(f(e));
        }
        let mut out: Vec<CompilerEvent> = Vec::new();
        while rev.len() > 0
            invariant
                n == orig.len(),
                out@.len() + rev@.len() == n,
                forall|k: int| 0 <= k < rev@.len() ==> f.ensures((orig[n - 1 - k],), #[trigger] rev@[k]),
                forall|k: int| 0 <= k < out@.len() ==> f.ensures((orig[k],), #[trigger] out@[k]),
            decreases rev@.len(),
        {
            let ghost k = rev@.len() - 1;
            let e = rev.pop().unwrap();
            proof {
                assert(f.ensures((orig[n - 1 - k],), e));
                assert(n - 1 - k == out@.len());
            }
            out.push(e);
        }
        PluginDriver { stream: out }
    }
}

/// A verb of the shared-library wrapper.
pub enum LibVerb {
    LoadLib(String),
    ReloadLib,
    ListSymbols,
    ReadSymbol(String),
    InvokeSymbol(String),
    GetLibInfo,
    SaveResults(String),
}

/// What a verb needs: a library to load from a path, or the reply.
pub enum LibStep {
    Load(String),
    Reply(String),
    Fail(String),
}

/// The path of the library the wrapper last loaded.
pub struct LibWrapperState {
    pub library_path: Option<String>,
}

/// What a verb asks for, given the path last loaded.
pub open spec fn lib_step(path: Option<Seq<char>>, verb: LibVerb) -> (Option<Seq<char>>, Option<Seq<char>>, Option<Seq<char>>) {
    match verb {
        LibVerb::LoadLib(p) => (Some(p@), None, None),
        LibVerb::ReloadLib => match path {
            Some(p) => (Some(p), None, None),
            None => (None, None, Some("No library path set"@)),
        },
        LibVerb::ListSymbols => (None, Some("Symbol listing complete"@), None),
        LibVerb::ReadSymbol(n) => (None, Some("Symbol "@ + n@ + " read"@), None),
        LibVerb::InvokeSymbol(n) => (None, Some("Symbol "@ + n@ + " invoked"@), None),
        LibVerb::GetLibInfo => (None, Some("Library info retrieved"@), None),
        LibVerb::SaveResults(p) => (None, Some("Results saved to "@ + p@), None),
    }
}

/// The view of a step: the path to load, the reply, the error.
pub open spec fn step_view(s: LibStep) -> (Option<Seq<char>>, Option<Seq<char>>, Option<Seq<char>>) {
    match s {
        LibStep::Load(p) => (Some(p@), None, None),
        LibStep::Reply(r) => (None, Some(r@), None),
        LibStep::Fail(e) => (None, None, Some(e@)),
    }
}

impl LibWrapperState {
    /// No library loaded.
    pub fn new() -> (s: Self)
        ensures
            s.library_path is None,
    {
        LibWrapperState { library_path: None }
    }

    /// What a verb asks for: loading (a given path, or the last one again),
    /// or its reply.
    pub fn execute_verb(&self, verb: LibVerb) -> (r: LibStep)
        ensures
            step_view(r) == lib_step(
                match self.library_path {
                    Some(p) => Some(p@),
                    None => None,
                },
                verb,
            ),
    {
        match verb {
            LibVerb::LoadLib(p) => LibStep::Load(p),
            LibVerb::ReloadLib => match &self.library_path {
                Some(p) => LibStep::Load(p.clone()),
                None => LibStep::Fail(String::from_str("No library path set")),
            },
            LibVerb::ListSymbols => LibStep::Reply(String::from_str("Symbol listing complete")),
            LibVerb::ReadSymbol(n) => {
                let mut r = String::from_str("Symbol ");
                r.append(n.as_str());
                r.append(" read");
                LibStep::Reply(r)
            },
            LibVerb::InvokeSymbol(n) => {
                let mut r = String::from_str("Symbol ");
                r.append(n.as_str());
                r.append(" invoked");
                LibStep::Reply(r)
            },
            LibVerb::GetLibInfo => LibStep::Reply(String::from_str("Library info retrieved")),
            LibVerb::SaveResults(p) => {
                let mut r = String::from_str("Results saved to ");
                r.append(p.as_str());
                LibStep::Reply(r)
            },
        }
    }

    /// After a library at `path` loaded: it is the one to reload, and the
    /// reply says so.
    pub fn library_loaded(&mut self, path: String) -> (r: String)
        ensures
            final(self).library_path == Some(path),
            r@ == "Library loaded successfully"@,
    {
        self.library_path = Some(path);
        String::from_str("Library loaded successfully")
    }
}

} // verus!
