//! A node's hardware summary: which capabilities it has, given what was
//! probed on it, and its JSON form.
use vstd::prelude::*;
use crate::text;
use crate::text::decimal;

verus! {

/// What was found on the node.
pub struct CapabilityProbes {
    /// `git --version` succeeded.
    pub git: bool,
    /// `docker --version` succeeded.
    pub docker: bool,
    /// `/bin/systemctl` exists.
    pub systemctl: bool,
    /// `WSL_DISTRO_NAME` is set.
    pub wsl_distro: bool,
    /// `TERMUX_VERSION` is set.
    pub termux: bool,
    /// `tmux --version` succeeded.
    pub tmux: bool,
    /// `curl --version` succeeded.
    pub curl: bool,
    /// `wget --version` succeeded.
    pub wget: bool,
    /// `rustc --version` succeeded.
    pub rustc: bool,
    /// `CARGO_TARGET_DIR` is set.
    pub cargo_target_dir: bool,
}

/// A node's hardware summary.
pub struct HwInfo {
    pub os: String,
    pub arch: String,
    pub cores: usize,
    pub memory_kb: u64,
    pub hostname: String,
    pub rust_version: String,
    pub capabilities: Vec<String>,
}

/// `x` when `b` holds, else nothing.
pub open spec fn when(b: bool, x: Seq<char>) -> Seq<Seq<char>> {
    if b {
        seq![x]
    } else {
        Seq::empty()
    }
}

/// The capabilities of a node, in this order: git, docker, systemd (on
/// Linux), WSL (on Windows), Termux (on Android), tmux, network (curl or
/// wget), native Rust, and cross-compilation.
pub open spec fn capability_list(os: Seq<char>, p: CapabilityProbes) -> Seq<Seq<char>> {
    when(p.git, "git"@) + when(p.docker, "docker"@) + when(os == "linux"@ && p.systemctl, "systemd"@) + when(
        os == "windows"@ && p.wsl_distro,
        "wsl"@,
    ) + when(os == "android"@ && p.termux, "termux"@) + when(p.tmux, "tmux"@) + when(p.curl || p.wget, "network"@)
        + when(p.rustc, "rust_native"@) + when(p.cargo_target_dir, "rust_cross"@)
}

/// Appends `x` when `b` holds.
fn push_when(v: &mut Vec<String>, b: bool, x: &str)
    ensures
        text::string_views(final(v)@) == text::string_views(old(v)@) + when(b, x@),
{
    let ghost before = text::string_views(v@);
    if b {
        v.push(String::from_str(x));
    }
    assert(text::string_views(v@) =~= before + when(b, x@));
}

/// The JSON of a summary taken at `timestamp` seconds since the epoch.
pub open spec fn hwinfo_json(h: &HwInfo, timestamp: u64) -> Seq<char> {
    "{\n  \"os\": \""@ + h.os@ + "\",\n  \"arch\": \""@ + h.arch@ + "\",\n  \"cores\": "@ + decimal(h.cores as nat)
        + ",\n  \"memory_kb\": "@ + decimal(h.memory_kb as nat) + ",\n  \"hostname\": \""@ + h.hostname@
        + "\",\n  \"rust_version\": \""@ + h.rust_version@ + "\",\n  \"capabilities\": ["@ + text::join(
        text::string_views(h.capabilities@).map_values(|c: Seq<char>| "\""@ + c + "\""@),
        ", "@,
    ) + "],\n  \"timestamp\": \""@ + decimal(timestamp as nat) + "\"\n}"@
}

/// The capabilities the probes show on a node running `os`.
fn capabilities_for(os: &str, p: &CapabilityProbes) -> (v: Vec<String>)
    ensures
        text::string_views(v@) == capability_list(os@, *p),
{
    let linux = text::str_eq(os, "linux");
    let windows = text::str_eq(os, "windows");
    let android = text::str_eq(os, "android");
    let mut v: Vec<String> = Vec::new();
    assert(text::string_views(v@) =~= Seq::<Seq<char>>::empty());
    push_when(&mut v, p.git, "git");
    assert(text::string_views(v@) =~= when(p.git, "git"@));
    push_when(&mut v, p.docker, "docker");
    push_when(&mut v, linux && p.systemctl, "systemd");
    push_when(&mut v, windows && p.wsl_distro, "wsl");
    push_when(&mut v, android && p.termux, "termux");
    push_when(&mut v, p.tmux, "tmux");
    push_when(&mut v, p.curl || p.wget, "network");
    push_when(&mut v, p.rustc, "rust_native");
    push_when(&mut v, p.cargo_target_dir, "rust_cross");
    v
}

impl HwInfo {
    /// Nothing known yet.
    pub fn new() -> (h: Self)
        ensures
            h.os@.len() == 0 && h.arch@.len() == 0 && h.hostname@.len() == 0 && h.rust_version@.len() == 0,
            h.cores == 0 && h.memory_kb == 0,
            h.capabilities@.len() == 0,
    {
        HwInfo {
            os: String::new(),
            arch: String::new(),
            cores: 0,
            memory_kb: 0,
            hostname: String::new(),
            rust_version: String::new(),
            capabilities: Vec::new(),
        }
    }

    /// Adds the capabilities the probes show.
    pub fn detect_capabilities(&mut self, p: &CapabilityProbes)
        ensures
            text::string_views(final(self).capabilities@) == text::string_views(old(self).capabilities@)
                + capability_list(old(self).os@, *p),
            final(self).os == old(self).os,
            final(self).arch == old(self).arch,
            final(self).cores == old(self).cores,
            final(self).memory_kb == old(self).memory_kb,
            final(self).hostname == old(self).hostname,
            final(self).rust_version == old(self).rust_version,
    {
        let mut caps = capabilities_for(self.os.as_str(), p);
        let ghost c0 = self.capabilities@;
        let ghost added = caps@;
        self.capabilities.append(&mut caps);
        assert(self.capabilities@ =~= c0 + added);
        assert(text::string_views(self.capabilities@) =~= text::string_views(c0) + text::string_views(added));
    }

    /// The summary as JSON, stamped with `timestamp`.
    pub fn to_json(&self, timestamp: u64) -> (r: String)
        ensures
            r@ == hwinfo_json(self, timestamp),
    {
        let ghost want = text::string_views(self.capabilities@).map_values(|c: Seq<char>| "\""@ + c + "\""@);
        let mut quoted: Vec<String> = Vec::new();
        let mut i: usize = 0;
        while i < self.capabilities.len()
            invariant
                i <= self.capabilities@.len(),
                want == text::string_views(self.capabilities@).map_values(|c: Seq<char>| "\""@ + c + "\""@),
                text::string_views(quoted@) == want.take(i as int),
            decreases self.capabilities@.len() - i,
        {
            let mut q = String::from_str("\"");
            q.append(self.capabilities[i].as_str());
            q.append("\"");
            let ghost before = text::string_views(quoted@);
            quoted.push(q);
            assert(text::string_views(quoted@) =~= before.push(want[i as int]));
            assert(want.take(i + 1) =~= want.take(i as int).push(want[i as int]));
            i = i + 1;
        }
        assert(want.take(self.capabilities@.len() as int) =~= want);
        let caps = text::join_strings(&quoted, ", ");
        let cores = text::decimal_string(self.cores as u64);
        let mem = text::decimal_string(self.memory_kb);
        let ts = text::decimal_string(timestamp);
        let mut r = String::from_str("{\n  \"os\": \"");
        r.append(self.os.as_str());
        r.append("\",\n  \"arch\": \"");
        r.append(self.arch.as_str());
        r.append("\",\n  \"cores\": ");
        r.append(cores.as_str());
        r.append(",\n  \"memory_kb\": ");
        r.append(mem.as_str());
        r.append(",\n  \"hostname\": \"");
        r.append(self.hostname.as_str());
        r.append("\",\n  \"rust_version\": \"");
        r.append(self.rust_version.as_str());
        r.append("\",\n  \"capabilities\": [");
        r.append(caps.as_str());
        r.append("],\n  \"timestamp\": \"");
        r.append(ts.as_str());
        r.append("\"\n}");
        r
    }
}

} // verus!
