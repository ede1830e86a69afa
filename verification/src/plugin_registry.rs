//! The registry of shared-object plugins: which versions the DAO approved,
//! which registrations are accepted, which plugins may be loaded, and the
//! registry's status report.
use vstd::prelude::*;
use crate::strmap::StrMap;
use crate::sync::{json_quote, json_quoted};
use crate::text;

verus! {

/// A service a plugin offers.
pub struct ServiceDefinition {
    pub name: String,
    pub function_name: String,
    pub input_type: String,
    pub output_type: String,
    pub access_level: String,
}

/// What is known of a plugin.
pub struct PluginMetadata {
    pub name: String,
    pub version: String,
    pub so_path: String,
    pub so_hash: String,
    pub dao_approved: bool,
    pub test_env_passed: bool,
    pub services: Vec<ServiceDefinition>,
}

/// The registered plugins, the DAO-approved hash of each plugin, and the
/// services of each loaded plugin.
pub struct PluginRegistry {
    pub plugin_registry: StrMap<PluginMetadata>,
    pub dao_approved: StrMap<String>,
    pub loaded_plugins: StrMap<Vec<String>>,
}

/// Why a registration is refused, if it is: the DAO approved another
/// version, or the plugin claims an approval the DAO never gave.
pub open spec fn registration_error(approved: Map<Seq<char>, String>, m: PluginMetadata) -> Option<Seq<char>> {
    if approved.contains_key(m.name@) {
        if approved[m.name@]@ != m.so_hash@ {
            Some("Plugin version not DAO approved"@)
        } else {
            None
        }
    } else if m.dao_approved {
        Some("Plugin claims DAO approval but not in registry"@)
    } else {
        None
    }
}

impl PluginRegistry {
    /// The maps are well formed.
    pub open spec fn wf(&self) -> bool {
        &&& self.plugin_registry.wf()
        &&& self.dao_approved.wf()
        &&& self.loaded_plugins.wf()
    }

    /// Nothing registered, approved or loaded.
    pub fn new() -> (r: Self)
        ensures
            r.wf(),
            r.plugin_registry@ == Map::<Seq<char>, PluginMetadata>::empty(),
            r.dao_approved@ == Map::<Seq<char>, String>::empty(),
            r.loaded_plugins@ == Map::<Seq<char>, Vec<String>>::empty(),
    {
        PluginRegistry { plugin_registry: StrMap::new(), dao_approved: StrMap::new(), loaded_plugins: StrMap::new() }
    }

    /// Registers a plugin unless `registration_error` refuses it.
    pub fn register_plugin(&mut self, metadata: PluginMetadata) -> (r: Result<(), String>)
        requires
            old(self).wf(),
        ensures
            final(self).wf(),
            final(self).dao_approved@ == old(self).dao_approved@,
            final(self).loaded_plugins@ == old(self).loaded_plugins@,
            match registration_error(old(self).dao_approved@, metadata) {
                Some(e) => r is Err && r->Err_0@ == e && final(self).plugin_registry@ == old(self).plugin_registry@,
                None => r is Ok && final(self).plugin_registry@ == old(self).plugin_registry@.insert(metadata.name@, metadata),
            },
    {
        match self.dao_approved.get(metadata.name.as_str()) {
            Some(hash) => {
                if !text::str_eq(hash.as_str(), metadata.so_hash.as_str()) {
                    return Err(String::from_str("Plugin version not DAO approved"));
                }
            },
            None => {
                if metadata.dao_approved {
                    return Err(String::from_str("Plugin claims DAO approval but not in registry"));
                }
            },
        }
        let name = metadata.name.clone();
        self.plugin_registry.insert(name, metadata);
        Ok(())
    }

    /// The shared object to load for a plugin: it must be registered and
    /// approved for production.
    pub fn load_check(&self, plugin_name: &str) -> (r: Result<String, String>)
        requires
            self.wf(),
        ensures
            !self.plugin_registry@.contains_key(plugin_name@) ==> r is Err && r->Err_0@ == "Plugin not registered"@,
            self.plugin_registry@.contains_key(plugin_name@) && !self.plugin_registry@[plugin_name@].dao_approved
                ==> r is Err && r->Err_0@ == "Plugin not DAO approved for production"@,
            self.plugin_registry@.contains_key(plugin_name@) && self.plugin_registry@[plugin_name@].dao_approved
                ==> r is Ok && r->Ok_0@ == self.plugin_registry@[plugin_name@].so_path@,
    {
        match self.plugin_registry.get(plugin_name) {
            None => Err(String::from_str("Plugin not registered")),
            Some(m) => {
                if !m.dao_approved {
                    Err(String::from_str("Plugin not DAO approved for production"))
                } else {
                    Ok(m.so_path.clone())
                }
            },
        }
    }

    /// Records a loaded plugin and its services.
    pub fn record_loaded(&mut self, plugin_name: &str, services: Vec<String>)
        requires
            old(self).wf(),
        ensures
            final(self).wf(),
            final(self).loaded_plugins@ == old(self).loaded_plugins@.insert(plugin_name@, services),
            final(self).plugin_registry@ == old(self).plugin_registry@,
            final(self).dao_approved@ == old(self).dao_approved@,
    {
        self.loaded_plugins.insert(String::from_str(plugin_name), services);
    }

    /// The DAO approves a plugin version; a registration with that hash is
    /// marked approved.
    pub fn dao_approve_plugin(&mut self, plugin_name: &str, so_hash: &str)
        requires
            old(self).wf(),
        ensures
            final(self).wf(),
            final(self).dao_approved@.dom() == old(self).dao_approved@.dom().insert(plugin_name@),
            final(self).dao_approved@[plugin_name@]@ == so_hash@,
            forall|k: Seq<char>| k != plugin_name@ && #[trigger] old(self).dao_approved@.contains_key(k) ==> final(self).dao_approved@[k] == old(self).dao_approved@[k],
            final(self).loaded_plugins@ == old(self).loaded_plugins@,
            final(self).plugin_registry@.dom() == old(self).plugin_registry@.dom(),
            forall|k: Seq<char>| #[trigger] old(self).plugin_registry@.contains_key(k) ==> {
                let m0 = old(self).plugin_registry@[k];
                let m1 = final(self).plugin_registry@[k];
                &&& m1.name == m0.name
                &&& m1.version == m0.version
                &&& m1.so_path == m0.so_path
                &&& m1.so_hash == m0.so_hash
                &&& m1.test_env_passed == m0.test_env_passed
                &&& m1.services == m0.services
                &&& m1.dao_approved == (m0.dao_approved || (k == plugin_name@ && m0.so_hash@ == so_hash@))
            },
    {
        self.dao_approved.insert(String::from_str(plugin_name), String::from_str(so_hash));
        assert(self.dao_approved@.dom() =~= old(self).dao_approved@.dom().insert(plugin_name@));
        match self.plugin_registry.find(plugin_name) {
            None => {},
            Some(i) => {
                proof {
                    self.plugin_registry.lemma_entry(i as int);
                }
                let ghost pre = self.plugin_registry;
                let m = self.plugin_registry.value_mut_at(i);
                if text::str_eq(m.so_hash.as_str(), so_hash) {
                    m.dao_approved = true;
                }
                proof {
                    pre.lemma_update_at(&self.plugin_registry, i as int, self.plugin_registry.val_seq()[i as int]);
                    assert(self.plugin_registry@.dom() =~= pre@.dom());
                }
            },
        }
    }
}

/// The directory a plugin is tested in.
pub fn sandbox_dir(plugin_name: &str) -> (r: String)
    ensures
        r@ == "/tmp/zos_plugin_test_"@ + plugin_name@,
{
    let mut r = String::from_str("/tmp/zos_plugin_test_");
    r.append(plugin_name);
    r
}

/// The JSON of a boolean.
pub open spec fn json_bool(b: bool) -> Seq<char> {
    if b {
        "true"@
    } else {
        "false"@
    }
}

/// The status entry of one registered plugin, keys in alphabetical order.
pub open spec fn plugin_entry(name: Seq<char>, m: PluginMetadata, loaded: bool) -> Seq<char> {
    "{\"dao_approved\":"@ + json_bool(m.dao_approved) + ",\"loaded\":"@ + json_bool(loaded) + ",\"name\":"@
        + json_quoted(name) + ",\"services\":"@ + text::decimal(m.services@.len()) + ",\"version\":"@ + json_quoted(
        m.version@,
    ) + "}"@
}

/// The status report: the counts and an entry per registered plugin (in
/// storage order), as compact JSON with keys in alphabetical order.
pub open spec fn status_json(r: PluginRegistry) -> Seq<char> {
    let ks = r.plugin_registry.key_seq();
    let vs = r.plugin_registry.val_seq();
    let entries = Seq::new(
        ks.len(),
        |i: int| plugin_entry(ks[i], vs[i], r.loaded_plugins@.contains_key(ks[i])),
    );
    "{\"dao_approved\":"@ + text::decimal(r.dao_approved@.dom().len()) + ",\"loaded_plugins\":"@ + text::decimal(
        r.loaded_plugins@.dom().len(),
    ) + ",\"plugins\":["@ + text::join(entries, ","@) + "],\"registered_plugins\":"@ + text::decimal(
        r.plugin_registry@.dom().len(),
    ) + "}"@
}

/// Writes a boolean.
fn bool_text(b: bool) -> (r: &'static str)
    ensures
        r@ == json_bool(b),
{
    if b {
        "true"
    } else {
        "false"
    }
}

impl PluginRegistry {
    /// The registry's status as JSON; see `status_json`.
    pub fn get_plugin_status(&self) -> (r: String)
        requires
            self.wf(),
        ensures
            r@ == status_json(*self),
    {
        proof {
            self.plugin_registry.lemma_len();
            self.dao_approved.lemma_len();
            self.loaded_plugins.lemma_len();
        }
        let ghost ks = self.plugin_registry.key_seq();
        let ghost vs = self.plugin_registry.val_seq();
        let ghost entries = Seq::new(
            ks.len(),
            |i: int| plugin_entry(ks[i], vs[i], self.loaded_plugins@.contains_key(ks[i])),
        );
        let n = self.plugin_registry.len();
        let mut parts: Vec<String> = Vec::new();
        let mut i: usize = 0;
        while i < n
            invariant
                self.wf(),
                ks == self.plugin_registry.key_seq(),
                vs == self.plugin_registry.val_seq(),
                n == ks.len(),
                n == vs.len(),
                entries == Seq::new(
                    ks.len(),
                    |i: int| plugin_entry(ks[i], vs[i], self.loaded_plugins@.contains_key(ks[i])),
                ),
                i <= n,
                text::string_views(parts@) == entries.take(i as int),
            decreases n - i,
        {
            let name = self.plugin_registry.key_at(i);
            let m = self.plugin_registry.value_at(i);
            let loaded = self.loaded_plugins.contains_key(name.as_str());
            let mut e = String::from_str("{\"dao_approved\":");
            e.append(bool_text(m.dao_approved));
            e.append(",\"loaded\":");
            e.append(bool_text(loaded));
            e.append(",\"name\":");
            let qn = json_quote(name.as_str());
            e.append(qn.as_str());
            e.append(",\"services\":");
            let sc = text::decimal_string(m.services.len() as u64);
            e.append(sc.as_str());
            e.append(",\"version\":");
            let qv = json_quote(m.version.as_str());
            e.append(qv.as_str());
            e.append("}");
            let ghost before = text::string_views(parts@);
            parts.push(e);
            assert(text::string_views(parts@) =~= before.push(entries[i as int]));
            assert(entries.take(i + 1) =~= entries.take(i as int).push(entries[i as int]));
            i = i + 1;
        }
        assert(entries.take(n as int) =~= entries);
        let body = text::join_strings(&parts, ",");
        let mut r = String::from_str("{\"dao_approved\":");
        let a = text::decimal_string(self.dao_approved.len() as u64);
        r.append(a.as_str());
        r.append(",\"loaded_plugins\":");
        let l = text::decimal_string(self.loaded_plugins.len() as u64);
        r.append(l.as_str());
        r.append(",\"plugins\":[");
        r.append(body.as_str());
        r.append("],\"registered_plugins\":");
        let g = text::decimal_string(n as u64);
        r.append(g.as_str());
        r.append("}");
        r
    }
}

} // verus!
