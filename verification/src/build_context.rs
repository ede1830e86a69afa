//! Execution contexts that a build definition can be expanded into. The
//! expansion itself is not written yet: each expander produces nothing and
//! `ContextExpander::expand_to_context` returns a fixed placeholder line.
use vstd::prelude::*;
use vstd::string::*;

verus! {

/// Shell-script context. Produces nothing yet.
pub fn expand_bash_context() {
}

/// Nix-expression context. Produces nothing yet.
pub fn expand_nix_context() {
}

/// Dockerfile context. Produces nothing yet.
pub fn expand_docker_context() {
}

/// systemd-unit context. Produces nothing yet.
pub fn expand_systemd_context() {
}

/// The contexts an expander knows, in order.
pub open spec fn default_contexts() -> Seq<Seq<char>> {
    seq![
        "cargo"@,
        "bash"@,
        "nix"@,
        "docker"@,
        "systemd"@,
        "python"@,
        "powershell"@,
    ]
}

/// What every expansion returns for now.
pub open spec fn expansion_placeholder() -> Seq<char> {
    "// Context expansion placeholder"@
}

/// Expands a build definition into the contexts it lists.
pub struct ContextExpander {
    pub contexts: Vec<String>,
}

impl ContextExpander {
    /// The names of the expander's contexts.
    pub open spec fn context_names(&self) -> Seq<Seq<char>> {
        self.contexts@.map_values(|c: String| c@)
    }

    /// An expander over the seven known contexts.
    pub fn new() -> (e: Self)
        ensures
            e.context_names() == default_contexts(),
    {
        let mut contexts: Vec<String> = Vec::new();
        contexts.push(String::from_str("cargo"));
        contexts.push(String::from_str("bash"));
        contexts.push(String::from_str("nix"));
        contexts.push(String::from_str("docker"));
        contexts.push(String::from_str("systemd"));
        contexts.push(String::from_str("python"));
        contexts.push(String::from_str("powershell"));
        let e = ContextExpander { contexts };
        assert(e.context_names() =~= default_contexts());
        e
    }

    /// The definition expanded for the context: the placeholder line, whatever
    /// the context and definition.
    pub fn expand_to_context(&self, context: &str, definition: &str) -> (r: String)
        ensures
            r@ == expansion_placeholder(),
    {
        String::from_str("// Context expansion placeholder")
    }
}

} // verus!
