//! The bootstrap engine's decisions: the build stages of an eigenmatrix in
//! their order, which dependencies a stage still misses, what each step
//! asks for, the artifacts and completed steps it records, the lock file of
//! pinned dependencies, and the proposal of a new eigenmatrix version.
use vstd::prelude::*;
use crate::strmap::StrMap;
use crate::sync::{json_quote, json_quoted};
use crate::text;

verus! {

/// The eigenmatrix's version and adoption.
pub struct EigenMatrixMeta {
    pub version: String,
    pub bootstrap_hash: String,
    pub dao_adoption_block: u64,
    pub immutable: bool,
}

/// One step of a build stage.
pub struct BuildStep {
    pub name: String,
    pub step_type: String,
    pub path: Option<String>,
    pub source: Option<String>,
    pub output: String,
    pub description: Option<String>,
    pub lock_file: Option<String>,
    pub depends_on: Option<Vec<String>>,
    pub locked_dependencies: Option<StrMap<String>>,
    pub test_command: Option<String>,
}

/// A build stage: its order, the stages it needs, its steps.
pub struct BuildStage {
    pub name: String,
    pub order: u32,
    pub dependencies: Vec<String>,
    pub step: Vec<BuildStep>,
}

/// The hashes each stage must reproduce.
pub struct VerificationHashes {
    pub foundation_hash: String,
    pub build_system_hash: String,
    pub core_services_hash: String,
    pub complete_system_hash: String,
}

/// How the eigenmatrix may change.
pub struct GovernanceRules {
    pub required_votes: u32,
    pub voting_period_blocks: u64,
    pub proposal_deposit: String,
    pub emergency_override_seats: Vec<u32>,
}

/// The fixed sequence of the bootstrap.
pub struct ImmutableSequence {
    pub step_1: String,
    pub step_2: String,
    pub step_3: String,
    pub step_4: String,
    pub step_5: String,
    pub step_6: String,
}

/// What the bootstrap guarantees.
pub struct SecurityProperties {
    pub deterministic_builds: bool,
    pub reproducible_hashes: bool,
    pub zero_external_deps_foundation: bool,
    pub dao_controlled_updates: bool,
    pub fibonacci_governance: bool,
    pub self_hosting_verification: bool,
}

/// The whole bootstrap description.
pub struct EigenMatrix {
    pub eigenmatrix: EigenMatrixMeta,
    pub stage: Vec<BuildStage>,
    pub verification: VerificationHashes,
    pub governance: GovernanceRules,
    pub immutable_sequence: ImmutableSequence,
    pub security: SecurityProperties,
}

/// The state of a bootstrap run.
pub struct BootstrapEngine {
    pub eigenmatrix: EigenMatrix,
    pub current_stage: u32,
    pub completed_steps: Vec<String>,
    pub build_artifacts: StrMap<String>,
}

/// What a step asks the runner to do.
#[derive(Debug, Clone, Copy, PartialEq, Eq, Structural)]
pub enum StepKind {
    CrateBuild,
    LockedBuild,
    PluginBuild,
    ServiceBuild,
    Validation,
    LockGeneration,
}

/// The kind of a step type, or the error for an unknown one.
pub open spec fn step_kind_of(t: Seq<char>) -> Result<StepKind, Seq<char>> {
    if t == "crate_build"@ {
        Ok(StepKind::CrateBuild)
    } else if t == "locked_build"@ {
        Ok(StepKind::LockedBuild)
    } else if t == "plugin_build"@ {
        Ok(StepKind::PluginBuild)
    } else if t == "service_build"@ {
        Ok(StepKind::ServiceBuild)
    } else if t == "validation"@ {
        Ok(StepKind::Validation)
    } else if t == "lock_generation"@ {
        Ok(StepKind::LockGeneration)
    } else {
        Err("Unknown step type: "@ + t)
    }
}

/// Decides `step_kind_of`.
pub fn classify_step(step: &BuildStep) -> (r: Result<StepKind, String>)
    ensures
        match step_kind_of(step.step_type@) {
            Ok(k) => r == Ok::<StepKind, String>(k),
            Err(e) => r is Err && r->Err_0@ == e,
        },
{
    let t = step.step_type.as_str();
    if text::str_eq(t, "crate_build") {
        Ok(StepKind::CrateBuild)
    } else if text::str_eq(t, "locked_build") {
        Ok(StepKind::LockedBuild)
    } else if text::str_eq(t, "plugin_build") {
        Ok(StepKind::PluginBuild)
    } else if text::str_eq(t, "service_build") {
        Ok(StepKind::ServiceBuild)
    } else if text::str_eq(t, "validation") {
        Ok(StepKind::Validation)
    } else if text::str_eq(t, "lock_generation") {
        Ok(StepKind::LockGeneration)
    } else {
        let mut e = String::from_str("Unknown step type: ");
        e.append(t);
        Err(e)
    }
}

/// The directory a crate build runs in; a crate step without one cannot
/// be built.
pub fn crate_build_path(step: &BuildStep) -> (r: Result<String, String>)
    ensures
        match step.path {
            Some(p) => r is Ok && r->Ok_0@ == p@,
            None => r is Err && r->Err_0@ == "Missing path for crate_build"@,
        },
{
    match &step.path {
        Some(p) => Ok(p.clone()),
        None => Err(String::from_str("Missing path for crate_build")),
    }
}

/// The stage key: its order, then its position.
pub open spec fn stage_key_lt(orders: Seq<u32>, a: usize, b: usize) -> bool {
    orders[a as int] < orders[b as int] || (orders[a as int] == orders[b as int] && a < b)
}

/// `idx` lists every stage position once, by order and, for equal orders,
/// by position (a stable sort by order).
pub open spec fn stage_order_of(orders: Seq<u32>, idx: Seq<usize>) -> bool {
    &&& idx.len() == orders.len()
    &&& forall|i: int| 0 <= i < idx.len() ==> #[trigger] idx[i] < orders.len()
    &&& forall|i: int, j: int| 0 <= i < j < idx.len() ==> stage_key_lt(orders, #[trigger] idx[i], #[trigger] idx[j])
}

/// The orders of the stages.
pub open spec fn stage_orders(stages: Seq<BuildStage>) -> Seq<u32> {
    stages.map_values(|s: BuildStage| s.order)
}

/// The completed step that a dependency is met by: one whose name starts
/// with it.
pub open spec fn dependency_met(done: Seq<Seq<char>>, dep: Seq<char>) -> bool {
    exists|i: int| 0 <= i < done.len() && text::has_prefix(#[trigger] done[i], dep)
}

/// The first dependency that no completed step meets.
pub open spec fn first_missing(deps: Seq<Seq<char>>, done: Seq<Seq<char>>) -> Option<Seq<char>>
    decreases deps.len(),
{
    if deps.len() == 0 {
        None
    } else if !dependency_met(done, deps[0]) {
        Some(deps[0])
    } else {
        first_missing(deps.drop_first(), done)
    }
}

/// The lock file of pinned dependencies, in storage order.
pub open spec fn lock_lines(names: Seq<Seq<char>>, versions: Seq<Seq<char>>) -> Seq<char>
    decreases names.len(),
{
    if names.len() == 0 || names.len() != versions.len() {
        Seq::empty()
    } else {
        lock_lines(names.drop_last(), versions.drop_last()) + names.last() + "="@ + versions.last() + "\n"@
    }
}

/// The lock file written before a locked build.
pub fn lock_file_content(deps: &StrMap<String>) -> (r: String)
    requires
        deps.wf(),
    ensures
        r@ == "# Bootstrap lock file\n"@ + lock_lines(deps.key_seq(), text::string_views(deps.val_seq())),
{
    proof {
        deps.lemma_len();
    }
    let ghost ks = deps.key_seq();
    let ghost vs = text::string_views(deps.val_seq());
    let n = deps.len();
    let mut r = String::from_str("# Bootstrap lock file\n");
    let mut i: usize = 0;
    assert(ks.take(0) =~= Seq::<Seq<char>>::empty());
    while i < n
        invariant
            deps.wf(),
            ks == deps.key_seq(),
            vs == text::string_views(deps.val_seq()),
            n == ks.len(),
            n == vs.len(),
            i <= n,
            r@ == "# Bootstrap lock file\n"@ + lock_lines(ks.take(i as int), vs.take(i as int)),
        decreases n - i,
    {
        let name = deps.key_at(i);
        let version = deps.value_at(i);
        r.append(name.as_str());
        r.append("=");
        r.append(version.as_str());
        r.append("\n");
        proof {
            assert(ks.take(i + 1).drop_last() =~= ks.take(i as int));
            assert(vs.take(i + 1).drop_last() =~= vs.take(i as int));
            assert(vs[i as int] == version@);
        }
        i = i + 1;
    }
    assert(ks.take(n as int) =~= ks);
    assert(vs.take(n as int) =~= vs);
    r
}

impl BootstrapEngine {
    /// A run of `eigenmatrix` that has done nothing yet.
    pub fn new(eigenmatrix: EigenMatrix) -> (e: Self)
        ensures
            e.eigenmatrix == eigenmatrix,
            e.current_stage == 0,
            e.completed_steps@.len() == 0,
            e.build_artifacts.wf(),
            e.build_artifacts@ == Map::<Seq<char>, String>::empty(),
    {
        BootstrapEngine { eigenmatrix, current_stage: 0, completed_steps: Vec::new(), build_artifacts: StrMap::new() }
    }

    /// The positions of the stages in the order they run: by their order,
    /// stages of equal order in the order they are listed.
    pub fn stage_order(&self) -> (r: Vec<usize>)
        ensures
            stage_order_of(stage_orders(self.eigenmatrix.stage@), r@),
    {
        let ghost orders = stage_orders(self.eigenmatrix.stage@);
        let n = self.eigenmatrix.stage.len();
        let mut idx: Vec<usize> = Vec::new();
        let mut k: usize = 0;
        while k < n
            invariant
                n == self.eigenmatrix.stage@.len(),
                orders == stage_orders(self.eigenmatrix.stage@),
                k <= n,
                idx@.len() == k,
                forall|i: int| 0 <= i < idx@.len() ==> #[trigger] idx@[i] < k,
                forall|i: int, j: int| 0 <= i < j < idx@.len() ==> stage_key_lt(orders, #[trigger] idx@[i], #[trigger] idx@[j]),
            decreases n - k,
        {
            let ok = self.eigenmatrix.stage[k].order;
            let mut p: usize = 0;
            while p < idx.len()
                invariant
                    n == self.eigenmatrix.stage@.len(),
                    orders == stage_orders(self.eigenmatrix.stage@),
                    k < n,
                    ok == orders[k as int],
                    p <= idx@.len(),
                    forall|i: int| 0 <= i < idx@.len() ==> #[trigger] idx@[i] < k,
                    forall|i: int| 0 <= i < p ==> stage_key_lt(orders, #[trigger] idx@[i], k),
                ensures
                    p <= idx@.len(),
                    forall|i: int| 0 <= i < p ==> stage_key_lt(orders, #[trigger] idx@[i], k),
                    p < idx@.len() ==> stage_key_lt(orders, k, idx@[p as int]),
                decreases idx@.len() - p,
            {
                let q = idx[p];
                if self.eigenmatrix.stage[q].order > ok {
                    break;
                }
                p = p + 1;
            }
            let ghost before = idx@;
            idx.insert(p, k);
            proof {
                assert forall|a: int, b: int| 0 <= a < b < idx@.len() implies stage_key_lt(orders, #[trigger] idx@[a], #[trigger] idx@[b]) by {
                    if b < p {
                        assert(idx@[a] == before[a] && idx@[b] == before[b]);
                    } else if b == p {
                        assert(idx@[a] == before[a]);
                    } else if a < p {
                        assert(idx@[a] == before[a] && idx@[b] == before[b - 1]);
                        if b - 1 > p {
                            assert(stage_key_lt(orders, before[p as int], before[b - 1]));
                        }
                    } else if a == p {
                        assert(idx@[b] == before[b - 1]);
                        if b - 1 > p {
                            assert(stage_key_lt(orders, before[p as int], before[b - 1]));
                        }
                    } else {
                        assert(idx@[a] == before[a - 1] && idx@[b] == before[b - 1]);
                    }
                }
                assert forall|i: int| 0 <= i < idx@.len() implies #[trigger] idx@[i] < k + 1 by {
                    if i < p {
                        assert(idx@[i] == before[i]);
                    } else if i > p {
                        assert(idx@[i] == before[i - 1]);
                    }
                }
            }
            k = k + 1;
        }
        idx
    }

    /// The first dependency of the stage at `stage` that no completed step
    /// starts with, as an error.
    pub fn check_dependencies(&self, stage: usize) -> (r: Result<(), String>)
        requires
            stage < self.eigenmatrix.stage@.len(),
        ensures
            match first_missing(
                text::string_views(self.eigenmatrix.stage@[stage as int].dependencies@),
                text::string_views(self.completed_steps@),
            ) {
                Some(d) => r is Err && r->Err_0@ == "Missing dependency: "@ + d,
                None => r is Ok,
            },
    {
        let deps = &self.eigenmatrix.stage[stage].dependencies;
        let ghost ds = text::string_views(deps@);
        let ghost done = text::string_views(self.completed_steps@);
        assert(ds == text::string_views(self.eigenmatrix.stage@[stage as int].dependencies@));
        let mut i: usize = 0;
        assert(ds.skip(0) =~= ds);
        while i < deps.len()
            invariant
                ds == text::string_views(deps@),
                stage < self.eigenmatrix.stage@.len(),
                ds == text::string_views(self.eigenmatrix.stage@[stage as int].dependencies@),
                done == text::string_views(self.completed_steps@),
                i <= ds.len(),
                first_missing(ds, done) == first_missing(ds.skip(i as int), done),
            decreases ds.len() - i,
        {
            let d = deps[i].as_str();
            let mut met = false;
            let mut j: usize = 0;
            while j < self.completed_steps.len()
                invariant
                    done == text::string_views(self.completed_steps@),
                    j <= done.len(),
                    met == exists|q: int| 0 <= q < j && text::has_prefix(#[trigger] done[q], d@),
                decreases done.len() - j,
            {
                let hit = text::starts_with(self.completed_steps[j].as_str(), d);
                proof {
                    if hit {
                        assert(text::has_prefix(done[j as int], d@));
                    }
                }
                met = met || hit;
                j = j + 1;
            }
            assert(j == done.len());
            assert(met == dependency_met(done, d@));
            assert(ds.skip(i as int)[0] == d@);
            assert(ds.skip(i as int).drop_first() =~= ds.skip(i + 1));
            if !met {
                assert(first_missing(ds.skip(i as int), done) == Some(d@));
                let mut e = String::from_str("Missing dependency: ");
                e.append(d);
                return Err(e);
            }
            i = i + 1;
        }
        assert(ds.skip(i as int).len() == 0);
        Ok(())
    }

    /// Keeps a step's output as its artifact.
    fn record_artifact(&mut self, step: &BuildStep)
        requires
            old(self).build_artifacts.wf(),
        ensures
            final(self).build_artifacts.wf(),
            final(self).build_artifacts@.dom() == old(self).build_artifacts@.dom().insert(step.name@),
            final(self).build_artifacts@[step.name@]@ == step.output@,
            forall|k: Seq<char>| k != step.name@ && #[trigger] old(self).build_artifacts@.contains_key(k) ==> final(self).build_artifacts@[k] == old(self).build_artifacts@[k],
            final(self).completed_steps == old(self).completed_steps,
            final(self).current_stage == old(self).current_stage,
    {
        self.build_artifacts.insert(step.name.clone(), step.output.clone());
        assert(self.build_artifacts@.dom() =~= old(self).build_artifacts@.dom().insert(step.name@));
    }

    /// Records the artifact of a successful crate or locked build.
    pub fn record_build(&mut self, step: &BuildStep)
        requires
            old(self).build_artifacts.wf(),
        ensures
            final(self).build_artifacts.wf(),
            final(self).build_artifacts@.dom() == old(self).build_artifacts@.dom().insert(step.name@),
            final(self).build_artifacts@[step.name@]@ == step.output@,
            forall|k: Seq<char>| k != step.name@ && #[trigger] old(self).build_artifacts@.contains_key(k) ==> final(self).build_artifacts@[k] == old(self).build_artifacts@[k],
            final(self).completed_steps == old(self).completed_steps,
            final(self).current_stage == old(self).current_stage,
    {
        self.record_artifact(step);
    }

    /// A plugin is built with the compiler built before; its output is kept
    /// as the step's artifact.
    pub fn plugin_build(&mut self, step: &BuildStep) -> (r: Result<(), String>)
        requires
            old(self).build_artifacts.wf(),
        ensures
            r is Ok,
            final(self).build_artifacts.wf(),
            final(self).build_artifacts@.dom() == old(self).build_artifacts@.dom().insert(step.name@),
            final(self).build_artifacts@[step.name@]@ == step.output@,
            forall|k: Seq<char>| k != step.name@ && #[trigger] old(self).build_artifacts@.contains_key(k) ==> final(self).build_artifacts@[k] == old(self).build_artifacts@[k],
            final(self).completed_steps == old(self).completed_steps,
            final(self).current_stage == old(self).current_stage,
    {
        self.record_build(step);
        Ok(())
    }

    /// A service is built with the self-hosted tools; its output is kept as
    /// the step's artifact.
    pub fn service_build(&mut self, step: &BuildStep) -> (r: Result<(), String>)
        requires
            old(self).build_artifacts.wf(),
        ensures
            r is Ok,
            final(self).build_artifacts.wf(),
            final(self).build_artifacts@.dom() == old(self).build_artifacts@.dom().insert(step.name@),
            final(self).build_artifacts@[step.name@]@ == step.output@,
            forall|k: Seq<char>| k != step.name@ && #[trigger] old(self).build_artifacts@.contains_key(k) ==> final(self).build_artifacts@[k] == old(self).build_artifacts@[k],
            final(self).completed_steps == old(self).completed_steps,
            final(self).current_stage == old(self).current_stage,
    {
        self.record_build(step);
        Ok(())
    }

    /// Records a finished step as `stage::step`.
    pub fn complete_step(&mut self, stage_name: &str, step_name: &str)
        ensures
            text::string_views(final(self).completed_steps@) == text::string_views(old(self).completed_steps@).push(
                stage_name@ + "::"@ + step_name@,
            ),
            final(self).current_stage == old(self).current_stage,
            final(self).build_artifacts == old(self).build_artifacts,
    {
        let mut s = String::from_str(stage_name);
        s.append("::");
        s.append(step_name);
        let ghost before = text::string_views(self.completed_steps@);
        let ghost sv = s@;
        self.completed_steps.push(s);
        assert(text::string_views(self.completed_steps@) =~= before.push(sv));
    }

    /// After a stage of the given order, the next stage is the one after it.
    pub fn finish_stage(&mut self, order: u32)
        requires
            order < u32::MAX,
        ensures
            final(self).current_stage == order + 1,
            final(self).completed_steps == old(self).completed_steps,
            final(self).build_artifacts == old(self).build_artifacts,
    {
        self.current_stage = order + 1;
    }

    /// The proposal to move to `new_version`, as compact JSON with its keys
    /// in alphabetical order.
    pub fn propose_eigenmatrix_update(&self, new_version: &str) -> (r: Result<String, String>)
        ensures
            r is Ok,
            r->Ok_0@ == proposal_json(self.eigenmatrix.eigenmatrix.version@, new_version@, self.eigenmatrix.governance.required_votes, self.eigenmatrix.governance.voting_period_blocks),
    {
        let current = json_quote(self.eigenmatrix.eigenmatrix.version.as_str());
        let proposed = json_quote(new_version);
        let votes = text::decimal_string(self.eigenmatrix.governance.required_votes as u64);
        let period = text::decimal_string(self.eigenmatrix.governance.voting_period_blocks);
        let mut r = String::from_str(
            "{\"changes\":\"Updated rustc_driver lock versions and added new security features\",\"current_version\":",
        );
        r.append(current.as_str());
        r.append(",\"proposed_version\":");
        r.append(proposed.as_str());
        r.append(",\"required_votes\":");
        r.append(votes.as_str());
        r.append(",\"type\":\"eigenmatrix_update\",\"voting_period\":");
        r.append(period.as_str());
        r.append("}");
        Ok(r)
    }
}

/// The JSON of a proposal to update the eigenmatrix.
pub open spec fn proposal_json(current: Seq<char>, proposed: Seq<char>, votes: u32, period: u64) -> Seq<char> {
    "{\"changes\":\"Updated rustc_driver lock versions and added new security features\",\"current_version\":"@
        + json_quoted(current) + ",\"proposed_version\":"@ + json_quoted(proposed) + ",\"required_votes\":"@
        + text::decimal(votes as nat) + ",\"type\":\"eigenmatrix_update\",\"voting_period\":"@ + text::decimal(
        period as nat,
    ) + "}"@
}

} // verus!
