//! A development server reviewed by its stakeholders before it goes to the
//! DAO: stakeholders are onboarded with a trust level by role, flag
//! components for audit, submit proposals and vote on them; a proposal is
//! decided once two thirds of the stakeholders (rounded down) have voted.
use vstd::prelude::*;
use vstd::string::*;
use crate::clock;
use crate::strmap::{StrMap, keys_where, count_where};
use crate::text;

verus! {

/// Where the server stands on its way to the DAO.
#[derive(Debug, Clone, Copy, PartialEq, Eq, Structural)]
pub enum ServerStatus {
    Development,
    Testing,
    StakeholderReview,
    AuditPhase,
    ProposalPhase,
    ReadyForDAO,
}

/// What a stakeholder is to the project.
#[derive(Debug, Clone, Copy, PartialEq, Eq, Structural)]
pub enum StakeholderRole {
    Developer,
    Auditor,
    Investor,
    CommunityMember,
    TechnicalReviewer,
}

/// How grave an audit finding is.
#[derive(Debug, Clone, Copy, PartialEq, Eq, Structural)]
pub enum AuditSeverity {
    Info,
    Low,
    Medium,
    High,
    Critical,
}

/// Where an audit finding stands.
#[derive(Debug, Clone, Copy, PartialEq, Eq, Structural)]
pub enum AuditStatus {
    Open,
    UnderReview,
    RevisionRequested,
    Resolved,
    Accepted,
}

/// Where a proposal stands.
#[derive(Debug, Clone, Copy, PartialEq, Eq, Structural)]
pub enum ProposalStatus {
    Draft,
    UnderReview,
    Voting,
    Approved,
    Rejected,
    Implemented,
}

/// A stakeholder's vote on a proposal.
pub enum Vote {
    Approve,
    Reject,
    /// what should change
    RequestChanges(String),
}

/// The characters of a vote.
pub enum VoteView {
    Approve,
    Reject,
    RequestChanges(Seq<char>),
}

impl View for Vote {
    type V = VoteView;

    open spec fn view(&self) -> VoteView {
        match self {
            Vote::Approve => VoteView::Approve,
            Vote::Reject => VoteView::Reject,
            Vote::RequestChanges(s) => VoteView::RequestChanges(s@),
        }
    }
}

/// A person or party that reviews the server.
pub struct Stakeholder {
    pub address: String,
    pub role: StakeholderRole,
    pub onboarded_at: u64,
    pub trust_level: u32,
    pub audit_flags: Vec<String>,
    pub proposals_submitted: u32,
}

/// The characters and numbers of a stakeholder.
pub struct StakeholderView {
    pub address: Seq<char>,
    pub role: StakeholderRole,
    pub onboarded_at: u64,
    pub trust_level: u32,
    pub audit_flags: Seq<Seq<char>>,
    pub proposals_submitted: u32,
}

impl View for Stakeholder {
    type V = StakeholderView;

    open spec fn view(&self) -> StakeholderView {
        StakeholderView {
            address: self.address@,
            role: self.role,
            onboarded_at: self.onboarded_at,
            trust_level: self.trust_level,
            audit_flags: text::string_views(self.audit_flags@),
            proposals_submitted: self.proposals_submitted,
        }
    }
}

/// A finding on a component.
pub struct AuditItem {
    pub item_id: String,
    pub component: String,
    pub description: String,
    pub flagged_by: String,
    pub severity: AuditSeverity,
    pub status: AuditStatus,
    pub revision_requested: Option<String>,
    pub dev_response: Option<String>,
}

/// The characters of an optional string.
pub open spec fn opt_chars(o: Option<String>) -> Option<Seq<char>> {
    match o {
        Some(s) => Some(s@),
        None => None,
    }
}

/// The characters of a finding.
pub struct AuditView {
    pub item_id: Seq<char>,
    pub component: Seq<char>,
    pub description: Seq<char>,
    pub flagged_by: Seq<char>,
    pub severity: AuditSeverity,
    pub status: AuditStatus,
    pub revision_requested: Option<Seq<char>>,
    pub dev_response: Option<Seq<char>>,
}

impl View for AuditItem {
    type V = AuditView;

    open spec fn view(&self) -> AuditView {
        AuditView {
            item_id: self.item_id@,
            component: self.component@,
            description: self.description@,
            flagged_by: self.flagged_by@,
            severity: self.severity,
            status: self.status,
            revision_requested: opt_chars(self.revision_requested),
            dev_response: opt_chars(self.dev_response),
        }
    }
}

/// One change a proposal makes.
pub struct ProposedChange {
    pub component: String,
    pub change_type: String,
    pub old_value: Option<String>,
    pub new_value: String,
    pub rationale: String,
}

/// The characters of a change.
pub struct ChangeView {
    pub component: Seq<char>,
    pub change_type: Seq<char>,
    pub old_value: Option<Seq<char>>,
    pub new_value: Seq<char>,
    pub rationale: Seq<char>,
}

impl View for ProposedChange {
    type V = ChangeView;

    open spec fn view(&self) -> ChangeView {
        ChangeView {
            component: self.component@,
            change_type: self.change_type@,
            old_value: opt_chars(self.old_value),
            new_value: self.new_value@,
            rationale: self.rationale@,
        }
    }
}

/// A proposal and the votes cast on it, by voter.
pub struct Proposal {
    pub proposal_id: String,
    pub title: String,
    pub description: String,
    pub proposed_by: String,
    pub changes: Vec<ProposedChange>,
    pub votes: StrMap<Vote>,
    pub status: ProposalStatus,
}

/// The characters of a proposal.
pub struct ProposalView {
    pub proposal_id: Seq<char>,
    pub title: Seq<char>,
    pub description: Seq<char>,
    pub proposed_by: Seq<char>,
    pub changes: Seq<ChangeView>,
    pub votes: Map<Seq<char>, VoteView>,
    pub status: ProposalStatus,
}

/// The characters of each change.
pub open spec fn changes_view(cs: Seq<ProposedChange>) -> Seq<ChangeView> {
    cs.map_values(|c: ProposedChange| c@)
}

impl View for Proposal {
    type V = ProposalView;

    open spec fn view(&self) -> ProposalView {
        ProposalView {
            proposal_id: self.proposal_id@,
            title: self.title@,
            description: self.description@,
            proposed_by: self.proposed_by@,
            changes: changes_view(self.changes@),
            votes: self.votes@.map_values(|v: Vote| v@),
            status: self.status,
        }
    }
}

/// The outcome of a test run.
pub struct TestResult {
    pub test_id: String,
    pub component: String,
    pub test_type: String,
    pub passed: bool,
    pub output: String,
    pub timestamp: u64,
}

/// The characters of a test outcome.
pub struct TestView {
    pub test_id: Seq<char>,
    pub component: Seq<char>,
    pub test_type: Seq<char>,
    pub passed: bool,
    pub output: Seq<char>,
    pub timestamp: u64,
}

impl View for TestResult {
    type V = TestView;

    open spec fn view(&self) -> TestView {
        TestView {
            test_id: self.test_id@,
            component: self.component@,
            test_type: self.test_type@,
            passed: self.passed,
            output: self.output@,
            timestamp: self.timestamp,
        }
    }
}

/// A development server under review.
pub struct DevServer {
    pub server_id: String,
    pub owner_address: String,
    pub status: ServerStatus,
    pub eigenmatrix_version: String,
    pub stakeholders: StrMap<Stakeholder>,
    pub audit_items: StrMap<AuditItem>,
    pub proposals: StrMap<Proposal>,
    pub test_results: StrMap<TestResult>,
}

/// The server's fields and maps.
pub struct DevView {
    pub server_id: Seq<char>,
    pub owner_address: Seq<char>,
    pub status: ServerStatus,
    pub eigenmatrix_version: Seq<char>,
    pub stakeholders: Map<Seq<char>, StakeholderView>,
    pub audits: Map<Seq<char>, AuditView>,
    pub proposals: Map<Seq<char>, ProposalView>,
    pub tests: Map<Seq<char>, TestView>,
}

impl View for DevServer {
    type V = DevView;

    open spec fn view(&self) -> DevView {
        DevView {
            server_id: self.server_id@,
            owner_address: self.owner_address@,
            status: self.status,
            eigenmatrix_version: self.eigenmatrix_version@,
            stakeholders: self.stakeholders@.map_values(|s: Stakeholder| s@),
            audits: self.audit_items@.map_values(|a: AuditItem| a@),
            proposals: self.proposals@.map_values(|p: Proposal| p@),
            tests: self.test_results@.map_values(|t: TestResult| t@),
        }
    }
}

/// The trust a new stakeholder starts with, by role.
pub open spec fn trust_for(role: StakeholderRole) -> u32 {
    match role {
        StakeholderRole::Developer => 80,
        StakeholderRole::Auditor => 90,
        StakeholderRole::Investor => 60,
        StakeholderRole::CommunityMember => 40,
        StakeholderRole::TechnicalReviewer => 85,
    }
}

/// Computes `trust_for`.
pub fn trust_for_role(role: StakeholderRole) -> (t: u32)
    ensures
        t == trust_for(role),
{
    match role {
        StakeholderRole::Developer => 80,
        StakeholderRole::Auditor => 90,
        StakeholderRole::Investor => 60,
        StakeholderRole::CommunityMember => 40,
        StakeholderRole::TechnicalReviewer => 85,
    }
}

/// The components every server is first audited on, in order.
pub open spec fn initial_components() -> Seq<Seq<char>> {
    seq![
        "foundation"@,
        "build_system"@,
        "core_services"@,
        "plugin_loader"@,
        "governance"@,
        "libp2p_verbs"@,
    ]
}

/// The id of the initial finding on a component, made at `now`.
pub open spec fn initial_audit_id(component: Seq<char>, now: i64) -> Seq<char> {
    "initial_"@ + component + "_"@ + text::signed_decimal(now as int)
}

/// The initial finding on a component.
pub open spec fn initial_audit(component: Seq<char>, now: i64) -> AuditView {
    AuditView {
        item_id: initial_audit_id(component, now),
        component,
        description: "Initial review of "@ + component + " component"@,
        flagged_by: "system"@,
        severity: AuditSeverity::Info,
        status: AuditStatus::Open,
        revision_requested: None,
        dev_response: None,
    }
}

/// The findings with the initial ones on `cs` filed at `now`.
pub open spec fn with_initial_audits(m: Map<Seq<char>, AuditView>, cs: Seq<Seq<char>>, now: i64) -> Map<
    Seq<char>,
    AuditView,
>
    decreases cs.len(),
{
    if cs.len() == 0 {
        m
    } else {
        with_initial_audits(m, cs.drop_last(), now).insert(
            initial_audit_id(cs.last(), now),
            initial_audit(cs.last(), now),
        )
    }
}

/// The bootstrap test's result, recorded at `now`.
pub open spec fn bootstrap_test(now: i64) -> TestView {
    TestView {
        test_id: "bootstrap_001"@,
        component: "eigenmatrix"@,
        test_type: "bootstrap"@,
        passed: true,
        output: "All stages completed successfully"@,
        timestamp: now as u64,
    }
}

/// The state after a launch at `now`.
pub open spec fn launched(s: DevView, now: i64) -> DevView {
    DevView {
        status: ServerStatus::Testing,
        tests: s.tests.insert("bootstrap_001"@, bootstrap_test(now)),
        audits: with_initial_audits(s.audits, initial_components(), now),
        ..s
    }
}

/// The address where a launched server answers.
pub open spec fn launch_reply(server_id: Seq<char>) -> Seq<char> {
    "Dev server launched at http://localhost:3000/dev/"@ + server_id
}

/// A new stakeholder.
pub open spec fn new_stakeholder(address: Seq<char>, role: StakeholderRole, now: i64) -> StakeholderView {
    StakeholderView {
        address,
        role,
        onboarded_at: now as u64,
        trust_level: trust_for(role),
        audit_flags: Seq::empty(),
        proposals_submitted: 0,
    }
}

/// The refusal of an unknown stakeholder.
pub open spec fn unknown_stakeholder_error() -> Seq<char> {
    "Stakeholder not found"@
}

/// The refusal of a flag from a stakeholder with trust below 50.
pub open spec fn low_trust_error() -> Seq<char> {
    "Insufficient trust level to flag components"@
}

/// The refusal of an unknown finding.
pub open spec fn unknown_audit_error() -> Seq<char> {
    "Audit item not found"@
}

/// The refusal of an unknown proposal.
pub open spec fn unknown_proposal_error() -> Seq<char> {
    "Proposal not found"@
}

/// The id of a finding on a component, made at `now`.
pub open spec fn audit_id_of(component: Seq<char>, now: i64) -> Seq<char> {
    "audit_"@ + component + "_"@ + text::signed_decimal(now as int)
}

/// The id of a stakeholder's proposal: the first 8 bytes of the address and
/// the number of proposals submitted before.
pub open spec fn proposal_id_of(proposer: Seq<char>, submitted: u32) -> Seq<char> {
    "prop_"@ + text::byte_prefix(proposer, 8).unwrap() + "_"@ + text::decimal(submitted as nat)
}

/// The votes that approve.
pub open spec fn approve_view() -> spec_fn(VoteView) -> bool {
    |v: VoteView| v is Approve
}

/// How many voters approve.
pub open spec fn approvals(votes: Map<Seq<char>, VoteView>) -> nat {
    keys_where(votes, approve_view()).len()
}

/// A proposal after a vote, given the number of stakeholders: once the votes
/// reach two thirds of the stakeholders (rounded down), it is approved when
/// more than half of the votes approve and rejected otherwise; before that
/// its status stays.
pub open spec fn decided(p: ProposalView, stakeholders: nat) -> ProposalView {
    if p.votes.dom().len() >= stakeholders * 2 / 3 {
        ProposalView {
            status: if approvals(p.votes) > p.votes.dom().len() / 2 {
                ProposalStatus::Approved
            } else {
                ProposalStatus::Rejected
            },
            ..p
        }
    } else {
        p
    }
}

/// The vote predicate on stored votes.
pub open spec fn approve_vote() -> spec_fn(Vote) -> bool {
    |v: Vote| v is Approve
}

/// Counts the votes that approve.
fn count_approvals(votes: &StrMap<Vote>) -> (n: usize)
    requires
        votes.wf(),
    ensures
        n == approvals(votes@.map_values(|v: Vote| v@)),
{
    let len = votes.len();
    proof {
        votes.lemma_len();
    }
    let mut n: usize = 0;
    let mut i: usize = 0;
    while i < len
        invariant
            votes.wf(),
            len == votes.key_seq().len(),
            len == votes.val_seq().len(),
            i <= len,
            n == count_where(votes.val_seq().take(i as int), approve_vote()),
            n <= i,
        decreases len - i,
    {
        assert(votes.val_seq().take(i + 1).drop_last() =~= votes.val_seq().take(i as int));
        match votes.value_at(i) {
            Vote::Approve => {
                n = n + 1;
            },
            _ => {},
        }
        i = i + 1;
    }
    proof {
        assert(votes.val_seq().take(len as int) =~= votes.val_seq());
        votes.lemma_count_where(approve_vote());
        assert(keys_where(votes@, approve_vote()) =~= keys_where(
            votes@.map_values(|v: Vote| v@),
            approve_view(),
        ));
    }
    n
}

impl DevServer {
    /// The maps are well formed, and so is each proposal's vote map.
    pub open spec fn wf(&self) -> bool {
        &&& self.stakeholders.wf()
        &&& self.audit_items.wf()
        &&& self.proposals.wf()
        &&& self.test_results.wf()
        &&& forall|k: Seq<char>| #[trigger]
            self.proposals@.contains_key(k) ==> self.proposals@[k].votes.wf()
    }

    /// A server of `owner_address` in development, named after the first 8
    /// bytes of the address, with no stakeholders, findings, proposals or
    /// tests.
    pub fn new(owner_address: &str) -> (s: Self)
        requires
            text::byte_prefix(owner_address@, 8) is Some,
        ensures
            s.wf(),
            s@.server_id == "dev_"@ + text::byte_prefix(owner_address@, 8).unwrap(),
            s@.owner_address == owner_address@,
            s@.status == ServerStatus::Development,
            s@.eigenmatrix_version == "1.0.0-dev"@,
            s@.stakeholders == Map::<Seq<char>, StakeholderView>::empty(),
            s@.audits == Map::<Seq<char>, AuditView>::empty(),
            s@.proposals == Map::<Seq<char>, ProposalView>::empty(),
            s@.tests == Map::<Seq<char>, TestView>::empty(),
    {
        let prefix = match text::str_byte_prefix(owner_address, 8) {
            Some(p) => p,
            None => String::new(),
        };
        let s = DevServer {
            server_id: String::from_str("dev_").concat(prefix.as_str()),
            owner_address: String::from_str(owner_address),
            status: ServerStatus::Development,
            eigenmatrix_version: String::from_str("1.0.0-dev"),
            stakeholders: StrMap::new(),
            audit_items: StrMap::new(),
            proposals: StrMap::new(),
            test_results: StrMap::new(),
        };
        assert(s@.stakeholders =~= Map::<Seq<char>, StakeholderView>::empty());
        assert(s@.audits =~= Map::<Seq<char>, AuditView>::empty());
        assert(s@.proposals =~= Map::<Seq<char>, ProposalView>::empty());
        assert(s@.tests =~= Map::<Seq<char>, TestView>::empty());
        s
    }

    /// Records a passing bootstrap test at `now`.
    fn run_bootstrap_test_at(&mut self, now: i64) -> (r: Result<String, String>)
        requires
            old(self).wf(),
        ensures
            final(self).wf(),
            final(self)@ == (DevView {
                tests: old(self)@.tests.insert("bootstrap_001"@, bootstrap_test(now)),
                ..old(self)@
            }),
            r is Ok && r->Ok_0@ == "Bootstrap test passed"@,
    {
        let ghost old_tests = self.test_results@;
        let result = TestResult {
            test_id: String::from_str("bootstrap_001"),
            component: String::from_str("eigenmatrix"),
            test_type: String::from_str("bootstrap"),
            passed: true,
            output: String::from_str("All stages completed successfully"),
            timestamp: now as u64,
        };
        self.test_results.insert(String::from_str("bootstrap_001"), result);
        assert(self@.tests =~= old_tests.map_values(|t: TestResult| t@).insert(
            "bootstrap_001"@,
            bootstrap_test(now),
        ));
        Ok(String::from_str("Bootstrap test passed"))
    }

    /// Files the initial findings, one per initial component, at `now`.
    fn generate_initial_audit_at(&mut self, now: i64)
        requires
            old(self).wf(),
        ensures
            final(self).wf(),
            final(self)@ == (DevView {
                audits: with_initial_audits(old(self)@.audits, initial_components(), now),
                ..old(self)@
            }),
    {
        let mut components: Vec<&str> = Vec::new();
        components.push("foundation");
        components.push("build_system");
        components.push("core_services");
        components.push("plugin_loader");
        components.push("governance");
        components.push("libp2p_verbs");
        let ghost cs = components@.map_values(|c: &str| c@);
        assert(cs =~= initial_components());
        let ghost s0 = self@;
        let stamp = text::signed_decimal_string(now);
        let mut i: usize = 0;
        assert(cs.take(0) =~= Seq::<Seq<char>>::empty());
        while i < components.len()
            invariant
                self.wf(),
                i <= components@.len(),
                cs == components@.map_values(|c: &str| c@),
                stamp@ == text::signed_decimal(now as int),
                self@ == (DevView { audits: with_initial_audits(s0.audits, cs.take(i as int), now), ..s0 }),
            decreases components@.len() - i,
        {
            let component = components[i];
            let mut id = String::from_str("initial_");
            id.append(component);
            id.append("_");
            id.append(stamp.as_str());
            let mut description = String::from_str("Initial review of ");
            description.append(component);
            description.append(" component");
            let item = AuditItem {
                item_id: id.clone(),
                component: String::from_str(component),
                description,
                flagged_by: String::from_str("system"),
                severity: AuditSeverity::Info,
                status: AuditStatus::Open,
                revision_requested: None,
                dev_response: None,
            };
            let ghost before = self.audit_items@;
            self.audit_items.insert(id, item);
            proof {
                assert(cs.take(i + 1).drop_last() =~= cs.take(i as int));
                assert(cs.take(i + 1).last() == component@);
                assert(self@.audits =~= before.map_values(|a: AuditItem| a@).insert(
                    initial_audit_id(component@, now),
                    initial_audit(component@, now),
                ));
            }
            i = i + 1;
        }
        assert(cs.take(components@.len() as int) =~= cs);
    }

    /// Launches the server at `now`: runs the bootstrap test, files the
    /// initial findings and moves to testing.
    pub fn launch_dev_server_at(&mut self, now: i64) -> (r: Result<String, String>)
        requires
            old(self).wf(),
        ensures
            final(self).wf(),
            final(self)@ == launched(old(self)@, now),
            r is Ok && r->Ok_0@ == launch_reply(old(self)@.server_id),
    {
        let _ = self.run_bootstrap_test_at(now);
        self.generate_initial_audit_at(now);
        self.status = ServerStatus::Testing;
        Ok(String::from_str("Dev server launched at http://localhost:3000/dev/").concat(
            self.server_id.as_str(),
        ))
    }

    /// Launches the server now.
    pub fn launch_dev_server(&mut self) -> (r: Result<String, String>)
        requires
            old(self).wf(),
        ensures
            final(self).wf(),
            (r matches Err(e) && e@ == clock::clock_error() && *final(self) == *old(self)) || ((exists|now: i64| final(self)@ == #[trigger] launched(old(self)@, now)) && r is Ok
                && r->Ok_0@ == launch_reply(old(self)@.server_id)),
    {
        let now = match clock::unix_timestamp() {
            Ok(t) => t,
            Err(e) => {
                return Err(e);
            },
        };
        self.launch_dev_server_at(now)
    }

    /// Onboards a stakeholder at `now`, with the trust of the role; an
    /// earlier record of the same address is replaced.
    pub fn onboard_stakeholder_at(&mut self, address: &str, role: StakeholderRole, now: i64) -> (r:
        Result<(), String>)
        requires
            old(self).wf(),
        ensures
            final(self).wf(),
            final(self)@ == (DevView {
                stakeholders: old(self)@.stakeholders.insert(
                    address@,
                    new_stakeholder(address@, role, now),
                ),
                ..old(self)@
            }),
            r is Ok,
    {
        let ghost before = self.stakeholders@;
        let stakeholder = Stakeholder {
            address: String::from_str(address),
            role,
            onboarded_at: now as u64,
            trust_level: trust_for_role(role),
            audit_flags: Vec::new(),
            proposals_submitted: 0,
        };
        assert(stakeholder@.audit_flags =~= Seq::<Seq<char>>::empty());
        assert(stakeholder@ == new_stakeholder(address@, role, now));
        self.stakeholders.insert(String::from_str(address), stakeholder);
        assert(self@.stakeholders =~= before.map_values(|s: Stakeholder| s@).insert(
            address@,
            new_stakeholder(address@, role, now),
        ));
        Ok(())
    }

    /// Onboards a stakeholder now.
    pub fn onboard_stakeholder(&mut self, address: &str, role: StakeholderRole) -> (r: Result<(), String>)
        requires
            old(self).wf(),
        ensures
            final(self).wf(),
            (r matches Err(e) && e@ == clock::clock_error() && *final(self) == *old(self)) || (r is Ok && exists|now: i64| #[trigger] new_stakeholder(address@, role, now)
                == final(self)@.stakeholders[address@] && final(self)@ == (DevView {
                stakeholders: old(self)@.stakeholders.insert(
                    address@,
                    new_stakeholder(address@, role, now),
                ),
                ..old(self)@
            })),
    {
        let now = match clock::unix_timestamp() {
            Ok(t) => t,
            Err(e) => {
                return Err(e);
            },
        };
        self.onboard_stakeholder_at(address, role, now)
    }

    /// Files a finding on a component at `now`, when the flagger is a
    /// stakeholder with trust of at least 50.
    pub fn flag_component_at(
        &mut self,
        flagger: &str,
        component: &str,
        description: &str,
        severity: AuditSeverity,
        now: i64,
    ) -> (r: Result<String, String>)
        requires
            old(self).wf(),
        ensures
            final(self).wf(),
            !old(self)@.stakeholders.contains_key(flagger@) ==> r is Err && r->Err_0@
                == unknown_stakeholder_error() && final(self)@ == old(self)@,
            old(self)@.stakeholders.contains_key(flagger@) && old(self)@.stakeholders[flagger@].trust_level
                < 50 ==> r is Err && r->Err_0@ == low_trust_error() && final(self)@ == old(self)@,
            old(self)@.stakeholders.contains_key(flagger@) && old(self)@.stakeholders[flagger@].trust_level
                >= 50 ==> r is Ok && r->Ok_0@ == audit_id_of(component@, now) && final(self)@
                == (DevView {
                audits: old(self)@.audits.insert(
                    audit_id_of(component@, now),
                    AuditView {
                        item_id: audit_id_of(component@, now),
                        component: component@,
                        description: description@,
                        flagged_by: flagger@,
                        severity,
                        status: AuditStatus::Open,
                        revision_requested: None,
                        dev_response: None,
                    },
                ),
                ..old(self)@
            }),
    {
        let trust = match self.stakeholders.get(flagger) {
            Some(s) => s.trust_level,
            None => {
                return Err(String::from_str("Stakeholder not found"));
            },
        };
        if trust < 50 {
            return Err(String::from_str("Insufficient trust level to flag components"));
        }
        let mut id = String::from_str("audit_");
        id.append(component);
        id.append("_");
        id.append(text::signed_decimal_string(now).as_str());
        let item = AuditItem {
            item_id: id.clone(),
            component: String::from_str(component),
            description: String::from_str(description),
            flagged_by: String::from_str(flagger),
            severity,
            status: AuditStatus::Open,
            revision_requested: None,
            dev_response: None,
        };
        let ghost before = self.audit_items@;
        let reply = id.clone();
        self.audit_items.insert(id, item);
        assert(self@.audits =~= before.map_values(|a: AuditItem| a@).insert(
            audit_id_of(component@, now),
            AuditView {
                item_id: audit_id_of(component@, now),
                component: component@,
                description: description@,
                flagged_by: flagger@,
                severity,
                status: AuditStatus::Open,
                revision_requested: None,
                dev_response: None,
            },
        ));
        Ok(reply)
    }

    /// Files a finding now.
    pub fn flag_component(
        &mut self,
        flagger: &str,
        component: &str,
        description: &str,
        severity: AuditSeverity,
    ) -> (r: Result<String, String>)
        requires
            old(self).wf(),
        ensures
            final(self).wf(),
            !old(self)@.stakeholders.contains_key(flagger@) ==> r is Err && r->Err_0@
                == unknown_stakeholder_error() && *final(self) == *old(self),
            old(self)@.stakeholders.contains_key(flagger@) && old(self)@.stakeholders[flagger@].trust_level
                < 50 ==> r is Err && r->Err_0@ == low_trust_error() && *final(self) == *old(self),
            old(self)@.stakeholders.contains_key(flagger@) && old(self)@.stakeholders[flagger@].trust_level
                >= 50 ==> (r matches Err(e) && e@ == clock::clock_error() && *final(self) == *old(self)) || (r is Ok
                && exists|now: i64| #[trigger] audit_id_of(component@, now) == r->Ok_0@ && final(self)@ == (DevView {
                audits: old(self)@.audits.insert(
                    audit_id_of(component@, now),
                    AuditView {
                        item_id: audit_id_of(component@, now),
                        component: component@,
                        description: description@,
                        flagged_by: flagger@,
                        severity,
                        status: AuditStatus::Open,
                        revision_requested: None,
                        dev_response: None,
                    },
                ),
                ..old(self)@
            })),
    {
        match self.stakeholders.get(flagger) {
            Some(s) => {
                if s.trust_level < 50 {
                    return Err(String::from_str("Insufficient trust level to flag components"));
                }
            },
            None => {
                return Err(String::from_str("Stakeholder not found"));
            },
        }
        let now = match clock::unix_timestamp() {
            Ok(t) => t,
            Err(e) => {
                return Err(e);
            },
        };
        self.flag_component_at(flagger, component, description, severity, now)
    }

    /// Records the developers' answer to a finding, which puts it under
    /// review.
    pub fn respond_to_audit(&mut self, audit_id: &str, response: &str) -> (r: Result<(), String>)
        requires
            old(self).wf(),
        ensures
            final(self).wf(),
            !old(self)@.audits.contains_key(audit_id@) ==> r is Err && r->Err_0@ == unknown_audit_error()
                && final(self)@ == old(self)@,
            old(self)@.audits.contains_key(audit_id@) ==> r is Ok && final(self)@ == (DevView {
                audits: old(self)@.audits.insert(
                    audit_id@,
                    AuditView {
                        dev_response: Some(response@),
                        status: AuditStatus::UnderReview,
                        ..old(self)@.audits[audit_id@]
                    },
                ),
                ..old(self)@
            }),
    {
        let ghost before = self.audit_items@;
        match self.audit_items.remove(audit_id) {
            None => {
                assert(self.audit_items@ =~= before);
                Err(String::from_str("Audit item not found"))
            },
            Some(mut item) => {
                item.dev_response = Some(String::from_str(response));
                item.status = AuditStatus::UnderReview;
                let ghost iv = item@;
                self.audit_items.insert(String::from_str(audit_id), item);
                assert(self@.audits =~= before.map_values(|a: AuditItem| a@).insert(audit_id@, iv));
                Ok(())
            },
        }
    }

    /// Asks for a revision of what a finding covers.
    pub fn request_revision(&mut self, audit_id: &str, revision_details: &str) -> (r: Result<(), String>)
        requires
            old(self).wf(),
        ensures
            final(self).wf(),
            !old(self)@.audits.contains_key(audit_id@) ==> r is Err && r->Err_0@ == unknown_audit_error()
                && final(self)@ == old(self)@,
            old(self)@.audits.contains_key(audit_id@) ==> r is Ok && final(self)@ == (DevView {
                audits: old(self)@.audits.insert(
                    audit_id@,
                    AuditView {
                        revision_requested: Some(revision_details@),
                        status: AuditStatus::RevisionRequested,
                        ..old(self)@.audits[audit_id@]
                    },
                ),
                ..old(self)@
            }),
    {
        let ghost before = self.audit_items@;
        match self.audit_items.remove(audit_id) {
            None => {
                assert(self.audit_items@ =~= before);
                Err(String::from_str("Audit item not found"))
            },
            Some(mut item) => {
                item.revision_requested = Some(String::from_str(revision_details));
                item.status = AuditStatus::RevisionRequested;
                let ghost iv = item@;
                self.audit_items.insert(String::from_str(audit_id), item);
                assert(self@.audits =~= before.map_values(|a: AuditItem| a@).insert(audit_id@, iv));
                Ok(())
            },
        }
    }

    /// Files a draft proposal of a stakeholder and counts it against the
    /// stakeholder. An earlier proposal with the same id is replaced.
    pub fn submit_proposal(
        &mut self,
        proposer: &str,
        title: &str,
        description: &str,
        changes: Vec<ProposedChange>,
    ) -> (r: Result<String, String>)
        requires
            old(self).wf(),
            old(self)@.stakeholders.contains_key(proposer@) ==> text::byte_prefix(proposer@, 8) is Some
                && old(self)@.stakeholders[proposer@].proposals_submitted < u32::MAX,
        ensures
            final(self).wf(),
            !old(self)@.stakeholders.contains_key(proposer@) ==> r is Err && r->Err_0@
                == unknown_stakeholder_error() && final(self)@ == old(self)@,
            old(self)@.stakeholders.contains_key(proposer@) ==> {
                let st = old(self)@.stakeholders[proposer@];
                let id = proposal_id_of(proposer@, st.proposals_submitted);
                &&& r is Ok
                &&& r->Ok_0@ == id
                &&& final(self)@ == (DevView {
                    stakeholders: old(self)@.stakeholders.insert(
                        proposer@,
                        StakeholderView {
                            proposals_submitted: (st.proposals_submitted + 1) as u32,
                            ..st
                        },
                    ),
                    proposals: old(self)@.proposals.insert(
                        id,
                        ProposalView {
                            proposal_id: id,
                            title: title@,
                            description: description@,
                            proposed_by: proposer@,
                            changes: changes_view(changes@),
                            votes: Map::empty(),
                            status: ProposalStatus::Draft,
                        },
                    ),
                    ..old(self)@
                })
            },
    {
        let ghost before_st = self.stakeholders@;
        let ghost before_pr = self.proposals@;
        let mut st = match self.stakeholders.remove(proposer) {
            Some(s) => s,
            None => {
                assert(self.stakeholders@ =~= before_st);
                return Err(String::from_str("Stakeholder not found"));
            },
        };
        let prefix = match text::str_byte_prefix(proposer, 8) {
            Some(p) => p,
            None => String::new(),
        };
        let mut id = String::from_str("prop_");
        id.append(prefix.as_str());
        id.append("_");
        id.append(text::decimal_string(st.proposals_submitted as u64).as_str());
        st.proposals_submitted = st.proposals_submitted + 1;
        let ghost sv = st@;
        self.stakeholders.insert(String::from_str(proposer), st);
        let votes: StrMap<Vote> = StrMap::new();
        let proposal = Proposal {
            proposal_id: id.clone(),
            title: String::from_str(title),
            description: String::from_str(description),
            proposed_by: String::from_str(proposer),
            changes,
            votes,
            status: ProposalStatus::Draft,
        };
        let ghost pv = proposal@;
        let reply = id.clone();
        self.proposals.insert(id, proposal);
        proof {
            assert(pv.votes =~= Map::<Seq<char>, VoteView>::empty());
            assert(self@.stakeholders =~= before_st.map_values(|s: Stakeholder| s@).insert(
                proposer@,
                sv,
            ));
            assert(self@.proposals =~= before_pr.map_values(|p: Proposal| p@).insert(reply@, pv));
        }
        Ok(reply)
    }

    /// Records a stakeholder's vote on a proposal (a later vote of the same
    /// voter replaces the earlier one) and decides the proposal once enough
    /// stakeholders have voted.
    pub fn vote_on_proposal(&mut self, voter: &str, proposal_id: &str, vote: Vote) -> (r: Result<
        (),
        String,
    >)
        requires
            old(self).wf(),
        ensures
            final(self).wf(),
            !old(self)@.stakeholders.contains_key(voter@) ==> r is Err && r->Err_0@
                == unknown_stakeholder_error() && final(self)@ == old(self)@,
            old(self)@.stakeholders.contains_key(voter@) && !old(self)@.proposals.contains_key(
                proposal_id@,
            ) ==> r is Err && r->Err_0@ == unknown_proposal_error() && final(self)@ == old(self)@,
            old(self)@.stakeholders.contains_key(voter@) && old(self)@.proposals.contains_key(proposal_id@)
                ==> r is Ok && final(self)@ == (DevView {
                proposals: old(self)@.proposals.insert(
                    proposal_id@,
                    decided(
                        ProposalView {
                            votes: old(self)@.proposals[proposal_id@].votes.insert(voter@, vote@),
                            ..old(self)@.proposals[proposal_id@]
                        },
                        old(self)@.stakeholders.dom().len(),
                    ),
                ),
                ..old(self)@
            }),
    {
        if !self.stakeholders.contains_key(voter) {
            return Err(String::from_str("Stakeholder not found"));
        }
        let total = self.stakeholders.len();
        proof {
            self.stakeholders.lemma_len();
            assert(self@.stakeholders.dom() =~= self.stakeholders@.dom());
        }
        let ghost before = self.proposals@;
        let mut proposal = match self.proposals.remove(proposal_id) {
            Some(p) => p,
            None => {
                assert(self.proposals@ =~= before);
                return Err(String::from_str("Proposal not found"));
            },
        };
        let ghost vote_view = vote@;
        let ghost old_votes = proposal.votes@;
        proposal.votes.insert(String::from_str(voter), vote);
        let ghost mid = proposal@;
        assert(mid.votes =~= old_votes.map_values(|v: Vote| v@).insert(voter@, vote_view));
        let cast = proposal.votes.len();
        proof {
            proposal.votes.lemma_len();
            assert(mid.votes.dom() =~= proposal.votes@.dom());
        }
        let threshold: u128 = (total as u128) * 2 / 3;
        if (cast as u128) >= threshold {
            let approved = count_approvals(&proposal.votes);
            if approved > cast / 2 {
                proposal.status = ProposalStatus::Approved;
            } else {
                proposal.status = ProposalStatus::Rejected;
            }
        }
        let ghost pv = proposal@;
        assert(pv == decided(mid, total as nat));
        self.proposals.insert(String::from_str(proposal_id), proposal);
        assert(self@.proposals =~= before.map_values(|p: Proposal| p@).insert(proposal_id@, pv));
        Ok(())
    }
}


/// The name of a server status, as serde writes the variant.
pub open spec fn server_status_name(s: ServerStatus) -> Seq<char> {
    match s {
        ServerStatus::Development => "Development"@,
        ServerStatus::Testing => "Testing"@,
        ServerStatus::StakeholderReview => "StakeholderReview"@,
        ServerStatus::AuditPhase => "AuditPhase"@,
        ServerStatus::ProposalPhase => "ProposalPhase"@,
        ServerStatus::ReadyForDAO => "ReadyForDAO"@,
    }
}

/// The name of a role, as serde writes the variant.
pub open spec fn role_name(r: StakeholderRole) -> Seq<char> {
    match r {
        StakeholderRole::Developer => "Developer"@,
        StakeholderRole::Auditor => "Auditor"@,
        StakeholderRole::Investor => "Investor"@,
        StakeholderRole::CommunityMember => "CommunityMember"@,
        StakeholderRole::TechnicalReviewer => "TechnicalReviewer"@,
    }
}

fn server_status_text(s: ServerStatus) -> (r: &'static str)
    ensures
        r@ == server_status_name(s),
{
    proof {
        reveal_strlit("Development");
        reveal_strlit("Testing");
        reveal_strlit("StakeholderReview");
        reveal_strlit("AuditPhase");
        reveal_strlit("ProposalPhase");
        reveal_strlit("ReadyForDAO");
    }
    match s {
        ServerStatus::Development => "Development",
        ServerStatus::Testing => "Testing",
        ServerStatus::StakeholderReview => "StakeholderReview",
        ServerStatus::AuditPhase => "AuditPhase",
        ServerStatus::ProposalPhase => "ProposalPhase",
        ServerStatus::ReadyForDAO => "ReadyForDAO",
    }
}

fn role_text(r: StakeholderRole) -> (t: &'static str)
    ensures
        t@ == role_name(r),
{
    proof {
        reveal_strlit("Developer");
        reveal_strlit("Auditor");
        reveal_strlit("Investor");
        reveal_strlit("CommunityMember");
        reveal_strlit("TechnicalReviewer");
    }
    match r {
        StakeholderRole::Developer => "Developer",
        StakeholderRole::Auditor => "Auditor",
        StakeholderRole::Investor => "Investor",
        StakeholderRole::CommunityMember => "CommunityMember",
        StakeholderRole::TechnicalReviewer => "TechnicalReviewer",
    }
}

/// The findings still open.
pub open spec fn open_audit() -> spec_fn(AuditItem) -> bool {
    |a: AuditItem| a.status == AuditStatus::Open
}

/// The proposals being voted on.
pub open spec fn voting_proposal() -> spec_fn(Proposal) -> bool {
    |p: Proposal| p.status == ProposalStatus::Voting
}

/// The dashboard of a stakeholder as compact JSON, keys in alphabetical
/// order.
pub open spec fn stakeholder_dashboard_json(
    server_id: Seq<char>,
    status: ServerStatus,
    version: Seq<char>,
    open_audits: nat,
    active_proposals: nat,
    s: StakeholderView,
) -> Seq<char> {
    "{\"active_proposals\":"@ + text::decimal(active_proposals)
        + ",\"components\":[\"foundation\",\"build_system\",\"core_services\",\"plugin_loader\",\"governance\",\"libp2p_verbs\"],\"eigenmatrix_version\":"@
        + crate::sync::json_quoted(version) + ",\"open_audits\":"@ + text::decimal(open_audits) + ",\"server_id\":"@
        + crate::sync::json_quoted(server_id) + ",\"server_status\":\""@ + server_status_name(status)
        + "\",\"trust_level\":"@ + text::decimal(s.trust_level as nat) + ",\"your_flags\":"@ + text::decimal(
        s.audit_flags.len(),
    ) + ",\"your_proposals\":"@ + text::decimal(s.proposals_submitted as nat) + ",\"your_role\":\""@ + role_name(s.role)
        + "\"}"@
}

/// Counts the values of a map that satisfy `p`, in storage order.
fn count_open_audits(m: &StrMap<AuditItem>) -> (n: usize)
    requires
        m.wf(),
    ensures
        n == count_where(m.val_seq(), open_audit()),
{
    proof {
        m.lemma_len();
    }
    let ghost vs = m.val_seq();
    let len = m.len();
    let mut n: usize = 0;
    let mut i: usize = 0;
    while i < len
        invariant
            m.wf(),
            vs == m.val_seq(),
            len == vs.len(),
            len == m.key_seq().len(),
            i <= len,
            n <= i,
            n == count_where(vs.take(i as int), open_audit()),
        decreases len - i,
    {
        let a = m.value_at(i);
        assert(vs.take(i + 1).drop_last() =~= vs.take(i as int));
        if a.status == AuditStatus::Open {
            n = n + 1;
        }
        i = i + 1;
    }
    assert(vs.take(len as int) =~= vs);
    n
}

/// Counts the proposals being voted on, in storage order.
fn count_voting(m: &StrMap<Proposal>) -> (n: usize)
    requires
        m.wf(),
    ensures
        n == count_where(m.val_seq(), voting_proposal()),
{
    proof {
        m.lemma_len();
    }
    let ghost vs = m.val_seq();
    let len = m.len();
    let mut n: usize = 0;
    let mut i: usize = 0;
    while i < len
        invariant
            m.wf(),
            vs == m.val_seq(),
            len == vs.len(),
            len == m.key_seq().len(),
            i <= len,
            n <= i,
            n == count_where(vs.take(i as int), voting_proposal()),
        decreases len - i,
    {
        let p = m.value_at(i);
        assert(vs.take(i + 1).drop_last() =~= vs.take(i as int));
        if p.status == ProposalStatus::Voting {
            n = n + 1;
        }
        i = i + 1;
    }
    assert(vs.take(len as int) =~= vs);
    n
}

impl DevServer {
    /// The dashboard of the stakeholder at `address`: the server's state,
    /// the open findings and the proposals being voted on, and the
    /// stakeholder's role, trust, flags and proposals.
    pub fn get_stakeholder_dashboard(&self, address: &str) -> (r: Result<String, String>)
        requires
            self.wf(),
        ensures
            !self.stakeholders@.contains_key(address@) ==> r is Err && r->Err_0@ == "Stakeholder not found"@,
            self.stakeholders@.contains_key(address@) ==> r is Ok && r->Ok_0@ == stakeholder_dashboard_json(
                self.server_id@,
                self.status,
                self.eigenmatrix_version@,
                count_where(self.audit_items.val_seq(), open_audit()),
                count_where(self.proposals.val_seq(), voting_proposal()),
                self.stakeholders@[address@]@,
            ),
    {
        let s = match self.stakeholders.get(address) {
            Some(s) => s,
            None => {
                return Err(String::from_str("Stakeholder not found"));
            },
        };
        let open_audits = count_open_audits(&self.audit_items);
        let active = count_voting(&self.proposals);
        let mut r = String::from_str("{\"active_proposals\":");
        r.append(text::decimal_string(active as u64).as_str());
        r.append(
            ",\"components\":[\"foundation\",\"build_system\",\"core_services\",\"plugin_loader\",\"governance\",\"libp2p_verbs\"],\"eigenmatrix_version\":",
        );
        r.append(crate::sync::json_quote(self.eigenmatrix_version.as_str()).as_str());
        r.append(",\"open_audits\":");
        r.append(text::decimal_string(open_audits as u64).as_str());
        r.append(",\"server_id\":");
        r.append(crate::sync::json_quote(self.server_id.as_str()).as_str());
        r.append(",\"server_status\":\"");
        r.append(server_status_text(self.status));
        r.append("\",\"trust_level\":");
        r.append(text::decimal_string(s.trust_level as u64).as_str());
        r.append(",\"your_flags\":");
        r.append(text::decimal_string(s.audit_flags.len() as u64).as_str());
        r.append(",\"your_proposals\":");
        r.append(text::decimal_string(s.proposals_submitted as u64).as_str());
        r.append(",\"your_role\":\"");
        r.append(role_text(s.role));
        r.append("\"}");
        proof {
            assert(s@.audit_flags.len() == s.audit_flags@.len());
        }
        Ok(r)
    }
}

} // verus!
