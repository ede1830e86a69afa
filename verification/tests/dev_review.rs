use zos_server::dev_workflow::{
    trust_for_role, AuditSeverity, AuditStatus, DevServer, ProposalStatus, ProposedChange, ServerStatus,
    StakeholderRole, Vote,
};

const OWNER: &str = "0xABCDEF0123456789";

#[test]
fn new_server_is_named_after_its_owner() {
    let s = DevServer::new(OWNER);
    assert_eq!(s.server_id, "dev_0xABCDEF");
    assert_eq!(s.status, ServerStatus::Development);
    assert_eq!(s.eigenmatrix_version, "1.0.0-dev");
    assert_eq!(s.stakeholders.len(), 0);
}

#[test]
fn launch_runs_bootstrap_and_files_initial_audits() {
    let mut s = DevServer::new(OWNER);
    let r = s.launch_dev_server_at(1_700_000_000).unwrap();
    assert_eq!(r, "Dev server launched at http://localhost:3000/dev/dev_0xABCDEF");
    assert_eq!(s.status, ServerStatus::Testing);
    assert!(s.test_results.get("bootstrap_001").unwrap().passed);
    assert_eq!(s.audit_items.len(), 6);
    let item = s.audit_items.get("initial_governance_1700000000").unwrap();
    assert_eq!(item.description, "Initial review of governance component");
    assert_eq!(item.flagged_by, "system");
    assert_eq!(item.status, AuditStatus::Open);
    assert_eq!(item.severity, AuditSeverity::Info);
}

#[test]
fn trust_depends_on_role() {
    assert_eq!(trust_for_role(StakeholderRole::Developer), 80);
    assert_eq!(trust_for_role(StakeholderRole::Auditor), 90);
    assert_eq!(trust_for_role(StakeholderRole::Investor), 60);
    assert_eq!(trust_for_role(StakeholderRole::CommunityMember), 40);
    assert_eq!(trust_for_role(StakeholderRole::TechnicalReviewer), 85);
}

#[test]
fn only_trusted_stakeholders_flag_components() {
    let mut s = DevServer::new(OWNER);
    s.onboard_stakeholder_at("auditor_address", StakeholderRole::Auditor, 5).unwrap();
    s.onboard_stakeholder_at("member_address", StakeholderRole::CommunityMember, 5).unwrap();
    assert_eq!(
        s.flag_component_at("auditor_address", "governance", "quorum too low", AuditSeverity::High, 7),
        Ok("audit_governance_7".to_string())
    );
    assert_eq!(
        s.flag_component_at("member_address", "governance", "x", AuditSeverity::Low, 7),
        Err("Insufficient trust level to flag components".to_string())
    );
    assert_eq!(
        s.flag_component_at("nobody", "governance", "x", AuditSeverity::Low, 7),
        Err("Stakeholder not found".to_string())
    );
    assert_eq!(s.respond_to_audit("audit_governance_7", "raised quorum"), Ok(()));
    assert_eq!(s.audit_items.get("audit_governance_7").unwrap().status, AuditStatus::UnderReview);
    assert_eq!(s.request_revision("audit_governance_7", "more tests"), Ok(()));
    let item = s.audit_items.get("audit_governance_7").unwrap();
    assert_eq!(item.status, AuditStatus::RevisionRequested);
    assert_eq!(item.revision_requested.as_deref(), Some("more tests"));
    assert_eq!(s.respond_to_audit("missing", "x"), Err("Audit item not found".to_string()));
}

#[test]
fn proposals_are_numbered_per_proposer() {
    let mut s = DevServer::new(OWNER);
    s.onboard_stakeholder_at("dev_address_1", StakeholderRole::Developer, 1).unwrap();
    let change = ProposedChange {
        component: "core_services".to_string(),
        change_type: "config".to_string(),
        old_value: None,
        new_value: "on".to_string(),
        rationale: "needed".to_string(),
    };
    assert_eq!(s.submit_proposal("dev_address_1", "Enable", "d", vec![change]), Ok("prop_dev_addr_0".to_string()));
    assert_eq!(s.submit_proposal("dev_address_1", "Again", "d", vec![]), Ok("prop_dev_addr_1".to_string()));
    assert_eq!(s.stakeholders.get("dev_address_1").unwrap().proposals_submitted, 2);
    assert_eq!(s.proposals.get("prop_dev_addr_0").unwrap().status, ProposalStatus::Draft);
    assert_eq!(s.submit_proposal("stranger", "t", "d", vec![]), Err("Stakeholder not found".to_string()));
}

#[test]
fn proposal_is_decided_once_two_thirds_voted() {
    let mut s = DevServer::new(OWNER);
    for who in ["voter_aaa", "voter_bbb", "voter_ccc"] {
        s.onboard_stakeholder_at(who, StakeholderRole::Investor, 1).unwrap();
    }
    let id = s.submit_proposal("voter_aaa", "t", "d", vec![]).unwrap();
    assert_eq!(s.vote_on_proposal("voter_aaa", &id, Vote::Approve), Ok(()));
    assert_eq!(s.proposals.get(&id).unwrap().status, ProposalStatus::Draft);
    assert_eq!(s.vote_on_proposal("voter_bbb", &id, Vote::Reject), Ok(()));
    assert_eq!(s.proposals.get(&id).unwrap().status, ProposalStatus::Rejected);
    assert_eq!(s.vote_on_proposal("voter_ccc", &id, Vote::Approve), Ok(()));
    assert_eq!(s.proposals.get(&id).unwrap().status, ProposalStatus::Approved);
    assert_eq!(s.vote_on_proposal("outsider", &id, Vote::Approve), Err("Stakeholder not found".to_string()));
    assert_eq!(s.vote_on_proposal("voter_aaa", "none", Vote::Approve), Err("Proposal not found".to_string()));
}

#[test]
fn a_revote_replaces_the_earlier_vote() {
    let mut s = DevServer::new(OWNER);
    s.onboard_stakeholder_at("single_voter", StakeholderRole::Auditor, 1).unwrap();
    let id = s.submit_proposal("single_voter", "t", "d", vec![]).unwrap();
    s.vote_on_proposal("single_voter", &id, Vote::RequestChanges("smaller".to_string())).unwrap();
    assert_eq!(s.proposals.get(&id).unwrap().status, ProposalStatus::Rejected);
    s.vote_on_proposal("single_voter", &id, Vote::Approve).unwrap();
    let p = s.proposals.get(&id).unwrap();
    assert_eq!(p.votes.len(), 1);
    assert_eq!(p.status, ProposalStatus::Approved);
}

#[test]
fn stakeholder_dashboard_reports_counts() {
    let mut s = DevServer::new(OWNER);
    assert_eq!(s.get_stakeholder_dashboard("nobody"), Err("Stakeholder not found".to_string()));
    s.launch_dev_server_at(1_700_000_000).unwrap();
    s.onboard_stakeholder_at("auditor_address", StakeholderRole::Auditor, 5).unwrap();
    let d = s.get_stakeholder_dashboard("auditor_address").unwrap();
    assert_eq!(
        d,
        "{\"active_proposals\":0,\"components\":[\"foundation\",\"build_system\",\"core_services\",\"plugin_loader\",\"governance\",\"libp2p_verbs\"],\"eigenmatrix_version\":\"1.0.0-dev\",\"open_audits\":6,\"server_id\":\"dev_0xABCDEF\",\"server_status\":\"Testing\",\"trust_level\":90,\"your_flags\":0,\"your_proposals\":0,\"your_role\":\"Auditor\"}"
    );
}

#[test]
fn flagging_refuses_before_the_clock() {
    let mut s = DevServer::new(OWNER);
    assert_eq!(
        s.flag_component("0xNOBODY000", "core", "bug", AuditSeverity::Low),
        Err("Stakeholder not found".to_string())
    );
    s.onboard_stakeholder_at("0xMEMBER0000", StakeholderRole::CommunityMember, 5).unwrap();
    assert_eq!(
        s.flag_component("0xMEMBER0000", "core", "bug", AuditSeverity::Low),
        Err("Insufficient trust level to flag components".to_string())
    );
}
