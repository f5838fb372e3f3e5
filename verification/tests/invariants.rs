use advisorygraphen::model::{Candidate, Cell, Incidence, Obstruction, Severity, Space};
use advisorygraphen::reasoning::resolution::{
    blocker_resolution_state, frontier_items, waiting_items, ResolutionStatus, WorkItemType,
};
use advisorygraphen::reasoning::{check_space, close_status, CheckReport};

fn s(x: &str) -> String {
    x.to_string()
}

fn cell(id: &str, cell_type: &str, origin: &str, review: &str, sources: &[&str]) -> Cell {
    Cell {
        id: s(id),
        cell_type: Some(s(cell_type)),
        title: None,
        context_ids: vec![],
        source_ids: sources.iter().map(|x| s(x)).collect(),
        origin: Some(s(origin)),
        review_status: Some(s(review)),
        require_verification: None,
        verification_required: None,
        source_id: None,
    }
}

fn action_cell(id: &str) -> Cell {
    let mut c = cell(id, "action", "source_backed", "accepted", &["source:test"]);
    c.title = Some(s("Ship action"));
    c
}

fn base_space(cells: Vec<Cell>, incidences: Vec<Incidence>) -> Space {
    Space {
        space_id: s("space:test"),
        cells,
        context_ids: vec![],
        incidences,
        source_boundary: None,
    }
}

fn obstruction_types(report: &CheckReport) -> Vec<String> {
    report
        .findings
        .iter()
        .filter_map(|f| f.obstruction.obstruction_type.clone())
        .collect()
}

fn blocker(id: &str) -> Obstruction {
    Obstruction {
        id: Some(s(id)),
        obstruction_type: None,
        severity: None,
        review_status: None,
        message: None,
        blocked_ids: vec![],
        witness_ids: vec![],
        evidence_ids: vec![],
        recommended_completion_types: vec![],
        from_cell_id: None,
        to_cell_id: None,
        route_path: None,
        http_methods: vec![],
        specificity: None,
        rule_precision: None,
        resolution: None,
    }
}

fn candidate(id: &str, candidate_type: &str, review_status: &str, resolves: &str) -> Candidate {
    Candidate {
        id: Some(s(id)),
        candidate_type: Some(s(candidate_type)),
        review_status: Some(s(review_status)),
        resolves_obstruction_ids: vec![s(resolves)],
        specificity: None,
        proposal_content: None,
    }
}

fn missing_owner_blocker() -> Obstruction {
    let mut b = blocker("obstruction:missing-owner");
    b.obstruction_type = Some(s("missing_owner"));
    b.severity = Some(s("medium"));
    b.blocked_ids = vec![s("cell:ship-action")];
    b.recommended_completion_types = vec![s("ownership_clarification")];
    b
}

#[test]
fn action_without_owner_emits_missing_owner_obstruction() {
    let space = base_space(vec![action_cell("cell:ship-action")], vec![]);

    let report = check_space(&space, "technical_advisory_mvp", None).unwrap();

    assert!(obstruction_types(&report).iter().any(|t| t == "missing_owner"));
}

#[test]
fn requirement_marked_verification_required_emits_obstruction() {
    let mut requirement = cell("cell:requirement", "requirement", "source_backed", "accepted", &["source:test"]);
    requirement.title = Some(s("Requirement"));
    requirement.require_verification = Some(true);
    let space = base_space(vec![requirement], vec![]);

    let report = check_space(&space, "technical_advisory_mvp", None).unwrap();

    assert!(obstruction_types(&report).iter().any(|t| t == "requirement_unverified"));
}

#[test]
fn accepted_inferred_action_emits_insufficient_evidence() {
    let mut action = cell("cell:inferred-action", "action", "inferred", "accepted", &[]);
    action.title = Some(s("Inferred action"));
    let space = base_space(vec![action], vec![]);

    let report = check_space(&space, "technical_advisory_mvp", None).unwrap();

    assert!(obstruction_types(&report).iter().any(|t| t == "insufficient_evidence"));
}

#[test]
fn blocker_resolution_excludes_rejected_candidates_from_application_requirements() {
    let mut b = blocker("obstruction:missing-owner");
    b.blocked_ids = vec![s("cell:ship-action")];
    let blockers = vec![b];
    let candidates = vec![candidate(
        "candidate:missing-owner-owner",
        "ownership_clarification",
        "rejected",
        "obstruction:missing-owner",
    )];

    let state = blocker_resolution_state(&blockers, &candidates);

    assert_eq!(state[0].resolution_status.as_str(), "all_candidates_rejected");
    assert!(state[0].application_requirements.is_empty());
}

#[test]
fn blocker_resolution_describes_accepted_candidate_application_contract() {
    let mut b = blocker("obstruction:missing-verification");
    b.blocked_ids = vec![s("cell:requirement")];
    let blockers = vec![b];
    let candidates = vec![candidate(
        "candidate:missing-verification-test",
        "proposed_test",
        "accepted",
        "obstruction:missing-verification",
    )];

    let state = blocker_resolution_state(&blockers, &candidates);
    let requirement = &state[0].application_requirements[0];

    assert_eq!(state[0].resolution_status.as_str(), "accepted_candidate_pending_application");
    assert_eq!(requirement.required_cell_types, vec![s("test_or_verification")]);
    assert_eq!(requirement.required_relation_types, vec![s("verifies")]);
}

#[test]
fn no_candidate_frontier_preserves_obstruction_completion_hints() {
    let blockers = vec![missing_owner_blocker()];
    let state = blocker_resolution_state(&blockers, &vec![]);
    let frontier = frontier_items(&state);

    assert_eq!(state[0].resolution_status.as_str(), "no_candidate");
    assert_eq!(frontier[0].item_type.as_str(), "propose_completion_candidate");
    assert_eq!(frontier[0].blocked_ids, vec![s("cell:ship-action")]);
    assert_eq!(frontier[0].recommended_completion_types, vec![s("ownership_clarification")]);
}

#[test]
fn waiting_items_preserve_rejected_candidate_completion_hints() {
    let blockers = vec![missing_owner_blocker()];
    let candidates = vec![candidate(
        "candidate:missing-owner-owner",
        "ownership_clarification",
        "rejected",
        "obstruction:missing-owner",
    )];
    let state = blocker_resolution_state(&blockers, &candidates);
    let waiting = waiting_items(&state);

    assert_eq!(state[0].resolution_status.as_str(), "all_candidates_rejected");
    assert_eq!(waiting[0].item_type.as_str(), "all_candidates_rejected");
    assert_eq!(waiting[0].candidate_ids, vec![s("candidate:missing-owner-owner")]);
    assert_eq!(waiting[0].recommended_completion_types, vec![s("ownership_clarification")]);
}

#[test]
fn owned_action_passes_and_space_is_closeable() {
    let owner = cell("cell:team", "owner", "source_backed", "accepted", &["source:test"]);
    let inc = Incidence {
        id: s("incidence:team-owns-ship"),
        relation_type: s("owns"),
        from_id: s("cell:team"),
        to_id: s("cell:ship-action"),
        evidence_ids: vec![],
        access_type: None,
        blocked_ids: None,
    };
    let space = base_space(vec![action_cell("cell:ship-action"), owner], vec![inc]);
    let report = check_space(&space, "technical_advisory_mvp", None).unwrap();
    assert!(obstruction_types(&report).is_empty());
    let status = close_status("space:test", &report.obstructions());
    assert!(status.closeable);
    assert!(status.blocking_obstruction_ids.is_empty());
}

#[test]
fn missing_owner_blocks_close_with_its_obstruction_id() {
    let space = base_space(vec![action_cell("cell:ship-action")], vec![]);
    let report = check_space(&space, "technical_advisory_mvp", None).unwrap();
    let status = close_status("space:test", &report.obstructions());
    assert!(!status.closeable);
    assert_eq!(status.blocking_obstruction_ids.len(), report.findings.len());
    assert_eq!(status.blocking_positions, (0..report.findings.len()).collect::<Vec<_>>());
}

#[test]
fn waived_or_low_obstructions_do_not_block_close() {
    let mut waived = blocker("obstruction:waived");
    waived.severity = Some(s("high"));
    waived.review_status = Some(s("waived"));
    let mut low = blocker("obstruction:low");
    low.severity = Some(s("low"));
    let mut high = blocker("obstruction:high");
    high.severity = Some(s("critical"));
    let status = close_status("space:x", &vec![waived, low, high]);
    assert!(!status.closeable);
    assert_eq!(status.blocking_obstruction_ids, vec![s("obstruction:high")]);
    assert_eq!(status.blocking_positions, vec![2]);
    assert_eq!(status.blocking_threshold, "medium");
}

#[test]
fn unknown_ruleset_is_refused() {
    let space = base_space(vec![], vec![]);
    let err = check_space(&space, "other_ruleset", None).err().unwrap();
    assert_eq!(err, advisorygraphen::model::AdvisoryError::UnsupportedRuleset(s("other_ruleset")));
}

#[test]
fn fail_on_threshold_fails_the_check() {
    let space = base_space(vec![action_cell("cell:ship-action")], vec![]);
    let err = check_space(&space, "technical_advisory_mvp", Some(Severity::Medium)).err().unwrap();
    assert_eq!(err, advisorygraphen::model::AdvisoryError::FailOnThreshold(Severity::Medium));
    assert!(check_space(&space, "technical_advisory_mvp", Some(Severity::Critical)).is_ok());
}

#[test]
fn threshold_below_every_finding_returns_the_unthresholded_report() {
    let space = base_space(vec![action_cell("cell:ship-action")], vec![]);
    let plain = check_space(&space, "technical_advisory_mvp", None).unwrap();
    let gated = check_space(&space, "technical_advisory_mvp", Some(Severity::High)).unwrap();
    assert_eq!(obstruction_types(&gated), obstruction_types(&plain));
    assert_eq!(obstruction_types(&plain), vec![s("missing_owner")]);
    assert!(check_space(&space, "technical_advisory_mvp", Some(Severity::Low)).is_err());
}

#[test]
fn accepted_candidate_takes_precedence_over_rejected_one() {
    let blockers = vec![missing_owner_blocker()];
    let candidates = vec![
        candidate("candidate:a", "ownership_clarification", "rejected", "obstruction:missing-owner"),
        candidate("candidate:b", "ownership_clarification", "accepted", "obstruction:missing-owner"),
    ];
    let state = blocker_resolution_state(&blockers, &candidates);
    assert_eq!(state[0].resolution_status, ResolutionStatus::AcceptedCandidatePendingApplication);
    assert_eq!(state[0].accepted_candidate_ids, vec![s("candidate:b")]);
    assert_eq!(state[0].application_requirements.len(), 1);
    let frontier = frontier_items(&state);
    assert_eq!(frontier[0].item_type, WorkItemType::ApplyAcceptedCandidate);
    assert!(waiting_items(&state).is_empty());
}

#[test]
fn pending_review_waits_and_partition_counts_every_entry() {
    let mut other = blocker("obstruction:other");
    other.blocked_ids = vec![s("cell:x")];
    let blockers = vec![missing_owner_blocker(), other];
    let candidates = vec![candidate(
        "candidate:pending",
        "proposed_test",
        "unreviewed",
        "obstruction:missing-owner",
    )];
    let state = blocker_resolution_state(&blockers, &candidates);
    assert_eq!(state[0].resolution_status, ResolutionStatus::CandidateReviewPending);
    assert_eq!(state[1].resolution_status, ResolutionStatus::NoCandidate);
    let frontier = frontier_items(&state);
    let waiting = waiting_items(&state);
    assert_eq!(frontier.len() + waiting.len(), state.len());
    assert_eq!(waiting[0].item_type, WorkItemType::CandidateReviewPending);
}

#[test]
fn candidates_never_clear_a_blocker_from_the_resolution_state() {
    let blockers = vec![missing_owner_blocker(), blocker("obstruction:other")];
    let none = blocker_resolution_state(&blockers, &vec![]);
    let accepted = blocker_resolution_state(
        &blockers,
        &vec![candidate("candidate:c", "ownership_clarification", "accepted", "obstruction:missing-owner")],
    );
    let ids = |state: &Vec<advisorygraphen::reasoning::resolution::ResolutionEntry>| {
        state.iter().map(|e| e.obstruction_id.clone()).collect::<Vec<_>>()
    };
    assert_eq!(ids(&none), ids(&accepted));
    assert_eq!(ids(&none), vec![s("obstruction:missing-owner"), s("obstruction:other")]);
}
