use advisorygraphen::model::{Candidate, Obstruction, ProposalContent, Space};
use advisorygraphen::projection::{build_projection, Projection, ProjectionBody, ProjectionReport};

fn s(x: &str) -> String {
    x.to_string()
}

fn empty_space() -> Space {
    Space {
        space_id: s("space:advisory:precision-test"),
        cells: vec![],
        context_ids: vec![],
        incidences: vec![],
        source_boundary: None,
    }
}

fn code_derived_obstruction() -> Obstruction {
    Obstruction {
        id: Some(s("obstruction:route-missing-auth-guard")),
        obstruction_type: Some(s("api_route_missing_auth")),
        severity: Some(s("high")),
        review_status: Some(s("unreviewed")),
        message: Some(s("Route touches the database without an authentication guard.")),
        blocked_ids: vec![s("cell:route")],
        witness_ids: vec![s("cell:route")],
        evidence_ids: vec![s("source:route")],
        recommended_completion_types: vec![s("proposed_auth_guard")],
        from_cell_id: None,
        to_cell_id: None,
        route_path: None,
        http_methods: vec![],
        specificity: Some(s("code_derived")),
        rule_precision: None,
        resolution: None,
    }
}

fn candidate(id: &str, candidate_type: &str, specificity: &str) -> Candidate {
    Candidate {
        id: Some(s(id)),
        candidate_type: Some(s(candidate_type)),
        review_status: None,
        resolves_obstruction_ids: vec![],
        specificity: Some(s(specificity)),
        proposal_content: None,
    }
}

fn code_derived_candidate() -> Candidate {
    candidate("candidate:route-auth-guard", "proposed_auth_guard", "code_derived")
}

fn source_derived_candidate() -> Candidate {
    candidate("candidate:billing-status-api", "proposed_interface", "source_derived")
}

fn blocked_proposal_content_candidate() -> Candidate {
    let mut c = candidate("candidate:missing-owner-owner", "ownership_clarification", "generic");
    c.proposal_content = Some(ProposalContent {
        scenario_status: Some(s("blocked")),
        content_obstruction_types: vec![Some(s("proposal_content_underspecified"))],
    });
    c
}

fn check_report(obstructions: Vec<Obstruction>, candidates: Vec<Candidate>) -> ProjectionReport {
    ProjectionReport { obstructions, candidates, related_candidates: vec![], json: s("{}") }
}

fn project(obstructions: Vec<Obstruction>, candidates: Vec<Candidate>, audience: &str) -> Projection {
    build_projection(&empty_space(), check_report(obstructions, candidates), audience).unwrap()
}

#[test]
fn code_derived_candidates_count_into_their_own_bucket() {
    let projection = project(
        vec![code_derived_obstruction()],
        vec![code_derived_candidate(), source_derived_candidate()],
        "executive",
    );

    let quality = match &projection.body {
        ProjectionBody::Executive { summary, .. } => &summary.candidate_quality,
        _ => panic!("candidate_quality summary present"),
    };
    assert_eq!(quality.code_derived, 1);
    assert_eq!(quality.source_derived, 1);
    assert_eq!(quality.missing_precision_metadata, 0);
    assert_eq!(quality.total, 2);
}

#[test]
fn code_derived_obstructions_emit_lexical_detection_loss_entry() {
    let projection = project(vec![code_derived_obstruction()], vec![], "executive");

    let lexical = projection
        .projection_loss
        .iter()
        .find(|entry| entry.loss_type == "lexical_detection_caveat")
        .expect("lexical_detection_caveat entry emitted");
    assert_eq!(lexical.severity, "medium");
    assert_eq!(lexical.omitted_ids, vec![s("obstruction:route-missing-auth-guard")]);
}

#[test]
fn projection_loss_omits_lexical_caveat_when_no_code_derived_finding() {
    let projection = project(vec![], vec![source_derived_candidate()], "executive");

    assert!(projection
        .projection_loss
        .iter()
        .all(|entry| entry.loss_type != "lexical_detection_caveat"));
}

#[test]
fn proposal_content_summary_counts_blocked_content_obstructions() {
    let projection = project(
        vec![],
        vec![source_derived_candidate(), blocked_proposal_content_candidate()],
        "ai_agent",
    );

    let summary = match &projection.body {
        ProjectionBody::AiAgent { proposal_content_summary, .. } => proposal_content_summary,
        _ => panic!("proposal_content_summary present"),
    };
    assert_eq!(summary.with_structured_content, 1);
    assert_eq!(summary.blocked_content, 1);
    assert_eq!(summary.content_obstruction_count, 1);
    assert_eq!(summary.content_obstruction_types.len(), 1);
    assert_eq!(summary.content_obstruction_types[0].obstruction_type, "proposal_content_underspecified");
    assert_eq!(summary.content_obstruction_types[0].count, 1);
}
