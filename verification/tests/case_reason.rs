use advisorygraphen::model::{Cell, Space};
use advisorygraphen::projection::{agent_guidance, ProjectionBody};
use advisorygraphen::reasoning::completions::UNREVIEWED;
use advisorygraphen::reasoning::resolution::CLOSE_EFFECT;
use advisorygraphen::model::AdvisoryError;
use advisorygraphen::runtime::case_reason::{case_close_check, case_reason};
use advisorygraphen::runtime::case_review::{LogEntry, ReviewSummary};
use advisorygraphen::runtime::REVIEW_EVENT_SCHEMA;

fn s(x: &str) -> String {
    x.to_string()
}

fn ownerless_action_space() -> Space {
    Space {
        space_id: s("space:advisory:demo"),
        cells: vec![Cell {
            id: s("cell:ship"),
            cell_type: Some(s("action")),
            title: Some(s("Ship the release")),
            context_ids: vec![],
            source_ids: vec![s("source:plan")],
            origin: Some(s("source_backed")),
            review_status: Some(s("accepted")),
            require_verification: None,
            verification_required: None,
            source_id: None,
        }],
        context_ids: vec![],
        incidences: vec![],
        source_boundary: None,
    }
}

fn review(space: &str, target: &str, outcome: &str) -> LogEntry {
    LogEntry {
        case_space_id: Some(s(space)),
        payload_schema: Some(s(REVIEW_EVENT_SCHEMA)),
        target_ids: vec![s(target)],
        summary: ReviewSummary {
            review_event_id: Some(s("review:000001")),
            outcome: Some(s(outcome)),
            reviewer_id: Some(s("person:cto")),
            reviewed_at: None,
            reason: Some(s("owner is out of scope")),
        },
    }
}

#[test]
fn case_reason_leaves_a_rejected_owner_candidate_out_of_the_requirements() {
    let space = ownerless_action_space();
    let entries = vec![review("space:advisory:demo", "candidate:ship-missing-owner-owner", "rejected")];
    let r = case_reason(&space, &entries, "space:advisory:demo", "revision:review-000001").unwrap();
    assert_eq!(r.case_head_revision, "revision:review-000001");
    assert_eq!(r.check.findings.len(), 1);
    assert_eq!(r.completions.candidates.len(), 1);
    assert_eq!(r.completions.candidates[0].id, "candidate:ship-missing-owner-owner");
    assert_eq!(r.completions.from_report, "case_reason");
    assert_eq!(r.reviews.len(), 1);
    assert_eq!(r.reviews[0].as_ref().unwrap().outcome, Some(s("rejected")));
    assert_eq!(r.blocker_resolution_state.len(), 1);
    let entry = &r.blocker_resolution_state[0];
    assert_eq!(entry.obstruction_id, "obstruction:ship-missing-owner");
    assert_eq!(entry.resolution_status.as_str(), "all_candidates_rejected");
    assert!(entry.application_requirements.is_empty());
    assert_eq!(entry.candidate_ids, vec![s("candidate:ship-missing-owner-owner")]);
    assert_eq!(entry.close_effect, CLOSE_EFFECT);
    assert_eq!(entry.close_effect, "does_not_clear_obstruction_until_structure_changes");
    assert!(r.frontier_items.is_empty());
    assert_eq!(r.waiting_items.len(), 1);
    assert_eq!(r.waiting_items[0].obstruction_id, "obstruction:ship-missing-owner");
    assert!(!r.close_status.closeable);
    assert_eq!(r.close_status.blocking_threshold, "medium");
    assert_eq!(r.close_status.blocking_obstruction_ids, vec![s("obstruction:ship-missing-owner")]);
    match &r.projection.body {
        ProjectionBody::AiAgent { open_obstructions, candidate_review_state, blocker_resolution_state, .. } => {
            assert_eq!(open_obstructions.len(), 1);
            assert_eq!(candidate_review_state.len(), 1);
            assert_eq!(candidate_review_state[0].review_status, Some(s("rejected")));
            assert_eq!(blocker_resolution_state.len(), 1);
            assert!(blocker_resolution_state[0].application_requirements.is_empty());
        }
        _ => panic!("case reasoning projects for the ai_agent audience"),
    }
}

#[test]
fn case_reason_without_reviews_keeps_candidates_unreviewed() {
    let space = ownerless_action_space();
    let r = case_reason(&space, &vec![], "space:advisory:demo", "revision:import").unwrap();
    assert_eq!(r.case_head_revision, "revision:import");
    assert!(r.reviews[0].is_none());
    let entry = &r.blocker_resolution_state[0];
    assert_eq!(entry.resolution_status.as_str(), "candidate_review_pending");
    assert_eq!(entry.application_requirements.len(), 1);
    assert_eq!(entry.application_requirements[0].review_status, UNREVIEWED);
    match &r.projection.body {
        ProjectionBody::AiAgent { candidate_review_state, .. } => {
            assert_eq!(candidate_review_state[0].review_status, Some(s(UNREVIEWED)));
        }
        _ => panic!("case reasoning projects for the ai_agent audience"),
    }
}

#[test]
fn case_reason_ignores_reviews_logged_for_another_space() {
    let space = ownerless_action_space();
    let entries = vec![review("space:advisory:other", "candidate:ship-missing-owner-owner", "rejected")];
    let r = case_reason(&space, &entries, "space:advisory:demo", "revision:import").unwrap();
    assert!(r.reviews[0].is_none());
    assert_eq!(r.blocker_resolution_state[0].application_requirements.len(), 1);
}

#[test]
fn agent_guidance_lists_the_operation_contract() {
    let g = agent_guidance();
    assert_eq!(g.primary_operator, "ai_agent");
    assert_eq!(g.human_ui_role, "projection_consumer");
    assert_eq!(g.allowed_commands.len(), 9);
    assert_eq!(g.allowed_commands[7], "case reason");
    assert_eq!(g.review_gated_commands, vec!["completions accept", "completions reject"]);
    assert_eq!(g.forbidden_operations[0], "promote unreviewed candidate structure");
    assert_eq!(g.resume_protocol[0], "read close_status");
    assert_eq!(g.next_safe_operations[4], "generate_audit_projection");
}

#[test]
fn close_check_refuses_a_stale_or_missing_base_and_reports_blockers() {
    let space = ownerless_action_space();
    let c = case_close_check(&space, " revision:import\n", Some("revision:import")).unwrap();
    assert!(!c.close_status.closeable);
    assert_eq!(c.close_status.blocking_obstruction_ids, vec![s("obstruction:ship-missing-owner")]);
    assert_eq!(c.close_status.blocking_positions, vec![0]);
    assert_eq!(c.check.findings.len(), 1);
    assert_eq!(
        case_close_check(&space, "revision:review-000001", Some("revision:import")).err().unwrap(),
        AdvisoryError::StaleRevision { expected: s("revision:review-000001"), actual: s("revision:import") }
    );
    assert_eq!(
        case_close_check(&space, "revision:import", None).err().unwrap(),
        AdvisoryError::StaleRevision { expected: s("revision:import"), actual: s("<missing>") }
    );
}

#[test]
fn close_check_of_a_clean_space_is_closeable() {
    let mut space = ownerless_action_space();
    space.cells.clear();
    let c = case_close_check(&space, "revision:import", Some("revision:import")).unwrap();
    assert!(c.close_status.closeable);
    assert!(c.close_status.blocking_obstruction_ids.is_empty());
}
