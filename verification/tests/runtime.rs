use advisorygraphen::model::{AdvisoryError, Candidate, Obstruction};
use advisorygraphen::runtime::autonomy::{
    autonomy_decision, default_conservative, denied, hypothesis_event_from_proposal, plan_applications,
    policy_with_overrides, LifecycleProposal, PolicyOverrides, ProposalStep,
};
use advisorygraphen::runtime::case_review::{
    application_contract, apply_candidate_reviews, blocker_resolution_state, LogEntry, ReviewSummary,
};
use advisorygraphen::runtime::review::{
    auto_log_ids, find_higher_graphen_candidate, find_hypothesis, higher_graphen_completion_review, hypothesis_log_ids,
    prepare_completion_review, review_log_ids, review_space_matches, ReviewCandidate, ReviewDecision,
};
use higher_graphen_core::{Confidence, Id};
use higher_graphen_reasoning::completion::{CompletionCandidate, MissingType, SuggestedStructure};
use advisorygraphen::runtime::{
    canonical_schema_name, ensure_base_revision, file_name, join_path, next_sequence, padded6_text,
    root_log_path, space_dir, space_log_path, trim_text, REVIEW_EVENT_SCHEMA,
};

fn s(x: &str) -> String {
    x.to_string()
}

fn stale(expected: &str, actual: &str) -> AdvisoryError {
    AdvisoryError::StaleRevision { expected: s(expected), actual: s(actual) }
}

#[test]
fn base_revision_must_match_the_trimmed_head() {
    assert!(ensure_base_revision(None, None).is_ok());
    assert!(ensure_base_revision(Some("revision:1\n"), Some("revision:1")).is_ok());
    assert_eq!(ensure_base_revision(Some("revision:1\n"), None).err().unwrap(), stale("revision:1", "<missing>"));
    assert_eq!(
        ensure_base_revision(Some(" revision:2 "), Some("revision:1")).err().unwrap(),
        stale("revision:2", "revision:1")
    );
}

#[test]
fn trim_removes_unicode_white_space_only() {
    assert_eq!(trim_text("\u{3000} a b \t"), "a b");
    assert_eq!(trim_text("   "), "");
    assert_eq!(trim_text("x"), "x");
}

#[test]
fn store_layout_paths() {
    assert_eq!(space_dir("store", "space:advisory:demo/x"), "store/spaces/space-advisory-demo-x");
    assert_eq!(space_dir("store/", "space:a"), "store/spaces/space-a");
    assert_eq!(space_dir("", "space:a"), "spaces/space-a");
    assert_eq!(root_log_path("/tmp/store"), "/tmp/store/logs/morphism-log.jsonl");
    assert_eq!(
        space_log_path("/tmp/store", "space:a"),
        "/tmp/store/spaces/space-a/logs/morphism-log.jsonl"
    );
    assert_eq!(join_path("a", "b/c"), "a/b/c");
}

#[test]
fn file_name_falls_back_to_report_json() {
    assert_eq!(file_name("/tmp/x/check.json"), "check.json");
    assert_eq!(file_name("check.json"), "check.json");
    assert_eq!(file_name("/tmp/x/check.json/"), "check.json");
    assert_eq!(file_name("/"), "report.json");
    assert_eq!(file_name("/tmp/.."), "report.json");
}

#[test]
fn schema_names_expand_to_schema_ids() {
    assert_eq!(canonical_schema_name("snapshot"), "advisorygraphen.engagement.snapshot.v1");
    assert_eq!(canonical_schema_name("advisory_space"), "advisorygraphen.space.v1");
    assert_eq!(canonical_schema_name("report"), "advisorygraphen.report.v1");
    assert_eq!(canonical_schema_name("review_event"), "advisorygraphen.review.event.v1");
    assert_eq!(canonical_schema_name("custom.schema.v2"), "custom.schema.v2");
}

#[test]
fn sequences_are_six_digits_and_count_the_space_entries() {
    assert_eq!(padded6_text(1), "000001");
    assert_eq!(padded6_text(123456), "123456");
    assert_eq!(padded6_text(1234567), "1234567");
    let logged = vec![Some(s("space:a")), Some(s("space:b")), None, Some(s("space:a"))];
    assert_eq!(next_sequence(&logged, "space:a"), 3);
    assert_eq!(next_sequence(&logged, "space:c"), 1);
    assert_eq!(next_sequence(&vec![], "space:a"), 1);
}

fn proposal(outcome: &str, status: &str, trust: &[&str]) -> LifecycleProposal {
    LifecycleProposal {
        id: Some(s("proposal:1")),
        target_hypothesis_id: Some(s("hypothesis:h1")),
        proposed_outcome: Some(s(outcome)),
        target_hypothesis_status: Some(s(status)),
        supporting_signals: trust.iter().map(|t| Some(s(t))).collect(),
        falsifying_signals: vec![],
    }
}

#[test]
fn conservative_policy_defaults() {
    let p = default_conservative();
    assert_eq!(p.allowed_outcomes, vec![s("supported"), s("falsified")]);
    assert_eq!(p.max_events, 3);
    assert!(p.require_candidate_status);
    assert!(!p.allow_review_conflict);
    let d = denied("no");
    assert!(!d.allowed);
    assert_eq!(d.reason, "no");
}

#[test]
fn policy_overrides_replace_defaults_but_empty_lists_keep_them() {
    let p = policy_with_overrides(PolicyOverrides {
        allowed_outcomes: Some(vec![]),
        allowed_trust_levels: Some(vec![s("inferred")]),
        max_events: Some(10),
        require_candidate_status: None,
        allow_review_conflict: Some(true),
    });
    assert_eq!(p.allowed_outcomes, vec![s("supported"), s("falsified")]);
    assert_eq!(p.allowed_trust_levels, vec![s("inferred")]);
    assert_eq!(p.max_events, 10);
    assert!(p.require_candidate_status);
    assert!(p.allow_review_conflict);
}

#[test]
fn autonomy_decisions_follow_the_gates_in_order() {
    let policy = default_conservative();
    let ok = proposal("supported", "candidate", &["reviewed_or_source_backed"]);
    let d = autonomy_decision(&ok, &policy, None);
    assert!(d.allowed);
    assert_eq!(d.reason, "policy allowed");

    let d = autonomy_decision(&proposal("review_conflict", "candidate", &[]), &policy, None);
    assert_eq!(d.reason, "review_conflict proposals require human review");
    let d = autonomy_decision(&proposal("accepted", "candidate", &[]), &policy, None);
    assert_eq!(d.reason, "outcome accepted is not policy-allowed");
    let d = autonomy_decision(&proposal("supported", "supported", &["test_passed"]), &policy, None);
    assert_eq!(d.reason, "target hypothesis is not in candidate lifecycle status");
    let d = autonomy_decision(&ok, &policy, Some("confidence 0.5 is below policy minimum 0.7"));
    assert_eq!(d.reason, "confidence 0.5 is below policy minimum 0.7");
    let d = autonomy_decision(&proposal("supported", "candidate", &[]), &policy, None);
    assert_eq!(d.reason, "proposal has no outcome-specific evidence signals");
    let d = autonomy_decision(&proposal("supported", "candidate", &["inferred"]), &policy, None);
    assert_eq!(d.reason, "proposal has no evidence signal with policy-allowed trust level");
    let mut falsify = proposal("falsified", "candidate", &["runtime_observed"]);
    assert!(!autonomy_decision(&falsify, &policy, None).allowed);
    falsify.falsifying_signals = vec![None, Some(s("runtime_observed"))];
    assert!(autonomy_decision(&falsify, &policy, None).allowed);
}

#[test]
fn plan_applies_allowed_proposals_up_to_max_events() {
    let mut policy = default_conservative();
    policy.max_events = 2;
    let good = proposal("supported", "candidate", &["test_passed"]);
    let bad = proposal("supported", "candidate", &["inferred"]);
    let proposals = vec![good, bad, proposal("supported", "candidate", &["test_passed"]), proposal("falsified", "candidate", &[]), proposal("supported", "candidate", &["test_passed"])];
    let mut p4 = proposal("supported", "candidate", &["test_passed"]);
    p4.target_hypothesis_id = Some(s("hypothesis:h4"));
    let mut proposals = proposals;
    proposals[4] = p4;
    let below = vec![None, None, None, None, None];
    let steps = plan_applications(&proposals, &policy, &below).unwrap();
    assert_eq!(steps.len(), 5);
    match &steps[0] {
        ProposalStep::Apply { proposal, event } => {
            assert_eq!(*proposal, 0);
            assert_eq!(event.hypothesis_event_id, "hypothesis-event:auto-supported:h1-000001");
            assert_eq!(event.target_hypothesis_id, "hypothesis:h1");
            assert_eq!(event.outcome, "supported");
        }
        _ => panic!("first proposal applies"),
    }
    match &steps[1] {
        ProposalStep::Skip { proposal, reason } => {
            assert_eq!(*proposal, 1);
            assert_eq!(reason, "proposal has no evidence signal with policy-allowed trust level");
        }
        _ => panic!("second proposal is skipped"),
    }
    match &steps[2] {
        ProposalStep::Apply { event, .. } => assert_eq!(event.hypothesis_event_id, "hypothesis-event:auto-supported:h1-000002"),
        _ => panic!("third proposal applies"),
    }
    match &steps[3] {
        ProposalStep::Skip { reason, .. } => assert_eq!(reason, "proposal has no outcome-specific evidence signals"),
        _ => panic!("fourth proposal is skipped"),
    }
    match &steps[4] {
        ProposalStep::Skip { reason, .. } => assert_eq!(reason, "policy max_events 2 reached"),
        _ => panic!("fifth proposal is over the limit"),
    }
    let applied = steps.iter().filter(|s| matches!(s, ProposalStep::Apply { .. })).count();
    let skipped = steps.iter().filter(|s| matches!(s, ProposalStep::Skip { .. })).count();
    assert!(applied <= policy.max_events);
    assert_eq!(applied, 2);
    assert_eq!(applied + skipped, proposals.len());
}

#[test]
fn plan_fails_on_an_applied_proposal_that_cannot_become_an_event() {
    let mut policy = default_conservative();
    policy.allowed_outcomes = vec![s("supported"), s("accepted")];
    let proposals = vec![proposal("accepted", "candidate", &["test_passed"])];
    let err = plan_applications(&proposals, &policy, &vec![None]).err().unwrap();
    assert_eq!(err, AdvisoryError::Validation(s("cannot apply lifecycle proposal outcome accepted")));
}

#[test]
fn lifecycle_events_need_a_hypothesis_and_an_outcome() {
    let mut p = proposal("supported", "candidate", &[]);
    p.target_hypothesis_id = None;
    assert_eq!(
        hypothesis_event_from_proposal(&p, 1).err().unwrap(),
        AdvisoryError::Validation(s("lifecycle proposal missing target_hypothesis_id"))
    );
    let mut p = proposal("supported", "candidate", &[]);
    p.proposed_outcome = None;
    assert_eq!(
        hypothesis_event_from_proposal(&p, 1).err().unwrap(),
        AdvisoryError::Validation(s("lifecycle proposal missing proposed_outcome"))
    );
    let e = hypothesis_event_from_proposal(&proposal("falsified", "x", &[]), 12).unwrap();
    assert_eq!(e.hypothesis_event_id, "hypothesis-event:auto-falsified:h1-000012");
}

#[test]
fn log_ids_of_reviews_and_hypothesis_events() {
    let r = review_log_ids(ReviewDecision::Rejected, "candidate:missing-owner-owner", 7);
    assert_eq!(r.event_id, "review:rejected:missing-owner-owner-000007");
    assert_eq!(r.log.entry_id, "log:000007");
    assert_eq!(r.log.morphism_id, "morphism:rejected-missing-owner-owner");
    assert_eq!(r.log.target_revision, "revision:review-000007");
    let h = hypothesis_log_ids("falsified", "hypothesis:h1", 2);
    assert_eq!(h.event_id, "hypothesis-event:falsified:h1-000002");
    assert_eq!(h.log.morphism_id, "morphism:hypothesis-falsified-h1");
    assert_eq!(h.log.target_revision, "revision:hypothesis-000002");
    let a = auto_log_ids("supported", "hypothesis:h1", 3);
    assert_eq!(a.entry_id, "log:000003");
    assert_eq!(a.morphism_id, "morphism:hypothesis-auto-supported-h1");
    assert_eq!(a.target_revision, "revision:hypothesis-auto-000003");
}

fn rc(id: Option<&str>, hg: bool) -> ReviewCandidate {
    ReviewCandidate {
        id: id.map(s),
        higher_graphen: if hg { Some(s("{}")) } else { None },
        snapshot_space_id: None,
    }
}

fn snapshot(candidate_id: &str, space_id: &str) -> String {
    let structure = SuggestedStructure::new("cell", "Billing status API").unwrap();
    let candidate = CompletionCandidate::new(
        Id::new(candidate_id).unwrap(),
        Id::new(space_id).unwrap(),
        MissingType::Cell,
        structure,
        vec![Id::new("obstruction:direct-db").unwrap()],
        "Replace direct database access with an API.",
        Confidence::new(0.72).unwrap(),
    )
    .unwrap();
    serde_json::to_string(&candidate).unwrap()
}

fn snapshot_candidate(id: &str, space_id: &str) -> ReviewCandidate {
    ReviewCandidate {
        id: Some(s(id)),
        higher_graphen: Some(snapshot(id, space_id)),
        snapshot_space_id: Some(s(space_id)),
    }
}

#[test]
fn completion_review_builds_the_higher_graphen_record() {
    let list = Some(vec![snapshot_candidate("candidate:api", "space:advisory:direct")]);
    let (record, decision) = higher_graphen_completion_review(
        &list,
        Some("space:advisory:direct"),
        "candidate:api",
        "person:cto",
        "accepted",
        "API first",
        "2024-01-01T00:00:00Z",
    )
    .unwrap();
    assert_eq!(decision, ReviewDecision::Accepted);
    let value: serde_json::Value = serde_json::from_str(&record).unwrap();
    assert_eq!(value["request"]["candidate_id"], "candidate:api");
    assert_eq!(value["request"]["decision"], "accepted");
    assert_eq!(value["request"]["reviewer_id"], "person:cto");
    assert_eq!(value["request"]["reviewed_at"], "2024-01-01T00:00:00Z");
    assert_eq!(value["candidate"]["id"], "candidate:api");
    assert!(value.get("accepted_completion").is_some());
    assert!(value.get("rejected_completion").is_none());

    let (record, decision) = higher_graphen_completion_review(
        &list,
        Some("space:advisory:direct"),
        "candidate:api",
        "person:cto",
        "rejected",
        "Ownership first",
        "2024-01-02T00:00:00Z",
    )
    .unwrap();
    assert_eq!(decision, ReviewDecision::Rejected);
    let value: serde_json::Value = serde_json::from_str(&record).unwrap();
    assert_eq!(value["rejected_completion"]["reason"], "Ownership first");
    assert!(value.get("accepted_completion").is_none());
}

#[test]
fn completion_review_refuses_mismatched_spaces_and_failed_reviews() {
    let list = Some(vec![snapshot_candidate("candidate:api", "space:advisory:direct")]);
    assert_eq!(
        higher_graphen_completion_review(&list, Some("space:advisory:other"), "candidate:api", "person:cto", "accepted", "ok", "now")
            .err()
            .unwrap(),
        AdvisoryError::Validation(s(
            "candidate snapshot space space:advisory:direct does not match from-report space space:advisory:other"
        ))
    );
    assert_eq!(
        higher_graphen_completion_review(&list, None, "candidate:api", "person:cto", "accepted", "ok", "now").err().unwrap(),
        AdvisoryError::Validation(s("from-report must contain input.space_id for completion reviews"))
    );
    match higher_graphen_completion_review(&list, Some("space:advisory:direct"), "candidate:api", "person:cto", "accepted", "  ", "now")
        .err()
        .unwrap()
    {
        AdvisoryError::Validation(m) => assert!(m.starts_with("higher-graphen runtime: ")),
        other => panic!("unexpected {other:?}"),
    }
    let broken = Some(vec![ReviewCandidate {
        id: Some(s("candidate:api")),
        higher_graphen: Some(s("not json")),
        snapshot_space_id: Some(s("space:advisory:direct")),
    }]);
    match higher_graphen_completion_review(&broken, Some("space:advisory:direct"), "candidate:api", "person:cto", "accepted", "ok", "now")
        .err()
        .unwrap()
    {
        AdvisoryError::Validation(m) => assert!(m.starts_with("higher-graphen runtime: ")),
        other => panic!("unexpected {other:?}"),
    }
    assert_eq!(
        higher_graphen_completion_review(&list, Some("space:advisory:direct"), "candidate:api", "person:cto", "maybe", "ok", "now")
            .err()
            .unwrap(),
        AdvisoryError::Validation(s("unsupported completion review outcome: maybe"))
    );
}

#[test]
fn review_spaces_must_be_present_and_equal() {
    assert!(review_space_matches(Some("space:a"), Some("space:a")).is_ok());
    assert_eq!(
        review_space_matches(Some("space:a"), None).err().unwrap(),
        AdvisoryError::Validation(s("candidate snapshot must contain higher_graphen.space_id"))
    );
    assert_eq!(
        review_space_matches(None, Some("space:a")).err().unwrap(),
        AdvisoryError::Validation(s("from-report must contain input.space_id for completion reviews"))
    );
}

#[test]
fn review_targets_exactly_one_candidate_with_a_snapshot() {
    let list = Some(vec![rc(Some("candidate:a"), true), rc(None, true), rc(Some("candidate:b"), false), rc(Some("candidate:a2"), true), rc(Some("candidate:a2"), true)]);
    assert_eq!(find_higher_graphen_candidate(&list, "candidate:a").unwrap(), 0);
    assert_eq!(
        find_higher_graphen_candidate(&None, "candidate:a").err().unwrap(),
        AdvisoryError::Validation(s("from-report must contain result.completion_candidates"))
    );
    assert_eq!(
        find_higher_graphen_candidate(&list, "candidate:z").err().unwrap(),
        AdvisoryError::Validation(s("candidate candidate:z not found in from-report"))
    );
    assert_eq!(
        find_higher_graphen_candidate(&list, "candidate:a2").err().unwrap(),
        AdvisoryError::Validation(s("candidate candidate:a2 appears more than once in from-report"))
    );
    assert_eq!(
        find_higher_graphen_candidate(&list, "candidate:b").err().unwrap(),
        AdvisoryError::Validation(s("candidate candidate:b has no higher_graphen snapshot"))
    );
}

#[test]
fn review_requests_check_ids_and_outcome() {
    let list = Some(vec![rc(Some("candidate:a"), true)]);
    let t = prepare_completion_review(&list, "candidate:a", "person:cto", "accepted").unwrap();
    assert_eq!(t.candidate_index, 0);
    assert_eq!(t.decision, ReviewDecision::Accepted);
    let t = prepare_completion_review(&list, "candidate:a", "person:cto", "rejected").unwrap();
    assert_eq!(t.decision, ReviewDecision::Rejected);
    match prepare_completion_review(&list, "candidate:a", "  ", "accepted").err().unwrap() {
        AdvisoryError::Validation(m) => assert!(m.starts_with("higher-graphen runtime: ")),
        other => panic!("unexpected {other:?}"),
    }
    match prepare_completion_review(&list, "candidate:a", "person:\u{7}x", "accepted").err().unwrap() {
        AdvisoryError::Validation(m) => assert!(m.starts_with("higher-graphen runtime: ")),
        other => panic!("unexpected {other:?}"),
    }
    assert_eq!(
        prepare_completion_review(&list, "candidate:a", "person:cto", "maybe").err().unwrap(),
        AdvisoryError::Validation(s("unsupported completion review outcome: maybe"))
    );
    assert_eq!(
        prepare_completion_review(&list, "candidate:z", "  ", "maybe").err().unwrap(),
        AdvisoryError::Validation(s("candidate candidate:z not found in from-report"))
    );
}

#[test]
fn hypotheses_are_found_by_id() {
    let ids = vec![None, Some(s("hypothesis:a")), Some(s("hypothesis:a"))];
    assert_eq!(find_hypothesis(&ids, "hypothesis:a").unwrap(), 1);
    assert_eq!(
        find_hypothesis(&ids, "hypothesis:b").err().unwrap(),
        AdvisoryError::Validation(s("hypothesis hypothesis:b not found in from-report"))
    );
}

fn summary(outcome: &str) -> ReviewSummary {
    ReviewSummary {
        review_event_id: Some(s(&format!("review:{outcome}"))),
        outcome: Some(s(outcome)),
        reviewer_id: Some(s("person:cto")),
        reviewed_at: None,
        reason: None,
    }
}

fn entry(space: Option<&str>, schema: Option<&str>, targets: &[&str], outcome: &str) -> LogEntry {
    LogEntry {
        case_space_id: space.map(s),
        payload_schema: schema.map(s),
        target_ids: targets.iter().map(|t| s(t)).collect(),
        summary: summary(outcome),
    }
}

fn cand(id: Option<&str>, status: &str) -> Candidate {
    Candidate {
        id: id.map(s),
        candidate_type: Some(s("ownership_clarification")),
        review_status: Some(s(status)),
        resolves_obstruction_ids: vec![s("obstruction:o")],
        specificity: None,
        proposal_content: None,
    }
}

#[test]
fn rejected_review_survives_replay_and_latest_review_wins() {
    let entries = vec![
        entry(Some("space:a"), Some(REVIEW_EVENT_SCHEMA), &["candidate:x", "candidate:y"], "accepted"),
        entry(Some("space:a"), Some(REVIEW_EVENT_SCHEMA), &["candidate:x"], "rejected"),
        entry(Some("space:other"), Some(REVIEW_EVENT_SCHEMA), &["candidate:y"], "rejected"),
        entry(Some("space:unknown"), Some("other.schema"), &["candidate:y"], "rejected"),
        entry(None, Some(REVIEW_EVENT_SCHEMA), &["candidate:z"], "rejected"),
    ];
    let mut candidates = vec![
        cand(Some("candidate:x"), "unreviewed"),
        cand(Some("candidate:y"), "unreviewed"),
        cand(Some("candidate:z"), "unreviewed"),
        cand(None, "unreviewed"),
        cand(Some("candidate:w"), "unreviewed"),
    ];
    let applied = apply_candidate_reviews(&entries, "space:a", &mut candidates);
    let statuses: Vec<Option<String>> = candidates.iter().map(|c| c.review_status.clone()).collect();
    assert_eq!(
        statuses,
        vec![Some(s("rejected")), Some(s("accepted")), Some(s("rejected")), Some(s("unreviewed")), Some(s("unreviewed"))]
    );
    assert_eq!(applied[0].as_ref().unwrap().review_event_id, Some(s("review:rejected")));
    assert!(applied[3].is_none());
    let again = candidates.clone();
    apply_candidate_reviews(&entries, "space:a", &mut candidates);
    assert_eq!(candidates, again);
}

#[test]
fn case_resolution_state_keeps_rejected_candidates_in_requirements() {
    let blocker = Obstruction {
        id: Some(s("obstruction:o")),
        obstruction_type: None,
        severity: None,
        review_status: None,
        message: None,
        blocked_ids: vec![s("cell:a")],
        witness_ids: vec![],
        evidence_ids: vec![],
        recommended_completion_types: vec![],
        from_cell_id: None,
        to_cell_id: None,
        route_path: None,
        http_methods: vec![],
        specificity: None,
        rule_precision: None,
        resolution: None,
    };
    let state = blocker_resolution_state(&vec![blocker], &vec![cand(Some("candidate:x"), "rejected")]);
    assert_eq!(state[0].resolution_status.as_str(), "all_candidates_rejected");
    assert_eq!(state[0].application_requirements.len(), 1);
    assert_eq!(state[0].application_requirements[0].review_status, "rejected");
    assert_eq!(state[0].application_requirements[0].target_blocked_ids, vec![s("cell:a")]);
    let contract = application_contract("proposed_interface");
    assert_eq!(contract.required_cell_types, vec![s("interface")]);
    assert_eq!(contract.required_relation_types, vec![s("uses"), s("provides")]);
}
