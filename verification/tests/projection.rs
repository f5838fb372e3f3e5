use advisorygraphen::model::{AdvisoryError, Candidate, Cell, Obstruction, SourceBoundary, Space};
use advisorygraphen::projection::{
    build_projection, candidate_quality, decimal_text, obstruction_counts, project, render_markdown,
    source_ids, Audience, OutputFormat, ProjectOutput, ProjectionBody, ProjectionReport,
};

fn s(x: &str) -> String {
    x.to_string()
}

fn cell(id: &str, sources: &[&str]) -> Cell {
    Cell {
        id: s(id),
        cell_type: Some(s("component")),
        title: None,
        context_ids: vec![],
        source_ids: sources.iter().map(|x| s(x)).collect(),
        origin: None,
        review_status: None,
        require_verification: None,
        verification_required: None,
        source_id: None,
    }
}

fn obstruction(id: &str, severity: &str, message: Option<&str>) -> Obstruction {
    Obstruction {
        id: Some(s(id)),
        obstruction_type: Some(s("missing_owner")),
        severity: Some(s(severity)),
        review_status: None,
        message: message.map(s),
        blocked_ids: vec![],
        witness_ids: vec![],
        evidence_ids: vec![],
        recommended_completion_types: vec![],
        from_cell_id: None,
        to_cell_id: None,
        route_path: None,
        http_methods: vec![],
        specificity: None,
        rule_precision: None,
        resolution: None,
    }
}

fn candidate(id: &str, specificity: Option<&str>, resolves: &str, status: &str) -> Candidate {
    Candidate {
        id: Some(s(id)),
        candidate_type: Some(s("ownership_clarification")),
        review_status: Some(s(status)),
        resolves_obstruction_ids: vec![s(resolves)],
        specificity: specificity.map(s),
        proposal_content: None,
    }
}

fn demo_space() -> Space {
    Space {
        space_id: s("space:advisory:demo"),
        cells: vec![cell("cell:a", &["source:b", "source:a"]), cell("cell:b", &["source:a"])],
        context_ids: vec![],
        incidences: vec![],
        source_boundary: Some(SourceBoundary {
            json: s("{\"included_source_ids\":[\"source:a\",\"source:b\"]}"),
            included_source_count: Some(2),
            excluded_summary: Some(vec![Some(s("Git history")), None]),
        }),
    }
}

fn demo_report() -> ProjectionReport {
    ProjectionReport {
        obstructions: vec![
            obstruction("obstruction:x", "high", Some("X breaks")),
            obstruction("obstruction:y", "medium", None),
            obstruction("obstruction:z", "critical", Some("Z")),
        ],
        candidates: vec![candidate("candidate:x-owner", Some("generic"), "obstruction:x", "unreviewed")],
        related_candidates: vec![candidate("candidate:y-owner", None, "obstruction:y", "accepted")],
        json: s("{\"report_type\":\"check\"}"),
    }
}

const LOSS_LINE: &str = "- `omitted_source_text`: Source material is represented by structured records and summarized for this projection.";

#[test]
fn output_format_parses_json_and_markdown_only() {
    assert_eq!(OutputFormat::parse("json").unwrap(), OutputFormat::Json);
    assert_eq!(OutputFormat::parse("markdown").unwrap(), OutputFormat::Markdown);
    assert_eq!(
        OutputFormat::parse("yaml").err().unwrap(),
        AdvisoryError::Validation(s("unsupported format: yaml"))
    );
}

#[test]
fn unknown_audience_is_refused() {
    let err = build_projection(&demo_space(), demo_report(), "board").err().unwrap();
    assert_eq!(err, AdvisoryError::UnsupportedAudience(s("board")));
}

#[test]
fn executive_projection_summarizes_close_status_and_counts() {
    let p = build_projection(&demo_space(), demo_report(), "client_review").unwrap();
    assert_eq!(p.audience, Audience::Executive);
    assert_eq!(p.projection_id, "projection:executive:demo");
    assert_eq!(p.space_id, "space:advisory:demo");
    assert_eq!(
        p.represented_ids,
        vec![s("obstruction:x"), s("obstruction:y"), s("obstruction:z"), s("candidate:x-owner"), s("candidate:y-owner")]
    );
    assert_eq!(p.omitted_ids, vec![s("source:a"), s("source:b")]);
    assert_eq!(p.projection_loss.len(), 1);
    assert_eq!(p.projection_loss[0].omitted_ids, vec![s("source:a"), s("source:b")]);
    match &p.body {
        ProjectionBody::Executive { summary, source_boundary, proposal_content_summary } => {
            assert!(!summary.closeable);
            assert_eq!(summary.blocking_threshold, "medium");
            assert_eq!(summary.blocking_obstruction_ids.len(), 3);
            assert_eq!(summary.obstruction_counts.high, 1);
            assert_eq!(summary.obstruction_counts.medium, 1);
            assert_eq!(summary.obstruction_counts.low, 0);
            assert_eq!(summary.obstruction_counts.unknown, 1);
            assert_eq!(summary.high_severity_obstructions.len(), 1);
            assert_eq!(summary.medium_severity_obstructions[0].id, Some(s("obstruction:y")));
            assert!(summary.unreviewed_candidates_are_not_accepted);
            assert_eq!(summary.candidate_quality.generic, 1);
            assert_eq!(summary.candidate_quality.missing_precision_metadata, 1);
            assert_eq!(summary.candidate_quality.total, 2);
            assert_eq!(source_boundary.as_ref().unwrap().included_source_count, Some(2));
            assert_eq!(proposal_content_summary.with_structured_content, 0);
        }
        _ => panic!("executive body expected"),
    }
}

#[test]
fn executive_markdown_renders_every_section() {
    let p = build_projection(&demo_space(), demo_report(), "client_review").unwrap();
    let expected = [
        "# AdvisoryGraphen client review Projection",
        "",
        "Space: `space:advisory:demo`",
        "",
        "## Close status",
        "- Closeable: `false`",
        "- Blocking obstructions: 3",
        "",
        "## Obstruction summary",
        "- high: 1",
        "- medium: 1",
        "- low: 0",
        "- unknown: 1",
        "",
        "## High-severity obstructions",
        "- `obstruction:x`: X breaks",
        "",
        "## Medium-severity obstructions",
        "- `obstruction:y`: No message.",
        "",
        "## Source boundary",
        "- Included sources: 2",
        "- Excluded: Git history",
        "- Excluded: unknown",
        "",
        "## Projection loss",
        LOSS_LINE,
    ]
    .join("\n");
    assert_eq!(render_markdown("client_review", &p), expected);
}

#[test]
fn developer_projection_lists_every_candidate_as_action() {
    let p = build_projection(&demo_space(), demo_report(), "developer_action").unwrap();
    assert_eq!(p.projection_id, "projection:developer-action:demo");
    match &p.body {
        ProjectionBody::DeveloperAction { actions } => {
            assert_eq!(actions.len(), 2);
            assert_eq!(actions[1].id, Some(s("candidate:y-owner")));
        }
        _ => panic!("developer body expected"),
    }
    let md = render_markdown("developer_action", &p);
    let expected = ["# AdvisoryGraphen developer action Projection", "", "Space: `space:advisory:demo`", "", "## Projection loss", LOSS_LINE].join("\n");
    assert_eq!(md, expected);
}

#[test]
fn audit_projection_omits_nothing_and_keeps_the_report() {
    let mut space = demo_space();
    space.source_boundary = None;
    let p = build_projection(&space, demo_report(), "audit_trace").unwrap();
    assert_eq!(p.projection_id, "projection:audit:demo");
    assert!(p.omitted_ids.is_empty());
    match &p.body {
        ProjectionBody::AuditTrace { source_boundary, report_json } => {
            assert!(source_boundary.is_none());
            assert_eq!(report_json, "{\"report_type\":\"check\"}");
        }
        _ => panic!("audit body expected"),
    }
    let md = render_markdown("audit_trace", &p);
    let expected = [
        "# AdvisoryGraphen audit trace Projection",
        "",
        "Space: `space:advisory:demo`",
        "",
        "## Source boundary",
        "",
        "## Projection loss",
        LOSS_LINE,
    ]
    .join("\n");
    assert_eq!(md, expected);
}

#[test]
fn ai_agent_projection_carries_resolution_state_and_work_items() {
    let p = build_projection(&demo_space(), demo_report(), "ai_agent").unwrap();
    assert_eq!(p.projection_id, "projection:ai-agent:demo");
    match &p.body {
        ProjectionBody::AiAgent {
            open_obstructions,
            candidate_review_state,
            blocker_resolution_state,
            frontier_items,
            waiting_items,
            close_status,
            ..
        } => {
            assert_eq!(open_obstructions.len(), 3);
            assert_eq!(candidate_review_state.len(), 2);
            assert_eq!(blocker_resolution_state.len(), 3);
            assert_eq!(blocker_resolution_state[0].resolution_status.as_str(), "candidate_review_pending");
            assert_eq!(
                blocker_resolution_state[1].resolution_status.as_str(),
                "accepted_candidate_pending_application"
            );
            assert_eq!(blocker_resolution_state[2].resolution_status.as_str(), "no_candidate");
            assert_eq!(frontier_items.len(), 2);
            assert_eq!(waiting_items.len(), 1);
            assert!(!close_status.closeable);
            assert_eq!(close_status.space_id, "space:advisory:demo");
        }
        _ => panic!("ai agent body expected"),
    }
}

#[test]
fn project_renders_markdown_or_hands_back_the_projection() {
    match project(&demo_space(), demo_report(), "executive", OutputFormat::Json).unwrap() {
        ProjectOutput::Json(p) => assert_eq!(p.audience, Audience::Executive),
        _ => panic!("json output expected"),
    }
    match project(&demo_space(), demo_report(), "executive", OutputFormat::Markdown).unwrap() {
        ProjectOutput::Markdown(m) => assert!(m.starts_with("# AdvisoryGraphen executive Projection\n")),
        _ => panic!("markdown output expected"),
    }
    assert!(project(&demo_space(), demo_report(), "nobody", OutputFormat::Json).is_err());
}

#[test]
fn source_ids_are_sorted_without_repeats() {
    let ids = source_ids(&demo_space());
    assert_eq!(ids, vec![s("source:a"), s("source:b")]);
}

#[test]
fn decimal_text_writes_numbers() {
    assert_eq!(decimal_text(0), "0");
    assert_eq!(decimal_text(7), "7");
    assert_eq!(decimal_text(42), "42");
    assert_eq!(decimal_text(1000), "1000");
}

#[test]
fn severity_buckets_and_quality_buckets_cover_their_inputs() {
    let report = demo_report();
    let c = obstruction_counts(&report.obstructions);
    assert_eq!(c.high + c.medium + c.low + c.unknown, report.obstructions.len());
    let q = candidate_quality(&report.candidates);
    assert_eq!(
        q.source_derived + q.code_derived + q.requirement_derived + q.generic + q.missing_precision_metadata,
        q.total
    );
}
