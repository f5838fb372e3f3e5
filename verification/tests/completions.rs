use advisorygraphen::interpretation::InterpretationPackage;
use advisorygraphen::lift::{lift_snapshot, Field, RecordRelation, Snapshot, SnapshotRecord, SnapshotSource};
use advisorygraphen::model::{AdvisoryError, Candidate, Cell, Incidence, Obstruction, Space};
use advisorygraphen::projection::{project, OutputFormat, ProjectOutput, ProjectionReport};
use advisorygraphen::reasoning::completions::{
    completion_source_ids, data_store_domain_title, id_suffix, propose_completions,
};
use advisorygraphen::reasoning::{check_space, is_cross_context};

fn s(x: &str) -> String {
    x.to_string()
}

fn cell(id: &str, cell_type: &str, title: &str, contexts: &[&str], sources: &[&str]) -> Cell {
    Cell {
        id: s(id),
        cell_type: Some(s(cell_type)),
        title: Some(s(title)),
        context_ids: contexts.iter().map(|x| s(x)).collect(),
        source_ids: sources.iter().map(|x| s(x)).collect(),
        origin: Some(s("source_backed")),
        review_status: Some(s("accepted")),
        require_verification: None,
        verification_required: None,
        source_id: None,
    }
}

fn direct_db_space() -> Space {
    let mut evidence = cell("cell:evidence-architecture-note", "evidence", "Architecture note", &[], &["source:architecture-note"]);
    evidence.source_id = Some(s("source:architecture-note"));
    Space {
        space_id: s("space:advisory:direct"),
        cells: vec![
            cell("cell:order-service", "component", "Order Service", &["context:orders"], &["source:architecture-note"]),
            cell("cell:billing-db", "data_store", "Billing DB", &["context:billing"], &["source:architecture-note"]),
            evidence,
        ],
        context_ids: vec![s("context:orders"), s("context:billing")],
        incidences: vec![Incidence {
            id: s("incidence:order-service-accesses-billing-db"),
            relation_type: s("accesses"),
            from_id: s("cell:order-service"),
            to_id: s("cell:billing-db"),
            evidence_ids: vec![s("cell:evidence-architecture-note")],
            access_type: Some(s("direct_database_read")),
            blocked_ids: None,
        }],
        source_boundary: None,
    }
}

#[test]
fn id_suffix_keeps_the_last_segment_as_a_slug() {
    assert_eq!(id_suffix("cell:billing-db"), "billing-db");
    assert_eq!(id_suffix("plain"), "plain");
    assert_eq!(id_suffix("a:b c_d"), "b-c-d");
}

#[test]
fn data_store_titles_lose_their_database_suffix() {
    assert_eq!(data_store_domain_title("Billing DB"), "Billing");
    assert_eq!(data_store_domain_title("Orders Database"), "Orders");
    assert_eq!(data_store_domain_title("Ledger"), "Ledger");
}

#[test]
fn cross_context_means_disjoint_non_empty_contexts() {
    assert!(is_cross_context(&vec![s("context:a")], &vec![s("context:b")]));
    assert!(!is_cross_context(&vec![s("context:a")], &vec![s("context:a"), s("context:b")]));
    assert!(!is_cross_context(&vec![], &vec![s("context:b")]));
}

#[test]
fn direct_database_access_gets_interface_and_refactor_candidates() {
    let space = direct_db_space();
    let report = check_space(&space, "technical_advisory_mvp", None).unwrap();
    let obstructions = report.obstructions();
    let boundary: Vec<&Obstruction> = obstructions
        .iter()
        .filter(|o| o.obstruction_type.as_deref() == Some("boundary_violation"))
        .collect();
    assert_eq!(boundary.len(), 1);
    assert_eq!(boundary[0].id, Some(s("obstruction:order-service-direct-billing-db-access")));
    let sources = completion_source_ids(&space.cells, boundary[0]);
    assert_eq!(sources, vec![s("source:architecture-note")]);

    let proposal = propose_completions(&space, &obstructions, "check.json").unwrap();
    assert_eq!(proposal.from_report, "check.json");
    let ids: Vec<&str> = proposal.candidates.iter().map(|c| c.id.as_str()).collect();
    assert!(ids.contains(&"candidate:billing-status-api"));
    assert!(ids.contains(&"candidate:replace-order-service-db-read"));
    let mut sorted = ids.clone();
    sorted.sort();
    assert_eq!(ids, sorted);
    let api = proposal.candidates.iter().find(|c| c.id == "candidate:billing-status-api").unwrap();
    assert_eq!(api.title, "Add Billing status query API");
    assert_eq!(api.rationale, "Remove cross-context direct database access while preserving billing status check.");
    assert_eq!(api.confidence_percent, 82);
    assert_eq!(api.metadata.specificity, "source_derived");
    assert_eq!(api.metadata.evidence_strength, "source_backed_obstruction");
    assert_eq!(api.resolves_obstruction_ids, vec![s("obstruction:order-service-direct-billing-db-access")]);
}

#[test]
fn missing_owner_gets_a_generic_owner_candidate() {
    let mut space = direct_db_space();
    space.cells = vec![cell("cell:ship-action", "action", "Ship", &[], &["source:test"])];
    space.incidences = vec![];
    space.context_ids = vec![];
    let report = check_space(&space, "technical_advisory_mvp", None).unwrap();
    let proposal = propose_completions(&space, &report.obstructions(), "r.json").unwrap();
    assert_eq!(proposal.candidates.len(), 1);
    let c = &proposal.candidates[0];
    assert_eq!(c.candidate_type, "ownership_clarification");
    assert_eq!(c.metadata.specificity, "generic");
    assert_eq!(c.confidence_percent, 70);
    assert!(c.id.starts_with("candidate:"));
    assert!(c.id.ends_with("-owner"));
}

#[test]
fn invalid_higher_graphen_ids_fail_the_proposal() {
    let mut space = direct_db_space();
    space.context_ids = vec![s("   ")];
    let report = check_space(&space, "technical_advisory_mvp", None).unwrap();
    match propose_completions(&space, &report.obstructions(), "r.json").err().unwrap() {
        AdvisoryError::Validation(m) => assert!(m.starts_with("higher-graphen completion: ")),
        other => panic!("unexpected {other:?}"),
    }
}

fn fixture_record(id: &str, record_type: &str, hint: &str, title: Option<&str>) -> SnapshotRecord {
    SnapshotRecord {
        id: Some(s(id)),
        record_type: Some(s(record_type)),
        context_hints: vec![s(hint)],
        source_ids: vec![s("source:architecture-note")],
        relation: None,
        title_json: title.map(|t| format!("\"{t}\"")),
        summary_json: None,
        source_ids_json: None,
        provenance_json: None,
        metadata_json: None,
    }
}

/// The direct database access engagement: an order service that reads the billing
/// database across contexts, as the architecture note records it.
fn direct_fixture_snapshot() -> Snapshot {
    let mut access = fixture_record("record:order-service-accesses-billing-db", "dependency_relation", "orders", None);
    access.relation = Some(RecordRelation {
        relation_type: Some(s("accesses")),
        from_record_id: Some(s("record:order-service")),
        to_record_id: Some(s("record:billing-db")),
    });
    Snapshot {
        snapshot_id: s("snapshot:direct"),
        engagement_id: s("engagement:direct"),
        sources: vec![SnapshotSource {
            id: Some(s("source:architecture-note")),
            title: Some(s("Architecture note")),
            source_type: Some(s("document")),
            classification_json: None,
        }],
        records: vec![
            fixture_record("record:order-service", "component", "orders", Some("Order Service")),
            fixture_record("record:billing-db", "data_store", "billing", Some("Billing DB")),
            access,
        ],
    }
}

#[test]
fn direct_fixture_lift_check_completions_and_executive_projection() {
    let package = InterpretationPackage::load("technical_advisory").unwrap();
    let lifted = lift_snapshot(&direct_fixture_snapshot(), &package);
    assert_eq!(lifted.space_id, "space:advisory:direct");
    let titles: Vec<&Field> = lifted.cells.iter().map(|c| &c.title).collect();
    assert!(titles.iter().any(|t| matches!(t, Field::Json(x) if x == "\"Order Service\"")));
    assert!(titles.iter().any(|t| matches!(t, Field::Json(x) if x == "\"Billing DB\"")));
    let contexts: Vec<&str> = lifted.contexts.iter().map(|c| c.id.as_str()).collect();
    assert_eq!(contexts, vec!["context:billing", "context:orders"]);
    assert_eq!(lifted.incidences.len(), 1);
    assert_eq!(lifted.incidences[0].id, "incidence:order-service-accesses-billing-db");
    assert_eq!(lifted.incidences[0].from_id, "cell:order-service");
    assert_eq!(lifted.incidences[0].to_id, "cell:billing-db");

    let space = direct_db_space();
    let report = check_space(&space, "technical_advisory_mvp", None).unwrap();
    assert!(report.findings.iter().any(|f| f.obstruction.id.as_deref() == Some("obstruction:order-service-direct-billing-db-access")));
    let obstructions = report.obstructions();
    let proposal = propose_completions(&space, &obstructions, "advisory.check.report.json").unwrap();
    let api = proposal.candidates.iter().find(|c| c.id == "candidate:billing-status-api").unwrap();
    assert_eq!(api.metadata.specificity, "source_derived");
    assert!(!api.metadata.precision_note.is_empty());
    assert!(api.source_ids.contains(&s("source:architecture-note")));

    let candidates: Vec<Candidate> = proposal
        .candidates
        .iter()
        .map(|c| Candidate {
            id: Some(c.id.clone()),
            candidate_type: Some(c.candidate_type.clone()),
            review_status: Some(s("unreviewed")),
            resolves_obstruction_ids: c.resolves_obstruction_ids.clone(),
            specificity: Some(c.metadata.specificity.clone()),
            proposal_content: None,
        })
        .collect();
    let input = ProjectionReport { obstructions, candidates: vec![], related_candidates: candidates, json: s("{}") };
    match project(&space, input, "executive", OutputFormat::Markdown).unwrap() {
        ProjectOutput::Markdown(m) => {
            assert!(m.starts_with("# AdvisoryGraphen executive Projection"));
            assert!(m.contains("- Closeable: `false`"));
            assert!(m.contains("obstruction:order-service-direct-billing-db-access"));
            assert!(m.contains("## Projection loss"));
        }
        ProjectOutput::Json(_) => panic!("markdown was asked for"),
    }
}
