use advisorygraphen::interpretation::InterpretationPackage;
use advisorygraphen::lift::{
    infer_context_type, lift_snapshot, map_record_type, stable_context_id, title_case, CellMetadata, Field,
    RecordRelation, Snapshot, SnapshotRecord, SnapshotSource,
};

fn s(x: &str) -> String {
    x.to_string()
}

fn record(id: &str, record_type: &str, hints: &[&str], sources: &[&str]) -> SnapshotRecord {
    SnapshotRecord {
        id: Some(s(id)),
        record_type: Some(s(record_type)),
        context_hints: hints.iter().map(|x| s(x)).collect(),
        source_ids: sources.iter().map(|x| s(x)).collect(),
        relation: None,
        title_json: None,
        summary_json: None,
        source_ids_json: None,
        provenance_json: None,
        metadata_json: None,
    }
}

fn demo_snapshot() -> Snapshot {
    let mut service = record("record:order-service", "component", &["orders"], &["source:arch"]);
    service.title_json = Some(s("\"Order Service\""));
    let db = record("record:billing-db", "data_store", &["billing", "orders"], &["source:arch"]);
    let mut reads = record("record:order-reads-billing", "dependency_relation", &["orders"], &["source:arch"]);
    reads.relation = Some(RecordRelation {
        relation_type: Some(s("reads")),
        from_record_id: Some(s("record:order-service")),
        to_record_id: Some(s("record:billing-db")),
    });
    Snapshot {
        snapshot_id: s("snapshot:demo"),
        engagement_id: s("engagement:demo"),
        sources: vec![
            SnapshotSource {
                id: Some(s("source:arch")),
                title: Some(s("Architecture note")),
                source_type: Some(s("document")),
                classification_json: None,
            },
            SnapshotSource { id: None, title: Some(s("No id")), source_type: None, classification_json: None },
        ],
        records: vec![service, db, reads],
    }
}

#[test]
fn record_types_map_to_cell_types() {
    assert_eq!(map_record_type("component"), "component");
    assert_eq!(map_record_type("test"), "test_or_verification");
    assert_eq!(map_record_type("verification"), "test_or_verification");
    assert_eq!(map_record_type("owner"), "owner");
    assert_eq!(map_record_type("dependency_relation"), "claim");
}

#[test]
fn context_types_follow_hints() {
    assert_eq!(infer_context_type("orders"), "technical_boundary");
    assert_eq!(infer_context_type("billing"), "technical_boundary");
    assert_eq!(infer_context_type("testing"), "review_scope");
}

#[test]
fn title_case_capitalizes_each_word() {
    assert_eq!(title_case("higher-graphen"), "Higher Graphen");
    assert_eq!(title_case("billing_db--owner"), "Billing Db Owner");
    assert_eq!(title_case("_"), "");
    assert_eq!(title_case("éclair"), "Éclair");
    assert_eq!(title_case("straße"), "Straße");
    assert_eq!(title_case("ßtraße"), "SStraße");
}

#[test]
fn stable_context_ids_prefix_the_hint() {
    assert_eq!(stable_context_id("orders"), "context:orders");
}

#[test]
fn lift_builds_sorted_cells_contexts_and_incidences() {
    let package = InterpretationPackage::load("technical_advisory").unwrap();
    let space = lift_snapshot(&demo_snapshot(), &package);
    assert_eq!(space.space_id, "space:advisory:demo");
    assert_eq!(space.snapshot_id, "snapshot:demo");
    assert_eq!(space.engagement_id, "engagement:demo");
    assert_eq!(space.package_id, "package:technical_advisory_mvp");
    let ids: Vec<&str> = space.cells.iter().map(|c| c.id.as_str()).collect();
    assert_eq!(ids, vec!["cell:billing-db", "cell:evidence-arch", "cell:order-service"]);
    let evidence = &space.cells[1];
    assert_eq!(evidence.cell_type, "evidence");
    assert!(matches!(&evidence.title, Field::Text(t) if t == "Architecture note"));
    assert!(matches!(&evidence.metadata, CellMetadata::Evidence { source_id, classification: Field::Text(c) } if source_id == "source:arch" && c == "public"));
    let service = &space.cells[2];
    assert!(matches!(&service.title, Field::Json(t) if t == "\"Order Service\""));
    assert_eq!(service.context_ids, vec![s("context:orders")]);
    let db = &space.cells[0];
    assert_eq!(db.cell_type, "data_store");
    assert!(matches!(&db.title, Field::Text(t) if t == "Untitled"));
    assert_eq!(db.context_ids, vec![s("context:billing"), s("context:orders")]);

    let contexts: Vec<(&str, &str, &str)> = space
        .contexts
        .iter()
        .map(|c| (c.id.as_str(), c.context_type.as_str(), c.title.as_str()))
        .collect();
    assert_eq!(
        contexts,
        vec![("context:billing", "technical_boundary", "Billing"), ("context:orders", "technical_boundary", "Orders")]
    );

    assert_eq!(space.incidences.len(), 1);
    let inc = &space.incidences[0];
    assert_eq!(inc.id, "incidence:order-reads-billing");
    assert_eq!(inc.relation_type, "reads");
    assert_eq!(inc.from_id, "cell:order-service");
    assert_eq!(inc.to_id, "cell:billing-db");
    assert_eq!(inc.evidence_ids, vec![s("cell:evidence-arch")]);
    assert_eq!(inc.context_ids, vec![s("context:orders")]);

    assert_eq!(space.morphism_id, "morphism:source-to-advisory-space");
    assert_eq!(space.morphism_type, "source_to_advisory_space");
    assert_eq!(space.morphism_from_id, "snapshot:demo");
    assert_eq!(space.morphism_to_id, "space:advisory:demo");
    assert_eq!(space.invariants.len(), 5);
    assert_eq!(space.policies[0].id, "policy:technical-advisory-mvp-defaults");
}

#[test]
fn every_context_a_lifted_cell_names_exists() {
    let package = InterpretationPackage::load("technical_advisory_mvp").unwrap();
    let space = lift_snapshot(&demo_snapshot(), &package);
    for c in &space.cells {
        for x in &c.context_ids {
            assert!(space.contexts.iter().any(|ctx| &ctx.id == x));
        }
    }
}

#[test]
fn relation_without_both_ends_is_dropped() {
    let mut snapshot = demo_snapshot();
    snapshot.records[2].relation = Some(RecordRelation {
        relation_type: None,
        from_record_id: Some(s("record:order-service")),
        to_record_id: None,
    });
    let package = InterpretationPackage::load("technical_advisory_mvp").unwrap();
    let space = lift_snapshot(&snapshot, &package);
    assert!(space.incidences.is_empty());
    assert_eq!(space.cells.len(), 3);
}

#[test]
fn cells_with_equal_ids_keep_record_order() {
    let snapshot = Snapshot {
        snapshot_id: s("snapshot:dup"),
        engagement_id: s("engagement:dup"),
        sources: vec![],
        records: vec![
            record("record:z", "metric", &[], &[]),
            record("record:dup", "component", &[], &[]),
            record("record:dup", "owner", &[], &[]),
            record("record:a", "action", &[], &[]),
        ],
    };
    let package = InterpretationPackage::load("technical_advisory_mvp").unwrap();
    let space = lift_snapshot(&snapshot, &package);
    let cells: Vec<(&str, &str)> = space.cells.iter().map(|c| (c.id.as_str(), c.cell_type.as_str())).collect();
    assert_eq!(
        cells,
        vec![("cell:a", "action"), ("cell:dup", "component"), ("cell:dup", "owner"), ("cell:z", "metric")]
    );
    assert_eq!(space.space_id, "space:advisory:dup");
}
