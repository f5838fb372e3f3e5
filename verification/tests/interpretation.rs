use advisorygraphen::interpretation::{load_ruleset, InterpretationPackage};
use advisorygraphen::model::AdvisoryError;

#[test]
fn package_loads_under_each_of_its_names() {
    for name in ["technical_advisory", "technical_advisory_mvp", "package:technical_advisory_mvp"] {
        let p = InterpretationPackage::load(name).unwrap();
        assert_eq!(p.package_id, "package:technical_advisory_mvp");
        assert_eq!(p.ruleset, "technical_advisory_mvp");
        assert_eq!(p.invariant_ids.len(), 5);
    }
}

#[test]
fn unknown_package_and_ruleset_are_refused() {
    assert_eq!(
        InterpretationPackage::load("finance").err().unwrap(),
        AdvisoryError::UnsupportedPackage("finance".to_string())
    );
    assert_eq!(
        load_ruleset("finance").err().unwrap(),
        AdvisoryError::UnsupportedRuleset("finance".to_string())
    );
}

#[test]
fn records_carry_ruleset_and_policy_defaults() {
    let p = load_ruleset("technical_advisory_mvp").unwrap();
    let invariants = p.invariant_records();
    assert_eq!(invariants[0].id, "invariant:architecture_no_cross_context_direct_database_access");
    assert!(invariants.iter().all(|r| r.ruleset == "technical_advisory_mvp"));
    let policies = p.policy_records();
    assert_eq!(policies.len(), 1);
    assert_eq!(policies[0].package_id, "package:technical_advisory_mvp");
    assert!(policies[0].projection_loss_required);
}
