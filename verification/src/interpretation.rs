//! Interpretation packages: the vocabulary, invariants and policy defaults that a
//! ruleset evaluates an advisory space with.
use vstd::prelude::*;
use crate::model::{text, AdvisoryError};
use crate::text::str_eq;

verus! {

/// The ruleset of the technical advisory package.
pub const TECHNICAL_ADVISORY_RULESET: &'static str = "technical_advisory_mvp";

/// The canonical id of the technical advisory package.
pub const PACKAGE_TECHNICAL_ADVISORY_MVP: &'static str = "package:technical_advisory_mvp";

pub open spec fn invariant_ids_spec() -> Seq<Seq<char>> {
    seq![
        "invariant:architecture_no_cross_context_direct_database_access"@,
        "invariant:recommendation_requires_evidence"@,
        "invariant:action_requires_owner"@,
        "invariant:requirement_requires_verification"@,
        "invariant:projection_loss_declared"@,
    ]
}

/// The names under which the technical advisory package can be asked for.
pub open spec fn names_technical_advisory(package: Seq<char>) -> bool {
    package == "technical_advisory"@ || package == "technical_advisory_mvp"@ || package
        == "package:technical_advisory_mvp"@
}

/// The canonical package id for a package name, if the package is known.
pub fn canonical_package_id(package: &str) -> (r: Result<String, AdvisoryError>)
    ensures
        match r {
            Ok(id) => names_technical_advisory(package@) && id@ == PACKAGE_TECHNICAL_ADVISORY_MVP@,
            Err(e) => !names_technical_advisory(package@) && e == AdvisoryError::UnsupportedPackage(
                e->UnsupportedPackage_0,
            ) && e->UnsupportedPackage_0@ == package@,
        },
{
    if str_eq(package, "technical_advisory") || str_eq(package, "technical_advisory_mvp") || str_eq(
        package,
        "package:technical_advisory_mvp",
    ) {
        Ok(text(PACKAGE_TECHNICAL_ADVISORY_MVP))
    } else {
        Err(AdvisoryError::UnsupportedPackage(text(package)))
    }
}

/// A loaded interpretation package.
#[derive(Debug, Clone)]
pub struct InterpretationPackage {
    pub package_id: String,
    pub ruleset: &'static str,
    pub invariant_ids: Vec<&'static str>,
}

/// An invariant the package evaluates.
pub struct InvariantRecord {
    pub id: String,
    pub ruleset: String,
}

/// The package's policy defaults.
pub struct PolicyRecord {
    pub id: String,
    pub package_id: String,
    pub projection_loss_required: bool,
}

impl InterpretationPackage {
    pub open spec fn invariant_views(self) -> Seq<Seq<char>> {
        self.invariant_ids@.map_values(|s: &'static str| s@)
    }

    /// Loads the package named `package`.
    pub fn load(package: &str) -> (r: Result<InterpretationPackage, AdvisoryError>)
        ensures
            match r {
                Ok(p) => names_technical_advisory(package@) && p.package_id@
                    == PACKAGE_TECHNICAL_ADVISORY_MVP@ && p.ruleset@ == TECHNICAL_ADVISORY_RULESET@
                    && p.invariant_views() == invariant_ids_spec(),
                Err(e) => !names_technical_advisory(package@) && e == AdvisoryError::UnsupportedPackage(
                    e->UnsupportedPackage_0,
                ) && e->UnsupportedPackage_0@ == package@,
            },
    {
        let package_id = match canonical_package_id(package) {
            Ok(id) => id,
            Err(e) => return Err(e),
        };
        let invariant_ids = vec![
            "invariant:architecture_no_cross_context_direct_database_access",
            "invariant:recommendation_requires_evidence",
            "invariant:action_requires_owner",
            "invariant:requirement_requires_verification",
            "invariant:projection_loss_declared",
        ];
        let p = InterpretationPackage { package_id, ruleset: TECHNICAL_ADVISORY_RULESET, invariant_ids };
        assert(p.invariant_views() =~= invariant_ids_spec());
        Ok(p)
    }

    /// One record per invariant, each tagged with the package's ruleset.
    pub fn invariant_records(&self) -> (r: Vec<InvariantRecord>)
        ensures
            r@.len() == self.invariant_ids@.len(),
            forall|i: int|
                0 <= i < r@.len() ==> #[trigger] r@[i].id@ == self.invariant_ids@[i]@ && r@[i].ruleset@
                    == self.ruleset@,
    {
        let mut out: Vec<InvariantRecord> = Vec::new();
        let mut i: usize = 0;
        while i < self.invariant_ids.len()
            invariant
                i <= self.invariant_ids.len(),
                out@.len() == i,
                forall|k: int|
                    0 <= k < i ==> #[trigger] out@[k].id@ == self.invariant_ids@[k]@ && out@[k].ruleset@
                        == self.ruleset@,
            decreases self.invariant_ids.len() - i,
        {
            let ghost old = out@;
            let rec = InvariantRecord { id: text(self.invariant_ids[i]), ruleset: text(self.ruleset) };
            out.push(rec);
            assert forall|k: int| 0 <= k < i + 1 implies #[trigger] out@[k].id@ == self.invariant_ids@[k]@
                && out@[k].ruleset@ == self.ruleset@ by {
                if k < i {
                    assert(out@[k] == old[k]);
                }
            }
            i = i + 1;
        }
        out
    }

    /// The package's single policy record: projection loss must be declared.
    pub fn policy_records(&self) -> (r: Vec<PolicyRecord>)
        ensures
            r@.len() == 1,
            r@[0].id@ == "policy:technical-advisory-mvp-defaults"@,
            r@[0].package_id@ == self.package_id@,
            r@[0].projection_loss_required,
    {
        vec![
            PolicyRecord {
                id: text("policy:technical-advisory-mvp-defaults"),
                package_id: self.package_id.clone(),
                projection_loss_required: true,
            },
        ]
    }
}

/// Loads the package behind a ruleset name; only the technical advisory ruleset exists.
pub fn load_ruleset(ruleset: &str) -> (r: Result<InterpretationPackage, AdvisoryError>)
    ensures
        match r {
            Ok(p) => ruleset@ == TECHNICAL_ADVISORY_RULESET@ && p.package_id@ == PACKAGE_TECHNICAL_ADVISORY_MVP@
                && p.ruleset@ == TECHNICAL_ADVISORY_RULESET@ && p.invariant_views() == invariant_ids_spec(),
            Err(e) => ruleset@ != TECHNICAL_ADVISORY_RULESET@ && e == AdvisoryError::UnsupportedRuleset(
                e->UnsupportedRuleset_0,
            ) && e->UnsupportedRuleset_0@ == ruleset@,
        },
{
    if str_eq(ruleset, TECHNICAL_ADVISORY_RULESET) {
        let r = InterpretationPackage::load(PACKAGE_TECHNICAL_ADVISORY_MVP);
        proof {
            reveal_strlit("package:technical_advisory_mvp");
        }
        match r {
            Ok(p) => Ok(p),
            Err(_) => {
                assert(false);
                Err(AdvisoryError::UnsupportedRuleset(text(ruleset)))
            },
        }
    } else {
        Err(AdvisoryError::UnsupportedRuleset(text(ruleset)))
    }
}

} // verus!
