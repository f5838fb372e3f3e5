//! Invariant checks over an advisory space, and the close status they imply.
use vstd::prelude::*;
use crate::interpretation::{load_ruleset, TECHNICAL_ADVISORY_RULESET};
use crate::model::{
    cat, clone_strings, opt_is, opt_view, text, view_or, views, AdvisoryError, Cell, Incidence,
    Obstruction, ObstructionView, Severity, Space, obstruction_views,
};
use crate::sorting::{key_views, sort_by_key, sorted_by_key, stable_sort_by_key, Keyed};
use crate::text::{has_view, contains_str, str_eq, trim_start_all, trim_start_matches};

pub mod resolution;
pub mod completions;


verus! {

pub const BOUNDARY_INVARIANT: &'static str = "invariant:architecture_no_cross_context_direct_database_access";

pub const EVIDENCE_INVARIANT: &'static str = "invariant:recommendation_requires_evidence";

pub const OWNER_INVARIANT: &'static str = "invariant:action_requires_owner";

pub const REQUIREMENT_VERIFICATION_INVARIANT: &'static str = "invariant:requirement_requires_verification";

/// The violated-invariant record that accompanies an obstruction.
pub struct InvariantResult {
    pub invariant_id: String,
    pub severity: String,
    pub witness_ids: Vec<String>,
    /// The obstruction the violation emitted.
    pub obstruction_id: String,
    pub message: String,
}

pub struct InvariantResultView {
    pub invariant_id: Seq<char>,
    pub severity: Seq<char>,
    pub witness_ids: Seq<Seq<char>>,
    pub obstruction_id: Seq<char>,
    pub message: Seq<char>,
}

impl View for InvariantResult {
    type V = InvariantResultView;

    open spec fn view(&self) -> InvariantResultView {
        InvariantResultView {
            invariant_id: self.invariant_id@,
            severity: self.severity@,
            witness_ids: views(self.witness_ids@),
            obstruction_id: self.obstruction_id@,
            message: self.message@,
        }
    }
}

/// One invariant violation: the result record and the obstruction it emits.
pub struct Finding {
    pub result: InvariantResult,
    pub obstruction: Obstruction,
}

pub struct FindingView {
    pub result: InvariantResultView,
    pub obstruction: ObstructionView,
}

impl View for Finding {
    type V = FindingView;

    open spec fn view(&self) -> FindingView {
        FindingView { result: self.result@, obstruction: self.obstruction@ }
    }
}

impl Keyed for Finding {
    open spec fn key_of(v: FindingView) -> Seq<char> {
        match v.obstruction.id {
            Some(id) => id,
            None => Seq::empty(),
        }
    }

    fn key(&self) -> (r: &str) {
        match &self.obstruction.id {
            Some(id) => id.as_str(),
            None => {
                proof {
                    reveal_strlit("");
                }
                ""
            },
        }
    }
}

/// The outcome of a check: every violation, ordered by obstruction id.
pub struct CheckReport {
    pub space_id: String,
    pub ruleset: String,
    pub findings: Vec<Finding>,
}

/// The title of a cell, or its id when it has none.
pub open spec fn cell_title(c: Cell) -> Seq<char> {
    view_or(c.title, c.id@)
}

/// The id without its `cell:` prefixes.
pub open spec fn cell_stem(id: Seq<char>) -> Seq<char> {
    trim_start_all(id, "cell:"@)
}

/// The first cell with id `id`.
pub open spec fn first_cell(cells: Seq<Cell>, id: Seq<char>) -> Option<Cell>
    decreases cells.len(),
{
    if cells.len() == 0 {
        None
    } else if cells[0].id@ == id {
        Some(cells[0])
    } else {
        first_cell(cells.drop_first(), id)
    }
}

/// Both sides name contexts and share none of them.
pub open spec fn cross_context(left: Seq<Seq<char>>, right: Seq<Seq<char>>) -> bool {
    left.len() > 0 && right.len() > 0 && forall|i: int| 0 <= i < left.len() ==> !right.contains(#[trigger] left[i])
}

pub open spec fn opt_true(b: Option<bool>) -> bool {
    b == Some(true)
}

/// Accepted support: the provenance is source-backed or review-promoted.
pub open spec fn has_accepted_support(c: Cell) -> bool {
    opt_is(c.origin, "source_backed"@) || opt_is(c.origin, "review_promoted"@)
}

pub open spec fn requires_verification_spec(c: Cell) -> bool {
    opt_true(c.require_verification) || opt_true(c.verification_required)
}

pub open spec fn has_incoming_owner_spec(incs: Seq<Incidence>, id: Seq<char>) -> bool {
    exists|i: int| 0 <= i < incs.len() && (#[trigger] incs[i]).relation_type@ == "owns"@ && incs[i].to_id@ == id
}

pub open spec fn has_verification_spec(incs: Seq<Incidence>, id: Seq<char>) -> bool {
    exists|i: int|
        0 <= i < incs.len() && ((#[trigger] incs[i]).relation_type@ == "verifies"@ || incs[i].relation_type@
            == "implements"@) && (incs[i].from_id@ == id || incs[i].to_id@ == id)
}

pub open spec fn finding_view(
    invariant_id: Seq<char>,
    obstruction_id: Seq<char>,
    obstruction_type: Seq<char>,
    severity: Seq<char>,
    message: Seq<char>,
    witness_ids: Seq<Seq<char>>,
    blocked_ids: Seq<Seq<char>>,
    evidence_ids: Seq<Seq<char>>,
    recommended: Seq<Seq<char>>,
    resolution: Seq<char>,
    from_cell_id: Option<Seq<char>>,
    to_cell_id: Option<Seq<char>>,
    specificity: Option<Seq<char>>,
    rule_precision: Option<Seq<char>>,
) -> FindingView {
    FindingView {
        result: InvariantResultView { invariant_id, severity, witness_ids, obstruction_id, message },
        obstruction: ObstructionView {
            id: Some(obstruction_id),
            obstruction_type: Some(obstruction_type),
            severity: Some(severity),
            review_status: Some("unreviewed"@),
            message: Some(message),
            blocked_ids,
            witness_ids,
            evidence_ids,
            recommended_completion_types: recommended,
            from_cell_id,
            to_cell_id,
            route_path: None,
            http_methods: Seq::empty(),
            specificity,
            rule_precision,
            resolution: Some(resolution),
        },
    }
}

pub open spec fn boundary_obstruction_id(from: Cell, to: Cell) -> Seq<char> {
    "obstruction:"@ + cell_stem(from.id@) + "-direct-"@ + cell_stem(to.id@) + "-access"@
}

pub open spec fn boundary_blocked_ids(inc: Incidence) -> Seq<Seq<char>> {
    match inc.blocked_ids {
        Some(ids) => views(ids@),
        None => seq!["decision:approve-current-architecture"@],
    }
}

/// A component reading, directly, a data store of another context.
pub open spec fn boundary_finding(cells: Seq<Cell>, inc: Incidence) -> Option<FindingView> {
    if inc.relation_type@ == "accesses"@ && opt_is(inc.access_type, "direct_database_read"@) {
        match (first_cell(cells, inc.from_id@), first_cell(cells, inc.to_id@)) {
            (Some(from), Some(to)) => if opt_is(to.cell_type, "data_store"@) && cross_context(
                views(from.context_ids@),
                views(to.context_ids@),
            ) {
                Some(
                    finding_view(
                        BOUNDARY_INVARIANT@,
                        boundary_obstruction_id(from, to),
                        "boundary_violation"@,
                        "high"@,
                        cell_title(from) + " directly reads "@ + cell_title(to)
                            + " across ownership boundary."@,
                        seq![from.id@, to.id@, inc.id@],
                        boundary_blocked_ids(inc),
                        views(inc.evidence_ids@),
                        seq!["proposed_interface"@, "proposed_refactor_action"@],
                        "replace cross-context direct database access with an explicit interface"@,
                        Some(from.id@),
                        Some(to.id@),
                        Some("source_derived"@),
                        Some("cross_context_accesses_data_store_with_direct_database_read"@),
                    ),
                )
            } else {
                None
            },
            _ => None,
        }
    } else {
        None
    }
}

/// An accepted action or decision without accepted supporting evidence.
pub open spec fn evidence_finding(c: Cell) -> Option<FindingView> {
    if (opt_is(c.cell_type, "action"@) || opt_is(c.cell_type, "decision"@)) && opt_is(
        c.review_status,
        "accepted"@,
    ) && !has_accepted_support(c) {
        Some(
            finding_view(
                EVIDENCE_INVARIANT@,
                "obstruction:"@ + cell_stem(c.id@) + "-insufficient-evidence"@,
                "insufficient_evidence"@,
                "high"@,
                cell_title(c) + " is accepted without source-backed or review-promoted evidence."@,
                seq![c.id@],
                seq![c.id@],
                views(c.source_ids@),
                seq!["review_promote_evidence"@, "source_backed_evidence"@],
                "attach source-backed or review-promoted evidence"@,
                None,
                None,
                None,
                None,
            ),
        )
    } else {
        None
    }
}

/// An action that no `owns` incidence points to.
pub open spec fn owner_finding(incs: Seq<Incidence>, c: Cell) -> Option<FindingView> {
    if opt_is(c.cell_type, "action"@) && !has_incoming_owner_spec(incs, c.id@) {
        Some(
            finding_view(
                OWNER_INVARIANT@,
                "obstruction:"@ + cell_stem(c.id@) + "-missing-owner"@,
                "missing_owner"@,
                "medium"@,
                cell_title(c) + " has no owner."@,
                seq![c.id@],
                seq![c.id@],
                views(c.source_ids@),
                seq!["ownership_clarification"@],
                "clarify the action owner"@,
                None,
                None,
                None,
                None,
            ),
        )
    } else {
        None
    }
}

/// A requirement marked for verification that no `verifies` or `implements`
/// incidence touches.
pub open spec fn verification_finding(incs: Seq<Incidence>, c: Cell) -> Option<FindingView> {
    if opt_is(c.cell_type, "requirement"@) && requires_verification_spec(c) && !has_verification_spec(
        incs,
        c.id@,
    ) {
        Some(
            finding_view(
                REQUIREMENT_VERIFICATION_INVARIANT@,
                "obstruction:"@ + cell_stem(c.id@) + "-missing-verification"@,
                "requirement_unverified"@,
                "medium"@,
                cell_title(c) + " has no verification method."@,
                seq![c.id@],
                seq![c.id@],
                views(c.source_ids@),
                seq!["proposed_test"@, "proposed_metric"@, "requirement_review"@],
                "define a test, metric, or review path for the requirement"@,
                None,
                None,
                None,
                None,
            ),
        )
    } else {
        None
    }
}

pub open spec fn boundary_of(cells: Seq<Cell>) -> spec_fn(Incidence) -> Option<FindingView> {
    |inc: Incidence| boundary_finding(cells, inc)
}

pub open spec fn evidence_of() -> spec_fn(Cell) -> Option<FindingView> {
    |c: Cell| evidence_finding(c)
}

pub open spec fn owner_of(incs: Seq<Incidence>) -> spec_fn(Cell) -> Option<FindingView> {
    |c: Cell| owner_finding(incs, c)
}

pub open spec fn verification_of(incs: Seq<Incidence>) -> spec_fn(Cell) -> Option<FindingView> {
    |c: Cell| verification_finding(incs, c)
}

/// Every violation in evaluation order: boundary, evidence, owners, verification.
pub open spec fn findings_spec(space: Space) -> Seq<FindingView> {
    space.incidences@.filter_map(boundary_of(space.cells@)) + space.cells@.filter_map(evidence_of())
        + space.cells@.filter_map(owner_of(space.incidences@)) + space.cells@.filter_map(
        verification_of(space.incidences@),
    )
}

/// Some obstruction's severity is at least `threshold`.
pub open spec fn threshold_reached(obstructions: Seq<ObstructionView>, threshold: Severity) -> bool {
    exists|i: int|
        0 <= i < obstructions.len() && match (#[trigger] obstructions[i]).severity {
            Some(s) => match Severity::parse_spec(s) {
                Some(v) => v.rank() >= threshold.rank(),
                None => false,
            },
            None => false,
        }
}

pub open spec fn obstruction_views_of(f: Seq<FindingView>) -> Seq<ObstructionView> {
    f.map_values(|x: FindingView| x.obstruction)
}

/// Both sides name contexts and none of the left ones occurs on the right.
pub fn is_cross_context(left: &Vec<String>, right: &Vec<String>) -> (r: bool)
    ensures
        r == cross_context(views(left@), views(right@)),
{
    if left.len() == 0 || right.len() == 0 {
        return false;
    }
    let mut i: usize = 0;
    while i < left.len()
        invariant
            i <= left.len(),
            forall|k: int| 0 <= k < i ==> !views(right@).contains(#[trigger] views(left@)[k]),
        decreases left.len() - i,
    {
        let shared = contains_str(right, left[i].as_str());
        proof {
            if views(right@).contains(views(left@)[i as int]) {
                let m = choose|m: int| 0 <= m < views(right@).len() && views(right@)[m] == views(left@)[i as int];
                assert(right@[m]@ == left@[i as int]@);
            }
            if shared {
                let m = choose|m: int| 0 <= m < right@.len() && #[trigger] right@[m]@ == left@[i as int]@;
                assert(views(right@)[m] == views(left@)[i as int]);
            }
        }
        if shared {
            return false;
        }
        i = i + 1;
    }
    true
}

/// The first cell with id `id`.
pub fn find_cell<'a>(cells: &'a Vec<Cell>, id: &str) -> (r: Option<&'a Cell>)
    ensures
        match r {
            Some(c) => first_cell(cells@, id@) == Some(*c),
            None => first_cell(cells@, id@) is None,
        },
{
    let mut i: usize = 0;
    assert(cells@.skip(0) =~= cells@);
    while i < cells.len()
        invariant
            i <= cells.len(),
            first_cell(cells@, id@) == first_cell(cells@.skip(i as int), id@),
        decreases cells.len() - i,
    {
        assert(cells@.skip(i as int).drop_first() =~= cells@.skip(i + 1));
        if str_eq(cells[i].id.as_str(), id) {
            return Some(&cells[i]);
        }
        i = i + 1;
    }
    None
}

fn has_incoming_owner(incs: &Vec<Incidence>, id: &str) -> (r: bool)
    ensures
        r == has_incoming_owner_spec(incs@, id@),
{
    let mut i: usize = 0;
    while i < incs.len()
        invariant
            i <= incs.len(),
            forall|k: int|
                0 <= k < i ==> !((#[trigger] incs@[k]).relation_type@ == "owns"@ && incs@[k].to_id@ == id@),
        decreases incs.len() - i,
    {
        if str_eq(incs[i].relation_type.as_str(), "owns") && str_eq(incs[i].to_id.as_str(), id) {
            return true;
        }
        i = i + 1;
    }
    false
}

fn has_verification(incs: &Vec<Incidence>, id: &str) -> (r: bool)
    ensures
        r == has_verification_spec(incs@, id@),
{
    let mut i: usize = 0;
    while i < incs.len()
        invariant
            i <= incs.len(),
            forall|k: int|
                0 <= k < i ==> !(((#[trigger] incs@[k]).relation_type@ == "verifies"@
                    || incs@[k].relation_type@ == "implements"@) && (incs@[k].from_id@ == id@
                    || incs@[k].to_id@ == id@)),
        decreases incs.len() - i,
    {
        let inc = &incs[i];
        if (str_eq(inc.relation_type.as_str(), "verifies") || str_eq(inc.relation_type.as_str(), "implements"))
            && (str_eq(inc.from_id.as_str(), id) || str_eq(inc.to_id.as_str(), id)) {
            return true;
        }
        i = i + 1;
    }
    false
}

fn requires_verification(c: &Cell) -> (r: bool)
    ensures
        r == requires_verification_spec(*c),
{
    c.require_verification == Some(true) || c.verification_required == Some(true)
}

fn has_accepted_supporting_evidence(c: &Cell) -> (r: bool)
    ensures
        r == has_accepted_support(*c),
{
    crate::model::opt_str_is(&c.origin, "source_backed") || crate::model::opt_str_is(&c.origin, "review_promoted")
}

fn title(c: &Cell) -> (r: String)
    ensures
        r@ == cell_title(*c),
{
    match &c.title {
        Some(t) => t.clone(),
        None => c.id.clone(),
    }
}

fn stem(id: &str) -> (r: String)
    ensures
        r@ == cell_stem(id@),
{
    trim_start_matches(id, "cell:")
}

fn make_finding(
    invariant_id: &str,
    obstruction_id: String,
    obstruction_type: &str,
    severity: &str,
    message: String,
    witness_ids: Vec<String>,
    blocked_ids: Vec<String>,
    evidence_ids: Vec<String>,
    recommended: Vec<String>,
    resolution: &str,
    from_cell_id: Option<String>,
    to_cell_id: Option<String>,
    specificity: Option<&str>,
    rule_precision: Option<&str>,
) -> (r: Finding)
    ensures
        r@ == finding_view(
            invariant_id@,
            obstruction_id@,
            obstruction_type@,
            severity@,
            message@,
            views(witness_ids@),
            views(blocked_ids@),
            views(evidence_ids@),
            views(recommended@),
            resolution@,
            opt_view(from_cell_id),
            opt_view(to_cell_id),
            match specificity {
                Some(s) => Some(s@),
                None => None,
            },
            match rule_precision {
                Some(s) => Some(s@),
                None => None,
            },
        ),
{
    let result = InvariantResult {
        invariant_id: text(invariant_id),
        severity: text(severity),
        witness_ids: clone_strings(&witness_ids),
        obstruction_id: obstruction_id.clone(),
        message: message.clone(),
    };
    let obstruction = Obstruction {
        id: Some(obstruction_id),
        obstruction_type: Some(text(obstruction_type)),
        severity: Some(text(severity)),
        review_status: Some(text("unreviewed")),
        message: Some(message),
        blocked_ids,
        witness_ids,
        evidence_ids,
        recommended_completion_types: recommended,
        from_cell_id,
        to_cell_id,
        route_path: None,
        http_methods: Vec::new(),
        specificity: match specificity {
            Some(s) => Some(text(s)),
            None => None,
        },
        rule_precision: match rule_precision {
            Some(s) => Some(text(s)),
            None => None,
        },
        resolution: Some(text(resolution)),
    };
    let f = Finding { result, obstruction };
    assert(f@.obstruction.http_methods =~= Seq::<Seq<char>>::empty());
    f
}


fn boundary_check(cells: &Vec<Cell>, inc: &Incidence) -> (r: Option<Finding>)
    ensures
        match r {
            Some(f) => boundary_finding(cells@, *inc) == Some(f@),
            None => boundary_finding(cells@, *inc) is None,
        },
{
    if !str_eq(inc.relation_type.as_str(), "accesses") {
        return None;
    }
    if !crate::model::opt_str_is(&inc.access_type, "direct_database_read") {
        return None;
    }
    let from = match find_cell(cells, inc.from_id.as_str()) {
        Some(c) => c,
        None => return None,
    };
    let to = match find_cell(cells, inc.to_id.as_str()) {
        Some(c) => c,
        None => return None,
    };
    if !crate::model::opt_str_is(&to.cell_type, "data_store") {
        return None;
    }
    if !is_cross_context(&from.context_ids, &to.context_ids) {
        return None;
    }
    let id = cat(
        cat(cat(cat("obstruction:", stem(from.id.as_str()).as_str()).as_str(), "-direct-").as_str(), stem(to.id.as_str()).as_str()).as_str(),
        "-access",
    );
    let message = cat(
        cat(cat(title(from).as_str(), " directly reads ").as_str(), title(to).as_str()).as_str(),
        " across ownership boundary.",
    );
    let witness = vec![from.id.clone(), to.id.clone(), inc.id.clone()];
    let blocked = match &inc.blocked_ids {
        Some(ids) => clone_strings(ids),
        None => vec![text("decision:approve-current-architecture")],
    };
    let recommended = vec![text("proposed_interface"), text("proposed_refactor_action")];
    assert(views(witness@) =~= seq![from.id@, to.id@, inc.id@]);
    assert(views(blocked@) =~= boundary_blocked_ids(*inc));
    assert(views(recommended@) =~= seq!["proposed_interface"@, "proposed_refactor_action"@]);
    Some(
        make_finding(
            BOUNDARY_INVARIANT,
            id,
            "boundary_violation",
            "high",
            message,
            witness,
            blocked,
            clone_strings(&inc.evidence_ids),
            recommended,
            "replace cross-context direct database access with an explicit interface",
            Some(from.id.clone()),
            Some(to.id.clone()),
            Some("source_derived"),
            Some("cross_context_accesses_data_store_with_direct_database_read"),
        ),
    )
}

fn evidence_check(c: &Cell) -> (r: Option<Finding>)
    ensures
        match r {
            Some(f) => evidence_finding(*c) == Some(f@),
            None => evidence_finding(*c) is None,
        },
{
    let kind = crate::model::opt_str_is(&c.cell_type, "action") || crate::model::opt_str_is(&c.cell_type, "decision");
    if !kind || !crate::model::opt_str_is(&c.review_status, "accepted") || has_accepted_supporting_evidence(c) {
        return None;
    }
    let id = cat(cat("obstruction:", stem(c.id.as_str()).as_str()).as_str(), "-insufficient-evidence");
    let message = cat(title(c).as_str(), " is accepted without source-backed or review-promoted evidence.");
    let witness = vec![c.id.clone()];
    let blocked = vec![c.id.clone()];
    let recommended = vec![text("review_promote_evidence"), text("source_backed_evidence")];
    assert(views(witness@) =~= seq![c.id@]);
    assert(views(blocked@) =~= seq![c.id@]);
    assert(views(recommended@) =~= seq!["review_promote_evidence"@, "source_backed_evidence"@]);
    Some(
        make_finding(
            EVIDENCE_INVARIANT,
            id,
            "insufficient_evidence",
            "high",
            message,
            witness,
            blocked,
            clone_strings(&c.source_ids),
            recommended,
            "attach source-backed or review-promoted evidence",
            None,
            None,
            None,
            None,
        ),
    )
}

fn owner_check(incs: &Vec<Incidence>, c: &Cell) -> (r: Option<Finding>)
    ensures
        match r {
            Some(f) => owner_finding(incs@, *c) == Some(f@),
            None => owner_finding(incs@, *c) is None,
        },
{
    if !crate::model::opt_str_is(&c.cell_type, "action") || has_incoming_owner(incs, c.id.as_str()) {
        return None;
    }
    let id = cat(cat("obstruction:", stem(c.id.as_str()).as_str()).as_str(), "-missing-owner");
    let message = cat(title(c).as_str(), " has no owner.");
    let witness = vec![c.id.clone()];
    let blocked = vec![c.id.clone()];
    let recommended = vec![text("ownership_clarification")];
    assert(views(witness@) =~= seq![c.id@]);
    assert(views(blocked@) =~= seq![c.id@]);
    assert(views(recommended@) =~= seq!["ownership_clarification"@]);
    Some(
        make_finding(
            OWNER_INVARIANT,
            id,
            "missing_owner",
            "medium",
            message,
            witness,
            blocked,
            clone_strings(&c.source_ids),
            recommended,
            "clarify the action owner",
            None,
            None,
            None,
            None,
        ),
    )
}

fn verification_check(incs: &Vec<Incidence>, c: &Cell) -> (r: Option<Finding>)
    ensures
        match r {
            Some(f) => verification_finding(incs@, *c) == Some(f@),
            None => verification_finding(incs@, *c) is None,
        },
{
    if !crate::model::opt_str_is(&c.cell_type, "requirement") || !requires_verification(c) || has_verification(
        incs,
        c.id.as_str(),
    ) {
        return None;
    }
    let id = cat(cat("obstruction:", stem(c.id.as_str()).as_str()).as_str(), "-missing-verification");
    let message = cat(title(c).as_str(), " has no verification method.");
    let witness = vec![c.id.clone()];
    let blocked = vec![c.id.clone()];
    let recommended = vec![text("proposed_test"), text("proposed_metric"), text("requirement_review")];
    assert(views(witness@) =~= seq![c.id@]);
    assert(views(blocked@) =~= seq![c.id@]);
    assert(views(recommended@) =~= seq!["proposed_test"@, "proposed_metric"@, "requirement_review"@]);
    Some(
        make_finding(
            REQUIREMENT_VERIFICATION_INVARIANT,
            id,
            "requirement_unverified",
            "medium",
            message,
            witness,
            blocked,
            clone_strings(&c.source_ids),
            recommended,
            "define a test, metric, or review path for the requirement",
            None,
            None,
            None,
            None,
        ),
    )
}


/// The three checks that inspect cells one at a time.
#[derive(Clone, Copy, PartialEq, Eq, Structural)]
pub enum CellRule {
    Evidence,
    Owner,
    Verification,
}

pub open spec fn cell_rule_of(rule: CellRule, incs: Seq<Incidence>) -> spec_fn(Cell) -> Option<FindingView> {
    match rule {
        CellRule::Evidence => evidence_of(),
        CellRule::Owner => owner_of(incs),
        CellRule::Verification => verification_of(incs),
    }
}

fn evaluate_boundary(space: &Space) -> (r: Vec<Finding>)
    ensures
        key_views(r@) == space.incidences@.filter_map(boundary_of(space.cells@)),
{
    let ghost f = boundary_of(space.cells@);
    let mut out: Vec<Finding> = Vec::new();
    let mut i: usize = 0;
    while i < space.incidences.len()
        invariant
            i <= space.incidences.len(),
            f == boundary_of(space.cells@),
            key_views(out@) == space.incidences@.take(i as int).filter_map(f),
        decreases space.incidences.len() - i,
    {
        proof {
            space.incidences@.lemma_filter_map_take_succ(f, i as int);
        }
        let ghost old_out = out@;
        match boundary_check(&space.cells, &space.incidences[i]) {
            Some(x) => {
                let ghost xv = x@;
                out.push(x);
                assert(key_views(out@) =~= key_views(old_out).push(xv));
            },
            None => {},
        }
        i = i + 1;
    }
    assert(space.incidences@.take(space.incidences@.len() as int) =~= space.incidences@);
    out
}

fn evaluate_cells(space: &Space, rule: CellRule) -> (r: Vec<Finding>)
    ensures
        key_views(r@) == space.cells@.filter_map(cell_rule_of(rule, space.incidences@)),
{
    let ghost f = cell_rule_of(rule, space.incidences@);
    let mut out: Vec<Finding> = Vec::new();
    let mut i: usize = 0;
    while i < space.cells.len()
        invariant
            i <= space.cells.len(),
            f == cell_rule_of(rule, space.incidences@),
            key_views(out@) == space.cells@.take(i as int).filter_map(f),
        decreases space.cells.len() - i,
    {
        proof {
            space.cells@.lemma_filter_map_take_succ(f, i as int);
        }
        let c = &space.cells[i];
        let found = match rule {
            CellRule::Evidence => evidence_check(c),
            CellRule::Owner => owner_check(&space.incidences, c),
            CellRule::Verification => verification_check(&space.incidences, c),
        };
        let ghost old_out = out@;
        match found {
            Some(x) => {
                let ghost xv = x@;
                out.push(x);
                assert(key_views(out@) =~= key_views(old_out).push(xv));
            },
            None => {},
        }
        i = i + 1;
    }
    assert(space.cells@.take(space.cells@.len() as int) =~= space.cells@);
    out
}

fn threshold_reached_in(findings: &Vec<Finding>, threshold: Severity) -> (r: bool)
    ensures
        r == threshold_reached(obstruction_views_of(key_views(findings@)), threshold),
{
    let ghost obs = obstruction_views_of(key_views(findings@));
    let mut i: usize = 0;
    while i < findings.len()
        invariant
            i <= findings.len(),
            obs == obstruction_views_of(key_views(findings@)),
            forall|k: int|
                0 <= k < i ==> !match (#[trigger] obs[k]).severity {
                    Some(s) => match Severity::parse_spec(s) {
                        Some(v) => v.rank() >= threshold.rank(),
                        None => false,
                    },
                    None => false,
                },
        decreases findings.len() - i,
    {
        assert(obs[i as int] == findings@[i as int].obstruction@);
        match &findings[i].obstruction.severity {
            Some(s) => match Severity::parse(s.as_str()) {
                Some(v) => {
                    if v.at_least(&threshold) {
                        return true;
                    }
                },
                None => {},
            },
            None => {},
        }
        i = i + 1;
    }
    false
}

/// What a check of `space` under `ruleset` with failure threshold `fail_on` returns:
/// only the technical advisory ruleset is known; every violation becomes a finding,
/// ordered by obstruction id and, for the same id, in rule order; reaching the threshold
/// fails the check.
pub open spec fn check_outcome(space: Space, ruleset: Seq<char>, fail_on: Option<Severity>, r: Result<CheckReport, AdvisoryError>) -> bool {
    match r {
        Ok(report) => {
            &&& ruleset == TECHNICAL_ADVISORY_RULESET@
            &&& report.space_id@ == space.space_id@
            &&& report.ruleset@ == ruleset
            &&& sorted_by_key::<Finding>(key_views(report.findings@))
            &&& key_views(report.findings@).to_multiset() == findings_spec(space).to_multiset()
            &&& key_views(report.findings@) == stable_sort_by_key::<Finding>(findings_spec(space))
            &&& match fail_on {
                Some(t) => !threshold_reached(obstruction_views_of(findings_spec(space)), t),
                None => true,
            }
        },
        Err(e) => if ruleset != TECHNICAL_ADVISORY_RULESET@ {
            e == AdvisoryError::UnsupportedRuleset(e->UnsupportedRuleset_0) && e->UnsupportedRuleset_0@ == ruleset
        } else {
            &&& fail_on is Some
            &&& threshold_reached(obstruction_views_of(findings_spec(space)), fail_on.unwrap())
            &&& e == AdvisoryError::FailOnThreshold(fail_on.unwrap())
        },
    }
}

/// Evaluates the ruleset's invariants over `space`. Every violation becomes a finding;
/// the report lists them ordered by obstruction id, and findings with the same id in
/// rule order. With a failure threshold, reaching
/// it fails the check instead.
pub fn check_space(space: &Space, ruleset: &str, fail_on: Option<Severity>) -> (r: Result<CheckReport, AdvisoryError>)
    ensures
        check_outcome(*space, ruleset@, fail_on, r),
{
    match load_ruleset(ruleset) {
        Ok(_) => {},
        Err(e) => return Err(e),
    }
    let mut all = evaluate_boundary(space);
    let mut evidence = evaluate_cells(space, CellRule::Evidence);
    let mut owners = evaluate_cells(space, CellRule::Owner);
    let mut verification = evaluate_cells(space, CellRule::Verification);
    let ghost a0 = all@;
    let ghost a1 = evidence@;
    let ghost a2 = owners@;
    let ghost a3 = verification@;
    all.append(&mut evidence);
    all.append(&mut owners);
    all.append(&mut verification);
    assert(all@ =~= a0 + a1 + a2 + a3);
    assert(key_views(all@) =~= findings_spec(*space));
    if let Some(t) = fail_on {
        if threshold_reached_in(&all, t) {
            return Err(AdvisoryError::FailOnThreshold(t));
        }
    }
    let findings = sort_by_key(all);
    Ok(CheckReport { space_id: space.space_id.clone(), ruleset: text(ruleset), findings })
}


impl CheckReport {
    /// The obstructions of the report, in report order.
    pub fn obstructions(&self) -> (r: Vec<Obstruction>)
        ensures
            obstruction_views(r@) == obstruction_views_of(key_views(self.findings@)),
    {
        let mut out: Vec<Obstruction> = Vec::new();
        let mut i: usize = 0;
        while i < self.findings.len()
            invariant
                i <= self.findings.len(),
                obstruction_views(out@) == obstruction_views_of(key_views(self.findings@)).take(i as int),
            decreases self.findings.len() - i,
        {
            let ghost old_out = out@;
            let o = self.findings[i].obstruction.duplicate();
            let ghost ov = o@;
            assert(ov == key_views(self.findings@)[i as int].obstruction);
            out.push(o);
            assert(obstruction_views(out@) =~= obstruction_views(old_out).push(ov));
            assert(obstruction_views(out@) =~= obstruction_views_of(key_views(self.findings@)).take(i + 1));
            i = i + 1;
        }
        assert(obstruction_views_of(key_views(self.findings@)).take(self.findings@.len() as int)
            =~= obstruction_views_of(key_views(self.findings@)));
        out
    }
}

/// An obstruction blocks close when its severity is medium or higher and it was not waived.
pub open spec fn is_blocking(o: ObstructionView) -> bool {
    &&& match o.severity {
        Some(s) => match Severity::parse_spec(s) {
            Some(v) => v.rank() >= Severity::Medium.rank(),
            None => false,
        },
        None => false,
    }
    &&& o.review_status != Some("waived"@)
}

/// Positions of the blocking obstructions, in order.
pub open spec fn blocking_positions(obs: Seq<ObstructionView>) -> Seq<int>
    decreases obs.len(),
{
    if obs.len() == 0 {
        Seq::empty()
    } else {
        let rest = blocking_positions(obs.drop_last());
        if is_blocking(obs.last()) {
            rest.push(obs.len() - 1)
        } else {
            rest
        }
    }
}

pub open spec fn blocking_id_of() -> spec_fn(ObstructionView) -> Option<Seq<char>> {
    |o: ObstructionView|
        if is_blocking(o) {
            o.id
        } else {
            None
        }
}

/// Whether an engagement can close, and what blocks it.
pub struct CloseStatus {
    pub space_id: String,
    /// The lowest severity that blocks close: `medium`.
    pub blocking_threshold: String,
    pub closeable: bool,
    /// Ids of the blocking obstructions that have one.
    pub blocking_obstruction_ids: Vec<String>,
    /// Positions of the blocking obstructions within the report's obstructions.
    pub blocking_positions: Vec<usize>,
}

/// The close status of a space under its check report: closeable exactly when no
/// obstruction of medium or higher severity remains unwaived.
pub fn close_status(space_id: &str, obstructions: &Vec<Obstruction>) -> (r: CloseStatus)
    ensures
        r.blocking_threshold@ == "medium"@,
        r.space_id@ == space_id@,
        r.closeable == (forall|i: int| 0 <= i < obstructions@.len() ==> !is_blocking(#[trigger] obstruction_views(obstructions@)[i])),
        r.blocking_positions@.map_values(|p: usize| p as int) == blocking_positions(obstruction_views(obstructions@)),
        views(r.blocking_obstruction_ids@) == obstruction_views(obstructions@).filter_map(blocking_id_of()),
{
    let ghost obs = obstruction_views(obstructions@);
    let ghost f = blocking_id_of();
    let mut positions: Vec<usize> = Vec::new();
    let mut ids: Vec<String> = Vec::new();
    let mut closeable = true;
    let mut i: usize = 0;
    while i < obstructions.len()
        invariant
            i <= obstructions.len(),
            obs == obstruction_views(obstructions@),
            f == blocking_id_of(),
            closeable == (forall|k: int| 0 <= k < i ==> !is_blocking(#[trigger] obs[k])),
            positions@.map_values(|p: usize| p as int) == blocking_positions(obs.take(i as int)),
            views(ids@) == obs.take(i as int).filter_map(f),
        decreases obstructions.len() - i,
    {
        proof {
            obs.lemma_filter_map_take_succ(f, i as int);
            assert(obs.take(i + 1).drop_last() =~= obs.take(i as int));
        }
        let o = &obstructions[i];
        assert(obs[i as int] == o@);
        let severe = match &o.severity {
            Some(s) => match Severity::parse(s.as_str()) {
                Some(v) => v.at_least(&Severity::Medium),
                None => false,
            },
            None => false,
        };
        let waived = crate::model::opt_str_is(&o.review_status, "waived");
        assert(waived == (o@.review_status == Some("waived"@)));
        let ghost old_pos = positions@;
        let ghost old_ids = ids@;
        if severe && !waived {
            closeable = false;
            positions.push(i);
            assert(positions@.map_values(|p: usize| p as int) =~= old_pos.map_values(|p: usize| p as int).push(i as int));
            match &o.id {
                Some(id) => {
                    ids.push(id.clone());
                    assert(views(ids@) =~= views(old_ids).push(id@));
                },
                None => {},
            }
        }
        i = i + 1;
    }
    assert(obs.take(obstructions@.len() as int) =~= obs);
    CloseStatus {
        space_id: text(space_id),
        blocking_threshold: text("medium"),
        closeable,
        blocking_obstruction_ids: ids,
        blocking_positions: positions,
    }
}

/// Every violation a check reports blocks close: the reported obstructions leave the
/// space closeable exactly when the check found nothing.
pub proof fn law_check_findings_block_close(space: Space, reported: Seq<FindingView>)
    requires
        reported.to_multiset() == findings_spec(space).to_multiset(),
    ensures
        (forall|i: int| 0 <= i < reported.len() ==> !is_blocking(#[trigger] obstruction_views_of(reported)[i]))
            <==> reported.len() == 0,
{
    broadcast use vstd::seq_lib::group_to_multiset_ensures;
    if reported.len() > 0 {
        let x = reported[0];
        assert(reported.contains(x));
        reported.to_multiset_ensures();
        findings_spec(space).to_multiset_ensures();
        assert(reported.to_multiset().count(x) > 0);
        assert(findings_spec(space).contains(x));
        lemma_findings_block(space, x);
        assert(obstruction_views_of(reported)[0] == x.obstruction);
    }
}

proof fn lemma_threshold_carries(a: Seq<FindingView>, b: Seq<FindingView>, t: Severity)
    requires
        a.to_multiset() == b.to_multiset(),
        threshold_reached(obstruction_views_of(a), t),
    ensures
        threshold_reached(obstruction_views_of(b), t),
{
    broadcast use vstd::seq_lib::group_to_multiset_ensures;
    let oa = obstruction_views_of(a);
    let i = choose|i: int|
        0 <= i < oa.len() && match (#[trigger] oa[i]).severity {
            Some(s) => match Severity::parse_spec(s) {
                Some(v) => v.rank() >= t.rank(),
                None => false,
            },
            None => false,
        };
    let x = a[i];
    assert(a.contains(x));
    a.to_multiset_ensures();
    b.to_multiset_ensures();
    assert(b.to_multiset().count(x) > 0);
    assert(b.contains(x));
    let j = choose|j: int| 0 <= j < b.len() && b[j] == x;
    assert(obstruction_views_of(b)[j] == x.obstruction);
}

/// Findings are successful results: with a failure threshold, a check fails exactly
/// when one of the findings that the same check without a threshold reports reaches
/// the threshold, and otherwise it reports those same findings.
pub proof fn law_fail_on_threshold(
    space: Space,
    ruleset: Seq<char>,
    t: Severity,
    plain: CheckReport,
    gated: Result<CheckReport, AdvisoryError>,
)
    requires
        check_outcome(space, ruleset, None, Ok(plain)),
        check_outcome(space, ruleset, Some(t), gated),
    ensures
        gated is Err <==> threshold_reached(obstruction_views_of(key_views(plain.findings@)), t),
        gated is Err ==> gated->Err_0 == AdvisoryError::FailOnThreshold(t),
        gated is Ok ==> key_views(gated->Ok_0.findings@) == key_views(plain.findings@)
            && gated->Ok_0.space_id@ == plain.space_id@ && gated->Ok_0.ruleset@ == plain.ruleset@,
{
    let sorted = key_views(plain.findings@);
    let all = findings_spec(space);
    if threshold_reached(obstruction_views_of(sorted), t) {
        lemma_threshold_carries(sorted, all, t);
    }
    if threshold_reached(obstruction_views_of(all), t) {
        lemma_threshold_carries(all, sorted, t);
    }
}

proof fn lemma_filter_map_includes<A, B>(s: Seq<A>, f: spec_fn(A) -> Option<B>, i: int)
    requires
        0 <= i < s.len(),
        f(s[i]) is Some,
    ensures
        s.filter_map(f).contains(f(s[i]).unwrap()),
    decreases s.len(),
{
    let rest = s.drop_last();
    if i == s.len() - 1 {
        let r = rest.filter_map(f) + seq![f(s[i]).unwrap()];
        assert(s.filter_map(f) == r);
        assert(r[r.len() - 1] == f(s[i]).unwrap());
    } else {
        lemma_filter_map_includes(rest, f, i);
        let k = choose|k: int| 0 <= k < rest.filter_map(f).len() && rest.filter_map(f)[k] == f(s[i]).unwrap();
        match f(s.last()) {
            Some(b) => {
                assert((rest.filter_map(f) + seq![b])[k] == f(s[i]).unwrap());
            },
            None => {},
        }
    }
}

proof fn lemma_unverified_finding_source(space: Space, x: FindingView)
    requires
        findings_spec(space).contains(x),
        x.obstruction.obstruction_type == Some("requirement_unverified"@),
    ensures
        exists|c: Cell| #[trigger] space.cells@.contains(c) && verification_finding(space.incidences@, c) == Some(x),
{
    reveal_strlit("requirement_unverified");
    reveal_strlit("boundary_violation");
    reveal_strlit("insufficient_evidence");
    reveal_strlit("missing_owner");
    assert("requirement_unverified"@.len() == 22 && "boundary_violation"@.len() == 18);
    assert("insufficient_evidence"@.len() == 21 && "missing_owner"@.len() == 13);
    let b = space.incidences@.filter_map(boundary_of(space.cells@));
    let e = space.cells@.filter_map(evidence_of());
    let o = space.cells@.filter_map(owner_of(space.incidences@));
    let v = space.cells@.filter_map(verification_of(space.incidences@));
    assert(findings_spec(space) == b + e + o + v);
    let k = choose|k: int| 0 <= k < findings_spec(space).len() && findings_spec(space)[k] == x;
    if k < b.len() {
        assert(b.contains(x));
        space.incidences@.lemma_filter_map_contains(boundary_of(space.cells@), x);
        assert(false);
    } else if k < b.len() + e.len() {
        assert(e[k - b.len()] == x);
        assert(e.contains(x));
        space.cells@.lemma_filter_map_contains(evidence_of(), x);
        assert(false);
    } else if k < b.len() + e.len() + o.len() {
        assert(o[k - b.len() - e.len()] == x);
        assert(o.contains(x));
        space.cells@.lemma_filter_map_contains(owner_of(space.incidences@), x);
        assert(false);
    } else {
        assert(v[k - b.len() - e.len() - o.len()] == x);
        assert(v.contains(x));
        space.cells@.lemma_filter_map_contains(verification_of(space.incidences@), x);
    }
}

/// A requirement counts as verified when some incidence that `verifies` or
/// `implements` touches it, from either end: every requirement_unverified finding of a
/// check names, as its one witness, a cell that no such incidence touches. Conversely,
/// a requirement cell that asks for verification and that no such incidence touches
/// gets a medium requirement_unverified finding with its own obstruction id.
pub proof fn law_verified_requirements_raise_nothing(space: Space, f: FindingView, c: Cell)
    ensures
        findings_spec(space).contains(f) && f.obstruction.obstruction_type == Some("requirement_unverified"@) ==> {
            &&& f.obstruction.witness_ids.len() == 1
            &&& forall|i: int|
                0 <= i < space.incidences@.len() && ((#[trigger] space.incidences@[i]).relation_type@ == "verifies"@
                    || space.incidences@[i].relation_type@ == "implements"@) ==> space.incidences@[i].from_id@
                    != f.obstruction.witness_ids[0] && space.incidences@[i].to_id@ != f.obstruction.witness_ids[0]
        },
        space.cells@.contains(c) && opt_is(c.cell_type, "requirement"@) && c.require_verification == Some(true) && (
        forall|i: int|
            0 <= i < space.incidences@.len() ==> !(((#[trigger] space.incidences@[i]).relation_type@ == "verifies"@
                || space.incidences@[i].relation_type@ == "implements"@) && (space.incidences@[i].from_id@ == c.id@
                || space.incidences@[i].to_id@ == c.id@))) ==> exists|g: FindingView|
            #[trigger] findings_spec(space).contains(g) && g.obstruction.id == Some(
                "obstruction:"@ + cell_stem(c.id@) + "-missing-verification"@,
            ) && g.obstruction.obstruction_type == Some("requirement_unverified"@) && g.obstruction.severity == Some(
                "medium"@,
            ) && g.obstruction.witness_ids == seq![c.id@],
{
    if findings_spec(space).contains(f) && f.obstruction.obstruction_type == Some("requirement_unverified"@) {
        lemma_unverified_finding_source(space, f);
        let d = choose|d: Cell| #[trigger] space.cells@.contains(d) && verification_finding(space.incidences@, d) == Some(f);
        assert(!has_verification_spec(space.incidences@, d.id@));
    }
    if space.cells@.contains(c) && opt_is(c.cell_type, "requirement"@) && c.require_verification == Some(true) && (
    forall|i: int|
        0 <= i < space.incidences@.len() ==> !(((#[trigger] space.incidences@[i]).relation_type@ == "verifies"@
            || space.incidences@[i].relation_type@ == "implements"@) && (space.incidences@[i].from_id@ == c.id@
            || space.incidences@[i].to_id@ == c.id@))) {
        assert(!has_verification_spec(space.incidences@, c.id@));
        let g = verification_finding(space.incidences@, c).unwrap();
        let j = choose|j: int| 0 <= j < space.cells@.len() && space.cells@[j] == c;
        lemma_filter_map_includes(space.cells@, verification_of(space.incidences@), j);
        let b = space.incidences@.filter_map(boundary_of(space.cells@));
        let e = space.cells@.filter_map(evidence_of());
        let o = space.cells@.filter_map(owner_of(space.incidences@));
        let v = space.cells@.filter_map(verification_of(space.incidences@));
        assert(findings_spec(space) == b + e + o + v);
        let k = choose|k: int| 0 <= k < v.len() && v[k] == g;
        assert((b + e + o + v)[b.len() + e.len() + o.len() + k] == g);
        assert(findings_spec(space).contains(g));
        assert(g.obstruction.witness_ids == seq![c.id@]);
    }
}

proof fn lemma_owner_finding_source(space: Space, x: FindingView)
    requires
        findings_spec(space).contains(x),
        x.obstruction.obstruction_type == Some("missing_owner"@),
    ensures
        exists|c: Cell| #[trigger] space.cells@.contains(c) && owner_finding(space.incidences@, c) == Some(x),
{
    reveal_strlit("requirement_unverified");
    reveal_strlit("boundary_violation");
    reveal_strlit("insufficient_evidence");
    reveal_strlit("missing_owner");
    assert("requirement_unverified"@.len() == 22 && "boundary_violation"@.len() == 18);
    assert("insufficient_evidence"@.len() == 21 && "missing_owner"@.len() == 13);
    let b = space.incidences@.filter_map(boundary_of(space.cells@));
    let e = space.cells@.filter_map(evidence_of());
    let o = space.cells@.filter_map(owner_of(space.incidences@));
    let v = space.cells@.filter_map(verification_of(space.incidences@));
    assert(findings_spec(space) == b + e + o + v);
    let k = choose|k: int| 0 <= k < findings_spec(space).len() && findings_spec(space)[k] == x;
    if k < b.len() {
        assert(b.contains(x));
        space.incidences@.lemma_filter_map_contains(boundary_of(space.cells@), x);
        assert(false);
    } else if k < b.len() + e.len() {
        assert(e[k - b.len()] == x);
        assert(e.contains(x));
        space.cells@.lemma_filter_map_contains(evidence_of(), x);
        assert(false);
    } else if k < b.len() + e.len() + o.len() {
        assert(o[k - b.len() - e.len()] == x);
        assert(o.contains(x));
        space.cells@.lemma_filter_map_contains(owner_of(space.incidences@), x);
    } else {
        assert(v[k - b.len() - e.len() - o.len()] == x);
        assert(v.contains(x));
        space.cells@.lemma_filter_map_contains(verification_of(space.incidences@), x);
        assert(false);
    }
}

/// An action has an owner when some incidence that `owns` points to it: every
/// missing_owner finding of a check names, as its one witness, a cell that no `owns`
/// incidence points to. Conversely, an action cell that no `owns` incidence points to
/// gets a medium missing_owner finding with its own obstruction id.
pub proof fn law_owned_actions_raise_nothing(space: Space, f: FindingView, c: Cell)
    ensures
        findings_spec(space).contains(f) && f.obstruction.obstruction_type == Some("missing_owner"@) ==> {
            &&& f.obstruction.witness_ids.len() == 1
            &&& forall|i: int|
                0 <= i < space.incidences@.len() && (#[trigger] space.incidences@[i]).relation_type@ == "owns"@
                    ==> space.incidences@[i].to_id@ != f.obstruction.witness_ids[0]
        },
        space.cells@.contains(c) && opt_is(c.cell_type, "action"@) && (forall|i: int|
            0 <= i < space.incidences@.len() ==> !((#[trigger] space.incidences@[i]).relation_type@ == "owns"@
                && space.incidences@[i].to_id@ == c.id@)) ==> exists|g: FindingView|
            #[trigger] findings_spec(space).contains(g) && g.obstruction.id == Some(
                "obstruction:"@ + cell_stem(c.id@) + "-missing-owner"@,
            ) && g.obstruction.obstruction_type == Some("missing_owner"@) && g.obstruction.severity == Some("medium"@)
                && g.obstruction.witness_ids == seq![c.id@],
{
    if findings_spec(space).contains(f) && f.obstruction.obstruction_type == Some("missing_owner"@) {
        lemma_owner_finding_source(space, f);
        let d = choose|d: Cell| #[trigger] space.cells@.contains(d) && owner_finding(space.incidences@, d) == Some(f);
        assert(!has_incoming_owner_spec(space.incidences@, d.id@));
    }
    if space.cells@.contains(c) && opt_is(c.cell_type, "action"@) && (forall|i: int|
        0 <= i < space.incidences@.len() ==> !((#[trigger] space.incidences@[i]).relation_type@ == "owns"@
            && space.incidences@[i].to_id@ == c.id@)) {
        assert(!has_incoming_owner_spec(space.incidences@, c.id@));
        let g = owner_finding(space.incidences@, c).unwrap();
        let j = choose|j: int| 0 <= j < space.cells@.len() && space.cells@[j] == c;
        lemma_filter_map_includes(space.cells@, owner_of(space.incidences@), j);
        let b = space.incidences@.filter_map(boundary_of(space.cells@));
        let e = space.cells@.filter_map(evidence_of());
        let o = space.cells@.filter_map(owner_of(space.incidences@));
        let v = space.cells@.filter_map(verification_of(space.incidences@));
        assert(findings_spec(space) == b + e + o + v);
        let k = choose|k: int| 0 <= k < o.len() && o[k] == g;
        assert((b + e + o + v)[b.len() + e.len() + k] == g);
        assert(findings_spec(space).contains(g));
        assert(g.obstruction.witness_ids == seq![c.id@]);
    }
}

proof fn lemma_findings_block(space: Space, x: FindingView)
    requires
        findings_spec(space).contains(x),
    ensures
        is_blocking(x.obstruction),
{
    reveal_strlit("high");
    reveal_strlit("medium");
    reveal_strlit("unreviewed");
    reveal_strlit("waived");
    reveal_strlit("info");
    reveal_strlit("low");
    reveal_strlit("critical");
    assert("unreviewed"@ != "waived"@) by {
        assert("unreviewed"@[0] != "waived"@[0]);
    }
    assert("high"@ != "info"@ && "high"@ != "low"@ && "high"@ != "medium"@) by {
        assert("high"@[0] != "info"@[0] && "high"@[0] != "low"@[0] && "high"@[0] != "medium"@[0]);
    }
    assert("medium"@ != "info"@ && "medium"@ != "low"@) by {
        assert("medium"@[0] != "info"@[0] && "medium"@[0] != "low"@[0]);
    }
    let b = space.incidences@.filter_map(boundary_of(space.cells@));
    let e = space.cells@.filter_map(evidence_of());
    let o = space.cells@.filter_map(owner_of(space.incidences@));
    let v = space.cells@.filter_map(verification_of(space.incidences@));
    assert(findings_spec(space) == b + e + o + v);
    let k = choose|k: int| 0 <= k < findings_spec(space).len() && findings_spec(space)[k] == x;
    if k < b.len() {
        assert(b.contains(x));
        space.incidences@.lemma_filter_map_contains(boundary_of(space.cells@), x);
    } else if k < b.len() + e.len() {
        assert(e[k - b.len()] == x);
        assert(e.contains(x));
        space.cells@.lemma_filter_map_contains(evidence_of(), x);
    } else if k < b.len() + e.len() + o.len() {
        assert(o[k - b.len() - e.len()] == x);
        assert(o.contains(x));
        space.cells@.lemma_filter_map_contains(owner_of(space.incidences@), x);
    } else {
        assert(v[k - b.len() - e.len() - o.len()] == x);
        assert(v.contains(x));
        space.cells@.lemma_filter_map_contains(verification_of(space.incidences@), x);
    }
}

} // verus!
