//! Blocker resolution: how far each open obstruction is from being resolved by
//! reviewed completion candidates, and which work is actionable or waiting.
use vstd::prelude::*;
use crate::model::{views, opt_view, opt_is, view_or, opt_str_is, clone_strings, clone_opt, text, Candidate, Obstruction};
use crate::text::{has_view, contains_str, str_eq};

verus! {

/// The close effect of every resolution entry: a blocker stays until the structure
/// changes, whatever its candidates.
pub const CLOSE_EFFECT: &'static str = "does_not_clear_obstruction_until_structure_changes";

/// Where a blocker stands with respect to its completion candidates.
#[derive(Clone, Copy, Debug, PartialEq, Eq, Structural)]
pub enum ResolutionStatus {
    /// At least one resolving candidate was accepted; its structure still has to be applied.
    AcceptedCandidatePendingApplication,
    /// No candidate resolves the blocker.
    NoCandidate,
    /// Every resolving candidate was rejected.
    AllCandidatesRejected,
    /// Some resolving candidate still waits for review.
    CandidateReviewPending,
}

impl ResolutionStatus {
    pub open spec fn name(self) -> Seq<char> {
        match self {
            ResolutionStatus::AcceptedCandidatePendingApplication => "accepted_candidate_pending_application"@,
            ResolutionStatus::NoCandidate => "no_candidate"@,
            ResolutionStatus::AllCandidatesRejected => "all_candidates_rejected"@,
            ResolutionStatus::CandidateReviewPending => "candidate_review_pending"@,
        }
    }

    /// The status as the report spells it.
    pub fn as_str(&self) -> (r: &'static str)
        ensures
            r@ == self.name(),
    {
        match self {
            ResolutionStatus::AcceptedCandidatePendingApplication => "accepted_candidate_pending_application",
            ResolutionStatus::NoCandidate => "no_candidate",
            ResolutionStatus::AllCandidatesRejected => "all_candidates_rejected",
            ResolutionStatus::CandidateReviewPending => "candidate_review_pending",
        }
    }
}

/// Which structure an accepted candidate type asks for.
#[derive(Clone, Copy, Debug, PartialEq, Eq, Structural)]
pub enum ContractKind {
    Ownership,
    Verification,
    Interface,
    Refactor,
    Reviewed,
}

pub open spec fn contract_kind(candidate_type: Seq<char>) -> ContractKind {
    if candidate_type == "ownership_clarification"@ {
        ContractKind::Ownership
    } else if candidate_type == "proposed_test"@ || candidate_type == "define_metric"@ {
        ContractKind::Verification
    } else if candidate_type == "proposed_interface"@ {
        ContractKind::Interface
    } else if candidate_type == "proposed_refactor_action"@ {
        ContractKind::Refactor
    } else {
        ContractKind::Reviewed
    }
}

pub open spec fn contract_cells(k: ContractKind) -> Seq<Seq<char>> {
    match k {
        ContractKind::Ownership => seq!["owner"@],
        ContractKind::Verification => seq!["test_or_verification"@],
        ContractKind::Interface => seq!["interface"@],
        ContractKind::Refactor => seq!["refactor_action"@],
        ContractKind::Reviewed => seq!["reviewed_structure"@],
    }
}

pub open spec fn contract_relations(k: ContractKind) -> Seq<Seq<char>> {
    match k {
        ContractKind::Ownership => seq!["owns"@],
        ContractKind::Verification => seq!["verifies"@],
        ContractKind::Interface => seq!["uses"@, "provides"@],
        ContractKind::Refactor => seq!["replaces"@],
        ContractKind::Reviewed => seq!["resolves"@],
    }
}

pub open spec fn contract_step(k: ContractKind) -> Seq<char> {
    match k {
        ContractKind::Ownership => "add owner cell and owns incidence to the blocked action, then rerun check and case reason"@,
        ContractKind::Verification => "add verification cell and verifies incidence to the blocked requirement, then rerun check and case reason"@,
        ContractKind::Interface => "add interface cell and boundary-safe incidences, then rerun check and case reason"@,
        ContractKind::Refactor => "add refactor action cell and replacement incidence, then rerun check and case reason"@,
        ContractKind::Reviewed => "add reviewed structure linked to the obstruction, then rerun check and case reason"@,
    }
}

/// The cells, relations and next step that applying a candidate requires.
pub struct ApplicationContract {
    pub required_cell_types: Vec<String>,
    pub required_relation_types: Vec<String>,
    pub next_structural_step: String,
}

/// The structure that applying a candidate of `candidate_type` must add.
pub fn application_contract(candidate_type: &str) -> (r: ApplicationContract)
    ensures
        views(r.required_cell_types@) == contract_cells(contract_kind(candidate_type@)),
        views(r.required_relation_types@) == contract_relations(contract_kind(candidate_type@)),
        r.next_structural_step@ == contract_step(contract_kind(candidate_type@)),
{
    let (cells, relations, step): (Vec<String>, Vec<String>, &str) = if str_eq(candidate_type, "ownership_clarification") {
        (vec![text("owner")], vec![text("owns")], "add owner cell and owns incidence to the blocked action, then rerun check and case reason")
    } else if str_eq(candidate_type, "proposed_test") || str_eq(candidate_type, "define_metric") {
        (vec![text("test_or_verification")], vec![text("verifies")], "add verification cell and verifies incidence to the blocked requirement, then rerun check and case reason")
    } else if str_eq(candidate_type, "proposed_interface") {
        (vec![text("interface")], vec![text("uses"), text("provides")], "add interface cell and boundary-safe incidences, then rerun check and case reason")
    } else if str_eq(candidate_type, "proposed_refactor_action") {
        (vec![text("refactor_action")], vec![text("replaces")], "add refactor action cell and replacement incidence, then rerun check and case reason")
    } else {
        (vec![text("reviewed_structure")], vec![text("resolves")], "add reviewed structure linked to the obstruction, then rerun check and case reason")
    };
    assert(views(cells@) =~= contract_cells(contract_kind(candidate_type@)));
    assert(views(relations@) =~= contract_relations(contract_kind(candidate_type@)));
    ApplicationContract {
        required_cell_types: cells,
        required_relation_types: relations,
        next_structural_step: text(step),
    }
}

/// What the application of one candidate to a blocker requires.
pub struct ApplicationRequirement {
    pub candidate_id: String,
    pub candidate_type: String,
    /// The candidate's review status, `unknown` when it has none.
    pub review_status: String,
    pub required_cell_types: Vec<String>,
    pub required_relation_types: Vec<String>,
    /// The blocker's `blocked_ids`.
    pub target_blocked_ids: Vec<String>,
    pub next_structural_step: String,
}

pub struct ApplicationRequirementView {
    pub candidate_id: Seq<char>,
    pub candidate_type: Seq<char>,
    pub review_status: Seq<char>,
    pub required_cell_types: Seq<Seq<char>>,
    pub required_relation_types: Seq<Seq<char>>,
    pub target_blocked_ids: Seq<Seq<char>>,
    pub next_structural_step: Seq<char>,
}

impl View for ApplicationRequirement {
    type V = ApplicationRequirementView;

    open spec fn view(&self) -> ApplicationRequirementView {
        ApplicationRequirementView {
            candidate_id: self.candidate_id@,
            candidate_type: self.candidate_type@,
            review_status: self.review_status@,
            required_cell_types: views(self.required_cell_types@),
            required_relation_types: views(self.required_relation_types@),
            target_blocked_ids: views(self.target_blocked_ids@),
            next_structural_step: self.next_structural_step@,
        }
    }
}

/// One entry of the blocker resolution state.
pub struct ResolutionEntry {
    pub obstruction_id: String,
    pub resolution_status: ResolutionStatus,
    /// Ids of the candidates that resolve the blocker, in candidate order.
    pub candidate_ids: Vec<String>,
    /// Ids of those resolving candidates that were accepted.
    pub accepted_candidate_ids: Vec<String>,
    pub application_requirements: Vec<ApplicationRequirement>,
    /// The blocker's `blocked_ids`, carried for frontier and waiting items.
    pub blocked_ids: Vec<String>,
    /// The blocker's `recommended_completion_types`.
    pub recommended_completion_types: Vec<String>,
    pub obstruction_type: Option<String>,
    pub severity: Option<String>,
    /// What the entry means for close: candidates do not clear the obstruction; only a
    /// change of structure does.
    pub close_effect: String,
}

pub struct ResolutionEntryView {
    pub obstruction_id: Seq<char>,
    pub resolution_status: ResolutionStatus,
    pub candidate_ids: Seq<Seq<char>>,
    pub accepted_candidate_ids: Seq<Seq<char>>,
    pub application_requirements: Seq<ApplicationRequirementView>,
    pub blocked_ids: Seq<Seq<char>>,
    pub recommended_completion_types: Seq<Seq<char>>,
    pub obstruction_type: Option<Seq<char>>,
    pub severity: Option<Seq<char>>,
    pub close_effect: Seq<char>,
}

impl View for ResolutionEntry {
    type V = ResolutionEntryView;

    open spec fn view(&self) -> ResolutionEntryView {
        ResolutionEntryView {
            obstruction_id: self.obstruction_id@,
            resolution_status: self.resolution_status,
            candidate_ids: views(self.candidate_ids@),
            accepted_candidate_ids: views(self.accepted_candidate_ids@),
            application_requirements: self.application_requirements@.map_values(
                |a: ApplicationRequirement| a@,
            ),
            blocked_ids: views(self.blocked_ids@),
            recommended_completion_types: views(self.recommended_completion_types@),
            obstruction_type: opt_view(self.obstruction_type),
            severity: opt_view(self.severity),
            close_effect: self.close_effect@,
        }
    }
}

/// `c` lists `oid` among the obstructions it resolves.
pub open spec fn resolves(c: Candidate, oid: Seq<char>) -> bool {
    has_view(c.resolves_obstruction_ids@, oid)
}

pub open spec fn is_accepted(c: Candidate) -> bool {
    opt_is(c.review_status, "accepted"@)
}

pub open spec fn is_rejected(c: Candidate) -> bool {
    opt_is(c.review_status, "rejected"@)
}

/// Ids of the candidates that resolve `oid` and meet `extra`, in candidate order;
/// candidates without an id are skipped.
pub open spec fn resolving_ids(oid: Seq<char>, cands: Seq<Candidate>, only_accepted: bool) -> Seq<Seq<char>> {
    cands.filter_map(resolving_id_of(oid, only_accepted))
}

pub open spec fn resolving_id_of(oid: Seq<char>, only_accepted: bool) -> spec_fn(Candidate) -> Option<Seq<char>> {
    |c: Candidate|
        if resolves(c, oid) && (!only_accepted || is_accepted(c)) {
            opt_view(c.id)
        } else {
            None
        }
}

pub open spec fn has_resolving(oid: Seq<char>, cands: Seq<Candidate>) -> bool {
    exists|i: int| 0 <= i < cands.len() && resolves(#[trigger] cands[i], oid)
}

pub open spec fn has_accepted(oid: Seq<char>, cands: Seq<Candidate>) -> bool {
    exists|i: int| 0 <= i < cands.len() && resolves(#[trigger] cands[i], oid) && is_accepted(cands[i])
}

pub open spec fn all_rejected(oid: Seq<char>, cands: Seq<Candidate>) -> bool {
    forall|i: int| 0 <= i < cands.len() && resolves(#[trigger] cands[i], oid) ==> is_rejected(cands[i])
}

pub open spec fn status_spec(oid: Seq<char>, cands: Seq<Candidate>) -> ResolutionStatus {
    if has_accepted(oid, cands) {
        ResolutionStatus::AcceptedCandidatePendingApplication
    } else if !has_resolving(oid, cands) {
        ResolutionStatus::NoCandidate
    } else if all_rejected(oid, cands) {
        ResolutionStatus::AllCandidatesRejected
    } else {
        ResolutionStatus::CandidateReviewPending
    }
}

/// Does candidate `c` enter the application requirements of blocker `oid`?
/// Accepted resolving candidates take precedence; without one, every resolving
/// candidate does, except rejected ones when `exclude_rejected` holds.
pub open spec fn applicable(oid: Seq<char>, cands: Seq<Candidate>, c: Candidate, exclude_rejected: bool) -> bool {
    resolves(c, oid) && if has_accepted(oid, cands) {
        is_accepted(c)
    } else {
        !exclude_rejected || !is_rejected(c)
    }
}

pub open spec fn requirement_spec(b: Obstruction, c: Candidate) -> Option<ApplicationRequirementView> {
    match (c.id, c.candidate_type) {
        (Some(id), Some(t)) => Some(
            ApplicationRequirementView {
                candidate_id: id@,
                candidate_type: t@,
                review_status: view_or(c.review_status, "unknown"@),
                required_cell_types: contract_cells(contract_kind(t@)),
                required_relation_types: contract_relations(contract_kind(t@)),
                target_blocked_ids: views(b.blocked_ids@),
                next_structural_step: contract_step(contract_kind(t@)),
            },
        ),
        _ => None,
    }
}

pub open spec fn requirements_spec(b: Obstruction, oid: Seq<char>, cands: Seq<Candidate>, exclude_rejected: bool) -> Seq<ApplicationRequirementView> {
    cands.filter_map(requirement_of(b, oid, cands, exclude_rejected))
}

pub open spec fn requirement_of(b: Obstruction, oid: Seq<char>, cands: Seq<Candidate>, exclude_rejected: bool) -> spec_fn(Candidate) -> Option<ApplicationRequirementView> {
    |c: Candidate|
        if applicable(oid, cands, c, exclude_rejected) {
            requirement_spec(b, c)
        } else {
            None
        }
}

/// The resolution entry of blocker `b`; blockers without an id have none.
pub open spec fn entry_spec(b: Obstruction, cands: Seq<Candidate>, exclude_rejected: bool) -> Option<ResolutionEntryView> {
    match b.id {
        Some(oid) => Some(
            ResolutionEntryView {
                obstruction_id: oid@,
                resolution_status: status_spec(oid@, cands),
                candidate_ids: resolving_ids(oid@, cands, false),
                accepted_candidate_ids: resolving_ids(oid@, cands, true),
                application_requirements: requirements_spec(b, oid@, cands, exclude_rejected),
                blocked_ids: views(b.blocked_ids@),
                recommended_completion_types: views(b.recommended_completion_types@),
                obstruction_type: opt_view(b.obstruction_type),
                severity: opt_view(b.severity),
                close_effect: CLOSE_EFFECT@,
            },
        ),
        None => None,
    }
}

pub open spec fn state_spec(blockers: Seq<Obstruction>, cands: Seq<Candidate>, exclude_rejected: bool) -> Seq<ResolutionEntryView> {
    blockers.filter_map(entry_of(cands, exclude_rejected))
}

pub open spec fn entry_of(cands: Seq<Candidate>, exclude_rejected: bool) -> spec_fn(Obstruction) -> Option<ResolutionEntryView> {
    |b: Obstruction| entry_spec(b, cands, exclude_rejected)
}

pub open spec fn entry_views(s: Seq<ResolutionEntry>) -> Seq<ResolutionEntryView> {
    s.map_values(|e: ResolutionEntry| e@)
}

fn candidate_resolves(c: &Candidate, oid: &str) -> (r: bool)
    ensures
        r == resolves(*c, oid@),
{
    contains_str(&c.resolves_obstruction_ids, oid)
}

fn application_requirement(b: &Obstruction, c: &Candidate) -> (r: Option<ApplicationRequirement>)
    ensures
        match r {
            Some(a) => requirement_spec(*b, *c) == Some(a@),
            None => requirement_spec(*b, *c) is None,
        },
{
    match (&c.id, &c.candidate_type) {
        (Some(id), Some(t)) => {
            let contract = application_contract(t.as_str());
            let review_status = match &c.review_status {
                Some(s) => s.clone(),
                None => text("unknown"),
            };
            Some(
                ApplicationRequirement {
                    candidate_id: id.clone(),
                    candidate_type: t.clone(),
                    review_status,
                    required_cell_types: contract.required_cell_types,
                    required_relation_types: contract.required_relation_types,
                    target_blocked_ids: clone_strings(&b.blocked_ids),
                    next_structural_step: contract.next_structural_step,
                },
            )
        },
        _ => None,
    }
}

fn resolution_entry(b: &Obstruction, cands: &Vec<Candidate>, exclude_rejected: bool) -> (r: Option<ResolutionEntry>)
    ensures
        match r {
            Some(e) => entry_spec(*b, cands@, exclude_rejected) == Some(e@),
            None => entry_spec(*b, cands@, exclude_rejected) is None,
        },
{
    let oid = match &b.id {
        Some(oid) => oid,
        None => return None,
    };
    let ghost o = oid@;
    // First pass: which kinds of resolving candidates exist.
    let mut any_resolving = false;
    let mut any_accepted = false;
    let mut every_rejected = true;
    let mut i: usize = 0;
    while i < cands.len()
        invariant
            i <= cands.len(),
            o == oid@,
            any_resolving == (exists|k: int| 0 <= k < i && resolves(#[trigger] cands@[k], o)),
            any_accepted == (exists|k: int|
                0 <= k < i && resolves(#[trigger] cands@[k], o) && is_accepted(cands@[k])),
            every_rejected == (forall|k: int|
                0 <= k < i && resolves(#[trigger] cands@[k], o) ==> is_rejected(cands@[k])),
        decreases cands.len() - i,
    {
        let c = &cands[i];
        if candidate_resolves(c, oid.as_str()) {
            assert(resolves(cands@[i as int], o));
            any_resolving = true;
            if opt_str_is(&c.review_status, "accepted") {
                any_accepted = true;
            }
            if !opt_str_is(&c.review_status, "rejected") {
                every_rejected = false;
            }
        }
        i = i + 1;
    }
    let status = if any_accepted {
        ResolutionStatus::AcceptedCandidatePendingApplication
    } else if !any_resolving {
        ResolutionStatus::NoCandidate
    } else if every_rejected {
        ResolutionStatus::AllCandidatesRejected
    } else {
        ResolutionStatus::CandidateReviewPending
    };
    // Second pass: ids and application requirements, in candidate order.
    let ghost f_all = resolving_id_of(o, false);
    let ghost f_acc = resolving_id_of(o, true);
    let ghost f_req = requirement_of(*b, o, cands@, exclude_rejected);
    let mut candidate_ids: Vec<String> = Vec::new();
    let mut accepted_ids: Vec<String> = Vec::new();
    let mut requirements: Vec<ApplicationRequirement> = Vec::new();
    let mut j: usize = 0;
    while j < cands.len()
        invariant
            j <= cands.len(),
            o == oid@,
            f_all == resolving_id_of(o, false),
            f_acc == resolving_id_of(o, true),
            f_req == requirement_of(*b, o, cands@, exclude_rejected),
            any_accepted == has_accepted(o, cands@),
            views(candidate_ids@) == cands@.take(j as int).filter_map(f_all),
            views(accepted_ids@) == cands@.take(j as int).filter_map(f_acc),
            requirements@.map_values(|a: ApplicationRequirement| a@) == cands@.take(j as int).filter_map(f_req),
        decreases cands.len() - j,
    {
        let c = &cands[j];
        proof {
            cands@.lemma_filter_map_take_succ(f_all, j as int);
            cands@.lemma_filter_map_take_succ(f_acc, j as int);
            cands@.lemma_filter_map_take_succ(f_req, j as int);
        }
        let ghost old_ids = candidate_ids@;
        let ghost old_acc = accepted_ids@;
        let ghost old_req = requirements@;
        if candidate_resolves(c, oid.as_str()) {
            let accepted = opt_str_is(&c.review_status, "accepted");
            if let Some(cid) = &c.id {
                candidate_ids.push(cid.clone());
                assert(views(candidate_ids@) =~= views(old_ids).push(cid@));
                if accepted {
                    accepted_ids.push(cid.clone());
                    assert(views(accepted_ids@) =~= views(old_acc).push(cid@));
                }
            }
            let counts = if any_accepted {
                accepted
            } else {
                !exclude_rejected || !opt_str_is(&c.review_status, "rejected")
            };
            if counts {
                match application_requirement(b, c) {
                    Some(a) => {
                        let ghost av = a@;
                        requirements.push(a);
                        assert(requirements@.map_values(|a: ApplicationRequirement| a@) =~= old_req.map_values(|a: ApplicationRequirement| a@).push(av));
                    },
                    None => {},
                }
            }
        }
        j = j + 1;
    }
    proof {
        assert(cands@.take(cands@.len() as int) =~= cands@);
    }
    let entry = ResolutionEntry {
        obstruction_id: oid.clone(),
        resolution_status: status,
        candidate_ids,
        accepted_candidate_ids: accepted_ids,
        application_requirements: requirements,
        blocked_ids: clone_strings(&b.blocked_ids),
        recommended_completion_types: clone_strings(&b.recommended_completion_types),
        obstruction_type: clone_opt(&b.obstruction_type),
        severity: clone_opt(&b.severity),
        close_effect: text(CLOSE_EFFECT),
    };
    proof {
        let ev = entry_spec(*b, cands@, exclude_rejected).unwrap();
        assert(ev.candidate_ids =~= entry@.candidate_ids);
        assert(ev.accepted_candidate_ids =~= entry@.accepted_candidate_ids);
        assert(ev.application_requirements =~= entry@.application_requirements);
    }
    Some(entry)
}

pub(crate) fn resolution_state(blockers: &Vec<Obstruction>, cands: &Vec<Candidate>, exclude_rejected: bool) -> (r: Vec<ResolutionEntry>)
    ensures
        entry_views(r@) == state_spec(blockers@, cands@, exclude_rejected),
{
    let ghost f = entry_of(cands@, exclude_rejected);
    let mut out: Vec<ResolutionEntry> = Vec::new();
    let mut i: usize = 0;
    while i < blockers.len()
        invariant
            i <= blockers.len(),
            f == entry_of(cands@, exclude_rejected),
            entry_views(out@) == blockers@.take(i as int).filter_map(f),
        decreases blockers.len() - i,
    {
        proof {
            blockers@.lemma_filter_map_take_succ(f, i as int);
        }
        let ghost old_out = out@;
        match resolution_entry(&blockers[i], cands, exclude_rejected) {
            Some(e) => {
                let ghost ev = e@;
                out.push(e);
                assert(entry_views(out@) =~= entry_views(old_out).push(ev));
            },
            None => {},
        }
        assert(entry_views(out@) =~= blockers@.take(i + 1).filter_map(f));
        i = i + 1;
    }
    assert(blockers@.take(blockers@.len() as int) =~= blockers@);
    out
}

/// The resolution state of each blocker that has an id, in blocker order.
/// Accepted resolving candidates take precedence in the application requirements;
/// without one, the requirements list every resolving candidate that was not rejected.
pub fn blocker_resolution_state(blockers: &Vec<Obstruction>, candidates: &Vec<Candidate>) -> (r: Vec<ResolutionEntry>)
    ensures
        entry_views(r@) == state_spec(blockers@, candidates@, true),
{
    resolution_state(blockers, candidates, true)
}


/// The kind of follow-up a blocker needs.
#[derive(Clone, Copy, Debug, PartialEq, Eq, Structural)]
pub enum WorkItemType {
    /// No candidate resolves the blocker: an agent can propose one.
    ProposeCompletionCandidate,
    /// An accepted candidate waits for its structure to be applied.
    ApplyAcceptedCandidate,
    /// A resolving candidate waits for human review.
    CandidateReviewPending,
    /// Every resolving candidate was rejected: new bounded structure is needed.
    AllCandidatesRejected,
}

impl WorkItemType {
    pub open spec fn name(self) -> Seq<char> {
        match self {
            WorkItemType::ProposeCompletionCandidate => "propose_completion_candidate"@,
            WorkItemType::ApplyAcceptedCandidate => "apply_accepted_candidate"@,
            WorkItemType::CandidateReviewPending => "candidate_review_pending"@,
            WorkItemType::AllCandidatesRejected => "all_candidates_rejected"@,
        }
    }

    pub fn as_str(&self) -> (r: &'static str)
        ensures
            r@ == self.name(),
    {
        match self {
            WorkItemType::ProposeCompletionCandidate => "propose_completion_candidate",
            WorkItemType::ApplyAcceptedCandidate => "apply_accepted_candidate",
            WorkItemType::CandidateReviewPending => "candidate_review_pending",
            WorkItemType::AllCandidatesRejected => "all_candidates_rejected",
        }
    }
}

pub open spec fn item_type_of(s: ResolutionStatus) -> WorkItemType {
    match s {
        ResolutionStatus::NoCandidate => WorkItemType::ProposeCompletionCandidate,
        ResolutionStatus::AcceptedCandidatePendingApplication => WorkItemType::ApplyAcceptedCandidate,
        ResolutionStatus::CandidateReviewPending => WorkItemType::CandidateReviewPending,
        ResolutionStatus::AllCandidatesRejected => WorkItemType::AllCandidatesRejected,
    }
}

/// Statuses an agent can act on without waiting for review or new sources.
pub open spec fn is_frontier(s: ResolutionStatus) -> bool {
    s == ResolutionStatus::NoCandidate || s == ResolutionStatus::AcceptedCandidatePendingApplication
}

/// A frontier or waiting item derived from one resolution entry.
pub struct WorkItem {
    pub item_type: WorkItemType,
    pub obstruction_id: String,
    pub resolution_status: ResolutionStatus,
    pub blocked_ids: Vec<String>,
    pub recommended_completion_types: Vec<String>,
    pub candidate_ids: Vec<String>,
    pub accepted_candidate_ids: Vec<String>,
}

pub struct WorkItemView {
    pub item_type: WorkItemType,
    pub obstruction_id: Seq<char>,
    pub resolution_status: ResolutionStatus,
    pub blocked_ids: Seq<Seq<char>>,
    pub recommended_completion_types: Seq<Seq<char>>,
    pub candidate_ids: Seq<Seq<char>>,
    pub accepted_candidate_ids: Seq<Seq<char>>,
}

impl View for WorkItem {
    type V = WorkItemView;

    open spec fn view(&self) -> WorkItemView {
        WorkItemView {
            item_type: self.item_type,
            obstruction_id: self.obstruction_id@,
            resolution_status: self.resolution_status,
            blocked_ids: views(self.blocked_ids@),
            recommended_completion_types: views(self.recommended_completion_types@),
            candidate_ids: views(self.candidate_ids@),
            accepted_candidate_ids: views(self.accepted_candidate_ids@),
        }
    }
}

pub open spec fn item_spec(e: ResolutionEntryView) -> WorkItemView {
    WorkItemView {
        item_type: item_type_of(e.resolution_status),
        obstruction_id: e.obstruction_id,
        resolution_status: e.resolution_status,
        blocked_ids: e.blocked_ids,
        recommended_completion_types: e.recommended_completion_types,
        candidate_ids: e.candidate_ids,
        accepted_candidate_ids: e.accepted_candidate_ids,
    }
}

pub open spec fn item_if(frontier: bool) -> spec_fn(ResolutionEntryView) -> Option<WorkItemView> {
    |e: ResolutionEntryView|
        if is_frontier(e.resolution_status) == frontier {
            Some(item_spec(e))
        } else {
            None
        }
}

pub open spec fn item_views(s: Seq<WorkItem>) -> Seq<WorkItemView> {
    s.map_values(|w: WorkItem| w@)
}

fn work_item(e: &ResolutionEntry) -> (r: WorkItem)
    ensures
        r@ == item_spec(e@),
{
    let item_type = match e.resolution_status {
        ResolutionStatus::NoCandidate => WorkItemType::ProposeCompletionCandidate,
        ResolutionStatus::AcceptedCandidatePendingApplication => WorkItemType::ApplyAcceptedCandidate,
        ResolutionStatus::CandidateReviewPending => WorkItemType::CandidateReviewPending,
        ResolutionStatus::AllCandidatesRejected => WorkItemType::AllCandidatesRejected,
    };
    WorkItem {
        item_type,
        obstruction_id: e.obstruction_id.clone(),
        resolution_status: e.resolution_status,
        blocked_ids: clone_strings(&e.blocked_ids),
        recommended_completion_types: clone_strings(&e.recommended_completion_types),
        candidate_ids: clone_strings(&e.candidate_ids),
        accepted_candidate_ids: clone_strings(&e.accepted_candidate_ids),
    }
}

fn select_items(state: &Vec<ResolutionEntry>, frontier: bool) -> (r: Vec<WorkItem>)
    ensures
        item_views(r@) == entry_views(state@).filter_map(item_if(frontier)),
{
    let ghost f = item_if(frontier);
    let mut out: Vec<WorkItem> = Vec::new();
    let mut i: usize = 0;
    while i < state.len()
        invariant
            i <= state.len(),
            f == item_if(frontier),
            item_views(out@) == entry_views(state@).take(i as int).filter_map(f),
        decreases state.len() - i,
    {
        proof {
            entry_views(state@).lemma_filter_map_take_succ(f, i as int);
            assert(entry_views(state@).take(i + 1) =~= entry_views(state@.take(i + 1)));
        }
        let e = &state[i];
        let frontier_status = match e.resolution_status {
            ResolutionStatus::NoCandidate => true,
            ResolutionStatus::AcceptedCandidatePendingApplication => true,
            _ => false,
        };
        let ghost old_out = out@;
        if frontier_status == frontier {
            let w = work_item(e);
            let ghost wv = w@;
            out.push(w);
            assert(item_views(out@) =~= item_views(old_out).push(wv));
        }
        i = i + 1;
    }
    assert(entry_views(state@).take(state@.len() as int) =~= entry_views(state@));
    out
}

/// Agent-actionable work: blockers with no candidate yet (propose one) and blockers
/// whose accepted candidate waits for its structure, in state order.
pub fn frontier_items(state: &Vec<ResolutionEntry>) -> (r: Vec<WorkItem>)
    ensures
        item_views(r@) == entry_views(state@).filter_map(item_if(true)),
{
    select_items(state, true)
}

/// Blockers that wait on human review or on new bounded source structure, in state order.
pub fn waiting_items(state: &Vec<ResolutionEntry>) -> (r: Vec<WorkItem>)
    ensures
        item_views(r@) == entry_views(state@).filter_map(item_if(false)),
{
    select_items(state, false)
}

/// Every resolution entry becomes exactly one work item: frontier and waiting items
/// together are as many as the entries.
pub proof fn law_frontier_and_waiting_partition_state(state: Seq<ResolutionEntryView>)
    ensures
        state.filter_map(item_if(true)).len() + state.filter_map(item_if(false)).len() == state.len(),
    decreases state.len(),
{
    if state.len() > 0 {
        let rest = state.drop_last();
        law_frontier_and_waiting_partition_state(rest);
        assert(state.take(state.len() - 1) =~= rest);
        assert(state.take(state.len() as int) =~= state);
        state.lemma_filter_map_take_succ(item_if(true), state.len() - 1);
        state.lemma_filter_map_take_succ(item_if(false), state.len() - 1);
    }
}

/// Application requirements never name a rejected candidate: with an accepted
/// resolving candidate they list only accepted ones, and without one they skip
/// rejected candidates. Every entry declares that it does not clear its obstruction
/// until the structure changes.
pub proof fn law_requirements_exclude_rejected(blockers: Seq<Obstruction>, cands: Seq<Candidate>, e: ResolutionEntryView, a: ApplicationRequirementView)
    requires
        state_spec(blockers, cands, true).contains(e),
        e.application_requirements.contains(a),
    ensures
        a.review_status != "rejected"@,
        e.resolution_status == ResolutionStatus::AcceptedCandidatePendingApplication ==> a.review_status == "accepted"@,
        e.close_effect == CLOSE_EFFECT@,
{
    blockers.lemma_filter_map_contains(entry_of(cands, true), e);
    let b = choose|b: Obstruction| #[trigger] blockers.contains(b) && entry_of(cands, true)(b) == Some(e);
    let oid = b.id.unwrap()@;
    cands.lemma_filter_map_contains(requirement_of(b, oid, cands, true), a);
    let c = choose|c: Candidate| #[trigger] cands.contains(c) && requirement_of(b, oid, cands, true)(c) == Some(a);
    reveal_strlit("accepted");
    reveal_strlit("rejected");
    reveal_strlit("unknown");
    assert("accepted"@[0] != "rejected"@[0]);
    assert("unknown"@[0] != "rejected"@[0]);
    assert(applicable(oid, cands, c, true));
    assert(requirement_spec(b, c) == Some(a));
    assert(a.review_status == view_or(c.review_status, "unknown"@));
    if e.resolution_status == ResolutionStatus::AcceptedCandidatePendingApplication {
        assert(has_accepted(oid, cands));
    }
}

proof fn lemma_requirement_structure(blockers: Seq<Obstruction>, cands: Seq<Candidate>, exclude_rejected: bool, e: ResolutionEntryView, a: ApplicationRequirementView)
    requires
        state_spec(blockers, cands, exclude_rejected).contains(e),
        e.application_requirements.contains(a),
    ensures
        a.required_cell_types == contract_cells(contract_kind(a.candidate_type)),
        a.required_relation_types == contract_relations(contract_kind(a.candidate_type)),
        a.next_structural_step == contract_step(contract_kind(a.candidate_type)),
{
    blockers.lemma_filter_map_contains(entry_of(cands, exclude_rejected), e);
    let b = choose|b: Obstruction| #[trigger] blockers.contains(b) && entry_of(cands, exclude_rejected)(b) == Some(e);
    let oid = b.id.unwrap()@;
    cands.lemma_filter_map_contains(requirement_of(b, oid, cands, exclude_rejected), a);
    let c = choose|c: Candidate|
        #[trigger] cands.contains(c) && requirement_of(b, oid, cands, exclude_rejected)(c) == Some(a);
    assert(requirement_spec(b, c) == Some(a));
}

/// What applying a candidate must add is fixed by its type, in every resolution entry:
/// an ownership clarification asks for an owner cell and an `owns` incidence; a proposed
/// test or metric for a verification cell and a `verifies` incidence; a proposed
/// interface for an interface cell with `uses` and `provides`; a proposed refactor for a
/// refactor action and a `replaces` incidence; any other type for reviewed structure
/// that `resolves` the obstruction.
pub proof fn law_application_requirements_follow_candidate_type(
    blockers: Seq<Obstruction>,
    cands: Seq<Candidate>,
    exclude_rejected: bool,
    e: ResolutionEntryView,
    a: ApplicationRequirementView,
)
    requires
        state_spec(blockers, cands, exclude_rejected).contains(e),
        e.application_requirements.contains(a),
    ensures
        a.candidate_type == "ownership_clarification"@ ==> a.required_cell_types == seq!["owner"@]
            && a.required_relation_types == seq!["owns"@] && a.next_structural_step
            == "add owner cell and owns incidence to the blocked action, then rerun check and case reason"@,
        a.candidate_type == "proposed_test"@ || a.candidate_type == "define_metric"@ ==> a.required_cell_types
            == seq!["test_or_verification"@] && a.required_relation_types == seq!["verifies"@]
            && a.next_structural_step
            == "add verification cell and verifies incidence to the blocked requirement, then rerun check and case reason"@,
        a.candidate_type == "proposed_interface"@ ==> a.required_cell_types == seq!["interface"@]
            && a.required_relation_types == seq!["uses"@, "provides"@] && a.next_structural_step
            == "add interface cell and boundary-safe incidences, then rerun check and case reason"@,
        a.candidate_type == "proposed_refactor_action"@ ==> a.required_cell_types == seq!["refactor_action"@]
            && a.required_relation_types == seq!["replaces"@] && a.next_structural_step
            == "add refactor action cell and replacement incidence, then rerun check and case reason"@,
        a.candidate_type != "ownership_clarification"@ && a.candidate_type != "proposed_test"@ && a.candidate_type
            != "define_metric"@ && a.candidate_type != "proposed_interface"@ && a.candidate_type
            != "proposed_refactor_action"@ ==> a.required_cell_types == seq!["reviewed_structure"@]
            && a.required_relation_types == seq!["resolves"@] && a.next_structural_step
            == "add reviewed structure linked to the obstruction, then rerun check and case reason"@,
{
    lemma_requirement_structure(blockers, cands, exclude_rejected, e, a);
    reveal_strlit("ownership_clarification");
    reveal_strlit("proposed_test");
    reveal_strlit("define_metric");
    reveal_strlit("proposed_interface");
    reveal_strlit("proposed_refactor_action");
    assert("ownership_clarification"@.len() == 23 && "proposed_test"@.len() == 13 && "define_metric"@.len() == 13);
    assert("proposed_interface"@.len() == 18 && "proposed_refactor_action"@.len() == 24);
}

/// Frontier items are the blockers an agent can act on now: one with no candidate
/// (propose one) or with an accepted candidate (apply it). Waiting items are the others:
/// every candidate rejected, or a candidate still awaiting review.
pub proof fn law_work_items_by_status(state: Seq<ResolutionEntryView>, w: WorkItemView)
    ensures
        state.filter_map(item_if(true)).contains(w) ==> (w.resolution_status == ResolutionStatus::NoCandidate
            && w.item_type == WorkItemType::ProposeCompletionCandidate) || (w.resolution_status
            == ResolutionStatus::AcceptedCandidatePendingApplication && w.item_type
            == WorkItemType::ApplyAcceptedCandidate),
        state.filter_map(item_if(false)).contains(w) ==> (w.resolution_status == ResolutionStatus::AllCandidatesRejected
            && w.item_type == WorkItemType::AllCandidatesRejected) || (w.resolution_status
            == ResolutionStatus::CandidateReviewPending && w.item_type == WorkItemType::CandidateReviewPending),
{
    if state.filter_map(item_if(true)).contains(w) {
        state.lemma_filter_map_contains(item_if(true), w);
    }
    if state.filter_map(item_if(false)).contains(w) {
        state.lemma_filter_map_contains(item_if(false), w);
    }
}

/// A blocker's status follows the reviews of the candidates that name it: any accepted
/// one makes it accepted-pending-application; with none accepted, no naming candidate
/// leaves it without candidate, only rejected ones make it all-rejected, and any other
/// keeps the review pending.
pub proof fn law_resolution_status_by_reviews(b: Obstruction, cands: Seq<Candidate>, exclude_rejected: bool)
    requires
        b.id is Some,
    ensures
        ({
            let oid = b.id.unwrap()@;
            let status = entry_spec(b, cands, exclude_rejected).unwrap().resolution_status;
            let names = |c: Candidate| has_view(c.resolves_obstruction_ids@, oid);
            let accepted = exists|i: int|
                0 <= i < cands.len() && names(cands[i]) && #[trigger] opt_is(cands[i].review_status, "accepted"@);
            &&& accepted ==> status == ResolutionStatus::AcceptedCandidatePendingApplication
            &&& !accepted && (forall|i: int| 0 <= i < cands.len() ==> !names(#[trigger] cands[i])) ==> status
                == ResolutionStatus::NoCandidate
            &&& !accepted && (exists|i: int| 0 <= i < cands.len() && #[trigger] names(cands[i])) && (forall|i: int|
                0 <= i < cands.len() && names(#[trigger] cands[i]) ==> opt_is(cands[i].review_status, "rejected"@))
                ==> status == ResolutionStatus::AllCandidatesRejected
            &&& !accepted && (exists|i: int|
                0 <= i < cands.len() && names(cands[i]) && !#[trigger] opt_is(cands[i].review_status, "rejected"@))
                ==> status == ResolutionStatus::CandidateReviewPending
        }),
{
    let oid = b.id.unwrap()@;
    if has_accepted(oid, cands) {
        let i = choose|i: int| 0 <= i < cands.len() && resolves(#[trigger] cands[i], oid) && is_accepted(cands[i]);
        assert(opt_is(cands[i].review_status, "accepted"@));
    }
    if has_resolving(oid, cands) {
        let i = choose|i: int| 0 <= i < cands.len() && resolves(#[trigger] cands[i], oid);
        assert(has_view(cands[i].resolves_obstruction_ids@, oid));
    }
}

/// An accepted resolving candidate always puts its blocker in the
/// accepted-pending-application status, whatever the other candidates say.
pub proof fn law_accepted_candidate_takes_precedence(b: Obstruction, cands: Seq<Candidate>, i: int)
    requires
        b.id is Some,
        0 <= i < cands.len(),
        resolves(cands[i], b.id.unwrap()@),
        is_accepted(cands[i]),
    ensures
        entry_spec(b, cands, true).unwrap().resolution_status == ResolutionStatus::AcceptedCandidatePendingApplication,
        entry_spec(b, cands, false).unwrap().resolution_status == ResolutionStatus::AcceptedCandidatePendingApplication,
{
}

/// Unreviewed candidates are never taken as accepted: while no resolving candidate of a
/// blocker was accepted, its status is never accepted-pending-application, and it
/// lists no accepted candidate.
pub proof fn law_unaccepted_candidates_never_count_as_accepted(b: Obstruction, cands: Seq<Candidate>, exclude_rejected: bool)
    requires
        b.id is Some,
        forall|i: int| 0 <= i < cands.len() && resolves(#[trigger] cands[i], b.id.unwrap()@) ==> !is_accepted(cands[i]),
    ensures
        entry_spec(b, cands, exclude_rejected).unwrap().resolution_status
            != ResolutionStatus::AcceptedCandidatePendingApplication,
        entry_spec(b, cands, exclude_rejected).unwrap().accepted_candidate_ids.len() == 0,
{
    lemma_no_accepted_ids(b.id.unwrap()@, cands);
}

proof fn lemma_no_accepted_ids(oid: Seq<char>, cands: Seq<Candidate>)
    requires
        forall|i: int| 0 <= i < cands.len() && resolves(#[trigger] cands[i], oid) ==> !is_accepted(cands[i]),
    ensures
        resolving_ids(oid, cands, true).len() == 0,
    decreases cands.len(),
{
    if cands.len() > 0 {
        let pre = cands.drop_last();
        assert forall|i: int| 0 <= i < pre.len() && resolves(#[trigger] pre[i], oid) implies !is_accepted(pre[i]) by {
            assert(pre[i] == cands[i]);
        }
        lemma_no_accepted_ids(oid, pre);
        assert(cands.last() == cands[cands.len() - 1]);
    }
}

/// Candidates never clear a blocker: whatever the candidates and their reviews, the
/// resolution state lists the same blockers, in the same order, until the blockers
/// themselves change.
pub proof fn law_candidates_never_clear_blockers(
    blockers: Seq<Obstruction>,
    cands1: Seq<Candidate>,
    cands2: Seq<Candidate>,
    exclude_rejected: bool,
)
    ensures
        state_spec(blockers, cands1, exclude_rejected).len() == state_spec(blockers, cands2, exclude_rejected).len(),
        forall|i: int|
            0 <= i < state_spec(blockers, cands1, exclude_rejected).len() ==> (#[trigger] state_spec(
                blockers,
                cands1,
                exclude_rejected,
            )[i]).obstruction_id == state_spec(blockers, cands2, exclude_rejected)[i].obstruction_id,
    decreases blockers.len(),
{
    if blockers.len() > 0 {
        let pre = blockers.drop_last();
        law_candidates_never_clear_blockers(pre, cands1, cands2, exclude_rejected);
        let s1 = state_spec(blockers, cands1, exclude_rejected);
        let s2 = state_spec(blockers, cands2, exclude_rejected);
        let p1 = state_spec(pre, cands1, exclude_rejected);
        let p2 = state_spec(pre, cands2, exclude_rejected);
        let b = blockers.last();
        if b.id is Some {
            assert(s1 == p1 + seq![entry_spec(b, cands1, exclude_rejected).unwrap()]);
            assert(s2 == p2 + seq![entry_spec(b, cands2, exclude_rejected).unwrap()]);
            assert forall|i: int| 0 <= i < s1.len() implies (#[trigger] s1[i]).obstruction_id == s2[i].obstruction_id by {
                if i < p1.len() {
                    assert(s1[i] == p1[i] && s2[i] == p2[i]);
                }
            }
        } else {
            assert(s1 == p1);
            assert(s2 == p2);
        }
    }
}

} // verus!
