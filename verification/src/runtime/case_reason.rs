//! Case reasoning: the state an agent resumes from. The case's space is checked,
//! completions are proposed for its obstructions, the logged reviews are replayed onto
//! them, and the blocker resolution state, the work items, the close status and the
//! ai_agent projection are derived from the result. The close check decides, at a
//! given base revision, whether the case may close.
use vstd::prelude::*;
use crate::interpretation::TECHNICAL_ADVISORY_RULESET;
use crate::model::{
    clone_strings, opt_view, text, views, AdvisoryError, Candidate, Obstruction, ObstructionView,
    obstruction_views, Space,
};
use crate::projection::{build_projection, projection_ok, Audience, Projection, ProjectionBody, ProjectionReport};
use crate::reasoning::completions::{
    all_candidates_spec, proposal_ids_valid, propose_completions, CompletionReport, ProposedCandidate,
    ProposedCandidateView, UNREVIEWED,
};
use crate::reasoning::resolution::{
    blocker_resolution_state, entry_views, frontier_items, item_if, item_views, state_spec, waiting_items,
    ResolutionEntry, WorkItem,
};
use crate::reasoning::{
    blocking_id_of, blocking_positions, check_space, close_status, findings_spec, is_blocking, obstruction_views_of,
    CheckReport, CloseStatus, Finding,
};
use crate::runtime::{ensure_base_revision, trim_ws};
use crate::runtime::case_review::{apply_candidate_reviews, latest_review, LogEntry, ReviewSummary};
use crate::sorting::{key_views, stable_sort_by_key};
use crate::text::starts_with;

verus! {

/// What case reasoning derives for one case head.
pub struct CaseReason {
    pub case_head_revision: String,
    /// The check of the case's space.
    pub check: CheckReport,
    /// The completions proposed for the check's obstructions.
    pub completions: CompletionReport,
    /// Per proposed candidate, the logged review it took, if any.
    pub reviews: Vec<Option<ReviewSummary>>,
    pub blocker_resolution_state: Vec<ResolutionEntry>,
    pub frontier_items: Vec<WorkItem>,
    pub waiting_items: Vec<WorkItem>,
    pub close_status: CloseStatus,
    /// The ai_agent projection; its open obstructions are the case's blockers and its
    /// candidate review state the candidates after review replay.
    pub projection: Projection,
}

/// The blockers of a case reasoning: the open obstructions of its projection.
pub open spec fn case_blockers(c: CaseReason) -> Seq<Obstruction> {
    match c.projection.body {
        ProjectionBody::AiAgent { open_obstructions, .. } => open_obstructions@,
        _ => Seq::empty(),
    }
}

/// The candidates of a case reasoning after review replay: the candidate review state
/// of its projection.
pub open spec fn case_candidates(c: CaseReason) -> Seq<Candidate> {
    match c.projection.body {
        ProjectionBody::AiAgent { candidate_review_state, .. } => candidate_review_state@,
        _ => Seq::empty(),
    }
}

/// The review status a proposed candidate has after replay: the outcome of its latest
/// logged review, `unreviewed` when there is none.
pub open spec fn replayed_status(p: ProposedCandidateView, entries: Seq<LogEntry>, space_id: Seq<char>) -> Option<Seq<char>> {
    match latest_review(entries, space_id, p.id) {
        Some(r) => opt_view(r.outcome),
        None => Some(UNREVIEWED@),
    }
}

/// `c` is proposed candidate `p` as the case sees it after review replay.
pub open spec fn replayed_from(c: Candidate, p: ProposedCandidateView, entries: Seq<LogEntry>, space_id: Seq<char>) -> bool {
    &&& opt_view(c.id) == Some(p.id)
    &&& opt_view(c.candidate_type) == Some(p.candidate_type)
    &&& views(c.resolves_obstruction_ids@) == p.resolves_obstruction_ids
    &&& opt_view(c.specificity) == Some(p.specificity)
    &&& c.proposal_content is None
    &&& opt_view(c.review_status) == replayed_status(p, entries, space_id)
}

/// The report the case's projection is built from: the check's obstructions and,
/// as a related completions report, the candidates after replay.
pub open spec fn agent_report_of(rep: ProjectionReport, blockers: Seq<Obstruction>, candidates: Seq<Candidate>) -> bool {
    &&& rep.obstructions@ == blockers
    &&& rep.candidates@.len() == 0
    &&& rep.related_candidates@ == candidates
    &&& rep.json@.len() == 0
}

/// Everything case reasoning derives, for a space, its logged entries and head.
pub open spec fn case_reason_ok(c: CaseReason, space: Space, entries: Seq<LogEntry>, space_id: Seq<char>, head: Seq<char>) -> bool {
    let blockers = case_blockers(c);
    let candidates = case_candidates(c);
    let proposed = key_views(c.completions.candidates@);
    &&& c.case_head_revision@ == head
    &&& c.check.space_id@ == space.space_id@
    &&& c.check.ruleset@ == TECHNICAL_ADVISORY_RULESET@
    &&& key_views(c.check.findings@) == stable_sort_by_key::<Finding>(findings_spec(space))
    &&& c.projection.body is AiAgent
    &&& obstruction_views(blockers) == obstruction_views_of(key_views(c.check.findings@))
    &&& c.completions.space_id@ == space.space_id@
    &&& c.completions.from_report@ == "case_reason"@
    &&& proposed == stable_sort_by_key::<ProposedCandidate>(all_candidates_spec(space.cells@, blockers))
    &&& candidates.len() == proposed.len()
    &&& c.reviews@.len() == proposed.len()
    &&& (forall|i: int|
        0 <= i < proposed.len() ==> replayed_from(#[trigger] candidates[i], proposed[i], entries, space_id)
            && c.reviews@[i] == latest_review(entries, space_id, proposed[i].id))
    &&& entry_views(c.blocker_resolution_state@) == state_spec(blockers, candidates, true)
    &&& item_views(c.frontier_items@) == entry_views(c.blocker_resolution_state@).filter_map(item_if(true))
    &&& item_views(c.waiting_items@) == entry_views(c.blocker_resolution_state@).filter_map(item_if(false))
    &&& c.close_status.space_id@ == space.space_id@
    &&& c.close_status.blocking_threshold@ == "medium"@
    &&& c.close_status.closeable == (forall|i: int|
        0 <= i < blockers.len() ==> !is_blocking(#[trigger] obstruction_views(blockers)[i]))
    &&& views(c.close_status.blocking_obstruction_ids@) == obstruction_views(blockers).filter_map(blocking_id_of())
    &&& exists|rep: ProjectionReport|
        agent_report_of(rep, blockers, candidates) && #[trigger] projection_ok(c.projection, Audience::AiAgent, space, rep)
}

/// Case reasoning and the ai_agent projection agree: the blocker resolution state, the
/// frontier and waiting items and the close status that case reasoning reports are
/// those its projection carries, derived from the same blockers and replayed candidates.
pub proof fn law_case_state_is_projection_state(
    c: CaseReason,
    space: Space,
    entries: Seq<LogEntry>,
    space_id: Seq<char>,
    head: Seq<char>,
)
    requires
        case_reason_ok(c, space, entries, space_id, head),
    ensures
        match c.projection.body {
            ProjectionBody::AiAgent { blocker_resolution_state, frontier_items, waiting_items, close_status, .. } => {
                &&& entry_views(blocker_resolution_state@) == entry_views(c.blocker_resolution_state@)
                &&& item_views(frontier_items@) == item_views(c.frontier_items@)
                &&& item_views(waiting_items@) == item_views(c.waiting_items@)
                &&& close_status.closeable == c.close_status.closeable
                &&& views(close_status.blocking_obstruction_ids@) == views(c.close_status.blocking_obstruction_ids@)
            },
            _ => false,
        },
{
    let rep = choose|rep: ProjectionReport|
        agent_report_of(rep, case_blockers(c), case_candidates(c)) && #[trigger] projection_ok(
            c.projection,
            Audience::AiAgent,
            space,
            rep,
        );
    assert(rep.candidates@ + rep.related_candidates@ =~= case_candidates(c));
}

/// A proposed candidate as a report candidate: unreviewed, without proposal content.
fn report_candidate(p: &ProposedCandidate) -> (r: Candidate)
    ensures
        opt_view(r.id) == Some(p@.id),
        opt_view(r.candidate_type) == Some(p@.candidate_type),
        views(r.resolves_obstruction_ids@) == p@.resolves_obstruction_ids,
        opt_view(r.specificity) == Some(p@.specificity),
        r.proposal_content is None,
        opt_view(r.review_status) == Some(UNREVIEWED@),
{
    Candidate {
        id: Some(p.id.clone()),
        candidate_type: Some(p.candidate_type.clone()),
        review_status: Some(text(UNREVIEWED)),
        resolves_obstruction_ids: clone_strings(&p.resolves_obstruction_ids),
        specificity: Some(p.metadata.specificity.clone()),
        proposal_content: None,
    }
}

/// Reasons about a case at revision `head`: checks `space` with the technical advisory
/// ruleset, proposes completions for the obstructions found, replays the reviews of
/// `entries` (the readable entries of the store-wide log, then of the space's own log)
/// onto the candidates, and derives the blocker resolution state (rejected candidates
/// left out of the application requirements), the frontier and waiting items, the
/// close status and the ai_agent projection. It fails only where the proposal does:
/// when an id it would carry is not a valid HigherGraphen id.
pub fn case_reason(space: &Space, entries: &Vec<LogEntry>, space_id: &str, head: &str) -> (r: Result<
    CaseReason,
    AdvisoryError,
>)
    ensures
        match r {
            Ok(c) => case_reason_ok(c, *space, entries@, space_id@, head@),
            Err(e) => e is Validation && starts_with(e->Validation_0@, "higher-graphen completion: "@) && exists|
                obs: Seq<Obstruction>,
            |
                obstruction_views(obs) == obstruction_views_of(stable_sort_by_key::<Finding>(findings_spec(*space)))
                    && !#[trigger] proposal_ids_valid(*space, all_candidates_spec(space.cells@, obs)),
        },
{
    let check = match check_space(space, TECHNICAL_ADVISORY_RULESET, None) {
        Ok(c) => c,
        Err(e) => {
            assert(false);
            return Err(e);
        },
    };
    let obstructions = check.obstructions();
    let completions = match propose_completions(space, &obstructions, "case_reason") {
        Ok(c) => c,
        Err(e) => {
            assert(!proposal_ids_valid(*space, all_candidates_spec(space.cells@, obstructions@)));
            return Err(e);
        },
    };
    let ghost proposed = key_views(completions.candidates@);
    let mut candidates: Vec<Candidate> = Vec::new();
    let mut i: usize = 0;
    while i < completions.candidates.len()
        invariant
            i <= completions.candidates.len(),
            proposed == key_views(completions.candidates@),
            candidates@.len() == i,
            forall|k: int|
                0 <= k < i ==> {
                    let c = #[trigger] candidates@[k];
                    &&& opt_view(c.id) == Some(proposed[k].id)
                    &&& opt_view(c.candidate_type) == Some(proposed[k].candidate_type)
                    &&& views(c.resolves_obstruction_ids@) == proposed[k].resolves_obstruction_ids
                    &&& opt_view(c.specificity) == Some(proposed[k].specificity)
                    &&& c.proposal_content is None
                    &&& opt_view(c.review_status) == Some(UNREVIEWED@)
                },
        decreases completions.candidates.len() - i,
    {
        let ghost old = candidates@;
        let c = report_candidate(&completions.candidates[i]);
        candidates.push(c);
        assert forall|k: int| 0 <= k < i + 1 implies {
            let c = #[trigger] candidates@[k];
            &&& opt_view(c.id) == Some(proposed[k].id)
            &&& opt_view(c.candidate_type) == Some(proposed[k].candidate_type)
            &&& views(c.resolves_obstruction_ids@) == proposed[k].resolves_obstruction_ids
            &&& opt_view(c.specificity) == Some(proposed[k].specificity)
            &&& c.proposal_content is None
            &&& opt_view(c.review_status) == Some(UNREVIEWED@)
        } by {
            if k < i {
                assert(candidates@[k] == old[k]);
            }
        }
        i = i + 1;
    }
    let ghost before = candidates@;
    let reviews = apply_candidate_reviews(entries, space_id, &mut candidates);
    proof {
        assert forall|k: int| 0 <= k < proposed.len() implies replayed_from(
            #[trigger] candidates@[k],
            proposed[k],
            entries@,
            space_id@,
        ) && reviews@[k] == latest_review(entries@, space_id@, proposed[k].id) by {
            let b = before[k];
            assert(b.id == Some(b.id.unwrap()));
            assert(b.id.unwrap()@ == proposed[k].id);
        }
    }
    let state = blocker_resolution_state(&obstructions, &candidates);
    let frontier = frontier_items(&state);
    let waiting = waiting_items(&state);
    let status = close_status(space.space_id.as_str(), &obstructions);
    let ghost blockers = obstructions@;
    let ghost cands = candidates@;
    let report = ProjectionReport {
        obstructions,
        candidates: Vec::new(),
        related_candidates: candidates,
        json: String::new(),
    };
    let ghost rep = report;
    assert(agent_report_of(rep, blockers, cands));
    let projection = match build_projection(space, report, "ai_agent") {
        Ok(p) => p,
        Err(e) => {
            proof {
                reveal_strlit("ai_agent");
            }
            assert(false);
            return Err(e);
        },
    };
    proof {
        reveal_strlit("ai_agent");
        reveal_strlit("executive");
        reveal_strlit("client_review");
        reveal_strlit("cli");
        reveal_strlit("developer_action");
        reveal_strlit("audit_trace");
        assert("ai_agent"@.len() == 8 && "executive"@.len() == 9 && "client_review"@.len() == 13);
        assert("cli"@.len() == 3 && "developer_action"@.len() == 16 && "audit_trace"@.len() == 11);
        assert(Audience::parse_spec("ai_agent"@) == Some(Audience::AiAgent));
        assert(rep.candidates@ + rep.related_candidates@ =~= cands);
    }
    let c = CaseReason {
        case_head_revision: text(head),
        check,
        completions,
        reviews,
        blocker_resolution_state: state,
        frontier_items: frontier,
        waiting_items: waiting,
        close_status: status,
        projection,
    };
    assert(case_blockers(c) == blockers);
    assert(case_candidates(c) == cands);
    Ok(c)
}

/// What the close check of a case derives: the check of its space and the close status
/// of the obstructions found.
pub struct CaseCloseCheck {
    pub check: CheckReport,
    pub close_status: CloseStatus,
}

/// The close check of `space`: the technical advisory check in report order, and the
/// close status of its obstructions.
pub open spec fn close_check_ok(c: CaseCloseCheck, space: Space) -> bool {
    let obs = obstruction_views_of(key_views(c.check.findings@));
    &&& c.check.space_id@ == space.space_id@
    &&& c.check.ruleset@ == TECHNICAL_ADVISORY_RULESET@
    &&& key_views(c.check.findings@) == stable_sort_by_key::<Finding>(findings_spec(space))
    &&& c.close_status.space_id@ == space.space_id@
    &&& c.close_status.blocking_threshold@ == "medium"@
    &&& c.close_status.closeable == (forall|i: int| 0 <= i < obs.len() ==> !is_blocking(#[trigger] obs[i]))
    &&& views(c.close_status.blocking_obstruction_ids@) == obs.filter_map(blocking_id_of())
    &&& c.close_status.blocking_positions@.map_values(|p: usize| p as int) == blocking_positions(obs)
}

/// The base revision names the case head: it is given and equals the head without
/// surrounding white space.
pub open spec fn base_matches(head: Seq<char>, base: Option<&str>) -> bool {
    match base {
        Some(b) => trim_ws(head) == b@,
        None => false,
    }
}

/// Checks whether the case at head `head` may close, for a caller that wrote against
/// `base_revision`: a base that is missing or stale is refused before anything is
/// checked; otherwise `space` is checked and the close status of its obstructions
/// derived.
pub fn case_close_check(space: &Space, head: &str, base_revision: Option<&str>) -> (r: Result<CaseCloseCheck, AdvisoryError>)
    ensures
        match r {
            Ok(c) => base_matches(head@, base_revision) && close_check_ok(c, *space),
            Err(e) => {
                &&& !base_matches(head@, base_revision)
                &&& e is StaleRevision
                &&& e->expected@ == trim_ws(head@)
                &&& e->actual@ == match base_revision {
                    Some(b) => b@,
                    None => "<missing>"@,
                }
            },
        },
{
    match ensure_base_revision(Some(head), base_revision) {
        Ok(_) => {},
        Err(e) => return Err(e),
    }
    let check = match check_space(space, TECHNICAL_ADVISORY_RULESET, None) {
        Ok(c) => c,
        Err(e) => {
            assert(false);
            return Err(e);
        },
    };
    let obstructions = check.obstructions();
    let status = close_status(space.space_id.as_str(), &obstructions);
    let c = CaseCloseCheck { check, close_status: status };
    assert(obstruction_views(obstructions@) == obstruction_views_of(key_views(c.check.findings@)));
    Ok(c)
}

} // verus!
