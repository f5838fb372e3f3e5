//! Replay of completion reviews from the case logs onto the candidates of a case, and
//! the case's blocker resolution state.
use vstd::prelude::*;
use crate::model::{opt_is, Candidate, Obstruction};
use crate::reasoning::resolution::{
    application_contract as contract_of, contract_cells, contract_kind, contract_relations, contract_step,
    entry_views, resolution_state, state_spec, ApplicationContract, ResolutionEntry,
};
use crate::model::views;
use crate::runtime::REVIEW_EVENT_SCHEMA;
use crate::text::{contains_str, has_view, str_eq};

verus! {

/// What a candidate records of its latest review.
pub struct ReviewSummary {
    pub review_event_id: Option<String>,
    pub outcome: Option<String>,
    pub reviewer_id: Option<String>,
    pub reviewed_at: Option<String>,
    pub reason: Option<String>,
}

fn copy_text(o: &Option<String>) -> (r: Option<String>)
    ensures
        r == *o,
{
    match o {
        Some(s) => Some(s.clone()),
        None => None,
    }
}

impl ReviewSummary {
    /// An identical copy.
    pub fn duplicate(&self) -> (r: ReviewSummary)
        ensures
            r == *self,
    {
        ReviewSummary {
            review_event_id: copy_text(&self.review_event_id),
            outcome: copy_text(&self.outcome),
            reviewer_id: copy_text(&self.reviewer_id),
            reviewed_at: copy_text(&self.reviewed_at),
            reason: copy_text(&self.reason),
        }
    }
}

/// A readable entry of a case log, as review replay reads it.
pub struct LogEntry {
    pub case_space_id: Option<String>,
    /// The `schema` of the entry's payload; `None` without a payload or a text schema.
    pub payload_schema: Option<String>,
    /// The text entries of the payload's `target_ids`.
    pub target_ids: Vec<String>,
    /// The payload's review fields.
    pub summary: ReviewSummary,
}

/// An entry counts for `space_id` when it is a review event logged for that space, for
/// the unknown space, or for no space.
pub open spec fn counts_for(e: LogEntry, space_id: Seq<char>) -> bool {
    &&& match e.case_space_id {
        Some(c) => c@ == space_id || c@ == "space:unknown"@,
        None => true,
    }
    &&& opt_is(e.payload_schema, REVIEW_EVENT_SCHEMA@)
}

/// The latest review of `target` among the entries: later entries override earlier ones.
pub open spec fn latest_review(entries: Seq<LogEntry>, space_id: Seq<char>, target: Seq<char>) -> Option<ReviewSummary>
    decreases entries.len(),
{
    if entries.len() == 0 {
        None
    } else if counts_for(entries.last(), space_id) && has_view(entries.last().target_ids@, target) {
        Some(entries.last().summary)
    } else {
        latest_review(entries.drop_last(), space_id, target)
    }
}

/// The candidate after replay: its review status becomes the outcome of its latest
/// review, when it has an id that some review targets.
pub open spec fn reviewed(c: Candidate, entries: Seq<LogEntry>, space_id: Seq<char>) -> Candidate {
    match c.id {
        Some(id) => match latest_review(entries, space_id, id@) {
            Some(r) => Candidate { review_status: r.outcome, ..c },
            None => c,
        },
        None => c,
    }
}

pub open spec fn review_of(c: Candidate, entries: Seq<LogEntry>, space_id: Seq<char>) -> Option<ReviewSummary> {
    match c.id {
        Some(id) => latest_review(entries, space_id, id@),
        None => None,
    }
}

/// The latest review of `target`.
fn find_latest(entries: &Vec<LogEntry>, space_id: &str, target: &str) -> (r: Option<ReviewSummary>)
    ensures
        r == latest_review(entries@, space_id@, target@),
{
    let mut i: usize = entries.len();
    assert(entries@.take(i as int) =~= entries@);
    while i > 0
        invariant
            i <= entries.len(),
            latest_review(entries@, space_id@, target@) == latest_review(entries@.take(i as int), space_id@, target@),
        decreases i,
    {
        let ghost t = entries@.take(i as int);
        assert(t.drop_last() =~= entries@.take(i - 1));
        assert(t.last() == entries@[i - 1]);
        let e = &entries[i - 1];
        let space_ok = match &e.case_space_id {
            Some(c) => str_eq(c.as_str(), space_id) || str_eq(c.as_str(), "space:unknown"),
            None => true,
        };
        let schema_ok = match &e.payload_schema {
            Some(s) => str_eq(s.as_str(), REVIEW_EVENT_SCHEMA),
            None => false,
        };
        if space_ok && schema_ok && contains_str(&e.target_ids, target) {
            return Some(e.summary.duplicate());
        }
        i = i - 1;
    }
    None
}

/// Replays the review events of the case logs onto the candidates: each candidate that
/// a review targets takes the outcome of its latest review as review status. The
/// result holds, per candidate, the review it took.
pub fn apply_candidate_reviews(entries: &Vec<LogEntry>, space_id: &str, candidates: &mut Vec<Candidate>) -> (r: Vec<
    Option<ReviewSummary>,
>)
    ensures
        final(candidates)@.len() == old(candidates)@.len(),
        r@.len() == old(candidates)@.len(),
        forall|i: int|
            0 <= i < old(candidates)@.len() ==> #[trigger] final(candidates)@[i] == reviewed(
                old(candidates)@[i],
                entries@,
                space_id@,
            ) && r@[i] == review_of(old(candidates)@[i], entries@, space_id@),
{
    let ghost orig = candidates@;
    let mut out: Vec<Option<ReviewSummary>> = Vec::new();
    let mut i: usize = 0;
    while i < candidates.len()
        invariant
            i <= candidates.len(),
            candidates@.len() == orig.len(),
            out@.len() == i,
            forall|k: int|
                0 <= k < i ==> #[trigger] candidates@[k] == reviewed(orig[k], entries@, space_id@) && out@[k]
                    == review_of(orig[k], entries@, space_id@),
            forall|k: int| i <= k < orig.len() ==> #[trigger] candidates@[k] == orig[k],
        decreases candidates.len() - i,
    {
        let review = match &candidates[i].id {
            Some(id) => find_latest(entries, space_id, id.as_str()),
            None => None,
        };
        match &review {
            Some(rv) => {
                let mut c = candidates.remove(i);
                c.review_status = copy_text(&rv.outcome);
                candidates.insert(i, c);
            },
            None => {},
        }
        out.push(review);
        i = i + 1;
    }
    out
}

/// The blocker resolution state with rejected candidates kept: while no resolving
/// candidate is accepted, every resolving candidate, rejected ones included, enters the
/// application requirements. Case reasoning and projections use
/// `reasoning::resolution::blocker_resolution_state`, which leaves rejected candidates
/// out; this variant shows what a rejection would otherwise have asked for.
pub fn blocker_resolution_state(blockers: &Vec<Obstruction>, candidates: &Vec<Candidate>) -> (r: Vec<ResolutionEntry>)
    ensures
        entry_views(r@) == state_spec(blockers@, candidates@, false),
{
    resolution_state(blockers, candidates, false)
}

/// The structure that applying a candidate of `candidate_type` must add.
pub fn application_contract(candidate_type: &str) -> (r: ApplicationContract)
    ensures
        views(r.required_cell_types@) == contract_cells(contract_kind(candidate_type@)),
        views(r.required_relation_types@) == contract_relations(contract_kind(candidate_type@)),
        r.next_structural_step@ == contract_step(contract_kind(candidate_type@)),
{
    contract_of(candidate_type)
}

/// Replaying the reviews twice changes nothing more than replaying them once.
pub proof fn law_review_replay_idempotent(c: Candidate, entries: Seq<LogEntry>, space_id: Seq<char>)
    ensures
        reviewed(reviewed(c, entries, space_id), entries, space_id) == reviewed(c, entries, space_id),
{
}

/// A review appended to the log decides its targets: after replay, a candidate it
/// targets carries that review's outcome, whatever earlier reviews said.
pub proof fn law_latest_review_decides(c: Candidate, entries: Seq<LogEntry>, e: LogEntry, space_id: Seq<char>)
    requires
        c.id is Some,
        counts_for(e, space_id),
        has_view(e.target_ids@, c.id.unwrap()@),
    ensures
        reviewed(c, entries.push(e), space_id).review_status == e.summary.outcome,
        review_of(c, entries.push(e), space_id) == Some(e.summary),
{
    assert(entries.push(e).last() == e);
}

} // verus!
