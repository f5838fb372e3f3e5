//! Completion reviews and hypothesis lifecycle events: which report entry a review
//! targets, which identifiers the HigherGraphen review accepts, and the ids that the
//! case log gives each event.
use vstd::prelude::*;
use crate::hg::{hg_id_error, hg_id_valid};
use higher_graphen_core::Id;
use higher_graphen_reasoning::completion::{review_completion, CompletionReviewDecision, CompletionReviewRequest};
use crate::model::{cat, opt_is, opt_view, text, AdvisoryError};
use crate::runtime::{padded6, padded6_text};
use crate::text::{starts_with, str_eq, trim_start_all, trim_start_matches};

verus! {

/// A completion candidate of a report, as a review reads it: its id, its HigherGraphen
/// candidate snapshot as JSON text when it carries one, and the `space_id` that snapshot
/// names.
pub struct ReviewCandidate {
    pub id: Option<String>,
    pub higher_graphen: Option<String>,
    pub snapshot_space_id: Option<String>,
}

/// The positions of the candidates with id `id`.
pub open spec fn matching(cands: Seq<ReviewCandidate>, id: Seq<char>) -> Seq<int>
    decreases cands.len(),
{
    if cands.len() == 0 {
        Seq::empty()
    } else {
        let rest = matching(cands.drop_last(), id);
        if opt_is(cands.last().id, id) {
            rest.push(cands.len() - 1)
        } else {
            rest
        }
    }
}

proof fn lemma_matching_bounds(cands: Seq<ReviewCandidate>, id: Seq<char>)
    ensures
        forall|k: int| 0 <= k < matching(cands, id).len() ==> 0 <= #[trigger] matching(cands, id)[k] < cands.len()
            && opt_is(cands[matching(cands, id)[k]].id, id),
    decreases cands.len(),
{
    if cands.len() > 0 {
        lemma_matching_bounds(cands.drop_last(), id);
    }
}

/// The candidate a review of `candidate_id` targets, or why there is none: the report
/// must list candidates, exactly one of which has that id and a HigherGraphen snapshot.
pub open spec fn target_spec(cands: Option<Seq<ReviewCandidate>>, id: Seq<char>) -> Result<int, Seq<char>> {
    match cands {
        None => Err("from-report must contain result.completion_candidates"@),
        Some(cs) => {
            let m = matching(cs, id);
            if m.len() == 0 {
                Err("candidate "@ + id + " not found in from-report"@)
            } else if m.len() > 1 {
                Err("candidate "@ + id + " appears more than once in from-report"@)
            } else if cs[m[0]].higher_graphen is None {
                Err("candidate "@ + id + " has no higher_graphen snapshot"@)
            } else {
                Ok(m[0])
            }
        },
    }
}

pub open spec fn cands_view(c: &Option<Vec<ReviewCandidate>>) -> Option<Seq<ReviewCandidate>> {
    match c {
        Some(v) => Some(v@),
        None => None,
    }
}

/// The position of the one report candidate that a review of `candidate_id` targets.
pub fn find_higher_graphen_candidate(candidates: &Option<Vec<ReviewCandidate>>, candidate_id: &str) -> (r: Result<
    usize,
    AdvisoryError,
>)
    ensures
        match r {
            Ok(i) => target_spec(cands_view(candidates), candidate_id@) == Ok::<int, Seq<char>>(i as int),
            Err(e) => e is Validation && target_spec(cands_view(candidates), candidate_id@) == Err::<int, Seq<char>>(
                e->Validation_0@,
            ),
        },
{
    let cs = match candidates {
        Some(v) => v,
        None => return Err(AdvisoryError::Validation(text("from-report must contain result.completion_candidates"))),
    };
    let ghost s = cs@;
    let mut found: Option<usize> = None;
    let mut count: usize = 0;
    let mut i: usize = 0;
    while i < cs.len()
        invariant
            i <= cs.len(),
            s == cs@,
            count == if matching(s.take(i as int), candidate_id@).len() < 2 {
                matching(s.take(i as int), candidate_id@).len()
            } else {
                2
            },
            match found {
                Some(f) => matching(s.take(i as int), candidate_id@).len() >= 1 && f == matching(
                    s.take(i as int),
                    candidate_id@,
                )[0],
                None => matching(s.take(i as int), candidate_id@).len() == 0,
            },
        decreases cs.len() - i,
    {
        let ghost t = s.take(i + 1);
        assert(t.drop_last() =~= s.take(i as int));
        assert(t.last() == s[i as int]);
        let hit = match &cs[i].id {
            Some(x) => str_eq(x.as_str(), candidate_id),
            None => false,
        };
        if hit {
            if count == 0 {
                found = Some(i);
            }
            if count < 2 {
                count = count + 1;
            }
        }
        i = i + 1;
    }
    assert(s.take(s.len() as int) =~= s);
    proof {
        lemma_matching_bounds(s, candidate_id@);
    }
    match found {
        None => {
            let mut m = cat("candidate ", candidate_id);
            m.append(" not found in from-report");
            Err(AdvisoryError::Validation(m))
        },
        Some(f) => {
            if count > 1 {
                let mut m = cat("candidate ", candidate_id);
                m.append(" appears more than once in from-report");
                Err(AdvisoryError::Validation(m))
            } else if cs[f].higher_graphen.is_none() {
                let mut m = cat("candidate ", candidate_id);
                m.append(" has no higher_graphen snapshot");
                Err(AdvisoryError::Validation(m))
            } else {
                Ok(f)
            }
        },
    }
}

/// The decision of a completion review.
#[derive(Clone, Copy, Debug, PartialEq, Eq, Structural)]
pub enum ReviewDecision {
    Accepted,
    Rejected,
}

impl ReviewDecision {
    pub open spec fn name(self) -> Seq<char> {
        match self {
            ReviewDecision::Accepted => "accepted"@,
            ReviewDecision::Rejected => "rejected"@,
        }
    }

    /// The decision as review events name it.
    pub fn as_str(&self) -> (r: &'static str)
        ensures
            r@ == self.name(),
    {
        match self {
            ReviewDecision::Accepted => "accepted",
            ReviewDecision::Rejected => "rejected",
        }
    }
}

/// What a completion review request resolves to before the HigherGraphen review runs:
/// the targeted report candidate and the decision.
pub struct ReviewTarget {
    pub candidate_index: usize,
    pub decision: ReviewDecision,
}

/// A review request that passes the checks made before the HigherGraphen review: the
/// targeted candidate is found, both ids are valid HigherGraphen identifiers, and the
/// outcome is a decision.
pub open spec fn review_ready(cands: Option<Seq<ReviewCandidate>>, id: Seq<char>, reviewer: Seq<char>, outcome: Seq<char>) -> bool {
    &&& target_spec(cands, id) is Ok
    &&& hg_id_valid(reviewer)
    &&& hg_id_valid(id)
    &&& (outcome == "accepted"@ || outcome == "rejected"@)
}

/// The message a request that is not ready fails with: the lookup's error first, then a
/// HigherGraphen identifier error, then the unsupported outcome.
pub open spec fn prepare_error(cands: Option<Seq<ReviewCandidate>>, id: Seq<char>, reviewer: Seq<char>, outcome: Seq<char>, message: Seq<char>) -> bool {
    match target_spec(cands, id) {
        Err(m) => message == m,
        Ok(_) => if !hg_id_valid(reviewer) || !hg_id_valid(id) {
            starts_with(message, "higher-graphen runtime: "@)
        } else {
            message == "unsupported completion review outcome: "@ + outcome
        },
    }
}

/// Checks a completion review request: the targeted candidate must be found, the
/// deciding actor's id and the candidate id must be valid HigherGraphen identifiers,
/// and the outcome must be a decision; the first of these that fails is the error.
pub fn prepare_completion_review(
    candidates: &Option<Vec<ReviewCandidate>>,
    candidate_id: &str,
    reviewer: &str,
    outcome: &str,
) -> (r: Result<ReviewTarget, AdvisoryError>)
    ensures
        match r {
            Ok(t) => target_spec(cands_view(candidates), candidate_id@) == Ok::<int, Seq<char>>(
                t.candidate_index as int,
            ) && review_ready(cands_view(candidates), candidate_id@, reviewer@, outcome@) && outcome@
                == t.decision.name(),
            Err(e) => e is Validation && !review_ready(cands_view(candidates), candidate_id@, reviewer@, outcome@)
                && prepare_error(cands_view(candidates), candidate_id@, reviewer@, outcome@, e->Validation_0@),
        },
{
    let index = match find_higher_graphen_candidate(candidates, candidate_id) {
        Ok(i) => i,
        Err(e) => return Err(e),
    };
    proof {
        reveal_strlit("higher-graphen runtime: ");
    }
    match hg_id_error(reviewer) {
        Some(message) => {
            let m = cat("higher-graphen runtime: ", message.as_str());
            assert(m@.subrange(0, "higher-graphen runtime: "@.len() as int) =~= "higher-graphen runtime: "@);
            return Err(AdvisoryError::Validation(m));
        },
        None => {},
    }
    match hg_id_error(candidate_id) {
        Some(message) => {
            let m = cat("higher-graphen runtime: ", message.as_str());
            assert(m@.subrange(0, "higher-graphen runtime: "@.len() as int) =~= "higher-graphen runtime: "@);
            return Err(AdvisoryError::Validation(m));
        },
        None => {},
    }
    let decision = if str_eq(outcome, "accepted") {
        ReviewDecision::Accepted
    } else if str_eq(outcome, "rejected") {
        ReviewDecision::Rejected
    } else {
        return Err(AdvisoryError::Validation(cat("unsupported completion review outcome: ", outcome)));
    };
    Ok(ReviewTarget { candidate_index: index, decision })
}

pub open spec fn str_opt(o: Option<&str>) -> Option<Seq<char>> {
    match o {
        Some(x) => Some(x@),
        None => None,
    }
}

/// Why a review may not be recorded for the spaces it names, if it may not: the report
/// must name its space, the candidate snapshot must name one, and they must be the same.
pub open spec fn space_match_error(report_space: Option<Seq<char>>, snapshot_space: Option<Seq<char>>) -> Option<Seq<char>> {
    match report_space {
        None => Some("from-report must contain input.space_id for completion reviews"@),
        Some(r) => match snapshot_space {
            None => Some("candidate snapshot must contain higher_graphen.space_id"@),
            Some(s) => if r == s {
                None
            } else {
                Some("candidate snapshot space "@ + s + " does not match from-report space "@ + r)
            },
        },
    }
}

/// Checks that a completion report's `input.space_id` and the candidate snapshot's
/// `higher_graphen.space_id` are both present and equal.
pub fn review_space_matches(report_space: Option<&str>, snapshot_space: Option<&str>) -> (r: Result<(), AdvisoryError>)
    ensures
        match r {
            Ok(_) => space_match_error(str_opt(report_space), str_opt(snapshot_space)) is None,
            Err(e) => e is Validation && space_match_error(str_opt(report_space), str_opt(snapshot_space)) == Some(
                e->Validation_0@,
            ),
        },
{
    let r = match report_space {
        Some(r) => r,
        None => return Err(AdvisoryError::Validation(text("from-report must contain input.space_id for completion reviews"))),
    };
    let s = match snapshot_space {
        Some(s) => s,
        None => return Err(AdvisoryError::Validation(text("candidate snapshot must contain higher_graphen.space_id"))),
    };
    if str_eq(r, s) {
        Ok(())
    } else {
        let mut m = cat("candidate snapshot space ", s);
        m.append(" does not match from-report space ");
        m.append(r);
        Err(AdvisoryError::Validation(m))
    }
}

/// What `higher_graphen_reasoning::completion::review_completion` gives for the candidate
/// snapshot `snapshot` (JSON text) and a request for `candidate_id`, decided by the actor
/// id that follows it, with decision `outcome`, `reason` and review time `reviewed_at`:
/// the review record as JSON text, or the error's text.
pub uninterp spec fn hg_review_record(
    snapshot: Seq<char>,
    candidate_id: Seq<char>,
    reviewer: Seq<char>,
    outcome: Seq<char>,
    reason: Seq<char>,
    reviewed_at: Seq<char>,
) -> Result<Seq<char>, Seq<char>>;

/// Runs `review_completion`: the snapshot is read with `serde_json`, the request is built
/// with `Id::new`, `CompletionReviewRequest::new` and `with_reviewed_at`, and the record
/// is written back with `serde_json`. The contract names the result `hg_review_record` of
/// the arguments; which record or error that is, the crate's source decides and the
/// contract leaves unsaid.
#[verifier::external_body]
fn review_candidate_snapshot(
    snapshot: &str,
    candidate_id: &str,
    reviewer: &str,
    decision: ReviewDecision,
    reason: &str,
    reviewed_at: &str,
) -> (r: Result<String, String>)
    ensures
        match r {
            Ok(t) => hg_review_record(snapshot@, candidate_id@, reviewer@, decision.name(), reason@, reviewed_at@)
                == Ok::<Seq<char>, Seq<char>>(t@),
            Err(t) => hg_review_record(snapshot@, candidate_id@, reviewer@, decision.name(), reason@, reviewed_at@)
                == Err::<Seq<char>, Seq<char>>(t@),
        },
{
    let decision = match decision {
        ReviewDecision::Accepted => CompletionReviewDecision::Accepted,
        ReviewDecision::Rejected => CompletionReviewDecision::Rejected,
    };
    let candidate = serde_json::from_str(snapshot).map_err(|e| e.to_string())?;
    let target = Id::new(candidate_id).map_err(|e| e.to_string())?;
    let actor = Id::new(reviewer).map_err(|e| e.to_string())?;
    let request = CompletionReviewRequest::new(target, decision, actor, reason)
        .and_then(|q| q.with_reviewed_at(reviewed_at))
        .map_err(|e| e.to_string())?;
    let record = review_completion(&candidate, request).map_err(|e| e.to_string())?;
    serde_json::to_string(&record).map_err(|e| e.to_string())
}

/// The candidate a ready review targets.
pub open spec fn review_target(cands: Option<Seq<ReviewCandidate>>, id: Seq<char>) -> ReviewCandidate {
    cands.unwrap()[target_spec(cands, id)->Ok_0]
}

/// The HigherGraphen review of the targeted candidate's snapshot.
pub open spec fn target_review(
    cands: Option<Seq<ReviewCandidate>>,
    id: Seq<char>,
    reviewer: Seq<char>,
    outcome: Seq<char>,
    reason: Seq<char>,
    reviewed_at: Seq<char>,
) -> Result<Seq<char>, Seq<char>> {
    hg_review_record(opt_view(review_target(cands, id).higher_graphen).unwrap(), id, reviewer, outcome, reason, reviewed_at)
}

/// What a completion review gives: the checks of the request first, then the match of
/// the report's space with the snapshot's, then the HigherGraphen review record of the
/// targeted snapshot, whose errors read `higher-graphen runtime: ` and the crate's text.
pub open spec fn completion_reviewed(
    cands: Option<Seq<ReviewCandidate>>,
    report_space: Option<Seq<char>>,
    id: Seq<char>,
    reviewer: Seq<char>,
    outcome: Seq<char>,
    reason: Seq<char>,
    reviewed_at: Seq<char>,
    r: Result<(String, ReviewDecision), AdvisoryError>,
) -> bool {
    let space_error = space_match_error(report_space, opt_view(review_target(cands, id).snapshot_space_id));
    match r {
        Ok((record, decision)) => {
            &&& review_ready(cands, id, reviewer, outcome)
            &&& outcome == decision.name()
            &&& space_error is None
            &&& target_review(cands, id, reviewer, outcome, reason, reviewed_at) == Ok::<Seq<char>, Seq<char>>(record@)
        },
        Err(e) => e is Validation && if !review_ready(cands, id, reviewer, outcome) {
            prepare_error(cands, id, reviewer, outcome, e->Validation_0@)
        } else if space_error is Some {
            space_error == Some(e->Validation_0@)
        } else {
            &&& target_review(cands, id, reviewer, outcome, reason, reviewed_at) is Err
            &&& e->Validation_0@ == "higher-graphen runtime: "@ + target_review(
                cands,
                id,
                reviewer,
                outcome,
                reason,
                reviewed_at,
            )->Err_0
        },
    }
}

/// Reviews candidate `candidate_id` of a completion report: finds the one candidate with
/// a HigherGraphen snapshot, checks both ids and the outcome, checks that the report's
/// space is the snapshot's, and builds the HigherGraphen review record of the snapshot
/// with the decision, the reason and the review time. Returns the record as JSON text
/// and the decision.
pub fn higher_graphen_completion_review(
    candidates: &Option<Vec<ReviewCandidate>>,
    report_space_id: Option<&str>,
    candidate_id: &str,
    reviewer: &str,
    outcome: &str,
    reason: &str,
    reviewed_at: &str,
) -> (r: Result<(String, ReviewDecision), AdvisoryError>)
    ensures
        completion_reviewed(
            cands_view(candidates),
            str_opt(report_space_id),
            candidate_id@,
            reviewer@,
            outcome@,
            reason@,
            reviewed_at@,
            r,
        ),
{
    let target = match prepare_completion_review(candidates, candidate_id, reviewer, outcome) {
        Ok(t) => t,
        Err(e) => return Err(e),
    };
    let cs = match candidates {
        Some(v) => v,
        None => {
            assert(false);
            return Err(AdvisoryError::Validation(text("from-report must contain result.completion_candidates")));
        },
    };
    proof {
        lemma_matching_bounds(cs@, candidate_id@);
    }
    let candidate = &cs[target.candidate_index];
    let snapshot_space: Option<&str> = match &candidate.snapshot_space_id {
        Some(x) => Some(x.as_str()),
        None => None,
    };
    match review_space_matches(report_space_id, snapshot_space) {
        Ok(_) => {},
        Err(e) => return Err(e),
    }
    let snapshot = match &candidate.higher_graphen {
        Some(x) => x,
        None => {
            assert(false);
            return Err(AdvisoryError::Validation(text("candidate has no higher_graphen snapshot")));
        },
    };
    proof {
        reveal_strlit("higher-graphen runtime: ");
    }
    match review_candidate_snapshot(snapshot.as_str(), candidate_id, reviewer, target.decision, reason, reviewed_at) {
        Ok(record) => Ok((record, target.decision)),
        Err(message) => Err(AdvisoryError::Validation(cat("higher-graphen runtime: ", message.as_str()))),
    }
}

/// The ids that one case log entry gets: its own, its morphism's, and the revision
/// it moves the case head to.
pub struct LogIds {
    pub entry_id: String,
    pub morphism_id: String,
    pub target_revision: String,
}

/// A logged event's id and its log entry's ids.
pub struct EventIds {
    pub event_id: String,
    pub log: LogIds,
}

/// The ids of the review of `candidate_id` logged as entry `sequence`:
/// `review:<outcome>:<slug>-<seq>`, `log:<seq>`, `morphism:<outcome>-<slug>` and
/// `revision:review-<seq>`, where the slug is the id without its `candidate:` prefix
/// and the sequence has six digits.
pub fn review_log_ids(decision: ReviewDecision, candidate_id: &str, sequence: u64) -> (r: EventIds)
    ensures
        r.event_id@ == "review:"@ + decision.name() + ":"@ + trim_start_all(candidate_id@, "candidate:"@) + "-"@
            + padded6(sequence as nat),
        r.log.entry_id@ == "log:"@ + padded6(sequence as nat),
        r.log.morphism_id@ == "morphism:"@ + decision.name() + "-"@ + trim_start_all(candidate_id@, "candidate:"@),
        r.log.target_revision@ == "revision:review-"@ + padded6(sequence as nat),
{
    let slug = trim_start_matches(candidate_id, "candidate:");
    let seq = padded6_text(sequence);
    let mut event_id = cat("review:", decision.as_str());
    event_id.append(":");
    event_id.append(slug.as_str());
    event_id.append("-");
    event_id.append(seq.as_str());
    let mut morphism_id = cat("morphism:", decision.as_str());
    morphism_id.append("-");
    morphism_id.append(slug.as_str());
    EventIds {
        event_id,
        log: LogIds {
            entry_id: cat("log:", seq.as_str()),
            morphism_id,
            target_revision: cat("revision:review-", seq.as_str()),
        },
    }
}

/// The ids of a hypothesis lifecycle event with `outcome` on `hypothesis_id` logged as
/// entry `sequence`: `hypothesis-event:<outcome>:<slug>-<seq>`, `log:<seq>`,
/// `morphism:hypothesis-<outcome>-<slug>` and `revision:hypothesis-<seq>`.
pub fn hypothesis_log_ids(outcome: &str, hypothesis_id: &str, sequence: u64) -> (r: EventIds)
    ensures
        r.event_id@ == "hypothesis-event:"@ + outcome@ + ":"@ + trim_start_all(hypothesis_id@, "hypothesis:"@) + "-"@
            + padded6(sequence as nat),
        r.log.entry_id@ == "log:"@ + padded6(sequence as nat),
        r.log.morphism_id@ == "morphism:hypothesis-"@ + outcome@ + "-"@ + trim_start_all(hypothesis_id@, "hypothesis:"@),
        r.log.target_revision@ == "revision:hypothesis-"@ + padded6(sequence as nat),
{
    let slug = trim_start_matches(hypothesis_id, "hypothesis:");
    let seq = padded6_text(sequence);
    let mut event_id = cat("hypothesis-event:", outcome);
    event_id.append(":");
    event_id.append(slug.as_str());
    event_id.append("-");
    event_id.append(seq.as_str());
    let mut morphism_id = cat("morphism:hypothesis-", outcome);
    morphism_id.append("-");
    morphism_id.append(slug.as_str());
    EventIds {
        event_id,
        log: LogIds {
            entry_id: cat("log:", seq.as_str()),
            morphism_id,
            target_revision: cat("revision:hypothesis-", seq.as_str()),
        },
    }
}

/// The log ids of an applied lifecycle proposal logged as entry `sequence`; the
/// event's own id was fixed when the proposal was planned.
pub fn auto_log_ids(outcome: &str, hypothesis_id: &str, sequence: u64) -> (r: LogIds)
    ensures
        r.entry_id@ == "log:"@ + padded6(sequence as nat),
        r.morphism_id@ == "morphism:hypothesis-auto-"@ + outcome@ + "-"@ + trim_start_all(hypothesis_id@, "hypothesis:"@),
        r.target_revision@ == "revision:hypothesis-auto-"@ + padded6(sequence as nat),
{
    let slug = trim_start_matches(hypothesis_id, "hypothesis:");
    let seq = padded6_text(sequence);
    let mut morphism_id = cat("morphism:hypothesis-auto-", outcome);
    morphism_id.append("-");
    morphism_id.append(slug.as_str());
    LogIds {
        entry_id: cat("log:", seq.as_str()),
        morphism_id,
        target_revision: cat("revision:hypothesis-auto-", seq.as_str()),
    }
}

/// Finds the hypothesis a lifecycle event targets among a report's hypotheses, given
/// by their ids; the first one with `hypothesis_id` is taken.
pub fn find_hypothesis(ids: &Vec<Option<String>>, hypothesis_id: &str) -> (r: Result<usize, AdvisoryError>)
    ensures
        match r {
            Ok(i) => i < ids@.len() && opt_is(ids@[i as int], hypothesis_id@) && forall|j: int|
                0 <= j < i ==> !opt_is(#[trigger] ids@[j], hypothesis_id@),
            Err(e) => e is Validation && e->Validation_0@ == "hypothesis "@ + hypothesis_id@ + " not found in from-report"@
                && forall|j: int| 0 <= j < ids@.len() ==> !opt_is(#[trigger] ids@[j], hypothesis_id@),
        },
{
    let mut i: usize = 0;
    while i < ids.len()
        invariant
            i <= ids.len(),
            forall|j: int| 0 <= j < i ==> !opt_is(#[trigger] ids@[j], hypothesis_id@),
        decreases ids.len() - i,
    {
        let hit = match &ids[i] {
            Some(x) => str_eq(x.as_str(), hypothesis_id),
            None => false,
        };
        if hit {
            return Ok(i);
        }
        i = i + 1;
    }
    let mut m = cat("hypothesis ", hypothesis_id);
    m.append(" not found in from-report");
    Err(AdvisoryError::Validation(m))
}

} // verus!
