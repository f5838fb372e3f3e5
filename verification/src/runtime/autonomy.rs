//! The autonomy policy: which hypothesis lifecycle proposals an agent may apply as
//! events without human review, and in which order they are applied or skipped.
use vstd::prelude::*;
use crate::model::{cat, clone_strings, opt_is, opt_view, text, views, AdvisoryError};
use crate::runtime::padded6;
use crate::runtime::padded6_text;
use crate::text::{has_view, contains_str, str_eq, trim_start_all, trim_start_matches};
use crate::projection::decimal_text;
use crate::projection::decimal;
use crate::projection::count_where;

verus! {

/// The policy that gates unreviewed application of lifecycle proposals. The minimum
/// proposal confidence is a number the caller compares; see `autonomy_decision`.
pub struct AutonomyPolicy {
    pub allowed_outcomes: Vec<String>,
    pub allowed_trust_levels: Vec<String>,
    pub max_events: usize,
    pub require_candidate_status: bool,
    pub allow_review_conflict: bool,
}

/// The conservative default: only `supported` and `falsified` outcomes, backed by
/// reviewed, source-backed, tested or observed evidence, at most three events, on
/// candidate hypotheses only, never for review conflicts.
pub fn default_conservative() -> (r: AutonomyPolicy)
    ensures
        views(r.allowed_outcomes@) == seq!["supported"@, "falsified"@],
        views(r.allowed_trust_levels@) == seq!["reviewed_or_source_backed"@, "test_passed"@, "runtime_observed"@],
        r.max_events == 3,
        r.require_candidate_status,
        !r.allow_review_conflict,
{
    let outcomes = vec![text("supported"), text("falsified")];
    let trust = vec![text("reviewed_or_source_backed"), text("test_passed"), text("runtime_observed")];
    assert(views(outcomes@) =~= seq!["supported"@, "falsified"@]);
    assert(views(trust@) =~= seq!["reviewed_or_source_backed"@, "test_passed"@, "runtime_observed"@]);
    AutonomyPolicy {
        allowed_outcomes: outcomes,
        allowed_trust_levels: trust,
        max_events: 3,
        require_candidate_status: true,
        allow_review_conflict: false,
    }
}

/// Policy fields read from a policy file; `None` where the file does not give one.
/// A list holds the text entries of the file's array.
pub struct PolicyOverrides {
    pub allowed_outcomes: Option<Vec<String>>,
    pub allowed_trust_levels: Option<Vec<String>>,
    pub max_events: Option<u64>,
    pub require_candidate_status: Option<bool>,
    pub allow_review_conflict: Option<bool>,
}

/// The list a policy uses: the file's, unless it is absent or empty.
pub open spec fn list_or(o: Option<Vec<String>>, d: Seq<Seq<char>>) -> Seq<Seq<char>> {
    match o {
        Some(v) => if v@.len() > 0 {
            views(v@)
        } else {
            d
        },
        None => d,
    }
}

fn choose_list(o: Option<Vec<String>>, d: Vec<String>) -> (r: Vec<String>)
    ensures
        views(r@) == list_or(o, views(d@)),
{
    match o {
        Some(v) => if v.len() > 0 {
            v
        } else {
            d
        },
        None => d,
    }
}

/// The conservative default with each field the file gives in its place; an empty
/// list in the file keeps the default list.
pub fn policy_with_overrides(o: PolicyOverrides) -> (r: AutonomyPolicy)
    ensures
        views(r.allowed_outcomes@) == list_or(o.allowed_outcomes, seq!["supported"@, "falsified"@]),
        views(r.allowed_trust_levels@) == list_or(
            o.allowed_trust_levels,
            seq!["reviewed_or_source_backed"@, "test_passed"@, "runtime_observed"@],
        ),
        r.max_events == match o.max_events {
            Some(m) => m as usize,
            None => 3usize,
        },
        r.require_candidate_status == match o.require_candidate_status {
            Some(b) => b,
            None => true,
        },
        r.allow_review_conflict == match o.allow_review_conflict {
            Some(b) => b,
            None => false,
        },
{
    let d = default_conservative();
    let PolicyOverrides {
        allowed_outcomes,
        allowed_trust_levels,
        max_events,
        require_candidate_status,
        allow_review_conflict,
    } = o;
    AutonomyPolicy {
        allowed_outcomes: choose_list(allowed_outcomes, d.allowed_outcomes),
        allowed_trust_levels: choose_list(allowed_trust_levels, d.allowed_trust_levels),
        max_events: match max_events {
            Some(m) => m as usize,
            None => d.max_events,
        },
        require_candidate_status: match require_candidate_status {
            Some(b) => b,
            None => d.require_candidate_status,
        },
        allow_review_conflict: match allow_review_conflict {
            Some(b) => b,
            None => d.allow_review_conflict,
        },
    }
}

/// A hypothesis lifecycle proposal, as the policy reads it. The signal lists hold
/// each signal's `trust_level` (`None` when it is not text).
pub struct LifecycleProposal {
    pub id: Option<String>,
    pub target_hypothesis_id: Option<String>,
    pub proposed_outcome: Option<String>,
    pub target_hypothesis_status: Option<String>,
    pub supporting_signals: Vec<Option<String>>,
    pub falsifying_signals: Vec<Option<String>>,
}

/// Whether a proposal may be applied, and why.
pub struct AutonomyDecision {
    pub allowed: bool,
    pub reason: String,
}

/// A refusal with the given reason.
pub fn denied(reason: &str) -> (r: AutonomyDecision)
    ensures
        !r.allowed,
        r.reason@ == reason@,
{
    AutonomyDecision { allowed: false, reason: text(reason) }
}

pub open spec fn outcome_text(p: LifecycleProposal) -> Seq<char> {
    match p.proposed_outcome {
        Some(o) => o@,
        None => Seq::empty(),
    }
}

/// The signals that speak for the proposed outcome.
pub open spec fn outcome_signals(p: LifecycleProposal) -> Seq<Option<String>> {
    if outcome_text(p) == "falsified"@ {
        p.falsifying_signals@
    } else {
        p.supporting_signals@
    }
}

pub open spec fn has_allowed_trust(signals: Seq<Option<String>>, allowed: Seq<Seq<char>>) -> bool {
    exists|i: int|
        0 <= i < signals.len() && match #[trigger] signals[i] {
            Some(t) => allowed.contains(t@),
            None => false,
        }
}

/// The decision on a proposal: `(allowed, reason)`. `confidence_below` is `Some`
/// with the refusal text when the proposal's confidence is under the policy minimum.
/// The checks run in this order: review conflicts, allowed outcomes, candidate
/// status, confidence, evidence signals, their trust levels.
pub open spec fn decision_spec(p: LifecycleProposal, policy: AutonomyPolicy, confidence_below: Option<Seq<char>>) -> (
    bool,
    Seq<char>,
) {
    let outcome = outcome_text(p);
    if outcome == "review_conflict"@ && !policy.allow_review_conflict {
        (false, "review_conflict proposals require human review"@)
    } else if !views(policy.allowed_outcomes@).contains(outcome) {
        (false, "outcome "@ + outcome + " is not policy-allowed"@)
    } else if policy.require_candidate_status && !opt_is(p.target_hypothesis_status, "candidate"@) {
        (false, "target hypothesis is not in candidate lifecycle status"@)
    } else if confidence_below is Some {
        (false, confidence_below.unwrap())
    } else if outcome_signals(p).len() == 0 {
        (false, "proposal has no outcome-specific evidence signals"@)
    } else if !has_allowed_trust(outcome_signals(p), views(policy.allowed_trust_levels@)) {
        (false, "proposal has no evidence signal with policy-allowed trust level"@)
    } else {
        (true, "policy allowed"@)
    }
}

proof fn lemma_has_view(v: Seq<String>, x: Seq<char>)
    ensures
        has_view(v, x) <==> views(v).contains(x),
{
    if has_view(v, x) {
        let k = choose|k: int| 0 <= k < v.len() && #[trigger] v[k]@ == x;
        assert(views(v)[k] == x);
    }
    if views(v).contains(x) {
        let k = choose|k: int| 0 <= k < views(v).len() && views(v)[k] == x;
        assert(v[k]@ == x);
    }
}

fn any_allowed_trust(signals: &Vec<Option<String>>, allowed: &Vec<String>) -> (r: bool)
    ensures
        r == has_allowed_trust(signals@, views(allowed@)),
{
    let mut i: usize = 0;
    while i < signals.len()
        invariant
            i <= signals.len(),
            forall|k: int|
                0 <= k < i ==> !match #[trigger] signals@[k] {
                    Some(t) => views(allowed@).contains(t@),
                    None => false,
                },
        decreases signals.len() - i,
    {
        match &signals[i] {
            Some(t) => {
                proof {
                    lemma_has_view(allowed@, t@);
                }
                if contains_str(allowed, t.as_str()) {
                    return true;
                }
            },
            None => {},
        }
        i = i + 1;
    }
    false
}

/// Decides whether the policy lets an agent apply `proposal` without review.
/// `confidence_below` carries the refusal text when the caller found the proposal's
/// confidence (0 when it has none) under the policy minimum.
pub fn autonomy_decision(proposal: &LifecycleProposal, policy: &AutonomyPolicy, confidence_below: Option<&str>) -> (r:
    AutonomyDecision)
    ensures
        (r.allowed, r.reason@) == decision_spec(
            *proposal,
            *policy,
            match confidence_below {
                Some(t) => Some(t@),
                None => None,
            },
        ),
{
    let outcome: &str = match &proposal.proposed_outcome {
        Some(o) => o.as_str(),
        None => "",
    };
    proof {
        reveal_strlit("");
        reveal_strlit("falsified");
        lemma_has_view(policy.allowed_outcomes@, outcome@);
    }
    assert(outcome@ == outcome_text(*proposal));
    if str_eq(outcome, "review_conflict") && !policy.allow_review_conflict {
        return denied("review_conflict proposals require human review");
    }
    if !contains_str(&policy.allowed_outcomes, outcome) {
        let mut reason = cat("outcome ", outcome);
        reason.append(" is not policy-allowed");
        return AutonomyDecision { allowed: false, reason };
    }
    let is_candidate = match &proposal.target_hypothesis_status {
        Some(s) => str_eq(s.as_str(), "candidate"),
        None => false,
    };
    if policy.require_candidate_status && !is_candidate {
        return denied("target hypothesis is not in candidate lifecycle status");
    }
    match confidence_below {
        Some(t) => return denied(t),
        None => {},
    }
    let signals = if str_eq(outcome, "falsified") {
        &proposal.falsifying_signals
    } else {
        &proposal.supporting_signals
    };
    if signals.len() == 0 {
        return denied("proposal has no outcome-specific evidence signals");
    }
    if !any_allowed_trust(signals, &policy.allowed_trust_levels) {
        return denied("proposal has no evidence signal with policy-allowed trust level");
    }
    AutonomyDecision { allowed: true, reason: text("policy allowed") }
}

/// The event fields a proposal gives when it is applied as the `ordinal`-th event.
pub struct AutoEvent {
    pub hypothesis_event_id: String,
    pub target_hypothesis_id: String,
    pub outcome: String,
}

pub open spec fn slug(hypothesis_id: Seq<char>) -> Seq<char> {
    trim_start_all(hypothesis_id, "hypothesis:"@)
}

/// The event a proposal becomes, or why it cannot become one.
pub open spec fn event_spec(p: LifecycleProposal, ordinal: nat) -> Result<(Seq<char>, Seq<char>, Seq<char>), Seq<char>> {
    match p.target_hypothesis_id {
        None => Err("lifecycle proposal missing target_hypothesis_id"@),
        Some(h) => match p.proposed_outcome {
            None => Err("lifecycle proposal missing proposed_outcome"@),
            Some(o) => if o@ == "supported"@ || o@ == "falsified"@ {
                Ok(
                    (
                        "hypothesis-event:auto-"@ + o@ + ":"@ + slug(h@) + "-"@ + padded6(ordinal),
                        h@,
                        o@,
                    ),
                )
            } else {
                Err("cannot apply lifecycle proposal outcome "@ + o@)
            },
        },
    }
}

/// The event fields of an applied proposal; only `supported` and `falsified`
/// outcomes can be applied.
pub fn hypothesis_event_from_proposal(proposal: &LifecycleProposal, ordinal: u64) -> (r: Result<
    AutoEvent,
    AdvisoryError,
>)
    ensures
        match r {
            Ok(e) => event_spec(*proposal, ordinal as nat) == Ok::<(Seq<char>, Seq<char>, Seq<char>), Seq<char>>(
                (e.hypothesis_event_id@, e.target_hypothesis_id@, e.outcome@),
            ),
            Err(e) => e is Validation && event_spec(*proposal, ordinal as nat) == Err::<
                (Seq<char>, Seq<char>, Seq<char>),
                Seq<char>,
            >(e->Validation_0@),
        },
{
    let hypothesis_id = match &proposal.target_hypothesis_id {
        Some(h) => h,
        None => return Err(AdvisoryError::Validation(text("lifecycle proposal missing target_hypothesis_id"))),
    };
    let outcome = match &proposal.proposed_outcome {
        Some(o) => o,
        None => return Err(AdvisoryError::Validation(text("lifecycle proposal missing proposed_outcome"))),
    };
    if !(str_eq(outcome.as_str(), "supported") || str_eq(outcome.as_str(), "falsified")) {
        return Err(AdvisoryError::Validation(cat("cannot apply lifecycle proposal outcome ", outcome.as_str())));
    }
    let mut id = cat("hypothesis-event:auto-", outcome.as_str());
    id.append(":");
    id.append(trim_start_matches(hypothesis_id.as_str(), "hypothesis:").as_str());
    id.append("-");
    id.append(padded6_text(ordinal).as_str());
    Ok(AutoEvent { hypothesis_event_id: id, target_hypothesis_id: hypothesis_id.clone(), outcome: outcome.clone() })
}

/// What becomes of one proposal: applied as an event, or skipped with a reason.
pub enum ProposalStep {
    Apply { proposal: usize, event: AutoEvent },
    Skip { proposal: usize, reason: String },
}

pub open spec fn allowed_at(ps: Seq<LifecycleProposal>, policy: AutonomyPolicy, below: Seq<Option<String>>, i: int) -> bool {
    decision_spec(ps[i], policy, opt_view(below[i])).0
}

/// How many of the first `i` proposals are applied: each allowed proposal is, until
/// `max_events` have been.
pub open spec fn applied_before(ps: Seq<LifecycleProposal>, policy: AutonomyPolicy, below: Seq<Option<String>>, i: int) -> nat
    decreases i,
{
    if i <= 0 {
        0
    } else {
        let k = applied_before(ps, policy, below, i - 1);
        if allowed_at(ps, policy, below, i - 1) && k < policy.max_events {
            k + 1
        } else {
            k
        }
    }
}

/// Proposal `i` is applied.
pub open spec fn applies(ps: Seq<LifecycleProposal>, policy: AutonomyPolicy, below: Seq<Option<String>>, i: int) -> bool {
    allowed_at(ps, policy, below, i) && applied_before(ps, policy, below, i) < policy.max_events
}

pub open spec fn step_ok(
    step: ProposalStep,
    ps: Seq<LifecycleProposal>,
    policy: AutonomyPolicy,
    below: Seq<Option<String>>,
    i: int,
) -> bool {
    let k = applied_before(ps, policy, below, i);
    if !allowed_at(ps, policy, below, i) {
        step matches ProposalStep::Skip { proposal, reason } && proposal == i && reason@ == decision_spec(
            ps[i],
            policy,
            opt_view(below[i]),
        ).1
    } else if k >= policy.max_events {
        step matches ProposalStep::Skip { proposal, reason } && proposal == i && reason@ == "policy max_events "@
            + decimal(policy.max_events as nat) + " reached"@
    } else {
        step matches ProposalStep::Apply { proposal, event } && proposal == i && event_spec(ps[i], k + 1)
            == Ok::<(Seq<char>, Seq<char>, Seq<char>), Seq<char>>(
            (event.hypothesis_event_id@, event.target_hypothesis_id@, event.outcome@),
        )
    }
}

pub open spec fn event_fails(ps: Seq<LifecycleProposal>, policy: AutonomyPolicy, below: Seq<Option<String>>, i: int) -> bool {
    applies(ps, policy, below, i) && event_spec(ps[i], applied_before(ps, policy, below, i) + 1) is Err
}

/// Decides, in order, what becomes of each lifecycle proposal under `policy`.
/// `confidence_below[i]` is the refusal text for proposal `i` when its confidence is
/// under the policy minimum. The first applied proposal that cannot become an event
/// fails the whole plan.
pub fn plan_applications(proposals: &Vec<LifecycleProposal>, policy: &AutonomyPolicy, confidence_below: &Vec<
    Option<String>,
>) -> (r: Result<Vec<ProposalStep>, AdvisoryError>)
    requires
        confidence_below@.len() == proposals@.len(),
    ensures
        match r {
            Ok(steps) => steps@.len() == proposals@.len() && (forall|i: int|
                0 <= i < steps@.len() ==> step_ok(#[trigger] steps@[i], proposals@, *policy, confidence_below@, i)),
            Err(e) => e is Validation && exists|i: int|
                0 <= i < proposals@.len() && #[trigger] event_fails(proposals@, *policy, confidence_below@, i)
                    && event_spec(
                    proposals@[i],
                    applied_before(proposals@, *policy, confidence_below@, i) + 1,
                ) == Err::<(Seq<char>, Seq<char>, Seq<char>), Seq<char>>(e->Validation_0@) && (forall|j: int|
                    0 <= j < i ==> !event_fails(proposals@, *policy, confidence_below@, j)),
        },
{
    let ghost ps = proposals@;
    let ghost below = confidence_below@;
    let mut steps: Vec<ProposalStep> = Vec::new();
    let mut applied: usize = 0;
    let mut i: usize = 0;
    while i < proposals.len()
        invariant
            i <= proposals.len(),
            ps == proposals@,
            below == confidence_below@,
            below.len() == ps.len(),
            applied == applied_before(ps, *policy, below, i as int),
            applied <= i,
            steps@.len() == i,
            forall|k: int| 0 <= k < i ==> step_ok(#[trigger] steps@[k], ps, *policy, below, k),
            forall|j: int| 0 <= j < i ==> !event_fails(ps, *policy, below, j),
        decreases proposals.len() - i,
    {
        let p = &proposals[i];
        let below_text: Option<&str> = match &confidence_below[i] {
            Some(t) => Some(t.as_str()),
            None => None,
        };
        let decision = autonomy_decision(p, policy, below_text);
        assert(opt_view(below[i as int]) == match below_text {
            Some(t) => Some(t@),
            None => None::<Seq<char>>,
        });
        let ghost old = steps@;
        if !decision.allowed {
            steps.push(ProposalStep::Skip { proposal: i, reason: decision.reason });
        } else if applied >= policy.max_events {
            let mut reason = cat("policy max_events ", decimal_text(policy.max_events).as_str());
            reason.append(" reached");
            steps.push(ProposalStep::Skip { proposal: i, reason });
        } else {
            let event = match hypothesis_event_from_proposal(p, (applied + 1) as u64) {
                Ok(e) => e,
                Err(e) => {
                    assert(event_fails(ps, *policy, below, i as int));
                    return Err(e);
                },
            };
            steps.push(ProposalStep::Apply { proposal: i, event });
            applied = applied + 1;
        }
        assert forall|k: int| 0 <= k < i + 1 implies step_ok(#[trigger] steps@[k], ps, *policy, below, k) by {
            if k < i {
                assert(steps@[k] == old[k]);
            }
        }
        i = i + 1;
    }
    Ok(steps)
}

/// However many proposals there are, the plan never applies more than the policy's
/// `max_events`, nor more proposals than it has seen.
pub proof fn law_applied_events_within_limit(
    ps: Seq<LifecycleProposal>,
    policy: AutonomyPolicy,
    below: Seq<Option<String>>,
    i: int,
)
    requires
        0 <= i,
    ensures
        applied_before(ps, policy, below, i) <= policy.max_events,
        applied_before(ps, policy, below, i) <= i,
    decreases i,
{
    if i > 0 {
        law_applied_events_within_limit(ps, policy, below, i - 1);
    }
}

pub open spec fn is_apply() -> spec_fn(ProposalStep) -> bool {
    |s: ProposalStep| s is Apply
}

pub open spec fn is_skip() -> spec_fn(ProposalStep) -> bool {
    |s: ProposalStep| s is Skip
}

proof fn lemma_plan_prefix_counts(
    steps: Seq<ProposalStep>,
    ps: Seq<LifecycleProposal>,
    policy: AutonomyPolicy,
    below: Seq<Option<String>>,
    n: int,
)
    requires
        0 <= n <= steps.len(),
        forall|i: int| 0 <= i < steps.len() ==> step_ok(#[trigger] steps[i], ps, policy, below, i),
    ensures
        count_where(steps.take(n), is_apply()) == applied_before(ps, policy, below, n),
        count_where(steps.take(n), is_apply()) + count_where(steps.take(n), is_skip()) == n,
    decreases n,
{
    if n > 0 {
        lemma_plan_prefix_counts(steps, ps, policy, below, n - 1);
        assert(steps.take(n).drop_last() =~= steps.take(n - 1));
        assert(steps.take(n).last() == steps[n - 1]);
        assert(step_ok(steps[n - 1], ps, policy, below, n - 1));
    }
}

/// A plan settles every proposal once: the applied and skipped steps add up to the
/// number of proposals, the applied ones are exactly those the policy lets through in
/// order, and they never exceed `max_events`.
pub proof fn law_plan_counts(
    steps: Seq<ProposalStep>,
    ps: Seq<LifecycleProposal>,
    policy: AutonomyPolicy,
    below: Seq<Option<String>>,
)
    requires
        steps.len() == ps.len(),
        forall|i: int| 0 <= i < steps.len() ==> step_ok(#[trigger] steps[i], ps, policy, below, i),
    ensures
        count_where(steps, is_apply()) + count_where(steps, is_skip()) == ps.len(),
        count_where(steps, is_apply()) == applied_before(ps, policy, below, ps.len() as int),
        count_where(steps, is_apply()) <= policy.max_events,
{
    lemma_plan_prefix_counts(steps, ps, policy, below, steps.len() as int);
    assert(steps.take(steps.len() as int) =~= steps);
    law_applied_events_within_limit(ps, policy, below, ps.len() as int);
}

/// An applied proposal passed every gate of the policy: it is no unpermitted review
/// conflict, its outcome is allowed, its hypothesis is a candidate where the policy asks
/// for one, its confidence met the minimum, and some signal for its outcome has an
/// allowed trust level.
pub proof fn law_applied_proposals_obey_policy(
    ps: Seq<LifecycleProposal>,
    policy: AutonomyPolicy,
    below: Seq<Option<String>>,
    i: int,
)
    requires
        0 <= i < ps.len(),
        i < below.len(),
        applies(ps, policy, below, i),
    ensures
        !(outcome_text(ps[i]) == "review_conflict"@ && !policy.allow_review_conflict),
        views(policy.allowed_outcomes@).contains(outcome_text(ps[i])),
        policy.require_candidate_status ==> opt_is(ps[i].target_hypothesis_status, "candidate"@),
        below[i] is None,
        has_allowed_trust(outcome_signals(ps[i]), views(policy.allowed_trust_levels@)),
{
}

/// Under the conservative default, only `supported` and `falsified` proposals are ever
/// applied, and only with reviewed, source-backed, tested or observed evidence.
pub proof fn law_default_policy_applies_supported_or_falsified(
    ps: Seq<LifecycleProposal>,
    policy: AutonomyPolicy,
    below: Seq<Option<String>>,
    i: int,
)
    requires
        0 <= i < ps.len(),
        i < below.len(),
        views(policy.allowed_outcomes@) == seq!["supported"@, "falsified"@],
        views(policy.allowed_trust_levels@) == seq!["reviewed_or_source_backed"@, "test_passed"@, "runtime_observed"@],
        applies(ps, policy, below, i),
    ensures
        outcome_text(ps[i]) == "supported"@ || outcome_text(ps[i]) == "falsified"@,
        has_allowed_trust(
            outcome_signals(ps[i]),
            seq!["reviewed_or_source_backed"@, "test_passed"@, "runtime_observed"@],
        ),
{
    let outcomes = views(policy.allowed_outcomes@);
    assert(outcomes.contains(outcome_text(ps[i])));
    let k = choose|k: int| 0 <= k < outcomes.len() && outcomes[k] == outcome_text(ps[i]);
    assert(k == 0 || k == 1);
}

} // verus!
