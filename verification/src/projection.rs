//! Audience projections of an advisory space and its reports: what each audience
//! sees, what the projection leaves out, and the Markdown rendering.
use vstd::prelude::*;
use crate::model::{
    views, opt_view, opt_is, view_or, text, cat, clone_strings, Candidate, Cell, Obstruction,
    ObstructionView, obstruction_views, AdvisoryError, Space, SourceBoundary, SourceBoundaryView,
};
use crate::reasoning::{close_status, is_blocking, blocking_id_of, CloseStatus};
use crate::reasoning::resolution::{
    blocker_resolution_state, frontier_items, waiting_items, entry_views, item_views, item_if,
    state_spec, ResolutionEntry, WorkItem,
};
use crate::text::{
    push_char, str_eq, sorted_unique, strictly_sorted, strictly_sorted_views, has_view, lemma_sorted_sets_equal,
    trim_start_all, trim_start_matches,
};

verus! {

/// How a projection is written out.
#[derive(Clone, Copy, Debug, PartialEq, Eq, Structural)]
pub enum OutputFormat {
    Json,
    Markdown,
}

impl OutputFormat {
    pub open spec fn parse_spec(value: Seq<char>) -> Option<OutputFormat> {
        if value == "json"@ {
            Some(OutputFormat::Json)
        } else if value == "markdown"@ {
            Some(OutputFormat::Markdown)
        } else {
            None
        }
    }

    /// The format named `value`: `json` or `markdown`.
    pub fn parse(value: &str) -> (r: Result<OutputFormat, AdvisoryError>)
        ensures
            match r {
                Ok(f) => OutputFormat::parse_spec(value@) == Some(f),
                Err(e) => OutputFormat::parse_spec(value@) is None && e is Validation
                    && e->Validation_0@ == "unsupported format: "@ + value@,
            },
    {
        if str_eq(value, "json") {
            Ok(OutputFormat::Json)
        } else if str_eq(value, "markdown") {
            Ok(OutputFormat::Markdown)
        } else {
            Err(AdvisoryError::Validation(cat("unsupported format: ", value)))
        }
    }
}

/// The number of elements of `s` that satisfy `p`.
pub open spec fn count_where<A>(s: Seq<A>, p: spec_fn(A) -> bool) -> nat
    decreases s.len(),
{
    if s.len() == 0 {
        0
    } else {
        count_where(s.drop_last(), p) + if p(s.last()) {
            1nat
        } else {
            0nat
        }
    }
}

proof fn lemma_count_where_bound<A>(s: Seq<A>, p: spec_fn(A) -> bool)
    ensures
        count_where(s, p) <= s.len(),
    decreases s.len(),
{
    if s.len() > 0 {
        lemma_count_where_bound(s.drop_last(), p);
    }
}

proof fn lemma_count_where_step<A>(s: Seq<A>, p: spec_fn(A) -> bool, i: int)
    requires
        0 <= i < s.len(),
    ensures
        count_where(s.take(i + 1), p) == count_where(s.take(i), p) + if p(s[i]) {
            1nat
        } else {
            0nat
        },
{
    assert(s.take(i + 1).drop_last() =~= s.take(i));
}

/// The bucket an obstruction's severity is counted in.
pub open spec fn severity_bucket(o: ObstructionView) -> Seq<char> {
    match o.severity {
        Some(s) => if s == "high"@ || s == "medium"@ || s == "low"@ {
            s
        } else {
            "unknown"@
        },
        None => "unknown"@,
    }
}

pub open spec fn in_bucket(b: Seq<char>) -> spec_fn(ObstructionView) -> bool {
    |o: ObstructionView| severity_bucket(o) == b
}

/// Obstructions per severity bucket; `critical` and unknown severities count as unknown.
pub struct ObstructionCounts {
    pub high: usize,
    pub medium: usize,
    pub low: usize,
    pub unknown: usize,
}

pub open spec fn counts_match(c: ObstructionCounts, obs: Seq<ObstructionView>) -> bool {
    &&& c.high == count_where(obs, in_bucket("high"@))
    &&& c.medium == count_where(obs, in_bucket("medium"@))
    &&& c.low == count_where(obs, in_bucket("low"@))
    &&& c.unknown == count_where(obs, in_bucket("unknown"@))
}

/// Counts the obstructions of each severity bucket.
pub fn obstruction_counts(obstructions: &Vec<Obstruction>) -> (r: ObstructionCounts)
    ensures
        counts_match(r, obstruction_views(obstructions@)),
{
    let ghost obs = obstruction_views(obstructions@);
    let mut high: usize = 0;
    let mut medium: usize = 0;
    let mut low: usize = 0;
    let mut unknown: usize = 0;
    let mut i: usize = 0;
    while i < obstructions.len()
        invariant
            i <= obstructions.len(),
            obs == obstruction_views(obstructions@),
            high == count_where(obs.take(i as int), in_bucket("high"@)),
            medium == count_where(obs.take(i as int), in_bucket("medium"@)),
            low == count_where(obs.take(i as int), in_bucket("low"@)),
            unknown == count_where(obs.take(i as int), in_bucket("unknown"@)),
            high + medium + low + unknown == i,
        decreases obstructions.len() - i,
    {
        proof {
            lemma_count_where_step(obs, in_bucket("high"@), i as int);
            lemma_count_where_step(obs, in_bucket("medium"@), i as int);
            lemma_count_where_step(obs, in_bucket("low"@), i as int);
            lemma_count_where_step(obs, in_bucket("unknown"@), i as int);
        }
        let o = &obstructions[i];
        assert(obs[i as int] == o@);
        let bucket: u8 = match &o.severity {
            Some(s) => if str_eq(s.as_str(), "high") {
                0
            } else if str_eq(s.as_str(), "medium") {
                1
            } else if str_eq(s.as_str(), "low") {
                2
            } else {
                3
            },
            None => 3,
        };
        proof {
            reveal_strlit("high");
            reveal_strlit("medium");
            reveal_strlit("low");
            reveal_strlit("unknown");
        }
        proof {
            let b = severity_bucket(o@);
            if bucket == 0 {
                assert(b == "high"@);
            } else if bucket == 1 {
                assert(b == "medium"@);
            } else if bucket == 2 {
                assert(b == "low"@);
            } else {
                assert(b == "unknown"@);
            }
            assert("high"@.len() == 4 && "medium"@.len() == 6 && "low"@.len() == 3 && "unknown"@.len() == 7);
        }
        if bucket == 0 {
            high = high + 1;
        } else if bucket == 1 {
            medium = medium + 1;
        } else if bucket == 2 {
            low = low + 1;
        } else {
            unknown = unknown + 1;
        }
        i = i + 1;
    }
    assert(obs.take(obstructions@.len() as int) =~= obs);
    ObstructionCounts { high, medium, low, unknown }
}

pub open spec fn has_severity(name: Seq<char>) -> spec_fn(ObstructionView) -> Option<ObstructionView> {
    |o: ObstructionView|
        if o.severity == Some(name) {
            Some(o)
        } else {
            None
        }
}

/// The obstructions whose severity is exactly `severity`, in report order.
pub fn obstructions_by_severity(obstructions: &Vec<Obstruction>, severity: &str) -> (r: Vec<Obstruction>)
    ensures
        obstruction_views(r@) == obstruction_views(obstructions@).filter_map(has_severity(severity@)),
{
    let ghost obs = obstruction_views(obstructions@);
    let ghost f = has_severity(severity@);
    let mut out: Vec<Obstruction> = Vec::new();
    let mut i: usize = 0;
    while i < obstructions.len()
        invariant
            i <= obstructions.len(),
            obs == obstruction_views(obstructions@),
            f == has_severity(severity@),
            obstruction_views(out@) == obs.take(i as int).filter_map(f),
        decreases obstructions.len() - i,
    {
        proof {
            obs.lemma_filter_map_take_succ(f, i as int);
        }
        let o = &obstructions[i];
        assert(obs[i as int] == o@);
        let matches_severity = match &o.severity {
            Some(s) => str_eq(s.as_str(), severity),
            None => false,
        };
        if matches_severity {
            let ghost old = out@;
            let d = o.duplicate();
            out.push(d);
            assert(obstruction_views(out@) =~= obstruction_views(old) + seq![o@]);
        }
        i = i + 1;
    }
    assert(obs.take(obstructions@.len() as int) =~= obs);
    out
}

/// The precision bucket of a candidate's `metadata.specificity`; absent or
/// unrecognized values count as missing precision metadata.
pub open spec fn precision_bucket(c: Candidate) -> Seq<char> {
    match c.specificity {
        Some(s) => if s@ == "code_derived"@ || s@ == "source_derived"@ || s@ == "requirement_derived"@
            || s@ == "generic"@ {
            s@
        } else {
            "missing_precision_metadata"@
        },
        None => "missing_precision_metadata"@,
    }
}

pub open spec fn in_precision(b: Seq<char>) -> spec_fn(Candidate) -> bool {
    |c: Candidate| precision_bucket(c) == b
}

/// Candidates per precision bucket.
pub struct CandidateQuality {
    pub source_derived: usize,
    pub code_derived: usize,
    pub requirement_derived: usize,
    pub generic: usize,
    pub missing_precision_metadata: usize,
    pub total: usize,
}

pub open spec fn quality_matches(q: CandidateQuality, cands: Seq<Candidate>) -> bool {
    &&& q.source_derived == count_where(cands, in_precision("source_derived"@))
    &&& q.code_derived == count_where(cands, in_precision("code_derived"@))
    &&& q.requirement_derived == count_where(cands, in_precision("requirement_derived"@))
    &&& q.generic == count_where(cands, in_precision("generic"@))
    &&& q.missing_precision_metadata == count_where(cands, in_precision("missing_precision_metadata"@))
    &&& q.total == cands.len()
}

/// Counts the candidates of each precision bucket.
pub fn candidate_quality(candidates: &Vec<Candidate>) -> (r: CandidateQuality)
    ensures
        quality_matches(r, candidates@),
{
    let ghost cs = candidates@;
    let mut q = CandidateQuality {
        source_derived: 0,
        code_derived: 0,
        requirement_derived: 0,
        generic: 0,
        missing_precision_metadata: 0,
        total: 0,
    };
    let mut i: usize = 0;
    while i < candidates.len()
        invariant
            i <= candidates.len(),
            cs == candidates@,
            q.source_derived == count_where(cs.take(i as int), in_precision("source_derived"@)),
            q.code_derived == count_where(cs.take(i as int), in_precision("code_derived"@)),
            q.requirement_derived == count_where(cs.take(i as int), in_precision("requirement_derived"@)),
            q.generic == count_where(cs.take(i as int), in_precision("generic"@)),
            q.missing_precision_metadata == count_where(
                cs.take(i as int),
                in_precision("missing_precision_metadata"@),
            ),
            q.total == i,
            q.source_derived + q.code_derived + q.requirement_derived + q.generic
                + q.missing_precision_metadata == i,
        decreases candidates.len() - i,
    {
        proof {
            lemma_count_where_step(cs, in_precision("source_derived"@), i as int);
            lemma_count_where_step(cs, in_precision("code_derived"@), i as int);
            lemma_count_where_step(cs, in_precision("requirement_derived"@), i as int);
            lemma_count_where_step(cs, in_precision("generic"@), i as int);
            lemma_count_where_step(cs, in_precision("missing_precision_metadata"@), i as int);
            reveal_strlit("source_derived");
            reveal_strlit("code_derived");
            reveal_strlit("requirement_derived");
            reveal_strlit("generic");
            reveal_strlit("missing_precision_metadata");
        }
        let c = &candidates[i];
        let bucket: u8 = match &c.specificity {
            Some(s) => if str_eq(s.as_str(), "source_derived") {
                0
            } else if str_eq(s.as_str(), "code_derived") {
                1
            } else if str_eq(s.as_str(), "requirement_derived") {
                2
            } else if str_eq(s.as_str(), "generic") {
                3
            } else {
                4
            },
            None => 4,
        };
        proof {
            let b = precision_bucket(*c);
            if bucket == 0 {
                assert(b == "source_derived"@);
            } else if bucket == 1 {
                assert(b == "code_derived"@);
            } else if bucket == 2 {
                assert(b == "requirement_derived"@);
            } else if bucket == 3 {
                assert(b == "generic"@);
            } else {
                assert(b == "missing_precision_metadata"@);
            }
            assert("source_derived"@.len() == 14 && "code_derived"@.len() == 12);
            assert("requirement_derived"@.len() == 19 && "generic"@.len() == 7);
            assert("missing_precision_metadata"@.len() == 26);
        }
        if bucket == 0 {
            q.source_derived = q.source_derived + 1;
        } else if bucket == 1 {
            q.code_derived = q.code_derived + 1;
        } else if bucket == 2 {
            q.requirement_derived = q.requirement_derived + 1;
        } else if bucket == 3 {
            q.generic = q.generic + 1;
        } else {
            q.missing_precision_metadata = q.missing_precision_metadata + 1;
        }
        q.total = q.total + 1;
        i = i + 1;
    }
    assert(cs.take(candidates@.len() as int) =~= cs);
    q
}

/// `has_view` and `contains` on the texts agree.
proof fn lemma_has_view_contains(v: Seq<String>, x: Seq<char>)
    ensures
        has_view(v, x) <==> views(v).contains(x),
{
    if has_view(v, x) {
        let k = choose|k: int| 0 <= k < v.len() && #[trigger] v[k]@ == x;
        assert(views(v)[k] == x);
    }
    if views(v).contains(x) {
        let k = choose|k: int| 0 <= k < views(v).len() && views(v)[k] == x;
        assert(v[k]@ == x);
    }
}

/// The content obstruction types of a candidate's proposal content; an entry
/// without a type counts as `unknown`.
pub open spec fn content_types_of(c: Candidate) -> Seq<Seq<char>> {
    match c.proposal_content {
        Some(p) => p.content_obstruction_types@.map_values(|t: Option<String>| view_or(t, "unknown"@)),
        None => Seq::empty(),
    }
}

/// The content obstruction types of all candidates, in candidate order.
pub open spec fn content_types(cands: Seq<Candidate>) -> Seq<Seq<char>>
    decreases cands.len(),
{
    if cands.len() == 0 {
        Seq::empty()
    } else {
        content_types(cands.drop_last()) + content_types_of(cands.last())
    }
}

pub open spec fn has_content() -> spec_fn(Candidate) -> bool {
    |c: Candidate| c.proposal_content is Some
}

pub open spec fn content_blocked() -> spec_fn(Candidate) -> bool {
    |c: Candidate|
        match c.proposal_content {
            Some(p) => opt_is(p.scenario_status, "blocked"@),
            None => false,
        }
}

pub open spec fn text_is(x: Seq<char>) -> spec_fn(Seq<char>) -> bool {
    |y: Seq<char>| y == x
}

/// How often one content obstruction type occurs.
pub struct TypeCount {
    pub obstruction_type: String,
    pub count: usize,
}

pub open spec fn type_names(s: Seq<TypeCount>) -> Seq<Seq<char>> {
    s.map_values(|t: TypeCount| t.obstruction_type@)
}

/// How concrete the candidates' proposal content is.
pub struct ProposalContentSummary {
    /// Candidates that carry proposal content.
    pub with_structured_content: usize,
    /// Candidates whose proposal scenario is blocked.
    pub blocked_content: usize,
    /// Content obstructions over all candidates.
    pub content_obstruction_count: usize,
    /// One entry per content obstruction type, ordered by type.
    pub content_obstruction_types: Vec<TypeCount>,
}

pub open spec fn summary_matches(r: ProposalContentSummary, cands: Seq<Candidate>) -> bool {
    let types = content_types(cands);
    let names = type_names(r.content_obstruction_types@);
    &&& r.with_structured_content == count_where(cands, has_content())
    &&& r.blocked_content == count_where(cands, content_blocked())
    &&& r.content_obstruction_count == types.len()
    &&& strictly_sorted_views(names)
    &&& forall|x: Seq<char>| names.contains(x) <==> types.contains(x)
    &&& forall|i: int|
        0 <= i < r.content_obstruction_types@.len() ==> #[trigger] r.content_obstruction_types@[i].count
            == count_where(types, text_is(r.content_obstruction_types@[i].obstruction_type@))
}

/// Every content obstruction type of the candidates, in candidate order.
fn all_content_types(candidates: &Vec<Candidate>) -> (out: Vec<String>)
    ensures
        views(out@) == content_types(candidates@),
{
    let mut out: Vec<String> = Vec::new();
    let mut i: usize = 0;
    while i < candidates.len()
        invariant
            i <= candidates.len(),
            views(out@) == content_types(candidates@.take(i as int)),
        decreases candidates.len() - i,
    {
        let ghost t = candidates@.take(i + 1);
        assert(t.drop_last() =~= candidates@.take(i as int));
        assert(t.last() == candidates@[i as int]);
        match &candidates[i].proposal_content {
            Some(p) => {
                let types = &p.content_obstruction_types;
                let ghost ct = content_types_of(candidates@[i as int]);
                let mut j: usize = 0;
                while j < types.len()
                    invariant
                        i < candidates.len(),
                        j <= types.len(),
                        ct == types@.map_values(|t: Option<String>| view_or(t, "unknown"@)),
                        views(out@) == content_types(candidates@.take(i as int)) + ct.take(j as int),
                    decreases types.len() - j,
                {
                    let ghost old = out@;
                    let name = match &types[j] {
                        Some(t) => t.clone(),
                        None => text("unknown"),
                    };
                    let ghost nv = name@;
                    out.push(name);
                    assert(views(out@) =~= views(old).push(nv));
                    assert(ct.take(j + 1) =~= ct.take(j as int).push(nv));
                    j = j + 1;
                }
                assert(ct.take(types@.len() as int) =~= ct);
            },
            None => {
                assert(content_types_of(candidates@[i as int]) =~= Seq::<Seq<char>>::empty());
                assert(content_types(t) =~= content_types(candidates@.take(i as int)));
            },
        }
        i = i + 1;
    }
    assert(candidates@.take(candidates@.len() as int) =~= candidates@);
    out
}

/// How often `x` occurs among `items`.
fn occurrences(items: &Vec<String>, x: &str) -> (r: usize)
    ensures
        r == count_where(views(items@), text_is(x@)),
{
    let ghost s = views(items@);
    let mut n: usize = 0;
    let mut j: usize = 0;
    while j < items.len()
        invariant
            j <= items.len(),
            s == views(items@),
            n == count_where(s.take(j as int), text_is(x@)),
            n <= j,
        decreases items.len() - j,
    {
        proof {
            lemma_count_where_step(s, text_is(x@), j as int);
        }
        if str_eq(items[j].as_str(), x) {
            n = n + 1;
        }
        j = j + 1;
    }
    assert(s.take(items@.len() as int) =~= s);
    n
}

/// Summarizes the candidates' proposal content.
pub fn proposal_content_summary(candidates: &Vec<Candidate>) -> (r: ProposalContentSummary)
    ensures
        summary_matches(r, candidates@),
{
    let ghost cs = candidates@;
    let mut with_content: usize = 0;
    let mut blocked: usize = 0;
    let mut i: usize = 0;
    while i < candidates.len()
        invariant
            i <= candidates.len(),
            cs == candidates@,
            with_content == count_where(cs.take(i as int), has_content()),
            blocked == count_where(cs.take(i as int), content_blocked()),
            with_content <= i,
            blocked <= i,
        decreases candidates.len() - i,
    {
        proof {
            lemma_count_where_step(cs, has_content(), i as int);
            lemma_count_where_step(cs, content_blocked(), i as int);
        }
        match &candidates[i].proposal_content {
            Some(p) => {
                with_content = with_content + 1;
                let is_blocked = match &p.scenario_status {
                    Some(st) => str_eq(st.as_str(), "blocked"),
                    None => false,
                };
                if is_blocked {
                    blocked = blocked + 1;
                }
            },
            None => {},
        }
        i = i + 1;
    }
    assert(cs.take(candidates@.len() as int) =~= cs);
    let all = all_content_types(candidates);
    let unique = sorted_unique(&all);
    let mut types: Vec<TypeCount> = Vec::new();
    let mut k: usize = 0;
    while k < unique.len()
        invariant
            k <= unique.len(),
            views(all@) == content_types(cs),
            type_names(types@) == views(unique@).take(k as int),
            forall|m: int|
                0 <= m < types@.len() ==> #[trigger] types@[m].count == count_where(
                    content_types(cs),
                    text_is(types@[m].obstruction_type@),
                ),
        decreases unique.len() - k,
    {
        let n = occurrences(&all, unique[k].as_str());
        let ghost old = types@;
        let entry = TypeCount { obstruction_type: unique[k].clone(), count: n };
        let ghost ev = entry.obstruction_type@;
        types.push(entry);
        assert(type_names(types@) =~= type_names(old).push(ev));
        assert(views(unique@).take(k + 1) =~= views(unique@).take(k as int).push(ev));
        assert forall|m: int|
            0 <= m < types@.len() implies #[trigger] types@[m].count == count_where(
                content_types(cs),
                text_is(types@[m].obstruction_type@),
            ) by {
            if m < old.len() {
                assert(types@[m] == old[m]);
            }
        }
        k = k + 1;
    }
    proof {
        assert(views(unique@).take(unique@.len() as int) =~= views(unique@));
        let names = type_names(types@);
        assert(strictly_sorted_views(names)) by {
            assert forall|a: int, b: int| 0 <= a < b < names.len() implies crate::text::lex_lt(
                #[trigger] names[a],
                #[trigger] names[b],
            ) by {
                assert(names[a] == unique@[a]@ && names[b] == unique@[b]@);
            }
        }
        assert forall|x: Seq<char>| names.contains(x) <==> content_types(cs).contains(x) by {
            lemma_has_view_contains(unique@, x);
            lemma_has_view_contains(all@, x);
        }
    }
    ProposalContentSummary {
        with_structured_content: with_content,
        blocked_content: blocked,
        content_obstruction_count: all.len(),
        content_obstruction_types: types,
    }
}

/// The source ids of all cells, in cell order, repeats kept.
pub open spec fn cell_source_ids(cells: Seq<Cell>) -> Seq<Seq<char>>
    decreases cells.len(),
{
    if cells.len() == 0 {
        Seq::empty()
    } else {
        cell_source_ids(cells.drop_last()) + views(cells.last().source_ids@)
    }
}

/// The source ids of a space's cells, sorted and without repeats: what a projection
/// omits as source text.
pub open spec fn source_ids_spec(space: Space) -> Seq<Seq<char>> {
    choose|s: Seq<Seq<char>>|
        strictly_sorted_views(s) && forall|x: Seq<char>| s.contains(x) <==> cell_source_ids(space.cells@).contains(x)
}

fn all_source_ids(cells: &Vec<Cell>) -> (out: Vec<String>)
    ensures
        views(out@) == cell_source_ids(cells@),
{
    let mut out: Vec<String> = Vec::new();
    let mut i: usize = 0;
    while i < cells.len()
        invariant
            i <= cells.len(),
            views(out@) == cell_source_ids(cells@.take(i as int)),
        decreases cells.len() - i,
    {
        let ghost t = cells@.take(i + 1);
        assert(t.drop_last() =~= cells@.take(i as int));
        assert(t.last() == cells@[i as int]);
        let ids = &cells[i].source_ids;
        let ghost cv = views(ids@);
        let mut j: usize = 0;
        while j < ids.len()
            invariant
                i < cells.len(),
                j <= ids.len(),
                cv == views(ids@),
                views(out@) == cell_source_ids(cells@.take(i as int)) + cv.take(j as int),
            decreases ids.len() - j,
        {
            let ghost old = out@;
            let x = ids[j].clone();
            let ghost xv = x@;
            out.push(x);
            assert(views(out@) =~= views(old).push(xv));
            assert(cv.take(j + 1) =~= cv.take(j as int).push(xv));
            j = j + 1;
        }
        assert(cv.take(ids@.len() as int) =~= cv);
        i = i + 1;
    }
    assert(cells@.take(cells@.len() as int) =~= cells@);
    out
}

/// The source ids of the space's cells, sorted and without repeats.
pub fn source_ids(space: &Space) -> (r: Vec<String>)
    ensures
        views(r@) == source_ids_spec(*space),
{
    let all = all_source_ids(&space.cells);
    let ids = sorted_unique(&all);
    proof {
        let v = views(ids@);
        assert(strictly_sorted_views(v)) by {
            assert forall|a: int, b: int| 0 <= a < b < v.len() implies crate::text::lex_lt(
                #[trigger] v[a],
                #[trigger] v[b],
            ) by {
                assert(v[a] == ids@[a]@ && v[b] == ids@[b]@);
            }
        }
        assert forall|x: Seq<char>| v.contains(x) <==> cell_source_ids(space.cells@).contains(x) by {
            lemma_has_view_contains(ids@, x);
            lemma_has_view_contains(all@, x);
        }
        let s = source_ids_spec(*space);
        lemma_sorted_sets_equal(s, v);
    }
    ids
}

pub open spec fn obstruction_id_of() -> spec_fn(ObstructionView) -> Option<Seq<char>> {
    |o: ObstructionView| o.id
}

pub open spec fn candidate_id_of() -> spec_fn(Candidate) -> Option<Seq<char>> {
    |c: Candidate| opt_view(c.id)
}

/// The ids a projection represents: the obstructions' ids, then the candidates'.
pub open spec fn represented_spec(obs: Seq<ObstructionView>, cands: Seq<Candidate>) -> Seq<Seq<char>> {
    obs.filter_map(obstruction_id_of()) + cands.filter_map(candidate_id_of())
}

/// The ids of the obstructions, then of the candidates, that have one.
pub fn represented_ids(obstructions: &Vec<Obstruction>, candidates: &Vec<Candidate>) -> (r: Vec<String>)
    ensures
        views(r@) == represented_spec(obstruction_views(obstructions@), candidates@),
{
    let ghost obs = obstruction_views(obstructions@);
    let ghost f = obstruction_id_of();
    let ghost g = candidate_id_of();
    let mut out: Vec<String> = Vec::new();
    let mut i: usize = 0;
    while i < obstructions.len()
        invariant
            i <= obstructions.len(),
            obs == obstruction_views(obstructions@),
            f == obstruction_id_of(),
            views(out@) == obs.take(i as int).filter_map(f),
        decreases obstructions.len() - i,
    {
        proof {
            obs.lemma_filter_map_take_succ(f, i as int);
        }
        assert(obs[i as int] == obstructions@[i as int]@);
        match &obstructions[i].id {
            Some(id) => {
                let ghost old = out@;
                out.push(id.clone());
                assert(views(out@) =~= views(old) + seq![id@]);
            },
            None => {},
        }
        i = i + 1;
    }
    assert(obs.take(obstructions@.len() as int) =~= obs);
    let ghost first = views(out@);
    let mut j: usize = 0;
    while j < candidates.len()
        invariant
            j <= candidates.len(),
            g == candidate_id_of(),
            views(out@) == first + candidates@.take(j as int).filter_map(g),
        decreases candidates.len() - j,
    {
        proof {
            candidates@.lemma_filter_map_take_succ(g, j as int);
        }
        match &candidates[j].id {
            Some(id) => {
                let ghost old = out@;
                out.push(id.clone());
                assert(views(out@) =~= views(old) + seq![id@]);
            },
            None => {},
        }
        j = j + 1;
    }
    assert(candidates@.take(candidates@.len() as int) =~= candidates@);
    out
}

/// What a projection leaves out or compresses.
pub struct ProjectionLoss {
    pub loss_type: String,
    pub description: String,
    pub omitted_ids: Vec<String>,
    pub severity: String,
}

pub struct ProjectionLossView {
    pub loss_type: Seq<char>,
    pub description: Seq<char>,
    pub omitted_ids: Seq<Seq<char>>,
    pub severity: Seq<char>,
}

impl View for ProjectionLoss {
    type V = ProjectionLossView;

    open spec fn view(&self) -> ProjectionLossView {
        ProjectionLossView {
            loss_type: self.loss_type@,
            description: self.description@,
            omitted_ids: views(self.omitted_ids@),
            severity: self.severity@,
        }
    }
}

pub open spec fn loss_views(s: Seq<ProjectionLoss>) -> Seq<ProjectionLossView> {
    s.map_values(|l: ProjectionLoss| l@)
}

pub open spec fn is_code_derived(o: ObstructionView) -> bool {
    o.specificity == Some("code_derived"@)
}

pub open spec fn code_derived_id_of() -> spec_fn(ObstructionView) -> Option<Seq<char>> {
    |o: ObstructionView|
        if is_code_derived(o) {
            o.id
        } else {
            None
        }
}

/// The loss of every projection: source text is represented by structured records;
/// and, when some obstruction is code-derived, the caveat that lexical detection
/// can miss or misread structure, naming those obstructions.
pub open spec fn loss_spec(space: Space, obs: Seq<ObstructionView>) -> Seq<ProjectionLossView> {
    let omitted = ProjectionLossView {
        loss_type: "omitted_source_text"@,
        description: "Source material is represented by structured records and summarized for this projection."@,
        omitted_ids: source_ids_spec(space),
        severity: "low"@,
    };
    let lexical = ProjectionLossView {
        loss_type: "lexical_detection_caveat"@,
        description: "Code-derived findings come from lexical code snapshots; shared middleware, dynamic wrappers, and framework conventions can require review."@,
        omitted_ids: obs.filter_map(code_derived_id_of()),
        severity: "medium"@,
    };
    if exists|i: int| 0 <= i < obs.len() && is_code_derived(#[trigger] obs[i]) {
        seq![omitted, lexical]
    } else {
        seq![omitted]
    }
}

/// The projection loss of a projection of `space` under a report with `obstructions`.
pub fn projection_loss(space: &Space, obstructions: &Vec<Obstruction>) -> (r: Vec<ProjectionLoss>)
    ensures
        loss_views(r@) == loss_spec(*space, obstruction_views(obstructions@)),
{
    let ghost obs = obstruction_views(obstructions@);
    let ghost f = code_derived_id_of();
    let mut lexical_ids: Vec<String> = Vec::new();
    let mut any = false;
    let mut i: usize = 0;
    while i < obstructions.len()
        invariant
            i <= obstructions.len(),
            obs == obstruction_views(obstructions@),
            f == code_derived_id_of(),
            views(lexical_ids@) == obs.take(i as int).filter_map(f),
            any == exists|k: int| 0 <= k < i && is_code_derived(#[trigger] obs[k]),
        decreases obstructions.len() - i,
    {
        proof {
            obs.lemma_filter_map_take_succ(f, i as int);
            reveal_strlit("code_derived");
        }
        let o = &obstructions[i];
        assert(obs[i as int] == o@);
        let code = match &o.specificity {
            Some(sp) => str_eq(sp.as_str(), "code_derived"),
            None => false,
        };
        if code {
            any = true;
            match &o.id {
                Some(id) => {
                    let ghost old = lexical_ids@;
                    lexical_ids.push(id.clone());
                    assert(views(lexical_ids@) =~= views(old) + seq![id@]);
                },
                None => {},
            }
        }
        i = i + 1;
    }
    assert(obs.take(obstructions@.len() as int) =~= obs);
    let omitted = ProjectionLoss {
        loss_type: text("omitted_source_text"),
        description: text(
            "Source material is represented by structured records and summarized for this projection.",
        ),
        omitted_ids: source_ids(space),
        severity: text("low"),
    };
    let mut out: Vec<ProjectionLoss> = Vec::new();
    let ghost ov = omitted@;
    out.push(omitted);
    if any {
        let lexical = ProjectionLoss {
            loss_type: text("lexical_detection_caveat"),
            description: text(
                "Code-derived findings come from lexical code snapshots; shared middleware, dynamic wrappers, and framework conventions can require review.",
            ),
            omitted_ids: lexical_ids,
            severity: text("medium"),
        };
        let ghost lv = lexical@;
        out.push(lexical);
        assert(loss_views(out@) =~= seq![ov, lv]);
    } else {
        assert(loss_views(out@) =~= seq![ov]);
    }
    out
}

/// The audiences a projection can be built for.
#[derive(Clone, Copy, Debug, PartialEq, Eq, Structural)]
pub enum Audience {
    Executive,
    DeveloperAction,
    AuditTrace,
    AiAgent,
}

impl Audience {
    /// The audience a requested audience name is served as: `client_review` and `cli`
    /// get the executive projection.
    pub open spec fn parse_spec(name: Seq<char>) -> Option<Audience> {
        if name == "executive"@ || name == "client_review"@ || name == "cli"@ {
            Some(Audience::Executive)
        } else if name == "developer_action"@ {
            Some(Audience::DeveloperAction)
        } else if name == "audit_trace"@ {
            Some(Audience::AuditTrace)
        } else if name == "ai_agent"@ {
            Some(Audience::AiAgent)
        } else {
            None
        }
    }

    pub open spec fn name(self) -> Seq<char> {
        match self {
            Audience::Executive => "executive"@,
            Audience::DeveloperAction => "developer_action"@,
            Audience::AuditTrace => "audit_trace"@,
            Audience::AiAgent => "ai_agent"@,
        }
    }

    pub open spec fn id_prefix(self) -> Seq<char> {
        match self {
            Audience::Executive => "projection:executive:"@,
            Audience::DeveloperAction => "projection:developer-action:"@,
            Audience::AuditTrace => "projection:audit:"@,
            Audience::AiAgent => "projection:ai-agent:"@,
        }
    }

    /// The audience as a projection names it.
    pub fn as_str(&self) -> (r: &'static str)
        ensures
            r@ == self.name(),
    {
        match self {
            Audience::Executive => "executive",
            Audience::DeveloperAction => "developer_action",
            Audience::AuditTrace => "audit_trace",
            Audience::AiAgent => "ai_agent",
        }
    }
}

/// What a projection reads of a report: its obstructions, its completion candidates
/// and those of a related completions report, and its full JSON text for the audit trail.
pub struct ProjectionReport {
    /// `result.obstructions`
    pub obstructions: Vec<Obstruction>,
    /// `result.completion_candidates`
    pub candidates: Vec<Candidate>,
    /// `related_reports.completions.result.completion_candidates`
    pub related_candidates: Vec<Candidate>,
    pub json: String,
}

/// The report's candidates followed by those of the related completions report.
pub open spec fn report_candidates(r: ProjectionReport) -> Seq<Candidate> {
    r.candidates@ + r.related_candidates@
}

/// The executive summary of a space's state.
pub struct ExecutiveSummary {
    pub closeable: bool,
    /// The lowest severity that blocks close.
    pub blocking_threshold: String,
    pub blocking_obstruction_ids: Vec<String>,
    pub obstruction_counts: ObstructionCounts,
    pub high_severity_obstructions: Vec<Obstruction>,
    pub medium_severity_obstructions: Vec<Obstruction>,
    /// Always set: candidates nobody reviewed are never presented as accepted.
    pub unreviewed_candidates_are_not_accepted: bool,
    pub candidate_quality: CandidateQuality,
}

/// How an ai_agent projection tells an agent to operate: who acts, what the source of
/// truth is, which commands are allowed, which need human review, what is forbidden,
/// how to resume, and which operations are safe next.
pub struct AgentGuidance {
    pub primary_operator: &'static str,
    pub human_role: &'static str,
    pub human_ui_role: &'static str,
    pub source_of_truth: &'static str,
    pub principle: &'static str,
    pub allowed_commands: Vec<&'static str>,
    pub review_gated_commands: Vec<&'static str>,
    pub forbidden_operations: Vec<&'static str>,
    pub resume_protocol: Vec<&'static str>,
    pub next_safe_operations: Vec<&'static str>,
}

pub open spec fn texts(s: Seq<&'static str>) -> Seq<Seq<char>> {
    s.map_values(|x: &'static str| x@)
}

/// The guidance every ai_agent projection carries.
pub open spec fn guidance_ok(g: AgentGuidance) -> bool {
    &&& g.primary_operator@ == "ai_agent"@
    &&& g.human_role@ == "sets goals, reviews candidates, and accepts or rejects promotions"@
    &&& g.human_ui_role@ == "projection_consumer"@
    &&& g.source_of_truth@ == "advisory_space_case_log_and_review_events"@
    &&& g.principle@
        == "HigherGraphen structure is manipulated by agents; humans review projections and explicit promotion events."@
    &&& texts(g.allowed_commands@) == seq![
        "validate"@,
        "lift"@,
        "check"@,
        "completions propose"@,
        "project ai_agent"@,
        "project audit_trace"@,
        "case import"@,
        "case reason"@,
        "case close-check"@,
    ]
    &&& texts(g.review_gated_commands@) == seq!["completions accept"@, "completions reject"@]
    &&& texts(g.forbidden_operations@) == seq![
        "promote unreviewed candidate structure"@,
        "hide projection_loss"@,
        "treat inferred evidence as accepted fact"@,
        "rewrite source material outside the bounded snapshot"@,
    ]
    &&& texts(g.resume_protocol@) == seq![
        "read close_status"@,
        "inspect open_obstructions"@,
        "inspect candidate_review_state"@,
        "inspect blocker_resolution_state.application_requirements when present"@,
        "propose missing owner or verification structure"@,
        "generate audit_trace before reporting final state"@,
    ]
    &&& texts(g.next_safe_operations@) == seq![
        "review_obstructions"@,
        "inspect_application_requirements"@,
        "propose_or_review_candidates"@,
        "run_case_close_check_before_closure"@,
        "generate_audit_projection"@,
    ]
}

/// The operating guidance of ai_agent projections.
pub fn agent_guidance() -> (r: AgentGuidance)
    ensures
        guidance_ok(r),
{
    let allowed_commands = vec![
        "validate",
        "lift",
        "check",
        "completions propose",
        "project ai_agent",
        "project audit_trace",
        "case import",
        "case reason",
        "case close-check",
    ];
    let review_gated_commands = vec!["completions accept", "completions reject"];
    let forbidden_operations = vec![
        "promote unreviewed candidate structure",
        "hide projection_loss",
        "treat inferred evidence as accepted fact",
        "rewrite source material outside the bounded snapshot",
    ];
    let resume_protocol = vec![
        "read close_status",
        "inspect open_obstructions",
        "inspect candidate_review_state",
        "inspect blocker_resolution_state.application_requirements when present",
        "propose missing owner or verification structure",
        "generate audit_trace before reporting final state",
    ];
    let next_safe_operations = vec![
        "review_obstructions",
        "inspect_application_requirements",
        "propose_or_review_candidates",
        "run_case_close_check_before_closure",
        "generate_audit_projection",
    ];
    let g = AgentGuidance {
        primary_operator: "ai_agent",
        human_role: "sets goals, reviews candidates, and accepts or rejects promotions",
        human_ui_role: "projection_consumer",
        source_of_truth: "advisory_space_case_log_and_review_events",
        principle: "HigherGraphen structure is manipulated by agents; humans review projections and explicit promotion events.",
        allowed_commands,
        review_gated_commands,
        forbidden_operations,
        resume_protocol,
        next_safe_operations,
    };
    assert(texts(g.allowed_commands@) =~= seq![
        "validate"@,
        "lift"@,
        "check"@,
        "completions propose"@,
        "project ai_agent"@,
        "project audit_trace"@,
        "case import"@,
        "case reason"@,
        "case close-check"@,
    ]);
    assert(texts(g.review_gated_commands@) =~= seq!["completions accept"@, "completions reject"@]);
    assert(texts(g.forbidden_operations@) =~= seq![
        "promote unreviewed candidate structure"@,
        "hide projection_loss"@,
        "treat inferred evidence as accepted fact"@,
        "rewrite source material outside the bounded snapshot"@,
    ]);
    assert(texts(g.resume_protocol@) =~= seq![
        "read close_status"@,
        "inspect open_obstructions"@,
        "inspect candidate_review_state"@,
        "inspect blocker_resolution_state.application_requirements when present"@,
        "propose missing owner or verification structure"@,
        "generate audit_trace before reporting final state"@,
    ]);
    assert(texts(g.next_safe_operations@) =~= seq![
        "review_obstructions"@,
        "inspect_application_requirements"@,
        "propose_or_review_candidates"@,
        "run_case_close_check_before_closure"@,
        "generate_audit_projection"@,
    ]);
    g
}

/// What a projection shows beyond the ids and losses every projection has.
pub enum ProjectionBody {
    Executive {
        summary: ExecutiveSummary,
        source_boundary: Option<SourceBoundary>,
        proposal_content_summary: ProposalContentSummary,
    },
    DeveloperAction { actions: Vec<Candidate> },
    AuditTrace { source_boundary: Option<SourceBoundary>, report_json: String },
    AiAgent {
        open_obstructions: Vec<Obstruction>,
        candidate_review_state: Vec<Candidate>,
        blocker_resolution_state: Vec<ResolutionEntry>,
        frontier_items: Vec<WorkItem>,
        waiting_items: Vec<WorkItem>,
        close_status: CloseStatus,
        proposal_content_summary: ProposalContentSummary,
        guidance: AgentGuidance,
    },
}

/// A projection of an advisory space for one audience.
pub struct Projection {
    pub audience: Audience,
    pub projection_id: String,
    pub space_id: String,
    pub represented_ids: Vec<String>,
    pub omitted_ids: Vec<String>,
    pub projection_loss: Vec<ProjectionLoss>,
    pub body: ProjectionBody,
}

pub open spec fn boundary_view(b: Option<SourceBoundary>) -> Option<SourceBoundaryView> {
    match b {
        Some(x) => Some(x@),
        None => None,
    }
}

/// The executive summary of a space under a report's obstructions and candidates.
pub open spec fn summary_ok(s: ExecutiveSummary, obs: Seq<ObstructionView>, cands: Seq<Candidate>) -> bool {
    &&& s.closeable == (forall|i: int| 0 <= i < obs.len() ==> !is_blocking(#[trigger] obs[i]))
    &&& s.blocking_threshold@ == "medium"@
    &&& views(s.blocking_obstruction_ids@) == obs.filter_map(blocking_id_of())
    &&& counts_match(s.obstruction_counts, obs)
    &&& obstruction_views(s.high_severity_obstructions@) == obs.filter_map(has_severity("high"@))
    &&& obstruction_views(s.medium_severity_obstructions@) == obs.filter_map(has_severity("medium"@))
    &&& s.unreviewed_candidates_are_not_accepted
    &&& quality_matches(s.candidate_quality, cands)
}

/// The body a projection for `audience` has.
pub open spec fn body_ok(body: ProjectionBody, audience: Audience, space: Space, report: ProjectionReport) -> bool {
    let obs = obstruction_views(report.obstructions@);
    let cands = report_candidates(report);
    match audience {
        Audience::Executive => match body {
            ProjectionBody::Executive { summary, source_boundary, proposal_content_summary } => {
                &&& summary_ok(summary, obs, cands)
                &&& boundary_view(source_boundary) == boundary_view(space.source_boundary)
                &&& summary_matches(proposal_content_summary, cands)
            },
            _ => false,
        },
        Audience::DeveloperAction => match body {
            ProjectionBody::DeveloperAction { actions } => actions@ == cands,
            _ => false,
        },
        Audience::AuditTrace => match body {
            ProjectionBody::AuditTrace { source_boundary, report_json } => {
                &&& boundary_view(source_boundary) == boundary_view(space.source_boundary)
                &&& report_json@ == report.json@
            },
            _ => false,
        },
        Audience::AiAgent => match body {
            ProjectionBody::AiAgent {
                open_obstructions,
                candidate_review_state,
                blocker_resolution_state,
                frontier_items,
                waiting_items,
                close_status,
                proposal_content_summary,
                guidance,
            } => {
                &&& guidance_ok(guidance)
                &&& open_obstructions@ == report.obstructions@
                &&& candidate_review_state@ == cands
                &&& entry_views(blocker_resolution_state@) == state_spec(report.obstructions@, cands, true)
                &&& item_views(frontier_items@) == entry_views(blocker_resolution_state@).filter_map(item_if(true))
                &&& item_views(waiting_items@) == entry_views(blocker_resolution_state@).filter_map(item_if(false))
                &&& close_status.space_id@ == space.space_id@
                &&& close_status.blocking_threshold@ == "medium"@
                &&& close_status.closeable == (forall|i: int| 0 <= i < obs.len() ==> !is_blocking(#[trigger] obs[i]))
                &&& views(close_status.blocking_obstruction_ids@) == obs.filter_map(blocking_id_of())
                &&& summary_matches(proposal_content_summary, cands)
            },
            _ => false,
        },
    }
}

/// The projection for `audience` of `space` under `report`.
pub open spec fn projection_ok(p: Projection, audience: Audience, space: Space, report: ProjectionReport) -> bool {
    &&& p.audience == audience
    &&& p.space_id@ == space.space_id@
    &&& p.projection_id@ == audience.id_prefix() + trim_start_all(space.space_id@, "space:advisory:"@)
    &&& views(p.represented_ids@) == represented_spec(obstruction_views(report.obstructions@), report_candidates(report))
    &&& views(p.omitted_ids@) == if audience == Audience::AuditTrace {
        Seq::empty()
    } else {
        source_ids_spec(space)
    }
    &&& loss_views(p.projection_loss@) == loss_spec(space, obstruction_views(report.obstructions@))
    &&& body_ok(p.body, audience, space, report)
}

fn copy_boundary(b: &Option<SourceBoundary>) -> (r: Option<SourceBoundary>)
    ensures
        boundary_view(r) == boundary_view(*b),
{
    match b {
        Some(x) => Some(x.duplicate()),
        None => None,
    }
}

/// What building the projection for the audience named `audience` gives: the
/// projection of the audience that the name parses to, or the refusal of an unknown name.
pub open spec fn built_projection(space: Space, report: ProjectionReport, audience: Seq<char>, r: Result<Projection, AdvisoryError>) -> bool {
    match r {
        Ok(p) => Audience::parse_spec(audience) == Some(p.audience) && projection_ok(p, p.audience, space, report),
        Err(e) => Audience::parse_spec(audience) is None && e is UnsupportedAudience && e->UnsupportedAudience_0@ == audience,
    }
}

/// Builds the projection of `space` under `report` for the audience named `audience`.
/// Unknown audience names are refused.
pub fn build_projection(space: &Space, report: ProjectionReport, audience: &str) -> (r: Result<Projection, AdvisoryError>)
    ensures
        built_projection(*space, report, audience@, r),
{
    let kind = if str_eq(audience, "executive") || str_eq(audience, "client_review") || str_eq(audience, "cli") {
        Audience::Executive
    } else if str_eq(audience, "developer_action") {
        Audience::DeveloperAction
    } else if str_eq(audience, "audit_trace") {
        Audience::AuditTrace
    } else if str_eq(audience, "ai_agent") {
        Audience::AiAgent
    } else {
        return Err(AdvisoryError::UnsupportedAudience(text(audience)));
    };
    let ghost given = report;
    let ProjectionReport { obstructions, candidates, related_candidates, json } = report;
    let mut cands = candidates;
    let mut related = related_candidates;
    cands.append(&mut related);
    assert(cands@ == report_candidates(given));
    let represented = represented_ids(&obstructions, &cands);
    let omitted = match kind {
        Audience::AuditTrace => {
            let none: Vec<String> = Vec::new();
            assert(views(none@) =~= Seq::<Seq<char>>::empty());
            none
        },
        _ => source_ids(space),
    };
    let loss = projection_loss(space, &obstructions);
    let suffix = trim_start_matches(space.space_id.as_str(), "space:advisory:");
    let prefix = match kind {
        Audience::Executive => "projection:executive:",
        Audience::DeveloperAction => "projection:developer-action:",
        Audience::AuditTrace => "projection:audit:",
        Audience::AiAgent => "projection:ai-agent:",
    };
    let projection_id = cat(prefix, suffix.as_str());
    let body = match kind {
        Audience::Executive => {
            let status = close_status(space.space_id.as_str(), &obstructions);
            let summary = ExecutiveSummary {
                closeable: status.closeable,
                blocking_threshold: status.blocking_threshold,
                blocking_obstruction_ids: status.blocking_obstruction_ids,
                obstruction_counts: obstruction_counts(&obstructions),
                high_severity_obstructions: obstructions_by_severity(&obstructions, "high"),
                medium_severity_obstructions: obstructions_by_severity(&obstructions, "medium"),
                unreviewed_candidates_are_not_accepted: true,
                candidate_quality: candidate_quality(&cands),
            };
            ProjectionBody::Executive {
                summary,
                source_boundary: copy_boundary(&space.source_boundary),
                proposal_content_summary: proposal_content_summary(&cands),
            }
        },
        Audience::DeveloperAction => ProjectionBody::DeveloperAction { actions: cands },
        Audience::AuditTrace => ProjectionBody::AuditTrace {
            source_boundary: copy_boundary(&space.source_boundary),
            report_json: json,
        },
        Audience::AiAgent => {
            let state = blocker_resolution_state(&obstructions, &cands);
            let frontier = frontier_items(&state);
            let waiting = waiting_items(&state);
            let status = close_status(space.space_id.as_str(), &obstructions);
            let pcs = proposal_content_summary(&cands);
            ProjectionBody::AiAgent {
                open_obstructions: obstructions,
                candidate_review_state: cands,
                blocker_resolution_state: state,
                frontier_items: frontier,
                waiting_items: waiting,
                close_status: status,
                proposal_content_summary: pcs,
                guidance: agent_guidance(),
            }
        },
    };
    Ok(Projection {
        audience: kind,
        projection_id,
        space_id: space.space_id.clone(),
        represented_ids: represented,
        omitted_ids: omitted,
        projection_loss: loss,
        body,
    })
}

pub open spec fn digit(d: nat) -> char {
    if d == 0 {
        '0'
    } else if d == 1 {
        '1'
    } else if d == 2 {
        '2'
    } else if d == 3 {
        '3'
    } else if d == 4 {
        '4'
    } else if d == 5 {
        '5'
    } else if d == 6 {
        '6'
    } else if d == 7 {
        '7'
    } else if d == 8 {
        '8'
    } else {
        '9'
    }
}

/// The decimal digits of `n`, without leading zeros.
pub open spec fn decimal(n: nat) -> Seq<char>
    decreases n,
{
    if n < 10 {
        seq![digit(n)]
    } else {
        decimal(n / 10).push(digit(n % 10))
    }
}

fn digit_char(d: usize) -> (r: char)
    requires
        d < 10,
    ensures
        r == digit(d as nat),
{
    if d == 0 {
        '0'
    } else if d == 1 {
        '1'
    } else if d == 2 {
        '2'
    } else if d == 3 {
        '3'
    } else if d == 4 {
        '4'
    } else if d == 5 {
        '5'
    } else if d == 6 {
        '6'
    } else if d == 7 {
        '7'
    } else if d == 8 {
        '8'
    } else {
        '9'
    }
}

/// `n` written in decimal.
pub fn decimal_text(n: usize) -> (r: String)
    ensures
        r@ == decimal(n as nat),
    decreases n,
{
    let mut s = if n >= 10 {
        decimal_text(n / 10)
    } else {
        String::new()
    };
    push_char(&mut s, digit_char(n % 10));
    s
}

pub open spec fn or_text(o: Option<Seq<char>>, d: Seq<char>) -> Seq<char> {
    match o {
        Some(x) => x,
        None => d,
    }
}

pub open spec fn bool_text(b: bool) -> Seq<char> {
    if b {
        "true"@
    } else {
        "false"@
    }
}

/// `s` with every underscore read as a space.
pub open spec fn spaced(s: Seq<char>) -> Seq<char> {
    s.map_values(|c: char| if c == '_' { ' ' } else { c })
}

/// `lines` joined by newlines.
pub open spec fn join_lines(lines: Seq<Seq<char>>) -> Seq<char>
    decreases lines.len(),
{
    if lines.len() == 0 {
        Seq::empty()
    } else if lines.len() == 1 {
        lines[0]
    } else {
        join_lines(lines.drop_last()) + "\n"@ + lines.last()
    }
}

pub open spec fn obstruction_line(o: ObstructionView) -> Seq<char> {
    "- `"@ + or_text(o.id, "unknown"@) + "`: "@ + or_text(o.message, "No message."@)
}

/// A titled list of obstructions, `- None` when it is empty, and a blank line.
pub open spec fn obstruction_section(title: Seq<char>, obs: Seq<ObstructionView>) -> Seq<Seq<char>> {
    seq![title] + (if obs.len() == 0 {
        seq!["- None"@]
    } else {
        obs.map_values(|o: ObstructionView| obstruction_line(o))
    }) + seq![""@]
}

pub open spec fn summary_lines(s: ExecutiveSummary) -> Seq<Seq<char>> {
    let c = s.obstruction_counts;
    seq![
        "## Close status"@,
        "- Closeable: `"@ + bool_text(s.closeable) + "`"@,
        "- Blocking obstructions: "@ + decimal(s.blocking_obstruction_ids@.len()),
        ""@,
        "## Obstruction summary"@,
        "- high: "@ + decimal(c.high as nat),
        "- medium: "@ + decimal(c.medium as nat),
        "- low: "@ + decimal(c.low as nat),
        "- unknown: "@ + decimal(c.unknown as nat),
        ""@,
    ] + obstruction_section("## High-severity obstructions"@, obstruction_views(s.high_severity_obstructions@))
        + obstruction_section(
        "## Medium-severity obstructions"@,
        obstruction_views(s.medium_severity_obstructions@),
    )
}

pub open spec fn boundary_lines(b: Option<SourceBoundaryView>) -> Seq<Seq<char>> {
    let items = match b {
        Some(v) => (match v.included_source_count {
            Some(n) => seq!["- Included sources: "@ + decimal(n as nat)],
            None => Seq::empty(),
        }) + (match v.excluded_summary {
            Some(xs) => xs.map_values(|x: Option<Seq<char>>| "- Excluded: "@ + or_text(x, "unknown"@)),
            None => Seq::empty(),
        }),
        None => Seq::empty(),
    };
    seq!["## Source boundary"@] + items + seq![""@]
}

pub open spec fn loss_line(l: ProjectionLossView) -> Seq<char> {
    "- `"@ + l.loss_type + "`: "@ + l.description
}

pub open spec fn loss_lines(ls: Seq<ProjectionLossView>) -> Seq<Seq<char>> {
    seq!["## Projection loss"@] + ls.map_values(|l: ProjectionLossView| loss_line(l))
}

pub open spec fn body_lines(body: ProjectionBody) -> Seq<Seq<char>> {
    match body {
        ProjectionBody::Executive { summary, source_boundary, .. } => summary_lines(summary) + boundary_lines(
            boundary_view(source_boundary),
        ),
        ProjectionBody::AuditTrace { source_boundary, .. } => boundary_lines(boundary_view(source_boundary)),
        _ => Seq::empty(),
    }
}

/// The lines of the Markdown rendering: a title naming the audience, the space, the
/// executive summary and source boundary where the projection has them, and the
/// projection loss.
pub open spec fn markdown_lines(audience: Seq<char>, p: Projection) -> Seq<Seq<char>> {
    seq!["# AdvisoryGraphen "@ + spaced(audience) + " Projection"@, ""@, "Space: `"@ + p.space_id@ + "`"@, ""@]
        + body_lines(p.body) + loss_lines(loss_views(p.projection_loss@))
}

fn spaced_text(s: &str) -> (r: String)
    ensures
        r@ == spaced(s@),
{
    let n = s.unicode_len();
    let mut out = String::new();
    let mut i: usize = 0;
    while i < n
        invariant
            i <= n,
            n == s@.len(),
            out@ == spaced(s@.subrange(0, i as int)),
        decreases n - i,
    {
        let c = s.get_char(i);
        push_char(&mut out, if c == '_' { ' ' } else { c });
        assert(s@.subrange(0, i + 1) =~= s@.subrange(0, i as int).push(c));
        assert(out@ =~= spaced(s@.subrange(0, i + 1)));
        i = i + 1;
    }
    assert(s@.subrange(0, n as int) =~= s@);
    out
}

fn join_text(lines: &Vec<String>) -> (r: String)
    ensures
        r@ == join_lines(views(lines@)),
{
    let mut out = String::new();
    let mut i: usize = 0;
    while i < lines.len()
        invariant
            i <= lines.len(),
            out@ == join_lines(views(lines@).take(i as int)),
        decreases lines.len() - i,
    {
        let ghost t = views(lines@).take(i + 1);
        assert(t.drop_last() =~= views(lines@).take(i as int));
        assert(t.last() == lines@[i as int]@);
        if i > 0 {
            out.append("\n");
        } else {
            assert(t.len() == 1);
        }
        out.append(lines[i].as_str());
        i = i + 1;
    }
    assert(views(lines@).take(lines@.len() as int) =~= views(lines@));
    out
}

fn extend_lines(lines: &mut Vec<String>, more: Vec<String>)
    ensures
        views(final(lines)@) == views(old(lines)@) + views(more@),
{
    let mut more = more;
    let ghost a = lines@;
    let ghost b = more@;
    lines.append(&mut more);
    assert(views(lines@) =~= views(a) + views(b));
}

fn line3(a: &str, b: &str, c: &str) -> (r: String)
    ensures
        r@ == a@ + b@ + c@,
{
    let mut s = cat(a, b);
    s.append(c);
    s
}

fn obstruction_section_lines(title: &str, obs: &Vec<Obstruction>) -> (r: Vec<String>)
    ensures
        views(r@) == obstruction_section(title@, obstruction_views(obs@)),
{
    let mut out: Vec<String> = Vec::new();
    out.push(text(title));
    if obs.len() == 0 {
        out.push(text("- None"));
    } else {
        let ghost target = obstruction_views(obs@).map_values(|o: ObstructionView| obstruction_line(o));
        let ghost head = views(out@);
        let mut i: usize = 0;
        while i < obs.len()
            invariant
                i <= obs.len(),
                target == obstruction_views(obs@).map_values(|o: ObstructionView| obstruction_line(o)),
                views(out@) == head + target.take(i as int),
            decreases obs.len() - i,
        {
            let o = &obs[i];
            let id = match &o.id {
                Some(x) => x.as_str(),
                None => "unknown",
            };
            let message = match &o.message {
                Some(x) => x.as_str(),
                None => "No message.",
            };
            let mut line = line3("- `", id, "`: ");
            line.append(message);
            let ghost lv = line@;
            assert(lv == obstruction_line(o@));
            let ghost old = out@;
            out.push(line);
            assert(views(out@) =~= views(old).push(lv));
            assert(target.take(i + 1) =~= target.take(i as int).push(lv));
            i = i + 1;
        }
        assert(target.take(obs@.len() as int) =~= target);
    }
    let ghost before = out@;
    out.push(text(""));
    assert(views(out@) =~= views(before).push(""@));
    assert(views(out@) =~= obstruction_section(title@, obstruction_views(obs@)));
    out
}

fn summary_section_lines(s: &ExecutiveSummary) -> (r: Vec<String>)
    ensures
        views(r@) == summary_lines(*s),
{
    let c = &s.obstruction_counts;
    let mut out: Vec<String> = Vec::new();
    out.push(text("## Close status"));
    out.push(line3("- Closeable: `", if s.closeable { "true" } else { "false" }, "`"));
    out.push(cat("- Blocking obstructions: ", decimal_text(s.blocking_obstruction_ids.len()).as_str()));
    out.push(text(""));
    out.push(text("## Obstruction summary"));
    out.push(cat("- high: ", decimal_text(c.high).as_str()));
    out.push(cat("- medium: ", decimal_text(c.medium).as_str()));
    out.push(cat("- low: ", decimal_text(c.low).as_str()));
    out.push(cat("- unknown: ", decimal_text(c.unknown).as_str()));
    out.push(text(""));
    let ghost first = views(out@);
    assert(first =~= summary_lines(*s).take(10));
    extend_lines(&mut out, obstruction_section_lines("## High-severity obstructions", &s.high_severity_obstructions));
    extend_lines(
        &mut out,
        obstruction_section_lines("## Medium-severity obstructions", &s.medium_severity_obstructions),
    );
    assert(views(out@) =~= summary_lines(*s));
    out
}

fn boundary_section_lines(b: &Option<SourceBoundary>) -> (r: Vec<String>)
    ensures
        views(r@) == boundary_lines(boundary_view(*b)),
{
    let mut out: Vec<String> = Vec::new();
    out.push(text("## Source boundary"));
    let ghost head = views(out@);
    let ghost items: Seq<Seq<char>> = match boundary_view(*b) {
        Some(v) => (match v.included_source_count {
            Some(n) => seq!["- Included sources: "@ + decimal(n as nat)],
            None => Seq::empty(),
        }) + (match v.excluded_summary {
            Some(xs) => xs.map_values(|x: Option<Seq<char>>| "- Excluded: "@ + or_text(x, "unknown"@)),
            None => Seq::empty(),
        }),
        None => Seq::empty(),
    };
    match b {
        Some(v) => {
            match v.included_source_count {
                Some(n) => {
                    out.push(cat("- Included sources: ", decimal_text(n).as_str()));
                },
                None => {},
            }
            let ghost mid = views(out@);
            match &v.excluded_summary {
                Some(xs) => {
                    let ghost ex = crate::model::opt_views(xs@).map_values(
                        |x: Option<Seq<char>>| "- Excluded: "@ + or_text(x, "unknown"@),
                    );
                    let mut i: usize = 0;
                    while i < xs.len()
                        invariant
                            i <= xs.len(),
                            ex == crate::model::opt_views(xs@).map_values(
                                |x: Option<Seq<char>>| "- Excluded: "@ + or_text(x, "unknown"@),
                            ),
                            views(out@) == mid + ex.take(i as int),
                        decreases xs.len() - i,
                    {
                        let item = match &xs[i] {
                            Some(x) => x.as_str(),
                            None => "unknown",
                        };
                        let line = cat("- Excluded: ", item);
                        let ghost lv = line@;
                        assert(lv == ex[i as int]);
                        let ghost old = out@;
                        out.push(line);
                        assert(views(out@) =~= views(old).push(lv));
                        assert(ex.take(i + 1) =~= ex.take(i as int).push(lv));
                        i = i + 1;
                    }
                    assert(ex.take(xs@.len() as int) =~= ex);
                },
                None => {},
            }
            assert(views(out@) =~= head + items);
        },
        None => {
            assert(views(out@) =~= head + items);
        },
    }
    let ghost before = out@;
    out.push(text(""));
    assert(views(out@) =~= views(before).push(""@));
    assert(views(out@) =~= boundary_lines(boundary_view(*b)));
    out
}

fn loss_section_lines(ls: &Vec<ProjectionLoss>) -> (r: Vec<String>)
    ensures
        views(r@) == loss_lines(loss_views(ls@)),
{
    let mut out: Vec<String> = Vec::new();
    out.push(text("## Projection loss"));
    let ghost head = views(out@);
    let ghost target = loss_views(ls@).map_values(|l: ProjectionLossView| loss_line(l));
    let mut i: usize = 0;
    while i < ls.len()
        invariant
            i <= ls.len(),
            target == loss_views(ls@).map_values(|l: ProjectionLossView| loss_line(l)),
            views(out@) == head + target.take(i as int),
        decreases ls.len() - i,
    {
        let l = &ls[i];
        let mut line = line3("- `", l.loss_type.as_str(), "`: ");
        line.append(l.description.as_str());
        let ghost lv = line@;
        assert(lv == target[i as int]);
        let ghost old = out@;
        out.push(line);
        assert(views(out@) =~= views(old).push(lv));
        assert(target.take(i + 1) =~= target.take(i as int).push(lv));
        i = i + 1;
    }
    assert(target.take(ls@.len() as int) =~= target);
    assert(views(out@) =~= loss_lines(loss_views(ls@)));
    out
}

/// The projection as Markdown, titled with the requested audience name.
pub fn render_markdown(audience: &str, projection: &Projection) -> (r: String)
    ensures
        r@ == join_lines(markdown_lines(audience@, *projection)),
{
    let mut lines: Vec<String> = Vec::new();
    lines.push(line3("# AdvisoryGraphen ", spaced_text(audience).as_str(), " Projection"));
    lines.push(text(""));
    lines.push(line3("Space: `", projection.space_id.as_str(), "`"));
    lines.push(text(""));
    match &projection.body {
        ProjectionBody::Executive { summary, source_boundary, .. } => {
            extend_lines(&mut lines, summary_section_lines(summary));
            extend_lines(&mut lines, boundary_section_lines(source_boundary));
        },
        ProjectionBody::AuditTrace { source_boundary, .. } => {
            extend_lines(&mut lines, boundary_section_lines(source_boundary));
        },
        _ => {},
    }
    extend_lines(&mut lines, loss_section_lines(&projection.projection_loss));
    assert(views(lines@) =~= markdown_lines(audience@, *projection));
    join_text(&lines)
}

/// A projection written out: the projection itself, for a JSON writer, or Markdown text.
pub enum ProjectOutput {
    Json(Projection),
    Markdown(String),
}

/// What `project` writes: the projection itself for JSON; for Markdown, the rendering
/// of the projection for the audience, which is the rendering of every projection that
/// meets the audience's contract, so of whatever `build_projection` returns; or the
/// refusal of an unknown audience name.
pub open spec fn projected(
    space: Space,
    report: ProjectionReport,
    audience: Seq<char>,
    format: OutputFormat,
    r: Result<ProjectOutput, AdvisoryError>,
) -> bool {
    match r {
        Ok(ProjectOutput::Json(p)) => format == OutputFormat::Json && Audience::parse_spec(audience) == Some(p.audience)
            && projection_ok(p, p.audience, space, report),
        Ok(ProjectOutput::Markdown(m)) => {
            &&& format == OutputFormat::Markdown
            &&& Audience::parse_spec(audience) is Some
            &&& exists|p: Projection|
                Audience::parse_spec(audience) == Some(p.audience) && projection_ok(p, p.audience, space, report)
                    && m@ == join_lines(#[trigger] markdown_lines(audience, p))
            &&& forall|q: Projection|
                projection_ok(q, Audience::parse_spec(audience).unwrap(), space, report) ==> m@ == join_lines(
                    #[trigger] markdown_lines(audience, q),
                )
        },
        Err(e) => Audience::parse_spec(audience) is None && e is UnsupportedAudience && e->UnsupportedAudience_0@ == audience,
    }
}

/// Builds the projection for `audience` and writes it out in `format`.
pub fn project(space: &Space, report: ProjectionReport, audience: &str, format: OutputFormat) -> (r: Result<
    ProjectOutput,
    AdvisoryError,
>)
    ensures
        projected(*space, report, audience@, format, r),
{
    let ghost given = report;
    let p = match build_projection(space, report, audience) {
        Ok(p) => p,
        Err(e) => return Err(e),
    };
    match format {
        OutputFormat::Json => Ok(ProjectOutput::Json(p)),
        OutputFormat::Markdown => {
            let m = render_markdown(audience, &p);
            assert(Audience::parse_spec(audience@) == Some(p.audience) && projection_ok(p, p.audience, *space, given)
                && m@ == join_lines(markdown_lines(audience@, p)));
            assert forall|q: Projection| projection_ok(q, Audience::parse_spec(audience@).unwrap(), *space, given) implies m@
                == join_lines(#[trigger] markdown_lines(audience@, q)) by {
                law_markdown_determined(p, q, p.audience, audience@, *space, given);
            }
            Ok(ProjectOutput::Markdown(m))
        },
    }
}

/// Every projection declares its loss: the first entry always says that source text is
/// represented by structured records, and names every source id of the space.
pub proof fn law_projection_loss_declared(space: Space, obs: Seq<ObstructionView>)
    ensures
        loss_spec(space, obs).len() >= 1,
        loss_spec(space, obs)[0].loss_type == "omitted_source_text"@,
        loss_spec(space, obs)[0].omitted_ids == source_ids_spec(space),
{
}

/// The lexical detection caveat is declared exactly when some obstruction is
/// code-derived, and it names every code-derived obstruction that has an id.
pub proof fn law_lexical_caveat_iff_code_derived(space: Space, obs: Seq<ObstructionView>)
    ensures
        (exists|i: int|
            0 <= i < loss_spec(space, obs).len() && (#[trigger] loss_spec(space, obs)[i]).loss_type
                == "lexical_detection_caveat"@) <==> (exists|j: int| 0 <= j < obs.len() && is_code_derived(#[trigger] obs[j])),
        forall|i: int|
            0 <= i < loss_spec(space, obs).len() && (#[trigger] loss_spec(space, obs)[i]).loss_type
                == "lexical_detection_caveat"@ ==> loss_spec(space, obs)[i].omitted_ids == obs.filter_map(
                code_derived_id_of(),
            ),
{
    reveal_strlit("omitted_source_text");
    reveal_strlit("lexical_detection_caveat");
    assert("omitted_source_text"@.len() != "lexical_detection_caveat"@.len());
    if exists|j: int| 0 <= j < obs.len() && is_code_derived(#[trigger] obs[j]) {
        assert(loss_spec(space, obs)[1].loss_type == "lexical_detection_caveat"@);
    }
}

proof fn lemma_buckets_partition(obs: Seq<ObstructionView>)
    ensures
        count_where(obs, in_bucket("high"@)) + count_where(obs, in_bucket("medium"@)) + count_where(
            obs,
            in_bucket("low"@),
        ) + count_where(obs, in_bucket("unknown"@)) == obs.len(),
    decreases obs.len(),
{
    reveal_strlit("high");
    reveal_strlit("medium");
    reveal_strlit("low");
    reveal_strlit("unknown");
    assert("high"@.len() == 4 && "medium"@.len() == 6 && "low"@.len() == 3 && "unknown"@.len() == 7);
    if obs.len() > 0 {
        lemma_buckets_partition(obs.drop_last());
    }
}

/// The severity buckets of a projection summary count every obstruction exactly once.
pub proof fn law_severity_counts_cover_obstructions(c: ObstructionCounts, obs: Seq<ObstructionView>)
    requires
        counts_match(c, obs),
    ensures
        c.high + c.medium + c.low + c.unknown == obs.len(),
{
    lemma_buckets_partition(obs);
}

/// The executive summary counts every obstruction of the report exactly once: its
/// four severity counts add up to the number of obstructions.
pub proof fn law_executive_counts_cover_obstructions(p: Projection, space: Space, report: ProjectionReport)
    requires
        projection_ok(p, Audience::Executive, space, report),
    ensures
        match p.body {
            ProjectionBody::Executive { summary, .. } => summary.obstruction_counts.high
                + summary.obstruction_counts.medium + summary.obstruction_counts.low
                + summary.obstruction_counts.unknown == report.obstructions@.len(),
            _ => false,
        },
{
    match p.body {
        ProjectionBody::Executive { summary, .. } => {
            lemma_buckets_partition(obstruction_views(report.obstructions@));
        },
        _ => {},
    }
}

/// The executive projection summarizes the report's obstructions: it is closeable
/// exactly when none blocks, names the blocking ones as close status does, lists the
/// high and medium ones in report order, counts every obstruction once, and never
/// presents unreviewed candidates as accepted.
pub proof fn law_executive_summary(p: Projection, space: Space, report: ProjectionReport)
    requires
        projection_ok(p, Audience::Executive, space, report),
    ensures
        p.audience == Audience::Executive,
        match p.body {
            ProjectionBody::Executive { summary, .. } => {
                let obs = obstruction_views(report.obstructions@);
                &&& summary.closeable == (forall|i: int| 0 <= i < obs.len() ==> !is_blocking(#[trigger] obs[i]))
                &&& summary.blocking_threshold@ == "medium"@
                &&& views(summary.blocking_obstruction_ids@) == obs.filter_map(blocking_id_of())
                &&& obstruction_views(summary.high_severity_obstructions@) == obs.filter_map(has_severity("high"@))
                &&& obstruction_views(summary.medium_severity_obstructions@) == obs.filter_map(has_severity("medium"@))
                &&& summary.obstruction_counts.high + summary.obstruction_counts.medium + summary.obstruction_counts.low
                    + summary.obstruction_counts.unknown == report.obstructions@.len()
                &&& summary.unreviewed_candidates_are_not_accepted
            },
            _ => false,
        },
{
    law_executive_counts_cover_obstructions(p, space, report);
}

/// The Markdown rendering is fixed by the space, the report and the audience: any two
/// projections that `build_projection` may return for them render to the same lines,
/// so `project` in Markdown is the rendering of the projection `build_projection` builds.
pub proof fn law_markdown_determined(
    p1: Projection,
    p2: Projection,
    audience: Audience,
    name: Seq<char>,
    space: Space,
    report: ProjectionReport,
)
    requires
        projection_ok(p1, audience, space, report),
        projection_ok(p2, audience, space, report),
    ensures
        markdown_lines(name, p1) == markdown_lines(name, p2),
{
    assert(body_lines(p1.body) == body_lines(p2.body)) by {
        match (p1.body, p2.body) {
            (
                ProjectionBody::Executive { summary: s1, source_boundary: b1, .. },
                ProjectionBody::Executive { summary: s2, source_boundary: b2, .. },
            ) => {
                assert(s1.blocking_obstruction_ids@.len() == views(s1.blocking_obstruction_ids@).len());
                assert(s2.blocking_obstruction_ids@.len() == views(s2.blocking_obstruction_ids@).len());
                assert(summary_lines(s1) == summary_lines(s2));
            },
            _ => {},
        }
    }
}

/// `project` is `build_projection` followed by writing out: both refuse exactly the
/// unknown audience names; JSON output is a projection for the same audience under the
/// same contract, and Markdown output is the rendering of the projection that
/// `build_projection` builds.
pub proof fn law_project_is_built_projection(
    space: Space,
    report: ProjectionReport,
    audience: Seq<char>,
    format: OutputFormat,
    built: Result<Projection, AdvisoryError>,
    out: Result<ProjectOutput, AdvisoryError>,
)
    requires
        built_projection(space, report, audience, built),
        projected(space, report, audience, format, out),
    ensures
        out is Err <==> built is Err,
        out is Err ==> out->Err_0 is UnsupportedAudience && out->Err_0->UnsupportedAudience_0@ == audience,
        match (out, built) {
            (Ok(ProjectOutput::Json(p)), Ok(b)) => format == OutputFormat::Json && p.audience == b.audience
                && projection_ok(p, b.audience, space, report),
            (Ok(ProjectOutput::Markdown(m)), Ok(b)) => format == OutputFormat::Markdown && m@ == join_lines(
                markdown_lines(audience, b),
            ),
            _ => true,
        },
{
    match (out, built) {
        (Ok(ProjectOutput::Markdown(m)), Ok(b)) => {
            let p = choose|p: Projection|
                Audience::parse_spec(audience) == Some(p.audience) && projection_ok(p, p.audience, space, report)
                    && m@ == join_lines(#[trigger] markdown_lines(audience, p));
            law_markdown_determined(p, b, b.audience, audience, space, report);
        },
        _ => {},
    }
}

proof fn lemma_count_where_same<A>(s: Seq<A>, p: spec_fn(A) -> bool, q: spec_fn(A) -> bool)
    requires
        forall|x: A| #[trigger] p(x) == q(x),
    ensures
        count_where(s, p) == count_where(s, q),
    decreases s.len(),
{
    if s.len() > 0 {
        lemma_count_where_same(s.drop_last(), p, q);
    }
}

/// The severity counts read the obstructions' severities as written: `high`, `medium`
/// and `low` each count the obstructions with exactly that severity, and `unknown`
/// counts those with any other severity (`critical` among them) or none.
pub proof fn law_severity_counts_by_severity(c: ObstructionCounts, obs: Seq<ObstructionView>)
    requires
        counts_match(c, obs),
    ensures
        c.high == count_where(obs, |o: ObstructionView| o.severity == Some("high"@)),
        c.medium == count_where(obs, |o: ObstructionView| o.severity == Some("medium"@)),
        c.low == count_where(obs, |o: ObstructionView| o.severity == Some("low"@)),
        c.unknown == count_where(
            obs,
            |o: ObstructionView|
                o.severity != Some("high"@) && o.severity != Some("medium"@) && o.severity != Some("low"@),
        ),
{
    reveal_strlit("high");
    reveal_strlit("medium");
    reveal_strlit("low");
    reveal_strlit("unknown");
    assert("high"@.len() == 4 && "medium"@.len() == 6 && "low"@.len() == 3 && "unknown"@.len() == 7);
    lemma_count_where_same(obs, in_bucket("high"@), |o: ObstructionView| o.severity == Some("high"@));
    lemma_count_where_same(obs, in_bucket("medium"@), |o: ObstructionView| o.severity == Some("medium"@));
    lemma_count_where_same(obs, in_bucket("low"@), |o: ObstructionView| o.severity == Some("low"@));
    lemma_count_where_same(
        obs,
        in_bucket("unknown"@),
        |o: ObstructionView|
            o.severity != Some("high"@) && o.severity != Some("medium"@) && o.severity != Some("low"@),
    );
}

proof fn lemma_precision_partition(cands: Seq<Candidate>)
    ensures
        count_where(cands, in_precision("source_derived"@)) + count_where(cands, in_precision("code_derived"@))
            + count_where(cands, in_precision("requirement_derived"@)) + count_where(cands, in_precision("generic"@))
            + count_where(cands, in_precision("missing_precision_metadata"@)) == cands.len(),
    decreases cands.len(),
{
    reveal_strlit("source_derived");
    reveal_strlit("code_derived");
    reveal_strlit("requirement_derived");
    reveal_strlit("generic");
    reveal_strlit("missing_precision_metadata");
    assert("source_derived"@.len() == 14 && "code_derived"@.len() == 12);
    assert("requirement_derived"@.len() == 19 && "generic"@.len() == 7);
    assert("missing_precision_metadata"@.len() == 26);
    if cands.len() > 0 {
        lemma_precision_partition(cands.drop_last());
    }
}

/// The candidate quality buckets count every candidate exactly once: they add up to
/// the total.
pub proof fn law_quality_buckets_cover_candidates(q: CandidateQuality, cands: Seq<Candidate>)
    requires
        quality_matches(q, cands),
    ensures
        q.source_derived + q.code_derived + q.requirement_derived + q.generic + q.missing_precision_metadata
            == q.total,
{
    lemma_precision_partition(cands);
}

} // verus!
