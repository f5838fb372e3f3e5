//! Reviewable completion candidates proposed from the obstructions of a check.
use vstd::prelude::*;
use crate::hg::{hg_id_error, hg_id_valid};
use crate::model::{
    cat, clone_opt, clone_strings, opt_is, opt_str_is, opt_view, text, view_or, views, AdvisoryError,
    Cell, Obstruction, Space,
};
use crate::reasoning::{cell_title, find_cell, first_cell};
use crate::sorting::{key_views, sort_by_key, sorted_by_key, stable_sort_by_key, Keyed};
use crate::text::{
    ascii_lower, has_prefix, has_view, push_char, sorted_unique, starts_with, strictly_sorted,
    strictly_sorted_views, lemma_sorted_sets_equal,
    to_ascii_lower_char, trim_end_all, trim_end_matches, trim_start_all, trim_start_matches,
};

verus! {

/// The review status of every proposed candidate: nobody has reviewed it yet.
pub const UNREVIEWED: &'static str = "unreviewed";

/// The metadata a candidate carries about its own precision.
pub struct CandidateMetadata {
    pub specificity: String,
    pub evidence_strength: String,
    pub precision_note: String,
    pub derived_from_hypothesis_id: String,
    pub from_cell_id: Option<String>,
    pub to_cell_id: Option<String>,
    pub route_path: Option<String>,
    pub http_methods: Option<Vec<String>>,
}

/// A completion candidate proposed by this library; always unreviewed.
pub struct ProposedCandidate {
    pub id: String,
    pub candidate_type: String,
    pub title: String,
    pub rationale: String,
    pub resolves_obstruction_ids: Vec<String>,
    pub proposed_cell_ids: Vec<String>,
    pub source_ids: Vec<String>,
    /// Confidence in hundredths.
    pub confidence_percent: u32,
    /// Type of the structure the candidate suggests.
    pub suggested_structure_type: String,
    pub metadata: CandidateMetadata,
}

pub struct ProposedCandidateView {
    pub id: Seq<char>,
    pub candidate_type: Seq<char>,
    pub title: Seq<char>,
    pub rationale: Seq<char>,
    pub resolves_obstruction_ids: Seq<Seq<char>>,
    pub proposed_cell_ids: Seq<Seq<char>>,
    pub source_ids: Seq<Seq<char>>,
    pub confidence_percent: u32,
    pub suggested_structure_type: Seq<char>,
    pub specificity: Seq<char>,
    pub evidence_strength: Seq<char>,
    pub precision_note: Seq<char>,
    pub derived_from_hypothesis_id: Seq<char>,
    pub from_cell_id: Option<Seq<char>>,
    pub to_cell_id: Option<Seq<char>>,
    pub route_path: Option<Seq<char>>,
    pub http_methods: Option<Seq<Seq<char>>>,
}

impl View for ProposedCandidate {
    type V = ProposedCandidateView;

    open spec fn view(&self) -> ProposedCandidateView {
        ProposedCandidateView {
            id: self.id@,
            candidate_type: self.candidate_type@,
            title: self.title@,
            rationale: self.rationale@,
            resolves_obstruction_ids: views(self.resolves_obstruction_ids@),
            proposed_cell_ids: views(self.proposed_cell_ids@),
            source_ids: views(self.source_ids@),
            confidence_percent: self.confidence_percent,
            suggested_structure_type: self.suggested_structure_type@,
            specificity: self.metadata.specificity@,
            evidence_strength: self.metadata.evidence_strength@,
            precision_note: self.metadata.precision_note@,
            derived_from_hypothesis_id: self.metadata.derived_from_hypothesis_id@,
            from_cell_id: opt_view(self.metadata.from_cell_id),
            to_cell_id: opt_view(self.metadata.to_cell_id),
            route_path: opt_view(self.metadata.route_path),
            http_methods: match self.metadata.http_methods {
                Some(m) => Some(views(m@)),
                None => None,
            },
        }
    }
}

impl Keyed for ProposedCandidate {
    open spec fn key_of(v: ProposedCandidateView) -> Seq<char> {
        v.id
    }

    fn key(&self) -> (r: &str) {
        self.id.as_str()
    }
}

/// The candidates proposed for the obstructions of one check report.
pub struct CompletionReport {
    pub space_id: String,
    pub from_report: String,
    /// Ordered by candidate id.
    pub candidates: Vec<ProposedCandidate>,
}

/// The text after the last `:` of an id, or the whole id when it has none.
pub open spec fn after_last_colon(s: Seq<char>) -> Seq<char>
    decreases s.len(),
{
    if s.len() == 0 {
        s
    } else if s.last() == ':' {
        Seq::empty()
    } else {
        after_last_colon(s.drop_last()).push(s.last())
    }
}

pub open spec fn slug_char(c: char) -> char {
    if ('a' <= c && c <= 'z') || ('A' <= c && c <= 'Z') || ('0' <= c && c <= '9') || c == '-' {
        c
    } else {
        '-'
    }
}

/// The last segment of an id, with every character that is not an ASCII letter,
/// digit or `-` replaced by `-`.
pub open spec fn id_suffix_spec(id: Seq<char>) -> Seq<char> {
    after_last_colon(id).map_values(|c: char| slug_char(c))
}

pub open spec fn domain_title_spec(title: Seq<char>) -> Seq<char> {
    trim_end_all(trim_end_all(trim_end_all(trim_end_all(title, " Database"@), " database"@), " DB"@), " db"@)
}

pub open spec fn lower_spec(s: Seq<char>) -> Seq<char> {
    s.map_values(|c: char| ascii_lower(c))
}

/// The source ids behind one evidence id: itself when it names a source, else the
/// `metadata.source_id` of the evidence cell, else that cell's `source_ids`.
pub open spec fn evidence_sources(cells: Seq<Cell>, evidence_id: Seq<char>) -> Seq<Seq<char>> {
    if starts_with(evidence_id, "source:"@) {
        seq![evidence_id]
    } else {
        match first_cell(cells, evidence_id) {
            Some(c) => match c.source_id {
                Some(s) => seq![s@],
                None => views(c.source_ids@),
            },
            None => Seq::empty(),
        }
    }
}

/// `x` is a source behind some evidence id of the obstruction.
pub open spec fn is_completion_source(cells: Seq<Cell>, evidence_ids: Seq<Seq<char>>, x: Seq<char>) -> bool {
    exists|k: int| 0 <= k < evidence_ids.len() && #[trigger] evidence_sources(cells, evidence_ids[k]).contains(x)
}

/// The last segment of an id, made safe for use inside other ids.
pub fn id_suffix(id: &str) -> (r: String)
    ensures
        r@ == id_suffix_spec(id@),
{
    let n = id.unicode_len();
    // Find where the last segment starts.
    let mut start: usize = n;
    assert(id@.subrange(0, n as int) =~= id@);
    assert(id@ + id@.subrange(n as int, n as int) =~= id@);
    while start > 0 && id.get_char(start - 1) != ':'
        invariant
            start <= n,
            n == id@.len(),
            after_last_colon(id@) == after_last_colon(id@.subrange(0, start as int)) + id@.subrange(start as int, n as int),
        decreases start,
    {
        let ghost pre = id@.subrange(0, start as int);
        assert(pre.drop_last() =~= id@.subrange(0, start - 1));
        assert(id@.subrange(start - 1, n as int) =~= seq![pre.last()] + id@.subrange(start as int, n as int));
        assert(after_last_colon(pre) == after_last_colon(pre.drop_last()).push(pre.last()));
        start = start - 1;
    }
    proof {
        let pre = id@.subrange(0, start as int);
        if start > 0 {
            assert(pre.last() == ':');
        } else {
            assert(pre.len() == 0);
        }
        assert(after_last_colon(pre) =~= Seq::<char>::empty());
    }
    let mut out = String::new();
    let mut i: usize = start;
    while i < n
        invariant
            start <= i <= n,
            n == id@.len(),
            after_last_colon(id@) == id@.subrange(start as int, n as int),
            out@ == id@.subrange(start as int, i as int).map_values(|c: char| slug_char(c)),
        decreases n - i,
    {
        let c = id.get_char(i);
        let keep = ('a' <= c && c <= 'z') || ('A' <= c && c <= 'Z') || ('0' <= c && c <= '9') || c == '-';
        push_char(&mut out, if keep { c } else { '-' });
        assert(id@.subrange(start as int, i + 1) =~= id@.subrange(start as int, i as int).push(c));
        assert(out@ =~= id@.subrange(start as int, i + 1).map_values(|c: char| slug_char(c)));
        i = i + 1;
    }
    out
}

/// The domain name of a data store title: trailing ` Database`, ` database`, ` DB`
/// and ` db` are removed, in that order.
pub fn data_store_domain_title(title: &str) -> (r: String)
    ensures
        r@ == domain_title_spec(title@),
{
    let a = trim_end_matches(title, " Database");
    let b = trim_end_matches(a.as_str(), " database");
    let c = trim_end_matches(b.as_str(), " DB");
    trim_end_matches(c.as_str(), " db")
}

fn ascii_lowercase(s: &str) -> (r: String)
    ensures
        r@ == lower_spec(s@),
{
    let n = s.unicode_len();
    let mut out = String::new();
    let mut i: usize = 0;
    while i < n
        invariant
            i <= n,
            n == s@.len(),
            out@ == s@.subrange(0, i as int).map_values(|c: char| ascii_lower(c)),
        decreases n - i,
    {
        let c = to_ascii_lower_char(s.get_char(i));
        push_char(&mut out, c);
        assert(s@.subrange(0, i + 1) =~= s@.subrange(0, i as int).push(s@[i as int]));
        assert(out@ =~= s@.subrange(0, i + 1).map_values(|c: char| ascii_lower(c)));
        i = i + 1;
    }
    assert(s@.subrange(0, n as int) =~= s@);
    out
}

fn evidence_cell_source_ids(cells: &Vec<Cell>, evidence_id: &str) -> (r: Vec<String>)
    ensures
        !starts_with(evidence_id@, "source:"@) ==> views(r@) == evidence_sources(cells@, evidence_id@),
{
    match find_cell(cells, evidence_id) {
        Some(c) => match &c.source_id {
            Some(s) => {
                let v = vec![s.clone()];
                assert(views(v@) =~= seq![s@]);
                v
            },
            None => clone_strings(&c.source_ids),
        },
        None => {
            let v: Vec<String> = Vec::new();
            assert(views(v@) =~= Seq::<Seq<char>>::empty());
            v
        },
    }
}

/// The source ids behind an obstruction's evidence, sorted and without repeats.
pub fn completion_source_ids(cells: &Vec<Cell>, obstruction: &Obstruction) -> (r: Vec<String>)
    ensures
        strictly_sorted(r@),
        forall|x: Seq<char>| has_view(r@, x) <==> is_completion_source(cells@, views(obstruction.evidence_ids@), x),
{
    let ghost ev = views(obstruction.evidence_ids@);
    let mut all: Vec<String> = Vec::new();
    let mut i: usize = 0;
    while i < obstruction.evidence_ids.len()
        invariant
            i <= obstruction.evidence_ids.len(),
            ev == views(obstruction.evidence_ids@),
            forall|x: Seq<char>|
                has_view(all@, x) <==> exists|k: int|
                    0 <= k < i && #[trigger] evidence_sources(cells@, ev[k]).contains(x),
        decreases obstruction.evidence_ids.len() - i,
    {
        let id = &obstruction.evidence_ids[i];
        let ghost old_all = all@;
        let ghost idv = id@;
        assert(ev[i as int] == idv);
        let mut add: Vec<String> = if has_prefix(id.as_str(), "source:") {
            let v = vec![id.clone()];
            assert(views(v@) =~= seq![idv]);
            v
        } else {
            evidence_cell_source_ids(cells, id.as_str())
        };
        assert(views(add@) == evidence_sources(cells@, idv));
        let ghost added = add@;
        all.append(&mut add);
        assert forall|x: Seq<char>| has_view(all@, x) <==> exists|k: int|
            0 <= k < i + 1 && #[trigger] evidence_sources(cells@, ev[k]).contains(x) by {
            if has_view(all@, x) {
                let m = choose|m: int| 0 <= m < all@.len() && #[trigger] all@[m]@ == x;
                if m < old_all.len() {
                    assert(old_all[m]@ == x);
                    assert(has_view(old_all, x));
                } else {
                    assert(added[m - old_all.len()]@ == x);
                    assert(views(added)[m - old_all.len()] == x);
                    assert(evidence_sources(cells@, ev[i as int]).contains(x));
                }
            }
            if exists|k: int| 0 <= k < i + 1 && #[trigger] evidence_sources(cells@, ev[k]).contains(x) {
                let k = choose|k: int| 0 <= k < i + 1 && #[trigger] evidence_sources(cells@, ev[k]).contains(x);
                if k < i {
                    assert(has_view(old_all, x));
                    let m = choose|m: int| 0 <= m < old_all.len() && #[trigger] old_all[m]@ == x;
                    assert(all@[m]@ == x);
                } else {
                    let m = choose|m: int| 0 <= m < views(added).len() && views(added)[m] == x;
                    assert(all@[old_all.len() + m]@ == x);
                }
            }
        }
        i = i + 1;
    }
    sorted_unique(&all)
}


/// The obstruction's id, empty when it has none.
pub open spec fn json_id_of(o: Obstruction) -> Seq<char> {
    view_or(o.id, Seq::empty())
}

pub open spec fn obstruction_stem(o: Obstruction) -> Seq<char> {
    trim_start_all(json_id_of(o), "obstruction:"@)
}

/// The sorted, repeat-free source ids behind the obstruction's evidence.
pub open spec fn completion_sources_spec(cells: Seq<Cell>, o: Obstruction) -> Seq<Seq<char>> {
    choose|s: Seq<Seq<char>>|
        strictly_sorted_views(s) && forall|x: Seq<char>|
            s.contains(x) <==> is_completion_source(cells, views(o.evidence_ids@), x)
}

pub open spec fn evidence_strength_spec(sources: Seq<Seq<char>>) -> Seq<char> {
    if sources.len() == 0 {
        "rule_derived_without_source_ids"@
    } else {
        "source_backed_obstruction"@
    }
}

pub open spec fn candidate_view(
    id: Seq<char>,
    candidate_type: Seq<char>,
    title: Seq<char>,
    rationale: Seq<char>,
    resolves: Seq<Seq<char>>,
    proposed: Seq<Seq<char>>,
    sources: Seq<Seq<char>>,
    confidence: u32,
    structure_type: Seq<char>,
    specificity: Seq<char>,
    evidence_strength: Seq<char>,
    precision_note: Seq<char>,
    hypothesis: Seq<char>,
    from_cell_id: Option<Seq<char>>,
    to_cell_id: Option<Seq<char>>,
    route_path: Option<Seq<char>>,
    http_methods: Option<Seq<Seq<char>>>,
) -> ProposedCandidateView {
    ProposedCandidateView {
        id,
        candidate_type,
        title,
        rationale,
        resolves_obstruction_ids: resolves,
        proposed_cell_ids: proposed,
        source_ids: sources,
        confidence_percent: confidence,
        suggested_structure_type: structure_type,
        specificity,
        evidence_strength,
        precision_note,
        derived_from_hypothesis_id: hypothesis,
        from_cell_id,
        to_cell_id,
        route_path,
        http_methods,
    }
}

/// A witness cell of the obstruction that is (or is not) a data store.
pub open spec fn witness_match(cells: Seq<Cell>, w: Seq<char>, data_store: bool) -> bool {
    match first_cell(cells, w) {
        Some(c) => opt_is(c.cell_type, "data_store"@) == data_store,
        None => false,
    }
}

pub open spec fn first_witness(cells: Seq<Cell>, ws: Seq<Seq<char>>, data_store: bool) -> Option<Seq<char>>
    decreases ws.len(),
{
    if ws.len() == 0 {
        None
    } else if witness_match(cells, ws[0], data_store) {
        Some(ws[0])
    } else {
        first_witness(cells, ws.drop_first(), data_store)
    }
}

pub open spec fn boundary_end(cells: Seq<Cell>, o: Obstruction, data_store: bool) -> Option<Cell> {
    let named = if data_store { o.to_cell_id } else { o.from_cell_id };
    let id = match named {
        Some(s) => Some(s@),
        None => first_witness(cells, views(o.witness_ids@), data_store),
    };
    match id {
        Some(i) => first_cell(cells, i),
        None => None,
    }
}

pub open spec fn boundary_note() -> Seq<char> {
    "Derived from boundary violation witness cells and obstruction evidence_ids."@
}

/// An interface that replaces the direct read, and the refactor that adopts it.
pub open spec fn boundary_candidates_spec(cells: Seq<Cell>, o: Obstruction) -> Seq<ProposedCandidateView> {
    match (boundary_end(cells, o, false), boundary_end(cells, o, true)) {
        (Some(from), Some(to)) => {
            let domain_title = domain_title_spec(cell_title(to));
            let domain_id = trim_end_all(id_suffix_spec(to.id@), "-db"@);
            let sources = completion_sources_spec(cells, o);
            let strength = evidence_strength_spec(sources);
            let h = "hypothesis:"@ + obstruction_stem(o) + "-implicit-interface"@;
            let from_suffix = id_suffix_spec(from.id@);
            seq![
                candidate_view(
                    "candidate:"@ + domain_id + "-status-api"@,
                    "proposed_interface"@,
                    "Add "@ + domain_title + " status query API"@,
                    "Remove cross-context direct database access while preserving "@ + lower_spec(domain_title)
                        + " status check."@,
                    seq![json_id_of(o)],
                    seq!["cell:"@ + domain_id + "-status-api"@],
                    sources,
                    82,
                    "interface_cell"@,
                    "source_derived"@,
                    strength,
                    boundary_note(),
                    h,
                    Some(from.id@),
                    Some(to.id@),
                    None,
                    None,
                ),
                candidate_view(
                    "candidate:replace-"@ + from_suffix + "-db-read"@,
                    "proposed_refactor_action"@,
                    "Replace "@ + cell_title(from) + " direct DB read with "@ + domain_title + " API call"@,
                    cell_title(from) + " should depend on "@ + domain_title + " Service interface instead of "@
                        + cell_title(to) + " ownership boundary."@,
                    seq![json_id_of(o)],
                    seq!["cell:action-replace-"@ + from_suffix + "-direct-db-read"@],
                    sources,
                    78,
                    "refactor_action_cell"@,
                    "source_derived"@,
                    strength,
                    boundary_note(),
                    h,
                    Some(from.id@),
                    Some(to.id@),
                    None,
                    None,
                ),
            ]
        },
        _ => Seq::empty(),
    }
}

pub open spec fn owner_candidate_spec(o: Obstruction) -> ProposedCandidateView {
    candidate_view(
        "candidate:"@ + obstruction_stem(o) + "-owner"@,
        "ownership_clarification"@,
        "Clarify action owner"@,
        view_or(o.message, "Action requires owner."@),
        seq![json_id_of(o)],
        Seq::empty(),
        Seq::empty(),
        70,
        "owner_cell"@,
        "generic"@,
        "obstruction_message"@,
        "Identifies the missing owner relation but does not infer a specific owner."@,
        "hypothesis:"@ + obstruction_stem(o) + "-no-team-holds-action"@,
        None,
        None,
        None,
        None,
    )
}

pub open spec fn verification_candidate_spec(o: Obstruction) -> ProposedCandidateView {
    candidate_view(
        "candidate:"@ + obstruction_stem(o) + "-verification"@,
        "proposed_test"@,
        "Define verification method"@,
        view_or(o.message, "Requirement needs verification."@),
        seq![json_id_of(o)],
        Seq::empty(),
        Seq::empty(),
        70,
        "verification_cell"@,
        "requirement_derived"@,
        "obstruction_message"@,
        "Identifies the verification gap but does not infer a concrete test implementation."@,
        "hypothesis:"@ + obstruction_stem(o) + "-verification-genuinely-missing"@,
        None,
        None,
        None,
        None,
    )
}

pub open spec fn auth_note() -> Seq<char> {
    "Derived from code snapshot route metadata. The candidate must be reviewed because lexical detection can miss shared middleware or dynamic auth wrappers."@
}

pub open spec fn auth_candidate_spec(cells: Seq<Cell>, o: Obstruction) -> ProposedCandidateView {
    let route = view_or(o.route_path, "API route"@);
    let sources = completion_sources_spec(cells, o);
    candidate_view(
        "candidate:"@ + obstruction_stem(o) + "-auth-guard"@,
        "proposed_auth_guard"@,
        "Add authentication guard to "@ + route,
        view_or(o.message, "Database-touching API route requires authentication."@),
        seq![json_id_of(o)],
        Seq::empty(),
        sources,
        72,
        "auth_guard_cell"@,
        "code_derived"@,
        evidence_strength_spec(sources),
        auth_note(),
        "hypothesis:"@ + obstruction_stem(o) + "-truly-unprotected"@,
        None,
        None,
        Some(route),
        Some(views(o.http_methods@)),
    )
}

/// The candidates one obstruction calls for, by obstruction type.
pub open spec fn candidates_for(cells: Seq<Cell>, o: Obstruction) -> Seq<ProposedCandidateView> {
    if opt_is(o.obstruction_type, "boundary_violation"@) {
        boundary_candidates_spec(cells, o)
    } else if opt_is(o.obstruction_type, "missing_owner"@) {
        seq![owner_candidate_spec(o)]
    } else if opt_is(o.obstruction_type, "requirement_unverified"@) {
        seq![verification_candidate_spec(o)]
    } else if opt_is(o.obstruction_type, "api_route_missing_auth"@) {
        seq![auth_candidate_spec(cells, o)]
    } else {
        Seq::empty()
    }
}

pub open spec fn candidates_of(cells: Seq<Cell>) -> spec_fn(Obstruction) -> Seq<ProposedCandidateView> {
    |o: Obstruction| candidates_for(cells, o)
}

/// Every candidate the obstructions call for, in obstruction order.
pub open spec fn all_candidates_spec(cells: Seq<Cell>, obstructions: Seq<Obstruction>) -> Seq<ProposedCandidateView> {
    obstructions.map_values(candidates_of(cells)).flatten()
}

pub open spec fn all_valid(ids: Seq<Seq<char>>) -> bool {
    forall|i: int| 0 <= i < ids.len() ==> hg_id_valid(#[trigger] ids[i])
}

/// The candidate's id and the ids it refers to are valid HigherGraphen ids.
pub open spec fn candidate_ids_valid(c: ProposedCandidateView) -> bool {
    hg_id_valid(c.id) && all_valid(c.resolves_obstruction_ids) && all_valid(c.proposed_cell_ids)
}

pub open spec fn proposal_ids_valid(space: Space, cands: Seq<ProposedCandidateView>) -> bool {
    &&& hg_id_valid(space.space_id@)
    &&& all_valid(views(space.context_ids@))
    &&& forall|i: int| 0 <= i < cands.len() ==> candidate_ids_valid(#[trigger] cands[i])
}

pub open spec fn candidate_views(s: Seq<ProposedCandidate>) -> Seq<ProposedCandidateView> {
    s.map_values(|c: ProposedCandidate| c@)
}

fn build_candidate(
    id: String,
    candidate_type: &str,
    title: String,
    rationale: String,
    resolves: Vec<String>,
    proposed: Vec<String>,
    sources: Vec<String>,
    confidence: u32,
    structure_type: &str,
    specificity: &str,
    evidence_strength: &str,
    precision_note: &str,
    hypothesis: String,
    from_cell_id: Option<String>,
    to_cell_id: Option<String>,
    route_path: Option<String>,
    http_methods: Option<Vec<String>>,
) -> (r: ProposedCandidate)
    ensures
        r@ == candidate_view(
            id@,
            candidate_type@,
            title@,
            rationale@,
            views(resolves@),
            views(proposed@),
            views(sources@),
            confidence,
            structure_type@,
            specificity@,
            evidence_strength@,
            precision_note@,
            hypothesis@,
            opt_view(from_cell_id),
            opt_view(to_cell_id),
            opt_view(route_path),
            match http_methods {
                Some(m) => Some(views(m@)),
                None => None,
            },
        ),
{
    ProposedCandidate {
        id,
        candidate_type: text(candidate_type),
        title,
        rationale,
        resolves_obstruction_ids: resolves,
        proposed_cell_ids: proposed,
        source_ids: sources,
        confidence_percent: confidence,
        suggested_structure_type: text(structure_type),
        metadata: CandidateMetadata {
            specificity: text(specificity),
            evidence_strength: text(evidence_strength),
            precision_note: text(precision_note),
            derived_from_hypothesis_id: hypothesis,
            from_cell_id,
            to_cell_id,
            route_path,
            http_methods,
        },
    }
}

fn json_id(o: &Obstruction) -> (r: String)
    ensures
        r@ == json_id_of(*o),
{
    match &o.id {
        Some(id) => id.clone(),
        None => String::new(),
    }
}

fn stem_of(o: &Obstruction) -> (r: String)
    ensures
        r@ == obstruction_stem(*o),
{
    let id = json_id(o);
    trim_start_matches(id.as_str(), "obstruction:")
}

fn message_or(o: &Obstruction, fallback: &str) -> (r: String)
    ensures
        r@ == view_or(o.message, fallback@),
{
    match &o.message {
        Some(m) => m.clone(),
        None => text(fallback),
    }
}

#[verifier::spinoff_prover]
fn completion_sources(cells: &Vec<Cell>, o: &Obstruction) -> (r: Vec<String>)
    ensures
        views(r@) == completion_sources_spec(cells@, *o),
{
    let r = completion_source_ids(cells, o);
    proof {
        let s = views(r@);
        assert forall|i: int, j: int| 0 <= i < j < s.len() implies crate::text::lex_lt(
            #[trigger] s[i],
            #[trigger] s[j],
        ) by {
            assert(s[i] == r@[i]@ && s[j] == r@[j]@);
        }
        assert forall|x: Seq<char>| s.contains(x) <==> is_completion_source(cells@, views(o.evidence_ids@), x) by {
            if s.contains(x) {
                let m = choose|m: int| 0 <= m < s.len() && s[m] == x;
                assert(r@[m]@ == x);
            }
            if has_view(r@, x) {
                let m = choose|m: int| 0 <= m < r@.len() && #[trigger] r@[m]@ == x;
                assert(s[m] == x);
            }
        }
        assert(strictly_sorted_views(s));
        let c = completion_sources_spec(cells@, *o);
        assert(strictly_sorted_views(c));
        lemma_sorted_sets_equal(s, c);
    }
    r
}

fn single(s: String) -> (r: Vec<String>)
    ensures
        views(r@) == seq![s@],
{
    let v = vec![s];
    assert(views(v@) =~= seq![v@[0]@]);
    v
}

fn find_witness(cells: &Vec<Cell>, ws: &Vec<String>, data_store: bool) -> (r: Option<String>)
    ensures
        opt_view(r) == first_witness(cells@, views(ws@), data_store),
{
    let mut i: usize = 0;
    assert(views(ws@).skip(0) =~= views(ws@));
    while i < ws.len()
        invariant
            i <= ws.len(),
            first_witness(cells@, views(ws@), data_store) == first_witness(
                cells@,
                views(ws@).skip(i as int),
                data_store,
            ),
        decreases ws.len() - i,
    {
        assert(views(ws@).skip(i as int).drop_first() =~= views(ws@).skip(i + 1));
        assert(views(ws@).skip(i as int)[0] == ws@[i as int]@);
        match find_cell(cells, ws[i].as_str()) {
            Some(c) => {
                if opt_str_is(&c.cell_type, "data_store") == data_store {
                    return Some(ws[i].clone());
                }
            },
            None => {},
        }
        i = i + 1;
    }
    None
}

fn boundary_end_cell<'a>(cells: &'a Vec<Cell>, o: &Obstruction, data_store: bool) -> (r: Option<&'a Cell>)
    ensures
        match r {
            Some(c) => boundary_end(cells@, *o, data_store) == Some(*c),
            None => boundary_end(cells@, *o, data_store) is None,
        },
{
    let named = if data_store { &o.to_cell_id } else { &o.from_cell_id };
    let id = match named {
        Some(s) => s.clone(),
        None => match find_witness(cells, &o.witness_ids, data_store) {
            Some(w) => w,
            None => return None,
        },
    };
    find_cell(cells, id.as_str())
}

fn boundary_completion_candidates(cells: &Vec<Cell>, o: &Obstruction) -> (r: Vec<ProposedCandidate>)
    ensures
        candidate_views(r@) == boundary_candidates_spec(cells@, *o),
{
    let from = match boundary_end_cell(cells, o, false) {
        Some(c) => c,
        None => {
            let v: Vec<ProposedCandidate> = Vec::new();
            assert(candidate_views(v@) =~= boundary_candidates_spec(cells@, *o));
            return v;
        },
    };
    let to = match boundary_end_cell(cells, o, true) {
        Some(c) => c,
        None => {
            let v: Vec<ProposedCandidate> = Vec::new();
            assert(candidate_views(v@) =~= boundary_candidates_spec(cells@, *o));
            return v;
        },
    };
    let from_title = match &from.title {
        Some(t) => t.clone(),
        None => from.id.clone(),
    };
    let to_title = match &to.title {
        Some(t) => t.clone(),
        None => to.id.clone(),
    };
    let domain_title = data_store_domain_title(to_title.as_str());
    let domain_id = trim_end_matches(id_suffix(to.id.as_str()).as_str(), "-db");
    let sources = completion_sources(cells, o);
    let strength = if sources.len() == 0 {
        "rule_derived_without_source_ids"
    } else {
        "source_backed_obstruction"
    };
    let stem = stem_of(o);
    let h = cat(cat("hypothesis:", stem.as_str()).as_str(), "-implicit-interface");
    let from_suffix = id_suffix(from.id.as_str());
    let note = "Derived from boundary violation witness cells and obstruction evidence_ids.";
    let interface = build_candidate(
        cat(cat("candidate:", domain_id.as_str()).as_str(), "-status-api"),
        "proposed_interface",
        cat(cat("Add ", domain_title.as_str()).as_str(), " status query API"),
        cat(
            cat(
                "Remove cross-context direct database access while preserving ",
                ascii_lowercase(domain_title.as_str()).as_str(),
            ).as_str(),
            " status check.",
        ),
        single(json_id(o)),
        single(cat(cat("cell:", domain_id.as_str()).as_str(), "-status-api")),
        clone_strings(&sources),
        82,
        "interface_cell",
        "source_derived",
        strength,
        note,
        h.clone(),
        Some(from.id.clone()),
        Some(to.id.clone()),
        None,
        None,
    );
    let refactor = build_candidate(
        cat(cat("candidate:replace-", from_suffix.as_str()).as_str(), "-db-read"),
        "proposed_refactor_action",
        cat(
            cat(cat(cat("Replace ", from_title.as_str()).as_str(), " direct DB read with ").as_str(), domain_title.as_str()).as_str(),
            " API call",
        ),
        cat(
            cat(
                cat(
                    cat(cat(from_title.as_str(), " should depend on ").as_str(), domain_title.as_str()).as_str(),
                    " Service interface instead of ",
                ).as_str(),
                to_title.as_str(),
            ).as_str(),
            " ownership boundary.",
        ),
        single(json_id(o)),
        single(cat(cat("cell:action-replace-", from_suffix.as_str()).as_str(), "-direct-db-read")),
        sources,
        78,
        "refactor_action_cell",
        "source_derived",
        strength,
        note,
        h,
        Some(from.id.clone()),
        Some(to.id.clone()),
        None,
        None,
    );
    let v = vec![interface, refactor];
    assert(candidate_views(v@) =~= boundary_candidates_spec(cells@, *o));
    v
}

fn owner_completion_candidate(o: &Obstruction) -> (r: ProposedCandidate)
    ensures
        r@ == owner_candidate_spec(*o),
{
    let stem = stem_of(o);
    let r = build_candidate(
        cat(cat("candidate:", stem.as_str()).as_str(), "-owner"),
        "ownership_clarification",
        text("Clarify action owner"),
        message_or(o, "Action requires owner."),
        single(json_id(o)),
        Vec::new(),
        Vec::new(),
        70,
        "owner_cell",
        "generic",
        "obstruction_message",
        "Identifies the missing owner relation but does not infer a specific owner.",
        cat(cat("hypothesis:", stem.as_str()).as_str(), "-no-team-holds-action"),
        None,
        None,
        None,
        None,
    );
    assert(r@.proposed_cell_ids =~= Seq::<Seq<char>>::empty());
    assert(r@.source_ids =~= Seq::<Seq<char>>::empty());
    r
}

fn verification_completion_candidate(o: &Obstruction) -> (r: ProposedCandidate)
    ensures
        r@ == verification_candidate_spec(*o),
{
    let stem = stem_of(o);
    let r = build_candidate(
        cat(cat("candidate:", stem.as_str()).as_str(), "-verification"),
        "proposed_test",
        text("Define verification method"),
        message_or(o, "Requirement needs verification."),
        single(json_id(o)),
        Vec::new(),
        Vec::new(),
        70,
        "verification_cell",
        "requirement_derived",
        "obstruction_message",
        "Identifies the verification gap but does not infer a concrete test implementation.",
        cat(cat("hypothesis:", stem.as_str()).as_str(), "-verification-genuinely-missing"),
        None,
        None,
        None,
        None,
    );
    assert(r@.proposed_cell_ids =~= Seq::<Seq<char>>::empty());
    assert(r@.source_ids =~= Seq::<Seq<char>>::empty());
    r
}

fn auth_guard_completion_candidate(cells: &Vec<Cell>, o: &Obstruction) -> (r: ProposedCandidate)
    ensures
        r@ == auth_candidate_spec(cells@, *o),
{
    let route = match &o.route_path {
        Some(p) => p.clone(),
        None => text("API route"),
    };
    let sources = completion_sources(cells, o);
    let strength = if sources.len() == 0 {
        "rule_derived_without_source_ids"
    } else {
        "source_backed_obstruction"
    };
    let stem = stem_of(o);
    let r = build_candidate(
        cat(cat("candidate:", stem.as_str()).as_str(), "-auth-guard"),
        "proposed_auth_guard",
        cat("Add authentication guard to ", route.as_str()),
        message_or(o, "Database-touching API route requires authentication."),
        single(json_id(o)),
        Vec::new(),
        sources,
        72,
        "auth_guard_cell",
        "code_derived",
        strength,
        "Derived from code snapshot route metadata. The candidate must be reviewed because lexical detection can miss shared middleware or dynamic auth wrappers.",
        cat(cat("hypothesis:", stem.as_str()).as_str(), "-truly-unprotected"),
        None,
        None,
        Some(route),
        Some(clone_strings(&o.http_methods)),
    );
    assert(r@.proposed_cell_ids =~= Seq::<Seq<char>>::empty());
    r
}

fn candidates_for_obstruction(cells: &Vec<Cell>, o: &Obstruction) -> (r: Vec<ProposedCandidate>)
    ensures
        candidate_views(r@) == candidates_for(cells@, *o),
{
    let r = if opt_str_is(&o.obstruction_type, "boundary_violation") {
        boundary_completion_candidates(cells, o)
    } else if opt_str_is(&o.obstruction_type, "missing_owner") {
        vec![owner_completion_candidate(o)]
    } else if opt_str_is(&o.obstruction_type, "requirement_unverified") {
        vec![verification_completion_candidate(o)]
    } else if opt_str_is(&o.obstruction_type, "api_route_missing_auth") {
        vec![auth_guard_completion_candidate(cells, o)]
    } else {
        Vec::new()
    };
    assert(candidate_views(r@) =~= candidates_for(cells@, *o));
    r
}


fn first_invalid(ids: &Vec<String>) -> (r: Option<String>)
    ensures
        r is None <==> all_valid(views(ids@)),
{
    let mut i: usize = 0;
    while i < ids.len()
        invariant
            i <= ids.len(),
            forall|k: int| 0 <= k < i ==> hg_id_valid(#[trigger] views(ids@)[k]),
        decreases ids.len() - i,
    {
        match hg_id_error(ids[i].as_str()) {
            Some(e) => {
                assert(!hg_id_valid(views(ids@)[i as int]));
                return Some(e);
            },
            None => {},
        }
        i = i + 1;
    }
    None
}

fn candidate_error(c: &ProposedCandidate) -> (r: Option<String>)
    ensures
        r is None <==> candidate_ids_valid(c@),
{
    match hg_id_error(c.id.as_str()) {
        Some(e) => return Some(e),
        None => {},
    }
    match first_invalid(&c.resolves_obstruction_ids) {
        Some(e) => return Some(e),
        None => {},
    }
    first_invalid(&c.proposed_cell_ids)
}

fn completion_error(detail: String) -> (r: AdvisoryError)
    ensures
        r is Validation,
        r->Validation_0@ == "higher-graphen completion: "@ + detail@,
{
    AdvisoryError::Validation(cat("higher-graphen completion: ", detail.as_str()))
}

/// Proposes reviewable completion candidates for the obstructions of a check report:
/// two for a boundary violation whose ends can be found, one for a missing owner, an
/// unverified requirement or an unguarded API route, none for other types. The
/// candidates come ordered by id. Every id they carry, the space id and the context
/// ids must be valid HigherGraphen ids; otherwise the proposal fails.
pub fn propose_completions(space: &Space, obstructions: &Vec<Obstruction>, from_report: &str) -> (r: Result<CompletionReport, AdvisoryError>)
    ensures
        match r {
            Ok(report) => {
                &&& proposal_ids_valid(*space, all_candidates_spec(space.cells@, obstructions@))
                &&& report.space_id@ == space.space_id@
                &&& report.from_report@ == from_report@
                &&& sorted_by_key::<ProposedCandidate>(key_views(report.candidates@))
                &&& key_views(report.candidates@).to_multiset() == all_candidates_spec(space.cells@, obstructions@).to_multiset()
                &&& key_views(report.candidates@) == stable_sort_by_key::<ProposedCandidate>(
                    all_candidates_spec(space.cells@, obstructions@),
                )
            },
            Err(e) => {
                &&& !proposal_ids_valid(*space, all_candidates_spec(space.cells@, obstructions@))
                &&& e is Validation
                &&& starts_with(e->Validation_0@, "higher-graphen completion: "@)
            },
        },
{
    let ghost f = candidates_of(space.cells@);
    let mut all: Vec<ProposedCandidate> = Vec::new();
    let mut i: usize = 0;
    while i < obstructions.len()
        invariant
            i <= obstructions.len(),
            f == candidates_of(space.cells@),
            candidate_views(all@) == obstructions@.take(i as int).map_values(f).flatten(),
            forall|k: int| 0 <= k < all@.len() ==> candidate_ids_valid(#[trigger] candidate_views(all@)[k]),
        decreases obstructions.len() - i,
    {
        let mut found = candidates_for_obstruction(&space.cells, &obstructions[i]);
        let ghost fv = candidate_views(found@);
        let mut j: usize = 0;
        while j < found.len()
            invariant
                j <= found.len(),
                i < obstructions.len(),
                f == candidates_of(space.cells@),
                fv == candidate_views(found@),
                fv == f(obstructions@[i as int]),
                forall|k: int| 0 <= k < j ==> candidate_ids_valid(#[trigger] fv[k]),
            decreases found.len() - j,
        {
            match candidate_error(&found[j]) {
                Some(e) => {
                    proof {
                        let all_spec = all_candidates_spec(space.cells@, obstructions@);
                        let pre = obstructions@.take(i as int).map_values(f);
                        assert(obstructions@.map_values(f) =~= pre.push(f(obstructions@[i as int])) + obstructions@.skip(i + 1).map_values(f));
                        lemma_flatten_concat(pre.push(f(obstructions@[i as int])), obstructions@.skip(i + 1).map_values(f));
                        pre.lemma_flatten_push(fv);
                        assert(pre.push(f(obstructions@[i as int])).flatten() =~= pre.flatten() + fv);
                        assert(all_spec[pre.flatten().len() + j] == fv[j as int]);
                    }
                    let err = completion_error(e);
                    proof {
                        assert(starts_with(err->Validation_0@, "higher-graphen completion: "@)) by {
                            assert(err->Validation_0@.subrange(0, "higher-graphen completion: "@.len() as int) =~= "higher-graphen completion: "@);
                        }
                    }
                    return Err(err);
                },
                None => {},
            }
            j = j + 1;
        }
        let ghost old_all = candidate_views(all@);
        proof {
            assert(obstructions@.take(i + 1).map_values(f) =~= obstructions@.take(i as int).map_values(f).push(f(obstructions@[i as int])));
            obstructions@.take(i as int).map_values(f).lemma_flatten_push(f(obstructions@[i as int]));
        }
        all.append(&mut found);
        assert(candidate_views(all@) =~= old_all + fv);
        i = i + 1;
    }
    assert(obstructions@.take(obstructions@.len() as int) =~= obstructions@);
    let ghost all_spec = all_candidates_spec(space.cells@, obstructions@);
    match hg_id_error(space.space_id.as_str()) {
        Some(e) => {
            let err = completion_error(e);
            proof {
                assert(err->Validation_0@.subrange(0, "higher-graphen completion: "@.len() as int) =~= "higher-graphen completion: "@);
            }
            return Err(err);
        },
        None => {},
    }
    match first_invalid(&space.context_ids) {
        Some(e) => {
            let err = completion_error(e);
            proof {
                assert(err->Validation_0@.subrange(0, "higher-graphen completion: "@.len() as int) =~= "higher-graphen completion: "@);
            }
            return Err(err);
        },
        None => {},
    }
    assert(key_views(all@) =~= candidate_views(all@));
    let candidates = sort_by_key(all);
    Ok(CompletionReport { space_id: space.space_id.clone(), from_report: text(from_report), candidates })
}

proof fn lemma_flatten_concat(a: Seq<Seq<ProposedCandidateView>>, b: Seq<Seq<ProposedCandidateView>>)
    ensures
        (a + b).flatten() == a.flatten() + b.flatten(),
    decreases b.len(),
{
    if b.len() == 0 {
        assert(a + b =~= a);
        assert(a.flatten() + b.flatten() =~= a.flatten());
    } else {
        let b1 = b.drop_last();
        lemma_flatten_concat(a, b1);
        assert(a + b =~= (a + b1).push(b.last()));
        (a + b1).lemma_flatten_push(b.last());
        b1.lemma_flatten_push(b.last());
        assert(b =~= b1.push(b.last()));
    }
}

/// The candidate discloses one of the four precision levels.
pub open spec fn discloses_precision(c: ProposedCandidateView) -> bool {
    c.specificity == "source_derived"@ || c.specificity == "code_derived"@ || c.specificity
        == "requirement_derived"@ || c.specificity == "generic"@
}

/// Every proposed candidate discloses its precision (source-derived, code-derived,
/// requirement-derived or generic) and resolves exactly one obstruction of the report:
/// the one it was proposed for.
pub proof fn law_proposals_disclose_precision_and_target(cells: Seq<Cell>, obs: Seq<Obstruction>, k: int)
    requires
        0 <= k < all_candidates_spec(cells, obs).len(),
    ensures
        discloses_precision(all_candidates_spec(cells, obs)[k]),
        exists|j: int|
            0 <= j < obs.len() && all_candidates_spec(cells, obs)[k].resolves_obstruction_ids == seq![
                json_id_of(#[trigger] obs[j]),
            ],
    decreases obs.len(),
{
    let f = candidates_of(cells);
    let pre = obs.drop_last();
    let last = obs.last();
    assert(obs.map_values(f) =~= pre.map_values(f).push(f(last)));
    pre.map_values(f).lemma_flatten_push(f(last));
    let a = all_candidates_spec(cells, pre);
    assert(all_candidates_spec(cells, obs) == a + f(last));
    if k < a.len() {
        law_proposals_disclose_precision_and_target(cells, pre, k);
        let j = choose|j: int| 0 <= j < pre.len() && a[k].resolves_obstruction_ids == seq![json_id_of(#[trigger] pre[j])];
        assert(obs[j] == pre[j]);
    } else {
        let c = f(last)[k - a.len()];
        assert(all_candidates_spec(cells, obs)[k] == c);
        assert(c.resolves_obstruction_ids == seq![json_id_of(last)]);
        assert(obs[obs.len() - 1] == last);
    }
}

proof fn lemma_flatten_contains<A>(ss: Seq<Seq<A>>, i: int, k: int)
    requires
        0 <= i < ss.len(),
        0 <= k < ss[i].len(),
    ensures
        ss.flatten().contains(ss[i][k]),
    decreases i,
{
    if i == 0 {
        assert(ss.flatten() == ss.first() + ss.drop_first().flatten());
        assert((ss.first() + ss.drop_first().flatten())[k] == ss[0][k]);
    } else {
        lemma_flatten_contains(ss.drop_first(), i - 1, k);
        assert(ss.drop_first()[i - 1] == ss[i]);
        let rest = ss.drop_first().flatten();
        let m = choose|m: int| 0 <= m < rest.len() && rest[m] == ss[i][k];
        assert(ss.flatten() == ss.first() + rest);
        assert((ss.first() + rest)[ss.first().len() + m] == ss[i][k]);
    }
}

/// A candidate proposed for obstruction `j`: its id is the obstruction's id without the
/// `obstruction:` prefix between `candidate:` and `suffix`, it has type `candidate_type`,
/// and it resolves exactly that obstruction.
pub open spec fn proposes_for(proposed: Seq<ProposedCandidateView>, oid: Seq<char>, suffix: Seq<char>, candidate_type: Seq<char>) -> bool {
    exists|p: ProposedCandidateView|
        #[trigger] proposed.contains(p) && p.id == "candidate:"@ + trim_start_all(oid, "obstruction:"@) + suffix
            && p.candidate_type == candidate_type && p.resolves_obstruction_ids == seq![oid]
}

/// Every obstruction with an id that a proposal handles gets its candidate among the
/// proposed ones (any reordering of them): a missing owner an ownership clarification,
/// an unverified requirement a proposed test, and an API route missing authentication
/// a proposed auth guard, each resolving that obstruction.
pub proof fn law_handled_obstructions_get_candidates(
    cells: Seq<Cell>,
    obstructions: Seq<Obstruction>,
    proposed: Seq<ProposedCandidateView>,
    j: int,
)
    requires
        0 <= j < obstructions.len(),
        obstructions[j].id is Some,
        proposed.to_multiset() == all_candidates_spec(cells, obstructions).to_multiset(),
    ensures
        opt_is(obstructions[j].obstruction_type, "missing_owner"@) ==> proposes_for(
            proposed,
            obstructions[j].id.unwrap()@,
            "-owner"@,
            "ownership_clarification"@,
        ),
        opt_is(obstructions[j].obstruction_type, "requirement_unverified"@) ==> proposes_for(
            proposed,
            obstructions[j].id.unwrap()@,
            "-verification"@,
            "proposed_test"@,
        ),
        opt_is(obstructions[j].obstruction_type, "api_route_missing_auth"@) ==> proposes_for(
            proposed,
            obstructions[j].id.unwrap()@,
            "-auth-guard"@,
            "proposed_auth_guard"@,
        ),
{
    broadcast use vstd::seq_lib::group_to_multiset_ensures;
    reveal_strlit("boundary_violation");
    reveal_strlit("missing_owner");
    reveal_strlit("requirement_unverified");
    reveal_strlit("api_route_missing_auth");
    assert("boundary_violation"@.len() == 18 && "missing_owner"@.len() == 13);
    assert("requirement_unverified"@[0] == 'r' && "api_route_missing_auth"@[0] == 'a');
    let o = obstructions[j];
    let ss = obstructions.map_values(candidates_of(cells));
    assert(ss[j] == candidates_for(cells, o));
    if opt_is(o.obstruction_type, "missing_owner"@) || opt_is(o.obstruction_type, "requirement_unverified"@) || opt_is(
        o.obstruction_type,
        "api_route_missing_auth"@,
    ) {
        assert(ss[j].len() == 1);
        lemma_flatten_contains(ss, j, 0);
        let p = ss[j][0];
        let all = all_candidates_spec(cells, obstructions);
        all.to_multiset_ensures();
        proposed.to_multiset_ensures();
        assert(all.to_multiset().count(p) > 0);
        assert(proposed.contains(p));
        assert(json_id_of(o) == o.id.unwrap()@);
    }
}

} // verus!
