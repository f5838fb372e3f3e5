//! The records of an advisory space and of its reports, holding as plain values
//! what the checks, completions, resolution and projections read.
use vstd::prelude::*;
use crate::text::str_eq;

verus! {

/// The texts of a sequence of strings.
pub open spec fn views(s: Seq<String>) -> Seq<Seq<char>> {
    s.map_values(|x: String| x@)
}

/// The text of an optional string.
pub open spec fn opt_view(o: Option<String>) -> Option<Seq<char>> {
    match o {
        Some(s) => Some(s@),
        None => None,
    }
}

/// The optional string is present and has the text `s`.
pub open spec fn opt_is(o: Option<String>, s: Seq<char>) -> bool {
    match o {
        Some(x) => x@ == s,
        None => false,
    }
}

/// The text of an optional string, or `d` when it is absent.
pub open spec fn view_or(o: Option<String>, d: Seq<char>) -> Seq<char> {
    match o {
        Some(x) => x@,
        None => d,
    }
}

pub fn opt_str_is(o: &Option<String>, s: &str) -> (r: bool)
    ensures
        r == opt_is(*o, s@),
{
    match o {
        Some(x) => str_eq(x.as_str(), s),
        None => false,
    }
}

/// A copy of every string of `v`, in order.
pub fn clone_strings(v: &Vec<String>) -> (r: Vec<String>)
    ensures
        views(r@) == views(v@),
{
    let mut out: Vec<String> = Vec::new();
    let mut i: usize = 0;
    while i < v.len()
        invariant
            i <= v.len(),
            views(out@) == views(v@.take(i as int)),
        decreases v.len() - i,
    {
        out.push(v[i].clone());
        proof {
            v@.lemma_map_take_succ(|x: String| x@, i as int);
            assert(views(out@) =~= views(out@.drop_last()).push(v@[i as int]@));
        }
        i = i + 1;
    }
    assert(v@.take(v.len() as int) =~= v@);
    out
}

pub fn clone_opt(o: &Option<String>) -> (r: Option<String>)
    ensures
        opt_view(r) == opt_view(*o),
{
    match o {
        Some(s) => Some(s.clone()),
        None => None,
    }
}

/// A string with the text of the literal `s`.
pub fn text(s: &str) -> (r: String)
    ensures
        r@ == s@,
{
    String::from_str(s)
}

/// Obstruction severity, from diagnostic to blocking export.
#[derive(Clone, Copy, Debug, PartialEq, Eq, Structural)]
pub enum Severity {
    Info,
    Low,
    Medium,
    High,
    Critical,
}

impl Severity {
    /// Position of the severity in the order `info < low < medium < high < critical`.
    pub open spec fn rank(self) -> nat {
        match self {
            Severity::Info => 0,
            Severity::Low => 1,
            Severity::Medium => 2,
            Severity::High => 3,
            Severity::Critical => 4,
        }
    }

    /// The severity named by `s`, if it names one.
    pub open spec fn parse_spec(s: Seq<char>) -> Option<Severity> {
        if s == "info"@ {
            Some(Severity::Info)
        } else if s == "low"@ {
            Some(Severity::Low)
        } else if s == "medium"@ {
            Some(Severity::Medium)
        } else if s == "high"@ {
            Some(Severity::High)
        } else if s == "critical"@ {
            Some(Severity::Critical)
        } else {
            None
        }
    }

    pub fn parse(value: &str) -> (r: Option<Severity>)
        ensures
            r == Severity::parse_spec(value@),
    {
        if str_eq(value, "info") {
            Some(Severity::Info)
        } else if str_eq(value, "low") {
            Some(Severity::Low)
        } else if str_eq(value, "medium") {
            Some(Severity::Medium)
        } else if str_eq(value, "high") {
            Some(Severity::High)
        } else if str_eq(value, "critical") {
            Some(Severity::Critical)
        } else {
            None
        }
    }

    pub fn level(&self) -> (r: u8)
        ensures
            r as nat == self.rank(),
    {
        match self {
            Severity::Info => 0,
            Severity::Low => 1,
            Severity::Medium => 2,
            Severity::High => 3,
            Severity::Critical => 4,
        }
    }

    /// `self` is at least as severe as `other`.
    pub fn at_least(&self, other: &Severity) -> (r: bool)
        ensures
            r == (self.rank() >= other.rank()),
    {
        self.level() >= other.level()
    }

    pub open spec fn name(self) -> Seq<char> {
        match self {
            Severity::Info => "info"@,
            Severity::Low => "low"@,
            Severity::Medium => "medium"@,
            Severity::High => "high"@,
            Severity::Critical => "critical"@,
        }
    }

    /// The lowercase name of the severity.
    pub fn as_str(&self) -> (r: &'static str)
        ensures
            r@ == self.name(),
    {
        match self {
            Severity::Info => "info",
            Severity::Low => "low",
            Severity::Medium => "medium",
            Severity::High => "high",
            Severity::Critical => "critical",
        }
    }
}

/// An obstruction as a report carries it. Absent or non-text JSON fields are `None`;
/// list fields hold the text entries of the JSON array (empty when it is absent).
#[derive(Clone, Debug, PartialEq, Eq)]
pub struct Obstruction {
    pub id: Option<String>,
    pub obstruction_type: Option<String>,
    pub severity: Option<String>,
    pub review_status: Option<String>,
    pub message: Option<String>,
    pub blocked_ids: Vec<String>,
    pub witness_ids: Vec<String>,
    pub evidence_ids: Vec<String>,
    pub recommended_completion_types: Vec<String>,
    /// `metadata.from_cell_id`
    pub from_cell_id: Option<String>,
    /// `metadata.to_cell_id`
    pub to_cell_id: Option<String>,
    /// `metadata.route_path`
    pub route_path: Option<String>,
    /// `metadata.http_methods`
    pub http_methods: Vec<String>,
    /// `metadata.specificity`
    pub specificity: Option<String>,
    /// `metadata.rule_precision`
    pub rule_precision: Option<String>,
    /// `metadata.resolution`: how the obstruction can be resolved
    pub resolution: Option<String>,
}

pub struct ObstructionView {
    pub id: Option<Seq<char>>,
    pub obstruction_type: Option<Seq<char>>,
    pub severity: Option<Seq<char>>,
    pub review_status: Option<Seq<char>>,
    pub message: Option<Seq<char>>,
    pub blocked_ids: Seq<Seq<char>>,
    pub witness_ids: Seq<Seq<char>>,
    pub evidence_ids: Seq<Seq<char>>,
    pub recommended_completion_types: Seq<Seq<char>>,
    pub from_cell_id: Option<Seq<char>>,
    pub to_cell_id: Option<Seq<char>>,
    pub route_path: Option<Seq<char>>,
    pub http_methods: Seq<Seq<char>>,
    pub specificity: Option<Seq<char>>,
    pub rule_precision: Option<Seq<char>>,
    pub resolution: Option<Seq<char>>,
}

impl View for Obstruction {
    type V = ObstructionView;

    open spec fn view(&self) -> ObstructionView {
        ObstructionView {
            id: opt_view(self.id),
            obstruction_type: opt_view(self.obstruction_type),
            severity: opt_view(self.severity),
            review_status: opt_view(self.review_status),
            message: opt_view(self.message),
            blocked_ids: views(self.blocked_ids@),
            witness_ids: views(self.witness_ids@),
            evidence_ids: views(self.evidence_ids@),
            recommended_completion_types: views(self.recommended_completion_types@),
            from_cell_id: opt_view(self.from_cell_id),
            to_cell_id: opt_view(self.to_cell_id),
            route_path: opt_view(self.route_path),
            http_methods: views(self.http_methods@),
            specificity: opt_view(self.specificity),
            rule_precision: opt_view(self.rule_precision),
            resolution: opt_view(self.resolution),
        }
    }
}

impl Obstruction {
    /// A field-by-field copy.
    pub fn duplicate(&self) -> (r: Obstruction)
        ensures
            r@ == self@,
    {
        Obstruction {
            id: clone_opt(&self.id),
            obstruction_type: clone_opt(&self.obstruction_type),
            severity: clone_opt(&self.severity),
            review_status: clone_opt(&self.review_status),
            message: clone_opt(&self.message),
            blocked_ids: clone_strings(&self.blocked_ids),
            witness_ids: clone_strings(&self.witness_ids),
            evidence_ids: clone_strings(&self.evidence_ids),
            recommended_completion_types: clone_strings(&self.recommended_completion_types),
            from_cell_id: clone_opt(&self.from_cell_id),
            to_cell_id: clone_opt(&self.to_cell_id),
            route_path: clone_opt(&self.route_path),
            http_methods: clone_strings(&self.http_methods),
            specificity: clone_opt(&self.specificity),
            rule_precision: clone_opt(&self.rule_precision),
            resolution: clone_opt(&self.resolution),
        }
    }
}

pub open spec fn obstruction_views(s: Seq<Obstruction>) -> Seq<ObstructionView> {
    s.map_values(|o: Obstruction| o@)
}

/// Structured proposal content attached to a completion candidate.
#[derive(Clone, Debug, PartialEq, Eq)]
pub struct ProposalContent {
    /// `scenario.status`
    pub scenario_status: Option<String>,
    /// `obstruction_type` of each entry of `content_obstructions`
    pub content_obstruction_types: Vec<Option<String>>,
}

/// A completion candidate as a report carries it.
#[derive(Clone, Debug, PartialEq, Eq)]
pub struct Candidate {
    pub id: Option<String>,
    pub candidate_type: Option<String>,
    pub review_status: Option<String>,
    pub resolves_obstruction_ids: Vec<String>,
    /// `metadata.specificity`
    pub specificity: Option<String>,
    pub proposal_content: Option<ProposalContent>,
}


/// A cell of an advisory space, holding what the checks and completions read.
#[derive(Clone, Debug, PartialEq, Eq)]
pub struct Cell {
    /// The cell's `id`, empty when it has none.
    pub id: String,
    pub cell_type: Option<String>,
    pub title: Option<String>,
    pub context_ids: Vec<String>,
    pub source_ids: Vec<String>,
    /// `provenance.origin`
    pub origin: Option<String>,
    /// `provenance.review_status`
    pub review_status: Option<String>,
    /// `metadata.require_verification`
    pub require_verification: Option<bool>,
    /// `metadata.verification_required`
    pub verification_required: Option<bool>,
    /// `metadata.source_id`
    pub source_id: Option<String>,
}

/// A directed relation between two cells of an advisory space.
#[derive(Clone, Debug, PartialEq, Eq)]
pub struct Incidence {
    pub id: String,
    pub relation_type: String,
    pub from_id: String,
    pub to_id: String,
    pub evidence_ids: Vec<String>,
    /// `metadata.access_type`
    pub access_type: Option<String>,
    /// `metadata.blocked_ids`, when the incidence names the decisions it blocks.
    pub blocked_ids: Option<Vec<String>>,
}

/// The `source_boundary` of a space's metadata, as projections copy and summarize it.
#[derive(Clone, Debug, PartialEq, Eq)]
pub struct SourceBoundary {
    /// The boundary's JSON text, copied verbatim into projections.
    pub json: String,
    /// The number of entries of `included_source_ids`, when it is an array.
    pub included_source_count: Option<usize>,
    /// The entries of `excluded_summary` (`None` for an entry that is not text),
    /// when it is an array.
    pub excluded_summary: Option<Vec<Option<String>>>,
}

pub struct SourceBoundaryView {
    pub json: Seq<char>,
    pub included_source_count: Option<usize>,
    pub excluded_summary: Option<Seq<Option<Seq<char>>>>,
}

pub open spec fn opt_views(s: Seq<Option<String>>) -> Seq<Option<Seq<char>>> {
    s.map_values(|o: Option<String>| opt_view(o))
}

impl View for SourceBoundary {
    type V = SourceBoundaryView;

    open spec fn view(&self) -> SourceBoundaryView {
        SourceBoundaryView {
            json: self.json@,
            included_source_count: self.included_source_count,
            excluded_summary: match self.excluded_summary {
                Some(v) => Some(opt_views(v@)),
                None => None,
            },
        }
    }
}

impl SourceBoundary {
    /// A field-by-field copy.
    pub fn duplicate(&self) -> (r: SourceBoundary)
        ensures
            r@ == self@,
    {
        let excluded_summary = match &self.excluded_summary {
            Some(v) => {
                let mut out: Vec<Option<String>> = Vec::new();
                let mut i: usize = 0;
                while i < v.len()
                    invariant
                        i <= v.len(),
                        opt_views(out@) == opt_views(v@).take(i as int),
                    decreases v.len() - i,
                {
                    let ghost old = out@;
                    let x = clone_opt(&v[i]);
                    out.push(x);
                    assert(opt_views(out@) =~= opt_views(old).push(opt_view(v@[i as int])));
                    assert(opt_views(v@).take(i + 1) =~= opt_views(v@).take(i as int).push(opt_view(v@[i as int])));
                    i = i + 1;
                }
                assert(opt_views(v@).take(v@.len() as int) =~= opt_views(v@));
                Some(out)
            },
            None => None,
        };
        SourceBoundary {
            json: self.json.clone(),
            included_source_count: self.included_source_count,
            excluded_summary,
        }
    }
}

/// The parts of an advisory space that reasoning and projections read.
#[derive(Clone, Debug, PartialEq, Eq)]
pub struct Space {
    pub space_id: String,
    pub cells: Vec<Cell>,
    /// The ids of the space's contexts.
    pub context_ids: Vec<String>,
    pub incidences: Vec<Incidence>,
    /// `metadata.source_boundary`, when the space has one.
    pub source_boundary: Option<SourceBoundary>,
}

/// Failures of the library's operations. Domain findings are not failures.
#[derive(Clone, Debug, PartialEq, Eq)]
pub enum AdvisoryError {
    /// Input that breaks a contract; the text says which.
    Validation(String),
    UnsupportedRuleset(String),
    UnsupportedPackage(String),
    UnsupportedAudience(String),
    /// Some obstruction reached the severity given as failure threshold.
    FailOnThreshold(Severity),
    /// The store head differs from the base revision the caller wrote against.
    StaleRevision { expected: String, actual: String },
}

/// `a` followed by `b`.
pub fn cat(a: &str, b: &str) -> (r: String)
    ensures
        r@ == a@ + b@,
{
    let mut s = String::from_str(a);
    s.append(b);
    s
}

} // verus!
