//! Lift of a bounded source snapshot into an advisory space: sources become evidence
//! cells, records become cells or incidences, context hints become contexts.
use vstd::prelude::*;
use crate::model::{cat, clone_opt, clone_strings, text, views, opt_view};
use crate::text::{push_char, str_eq, trim_start_all, trim_start_matches, strictly_sorted_views, sorted_unique, has_view, strictly_sorted, lemma_sorted_sets_equal, lex_lt};
use crate::sorting::{key_views, sort_by_key, sorted_by_key, stable_sort_by_key, Keyed};
use crate::interpretation::{InterpretationPackage, InvariantRecord, PolicyRecord, PACKAGE_TECHNICAL_ADVISORY_MVP};

verus! {

pub open spec fn record_type_spec(t: Seq<char>) -> Seq<char> {
    if t == "component"@ {
        "component"@
    } else if t == "data_store"@ {
        "data_store"@
    } else if t == "requirement"@ {
        "requirement"@
    } else if t == "test"@ || t == "verification"@ || t == "test_or_verification"@ {
        "test_or_verification"@
    } else if t == "owner"@ {
        "owner"@
    } else if t == "metric"@ {
        "metric"@
    } else if t == "action"@ {
        "action"@
    } else {
        "claim"@
    }
}

/// The cell type a snapshot record type lifts to; unknown types become claims.
pub fn map_record_type(record_type: &str) -> (r: &'static str)
    ensures
        r@ == record_type_spec(record_type@),
{
    if str_eq(record_type, "component") {
        "component"
    } else if str_eq(record_type, "data_store") {
        "data_store"
    } else if str_eq(record_type, "requirement") {
        "requirement"
    } else if str_eq(record_type, "test") || str_eq(record_type, "verification") || str_eq(
        record_type,
        "test_or_verification",
    ) {
        "test_or_verification"
    } else if str_eq(record_type, "owner") {
        "owner"
    } else if str_eq(record_type, "metric") {
        "metric"
    } else if str_eq(record_type, "action") {
        "action"
    } else {
        "claim"
    }
}

pub open spec fn context_type_spec(hint: Seq<char>) -> Seq<char> {
    if hint == "orders"@ || hint == "billing"@ {
        "technical_boundary"@
    } else {
        "review_scope"@
    }
}

/// The context type a context hint lifts to.
pub fn infer_context_type(hint: &str) -> (r: &'static str)
    ensures
        r@ == context_type_spec(hint@),
{
    if str_eq(hint, "orders") || str_eq(hint, "billing") {
        "technical_boundary"
    } else {
        "review_scope"
    }
}

/// The uppercase mapping of a character, as `char::to_uppercase` yields it.
pub uninterp spec fn char_upper(c: char) -> Seq<char>;

/// Calls `char::to_uppercase`; the contract names its characters `char_upper(c)`. As the
/// Unicode mapping that std follows has it, an ASCII lowercase letter becomes its
/// capital, and every other ASCII character, having no uppercase mapping, stays itself.
#[verifier::external_body]
fn to_uppercase(c: char) -> (r: String)
    ensures
        r@ == char_upper(c),
        'a' <= c <= 'z' ==> r@ == seq![((c as u32) - 32) as char],
        (c as u32) < 128 && !('a' <= c <= 'z') ==> r@ == seq![c],
{
    format!("{}", c.to_uppercase())
}

pub open spec fn is_word_separator(c: char) -> bool {
    c == '_' || c == '-'
}

/// The pieces of `s` between separators, as `str::split` yields them.
pub open spec fn segments(s: Seq<char>) -> Seq<Seq<char>>
    decreases s.len(),
{
    if s.len() == 0 {
        seq![Seq::empty()]
    } else {
        let r = segments(s.drop_last());
        if is_word_separator(s.last()) {
            r.push(Seq::empty())
        } else {
            r.update(r.len() - 1, r.last().push(s.last()))
        }
    }
}

pub open spec fn capitalize(w: Seq<char>) -> Seq<char> {
    char_upper(w[0]) + w.drop_first()
}

/// The non-empty words, each capitalized.
pub open spec fn title_words(s: Seq<char>) -> Seq<Seq<char>> {
    segments(s).filter_map(word_of())
}

pub open spec fn word_of() -> spec_fn(Seq<char>) -> Option<Seq<char>> {
    |w: Seq<char>| if w.len() > 0 { Some(capitalize(w)) } else { None }
}

/// `parts` joined by one space.
pub open spec fn join_spaced(parts: Seq<Seq<char>>) -> Seq<char>
    decreases parts.len(),
{
    if parts.len() == 0 {
        Seq::empty()
    } else if parts.len() == 1 {
        parts[0]
    } else {
        join_spaced(parts.drop_last()) + " "@ + parts.last()
    }
}

pub open spec fn title_case_spec(s: Seq<char>) -> Seq<char> {
    join_spaced(title_words(s))
}

proof fn lemma_segments_len(s: Seq<char>)
    ensures
        segments(s).len() >= 1,
    decreases s.len(),
{
    if s.len() > 0 {
        lemma_segments_len(s.drop_last());
    }
}

/// A hint such as `billing-db_owner` as a title: `Billing Db Owner`.
pub fn title_case(value: &str) -> (r: String)
    ensures
        r@ == title_case_spec(value@),
{
    let n = value.unicode_len();
    let mut out = String::new();
    // Words already written to `out`, and the characters of the word being read.
    let ghost mut done: Seq<Seq<char>> = Seq::empty();
    let mut start: usize = 0;
    let mut i: usize = 0;
    let ghost f = word_of();
    let mut words: usize = 0;
    assert(value@.subrange(0, 0) =~= Seq::<char>::empty());
    while i < n
        invariant
            n == value@.len(),
            start <= i <= n,
            f == word_of(),
            words == done.len(),
            words <= i,
            segments(value@.subrange(0, i as int)).last() == value@.subrange(start as int, i as int),
            done == segments(value@.subrange(0, i as int)).drop_last().filter_map(f),
            out@ == join_spaced(done),
        decreases n - i,
    {
        let c = value.get_char(i);
        let ghost pre = value@.subrange(0, i as int);
        let ghost next = value@.subrange(0, i + 1);
        assert(next.drop_last() =~= pre);
        assert(next.last() == c);
        proof {
            lemma_segments_len(pre);
        }
        if c == '_' || c == '-' {
            if start < i {
                let first = value.get_char(start);
                let up = to_uppercase(first);
                let rest = value.substring_char(start + 1, i);
                let word = cat(up.as_str(), rest);
                let ghost seg = value@.subrange(start as int, i as int);
                assert(seg[0] == first);
                assert(rest@ =~= seg.drop_first());
                proof {
                    let segs = segments(pre);
                    assert(segments(next) == segs.push(Seq::empty()));
                    assert(segments(next).drop_last() =~= segs);
                    assert(segs =~= segs.drop_last().push(seg));
                    assert(segs.drop_last().push(seg).filter_map(f) == segs.drop_last().filter_map(f).push(capitalize(seg))) by {
                        let t = segs.drop_last().push(seg);
                        assert(t.drop_last() =~= segs.drop_last());
                        assert(t.last() == seg);
                    }
                }
                if words > 0 {
                    out.append(" ");
                }
                out.append(word.as_str());
                proof {
                    let nd = done.push(capitalize(seg));
                    assert(nd.drop_last() =~= done);
                    if done.len() == 0 {
                        assert(join_spaced(nd) == nd[0]);
                    }
                    done = nd;
                }
                words = words + 1;
            } else {
                proof {
                    let segs = segments(pre);
                    assert(segments(next).drop_last() =~= segs);
                    let seg = value@.subrange(start as int, i as int);
                    assert(seg.len() == 0);
                    assert(segs =~= segs.drop_last().push(seg));
                    let t = segs.drop_last().push(seg);
                    assert(t.drop_last() =~= segs.drop_last());
                }
            }
            start = i + 1;
            assert(segments(next).last() =~= value@.subrange(start as int, i + 1));
        } else {
            proof {
                let segs = segments(pre);
                assert(segments(next) == segs.update(segs.len() - 1, segs.last().push(c)));
                assert(segments(next).drop_last() =~= segs.drop_last());
                assert(segments(next).last() =~= value@.subrange(start as int, i + 1));
            }
        }
        i = i + 1;
    }
    // The last word.
    let ghost segs = segments(value@.subrange(0, n as int));
    proof {
        lemma_segments_len(value@.subrange(0, n as int));
        assert(value@.subrange(0, n as int) =~= value@);
        assert(segs =~= segs.drop_last().push(segs.last()));
    }
    if start < n {
        let first = value.get_char(start);
        let up = to_uppercase(first);
        let rest = value.substring_char(start + 1, n);
        let word = cat(up.as_str(), rest);
        let ghost seg = value@.subrange(start as int, n as int);
        assert(seg[0] == first);
        assert(rest@ =~= seg.drop_first());
        proof {
            let t = segs.drop_last().push(seg);
            assert(t.drop_last() =~= segs.drop_last());
            assert(t.last() == seg);
            assert(segs.last() == seg);
            assert(t =~= segs);
            assert(segs.filter_map(f) == segs.drop_last().filter_map(f).push(capitalize(seg)));
        }
        if words > 0 {
            out.append(" ");
        }
        out.append(word.as_str());
        proof {
            let nd = done.push(capitalize(seg));
            assert(nd.drop_last() =~= done);
            if done.len() == 0 {
                assert(join_spaced(nd) == nd[0]);
            }
        }
    } else {
        proof {
            let seg = value@.subrange(start as int, n as int);
            assert(seg.len() == 0);
            assert(segs.last() == seg);
            assert(segs.filter_map(f) == segs.drop_last().filter_map(f));
        }
    }
    out
}


/// A value of the lifted structure: a text, JSON copied verbatim from the snapshot,
/// a list of texts, or null.
pub enum Field {
    Text(String),
    Json(String),
    TextList(Vec<String>),
    Null,
}

pub enum FieldView {
    Text(Seq<char>),
    Json(Seq<char>),
    TextList(Seq<Seq<char>>),
    Null,
}

impl View for Field {
    type V = FieldView;

    open spec fn view(&self) -> FieldView {
        match self {
            Field::Text(s) => FieldView::Text(s@),
            Field::Json(s) => FieldView::Json(s@),
            Field::TextList(v) => FieldView::TextList(views(v@)),
            Field::Null => FieldView::Null,
        }
    }
}

/// A source of the snapshot. `classification_json` is the JSON text of its
/// `classification`, when it has one.
pub struct SnapshotSource {
    pub id: Option<String>,
    pub title: Option<String>,
    pub source_type: Option<String>,
    pub classification_json: Option<String>,
}

/// The `relation` of a record; its fields are `None` unless they hold text.
pub struct RecordRelation {
    pub relation_type: Option<String>,
    pub from_record_id: Option<String>,
    pub to_record_id: Option<String>,
}

/// A record of the snapshot. The `*_json` fields are the JSON texts of fields that
/// lift copies verbatim, when the record has them.
pub struct SnapshotRecord {
    pub id: Option<String>,
    pub record_type: Option<String>,
    /// Text entries of `context_hints`.
    pub context_hints: Vec<String>,
    /// Text entries of `source_ids`.
    pub source_ids: Vec<String>,
    /// Present when the record's `relation` is neither absent nor null.
    pub relation: Option<RecordRelation>,
    pub title_json: Option<String>,
    pub summary_json: Option<String>,
    pub source_ids_json: Option<String>,
    pub provenance_json: Option<String>,
    pub metadata_json: Option<String>,
}

/// A bounded source snapshot.
pub struct Snapshot {
    pub snapshot_id: String,
    pub engagement_id: String,
    pub sources: Vec<SnapshotSource>,
    pub records: Vec<SnapshotRecord>,
}

/// Cell metadata: the source reference of an evidence cell, or a record's own.
pub enum CellMetadata {
    Evidence { source_id: String, classification: Field },
    Verbatim(Field),
}

pub enum CellMetadataView {
    Evidence { source_id: Seq<char>, classification: FieldView },
    Verbatim(FieldView),
}

/// A lifted cell. A `provenance` of `None` stands for the source adapter's provenance.
pub struct LiftedCell {
    pub id: String,
    pub cell_type: String,
    pub title: Field,
    pub summary: Field,
    pub context_ids: Vec<String>,
    pub source_ids: Field,
    pub provenance: Option<String>,
    pub metadata: CellMetadata,
}

pub struct LiftedCellView {
    pub id: Seq<char>,
    pub cell_type: Seq<char>,
    pub title: FieldView,
    pub summary: FieldView,
    pub context_ids: Seq<Seq<char>>,
    pub source_ids: FieldView,
    pub provenance: Option<Seq<char>>,
    pub metadata: CellMetadataView,
}

impl View for LiftedCell {
    type V = LiftedCellView;

    open spec fn view(&self) -> LiftedCellView {
        LiftedCellView {
            id: self.id@,
            cell_type: self.cell_type@,
            title: self.title@,
            summary: self.summary@,
            context_ids: views(self.context_ids@),
            source_ids: self.source_ids@,
            provenance: opt_view(self.provenance),
            metadata: match self.metadata {
                CellMetadata::Evidence { source_id, classification } => CellMetadataView::Evidence {
                    source_id: source_id@,
                    classification: classification@,
                },
                CellMetadata::Verbatim(f) => CellMetadataView::Verbatim(f@),
            },
        }
    }
}

impl Keyed for LiftedCell {
    open spec fn key_of(v: LiftedCellView) -> Seq<char> {
        v.id
    }

    fn key(&self) -> (r: &str) {
        self.id.as_str()
    }
}

/// A lifted incidence; its strength is always hard.
pub struct LiftedIncidence {
    pub id: String,
    pub relation_type: String,
    pub from_id: String,
    pub to_id: String,
    pub context_ids: Vec<String>,
    pub evidence_ids: Vec<String>,
    pub provenance: Option<String>,
    pub metadata: Field,
}

pub struct LiftedIncidenceView {
    pub id: Seq<char>,
    pub relation_type: Seq<char>,
    pub from_id: Seq<char>,
    pub to_id: Seq<char>,
    pub context_ids: Seq<Seq<char>>,
    pub evidence_ids: Seq<Seq<char>>,
    pub provenance: Option<Seq<char>>,
    pub metadata: FieldView,
}

impl View for LiftedIncidence {
    type V = LiftedIncidenceView;

    open spec fn view(&self) -> LiftedIncidenceView {
        LiftedIncidenceView {
            id: self.id@,
            relation_type: self.relation_type@,
            from_id: self.from_id@,
            to_id: self.to_id@,
            context_ids: views(self.context_ids@),
            evidence_ids: views(self.evidence_ids@),
            provenance: opt_view(self.provenance),
            metadata: self.metadata@,
        }
    }
}

impl Keyed for LiftedIncidence {
    open spec fn key_of(v: LiftedIncidenceView) -> Seq<char> {
        v.id
    }

    fn key(&self) -> (r: &str) {
        self.id.as_str()
    }
}

/// A context derived from a context hint.
pub struct LiftedContext {
    pub id: String,
    pub context_type: String,
    pub title: String,
    pub source_hint: String,
}

pub struct LiftedContextView {
    pub id: Seq<char>,
    pub context_type: Seq<char>,
    pub title: Seq<char>,
    pub source_hint: Seq<char>,
}

impl View for LiftedContext {
    type V = LiftedContextView;

    open spec fn view(&self) -> LiftedContextView {
        LiftedContextView {
            id: self.id@,
            context_type: self.context_type@,
            title: self.title@,
            source_hint: self.source_hint@,
        }
    }
}

impl Keyed for LiftedContext {
    open spec fn key_of(v: LiftedContextView) -> Seq<char> {
        v.id
    }

    fn key(&self) -> (r: &str) {
        self.id.as_str()
    }
}

/// The advisory space lifted from a snapshot.
pub struct LiftedSpace {
    pub space_id: String,
    pub engagement_id: String,
    pub snapshot_id: String,
    pub package_id: String,
    /// Ordered by id.
    pub cells: Vec<LiftedCell>,
    /// Ordered by id.
    pub contexts: Vec<LiftedContext>,
    /// Ordered by id.
    pub incidences: Vec<LiftedIncidence>,
    /// The morphism from the snapshot to the space: its id, source and target.
    pub morphism_id: String,
    pub morphism_type: String,
    pub morphism_from_id: String,
    pub morphism_to_id: String,
    /// The package that interpreted the snapshot, as its metadata records it.
    pub lift_package_id: String,
    pub invariants: Vec<InvariantRecord>,
    pub policies: Vec<PolicyRecord>,
}

pub open spec fn record_cell_id(record_id: Seq<char>) -> Seq<char> {
    "cell:"@ + trim_start_all(record_id, "record:"@)
}

pub open spec fn context_id_spec(hint: Seq<char>) -> Seq<char> {
    "context:"@ + hint
}

pub open spec fn evidence_cell_id(source_id: Seq<char>) -> Seq<char> {
    "cell:evidence-"@ + trim_start_all(source_id, "source:"@)
}

pub open spec fn json_or(j: Option<String>, d: FieldView) -> FieldView {
    match j {
        Some(t) => FieldView::Json(t@),
        None => d,
    }
}

/// The evidence cell of a source; sources without a text id have none.
pub open spec fn evidence_cell_spec(src: SnapshotSource) -> Option<LiftedCellView> {
    match src.id {
        Some(id) => Some(
            LiftedCellView {
                id: evidence_cell_id(id@),
                cell_type: "evidence"@,
                title: FieldView::Text(match src.title {
                    Some(t) => t@,
                    None => id@,
                }),
                summary: match src.source_type {
                    Some(t) => FieldView::Text(t@),
                    None => FieldView::Null,
                },
                context_ids: Seq::empty(),
                source_ids: FieldView::TextList(seq![id@]),
                provenance: None,
                metadata: CellMetadataView::Evidence {
                    source_id: id@,
                    classification: match src.classification_json {
                        Some(c) => FieldView::Json(c@),
                        None => FieldView::Text("public"@),
                    },
                },
            },
        ),
        None => None,
    }
}

pub open spec fn context_ids_of(r: SnapshotRecord) -> Seq<Seq<char>> {
    views(r.context_hints@).map_values(|h: Seq<char>| context_id_spec(h))
}

pub open spec fn record_id_text(r: SnapshotRecord) -> Seq<char> {
    match r.id {
        Some(i) => i@,
        None => Seq::empty(),
    }
}

/// The cell of a record without a relation.
pub open spec fn record_cell_spec(r: SnapshotRecord) -> Option<LiftedCellView> {
    if r.relation is None {
        Some(
            LiftedCellView {
                id: record_cell_id(record_id_text(r)),
                cell_type: record_type_spec(match r.record_type {
                    Some(t) => t@,
                    None => "claim"@,
                }),
                title: json_or(r.title_json, FieldView::Text("Untitled"@)),
                summary: json_or(r.summary_json, FieldView::Null),
                context_ids: context_ids_of(r),
                source_ids: json_or(r.source_ids_json, FieldView::TextList(Seq::empty())),
                provenance: opt_view(r.provenance_json),
                metadata: CellMetadataView::Verbatim(json_or(r.metadata_json, FieldView::Json("{}"@))),
            },
        )
    } else {
        None
    }
}

/// The incidence of a record whose relation names both ends.
pub open spec fn incidence_spec(r: SnapshotRecord) -> Option<LiftedIncidenceView> {
    match r.relation {
        Some(rel) => match (rel.from_record_id, rel.to_record_id) {
            (Some(from), Some(to)) => Some(
                LiftedIncidenceView {
                    id: "incidence:"@ + trim_start_all(record_id_text(r), "record:"@),
                    relation_type: match rel.relation_type {
                        Some(t) => t@,
                        None => "related"@,
                    },
                    from_id: record_cell_id(from@),
                    to_id: record_cell_id(to@),
                    context_ids: context_ids_of(r),
                    evidence_ids: views(r.source_ids@).map_values(|s: Seq<char>| evidence_cell_id(s)),
                    provenance: opt_view(r.provenance_json),
                    metadata: json_or(r.metadata_json, FieldView::Json("{}"@)),
                },
            ),
            _ => None,
        },
        None => None,
    }
}

/// `h` is a context hint of some record.
pub open spec fn is_hint(records: Seq<SnapshotRecord>, h: Seq<char>) -> bool {
    exists|k: int| 0 <= k < records.len() && #[trigger] views(records[k].context_hints@).contains(h)
}

/// `hints_spec` holds every context hint once, sorted.
pub open spec fn hints_exact(records: Seq<SnapshotRecord>) -> bool {
    &&& strictly_sorted_views(hints_spec(records))
    &&& forall|x: Seq<char>| hints_spec(records).contains(x) <==> is_hint(records, x)
}

/// The context hints of all records, sorted and without repeats.
pub open spec fn hints_spec(records: Seq<SnapshotRecord>) -> Seq<Seq<char>> {
    choose|s: Seq<Seq<char>>| strictly_sorted_views(s) && forall|x: Seq<char>| s.contains(x) <==> is_hint(records, x)
}

pub open spec fn context_spec(h: Seq<char>) -> LiftedContextView {
    LiftedContextView {
        id: context_id_spec(h),
        context_type: context_type_spec(h),
        title: title_case_spec(h),
        source_hint: h,
    }
}

pub open spec fn evidence_of_source() -> spec_fn(SnapshotSource) -> Option<LiftedCellView> {
    |s: SnapshotSource| evidence_cell_spec(s)
}

pub open spec fn cell_of_record() -> spec_fn(SnapshotRecord) -> Option<LiftedCellView> {
    |r: SnapshotRecord| record_cell_spec(r)
}

pub open spec fn incidence_of_record() -> spec_fn(SnapshotRecord) -> Option<LiftedIncidenceView> {
    |r: SnapshotRecord| incidence_spec(r)
}

/// The cells of a snapshot before ordering: evidence cells, then record cells.
pub open spec fn cells_spec(s: Snapshot) -> Seq<LiftedCellView> {
    s.sources@.filter_map(evidence_of_source()) + s.records@.filter_map(cell_of_record())
}

pub open spec fn space_id_spec(snapshot_id: Seq<char>) -> Seq<char> {
    "space:advisory:"@ + trim_start_all(snapshot_id, "snapshot:"@)
}

fn json_field(j: &Option<String>, default: Field) -> (r: Field)
    ensures
        r@ == match j {
            Some(t) => FieldView::Json(t@),
            None => default@,
        },
{
    match j {
        Some(t) => Field::Json(t.clone()),
        None => default,
    }
}

fn record_to_cell_id(record_id: &str) -> (r: String)
    ensures
        r@ == record_cell_id(record_id@),
{
    cat("cell:", trim_start_matches(record_id, "record:").as_str())
}

/// The id of the context a hint names.
pub fn stable_context_id(hint: &str) -> (r: String)
    ensures
        r@ == context_id_spec(hint@),
{
    cat("context:", hint)
}

fn evidence_id(source_id: &str) -> (r: String)
    ensures
        r@ == evidence_cell_id(source_id@),
{
    cat("cell:evidence-", trim_start_matches(source_id, "source:").as_str())
}

fn context_ids(r: &SnapshotRecord) -> (out: Vec<String>)
    ensures
        views(out@) == context_ids_of(*r),
{
    let mut out: Vec<String> = Vec::new();
    let mut i: usize = 0;
    while i < r.context_hints.len()
        invariant
            i <= r.context_hints.len(),
            views(out@) == context_ids_of(*r).take(i as int),
        decreases r.context_hints.len() - i,
    {
        let ghost old = out@;
        let c = stable_context_id(r.context_hints[i].as_str());
        let ghost cv = c@;
        out.push(c);
        assert(views(out@) =~= views(old).push(cv));
        assert(context_ids_of(*r).take(i + 1) =~= context_ids_of(*r).take(i as int).push(cv));
        i = i + 1;
    }
    assert(context_ids_of(*r).take(r.context_hints@.len() as int) =~= context_ids_of(*r));
    out
}

fn build_evidence_cell(src: &SnapshotSource) -> (r: Option<LiftedCell>)
    ensures
        match r {
            Some(c) => evidence_cell_spec(*src) == Some(c@),
            None => evidence_cell_spec(*src) is None,
        },
{
    let id = match &src.id {
        Some(id) => id,
        None => return None,
    };
    let title = match &src.title {
        Some(t) => t.clone(),
        None => id.clone(),
    };
    let summary = match &src.source_type {
        Some(t) => Field::Text(t.clone()),
        None => Field::Null,
    };
    let classification = match &src.classification_json {
        Some(c) => Field::Json(c.clone()),
        None => Field::Text(text("public")),
    };
    let ids = vec![id.clone()];
    let cell = LiftedCell {
        id: evidence_id(id.as_str()),
        cell_type: text("evidence"),
        title: Field::Text(title),
        summary,
        context_ids: Vec::new(),
        source_ids: Field::TextList(ids),
        provenance: None,
        metadata: CellMetadata::Evidence { source_id: id.clone(), classification },
    };
    assert(cell@.context_ids =~= Seq::<Seq<char>>::empty());
    assert(views(ids@) =~= seq![id@]);
    Some(cell)
}

fn build_record_cell(r: &SnapshotRecord) -> (out: Option<LiftedCell>)
    ensures
        match out {
            Some(c) => record_cell_spec(*r) == Some(c@),
            None => record_cell_spec(*r) is None,
        },
{
    if r.relation.is_some() {
        return None;
    }
    let id = match &r.id {
        Some(i) => record_to_cell_id(i.as_str()),
        None => record_to_cell_id(""),
    };
    proof {
        reveal_strlit("");
    }
    let cell_type = match &r.record_type {
        Some(t) => map_record_type(t.as_str()),
        None => map_record_type("claim"),
    };
    let empty: Vec<String> = Vec::new();
    let cell = LiftedCell {
        id,
        cell_type: text(cell_type),
        title: json_field(&r.title_json, Field::Text(text("Untitled"))),
        summary: json_field(&r.summary_json, Field::Null),
        context_ids: context_ids(r),
        source_ids: json_field(&r.source_ids_json, Field::TextList(empty)),
        provenance: clone_opt(&r.provenance_json),
        metadata: CellMetadata::Verbatim(json_field(&r.metadata_json, Field::Json(text("{}")))),
    };
    assert(views(empty@) =~= Seq::<Seq<char>>::empty());
    Some(cell)
}

fn build_incidence(r: &SnapshotRecord) -> (out: Option<LiftedIncidence>)
    ensures
        match out {
            Some(x) => incidence_spec(*r) == Some(x@),
            None => incidence_spec(*r) is None,
        },
{
    let rel = match &r.relation {
        Some(rel) => rel,
        None => return None,
    };
    let (from, to) = match (&rel.from_record_id, &rel.to_record_id) {
        (Some(f), Some(t)) => (f, t),
        _ => return None,
    };
    let record_id = match &r.id {
        Some(i) => i.clone(),
        None => String::new(),
    };
    let mut evidence: Vec<String> = Vec::new();
    let ghost ev = views(r.source_ids@).map_values(|s: Seq<char>| evidence_cell_id(s));
    let mut i: usize = 0;
    while i < r.source_ids.len()
        invariant
            i <= r.source_ids.len(),
            ev == views(r.source_ids@).map_values(|s: Seq<char>| evidence_cell_id(s)),
            views(evidence@) == ev.take(i as int),
        decreases r.source_ids.len() - i,
    {
        let ghost old = evidence@;
        let e = evidence_id(r.source_ids[i].as_str());
        let ghost e_v = e@;
        evidence.push(e);
        assert(views(evidence@) =~= views(old).push(e_v));
        assert(ev.take(i + 1) =~= ev.take(i as int).push(e_v));
        i = i + 1;
    }
    assert(ev.take(r.source_ids@.len() as int) =~= ev);
    let inc = LiftedIncidence {
        id: cat("incidence:", trim_start_matches(record_id.as_str(), "record:").as_str()),
        relation_type: match &rel.relation_type {
            Some(t) => t.clone(),
            None => text("related"),
        },
        from_id: record_to_cell_id(from.as_str()),
        to_id: record_to_cell_id(to.as_str()),
        context_ids: context_ids(r),
        evidence_ids: evidence,
        provenance: clone_opt(&r.provenance_json),
        metadata: json_field(&r.metadata_json, Field::Json(text("{}"))),
    };
    Some(inc)
}

/// Every context hint of the records, in record order, repeats kept.
fn all_hints(records: &Vec<SnapshotRecord>) -> (out: Vec<String>)
    ensures
        forall|x: Seq<char>| has_view(out@, x) <==> is_hint(records@, x),
{
    let mut out: Vec<String> = Vec::new();
    let mut k: usize = 0;
    while k < records.len()
        invariant
            k <= records.len(),
            forall|x: Seq<char>| has_view(out@, x) <==> is_hint(records@.take(k as int), x),
        decreases records.len() - k,
    {
        let hints = &records[k].context_hints;
        let mut j: usize = 0;
        while j < hints.len()
            invariant
                k < records.len(),
                j <= hints.len(),
                *hints == records@[k as int].context_hints,
                forall|x: Seq<char>|
                    has_view(out@, x) <==> (is_hint(records@.take(k as int), x) || has_view(
                        hints@.take(j as int),
                        x,
                    )),
            decreases hints.len() - j,
        {
            let ghost old = out@;
            let h = hints[j].clone();
            out.push(h);
            proof {
                assert forall|x: Seq<char>|
                    has_view(out@, x) <==> (is_hint(records@.take(k as int), x) || has_view(
                        hints@.take(j + 1),
                        x,
                    )) by {
                    if has_view(out@, x) {
                        let m = choose|m: int| 0 <= m < out@.len() && #[trigger] out@[m]@ == x;
                        if m < old.len() {
                            assert(old[m]@ == x);
                        } else {
                            assert(hints@.take(j + 1)[j as int]@ == x);
                        }
                    }
                    if has_view(hints@.take(j + 1), x) {
                        let m = choose|m: int| 0 <= m < j + 1 && #[trigger] hints@.take(j + 1)[m]@ == x;
                        if m < j {
                            assert(hints@.take(j as int)[m]@ == x);
                        } else {
                            assert(out@[old.len() as int]@ == x);
                        }
                    }
                    if has_view(old, x) {
                        let m = choose|m: int| 0 <= m < old.len() && #[trigger] old[m]@ == x;
                        assert(out@[m]@ == x);
                    }
                    if has_view(hints@.take(j as int), x) {
                        let m = choose|m: int| 0 <= m < j && #[trigger] hints@.take(j as int)[m]@ == x;
                        assert(hints@.take(j + 1)[m]@ == x);
                    }
                }
            }
            j = j + 1;
        }
        proof {
            assert(hints@.take(hints@.len() as int) =~= hints@);
            assert forall|x: Seq<char>|
                has_view(out@, x) <==> is_hint(records@.take(k + 1), x) by {
                let t = records@.take(k + 1);
                if is_hint(t, x) {
                    let m = choose|m: int| 0 <= m < t.len() && #[trigger] views(t[m].context_hints@).contains(x);
                    if m < k {
                        assert(records@.take(k as int)[m] == t[m]);
                        assert(is_hint(records@.take(k as int), x));
                    } else {
                        let l = choose|l: int| 0 <= l < views(t[m].context_hints@).len() && views(t[m].context_hints@)[l] == x;
                        assert(hints@[l]@ == x);
                        assert(has_view(hints@, x));
                    }
                }
                if is_hint(records@.take(k as int), x) {
                    let m = choose|m: int| 0 <= m < k && #[trigger] views(records@.take(k as int)[m].context_hints@).contains(x);
                    assert(t[m] == records@.take(k as int)[m]);
                    assert(is_hint(t, x));
                }
                if has_view(hints@, x) {
                    let l = choose|l: int| 0 <= l < hints@.len() && #[trigger] hints@[l]@ == x;
                    assert(views(t[k as int].context_hints@)[l] == x);
                    assert(views(t[k as int].context_hints@).contains(x));
                    assert(is_hint(t, x));
                }
            }
        }
        k = k + 1;
    }
    assert(records@.take(records@.len() as int) =~= records@);
    out
}

/// One context per distinct context hint, ordered by hint.
fn build_contexts(records: &Vec<SnapshotRecord>) -> (out: Vec<LiftedContext>)
    ensures
        key_views(out@) == hints_spec(records@).map_values(|h: Seq<char>| context_spec(h)),
        hints_exact(records@),
{
    let all = all_hints(records);
    let hints = sorted_unique(&all);
    proof {
        let hv = views(hints@);
        assert(strictly_sorted_views(hv));
        assert forall|x: Seq<char>| hv.contains(x) <==> is_hint(records@, x) by {
            if hv.contains(x) {
                let m = choose|m: int| 0 <= m < hv.len() && hv[m] == x;
                assert(hints@[m]@ == x);
            }
            if has_view(hints@, x) {
                let m = choose|m: int| 0 <= m < hints@.len() && #[trigger] hints@[m]@ == x;
                assert(hv[m] == x);
            }
        }
        let s = hints_spec(records@);
        assert(strictly_sorted_views(s) && forall|x: Seq<char>| s.contains(x) <==> is_hint(records@, x));
        lemma_sorted_sets_equal(s, hv);
    }
    let ghost target = hints_spec(records@).map_values(|h: Seq<char>| context_spec(h));
    let mut out: Vec<LiftedContext> = Vec::new();
    let mut i: usize = 0;
    while i < hints.len()
        invariant
            i <= hints.len(),
            views(hints@) == hints_spec(records@),
            target == hints_spec(records@).map_values(|h: Seq<char>| context_spec(h)),
            key_views(out@) == target.take(i as int),
        decreases hints.len() - i,
    {
        let h = hints[i].as_str();
        let c = LiftedContext {
            id: stable_context_id(h),
            context_type: text(infer_context_type(h)),
            title: title_case(h),
            source_hint: text(h),
        };
        let ghost old = out@;
        let ghost cv = c@;
        out.push(c);
        proof {
            assert(views(hints@)[i as int] == hints@[i as int]@);
            assert(cv == context_spec(hints@[i as int]@));
            assert(key_views(out@) =~= key_views(old).push(cv));
            assert(target.take(i + 1) =~= target.take(i as int).push(cv));
        }
        i = i + 1;
    }
    assert(target.take(hints@.len() as int) =~= target);
    out
}

/// The evidence cells of the sources that have a text id, in source order.
fn build_evidence_cells(sources: &Vec<SnapshotSource>) -> (out: Vec<LiftedCell>)
    ensures
        key_views(out@) == sources@.filter_map(evidence_of_source()),
{
    let ghost f = evidence_of_source();
    let mut out: Vec<LiftedCell> = Vec::new();
    let mut i: usize = 0;
    while i < sources.len()
        invariant
            i <= sources.len(),
            f == evidence_of_source(),
            key_views(out@) == sources@.take(i as int).filter_map(f),
        decreases sources.len() - i,
    {
        let ghost old = out@;
        let ghost t = sources@.take(i + 1);
        assert(t.drop_last() =~= sources@.take(i as int));
        assert(t.last() == sources@[i as int]);
        match build_evidence_cell(&sources[i]) {
            Some(c) => {
                let ghost cv = c@;
                out.push(c);
                assert(key_views(out@) =~= key_views(old) + seq![cv]);
            },
            None => {},
        }
        i = i + 1;
    }
    assert(sources@.take(sources@.len() as int) =~= sources@);
    out
}

/// The cells of the records without a relation, in record order.
fn build_record_cells(records: &Vec<SnapshotRecord>) -> (out: Vec<LiftedCell>)
    ensures
        key_views(out@) == records@.filter_map(cell_of_record()),
{
    let ghost f = cell_of_record();
    let mut out: Vec<LiftedCell> = Vec::new();
    let mut i: usize = 0;
    while i < records.len()
        invariant
            i <= records.len(),
            f == cell_of_record(),
            key_views(out@) == records@.take(i as int).filter_map(f),
        decreases records.len() - i,
    {
        let ghost old = out@;
        let ghost t = records@.take(i + 1);
        assert(t.drop_last() =~= records@.take(i as int));
        assert(t.last() == records@[i as int]);
        match build_record_cell(&records[i]) {
            Some(c) => {
                let ghost cv = c@;
                out.push(c);
                assert(key_views(out@) =~= key_views(old) + seq![cv]);
            },
            None => {},
        }
        i = i + 1;
    }
    assert(records@.take(records@.len() as int) =~= records@);
    out
}

/// The incidences of the records whose relation names both ends, in record order.
fn build_incidences(records: &Vec<SnapshotRecord>) -> (out: Vec<LiftedIncidence>)
    ensures
        key_views(out@) == records@.filter_map(incidence_of_record()),
{
    let ghost f = incidence_of_record();
    let mut out: Vec<LiftedIncidence> = Vec::new();
    let mut i: usize = 0;
    while i < records.len()
        invariant
            i <= records.len(),
            f == incidence_of_record(),
            key_views(out@) == records@.take(i as int).filter_map(f),
        decreases records.len() - i,
    {
        let ghost old = out@;
        let ghost t = records@.take(i + 1);
        assert(t.drop_last() =~= records@.take(i as int));
        assert(t.last() == records@[i as int]);
        match build_incidence(&records[i]) {
            Some(c) => {
                let ghost cv = c@;
                out.push(c);
                assert(key_views(out@) =~= key_views(old) + seq![cv]);
            },
            None => {},
        }
        i = i + 1;
    }
    assert(records@.take(records@.len() as int) =~= records@);
    out
}

/// A context id of a lifted cell comes from a context hint of some record.
proof fn lemma_cell_context_hint(s: Snapshot, c: LiftedCellView, x: Seq<char>) -> (h: Seq<char>)
    requires
        cells_spec(s).contains(c),
        c.context_ids.contains(x),
    ensures
        is_hint(s.records@, h),
        context_id_spec(h) == x,
{
    let ev = s.sources@.filter_map(evidence_of_source());
    let rc = s.records@.filter_map(cell_of_record());
    let k = choose|k: int| 0 <= k < cells_spec(s).len() && cells_spec(s)[k] == c;
    if k < ev.len() {
        assert(ev[k] == c);
        assert(ev.contains(c));
        s.sources@.lemma_filter_map_contains(evidence_of_source(), c);
        let src = choose|t: SnapshotSource| #[trigger] s.sources@.contains(t) && evidence_of_source()(t) == Some(c);
        assert(c.context_ids.len() == 0);
        assert(false);
        Seq::empty()
    } else {
        assert(rc[k - ev.len()] == c);
        assert(rc.contains(c));
        s.records@.lemma_filter_map_contains(cell_of_record(), c);
        let rec = choose|t: SnapshotRecord| #[trigger] s.records@.contains(t) && cell_of_record()(t) == Some(c);
        lemma_context_id_hint(s.records@, rec, x)
    }
}

/// A context id of a lifted incidence comes from a context hint of some record.
proof fn lemma_incidence_context_hint(s: Snapshot, c: LiftedIncidenceView, x: Seq<char>) -> (h: Seq<char>)
    requires
        s.records@.filter_map(incidence_of_record()).contains(c),
        c.context_ids.contains(x),
    ensures
        is_hint(s.records@, h),
        context_id_spec(h) == x,
{
    s.records@.lemma_filter_map_contains(incidence_of_record(), c);
    let rec = choose|t: SnapshotRecord| #[trigger] s.records@.contains(t) && incidence_of_record()(t) == Some(c);
    lemma_context_id_hint(s.records@, rec, x)
}

proof fn lemma_context_id_hint(records: Seq<SnapshotRecord>, rec: SnapshotRecord, x: Seq<char>) -> (h: Seq<char>)
    requires
        records.contains(rec),
        context_ids_of(rec).contains(x),
    ensures
        is_hint(records, h),
        context_id_spec(h) == x,
{
    let j = choose|j: int| 0 <= j < context_ids_of(rec).len() && context_ids_of(rec)[j] == x;
    let h = views(rec.context_hints@)[j];
    let k = choose|k: int| 0 <= k < records.len() && records[k] == rec;
    assert(views(records[k].context_hints@).contains(h));
    h
}

/// Every id in `ids` is the id of one of the contexts.
pub open spec fn ids_name_contexts(ids: Seq<Seq<char>>, contexts: Seq<LiftedContext>) -> bool {
    forall|x: Seq<char>| ids.contains(x) ==> exists|m: int| 0 <= m < contexts.len() && (#[trigger] contexts[m]@).id == x
}

/// Every context a cell names is a lifted context.
pub open spec fn cells_name_lifted_contexts(cells: Seq<LiftedCell>, contexts: Seq<LiftedContext>) -> bool {
    forall|i: int| 0 <= i < cells.len() ==> ids_name_contexts(#[trigger] cells[i]@.context_ids, contexts)
}

/// Every context an incidence names is a lifted context.
pub open spec fn incidences_name_lifted_contexts(incidences: Seq<LiftedIncidence>, contexts: Seq<LiftedContext>) -> bool {
    forall|i: int| 0 <= i < incidences.len() ==> ids_name_contexts(#[trigger] incidences[i]@.context_ids, contexts)
}

/// The context of a listed hint is among the lifted contexts.
proof fn lemma_context_listed(contexts: Seq<LiftedContext>, records: Seq<SnapshotRecord>, h: Seq<char>)
    requires
        key_views(contexts) == hints_spec(records).map_values(|h: Seq<char>| context_spec(h)),
        hints_spec(records).contains(h),
    ensures
        exists|m: int| 0 <= m < contexts.len() && (#[trigger] contexts[m]@).id == context_id_spec(h),
{
    let m = choose|m: int| 0 <= m < hints_spec(records).len() && hints_spec(records)[m] == h;
    assert(key_views(contexts).len() == contexts.len());
    assert(key_views(contexts)[m] == context_spec(h));
    assert(contexts[m]@ == key_views(contexts)[m]);
}

/// Every context id that a lifted cell or incidence names is the id of a lifted context.
proof fn lemma_contexts_cover(
    snapshot: Snapshot,
    cells: Seq<LiftedCell>,
    incidences: Seq<LiftedIncidence>,
    contexts: Seq<LiftedContext>,
)
    requires
        key_views(cells).to_multiset() == cells_spec(snapshot).to_multiset(),
        key_views(incidences).to_multiset() == snapshot.records@.filter_map(incidence_of_record()).to_multiset(),
        key_views(contexts) == hints_spec(snapshot.records@).map_values(|h: Seq<char>| context_spec(h)),
        hints_exact(snapshot.records@),
    ensures
        cells_name_lifted_contexts(cells, contexts),
        incidences_name_lifted_contexts(incidences, contexts),
{
    broadcast use vstd::seq_lib::group_to_multiset_ensures;
    assert forall|i: int, x: Seq<char>|
        0 <= i < cells.len() && #[trigger] cells[i]@.context_ids.contains(x) implies exists|m: int|
            0 <= m < contexts.len() && (#[trigger] contexts[m]@).id == x by {
        let c = cells[i]@;
        assert(key_views(cells)[i] == c);
        assert(key_views(cells).contains(c));
        assert(key_views(cells).to_multiset().count(c) > 0);
        assert(cells_spec(snapshot).contains(c));
        let h = lemma_cell_context_hint(snapshot, c, x);
        lemma_context_listed(contexts, snapshot.records@, h);
    }
    assert forall|i: int, x: Seq<char>|
        0 <= i < incidences.len() && #[trigger] incidences[i]@.context_ids.contains(x) implies exists|m: int|
            0 <= m < contexts.len() && (#[trigger] contexts[m]@).id == x by {
        let c = incidences[i]@;
        assert(key_views(incidences)[i] == c);
        assert(key_views(incidences).contains(c));
        assert(key_views(incidences).to_multiset().count(c) > 0);
        assert(snapshot.records@.filter_map(incidence_of_record()).contains(c));
        let h = lemma_incidence_context_hint(snapshot, c, x);
        lemma_context_listed(contexts, snapshot.records@, h);
    }
}

/// Lifts a snapshot into an advisory space under `package`. Cells (evidence cells of
/// the sources, then cells of the records without a relation) and incidences are
/// ordered by id, records with equal ids keeping that order; contexts come one per
/// distinct hint, ordered by hint. Every context that a cell or incidence names is
/// among the lifted contexts.
pub fn lift_snapshot(snapshot: &Snapshot, package: &InterpretationPackage) -> (r: LiftedSpace)
    ensures
        r.space_id@ == space_id_spec(snapshot.snapshot_id@),
        r.engagement_id@ == snapshot.engagement_id@,
        r.snapshot_id@ == snapshot.snapshot_id@,
        r.package_id@ == PACKAGE_TECHNICAL_ADVISORY_MVP@,
        sorted_by_key::<LiftedCell>(key_views(r.cells@)),
        key_views(r.cells@).to_multiset() == cells_spec(*snapshot).to_multiset(),
        key_views(r.cells@) == stable_sort_by_key::<LiftedCell>(cells_spec(*snapshot)),
        key_views(r.contexts@) == hints_spec(snapshot.records@).map_values(|h: Seq<char>| context_spec(h)),
        sorted_by_key::<LiftedIncidence>(key_views(r.incidences@)),
        key_views(r.incidences@).to_multiset() == snapshot.records@.filter_map(incidence_of_record()).to_multiset(),
        key_views(r.incidences@) == stable_sort_by_key::<LiftedIncidence>(
            snapshot.records@.filter_map(incidence_of_record()),
        ),
        r.morphism_id@ == "morphism:source-to-advisory-space"@,
        r.morphism_type@ == "source_to_advisory_space"@,
        r.morphism_from_id@ == snapshot.snapshot_id@,
        r.morphism_to_id@ == space_id_spec(snapshot.snapshot_id@),
        r.lift_package_id@ == package.package_id@,
        r.invariants@.len() == package.invariant_ids@.len(),
        forall|i: int|
            0 <= i < r.invariants@.len() ==> #[trigger] r.invariants@[i].id@ == package.invariant_ids@[i]@
                && r.invariants@[i].ruleset@ == package.ruleset@,
        r.policies@.len() == 1,
        r.policies@[0].id@ == "policy:technical-advisory-mvp-defaults"@,
        r.policies@[0].package_id@ == package.package_id@,
        r.policies@[0].projection_loss_required,
        cells_name_lifted_contexts(r.cells@, r.contexts@),
        incidences_name_lifted_contexts(r.incidences@, r.contexts@),
{
    let contexts = build_contexts(&snapshot.records);
    let mut cells = build_evidence_cells(&snapshot.sources);
    let mut record_cells = build_record_cells(&snapshot.records);
    let ghost ev = cells@;
    let ghost rc = record_cells@;
    cells.append(&mut record_cells);
    assert(key_views(cells@) =~= key_views(ev) + key_views(rc));
    let incidences = build_incidences(&snapshot.records);
    let space_id = cat("space:advisory:", trim_start_matches(snapshot.snapshot_id.as_str(), "snapshot:").as_str());
    let to_id = cat("space:advisory:", trim_start_matches(snapshot.snapshot_id.as_str(), "snapshot:").as_str());
    let sorted_cells = sort_by_key(cells);
    let sorted_incidences = sort_by_key(incidences);
    proof {
        lemma_contexts_cover(*snapshot, sorted_cells@, sorted_incidences@, contexts@);
    }
    LiftedSpace {
        space_id,
        engagement_id: snapshot.engagement_id.clone(),
        snapshot_id: snapshot.snapshot_id.clone(),
        package_id: text(PACKAGE_TECHNICAL_ADVISORY_MVP),
        cells: sorted_cells,
        contexts,
        incidences: sorted_incidences,
        morphism_id: text("morphism:source-to-advisory-space"),
        morphism_type: text("source_to_advisory_space"),
        morphism_from_id: snapshot.snapshot_id.clone(),
        morphism_to_id: to_id,
        lift_package_id: package.package_id.clone(),
        invariants: package.invariant_records(),
        policies: package.policy_records(),
    }
}

/// The record types that lift to the cell type of the same name.
pub open spec fn same_named_record_type(t: Seq<char>) -> bool {
    t == "component"@ || t == "data_store"@ || t == "requirement"@ || t == "owner"@ || t == "metric"@ || t
        == "action"@ || t == "test_or_verification"@
}

/// A record without a relation lifts to a cell whose type keeps the record's type
/// where the package knows it (`component`, `data_store`, `requirement`, `owner`,
/// `metric`, `action`, `test_or_verification`), reads `test` and `verification` as
/// `test_or_verification`, and makes every other record, or one without a type, a
/// `claim`.
pub proof fn law_record_types_keep_their_names(r: SnapshotRecord)
    requires
        r.relation is None,
    ensures
        record_cell_spec(r) is Some,
        r.record_type is Some && same_named_record_type(r.record_type.unwrap()@) ==> record_cell_spec(
            r,
        ).unwrap().cell_type == r.record_type.unwrap()@,
        r.record_type is Some && (r.record_type.unwrap()@ == "test"@ || r.record_type.unwrap()@ == "verification"@)
            ==> record_cell_spec(r).unwrap().cell_type == "test_or_verification"@,
        r.record_type is None || !(same_named_record_type(r.record_type.unwrap()@) || r.record_type.unwrap()@
            == "test"@ || r.record_type.unwrap()@ == "verification"@) ==> record_cell_spec(r).unwrap().cell_type
            == "claim"@,
{
    reveal_strlit("component");
    reveal_strlit("data_store");
    reveal_strlit("requirement");
    reveal_strlit("test");
    reveal_strlit("verification");
    reveal_strlit("test_or_verification");
    reveal_strlit("owner");
    reveal_strlit("metric");
    reveal_strlit("action");
    reveal_strlit("claim");
    assert("component"@.len() == 9 && "data_store"@.len() == 10 && "requirement"@.len() == 11);
    assert("test"@.len() == 4 && "verification"@.len() == 12 && "test_or_verification"@.len() == 20);
    assert("owner"@.len() == 5 && "metric"@.len() == 6 && "action"@.len() == 6 && "claim"@.len() == 5);
    assert("metric"@[0] != "action"@[0]);
    assert("claim"@[0] != "owner"@[0]);
}

} // verus!
