# advisorygraphen

A verified core for evidence-backed technical advisory work. An advisory space of
cells, contexts and incidences is checked against invariants; violations become
obstructions; completion candidates are proposed for them and reviewed; the blocker
resolution state, close status and audience projections are derived from that.

Layout:

- `src/` — the library, verified with Verus:
  - `model.rs` — the plain values the rules read: cells, incidences, obstructions,
    candidates, errors.
  - `interpretation.rs` — the technical advisory package and its ruleset.
  - `lift.rs` — lift of a bounded snapshot into an advisory space.
  - `reasoning/` — invariant checks and close status (`mod.rs`), completion
    candidates (`completions.rs`), blocker resolution and work items
    (`resolution.rs`).
  - `projection.rs` — audience projections, projection loss and Markdown.
  - `runtime/` — store layout, revision checks, log sequencing, review replay,
    case reasoning (`case_reason.rs`: check, proposals, replayed reviews, resolution
    state, work items, close status and the ai_agent projection of one case head, and
    the close check), completion reviews through the HigherGraphen review record,
    and the autonomy policy for lifecycle proposals.
  - `hg.rs` — the HigherGraphen identifier rule.
  - `text.rs`, `sorting.rs` — text and ordering helpers.
- `tests/` — tests of the library.
- `app/` — file, clock and HigherGraphen plumbing around the library: JSON
  documents, the case store and the workflows.
