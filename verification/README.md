# typeset

Verified typesetting queries for HWP/HWPX documents: the decisions that a
single-pass typesetter takes from a document's paragraphs, controls, tables and
the line segments that the saving application stored.

- `src/model.rs` — the document model that the queries read.
- `src/text.rs` — character classes and text predicates.
- `src/paragraph.rs` — what a paragraph holds (visible text, inline and floating objects).
- `src/stored.rs` — stored line-segment positions and the page boundaries they encode.
- `src/tables.rs`, `src/anchors.rs` — table shapes and their anchor paragraphs.
- `src/composed.rs` — inline controls on composed lines.
- `src/deferred.rs`, `src/layout.rs` — deferral of co-anchored tables and small placement policies.
- `src/square_wrap.rs` — the square-picture wrap band.
- `src/variant.rs` — stored position resets that encode page breaks in documents converted from HWP3.
- `app/` — the clock-based stage profiling that stays outside the verified library.

Each public function states its result exactly in its `ensures`; the public
`proof fn`s state the laws that hold across functions.

The page engine itself is not part of this crate: the typesetting loop, table
and inline-table placement, height prediction and snapping, column bands and the
page state all measure in floating-point pixels, so they stay with the renderer
that owns the pixel metrics and call the queries here. Where a query needs a
value that such code computes (a spacing converted to HWPUNIT, the flow's
decision that a table is laid out inline, a fill-ratio comparison), it takes
that value as an argument.
