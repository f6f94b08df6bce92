//! Row-break tables that share an empty anchor paragraph: which of them the
//! typesetter defers behind the first one.
use vstd::prelude::*;
use crate::model::{signed_hwpunit, spec_signed_hwpunit, PageItem, Paragraph, Table, TablePageBreak, TextWrap, VertRelTo};
use crate::paragraph::{para_has_visible_text, spec_para_visible};

verus! {

/// A row-break table, top-and-bottom wrapped and placed relative to an anchor
/// paragraph without visible text, that is neither inline nor laid out as an
/// inline table by the flow.
pub open spec fn spec_coanchored_rowbreak_split_trigger(
    para: Paragraph,
    table: Table,
    effective_tac: bool,
) -> bool {
    &&& !spec_para_visible(para)
    &&& !effective_tac
    &&& !table.common.treat_as_char
    &&& table.common.text_wrap is TopAndBottom
    &&& table.common.vert_rel_to is Para
    &&& table.page_break is RowBreak
}

/// A split trigger that also starts below its anchor (positive vertical offset).
pub open spec fn spec_deferred_coanchored_rowbreak(
    para: Paragraph,
    table: Table,
    effective_tac: bool,
) -> bool {
    spec_coanchored_rowbreak_split_trigger(para, table, effective_tac) && spec_signed_hwpunit(
        table.common.vertical_offset,
    ) > 0
}

/// The last item placed is a continued fragment of a split table.
pub open spec fn spec_last_is_continued_fragment(items: Seq<PageItem>) -> bool {
    items.len() > 0 && match items.last() {
        PageItem::PartialTable { is_continuation, .. } => is_continuation,
        _ => false,
    }
}

/// Queries on the tables anchored in one paragraph.  Whether the flow lays a
/// table out as an inline table is decided by the flow's own measurement and is
/// handed to each query as `effective_tac`.
pub struct CoanchoredTableQuery<'a> {
    pub para: &'a Paragraph,
}

impl<'a> CoanchoredTableQuery<'a> {
    /// The query over the tables of `para`.
    pub fn new(para: &'a Paragraph) -> (r: Self)
        ensures
            *r.para == *para,
    {
        CoanchoredTableQuery { para }
    }

    /// Whether the table is a co-anchored row-break table that is deferred: a
    /// split trigger whose stored vertical offset is positive.
    pub fn is_deferred_coanchored_rowbreak_table(&self, table: &Table, effective_tac: bool) -> (r:
        bool)
        ensures
            r == spec_deferred_coanchored_rowbreak(*self.para, *table, effective_tac),
    {
        !para_has_visible_text(self.para) && !effective_tac && !table.common.treat_as_char
            && matches!(table.common.text_wrap, TextWrap::TopAndBottom) && matches!(
            table.common.vert_rel_to,
            VertRelTo::Para
        ) && matches!(table.page_break, TablePageBreak::RowBreak) && signed_hwpunit(
            table.common.vertical_offset,
        ) > 0
    }

    /// Whether the table is a co-anchored row-break table whose split makes the
    /// remaining tables of the paragraph wait.
    pub fn is_coanchored_rowbreak_split_trigger_table(&self, table: &Table, effective_tac: bool) -> (r:
        bool)
        ensures
            r == spec_coanchored_rowbreak_split_trigger(*self.para, *table, effective_tac),
    {
        !para_has_visible_text(self.para) && !effective_tac && !table.common.treat_as_char
            && matches!(table.common.text_wrap, TextWrap::TopAndBottom) && matches!(
            table.common.vert_rel_to,
            VertRelTo::Para
        ) && matches!(table.page_break, TablePageBreak::RowBreak)
    }

    /// Whether the tables after this one are deferred: the table is a split
    /// trigger, the page count has grown past the count before the block table,
    /// and the last item placed is a continued fragment of a split table.
    pub fn should_defer_remaining_coanchored_rowbreak_tables(
        &self,
        table: &Table,
        effective_tac: bool,
        page_count: usize,
        current_items: &Vec<PageItem>,
        pages_before_block_table: usize,
    ) -> (r: bool)
        ensures
            r == (spec_coanchored_rowbreak_split_trigger(*self.para, *table, effective_tac)
                && page_count > pages_before_block_table && spec_last_is_continued_fragment(
                current_items@,
            )),
    {
        if !self.is_coanchored_rowbreak_split_trigger_table(table, effective_tac) {
            return false;
        }
        if page_count <= pages_before_block_table {
            return false;
        }
        match current_items.last() {
            Some(PageItem::PartialTable { is_continuation, .. }) => *is_continuation,
            _ => false,
        }
    }
}

/// Every deferred co-anchored row-break table is a split trigger.
pub proof fn lemma_deferred_coanchored_is_split_trigger(
    para: Paragraph,
    table: Table,
    effective_tac: bool,
)
    requires
        spec_deferred_coanchored_rowbreak(para, table, effective_tac),
    ensures
        spec_coanchored_rowbreak_split_trigger(para, table, effective_tac),
{
}

/// A table control whose placement waits in the deferral queue.  (The flow
/// height at which its paragraph started is kept beside it by the caller.)
#[derive(Debug, Clone, Copy, PartialEq, Eq)]
pub struct DeferredTableControl {
    pub para_index: usize,
    pub control_index: usize,
    pub is_first_placed: bool,
    pub is_last_placed: bool,
}

/// The point in the flow at which deferred tables may be placed.
#[derive(Debug, Clone, Copy, PartialEq, Eq)]
pub enum DeferredTableFlushPoint {
    BeforeTableParagraph(usize),
    AfterTableParagraph(usize),
    SectionEnd,
}

/// Some paragraph with index in `[from, to)` has visible text.
pub open spec fn spec_visible_between(ps: Seq<Paragraph>, from: int, to: int) -> bool {
    exists|k: int| from <= k < to && spec_para_visible(#[trigger] ps[k])
}

/// Whether the deferred table stays queued at the flush point.
pub open spec fn spec_keeps_pending(
    point: DeferredTableFlushPoint,
    para_index: usize,
    ps: Seq<Paragraph>,
) -> bool {
    match point {
        DeferredTableFlushPoint::BeforeTableParagraph(idx) => idx <= para_index
            || spec_visible_between(ps, para_index + 1, idx as int),
        DeferredTableFlushPoint::AfterTableParagraph(idx) => idx <= para_index,
        DeferredTableFlushPoint::SectionEnd => false,
    }
}

impl DeferredTableFlushPoint {
    /// Whether the deferred table stays queued: before a table paragraph it
    /// waits when that paragraph is not past its own, or when visible text lies
    /// between its paragraph and that one; after a table paragraph it waits
    /// when that paragraph is not past its own; at the section end it never
    /// waits.
    #[verifier::loop_isolation(false)]
    pub fn keeps_pending(self, deferred: &DeferredTableControl, paragraphs: &Vec<Paragraph>) -> (r:
        bool)
        requires
            self matches DeferredTableFlushPoint::BeforeTableParagraph(idx) ==> (idx
                <= deferred.para_index || idx <= paragraphs@.len()),
        ensures
            r == spec_keeps_pending(self, deferred.para_index, paragraphs@),
    {
        match self {
            DeferredTableFlushPoint::BeforeTableParagraph(idx) => {
                if idx <= deferred.para_index {
                    return true;
                }
                let mut k = deferred.para_index + 1;
                while k < idx
                    invariant
                        deferred.para_index + 1 <= k <= idx <= paragraphs@.len(),
                        forall|m: int|
                            deferred.para_index + 1 <= m < k ==> !spec_para_visible(
                                #[trigger] paragraphs@[m],
                            ),
                    decreases idx - k,
                {
                    if para_has_visible_text(&paragraphs[k]) {
                        assert(spec_para_visible(paragraphs@[k as int]));
                        return true;
                    }
                    k += 1;
                }
                false
            },
            DeferredTableFlushPoint::AfterTableParagraph(idx) => idx <= deferred.para_index,
            DeferredTableFlushPoint::SectionEnd => false,
        }
    }
}

} // verus!
