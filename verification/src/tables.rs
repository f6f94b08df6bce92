//! Table shapes that the typesetter recognises from their cells and the stored
//! line segments inside them.
use vstd::prelude::*;
use crate::model::{spec_synthetic, Cell, Control, LineSeg, Paragraph, Table, TablePageBreak};
use crate::paragraph::{para_has_visible_text, spec_para_visible};
use crate::stored::is_synthetic_line_seg;
use crate::text::{char_is_control, char_is_whitespace, is_blank, spec_blank, spec_control_char, spec_white_space};

verus! {

/// Two consecutive stored segments of which the second repeats the first's
/// positive position and column geometry.
pub open spec fn spec_same_vpos_pair(a: LineSeg, b: LineSeg) -> bool {
    &&& a.tag & 0x8000_0000u32 == 0
    &&& b.tag & 0x8000_0000u32 == 0
    &&& a.vertical_pos > 0
    &&& b.vertical_pos == a.vertical_pos
    &&& b.column_start == a.column_start
    &&& b.segment_width == a.segment_width
}

/// Some consecutive pair of the segments repeats a positive position.
pub open spec fn spec_segs_have_same_vpos_pair(segs: Seq<LineSeg>) -> bool {
    exists|k: int| 0 <= k < segs.len() - 1 && #[trigger] spec_same_vpos_pair(segs[k], segs[k + 1])
}

/// Whether some consecutive pair of the segments repeats a positive position.
pub fn segs_have_same_vpos_pair(segs: &Vec<LineSeg>) -> (r: bool)
    ensures
        r == spec_segs_have_same_vpos_pair(segs@),
{
    let n = segs.len();
    if n < 2 {
        return false;
    }
    let mut k: usize = 0;
    while k < n - 1
        invariant
            n == segs@.len(),
            n >= 2,
            forall|j: int|
                0 <= j < k && j < segs@.len() - 1 ==> !#[trigger] spec_same_vpos_pair(
                    segs@[j],
                    segs@[j + 1],
                ),
        decreases segs@.len() - k,
    {
        let a = &segs[k];
        let b = &segs[k + 1];
        if a.tag & 0x8000_0000u32 == 0 && b.tag & 0x8000_0000u32 == 0 && a.vertical_pos > 0
            && b.vertical_pos == a.vertical_pos && b.column_start == a.column_start
            && b.segment_width == a.segment_width {
            assert(spec_same_vpos_pair(segs@[k as int], segs@[k + 1]));
            return true;
        }
        k += 1;
    }
    false
}

/// Some paragraph of the cell has a pair of segments repeating a positive position.
pub open spec fn spec_cell_has_same_vpos_pair(c: Cell) -> bool {
    exists|p: int|
        0 <= p < c.paragraphs@.len() && spec_segs_have_same_vpos_pair(
            #[trigger] c.paragraphs@[p].line_segs@,
        )
}

/// A cell of the given row with a same-position pair.
pub open spec fn spec_row_cell_same_vpos(c: Cell, row: int) -> bool {
    c.row as int == row && spec_cell_has_same_vpos_pair(c)
}

/// Whether a cell of `row` has, in one of its paragraphs, two consecutive stored
/// segments at the same positive position with the same column geometry: the
/// trace of a row that the saving application split line by line at a page
/// boundary.
#[verifier::loop_isolation(false)]
pub fn row_has_stored_same_vpos_split_signal(table: &Table, row: usize) -> (r: bool)
    ensures
        r == exists|i: int|
            0 <= i < table.cells@.len() && spec_row_cell_same_vpos(
                #[trigger] table.cells@[i],
                row as int,
            ),
{
    let mut i: usize = 0;
    while i < table.cells.len()
        invariant
            i <= table.cells@.len(),
            forall|j: int|
                0 <= j < i ==> !spec_row_cell_same_vpos(#[trigger] table.cells@[j], row as int),
        decreases table.cells@.len() - i,
    {
        let cell = &table.cells[i];
        if cell.row as usize == row {
            let mut p: usize = 0;
            while p < cell.paragraphs.len()
                invariant
                    p <= cell.paragraphs@.len(),
                    forall|q: int|
                        0 <= q < p ==> !spec_segs_have_same_vpos_pair(
                            #[trigger] cell.paragraphs@[q].line_segs@,
                        ),
                decreases cell.paragraphs@.len() - p,
            {
                if segs_have_same_vpos_pair(&cell.paragraphs[p].line_segs) {
                    assert(spec_row_cell_same_vpos(table.cells@[i as int], row as int));
                    return true;
                }
                p += 1;
            }
        }
        i += 1;
    }
    false
}

/// A stored segment with positive height in the given column geometry.
pub open spec fn spec_reset_ladder_seg(s: LineSeg, cs: i32, sw: i32) -> bool {
    s.tag & 0x8000_0000u32 == 0 && s.line_height > 0 && s.column_start == cs && s.segment_width
        == sw
}

/// The cell's first line sits at 0, the next paragraph's single line restarts
/// at 0, and the third paragraph advances exactly by that line.
pub open spec fn spec_cell_cross_paragraph_zero_reset(c: Cell) -> bool {
    &&& c.paragraphs@.len() >= 3
    &&& forall|q: int|
        0 <= q < 3 ==> (#[trigger] c.paragraphs@[q]).controls@.len() == 0 && !spec_blank(
            c.paragraphs@[q].text@,
        )
    &&& c.paragraphs@[0].line_segs@.len() == 1
    &&& c.paragraphs@[1].line_segs@.len() == 1
    &&& c.paragraphs@[2].line_segs@.len() >= 1
    &&& {
        let first = c.paragraphs@[0].line_segs@[0];
        let second = c.paragraphs@[1].line_segs@[0];
        let third = c.paragraphs@[2].line_segs@[0];
        &&& spec_reset_ladder_seg(first, first.column_start, first.segment_width)
        &&& spec_reset_ladder_seg(second, first.column_start, first.segment_width)
        &&& spec_reset_ladder_seg(third, first.column_start, first.segment_width)
        &&& first.vertical_pos == 0
        &&& second.vertical_pos == 0
        &&& third.vertical_pos > 0
        &&& third.vertical_pos as int == second.line_height + if second.line_spacing > 0 {
            second.line_spacing as int
        } else {
            0
        }
    }
}

/// Whether the cell shows a cross-paragraph zero reset.
pub fn cell_has_cross_paragraph_zero_reset(cell: &Cell) -> (r: bool)
    ensures
        r == spec_cell_cross_paragraph_zero_reset(*cell),
{
    if cell.paragraphs.len() < 3 {
        return false;
    }
    let mut q: usize = 0;
    while q < 3
        invariant
            q <= 3 <= cell.paragraphs@.len(),
            forall|j: int|
                0 <= j < q ==> (#[trigger] cell.paragraphs@[j]).controls@.len() == 0 && !spec_blank(
                    cell.paragraphs@[j].text@,
                ),
        decreases 3 - q,
    {
        let p = &cell.paragraphs[q];
        if p.controls.len() != 0 || is_blank(&p.text) {
            return false;
        }
        q += 1;
    }
    let p0 = &cell.paragraphs[0];
    let p1 = &cell.paragraphs[1];
    let p2 = &cell.paragraphs[2];
    if p0.line_segs.len() != 1 || p1.line_segs.len() != 1 || p2.line_segs.len() < 1 {
        return false;
    }
    let first = &p0.line_segs[0];
    let second = &p1.line_segs[0];
    let third = &p2.line_segs[0];
    let cs = first.column_start;
    let sw = first.segment_width;
    let ladder = |s: &LineSeg| -> (b: bool)
        ensures
            b == spec_reset_ladder_seg(*s, cs, sw),
        { s.tag & 0x8000_0000u32 == 0 && s.line_height > 0 && s.column_start == cs && s.segment_width == sw };
    let advance: i64 = second.line_height as i64 + if second.line_spacing > 0 {
        second.line_spacing as i64
    } else {
        0
    };
    ladder(first) && ladder(second) && ladder(third) && first.vertical_pos == 0
        && second.vertical_pos == 0 && third.vertical_pos > 0 && third.vertical_pos as i64
        == advance
}

/// A cell of the given row with a cross-paragraph zero reset.
pub open spec fn spec_row_cell_zero_reset(c: Cell, row: int) -> bool {
    c.row as int == row && spec_cell_cross_paragraph_zero_reset(c)
}

/// Whether a cell of `row` stores its first line at 0, restarts the next
/// paragraph's single line at 0, and advances the third paragraph by exactly
/// that line's height plus non-negative spacing: a stored page boundary inside
/// the row.  Paragraphs with controls or blank text are no such evidence.
pub fn row_has_stored_cross_paragraph_zero_reset(table: &Table, row: usize) -> (r: bool)
    ensures
        r == exists|i: int|
            0 <= i < table.cells@.len() && spec_row_cell_zero_reset(
                #[trigger] table.cells@[i],
                row as int,
            ),
{
    let mut i: usize = 0;
    while i < table.cells.len()
        invariant
            i <= table.cells@.len(),
            forall|j: int|
                0 <= j < i ==> !spec_row_cell_zero_reset(#[trigger] table.cells@[j], row as int),
        decreases table.cells@.len() - i,
    {
        let cell = &table.cells[i];
        if cell.row as usize == row && cell_has_cross_paragraph_zero_reset(cell) {
            return true;
        }
        i += 1;
    }
    false
}

/// The stored vertical positions of the first `k` segments, synthetic ones left out.
pub open spec fn spec_real_vposes(segs: Seq<LineSeg>, k: int) -> Seq<i32>
    decreases k,
{
    if k <= 0 {
        Seq::empty()
    } else if !spec_synthetic(segs[k - 1]) {
        spec_real_vposes(segs, k - 1).push(segs[k - 1].vertical_pos)
    } else {
        spec_real_vposes(segs, k - 1)
    }
}

/// The stored vertical positions of the first `n` paragraphs of a cell, in order.
pub open spec fn spec_cell_vposes(paras: Seq<Paragraph>, n: int) -> Seq<i32>
    decreases n,
{
    if n <= 0 {
        Seq::empty()
    } else {
        spec_cell_vposes(paras, n - 1) + spec_real_vposes(
            paras[n - 1].line_segs@,
            paras[n - 1].line_segs@.len() as int,
        )
    }
}

/// A positive position followed by one at or above the top.
pub open spec fn spec_has_rewind_to_top(v: Seq<i32>) -> bool {
    exists|k: int| 0 <= k < v.len() - 1 && #[trigger] v[k] > 0 && v[k + 1] <= 0
}

/// A cell whose stored positions, read in paragraph order, rewind from below
/// the top to the top.
pub open spec fn spec_cell_internal_reset(c: Cell) -> bool {
    spec_has_rewind_to_top(spec_cell_vposes(c.paragraphs@, c.paragraphs@.len() as int))
}

/// The cell's stored positions, in paragraph order, synthetic segments left out.
pub fn cell_stored_vposes(cell: &Cell) -> (r: Vec<i32>)
    ensures
        r@ == spec_cell_vposes(cell.paragraphs@, cell.paragraphs@.len() as int),
{
    let mut out: Vec<i32> = Vec::new();
    let mut p: usize = 0;
    while p < cell.paragraphs.len()
        invariant
            p <= cell.paragraphs@.len(),
            out@ == spec_cell_vposes(cell.paragraphs@, p as int),
        decreases cell.paragraphs@.len() - p,
    {
        let segs = &cell.paragraphs[p].line_segs;
        let ghost before = out@;
        let mut s: usize = 0;
        while s < segs.len()
            invariant
                s <= segs@.len(),
                segs@ == cell.paragraphs@[p as int].line_segs@,
                out@ == before + spec_real_vposes(segs@, s as int),
            decreases segs@.len() - s,
        {
            if !is_synthetic_line_seg(&segs[s]) {
                out.push(segs[s].vertical_pos);
            }
            assert(out@ == before + spec_real_vposes(segs@, s + 1));
            s += 1;
        }
        p += 1;
    }
    out
}

/// Whether some position is positive and the next one is at or above the top.
pub fn has_rewind_to_top(v: &Vec<i32>) -> (r: bool)
    ensures
        r == spec_has_rewind_to_top(v@),
{
    let n = v.len();
    if n < 2 {
        return false;
    }
    let mut k: usize = 0;
    while k < n - 1
        invariant
            n == v@.len(),
            n >= 2,
            forall|j: int| 0 <= j < k && j < v@.len() - 1 ==> !(#[trigger] v@[j] > 0 && v@[j + 1] <= 0),
        decreases v@.len() - k,
    {
        if v[k] > 0 && v[k + 1] <= 0 {
            return true;
        }
        k += 1;
    }
    false
}

/// Whether the cell's stored positions, read across its paragraphs, rewind
/// from a positive position to 0 or above.
pub fn cell_has_internal_saved_vpos_reset(cell: &Cell) -> (r: bool)
    ensures
        r == spec_cell_internal_reset(*cell),
{
    let v = cell_stored_vposes(cell);
    has_rewind_to_top(&v)
}

/// A cell of the given row with an internal stored reset.
pub open spec fn spec_row_cell_internal_reset(c: Cell, row: int) -> bool {
    c.row as int == row && spec_cell_internal_reset(c)
}

/// Some cell of the row has an internal stored reset.
pub open spec fn spec_row_internal_reset(t: Table, row: int) -> bool {
    exists|i: int|
        0 <= i < t.cells@.len() && spec_row_cell_internal_reset(#[trigger] t.cells@[i], row)
}

/// Whether a cell of `row` has stored positions that, read across its
/// paragraphs and ignoring synthetic segments, rewind from a positive position
/// to the top: the cell's tail continues on the next page.
pub fn rowbreak_row_has_internal_saved_vpos_reset(table: &Table, row: usize) -> (r: bool)
    ensures
        r == spec_row_internal_reset(*table, row as int),
{
    let mut i: usize = 0;
    while i < table.cells.len()
        invariant
            i <= table.cells@.len(),
            forall|j: int|
                0 <= j < i ==> !spec_row_cell_internal_reset(#[trigger] table.cells@[j], row as int),
        decreases table.cells@.len() - i,
    {
        let cell = &table.cells[i];
        if cell.row as usize == row && cell_has_internal_saved_vpos_reset(cell) {
            return true;
        }
        i += 1;
    }
    false
}

/// Whether some row below `row_count` has a cell with an internal stored reset.
pub fn rowbreak_table_has_internal_saved_vpos_reset(table: &Table) -> (r: bool)
    ensures
        r == exists|row: int|
            0 <= row < table.row_count && #[trigger] spec_row_internal_reset(*table, row),
{
    let n = table.row_count as usize;
    let mut row: usize = 0;
    while row < n
        invariant
            row <= n == table.row_count,
            forall|k: int| 0 <= k < row ==> !#[trigger] spec_row_internal_reset(*table, k),
        decreases n - row,
    {
        if rowbreak_row_has_internal_saved_vpos_reset(table, row) {
            return true;
        }
        row += 1;
    }
    false
}

/// The positions, in order, of the first `k` cells that lie in `row`.
pub open spec fn spec_row_indices(cells: Seq<Cell>, row: int, k: int) -> Seq<int>
    decreases k,
{
    if k <= 0 {
        Seq::empty()
    } else if cells[k - 1].row as int == row {
        spec_row_indices(cells, row, k - 1).push(k - 1)
    } else {
        spec_row_indices(cells, row, k - 1)
    }
}

/// Some paragraph of the cell has text or controls.
pub open spec fn spec_cell_has_content(c: Cell) -> bool {
    exists|p: int|
        0 <= p < c.paragraphs@.len() && ((#[trigger] c.paragraphs@[p]).text@.len() > 0
            || c.paragraphs@[p].controls@.len() > 0)
}

/// The cell holds the single empty paragraph that a template clone leaves.
pub open spec fn spec_cell_template_empty(c: Cell) -> bool {
    &&& c.paragraphs@.len() == 1
    &&& c.paragraphs@[0].text@.len() == 0
    &&& c.paragraphs@[0].controls@.len() == 0
    &&& !c.paragraphs@[0].has_para_text
    &&& c.paragraphs@[0].char_count <= 1
}

/// The template's header bytes copy the source's, with the instance id
/// (bytes 6..10) zeroed where the source's is set.
pub open spec fn spec_zeroed_instance_clone(src: Seq<u8>, tpl: Seq<u8>) -> bool {
    &&& src.len() >= 10
    &&& src.len() == tpl.len()
    &&& exists|i: int| 6 <= i < 10 && #[trigger] src[i] != 0
    &&& forall|i: int| 6 <= i < 10 ==> #[trigger] tpl[i] == 0
    &&& forall|i: int| 0 <= i < src.len() && !(6 <= i < 10) ==> #[trigger] src[i] == tpl[i]
}

/// The template keeps at most the first character shape of the source, unchanged.
pub open spec fn spec_cloned_first_char_shape(
    src: Seq<crate::model::CharShapeRef>,
    tpl: Seq<crate::model::CharShapeRef>,
) -> bool {
    &&& tpl.len() == if src.len() < 1 {
        src.len()
    } else {
        1
    }
    &&& forall|i: int|
        0 <= i < tpl.len() ==> (#[trigger] tpl[i]).start_pos == src[i].start_pos
            && tpl[i].char_shape_id == src[i].char_shape_id
}

/// The template keeps exactly the source's first stored line.
pub open spec fn spec_cloned_first_line(src: Seq<LineSeg>, tpl: Seq<LineSeg>) -> bool {
    tpl.len() == 1 && src.len() >= 1 && src[0] == tpl[0]
}

/// A content cell at column 0 and the empty template clone of it at column 1,
/// of equal geometry, border, padding and list and paragraph format.
pub open spec fn spec_split_cell_pair(a: Cell, b: Cell) -> bool {
    &&& a.col == 0
    &&& b.col == 1
    &&& a.col_span == 1 && a.row_span == 1 && b.col_span == 1 && b.row_span == 1
    &&& (a.width as int - b.width as int <= 1 && b.width as int - a.width as int <= 1)
    &&& a.height == b.height
    &&& a.border_fill_id == b.border_fill_id
    &&& a.padding == b.padding
    &&& spec_cell_has_content(a)
    &&& !spec_cell_has_content(b)
    &&& spec_cell_template_empty(b)
    &&& !spec_cell_template_empty(a)
    &&& {
        let src = a.paragraphs@[0];
        let tpl = b.paragraphs@[0];
        &&& spec_zeroed_instance_clone(src.raw_header_extra@, tpl.raw_header_extra@)
        &&& a.raw_list_extra@ == b.raw_list_extra@
        &&& a.list_header_width_ref == b.list_header_width_ref
        &&& a.text_direction == b.text_direction
        &&& a.vertical_align == b.vertical_align
        &&& a.apply_inner_margin == b.apply_inner_margin
        &&& a.is_header == b.is_header
        &&& src.para_shape_id == tpl.para_shape_id
        &&& src.style_id == tpl.style_id
        &&& spec_cloned_first_char_shape(src.char_shapes@, tpl.char_shapes@)
        &&& spec_cloned_first_line(src.line_segs@, tpl.line_segs@)
    }
}

/// Every other row exists and is one full-width cell at column 0.
pub open spec fn spec_other_rows_full_width(t: Table, row: int) -> bool {
    &&& exists|i: int| 0 <= i < t.cells@.len() && (#[trigger] t.cells@[i]).row as int != row
    &&& forall|i: int|
        0 <= i < t.cells@.len() && (#[trigger] t.cells@[i]).row as int != row ==> t.cells@[i].col
            == 0 && t.cells@[i].col_span == t.col_count
}

/// A two-column table in which `row` is a one-column cell split in two by a
/// template clone that survived a native save and reparse, while every other
/// row spans both columns.
pub open spec fn spec_reparsed_split_row(t: Table, row: int) -> bool {
    &&& t.col_count == 2
    &&& row < t.row_count
    &&& {
        let idx = spec_row_indices(t.cells@, row, t.cells@.len() as int);
        &&& idx.len() == 2
        &&& {
            let c0 = t.cells@[idx[0]];
            let c1 = t.cells@[idx[1]];
            if c0.col <= c1.col {
                spec_split_cell_pair(c0, c1)
            } else {
                spec_split_cell_pair(c1, c0)
            }
        }
        &&& spec_other_rows_full_width(t, row)
    }
}

proof fn lemma_row_indices_bounds(cells: Seq<Cell>, row: int, k: int)
    requires
        0 <= k <= cells.len(),
    ensures
        forall|j: int|
            0 <= j < spec_row_indices(cells, row, k).len() ==> 0 <= #[trigger] spec_row_indices(
                cells,
                row,
                k,
            )[j] < k && cells[spec_row_indices(cells, row, k)[j]].row as int == row,
    decreases k,
{
    if k > 0 {
        lemma_row_indices_bounds(cells, row, k - 1);
        let prev = spec_row_indices(cells, row, k - 1);
        if cells[k - 1].row as int == row {
            let cur = prev.push(k - 1);
            assert forall|j: int| 0 <= j < cur.len() implies 0 <= #[trigger] cur[j] < k
                && cells[cur[j]].row as int == row by {
                if j < prev.len() {
                    assert(cur[j] == prev[j]);
                }
            }
        }
    }
}

/// Whether the byte sequences are equal.
pub fn bytes_equal(a: &Vec<u8>, b: &Vec<u8>) -> (r: bool)
    ensures
        r == (a@ == b@),
{
    if a.len() != b.len() {
        return false;
    }
    let mut i: usize = 0;
    while i < a.len()
        invariant
            i <= a@.len() == b@.len(),
            forall|j: int| 0 <= j < i ==> a@[j] == b@[j],
        decreases a@.len() - i,
    {
        if a[i] != b[i] {
            return false;
        }
        i += 1;
    }
    assert(a@ =~= b@);
    true
}

/// Whether the template's header bytes are the source's with the instance id zeroed.
pub fn is_zeroed_instance_clone(src: &Vec<u8>, tpl: &Vec<u8>) -> (r: bool)
    ensures
        r == spec_zeroed_instance_clone(src@, tpl@),
{
    if src.len() < 10 || src.len() != tpl.len() {
        return false;
    }
    let src_has_id = src[6] != 0 || src[7] != 0 || src[8] != 0 || src[9] != 0;
    if !src_has_id {
        assert(forall|i: int| 6 <= i < 10 ==> !(#[trigger] src@[i] != 0));
        return false;
    }
    if tpl[6] != 0 || tpl[7] != 0 || tpl[8] != 0 || tpl[9] != 0 {
        return false;
    }
    let mut i: usize = 0;
    while i < src.len()
        invariant
            i <= src@.len() == tpl@.len(),
            src@.len() >= 10,
            forall|j: int| 0 <= j < i && !(6 <= j < 10) ==> #[trigger] src@[j] == tpl@[j],
        decreases src@.len() - i,
    {
        if (i < 6 || i >= 10) && src[i] != tpl[i] {
            return false;
        }
        i += 1;
    }
    true
}

/// Whether the cell has a paragraph with text or controls.
pub fn cell_has_content(cell: &Cell) -> (r: bool)
    ensures
        r == spec_cell_has_content(*cell),
{
    let mut p: usize = 0;
    while p < cell.paragraphs.len()
        invariant
            p <= cell.paragraphs@.len(),
            forall|q: int|
                0 <= q < p ==> !((#[trigger] cell.paragraphs@[q]).text@.len() > 0
                    || cell.paragraphs@[q].controls@.len() > 0),
        decreases cell.paragraphs@.len() - p,
    {
        if cell.paragraphs[p].text.len() > 0 || cell.paragraphs[p].controls.len() > 0 {
            return true;
        }
        p += 1;
    }
    false
}

/// Whether the cell holds just the empty paragraph of a template clone.
pub fn cell_is_template_empty(cell: &Cell) -> (r: bool)
    ensures
        r == spec_cell_template_empty(*cell),
{
    cell.paragraphs.len() == 1 && cell.paragraphs[0].text.len() == 0
        && cell.paragraphs[0].controls.len() == 0 && !cell.paragraphs[0].has_para_text
        && cell.paragraphs[0].char_count <= 1
}

/// Whether the two cells are a content cell and its empty template clone.
pub fn is_split_cell_pair(a: &Cell, b: &Cell) -> (r: bool)
    ensures
        r == spec_split_cell_pair(*a, *b),
{
    if a.col != 0 || b.col != 1 || a.col_span != 1 || a.row_span != 1 || b.col_span != 1
        || b.row_span != 1 {
        return false;
    }
    let width_close = if a.width >= b.width {
        a.width - b.width <= 1
    } else {
        b.width - a.width <= 1
    };
    if !width_close || a.height != b.height || a.border_fill_id != b.border_fill_id {
        return false;
    }
    if a.padding.left != b.padding.left || a.padding.right != b.padding.right || a.padding.top
        != b.padding.top || a.padding.bottom != b.padding.bottom {
        return false;
    }
    if !cell_has_content(a) || cell_has_content(b) || !cell_is_template_empty(b)
        || cell_is_template_empty(a) {
        return false;
    }
    let src = &a.paragraphs[0];
    let tpl = &b.paragraphs[0];
    if !is_zeroed_instance_clone(&src.raw_header_extra, &tpl.raw_header_extra) {
        return false;
    }
    if !bytes_equal(&a.raw_list_extra, &b.raw_list_extra) || a.list_header_width_ref
        != b.list_header_width_ref || a.text_direction != b.text_direction || a.vertical_align
        != b.vertical_align || a.apply_inner_margin != b.apply_inner_margin || a.is_header
        != b.is_header || src.para_shape_id != tpl.para_shape_id || src.style_id != tpl.style_id {
        return false;
    }
    let expected_shapes: usize = if src.char_shapes.len() < 1 {
        src.char_shapes.len()
    } else {
        1
    };
    if tpl.char_shapes.len() != expected_shapes {
        return false;
    }
    if tpl.char_shapes.len() == 1 && (tpl.char_shapes[0].start_pos != src.char_shapes[0].start_pos
        || tpl.char_shapes[0].char_shape_id != src.char_shapes[0].char_shape_id) {
        return false;
    }
    if tpl.line_segs.len() != 1 || src.line_segs.len() < 1 {
        return false;
    }
    let s = &src.line_segs[0];
    let t = &tpl.line_segs[0];
    s.text_start == t.text_start && s.vertical_pos == t.vertical_pos && s.line_height
        == t.line_height && s.text_height == t.text_height && s.baseline_distance
        == t.baseline_distance && s.line_spacing == t.line_spacing && s.column_start
        == t.column_start && s.segment_width == t.segment_width && s.tag == t.tag
}

/// Whether every cell outside `row` is a full-width cell at column 0, and there is one.
pub fn other_rows_full_width(table: &Table, row: usize) -> (r: bool)
    ensures
        r == spec_other_rows_full_width(*table, row as int),
{
    let mut seen = false;
    let mut i: usize = 0;
    while i < table.cells.len()
        invariant
            i <= table.cells@.len(),
            seen == exists|j: int| 0 <= j < i && (#[trigger] table.cells@[j]).row as int != row,
            forall|j: int|
                0 <= j < i && (#[trigger] table.cells@[j]).row as int != row
                    ==> table.cells@[j].col == 0 && table.cells@[j].col_span == table.col_count,
        decreases table.cells@.len() - i,
    {
        let c = &table.cells[i];
        if c.row as usize != row {
            if c.col != 0 || c.col_span != table.col_count {
                return false;
            }
            seen = true;
        }
        i += 1;
    }
    seen
}

/// Whether `row` of a two-column table is a one-column cell that a native save
/// and reparse left split in two: the content cell at column 0 and, at column
/// 1, an empty clone of it whose header keeps every byte but a zeroed instance
/// id, with the same geometry, border, padding, list and paragraph format and
/// first stored line; every other row is one full-width cell.
pub fn is_reparsed_single_column_cell_split_row(table: &Table, row: usize) -> (r: bool)
    ensures
        r == spec_reparsed_split_row(*table, row as int),
{
    if table.col_count != 2 || row >= table.row_count as usize {
        return false;
    }
    let mut idx: Vec<usize> = Vec::new();
    let mut i: usize = 0;
    while i < table.cells.len()
        invariant
            i <= table.cells@.len(),
            idx@.len() == spec_row_indices(table.cells@, row as int, i as int).len(),
            forall|j: int|
                0 <= j < idx@.len() ==> #[trigger] idx@[j] as int == spec_row_indices(
                    table.cells@,
                    row as int,
                    i as int,
                )[j],
        decreases table.cells@.len() - i,
    {
        if table.cells[i].row as usize == row {
            idx.push(i);
        }
        i += 1;
    }
    proof {
        lemma_row_indices_bounds(table.cells@, row as int, table.cells@.len() as int);
    }
    if idx.len() != 2 {
        return false;
    }
    let c0 = &table.cells[idx[0]];
    let c1 = &table.cells[idx[1]];
    let pair = if c0.col <= c1.col {
        is_split_cell_pair(c0, c1)
    } else {
        is_split_cell_pair(c1, c0)
    };
    pair && other_rows_full_width(table, row)
}

/// Some paragraph of the cell holds a picture control.
pub open spec fn spec_cell_has_picture(c: Cell) -> bool {
    exists|p: int, k: int|
        0 <= p < c.paragraphs@.len() && 0 <= k < c.paragraphs@[p].controls@.len()
            && (#[trigger] c.paragraphs@[p].controls@[k]) is Picture
}

/// Some paragraph of the cell has visible text.
pub open spec fn spec_cell_has_visible(c: Cell) -> bool {
    exists|p: int| 0 <= p < c.paragraphs@.len() && spec_para_visible(#[trigger] c.paragraphs@[p])
}

/// A split-by-row 2x1 table of single cells: a picture in the first row, a caption with
/// visible text in the second.
pub open spec fn spec_two_row_picture_caption_table(t: Table) -> bool {
    &&& t.page_break is RowBreak
    &&& t.row_count == 2
    &&& t.col_count == 1
    &&& t.cells@.len() == 2
    &&& forall|i: int|
        0 <= i < 2 ==> (#[trigger] t.cells@[i]).col == 0 && t.cells@[i].row <= 1
            && t.cells@[i].row_span == 1 && t.cells@[i].col_span == 1
    &&& exists|i: int|
        0 <= i < 2 && (#[trigger] t.cells@[i]).row == 0 && spec_cell_has_picture(t.cells@[i])
    &&& exists|i: int|
        0 <= i < 2 && (#[trigger] t.cells@[i]).row == 1 && spec_cell_has_visible(t.cells@[i])
}

/// Whether the cell has a paragraph holding a picture control.
pub fn cell_has_picture(cell: &Cell) -> (r: bool)
    ensures
        r == spec_cell_has_picture(*cell),
{
    let mut p: usize = 0;
    while p < cell.paragraphs.len()
        invariant
            p <= cell.paragraphs@.len(),
            forall|q: int, k: int|
                0 <= q < p && 0 <= k < cell.paragraphs@[q].controls@.len() ==> !((
                #[trigger] cell.paragraphs@[q].controls@[k]) is Picture),
        decreases cell.paragraphs@.len() - p,
    {
        let para = &cell.paragraphs[p];
        let mut k: usize = 0;
        while k < para.controls.len()
            invariant
                k <= para.controls@.len(),
                para == cell.paragraphs@[p as int],
                p < cell.paragraphs@.len(),
                forall|m: int| 0 <= m < k ==> !((#[trigger] para.controls@[m]) is Picture),
            decreases para.controls@.len() - k,
        {
            if matches!(&para.controls[k], Control::Picture(_)) {
                assert(cell.paragraphs@[p as int].controls@[k as int] is Picture);
                return true;
            }
            k += 1;
        }
        p += 1;
    }
    false
}

/// Whether the cell has a paragraph with visible text.
pub fn cell_has_visible(cell: &Cell) -> (r: bool)
    ensures
        r == spec_cell_has_visible(*cell),
{
    let mut p: usize = 0;
    while p < cell.paragraphs.len()
        invariant
            p <= cell.paragraphs@.len(),
            forall|q: int| 0 <= q < p ==> !spec_para_visible(#[trigger] cell.paragraphs@[q]),
        decreases cell.paragraphs@.len() - p,
    {
        if para_has_visible_text(&cell.paragraphs[p]) {
            return true;
        }
        p += 1;
    }
    false
}

/// Whether the table is a split-by-row table of two rows of one single cell
/// each, with a picture in the first row and a caption with visible text in
/// the second.
pub fn is_two_row_picture_caption_rowbreak_table(table: &Table) -> (r: bool)
    ensures
        r == spec_two_row_picture_caption_table(*table),
{
    if !matches!(table.page_break, TablePageBreak::RowBreak) || table.row_count != 2 || table.col_count != 1 || table.cells.len() != 2 {
        return false;
    }
    let a = &table.cells[0];
    let b = &table.cells[1];
    if a.col != 0 || a.row > 1 || a.row_span != 1 || a.col_span != 1 || b.col != 0 || b.row > 1
        || b.row_span != 1 || b.col_span != 1 {
        return false;
    }
    let has_picture = (a.row == 0 && cell_has_picture(a)) || (b.row == 0 && cell_has_picture(b));
    let has_caption_text = (a.row == 1 && cell_has_visible(a)) || (b.row == 1 && cell_has_visible(
        b,
    ));
    has_picture && has_caption_text
}

/// A 1x1 split-by-row table whose single cell holds one blank paragraph with
/// exactly one non-inline picture.
pub open spec fn spec_single_noninline_picture_table(t: Table) -> bool {
    &&& !t.common.treat_as_char
    &&& t.row_count == 1
    &&& t.col_count == 1
    &&& t.cells@.len() == 1
    &&& t.page_break is RowBreak
    &&& {
        let c = t.cells@[0];
        &&& c.row == 0 && c.col == 0 && c.row_span == 1 && c.col_span == 1
        &&& c.paragraphs@.len() == 1
        &&& spec_blank(c.paragraphs@[0].text@)
        &&& c.paragraphs@[0].controls@.len() == 1
        &&& match c.paragraphs@[0].controls@[0] {
            Control::Picture(pic) => !pic.common.treat_as_char,
            _ => false,
        }
    }
}

/// Whether the table is a non-inline 1x1 split-by-row table whose single cell
/// holds one blank paragraph with exactly one non-inline picture.
pub fn is_single_noninline_picture_table(table: &Table) -> (r: bool)
    ensures
        r == spec_single_noninline_picture_table(*table),
{
    if table.common.treat_as_char || table.row_count != 1 || table.col_count != 1
        || table.cells.len() != 1 || !matches!(table.page_break, TablePageBreak::RowBreak) {
        return false;
    }
    let cell = &table.cells[0];
    if !(cell.row == 0 && cell.col == 0 && cell.row_span == 1 && cell.col_span == 1
        && cell.paragraphs.len() == 1) {
        return false;
    }
    let para = &cell.paragraphs[0];
    if !is_blank(&para.text) || para.controls.len() != 1 {
        return false;
    }
    match &para.controls[0] {
        Control::Picture(pic) => !pic.common.treat_as_char,
        _ => false,
    }
}

/// A non-inline split-by-row table that carries a picture at a stored anchor.
pub open spec fn spec_stored_anchor_picture_table(t: Table) -> bool {
    &&& !t.common.treat_as_char
    &&& t.page_break is RowBreak
    &&& (spec_single_noninline_picture_table(t) || spec_two_row_picture_caption_table(t))
}

/// Whether the table is a non-inline split-by-row table that is either a single
/// picture or a picture with a caption row.
pub fn is_stored_anchor_picture_table(table: &Table) -> (r: bool)
    ensures
        r == spec_stored_anchor_picture_table(*table),
{
    !table.common.treat_as_char && matches!(table.page_break, TablePageBreak::RowBreak) && (
    is_single_noninline_picture_table(table) || is_two_row_picture_caption_rowbreak_table(table))
}

/// The position of the first table control at or after `i`.
pub open spec fn spec_first_table_from(cs: Seq<Control>, i: int) -> Option<int>
    decreases cs.len() - i,
{
    if i < 0 || i >= cs.len() {
        None
    } else if cs[i] is Table {
        Some(i)
    } else {
        spec_first_table_from(cs, i + 1)
    }
}

/// The first table found from `i` lies at or after `i` and is a table.
pub proof fn lemma_first_table_from(cs: Seq<Control>, i: int)
    ensures
        spec_first_table_from(cs, i) matches Some(k) ==> i <= k < cs.len() && cs[k] is Table,
    decreases cs.len() - i,
{
    if 0 <= i < cs.len() && !(cs[i] is Table) {
        lemma_first_table_from(cs, i + 1);
    }
}

/// A character that counts as text when unwrapping an empty wrapper table.
pub open spec fn spec_geometry_text_char(c: char) -> bool {
    !spec_white_space(c) && c != '\r' && c != '\n'
}

/// The table whose rows give the geometry: an empty 1x1 wrapper whose single
/// paragraph has no text is replaced by the first table it holds, repeatedly.
pub open spec fn spec_row_geometry(t: Table) -> Table
    decreases t,
{
    if t.row_count != 1 || t.col_count != 1 || t.cells@.len() != 1 {
        t
    } else if t.cells@[0].paragraphs@.len() != 1 {
        t
    } else if exists|i: int|
        0 <= i < t.cells@[0].paragraphs@[0].text@.len() && spec_geometry_text_char(
            #[trigger] t.cells@[0].paragraphs@[0].text@[i],
        ) {
        t
    } else {
        match spec_first_table_from(t.cells@[0].paragraphs@[0].controls@, 0) {
            None => t,
            Some(k) => {
                match t.cells@[0].paragraphs@[0].controls@[k] {
                    Control::Table(inner) => {
                        proof {
                            lemma_first_table_from(t.cells@[0].paragraphs@[0].controls@, 0);
                            let p = t.cells@[0].paragraphs@[0];
                            assert(decreases_to!(t => t.cells));
                            assert(decreases_to!(t.cells => t.cells@));
                            assert(decreases_to!(t.cells@ => t.cells@[0]));
                            assert(decreases_to!(t.cells@[0] => t.cells@[0].paragraphs));
                            assert(decreases_to!(t.cells@[0].paragraphs => t.cells@[0].paragraphs@));
                            assert(decreases_to!(t.cells@[0].paragraphs@ => p));
                            assert(decreases_to!(p => p.controls));
                            assert(decreases_to!(p.controls => p.controls@));
                            assert(decreases_to!(p.controls@ => p.controls@[k]));
                        }
                        spec_row_geometry(*inner)
                    },
                    _ => t,
                }
            },
        }
    }
}

/// The position of the first table control.
pub fn first_table_index(cs: &Vec<Control>) -> (r: Option<usize>)
    ensures
        match r {
            Some(k) => spec_first_table_from(cs@, 0) == Some(k as int) && k < cs@.len(),
            None => spec_first_table_from(cs@, 0) is None,
        },
{
    let mut k: usize = 0;
    while k < cs.len()
        invariant
            k <= cs@.len(),
            spec_first_table_from(cs@, 0) == spec_first_table_from(cs@, k as int),
        decreases cs@.len() - k,
    {
        if matches!(&cs[k], Control::Table(_)) {
            return Some(k);
        }
        k += 1;
    }
    None
}

/// Whether the text has a character that counts as text when unwrapping an
/// empty wrapper table (not white space, carriage return or line feed).
pub fn has_geometry_text(t: &Vec<char>) -> (r: bool)
    ensures
        r == exists|i: int| 0 <= i < t@.len() && spec_geometry_text_char(#[trigger] t@[i]),
{
    let mut i: usize = 0;
    while i < t.len()
        invariant
            i <= t@.len(),
            forall|j: int| 0 <= j < i ==> !spec_geometry_text_char(#[trigger] t@[j]),
        decreases t@.len() - i,
    {
        let c = t[i];
        if !char_is_whitespace(c) && c != '\r' && c != '\n' {
            return true;
        }
        i += 1;
    }
    false
}

/// The table whose rows the measurer and renderer use: an empty 1x1 wrapper,
/// whose single paragraph has no text, stands for the first table it holds,
/// unwrapped again while that holds.
pub fn row_geometry_table(table: &Table) -> (r: &Table)
    ensures
        *r == spec_row_geometry(*table),
    decreases table,
{
    if table.row_count != 1 || table.col_count != 1 || table.cells.len() != 1 {
        return table;
    }
    let cell = &table.cells[0];
    if cell.paragraphs.len() != 1 {
        return table;
    }
    let para = &cell.paragraphs[0];
    if has_geometry_text(&para.text) {
        return table;
    }
    match first_table_index(&para.controls) {
        None => table,
        Some(k) => match &para.controls[k] {
            Control::Table(inner) => {
                proof {
                    assert(decreases_to!(table => table.cells));
                    assert(decreases_to!(table.cells => table.cells@));
                    assert(decreases_to!(table.cells@ => table.cells@[0]));
                    assert(decreases_to!(table.cells@[0] => table.cells@[0].paragraphs));
                    assert(decreases_to!(table.cells@[0].paragraphs => table.cells@[0].paragraphs@));
                    assert(decreases_to!(table.cells@[0].paragraphs@ => *para));
                    assert(decreases_to!(*para => para.controls));
                    assert(decreases_to!(para.controls => para.controls@));
                    assert(decreases_to!(para.controls@ => para.controls@[k as int]));
                }
                row_geometry_table(inner)
            },
            _ => table,
        },
    }
}

/// A split-by-row table control.
pub open spec fn spec_rowbreak_table(c: Control) -> bool {
    match c {
        Control::Table(t) => t.page_break is RowBreak,
        _ => false,
    }
}

/// Whether some control of the paragraph is a split-by-row table.
pub fn para_has_rowbreak_table(para: &Paragraph) -> (r: bool)
    ensures
        r == exists|k: int|
            0 <= k < para.controls@.len() && spec_rowbreak_table(#[trigger] para.controls@[k]),
{
    let mut k: usize = 0;
    while k < para.controls.len()
        invariant
            k <= para.controls@.len(),
            forall|m: int| 0 <= m < k ==> !spec_rowbreak_table(#[trigger] para.controls@[m]),
        decreases para.controls@.len() - k,
    {
        match &para.controls[k] {
            Control::Table(t) => {
                if matches!(t.page_break, TablePageBreak::RowBreak) {
                    return true;
                }
            },
            _ => {},
        }
        k += 1;
    }
    false
}

/// Some paragraph from the one before `i` to two after it holds a split-by-row table.
pub open spec fn spec_para_near_rowbreak_table(ps: Seq<Paragraph>, i: int) -> bool {
    let start = if i >= 1 {
        i - 1
    } else {
        0
    };
    let end = if i + 3 < ps.len() {
        i + 3
    } else {
        ps.len() as int
    };
    exists|j: int, k: int|
        start <= j < end && 0 <= k < ps[j].controls@.len() && spec_rowbreak_table(
            #[trigger] ps[j].controls@[k],
        )
}

/// Whether a paragraph from the one before `para_idx` through the two after it
/// holds a split-by-row table.
#[verifier::loop_isolation(false)]
pub fn para_near_rowbreak_table(paragraphs: &Vec<Paragraph>, para_idx: usize) -> (r: bool)
    requires
        para_idx <= paragraphs@.len() + 1,
    ensures
        r == spec_para_near_rowbreak_table(paragraphs@, para_idx as int),
{
    let start = if para_idx >= 1 {
        para_idx - 1
    } else {
        0
    };
    let end = if paragraphs.len() > 3 && para_idx < paragraphs.len() - 3 {
        para_idx + 3
    } else {
        paragraphs.len()
    };
    let mut j = start;
    while j < end
        invariant
            start <= j,
            end <= paragraphs@.len(),
            forall|m: int, k: int|
                start <= m < j && 0 <= k < paragraphs@[m].controls@.len() ==> !spec_rowbreak_table(
                    #[trigger] paragraphs@[m].controls@[k],
                ),
        decreases end - j,
    {
        if para_has_rowbreak_table(&paragraphs[j]) {
            return true;
        }
        j += 1;
    }
    false
}

/// A split-by-row table whose raw record attribute has an empty high byte.
pub open spec fn spec_zero_high_attr_rowbreak_table(c: Control) -> bool {
    match c {
        Control::Table(t) => t.page_break is RowBreak && t.raw_table_record_attr & 0xff00_0000u32
            == 0,
        _ => false,
    }
}

/// Whether some paragraph holds a split-by-row table whose raw record attribute
/// has an empty high byte.
pub fn section_has_zero_high_attr_rowbreak_table(paragraphs: &Vec<Paragraph>) -> (r: bool)
    ensures
        r == exists|j: int, k: int|
            0 <= j < paragraphs@.len() && 0 <= k < paragraphs@[j].controls@.len()
                && spec_zero_high_attr_rowbreak_table(#[trigger] paragraphs@[j].controls@[k]),
{
    let mut j: usize = 0;
    while j < paragraphs.len()
        invariant
            j <= paragraphs@.len(),
            forall|m: int, k: int|
                0 <= m < j && 0 <= k < paragraphs@[m].controls@.len()
                    ==> !spec_zero_high_attr_rowbreak_table(#[trigger] paragraphs@[m].controls@[k]),
        decreases paragraphs@.len() - j,
    {
        let para = &paragraphs[j];
        let mut k: usize = 0;
        while k < para.controls.len()
            invariant
                k <= para.controls@.len(),
                j < paragraphs@.len(),
                para == paragraphs@[j as int],
                forall|m: int|
                    0 <= m < k ==> !spec_zero_high_attr_rowbreak_table(#[trigger] para.controls@[m]),
            decreases para.controls@.len() - k,
        {
            match &para.controls[k] {
                Control::Table(t) => {
                    if matches!(t.page_break, TablePageBreak::RowBreak) && t.raw_table_record_attr
                        & 0xff00_0000u32 == 0 {
                        assert(spec_zero_high_attr_rowbreak_table(paragraphs@[j as int].controls@[k as int]));
                        return true;
                    }
                },
                _ => {},
            }
            k += 1;
        }
        j += 1;
    }
    false
}

/// A non-inline single-picture row-break table is a stored-anchor picture table.
pub proof fn lemma_single_picture_table_is_stored_anchor(t: Table)
    requires
        spec_single_noninline_picture_table(t),
    ensures
        spec_stored_anchor_picture_table(t),
{
}

/// Unwrapping is complete: the geometry table of the geometry table is itself,
/// so what `row_geometry_table` returns is no further empty wrapper.
pub proof fn lemma_row_geometry_is_fixed_point(t: Table)
    ensures
        spec_row_geometry(spec_row_geometry(t)) == spec_row_geometry(t),
    decreases t,
{
    if t.row_count != 1 || t.col_count != 1 || t.cells@.len() != 1 {
    } else if t.cells@[0].paragraphs@.len() != 1 {
    } else if exists|i: int|
        0 <= i < t.cells@[0].paragraphs@[0].text@.len() && spec_geometry_text_char(
            #[trigger] t.cells@[0].paragraphs@[0].text@[i],
        ) {
    } else {
        match spec_first_table_from(t.cells@[0].paragraphs@[0].controls@, 0) {
            None => {},
            Some(k) => {
                match t.cells@[0].paragraphs@[0].controls@[k] {
                    Control::Table(inner) => {
                        lemma_first_table_from(t.cells@[0].paragraphs@[0].controls@, 0);
                        let p = t.cells@[0].paragraphs@[0];
                        assert(decreases_to!(t => t.cells));
                        assert(decreases_to!(t.cells => t.cells@));
                        assert(decreases_to!(t.cells@ => t.cells@[0]));
                        assert(decreases_to!(t.cells@[0] => t.cells@[0].paragraphs));
                        assert(decreases_to!(t.cells@[0].paragraphs => t.cells@[0].paragraphs@));
                        assert(decreases_to!(t.cells@[0].paragraphs@ => p));
                        assert(decreases_to!(p => p.controls));
                        assert(decreases_to!(p.controls => p.controls@));
                        assert(decreases_to!(p.controls@ => p.controls@[k]));
                        lemma_row_geometry_is_fixed_point(*inner);
                    },
                    _ => {},
                }
            },
        }
    }
}

/// Text that holds nothing once control characters are dropped and white
/// space is trimmed.
pub open spec fn spec_blank_without_controls(t: Seq<char>) -> bool {
    forall|i: int| 0 <= i < t.len() ==> spec_control_char(#[trigger] t[i]) || spec_white_space(t[i])
}

/// A cell that lies in `row` alone (no row span).
pub open spec fn spec_single_row_cell(c: Cell, row: int) -> bool {
    c.row as int == row && c.row_span == 1
}

/// A cell whose paragraphs have no text (beyond controls and white space) and no controls.
pub open spec fn spec_cell_without_text_or_controls(c: Cell) -> bool {
    forall|p: int|
        0 <= p < c.paragraphs@.len() ==> spec_blank_without_controls(
            (#[trigger] c.paragraphs@[p]).text@,
        ) && c.paragraphs@[p].controls@.len() == 0
}

/// The row has a single-row cell, and none of its single-row cells holds text or controls.
pub open spec fn spec_row_has_no_text_or_controls(t: Table, row: int) -> bool {
    &&& exists|i: int| 0 <= i < t.cells@.len() && spec_single_row_cell(#[trigger] t.cells@[i], row)
    &&& forall|i: int|
        0 <= i < t.cells@.len() && spec_single_row_cell(#[trigger] t.cells@[i], row)
            ==> spec_cell_without_text_or_controls(t.cells@[i])
}

/// Whether the text is empty once control characters are dropped and white space trimmed.
fn blank_without_controls(t: &Vec<char>) -> (r: bool)
    ensures
        r == spec_blank_without_controls(t@),
{
    let mut i: usize = 0;
    while i < t.len()
        invariant
            i <= t@.len(),
            forall|j: int| 0 <= j < i ==> spec_control_char(#[trigger] t@[j]) || spec_white_space(t@[j]),
        decreases t@.len() - i,
    {
        if !char_is_control(t[i]) && !char_is_whitespace(t[i]) {
            return false;
        }
        i += 1;
    }
    true
}

/// Whether no paragraph of the cell holds text or controls.
fn cell_without_text_or_controls(c: &Cell) -> (r: bool)
    ensures
        r == spec_cell_without_text_or_controls(*c),
{
    let mut p: usize = 0;
    while p < c.paragraphs.len()
        invariant
            p <= c.paragraphs@.len(),
            forall|q: int|
                0 <= q < p ==> spec_blank_without_controls((#[trigger] c.paragraphs@[q]).text@)
                    && c.paragraphs@[q].controls@.len() == 0,
        decreases c.paragraphs@.len() - p,
    {
        if !blank_without_controls(&c.paragraphs[p].text) || c.paragraphs[p].controls.len() != 0 {
            return false;
        }
        p += 1;
    }
    true
}

/// Whether the row has at least one cell confined to it and none of those
/// cells holds text or controls (a text-flow test only: such a row may still
/// paint a declared height, border or fill).
pub fn row_has_no_text_or_controls(table: &Table, row: usize) -> (r: bool)
    ensures
        r == spec_row_has_no_text_or_controls(*table, row as int),
{
    let mut found = false;
    let mut i: usize = 0;
    while i < table.cells.len()
        invariant
            i <= table.cells@.len(),
            found == exists|j: int| 0 <= j < i && spec_single_row_cell(#[trigger] table.cells@[j], row as int),
            forall|j: int|
                0 <= j < i && spec_single_row_cell(#[trigger] table.cells@[j], row as int)
                    ==> spec_cell_without_text_or_controls(table.cells@[j]),
        decreases table.cells@.len() - i,
    {
        let c = &table.cells[i];
        if c.row as usize == row && c.row_span == 1 {
            assert(spec_single_row_cell(table.cells@[i as int], row as int));
            if !cell_without_text_or_controls(c) {
                return false;
            }
            found = true;
        }
        i += 1;
    }
    found
}

} // verus!
