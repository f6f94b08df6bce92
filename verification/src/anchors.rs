//! Anchor and host paragraphs around tables: captions in the host line, guide
//! lines inside a figure table's span, and break markers that carry no page.
use vstd::prelude::*;
use crate::arith::{sat_add_i32, sat_sub_i32, spec_clamp_i32};
use crate::model::{
    is_para_topbottom_float, signed_hwpunit, spec_para_topbottom_float, spec_signed_hwpunit,
    spec_synthetic, AutoNumberType, Cell, ColumnBreakType, Control, LineSeg, Paragraph, ShapeKind,
    Table, TablePageBreak,
};
use crate::paragraph::{
    para_has_non_whitespace_text, para_has_visible_text, spec_para_non_whitespace,
    spec_para_visible,
};
use crate::stored::{first_real_seg, is_synthetic_line_seg, spec_first_real_vpos};
use crate::text::{
    char_is_numeric, is_blank, skip_whitespace, spec_blank, spec_skip_ws, spec_std_char_is_numeric,
    spec_trim_start,
};

verus! {

/// An auto-number or new-number control that counts tables.
pub open spec fn spec_table_number_control(c: Control) -> bool {
    match c {
        Control::AutoNumber(n) => n.number_type is Table,
        Control::NewNumber(n) => n.number_type is Table,
        _ => false,
    }
}

/// The character equals the given lower-case ASCII letter, ignoring ASCII case.
pub open spec fn spec_ascii_ci_eq(c: char, lower: char) -> bool {
    c == lower || c as int == lower as int - 32
}

/// The text starts with `Table`, ignoring ASCII case.
pub open spec fn spec_starts_with_table_word(t: Seq<char>) -> bool {
    &&& t.len() >= 5
    &&& spec_ascii_ci_eq(t[0], 't')
    &&& spec_ascii_ci_eq(t[1], 'a')
    &&& spec_ascii_ci_eq(t[2], 'b')
    &&& spec_ascii_ci_eq(t[3], 'l')
    &&& spec_ascii_ci_eq(t[4], 'e')
}

/// The text that follows a leading `표` or `Table` (any ASCII case) once
/// leading white space is trimmed, or none.
pub open spec fn spec_caption_suffix(t: Seq<char>) -> Option<Seq<char>> {
    let s = spec_trim_start(t);
    if s.len() > 0 && s[0] == '표' {
        Some(s.subrange(1, s.len() as int))
    } else if spec_starts_with_table_word(s) {
        Some(s.subrange(5, s.len() as int))
    } else {
        None
    }
}

/// A numbered table caption: a table-number control, or text `표 N` / `Table N`
/// whose number starts with a numeric character.
pub open spec fn spec_numbered_table_caption(p: Paragraph) -> bool {
    ||| exists|k: int|
        0 <= k < p.controls@.len() && spec_table_number_control(#[trigger] p.controls@[k])
    ||| match spec_caption_suffix(p.text@) {
        Some(suffix) => {
            let rest = spec_trim_start(suffix);
            rest.len() > 0 && spec_std_char_is_numeric(rest[0])
        },
        None => false,
    }
}

proof fn lemma_skip_ws_bounds(t: Seq<char>, i: int)
    requires
        0 <= i <= t.len(),
    ensures
        i <= spec_skip_ws(t, i) <= t.len(),
    decreases t.len() - i,
{
    if i < t.len() && crate::text::spec_white_space(t[i]) {
        lemma_skip_ws_bounds(t, i + 1);
    }
}

proof fn lemma_skip_ws_shift(t: Seq<char>, a: int, i: int)
    requires
        0 <= a <= i <= t.len(),
    ensures
        spec_skip_ws(t.subrange(a, t.len() as int), i - a) == spec_skip_ws(t, i) - a,
    decreases t.len() - i,
{
    if i < t.len() && crate::text::spec_white_space(t[i]) {
        lemma_skip_ws_shift(t, a, i + 1);
    }
}

/// Whether the paragraph's visible host text is a numbered table caption: it
/// holds a table auto-number or new-number, or its text (leading white space
/// trimmed) is `표` or `Table` (any ASCII case) followed, after white space, by
/// a numeric character.  Headings such as `1. ...` or words that merely begin
/// with `표` are not captions.
pub fn visible_host_is_numbered_table_caption(para: &Paragraph) -> (r: bool)
    ensures
        r == spec_numbered_table_caption(*para),
{
    let mut k: usize = 0;
    while k < para.controls.len()
        invariant
            k <= para.controls@.len(),
            forall|m: int| 0 <= m < k ==> !spec_table_number_control(#[trigger] para.controls@[m]),
        decreases para.controls@.len() - k,
    {
        let is_table_number = match &para.controls[k] {
            Control::AutoNumber(n) => matches!(n.number_type, AutoNumberType::Table),
            Control::NewNumber(n) => matches!(n.number_type, AutoNumberType::Table),
            _ => false,
        };
        if is_table_number {
            return true;
        }
        k += 1;
    }
    let t = &para.text;
    let start = skip_whitespace(t, 0);
    let ghost s = spec_trim_start(t@);
    proof {
        lemma_skip_ws_bounds(t@, 0);
    }
    assert(s =~= t@.subrange(start as int, t@.len() as int));
    let n = t.len();
    let suffix_start: usize;
    if start < n && t[start] == '표' {
        suffix_start = start + 1;
    } else if n - start >= 5 && (t[start] == 't' || t[start] == 'T') && (t[start + 1] == 'a'
        || t[start + 1] == 'A') && (t[start + 2] == 'b' || t[start + 2] == 'B') && (t[start + 3]
        == 'l' || t[start + 3] == 'L') && (t[start + 4] == 'e' || t[start + 4] == 'E') {
        suffix_start = start + 5;
    } else {
        return false;
    }
    assert(spec_caption_suffix(t@) == Some(t@.subrange(suffix_start as int, n as int)));
    let digit_at = skip_whitespace(t, suffix_start);
    proof {
        lemma_skip_ws_bounds(t@, suffix_start as int);
        lemma_skip_ws_shift(t@, suffix_start as int, suffix_start as int);
        let suffix = t@.subrange(suffix_start as int, n as int);
        assert(spec_trim_start(suffix) =~= t@.subrange(digit_at as int, n as int));
    }
    if digit_at >= n {
        return false;
    }
    char_is_numeric(t[digit_at])
}

/// A stored segment with a positive height.
pub open spec fn spec_stored_line(s: LineSeg) -> bool {
    !spec_synthetic(s) && s.line_height > 0
}

/// The first stored line with positive height at or after `i`.
pub open spec fn spec_first_stored_line_from(segs: Seq<LineSeg>, i: int) -> Option<int>
    decreases segs.len() - i,
{
    if i < 0 || i >= segs.len() {
        None
    } else if spec_stored_line(segs[i]) {
        Some(i)
    } else {
        spec_first_stored_line_from(segs, i + 1)
    }
}

/// The last stored line with positive height before `k`.
pub open spec fn spec_last_stored_line_before(segs: Seq<LineSeg>, k: int) -> Option<int>
    decreases k,
{
    if k <= 0 {
        None
    } else if spec_stored_line(segs[k - 1]) {
        Some(k - 1)
    } else {
        spec_last_stored_line_before(segs, k - 1)
    }
}

/// The number of table controls among the first `k`.
pub open spec fn spec_count_tables(cs: Seq<Control>, k: int) -> nat
    decreases k,
{
    if k <= 0 {
        0
    } else {
        spec_count_tables(cs, k - 1) + if cs[k - 1] is Table {
            1nat
        } else {
            0nat
        }
    }
}

/// The stored span of the host's lines (first top to last bottom, saturated,
/// at least 0).
pub open spec fn spec_stored_host_span(segs: Seq<LineSeg>) -> Option<i32> {
    match (
        spec_first_stored_line_from(segs, 0),
        spec_last_stored_line_before(segs, segs.len() as int),
    ) {
        (Some(f), Some(l)) => {
            let span = spec_clamp_i32(
                spec_clamp_i32(segs[l].vertical_pos - segs[f].vertical_pos) + segs[l].line_height,
            );
            Some(
                if span > 0 {
                    span
                } else {
                    0i32
                },
            )
        },
        _ => None,
    }
}

/// A visible numbered caption in the host line of its only table, a
/// paragraph-relative top-and-bottom split-by-row table whose positive offset
/// holds the whole stored host span.
pub open spec fn spec_rowbreak_host_precedes_first_fragment(p: Paragraph, t: Table) -> bool {
    &&& spec_para_non_whitespace(p)
    &&& spec_numbered_table_caption(p)
    &&& spec_para_topbottom_float(t.common)
    &&& t.page_break is RowBreak
    &&& spec_count_tables(p.controls@, p.controls@.len() as int) == 1
    &&& spec_signed_hwpunit(t.common.vertical_offset) > 0
    &&& match spec_stored_host_span(p.line_segs@) {
        Some(span) => span > 0 && span <= spec_signed_hwpunit(t.common.vertical_offset),
        None => false,
    }
}

proof fn lemma_first_last_stored(segs: Seq<LineSeg>)
    ensures
        spec_first_stored_line_from(segs, 0) is Some <==> spec_last_stored_line_before(
            segs,
            segs.len() as int,
        ) is Some,
{
    assert(spec_first_stored_line_from(segs, 0) is Some ==> exists|i: int|
        0 <= i < segs.len() && spec_stored_line(#[trigger] segs[i])) by {
        lemma_first_stored_found(segs, 0);
    }
    assert((exists|i: int| 0 <= i < segs.len() && spec_stored_line(#[trigger] segs[i]))
        ==> spec_last_stored_line_before(segs, segs.len() as int) is Some) by {
        if exists|i: int| 0 <= i < segs.len() && spec_stored_line(#[trigger] segs[i]) {
            let i = choose|i: int| 0 <= i < segs.len() && spec_stored_line(#[trigger] segs[i]);
            lemma_last_stored_found(segs, segs.len() as int, i);
        }
    }
    assert(spec_last_stored_line_before(segs, segs.len() as int) is Some ==> exists|i: int|
        0 <= i < segs.len() && spec_stored_line(#[trigger] segs[i])) by {
        lemma_last_stored_bounds(segs, segs.len() as int);
    }
    assert((exists|i: int| 0 <= i < segs.len() && spec_stored_line(#[trigger] segs[i]))
        ==> spec_first_stored_line_from(segs, 0) is Some) by {
        if exists|i: int| 0 <= i < segs.len() && spec_stored_line(#[trigger] segs[i]) {
            let i = choose|i: int| 0 <= i < segs.len() && spec_stored_line(#[trigger] segs[i]);
            lemma_first_stored_reaches(segs, 0, i);
        }
    }
}

proof fn lemma_first_stored_found(segs: Seq<LineSeg>, i: int)
    requires
        0 <= i,
    ensures
        spec_first_stored_line_from(segs, i) matches Some(k) ==> i <= k < segs.len()
            && spec_stored_line(segs[k]),
    decreases segs.len() - i,
{
    if i < segs.len() && !spec_stored_line(segs[i]) {
        lemma_first_stored_found(segs, i + 1);
    }
}

proof fn lemma_first_stored_reaches(segs: Seq<LineSeg>, i: int, w: int)
    requires
        0 <= i <= w < segs.len(),
        spec_stored_line(segs[w]),
    ensures
        spec_first_stored_line_from(segs, i) is Some,
    decreases w - i,
{
    if !spec_stored_line(segs[i]) {
        lemma_first_stored_reaches(segs, i + 1, w);
    }
}

proof fn lemma_last_stored_found(segs: Seq<LineSeg>, k: int, w: int)
    requires
        0 <= w < k <= segs.len(),
        spec_stored_line(segs[w]),
    ensures
        spec_last_stored_line_before(segs, k) is Some,
    decreases k,
{
    if !spec_stored_line(segs[k - 1]) {
        lemma_last_stored_found(segs, k - 1, w);
    }
}

proof fn lemma_last_stored_bounds(segs: Seq<LineSeg>, k: int)
    requires
        k <= segs.len(),
    ensures
        spec_last_stored_line_before(segs, k) matches Some(j) ==> 0 <= j < k && spec_stored_line(
            segs[j],
        ),
    decreases k,
{
    if k > 0 && !spec_stored_line(segs[k - 1]) {
        lemma_last_stored_bounds(segs, k - 1);
    }
}

/// The number of table controls.
pub fn count_table_controls(cs: &Vec<Control>) -> (r: usize)
    ensures
        r == spec_count_tables(cs@, cs@.len() as int),
{
    let mut n: usize = 0;
    let mut k: usize = 0;
    while k < cs.len()
        invariant
            k <= cs@.len(),
            n == spec_count_tables(cs@, k as int),
            n <= k,
        decreases cs@.len() - k,
    {
        if matches!(&cs[k], Control::Table(_)) {
            n += 1;
        }
        k += 1;
    }
    n
}

/// The stored span of the host's lines with positive height.
pub fn stored_host_span(segs: &Vec<LineSeg>) -> (r: Option<i32>)
    ensures
        r == spec_stored_host_span(segs@),
{
    let mut f: usize = 0;
    while f < segs.len() && !(!is_synthetic_line_seg(&segs[f]) && segs[f].line_height > 0)
        invariant
            f <= segs@.len(),
            spec_first_stored_line_from(segs@, 0) == spec_first_stored_line_from(segs@, f as int),
        decreases segs@.len() - f,
    {
        f += 1;
    }
    let mut l: usize = segs.len();
    while l > 0 && !(!is_synthetic_line_seg(&segs[l - 1]) && segs[l - 1].line_height > 0)
        invariant
            l <= segs@.len(),
            spec_last_stored_line_before(segs@, segs@.len() as int)
                == spec_last_stored_line_before(segs@, l as int),
        decreases l,
    {
        l -= 1;
    }
    proof {
        lemma_first_last_stored(segs@);
    }
    if f >= segs.len() || l == 0 {
        return None;
    }
    let first = &segs[f];
    let last = &segs[l - 1];
    let span = sat_add_i32(sat_sub_i32(last.vertical_pos, first.vertical_pos), last.line_height);
    Some(
        if span > 0 {
            span
        } else {
            0
        },
    )
}

/// Whether the host's visible text is a numbered caption that the saving
/// application painted in the offset lane before the first fragment of its
/// only table: a paragraph-relative top-and-bottom split-by-row table whose
/// positive offset is at least the stored span of the host's lines.
pub fn native_hwp5_rowbreak_host_precedes_first_fragment(para: &Paragraph, table: &Table) -> (r:
    bool)
    ensures
        r == spec_rowbreak_host_precedes_first_fragment(*para, *table),
{
    if !para_has_non_whitespace_text(para) || !visible_host_is_numbered_table_caption(para)
        || !is_para_topbottom_float(&table.common) || !matches!(
        table.page_break,
        TablePageBreak::RowBreak
    ) || count_table_controls(&para.controls) != 1 {
        return false;
    }
    let vertical_offset = signed_hwpunit(table.common.vertical_offset);
    if vertical_offset <= 0 {
        return false;
    }
    match stored_host_span(&para.line_segs) {
        Some(span) => span > 0 && span <= vertical_offset,
        None => false,
    }
}

/// The nearest paragraph before position `k` that holds controls or visible text.
pub open spec fn spec_prev_host(ps: Seq<Paragraph>, k: int) -> Option<int>
    decreases k,
{
    if k <= 0 {
        None
    } else if k - 1 < ps.len() && (ps[k - 1].controls@.len() > 0 || spec_para_visible(
        ps[k - 1],
    )) {
        Some(k - 1)
    } else {
        spec_prev_host(ps, k - 1)
    }
}

/// Some paragraph of the cell holds a picture or shape.
pub open spec fn spec_cell_has_picture_or_shape(c: Cell) -> bool {
    exists|p: int, k: int|
        0 <= p < c.paragraphs@.len() && 0 <= k < c.paragraphs@[p].controls@.len() && ((
        #[trigger] c.paragraphs@[p].controls@[k]) is Picture || c.paragraphs@[p].controls@[k] is Shape)
}

/// A non-inline paragraph-relative top-and-bottom 2x1 split-by-row table with a
/// positive offset whose first cell holds a picture or shape.
pub open spec fn spec_figure_table(c: Control) -> bool {
    match c {
        Control::Table(t) => {
            &&& !t.common.treat_as_char
            &&& spec_para_topbottom_float(t.common)
            &&& t.page_break is RowBreak
            &&& t.row_count == 2
            &&& t.col_count == 1
            &&& t.cells@.len() == 2
            &&& spec_signed_hwpunit(t.common.vertical_offset) > 0
            &&& spec_cell_has_picture_or_shape(t.cells@[0])
        },
        _ => false,
    }
}

/// The first figure table control at or after `i`.
pub open spec fn spec_first_figure_table_from(cs: Seq<Control>, i: int) -> Option<int>
    decreases cs.len() - i,
{
    if i < 0 || i >= cs.len() {
        None
    } else if spec_figure_table(cs[i]) {
        Some(i)
    } else {
        spec_first_figure_table_from(cs, i + 1)
    }
}

/// The stored bottom of a figure table anchored at `anchor`.
pub open spec fn spec_figure_table_bottom(anchor: i32, t: Table) -> i32 {
    let off = spec_signed_hwpunit(t.common.vertical_offset);
    let h: i32 = if t.common.height > 0x7fff_ffffu32 {
        0x7fff_ffffi32
    } else {
        t.common.height as i32
    };
    spec_clamp_i32(
        spec_clamp_i32(
            anchor + if off > 0 {
                off as int
            } else {
                0
            },
        ) + h,
    )
}

/// An empty guide paragraph inside the painted span of the figure table that
/// the previous host paragraph (same paragraph shape, no visible text) anchors.
pub open spec fn spec_figure_table_overlay_guide_empty(i: int, p: Paragraph, ps: Seq<Paragraph>) -> bool {
    &&& p.controls@.len() == 0
    &&& !spec_para_visible(p)
    &&& p.column_type is NoBreak
    &&& spec_first_real_vpos(p) is Some
    &&& spec_prev_host(ps, i) is Some
    &&& {
        let guide = spec_first_real_vpos(p)->0;
        let host = ps[spec_prev_host(ps, i)->0];
        &&& host.para_shape_id == p.para_shape_id
        &&& !spec_para_visible(host)
        &&& spec_first_real_vpos(host) is Some
        &&& spec_first_figure_table_from(host.controls@, 0) is Some
        &&& {
            let anchor = spec_first_real_vpos(host)->0;
            let t = host.controls@[spec_first_figure_table_from(host.controls@, 0)->0];
            match t {
                Control::Table(table) => guide >= anchor && guide < spec_figure_table_bottom(
                    anchor,
                    *table,
                ),
                _ => false,
            }
        }
    }
}

proof fn lemma_prev_host_bounds(ps: Seq<Paragraph>, k: int)
    ensures
        spec_prev_host(ps, k) matches Some(j) ==> 0 <= j < k && j < ps.len(),
    decreases k,
{
    if k > 0 {
        lemma_prev_host_bounds(ps, k - 1);
    }
}

proof fn lemma_first_figure_table_bounds(cs: Seq<Control>, i: int)
    ensures
        spec_first_figure_table_from(cs, i) matches Some(k) ==> i <= k < cs.len() && spec_figure_table(
            cs[k],
        ),
    decreases cs.len() - i,
{
    if 0 <= i < cs.len() && !spec_figure_table(cs[i]) {
        lemma_first_figure_table_bounds(cs, i + 1);
    }
}

/// Whether the cell has a paragraph holding a picture or shape.
pub fn cell_has_picture_or_shape(cell: &Cell) -> (r: bool)
    ensures
        r == spec_cell_has_picture_or_shape(*cell),
{
    let mut p: usize = 0;
    while p < cell.paragraphs.len()
        invariant
            p <= cell.paragraphs@.len(),
            forall|q: int, k: int|
                0 <= q < p && 0 <= k < cell.paragraphs@[q].controls@.len() ==> !((
                #[trigger] cell.paragraphs@[q].controls@[k]) is Picture
                    || cell.paragraphs@[q].controls@[k] is Shape),
        decreases cell.paragraphs@.len() - p,
    {
        let para = &cell.paragraphs[p];
        let mut k: usize = 0;
        while k < para.controls.len()
            invariant
                k <= para.controls@.len(),
                p < cell.paragraphs@.len(),
                para == cell.paragraphs@[p as int],
                forall|m: int|
                    0 <= m < k ==> !((#[trigger] para.controls@[m]) is Picture
                        || para.controls@[m] is Shape),
            decreases para.controls@.len() - k,
        {
            if matches!(&para.controls[k], Control::Picture(_)) || matches!(
                &para.controls[k],
                Control::Shape(_)
            ) {
                assert(cell.paragraphs@[p as int].controls@[k as int] is Picture
                    || cell.paragraphs@[p as int].controls@[k as int] is Shape);
                return true;
            }
            k += 1;
        }
        p += 1;
    }
    false
}

/// Whether the control is a figure table.
pub fn is_figure_table(c: &Control) -> (r: bool)
    ensures
        r == spec_figure_table(*c),
{
    match c {
        Control::Table(t) => !t.common.treat_as_char && is_para_topbottom_float(&t.common)
            && matches!(t.page_break, TablePageBreak::RowBreak) && t.row_count == 2
            && t.col_count == 1 && t.cells.len() == 2 && signed_hwpunit(t.common.vertical_offset)
            > 0 && cell_has_picture_or_shape(&t.cells[0]),
        _ => false,
    }
}

/// Whether the empty paragraph at `para_idx` is a guide line inside the painted
/// span of a figure table: it has no controls, text or break, and its first
/// stored position lies between the stored anchor of the nearest earlier host
/// (which has the same paragraph shape and no visible text) and that anchor
/// plus the table's positive offset and height.
pub fn native_hwp5_figure_table_overlay_guide_empty(
    para_idx: usize,
    para: &Paragraph,
    paragraphs: &Vec<Paragraph>,
) -> (r: bool)
    ensures
        r == spec_figure_table_overlay_guide_empty(para_idx as int, *para, paragraphs@),
{
    if para.controls.len() != 0 || para_has_visible_text(para) || !matches!(
        para.column_type,
        ColumnBreakType::NoBreak
    ) {
        return false;
    }
    let guide = match first_real_seg(&para.line_segs) {
        Some(k) => para.line_segs[k].vertical_pos,
        None => return false,
    };
    let mut j = para_idx;
    while j > 0 && !(j - 1 < paragraphs.len() && (paragraphs[j - 1].controls.len() > 0
        || para_has_visible_text(&paragraphs[j - 1])))
        invariant
            j <= para_idx,
            spec_prev_host(paragraphs@, para_idx as int) == spec_prev_host(paragraphs@, j as int),
        decreases j,
    {
        j -= 1;
    }
    proof {
        lemma_prev_host_bounds(paragraphs@, para_idx as int);
    }
    if j == 0 {
        return false;
    }
    let host = &paragraphs[j - 1];
    if host.para_shape_id != para.para_shape_id || para_has_visible_text(host) {
        return false;
    }
    let anchor = match first_real_seg(&host.line_segs) {
        Some(k) => host.line_segs[k].vertical_pos,
        None => return false,
    };
    let mut k: usize = 0;
    while k < host.controls.len() && !is_figure_table(&host.controls[k])
        invariant
            k <= host.controls@.len(),
            spec_first_figure_table_from(host.controls@, 0) == spec_first_figure_table_from(
                host.controls@,
                k as int,
            ),
        decreases host.controls@.len() - k,
    {
        k += 1;
    }
    if k >= host.controls.len() {
        return false;
    }
    match &host.controls[k] {
        Control::Table(table) => {
            let off = signed_hwpunit(table.common.vertical_offset);
            let h: i32 = if table.common.height > 0x7fff_ffffu32 {
                0x7fff_ffff
            } else {
                table.common.height as i32
            };
            let bottom = sat_add_i32(
                sat_add_i32(
                    anchor,
                    if off > 0 {
                        off
                    } else {
                        0
                    },
                ),
                h,
            );
            guide >= anchor && guide < bottom
        },
        _ => false,
    }
}

/// The break shape of a page-hide marker: from the third paragraph on, a
/// page-breaking paragraph with blank text and a single page-hide control.
pub open spec fn spec_pagehide_marker_shape(i: int, p: Paragraph) -> bool {
    &&& i >= 2
    &&& p.column_type is Page
    &&& spec_blank(p.text@)
    &&& p.controls@.len() == 1
    &&& p.controls@[0] is PageHide
}

/// A group shape control.
pub open spec fn spec_group_shape(c: Control) -> bool {
    match c {
        Control::Shape(s) => s.kind is Group,
        _ => false,
    }
}

/// A non-inline table control.
pub open spec fn spec_non_tac_table(c: Control) -> bool {
    match c {
        Control::Table(t) => !t.common.treat_as_char,
        _ => false,
    }
}

/// Some control satisfies the predicate.
pub open spec fn spec_any_control(cs: Seq<Control>, pred: spec_fn(Control) -> bool) -> bool {
    exists|k: int| 0 <= k < cs.len() && pred(#[trigger] cs[k])
}

/// The marker repeats the page break that an empty page-hide section marker two
/// paragraphs earlier already made.
pub open spec fn spec_redundant_pagehide_break_marker(
    i: int,
    p: Paragraph,
    ps: Seq<Paragraph>,
    hwpx_stored_layout: bool,
) -> bool {
    &&& spec_pagehide_marker_shape(i, p)
    &&& i + 1 < ps.len()
    &&& {
        let prior = ps[i - 1];
        let marker = ps[i - 2];
        let next = ps[i + 1];
        let owner = hwpx_stored_layout && spec_any_control(
            marker.controls@,
            |c: Control| spec_group_shape(c),
        ) && spec_any_control(next.controls@, |c: Control| spec_non_tac_table(c));
        &&& spec_blank(prior.text@)
        &&& prior.controls@.len() == 0
        &&& marker.column_type is Section
        &&& spec_any_control(marker.controls@, |c: Control| c is PageHide)
        &&& next.column_type is Page
        &&& spec_any_control(next.controls@, |c: Control| !(c is PageHide))
        &&& !owner
    }
}

/// Whether some control is a group shape.
pub fn has_group_shape(cs: &Vec<Control>) -> (r: bool)
    ensures
        r == spec_any_control(cs@, |c: Control| spec_group_shape(c)),
{
    let mut k: usize = 0;
    while k < cs.len()
        invariant
            k <= cs@.len(),
            forall|m: int| 0 <= m < k ==> !spec_group_shape(#[trigger] cs@[m]),
        decreases cs@.len() - k,
    {
        match &cs[k] {
            Control::Shape(s) => {
                if matches!(s.kind, ShapeKind::Group) {
                    assert(spec_group_shape(cs@[k as int]));
                    return true;
                }
            },
            _ => {},
        }
        k += 1;
    }
    false
}

/// Whether some control is a non-inline table.
pub fn has_non_tac_table(cs: &Vec<Control>) -> (r: bool)
    ensures
        r == spec_any_control(cs@, |c: Control| spec_non_tac_table(c)),
{
    let mut k: usize = 0;
    while k < cs.len()
        invariant
            k <= cs@.len(),
            forall|m: int| 0 <= m < k ==> !spec_non_tac_table(#[trigger] cs@[m]),
        decreases cs@.len() - k,
    {
        match &cs[k] {
            Control::Table(t) => {
                if !t.common.treat_as_char {
                    assert(spec_non_tac_table(cs@[k as int]));
                    return true;
                }
            },
            _ => {},
        }
        k += 1;
    }
    false
}

/// Whether some control is a page-hide control.
pub fn has_page_hide(cs: &Vec<Control>) -> (r: bool)
    ensures
        r == spec_any_control(cs@, |c: Control| c is PageHide),
{
    let mut k: usize = 0;
    while k < cs.len()
        invariant
            k <= cs@.len(),
            forall|m: int| 0 <= m < k ==> !((#[trigger] cs@[m]) is PageHide),
        decreases cs@.len() - k,
    {
        if matches!(&cs[k], Control::PageHide) {
            return true;
        }
        k += 1;
    }
    false
}

/// Whether some control is other than a page-hide control.
pub fn has_non_page_hide(cs: &Vec<Control>) -> (r: bool)
    ensures
        r == spec_any_control(cs@, |c: Control| !(c is PageHide)),
{
    let mut k: usize = 0;
    while k < cs.len()
        invariant
            k <= cs@.len(),
            forall|m: int| 0 <= m < k ==> (#[trigger] cs@[m]) is PageHide,
        decreases cs@.len() - k,
    {
        if !matches!(&cs[k], Control::PageHide) {
            return true;
        }
        k += 1;
    }
    false
}

/// Whether the page-breaking page-hide marker at `para_idx` repeats the break
/// that an empty page-hide section marker two paragraphs earlier (followed by an
/// empty paragraph) already made, when the next paragraph also breaks the page
/// and holds other controls.  A stored-layout HWPX section marker with a group
/// shape before a non-inline table owns its blank page and is excluded.
pub fn hwp5_origin_redundant_pagehide_break_marker(
    para_idx: usize,
    para: &Paragraph,
    paragraphs: &Vec<Paragraph>,
    hwpx_stored_layout: bool,
) -> (r: bool)
    requires
        spec_pagehide_marker_shape(para_idx as int, *para) ==> para_idx <= paragraphs@.len(),
    ensures
        r == spec_redundant_pagehide_break_marker(
            para_idx as int,
            *para,
            paragraphs@,
            hwpx_stored_layout,
        ),
{
    if para_idx < 2 || !matches!(para.column_type, ColumnBreakType::Page) || !is_blank(&para.text)
        || para.controls.len() != 1 || !matches!(&para.controls[0], Control::PageHide) {
        return false;
    }
    let prior_empty = &paragraphs[para_idx - 1];
    let section_marker = &paragraphs[para_idx - 2];
    if paragraphs.len() - para_idx <= 1 {
        return false;
    }
    let next_para = &paragraphs[para_idx + 1];
    let owner = hwpx_stored_layout && has_group_shape(&section_marker.controls)
        && has_non_tac_table(&next_para.controls);
    is_blank(&prior_empty.text) && prior_empty.controls.len() == 0 && matches!(
        section_marker.column_type,
        ColumnBreakType::Section
    ) && has_page_hide(&section_marker.controls) && matches!(
        next_para.column_type,
        ColumnBreakType::Page
    ) && has_non_page_hide(&next_para.controls) && !owner
}

/// The break shape of an empty column-break carrier: not the first paragraph,
/// a column break with blank text and no controls.
pub open spec fn spec_column_carrier_shape(i: int, p: Paragraph) -> bool {
    &&& i != 0
    &&& p.column_type is Column
    &&& spec_blank(p.text@)
    &&& p.controls@.len() == 0
}

/// The controls are exactly one non-inline table.
pub open spec fn spec_single_non_tac_table(cs: Seq<Control>) -> bool {
    cs.len() == 1 && spec_non_tac_table(cs[0])
}

/// An empty column break between a lone non-inline table and a page-breaking
/// lone non-inline table.
pub open spec fn spec_empty_table_carrier_column_break(i: int, p: Paragraph, ps: Seq<Paragraph>) -> bool {
    &&& spec_column_carrier_shape(i, p)
    &&& i + 1 < ps.len()
    &&& spec_single_non_tac_table(ps[i - 1].controls@)
    &&& ps[i + 1].column_type is Page
    &&& spec_single_non_tac_table(ps[i + 1].controls@)
}

/// Whether the empty column break at `para_idx` only carries the next table: it
/// sits between a paragraph whose single control is a non-inline table and a
/// page-breaking paragraph whose single control is a non-inline table.
pub fn empty_table_carrier_column_break_before_page_table(
    para_idx: usize,
    para: &Paragraph,
    paragraphs: &Vec<Paragraph>,
) -> (r: bool)
    requires
        spec_column_carrier_shape(para_idx as int, *para) ==> para_idx <= paragraphs@.len(),
    ensures
        r == spec_empty_table_carrier_column_break(para_idx as int, *para, paragraphs@),
{
    if para_idx == 0 || !matches!(para.column_type, ColumnBreakType::Column) || !is_blank(
        &para.text,
    ) || para.controls.len() != 0 {
        return false;
    }
    let previous = &paragraphs[para_idx - 1];
    if paragraphs.len() - para_idx <= 1 {
        return false;
    }
    let next = &paragraphs[para_idx + 1];
    let prev_ok = previous.controls.len() == 1 && match &previous.controls[0] {
        Control::Table(t) => !t.common.treat_as_char,
        _ => false,
    };
    let next_ok = next.controls.len() == 1 && match &next.controls[0] {
        Control::Table(t) => !t.common.treat_as_char,
        _ => false,
    };
    prev_ok && matches!(next.column_type, ColumnBreakType::Page) && next_ok
}

proof fn lemma_skip_ws_over_blank(t: Seq<char>, i: int, a: int)
    requires
        0 <= i <= a < t.len(),
        forall|j: int| i <= j < a ==> crate::text::spec_white_space(#[trigger] t[j]),
        !crate::text::spec_white_space(t[a]),
    ensures
        spec_skip_ws(t, i) == a,
    decreases a - i,
{
    if i < a {
        lemma_skip_ws_over_blank(t, i + 1, a);
    }
}

/// The word `Table` is recognised in any ASCII case: a text made of white
/// space, the five letters of `table` each in lower or upper case, white space
/// and a numeric character is a numbered table caption.
pub proof fn lemma_table_word_caption_ignores_ascii_case(p: Paragraph, a: int, b: int)
    requires
        0 <= a,
        a + 5 <= b < p.text@.len(),
        forall|j: int| 0 <= j < a ==> crate::text::spec_white_space(#[trigger] p.text@[j]),
        p.text@[a] == 't' || p.text@[a] == 'T',
        p.text@[a + 1] == 'a' || p.text@[a + 1] == 'A',
        p.text@[a + 2] == 'b' || p.text@[a + 2] == 'B',
        p.text@[a + 3] == 'l' || p.text@[a + 3] == 'L',
        p.text@[a + 4] == 'e' || p.text@[a + 4] == 'E',
        forall|j: int| a + 5 <= j < b ==> crate::text::spec_white_space(#[trigger] p.text@[j]),
        !crate::text::spec_white_space(p.text@[b]),
        spec_std_char_is_numeric(p.text@[b]),
    ensures
        spec_numbered_table_caption(p),
{
    let t = p.text@;
    lemma_skip_ws_over_blank(t, 0, a);
    let s = spec_trim_start(t);
    assert(s =~= t.subrange(a, t.len() as int));
    assert(spec_starts_with_table_word(s));
    let suffix = s.subrange(5, s.len() as int);
    assert(suffix =~= t.subrange(a + 5, t.len() as int));
    assert(spec_caption_suffix(t) == Some(suffix));
    lemma_skip_ws_over_blank(t, a + 5, b);
    lemma_skip_ws_shift(t, a + 5, a + 5);
    let rest = spec_trim_start(suffix);
    assert(rest =~= t.subrange(b, t.len() as int));
    assert(rest[0] == t[b]);
}

/// A paragraph that holds a table auto-number or a table new-number is a
/// numbered table caption, whatever its text.
pub proof fn lemma_table_number_control_is_caption(p: Paragraph, k: int)
    requires
        0 <= k < p.controls@.len(),
        match p.controls@[k] {
            Control::AutoNumber(n) => n.number_type == AutoNumberType::Table,
            Control::NewNumber(n) => n.number_type == AutoNumberType::Table,
            _ => false,
        },
    ensures
        spec_numbered_table_caption(p),
{
    assert(spec_table_number_control(p.controls@[k]));
}

/// A text made of white space, `표`, white space and a numeric character is a
/// numbered table caption.
pub proof fn lemma_pyo_number_is_caption(p: Paragraph, a: int, b: int)
    requires
        0 <= a,
        a + 1 <= b < p.text@.len(),
        forall|j: int| 0 <= j < a ==> crate::text::spec_white_space(#[trigger] p.text@[j]),
        p.text@[a] == '표',
        forall|j: int| a + 1 <= j < b ==> crate::text::spec_white_space(#[trigger] p.text@[j]),
        !crate::text::spec_white_space(p.text@[b]),
        spec_std_char_is_numeric(p.text@[b]),
    ensures
        spec_numbered_table_caption(p),
{
    let t = p.text@;
    lemma_skip_ws_over_blank(t, 0, a);
    let s = spec_trim_start(t);
    assert(s =~= t.subrange(a, t.len() as int));
    let suffix = s.subrange(1, s.len() as int);
    assert(suffix =~= t.subrange(a + 1, t.len() as int));
    assert(spec_caption_suffix(t) == Some(suffix));
    lemma_skip_ws_over_blank(t, a + 1, b);
    lemma_skip_ws_shift(t, a + 1, a + 1);
    let rest = spec_trim_start(suffix);
    assert(rest =~= t.subrange(b, t.len() as int));
    assert(rest[0] == t[b]);
}

/// A paragraph without table-number controls whose text, after leading white
/// space, starts with neither `표` nor a `t`/`T` (such as a numbered section
/// heading `1. ...`) is no table caption.
pub proof fn lemma_other_start_is_no_caption(p: Paragraph, a: int)
    requires
        0 <= a < p.text@.len(),
        forall|j: int| 0 <= j < a ==> crate::text::spec_white_space(#[trigger] p.text@[j]),
        !crate::text::spec_white_space(p.text@[a]),
        p.text@[a] != '표',
        p.text@[a] != 't',
        p.text@[a] != 'T',
        forall|k: int| 0 <= k < p.controls@.len() ==> match #[trigger] p.controls@[k] {
            Control::AutoNumber(n) => n.number_type != AutoNumberType::Table,
            Control::NewNumber(n) => n.number_type != AutoNumberType::Table,
            _ => true,
        },
    ensures
        !spec_numbered_table_caption(p),
{
    let t = p.text@;
    lemma_skip_ws_over_blank(t, 0, a);
    let s = spec_trim_start(t);
    assert(s =~= t.subrange(a, t.len() as int));
    assert(s[0] == t[a]);
    assert forall|k: int| 0 <= k < p.controls@.len() implies !spec_table_number_control(
        #[trigger] p.controls@[k],
    ) by {
        match p.controls@[k] {
            Control::AutoNumber(n) => {},
            Control::NewNumber(n) => {},
            _ => {},
        }
    }
}

} // verus!
