//! Stored layout evidence: the vertical positions that a saved document's line
//! segments record, and the page boundaries that they encode.
use vstd::prelude::*;
use crate::arith::{sat_add_i32, sat_mul_i32, spec_clamp_i32};
use crate::model::{spec_synthetic, ColumnBreakType, Control, LineSeg, Paragraph, TablePageBreak};
use crate::paragraph::{
    para_has_floating_object, para_has_visible_text, para_is_page_bottom_fixed_table_anchor,
    spec_para_has_floating_object, spec_para_visible, spec_page_bottom_fixed_table_anchor,
};

verus! {

/// Whether the segment was made by a program rather than stored by a layout.
pub fn is_synthetic_line_seg(ls: &LineSeg) -> (r: bool)
    ensures
        r == spec_synthetic(*ls),
{
    ls.tag & 0x8000_0000u32 != 0
}

/// The first stored (non-synthetic) segment at or after position `i`.
pub open spec fn spec_first_real_from(segs: Seq<LineSeg>, i: int) -> Option<int>
    decreases segs.len() - i,
{
    if i < 0 || i >= segs.len() {
        None
    } else if !spec_synthetic(segs[i]) {
        Some(i)
    } else {
        spec_first_real_from(segs, i + 1)
    }
}

/// The position of the first stored segment.
pub open spec fn spec_first_real(segs: Seq<LineSeg>) -> Option<int> {
    spec_first_real_from(segs, 0)
}

/// The last stored segment before position `k`.
pub open spec fn spec_last_real_before(segs: Seq<LineSeg>, k: int) -> Option<int>
    decreases k,
{
    if k <= 0 {
        None
    } else if !spec_synthetic(segs[k - 1]) {
        Some(k - 1)
    } else {
        spec_last_real_before(segs, k - 1)
    }
}

/// The position of the last stored segment.
pub open spec fn spec_last_real(segs: Seq<LineSeg>) -> Option<int> {
    spec_last_real_before(segs, segs.len() as int)
}

/// The stored segment at an optional position.
pub open spec fn spec_seg_at(segs: Seq<LineSeg>, i: Option<int>) -> Option<LineSeg> {
    match i {
        Some(k) => Some(segs[k]),
        None => None,
    }
}

/// The vertical position of the paragraph's first stored segment.
pub open spec fn spec_first_real_vpos(p: Paragraph) -> Option<i32> {
    match spec_first_real(p.line_segs@) {
        Some(k) => Some(p.line_segs@[k].vertical_pos),
        None => None,
    }
}

proof fn lemma_first_real_from_bounds(segs: Seq<LineSeg>, i: int)
    ensures
        spec_first_real_from(segs, i) matches Some(k) ==> i <= k < segs.len() && !spec_synthetic(
            segs[k],
        ),
    decreases segs.len() - i,
{
    if 0 <= i < segs.len() && spec_synthetic(segs[i]) {
        lemma_first_real_from_bounds(segs, i + 1);
    }
}

proof fn lemma_last_real_before_bounds(segs: Seq<LineSeg>, k: int)
    requires
        k <= segs.len(),
    ensures
        spec_last_real_before(segs, k) matches Some(j) ==> 0 <= j < k && !spec_synthetic(segs[j]),
    decreases k,
{
    if k > 0 && spec_synthetic(segs[k - 1]) {
        lemma_last_real_before_bounds(segs, k - 1);
    }
}

/// The position of the first stored segment.
pub fn first_real_seg(segs: &Vec<LineSeg>) -> (r: Option<usize>)
    ensures
        match r {
            Some(i) => spec_first_real(segs@) == Some(i as int) && i < segs@.len(),
            None => spec_first_real(segs@) is None,
        },
{
    let mut i: usize = 0;
    while i < segs.len()
        invariant
            i <= segs@.len(),
            spec_first_real(segs@) == spec_first_real_from(segs@, i as int),
        decreases segs@.len() - i,
    {
        if !is_synthetic_line_seg(&segs[i]) {
            return Some(i);
        }
        i += 1;
    }
    None
}

/// The position of the last stored segment.
pub fn last_real_seg(segs: &Vec<LineSeg>) -> (r: Option<usize>)
    ensures
        match r {
            Some(i) => spec_last_real(segs@) == Some(i as int) && i < segs@.len(),
            None => spec_last_real(segs@) is None,
        },
{
    let mut k: usize = segs.len();
    while k > 0
        invariant
            k <= segs@.len(),
            spec_last_real(segs@) == spec_last_real_before(segs@, k as int),
        decreases k,
    {
        if !is_synthetic_line_seg(&segs[k - 1]) {
            return Some(k - 1);
        }
        k -= 1;
    }
    None
}

/// A stored rewind: the paragraph's first stored segment starts above the
/// previous stored position, and that position was below 5000 HWPUNIT.
pub open spec fn spec_stored_vpos_rewinds(prev_vpos: Option<i32>, p: Paragraph) -> bool {
    match (spec_first_real_vpos(p), prev_vpos) {
        (Some(nv), Some(cl)) => nv < cl && cl > 5000,
        _ => false,
    }
}

/// Whether the paragraph's first stored segment rewinds above the previous
/// stored position, read as a page break that the saving application made.
/// Synthetic segments are ignored.
pub fn stored_vpos_rewinds(prev_vpos: Option<i32>, para: &Paragraph) -> (r: bool)
    ensures
        r == spec_stored_vpos_rewinds(prev_vpos, *para),
{
    match first_real_seg(&para.line_segs) {
        None => false,
        Some(k) => {
            let nv = para.line_segs[k].vertical_pos;
            match prev_vpos {
                Some(cl) => nv < cl && cl > 5000,
                None => false,
            }
        },
    }
}

/// The last stored segment of the nearest paragraph before position `k` that
/// has one.
pub open spec fn spec_preceding_real_seg(ps: Seq<Paragraph>, k: int) -> Option<LineSeg>
    decreases k,
{
    if k <= 0 {
        None
    } else {
        match spec_last_real(ps[k - 1].line_segs@) {
            Some(j) => Some(ps[k - 1].line_segs@[j]),
            None => spec_preceding_real_seg(ps, k - 1),
        }
    }
}

/// The last stored segment of the nearest paragraph before `para_idx` (or
/// before the end, when `para_idx` is past it) that has one.
pub fn preceding_real_seg(paragraphs: &Vec<Paragraph>, para_idx: usize) -> (r: Option<LineSeg>)
    ensures
        r == spec_preceding_real_seg(
            paragraphs@,
            if para_idx < paragraphs@.len() {
                para_idx as int
            } else {
                paragraphs@.len() as int
            },
        ),
{
    let mut k = if para_idx < paragraphs.len() {
        para_idx
    } else {
        paragraphs.len()
    };
    let ghost k0 = k as int;
    while k > 0
        invariant
            k <= paragraphs@.len(),
            k0 == if para_idx < paragraphs@.len() {
                para_idx as int
            } else {
                paragraphs@.len() as int
            },
            spec_preceding_real_seg(paragraphs@, k0) == spec_preceding_real_seg(
                paragraphs@,
                k as int,
            ),
        decreases k,
    {
        match last_real_seg(&paragraphs[k - 1].line_segs) {
            Some(j) => {
                return Some(paragraphs[k - 1].line_segs[j]);
            },
            None => {},
        }
        k -= 1;
    }
    None
}

/// The vertical position of an optional segment.
pub open spec fn spec_vpos_of(s: Option<LineSeg>) -> Option<i32> {
    match s {
        Some(seg) => Some(seg.vertical_pos),
        None => None,
    }
}

/// The last stored vertical position of the nearest earlier paragraph that has
/// a stored segment; paragraphs without line segments are passed over.
pub fn preceding_stored_vpos(paragraphs: &Vec<Paragraph>, para_idx: usize) -> (r: Option<i32>)
    ensures
        r == spec_vpos_of(
            spec_preceding_real_seg(
                paragraphs@,
                if para_idx < paragraphs@.len() {
                    para_idx as int
                } else {
                    paragraphs@.len() as int
                },
            ),
        ),
{
    match preceding_real_seg(paragraphs, para_idx) {
        Some(s) => Some(s.vertical_pos),
        None => None,
    }
}

/// The paragraph at `i` starts at stored position 0 right after a stored line
/// whose bottom reaches 85% of the body height.
pub open spec fn spec_zero_vpos_after_near_full_line(ps: Seq<Paragraph>, i: int, body: i32) -> bool {
    &&& 0 <= i < ps.len()
    &&& spec_first_real_vpos(ps[i]) == Some(0i32)
    &&& body > 0
    &&& match spec_preceding_real_seg(ps, i) {
        Some(seg) => spec_clamp_i32(seg.vertical_pos + seg.line_height) >= (spec_clamp_i32(
            body * 85,
        ) as int) / 100,
        None => false,
    }
}

/// Whether the paragraph at `para_idx` starts at stored position 0 right after
/// a stored line whose bottom reaches 85% of the body height (in HWPUNIT).
pub fn stored_zero_vpos_after_near_full_line(
    paragraphs: &Vec<Paragraph>,
    para_idx: usize,
    body_height_hu: i32,
) -> (r: bool)
    ensures
        r == spec_zero_vpos_after_near_full_line(paragraphs@, para_idx as int, body_height_hu),
{
    if para_idx >= paragraphs.len() {
        return false;
    }
    let starts_at_zero = match first_real_seg(&paragraphs[para_idx].line_segs) {
        Some(k) => paragraphs[para_idx].line_segs[k].vertical_pos == 0,
        None => false,
    };
    if !starts_at_zero || body_height_hu <= 0 {
        return false;
    }
    match preceding_real_seg(paragraphs, para_idx) {
        Some(seg) => {
            let bottom = sat_add_i32(seg.vertical_pos, seg.line_height);
            let scaled = sat_mul_i32(body_height_hu, 85);
            bottom >= scaled / 100
        },
        None => false,
    }
}

/// A segment parsed from a stored layout: first segment of its line, with a
/// positive width and height.
pub open spec fn spec_parsed_seg(ls: LineSeg) -> bool {
    ls.tag & 0x0002_0000u32 != 0 && ls.segment_width > 0 && ls.line_height > 0
}

/// Two consecutive paragraphs that both claim the top of the column.
pub open spec fn spec_stored_vpos_top_collision(prev: Paragraph, curr: Paragraph) -> bool {
    &&& !spec_para_has_floating_object(prev)
    &&& !spec_para_has_floating_object(curr)
    &&& !spec_para_visible(prev)
    &&& !spec_para_visible(curr)
    &&& prev.controls@.len() > 0
    &&& spec_first_real(prev.line_segs@) is Some
    &&& spec_last_real(prev.line_segs@) is Some
    &&& spec_first_real(curr.line_segs@) is Some
    &&& {
        let pf = prev.line_segs@[spec_first_real(prev.line_segs@)->0];
        let pl = prev.line_segs@[spec_last_real(prev.line_segs@)->0];
        let cf = curr.line_segs@[spec_first_real(curr.line_segs@)->0];
        &&& spec_parsed_seg(pf)
        &&& spec_parsed_seg(pl)
        &&& spec_parsed_seg(cf)
        &&& spec_clamp_i32(pl.line_height + pl.line_spacing) > 0
        &&& pf.vertical_pos == 0
        &&& pl.vertical_pos == 0
        &&& cf.vertical_pos == 0
        &&& pl.column_start == cf.column_start
        &&& pl.segment_width == cf.segment_width
    }
}

/// Whether two consecutive paragraphs without visible text or floating objects,
/// the first holding controls, both start at stored position 0 of the same
/// column geometry while the first one advances the flow.
pub fn stored_vpos_top_collision(prev: &Paragraph, curr: &Paragraph) -> (r: bool)
    ensures
        r == spec_stored_vpos_top_collision(*prev, *curr),
{
    if para_has_floating_object(prev) || para_has_floating_object(curr) {
        return false;
    }
    if para_has_visible_text(prev) || para_has_visible_text(curr) || prev.controls.len() == 0 {
        return false;
    }
    let pfi = match first_real_seg(&prev.line_segs) {
        Some(i) => i,
        None => return false,
    };
    let pli = match last_real_seg(&prev.line_segs) {
        Some(i) => i,
        None => return false,
    };
    let cfi = match first_real_seg(&curr.line_segs) {
        Some(i) => i,
        None => return false,
    };
    let pf = &prev.line_segs[pfi];
    let pl = &prev.line_segs[pli];
    let cf = &curr.line_segs[cfi];
    let parsed_pf = pf.tag & 0x0002_0000u32 != 0 && pf.segment_width > 0 && pf.line_height > 0;
    let parsed_pl = pl.tag & 0x0002_0000u32 != 0 && pl.segment_width > 0 && pl.line_height > 0;
    let parsed_cf = cf.tag & 0x0002_0000u32 != 0 && cf.segment_width > 0 && cf.line_height > 0;
    if !parsed_pf || !parsed_pl || !parsed_cf {
        return false;
    }
    if sat_add_i32(pl.line_height, pl.line_spacing) <= 0 {
        return false;
    }
    pf.vertical_pos == 0 && pl.vertical_pos == 0 && cf.vertical_pos == 0 && pl.column_start
        == cf.column_start && pl.segment_width == cf.segment_width
}

/// The stored reset after the current paragraph that starts a new page.
pub open spec fn spec_saved_vpos_reset_starts_new_page(
    curr: Paragraph,
    next: Paragraph,
    col_count: u16,
    is_hwp3_variant: bool,
) -> bool {
    &&& !spec_page_bottom_fixed_table_anchor(next)
    &&& next.line_segs@.len() > 0
    &&& curr.line_segs@.len() > 0
    &&& {
        let nv = next.line_segs@[0].vertical_pos;
        let cl = curr.line_segs@.last().vertical_pos;
        let allowed_top: int = if is_hwp3_variant {
            1500
        } else {
            0
        };
        &&& if col_count > 1 {
            nv < cl
        } else {
            nv <= allowed_top
        }
        &&& cl > 5000
    }
}

/// Whether the next paragraph's stored position resets after the current one
/// in a way that starts a new page: the current paragraph's last segment lies
/// below 5000 HWPUNIT and the next one starts above it (several columns) or at
/// the top (one column; up to 1500 for the HWP3 variant).  An anchor of a
/// page-bottom table is no such reset.
pub fn paragraph_saved_vpos_reset_starts_new_page_after(
    current_para: &Paragraph,
    next_para: &Paragraph,
    col_count: u16,
    is_hwp3_variant: bool,
) -> (r: bool)
    ensures
        r == spec_saved_vpos_reset_starts_new_page(
            *current_para,
            *next_para,
            col_count,
            is_hwp3_variant,
        ),
{
    if para_is_page_bottom_fixed_table_anchor(next_para) {
        return false;
    }
    if next_para.line_segs.len() == 0 || current_para.line_segs.len() == 0 {
        return false;
    }
    let nv = next_para.line_segs[0].vertical_pos;
    let cl = current_para.line_segs[current_para.line_segs.len() - 1].vertical_pos;
    let allowed_top: i32 = if is_hwp3_variant {
        1500
    } else {
        0
    };
    (if col_count > 1 {
        nv < cl
    } else {
        nv <= allowed_top
    }) && cl > 5000
}

/// A page boundary after the current paragraph: the next one starts with a page
/// or section break, or the stored positions reset into a new page.
pub open spec fn spec_forces_page_boundary_after(
    curr: Paragraph,
    next: Paragraph,
    col_count: u16,
    is_hwp3_variant: bool,
) -> bool {
    next.column_type is Page || next.column_type is Section
        || spec_saved_vpos_reset_starts_new_page(curr, next, col_count, is_hwp3_variant)
}

/// Whether a page boundary falls after the current paragraph: the next one
/// starts with a page or section break, or its stored position resets into a
/// new page.
pub fn paragraph_forces_page_boundary_after(
    current_para: &Paragraph,
    next_para: &Paragraph,
    col_count: u16,
    is_hwp3_variant: bool,
) -> (r: bool)
    ensures
        r == spec_forces_page_boundary_after(*current_para, *next_para, col_count, is_hwp3_variant),
{
    matches!(next_para.column_type, ColumnBreakType::Page) || matches!(
        next_para.column_type,
        ColumnBreakType::Section
    ) || paragraph_saved_vpos_reset_starts_new_page_after(
        current_para,
        next_para,
        col_count,
        is_hwp3_variant,
    )
}

/// Page-last evidence scanned from paragraph `j` on, for a paragraph whose
/// first stored position is `curr`.
pub open spec fn spec_page_last_from(ps: Seq<Paragraph>, j: int, curr: i32) -> bool
    decreases ps.len() - j,
{
    if j < 0 || j >= ps.len() {
        true
    } else if ps[j].column_type is Page || ps[j].column_type is Section {
        true
    } else {
        match spec_first_real_vpos(ps[j]) {
            Some(nv) => nv < curr,
            None => spec_page_last_from(ps, j + 1, curr),
        }
    }
}

/// The stored flow puts the paragraph at `i` last on its page.
pub open spec fn spec_saved_flow_marks_page_last(ps: Seq<Paragraph>, i: int) -> bool {
    0 <= i < ps.len() && match spec_first_real_vpos(ps[i]) {
        Some(curr) => spec_page_last_from(ps, i + 1, curr),
        None => false,
    }
}

/// Whether the stored flow puts the paragraph at `para_idx` last on its page:
/// no later paragraph has a stored segment, or a page/section break comes
/// before the next stored segment, or that segment starts above this one.
pub fn saved_flow_marks_page_last(paragraphs: &Vec<Paragraph>, para_idx: usize) -> (r: bool)
    ensures
        r == spec_saved_flow_marks_page_last(paragraphs@, para_idx as int),
{
    if para_idx >= paragraphs.len() {
        return false;
    }
    let curr = match first_real_seg(&paragraphs[para_idx].line_segs) {
        Some(k) => paragraphs[para_idx].line_segs[k].vertical_pos,
        None => return false,
    };
    let mut j = para_idx + 1;
    while j < paragraphs.len()
        invariant
            para_idx < j <= paragraphs@.len(),
            spec_first_real_vpos(paragraphs@[para_idx as int]) == Some(curr),
            spec_page_last_from(paragraphs@, para_idx + 1, curr) == spec_page_last_from(
                paragraphs@,
                j as int,
                curr,
            ),
        decreases paragraphs@.len() - j,
    {
        let next_para = &paragraphs[j];
        if matches!(next_para.column_type, ColumnBreakType::Page) || matches!(
            next_para.column_type,
            ColumnBreakType::Section
        ) {
            return true;
        }
        match first_real_seg(&next_para.line_segs) {
            Some(k) => {
                return next_para.line_segs[k].vertical_pos < curr;
            },
            None => {},
        }
        j += 1;
    }
    true
}

/// The larger of two optional values.
pub open spec fn spec_max_opt(a: Option<i32>, b: Option<i32>) -> Option<i32> {
    match (a, b) {
        (Some(x), Some(y)) => Some(if x >= y {
            x
        } else {
            y
        }),
        (Some(x), None) => Some(x),
        (None, y) => y,
    }
}

/// The largest stored bottom (`vpos + line_height`, saturated) among the first
/// `k` segments that are stored and start below the top.
pub open spec fn spec_max_positive_end(segs: Seq<LineSeg>, k: int) -> Option<i32>
    decreases k,
{
    if k <= 0 {
        None
    } else {
        let s = segs[k - 1];
        spec_max_opt(
            spec_max_positive_end(segs, k - 1),
            if !spec_synthetic(s) && s.vertical_pos > 0 {
                Some(spec_clamp_i32(s.vertical_pos + s.line_height))
            } else {
                None
            },
        )
    }
}

/// The bottom of the positively placed stored lines of a paragraph whose last
/// stored line wraps to a negative position.
pub open spec fn spec_positive_vpos_end_before_negative_wrap(p: Paragraph) -> Option<i32> {
    match spec_last_real(p.line_segs@) {
        Some(k) => if p.line_segs@[k].vertical_pos >= 0 {
            None
        } else {
            spec_max_positive_end(p.line_segs@, p.line_segs@.len() as int)
        },
        None => None,
    }
}

/// When the paragraph's last stored segment has a negative position, the
/// largest bottom among its stored segments that start below the top.
pub fn positive_vpos_end_before_negative_wrap(para: &Paragraph) -> (r: Option<i32>)
    ensures
        r == spec_positive_vpos_end_before_negative_wrap(*para),
{
    let last = match last_real_seg(&para.line_segs) {
        Some(k) => k,
        None => return None,
    };
    if para.line_segs[last].vertical_pos >= 0 {
        return None;
    }
    let mut best: Option<i32> = None;
    let mut i: usize = 0;
    while i < para.line_segs.len()
        invariant
            i <= para.line_segs@.len(),
            best == spec_max_positive_end(para.line_segs@, i as int),
        decreases para.line_segs@.len() - i,
    {
        let s = &para.line_segs[i];
        if !is_synthetic_line_seg(s) && s.vertical_pos > 0 {
            let end = sat_add_i32(s.vertical_pos, s.line_height);
            best = match best {
                Some(b) => Some(
                    if b >= end {
                        b
                    } else {
                        end
                    },
                ),
                None => Some(end),
            };
        }
        i += 1;
    }
    best
}

/// The stored segments of a sequence, in order, with the synthetic ones left out.
pub open spec fn spec_stored_segs(segs: Seq<LineSeg>) -> Seq<LineSeg> {
    segs.filter(|ls: LineSeg| !spec_synthetic(ls))
}

/// The first element of a sequence, if any.
pub open spec fn spec_head(s: Seq<LineSeg>) -> Option<LineSeg> {
    if s.len() > 0 {
        Some(s[0])
    } else {
        None
    }
}

/// The last element of a sequence, if any.
pub open spec fn spec_tail_last(s: Seq<LineSeg>) -> Option<LineSeg> {
    if s.len() > 0 {
        Some(s.last())
    } else {
        None
    }
}

proof fn lemma_first_real_from_is_head(segs: Seq<LineSeg>, i: int)
    requires
        0 <= i <= segs.len(),
    ensures
        spec_seg_at(segs, spec_first_real_from(segs, i)) == spec_head(
            spec_stored_segs(segs.subrange(i, segs.len() as int)),
        ),
    decreases segs.len() - i,
{
    let pred = |ls: LineSeg| !spec_synthetic(ls);
    let sub = segs.subrange(i, segs.len() as int);
    if i == segs.len() {
        assert(sub =~= Seq::<LineSeg>::empty());
        reveal(Seq::filter);
        assert(sub.filter(pred) =~= Seq::<LineSeg>::empty());
    } else {
        let rest = segs.subrange(i + 1, segs.len() as int);
        assert(sub =~= seq![segs[i]] + rest);
        Seq::filter_distributes_over_add(seq![segs[i]], rest, pred);
        reveal_with_fuel(Seq::filter, 2);
        assert(seq![segs[i]].drop_last() =~= Seq::<LineSeg>::empty());
        lemma_first_real_from_is_head(segs, i + 1);
        if pred(segs[i]) {
            assert(seq![segs[i]].filter(pred) =~= seq![segs[i]]);
        } else {
            assert(seq![segs[i]].filter(pred) =~= Seq::<LineSeg>::empty());
            assert(sub.filter(pred) =~= rest.filter(pred));
        }
    }
}

proof fn lemma_last_real_before_is_last(segs: Seq<LineSeg>, k: int)
    requires
        0 <= k <= segs.len(),
    ensures
        spec_seg_at(segs, spec_last_real_before(segs, k)) == spec_tail_last(
            spec_stored_segs(segs.take(k)),
        ),
    decreases k,
{
    let pred = |ls: LineSeg| !spec_synthetic(ls);
    reveal_with_fuel(Seq::filter, 1);
    if k == 0 {
        assert(segs.take(0) =~= Seq::<LineSeg>::empty());
    } else {
        assert(segs.take(k).drop_last() =~= segs.take(k - 1));
        lemma_last_real_before_is_last(segs, k - 1);
    }
}

/// The first stored segment of a paragraph is the first element of its
/// sequence of stored segments: synthetic segments play no part in it.
pub proof fn lemma_first_real_is_first_stored(segs: Seq<LineSeg>)
    ensures
        spec_seg_at(segs, spec_first_real(segs)) == spec_head(spec_stored_segs(segs)),
{
    lemma_first_real_from_is_head(segs, 0);
    assert(segs.subrange(0, segs.len() as int) =~= segs);
}

/// The last stored segment of a paragraph is the last element of its sequence
/// of stored segments: synthetic segments play no part in it.
pub proof fn lemma_last_real_is_last_stored(segs: Seq<LineSeg>)
    ensures
        spec_seg_at(segs, spec_last_real(segs)) == spec_tail_last(spec_stored_segs(segs)),
{
    lemma_last_real_before_is_last(segs, segs.len() as int);
    assert(segs.take(segs.len() as int) =~= segs);
}

/// Synthetic segments do not change whether a paragraph rewinds: two
/// paragraphs with the same stored segments rewind after the same previous
/// positions.
pub proof fn lemma_rewind_ignores_synthetic(prev_vpos: Option<i32>, p: Paragraph, q: Paragraph)
    requires
        spec_stored_segs(p.line_segs@) == spec_stored_segs(q.line_segs@),
    ensures
        spec_stored_vpos_rewinds(prev_vpos, p) == spec_stored_vpos_rewinds(prev_vpos, q),
{
    lemma_first_real_is_first_stored(p.line_segs@);
    lemma_first_real_is_first_stored(q.line_segs@);
    lemma_first_real_from_bounds(p.line_segs@, 0);
    lemma_first_real_from_bounds(q.line_segs@, 0);
}

/// Synthetic segments do not change the stored position that precedes a
/// paragraph: two sections whose paragraphs have, one for one, the same stored
/// segments give the same preceding stored segment at every index.
pub proof fn lemma_preceding_ignores_synthetic(ps: Seq<Paragraph>, qs: Seq<Paragraph>, k: int)
    requires
        ps.len() == qs.len(),
        0 <= k <= ps.len(),
        forall|i: int|
            0 <= i < ps.len() ==> spec_stored_segs(#[trigger] ps[i].line_segs@) == spec_stored_segs(
                qs[i].line_segs@,
            ),
    ensures
        spec_preceding_real_seg(ps, k) == spec_preceding_real_seg(qs, k),
    decreases k,
{
    if k > 0 {
        let a = ps[k - 1].line_segs@;
        let b = qs[k - 1].line_segs@;
        lemma_last_real_is_last_stored(a);
        lemma_last_real_is_last_stored(b);
        lemma_last_real_before_bounds(a, a.len() as int);
        lemma_last_real_before_bounds(b, b.len() as int);
        lemma_preceding_ignores_synthetic(ps, qs, k - 1);
    }
}

/// A stored reset into a new page is a page boundary.
pub proof fn lemma_saved_reset_forces_page_boundary(
    curr: Paragraph,
    next: Paragraph,
    col_count: u16,
    is_hwp3_variant: bool,
)
    requires
        spec_saved_vpos_reset_starts_new_page(curr, next, col_count, is_hwp3_variant),
    ensures
        spec_forces_page_boundary_after(curr, next, col_count, is_hwp3_variant),
{
}

/// The HWP3 variant only widens the reset test: every reset found without it
/// is found with it.
pub proof fn lemma_hwp3_variant_widens_reset(curr: Paragraph, next: Paragraph, col_count: u16)
    requires
        spec_saved_vpos_reset_starts_new_page(curr, next, col_count, false),
    ensures
        spec_saved_vpos_reset_starts_new_page(curr, next, col_count, true),
{
}

/// A paragraph that starts with a page break or a section break always has a
/// page boundary before it, whatever the stored positions say.
pub proof fn lemma_explicit_break_forces_page_boundary(
    curr: Paragraph,
    next: Paragraph,
    col_count: u16,
    is_hwp3_variant: bool,
)
    requires
        next.column_type == ColumnBreakType::Page || next.column_type == ColumnBreakType::Section,
    ensures
        spec_forces_page_boundary_after(curr, next, col_count, is_hwp3_variant),
{
}

/// Without a page or section break, there is no page boundary when either
/// paragraph has no line segment, or when the current paragraph's last line
/// starts within the first 5000 HWPUNIT of the page.
pub proof fn lemma_no_boundary_without_break_or_deep_line(
    curr: Paragraph,
    next: Paragraph,
    col_count: u16,
    is_hwp3_variant: bool,
)
    requires
        next.column_type != ColumnBreakType::Page,
        next.column_type != ColumnBreakType::Section,
        curr.line_segs@.len() == 0 || next.line_segs@.len() == 0
            || curr.line_segs@.last().vertical_pos <= 5000,
    ensures
        !spec_forces_page_boundary_after(curr, next, col_count, is_hwp3_variant),
{
}

/// In several columns, a next paragraph that starts at or below the current
/// paragraph's last line is no reset into a new page.
pub proof fn lemma_multi_column_reset_needs_upward_jump(
    curr: Paragraph,
    next: Paragraph,
    col_count: u16,
    is_hwp3_variant: bool,
)
    requires
        col_count > 1,
        curr.line_segs@.len() > 0,
        next.line_segs@.len() > 0,
        next.line_segs@[0].vertical_pos >= curr.line_segs@.last().vertical_pos,
    ensures
        !spec_saved_vpos_reset_starts_new_page(curr, next, col_count, is_hwp3_variant),
{
}

} // verus!
