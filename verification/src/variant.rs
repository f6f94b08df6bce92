//! Page breaks that documents converted from HWP3 encode as stored position
//! resets before a heading.
use vstd::prelude::*;
use crate::arith::{sat_add_i32, spec_clamp_i32};
use crate::model::{spec_synthetic, Control, LineSeg, Paragraph};
use crate::paragraph::{para_has_visible_text, spec_para_visible, spec_tac_table};
use crate::stored::{
    is_synthetic_line_seg, positive_vpos_end_before_negative_wrap,
    spec_positive_vpos_end_before_negative_wrap,
};

verus! {

/// The paragraph's last segment, when it is a stored one.
pub open spec fn spec_last_seg_if_stored(p: Paragraph) -> Option<LineSeg> {
    if p.line_segs@.len() > 0 && !spec_synthetic(p.line_segs@.last()) {
        Some(p.line_segs@.last())
    } else {
        None
    }
}

/// The paragraph's first segment, when it is a stored one.
pub open spec fn spec_first_seg_if_stored(p: Paragraph) -> Option<LineSeg> {
    if p.line_segs@.len() > 0 && !spec_synthetic(p.line_segs@[0]) {
        Some(p.line_segs@[0])
    } else {
        None
    }
}

/// The nearest paragraph before index `k` whose last segment is a stored one.
pub open spec fn spec_prev_stored_end_para(ps: Seq<Paragraph>, k: int) -> Option<int>
    decreases k,
{
    if k <= 0 {
        None
    } else if k - 1 < ps.len() && spec_last_seg_if_stored(ps[k - 1]) is Some {
        Some(k - 1)
    } else {
        spec_prev_stored_end_para(ps, k - 1)
    }
}

/// Where a segment ends: its position plus its height, saturated.
pub open spec fn spec_seg_end(s: LineSeg) -> i32 {
    spec_clamp_i32(s.vertical_pos + s.line_height)
}

/// The space above a paragraph, in HWPUNIT, looked up by its shape (0 when the
/// shape is unknown).
pub open spec fn spec_spacing_before_hu(sb: Seq<i32>, p: Paragraph) -> int {
    if (p.para_shape_id as int) < sb.len() {
        sb[p.para_shape_id as int] as int
    } else {
        0
    }
}

/// A body paragraph whose stored segments were dropped: no segments, no
/// controls, visible text.
pub open spec fn spec_segless_text_para(p: Paragraph) -> bool {
    p.line_segs@.len() == 0 && p.controls@.len() == 0 && spec_para_visible(p)
}

/// The number of paragraphs with index in `[from, to)` whose stored segments
/// were dropped.
pub open spec fn spec_bridge_count(ps: Seq<Paragraph>, from: int, to: int) -> nat
    decreases to - from,
{
    if to <= from {
        0
    } else {
        spec_bridge_count(ps, from, to - 1) + if 0 <= to - 1 < ps.len() && spec_segless_text_para(
            ps[to - 1],
        ) {
            1nat
        } else {
            0nat
        }
    }
}

/// The stored position of the first segment of the paragraph after `i`.
pub open spec fn spec_next_first_stored_vpos(ps: Seq<Paragraph>, i: int) -> Option<i32> {
    if 0 <= i + 1 < ps.len() {
        match spec_first_seg_if_stored(ps[i + 1]) {
            Some(s) => Some(s.vertical_pos),
            None => None,
        }
    } else {
        None
    }
}

/// The previous stored paragraph holds one stored line at the top of the page
/// with visible text, no controls and little space above.
pub open spec fn spec_top_content_reset(p: Paragraph, sb: Seq<i32>) -> bool {
    &&& p.line_segs@.len() == 1
    &&& !spec_synthetic(p.line_segs@[0])
    &&& p.line_segs@[0].vertical_pos == 0
    &&& p.controls@.len() == 0
    &&& spec_para_visible(p)
    &&& spec_spacing_before_hu(sb, p) < 250
}

/// The heading resets that start a new page, given the paragraph `pr` whose
/// stored line ends last before the heading.
pub open spec fn spec_variant_reset_after(
    para: Paragraph,
    ps: Seq<Paragraph>,
    sb: Seq<i32>,
    para_idx: int,
    body: int,
    pr: int,
) -> bool {
    let prev = ps[pr];
    let prev_end = spec_seg_end(prev.line_segs@.last()) as int;
    let sbh = spec_spacing_before_hu(sb, para);
    let visible = spec_para_visible(para);
    let no_controls = para.controls@.len() == 0;
    let nsegs = para.line_segs@.len();
    let adjacent = pr + 1 == para_idx;
    let bridge = spec_bridge_count(ps, pr + 1, para_idx);
    let next_v = spec_next_first_stored_vpos(ps, para_idx);
    let table_heading = adjacent && nsegs == 0 && no_controls && visible && sbh >= 500 && prev_end
        > body * 85 / 100 && (exists|k: int|
        0 <= k < prev.controls@.len() && spec_tac_table(#[trigger] prev.controls@[k]))
        && (next_v matches Some(v) && v <= 4000);
    let empty_bridge = nsegs == 0 && no_controls && visible && sbh >= 500 && bridge == 1 && prev_end
        > body * 80 / 100 && prev_end <= body * 85 / 100;
    let stored_heading = match spec_first_seg_if_stored(para) {
        None => false,
        Some(cf) => {
            let v = cf.vertical_pos as int;
            let prev_prev_end = match spec_prev_stored_end_para(ps, pr) {
                Some(i) => Some(spec_seg_end(ps[i].line_segs@.last())),
                None => None,
            };
            let strict = sbh >= 500 && prev_end > body * 95 / 100 && v < 1500;
            let delayed = adjacent && nsegs >= 2 && sbh >= 500 && no_controls && visible && v > 0
                && v <= 2500 && spec_top_content_reset(prev, sb) && (prev_prev_end matches Some(e)
                && e > body * 70 / 100);
            let bridged = bridge >= 2 && no_controls && visible && v <= 1500 && prev_end > body * 75
                / 100;
            let negative_wrap = adjacent && nsegs == 1 && sbh >= 250 && no_controls && visible && v
                < 0 && (spec_positive_vpos_end_before_negative_wrap(prev) matches Some(e) && e
                > body * 75 / 100);
            let bottom = adjacent && nsegs == 1 && sbh >= 250 && no_controls && visible && v > body
                * 75 / 100 && (next_v matches Some(nv) && nv > 0 && nv <= 4000 && v > nv);
            strict || delayed || bridged || negative_wrap || bottom
        },
    };
    table_heading || empty_bridge || stored_heading
}

/// Whether a converted HWP3 document's stored positions reset into a new page
/// before the paragraph at `para_idx`.
pub open spec fn spec_hwp3_variant_vpos_reset_break(
    para: Paragraph,
    ps: Seq<Paragraph>,
    sb: Seq<i32>,
    para_idx: int,
    body: int,
    prev_para_idx: Option<usize>,
) -> bool {
    &&& body > 0
    &&& para.text@.len() > 0
    &&& match prev_para_idx {
        None => false,
        Some(pp) => match spec_prev_stored_end_para(ps, pp + 1) {
            None => false,
            Some(pr) => spec_variant_reset_after(para, ps, sb, para_idx, body, pr),
        },
    }
}

proof fn lemma_prev_stored_end_para(ps: Seq<Paragraph>, k: int)
    ensures
        spec_prev_stored_end_para(ps, k) matches Some(i) ==> 0 <= i < k && i < ps.len()
            && spec_last_seg_if_stored(ps[i]) is Some,
        k > ps.len() ==> spec_prev_stored_end_para(ps, k) == spec_prev_stored_end_para(
            ps,
            ps.len() as int,
        ),
    decreases k,
{
    if k > 0 {
        lemma_prev_stored_end_para(ps, k - 1);
    }
}

proof fn lemma_bridge_count_beyond_len(ps: Seq<Paragraph>, from: int, to: int)
    requires
        0 <= from,
    ensures
        to > ps.len() ==> spec_bridge_count(ps, from, to) == spec_bridge_count(
            ps,
            from,
            if from < ps.len() {
                ps.len() as int
            } else {
                from
            },
        ),
    decreases to - from,
{
    if to > from && to > ps.len() {
        lemma_bridge_count_beyond_len(ps, from, to - 1);
    }
}

fn last_seg_if_stored(p: &Paragraph) -> (r: Option<LineSeg>)
    ensures
        r == spec_last_seg_if_stored(*p),
{
    let n = p.line_segs.len();
    if n > 0 && !is_synthetic_line_seg(&p.line_segs[n - 1]) {
        Some(p.line_segs[n - 1])
    } else {
        None
    }
}

fn first_seg_if_stored(p: &Paragraph) -> (r: Option<LineSeg>)
    ensures
        r == spec_first_seg_if_stored(*p),
{
    if p.line_segs.len() > 0 && !is_synthetic_line_seg(&p.line_segs[0]) {
        Some(p.line_segs[0])
    } else {
        None
    }
}

/// The nearest paragraph before `k` (with `k` at most the number of
/// paragraphs) whose last segment is a stored one.
fn prev_stored_end_para(ps: &Vec<Paragraph>, k: usize) -> (r: Option<usize>)
    requires
        k <= ps@.len(),
    ensures
        r is None <==> spec_prev_stored_end_para(ps@, k as int) is None,
        r matches Some(i) ==> spec_prev_stored_end_para(ps@, k as int) == Some(i as int),
{
    proof {
        lemma_prev_stored_end_para(ps@, k as int);
    }
    let mut j = k;
    while j > 0
        invariant
            j <= k <= ps@.len(),
            spec_prev_stored_end_para(ps@, k as int) == spec_prev_stored_end_para(ps@, j as int),
        decreases j,
    {
        if last_seg_if_stored(&ps[j - 1]).is_some() {
            return Some(j - 1);
        }
        j -= 1;
    }
    None
}

fn shape_spacing_before_hu(sb: &Vec<i32>, p: &Paragraph) -> (r: i32)
    ensures
        r as int == spec_spacing_before_hu(sb@, *p),
{
    let id = p.para_shape_id as usize;
    if id < sb.len() {
        sb[id]
    } else {
        0
    }
}

/// The number of paragraphs with index in `[from, to)` whose stored segments
/// were dropped.
fn bridge_count(ps: &Vec<Paragraph>, from: usize, to: usize) -> (r: usize)
    ensures
        r == spec_bridge_count(ps@, from as int, to as int),
{
    let end = if to <= ps.len() {
        to
    } else if from < ps.len() {
        ps.len()
    } else {
        from
    };
    proof {
        lemma_bridge_count_beyond_len(ps@, from as int, to as int);
    }
    let mut n: usize = 0;
    let mut i = from;
    while i < end
        invariant
            from <= i,
            i <= end || end <= from,
            end <= ps@.len() || end == from,
            n == spec_bridge_count(ps@, from as int, i as int),
            n <= i - from,
        decreases end - i,
    {
        let p = &ps[i];
        if p.line_segs.len() == 0 && p.controls.len() == 0 && para_has_visible_text(p) {
            n += 1;
        }
        i += 1;
    }
    if end <= from {
        assert(spec_bridge_count(ps@, from as int, end as int) == 0);
        return 0;
    }
    n
}

fn has_tac_table(p: &Paragraph) -> (r: bool)
    ensures
        r == exists|k: int| 0 <= k < p.controls@.len() && spec_tac_table(#[trigger] p.controls@[k]),
{
    let mut k: usize = 0;
    while k < p.controls.len()
        invariant
            k <= p.controls@.len(),
            forall|j: int| 0 <= j < k ==> !spec_tac_table(#[trigger] p.controls@[j]),
        decreases p.controls@.len() - k,
    {
        if let Control::Table(t) = &p.controls[k] {
            if t.common.treat_as_char {
                assert(spec_tac_table(p.controls@[k as int]));
                return true;
            }
        }
        k += 1;
    }
    false
}

fn next_first_stored_vpos(ps: &Vec<Paragraph>, i: usize) -> (r: Option<i32>)
    ensures
        r == spec_next_first_stored_vpos(ps@, i as int),
{
    if ps.len() == 0 || i >= ps.len() - 1 {
        return None;
    }
    match first_seg_if_stored(&ps[i + 1]) {
        Some(s) => Some(s.vertical_pos),
        None => None,
    }
}

/// Whether a document converted from HWP3 encodes a page break before the
/// paragraph at `para_idx` as a stored position reset.  It needs a positive
/// body height (`body_height_hu_for_variant`), text in the paragraph, and a
/// paragraph at or before `variant_prev_para_idx` whose last segment is a
/// stored one; the nearest such paragraph is the previous one.  The space
/// above a paragraph is `spacing_before_hu[para_shape_id]` (0 for an unknown
/// shape).  The break is taken for:
/// - a heading without segments, right after an inline table whose stored end
///   passes 85% of the body, when the next paragraph starts within 4000;
/// - a heading without segments after exactly one dropped paragraph, with the
///   previous end between 80% and 85% of the body;
/// - a heading whose first stored segment starts above 1500 after an end past
///   95%; one starting in `(0, 2500]` after a one-line top-of-page paragraph
///   that followed an end past 70%; one starting within 1500 after two or more
///   dropped paragraphs and an end past 75%; a one-line heading with a
///   negative start after a paragraph whose positive lines end past 75%; and a
///   one-line heading below 75% of the body whose next paragraph starts higher,
///   within `(0, 4000]`.
pub fn judge_hwp3_variant_vpos_reset_break(
    para: &Paragraph,
    paragraphs: &Vec<Paragraph>,
    spacing_before_hu: &Vec<i32>,
    para_idx: usize,
    body_height_hu_for_variant: i32,
    variant_prev_para_idx: Option<usize>,
) -> (r: bool)
    requires
        body_height_hu_for_variant <= i32::MAX / 95,
    ensures
        r == spec_hwp3_variant_vpos_reset_break(
            *para,
            paragraphs@,
            spacing_before_hu@,
            para_idx as int,
            body_height_hu_for_variant as int,
            variant_prev_para_idx,
        ),
{
    let body = body_height_hu_for_variant;
    if body <= 0 || para.text.len() == 0 {
        return false;
    }
    let pp = match variant_prev_para_idx {
        Some(pp) => pp,
        None => {
            return false;
        },
    };
    let n = paragraphs.len();
    let k = if pp < n {
        pp + 1
    } else {
        n
    };
    proof {
        lemma_prev_stored_end_para(paragraphs@, pp + 1);
    }
    let pr = match prev_stored_end_para(paragraphs, k) {
        Some(pr) => pr,
        None => {
            return false;
        },
    };
    proof {
        lemma_prev_stored_end_para(paragraphs@, k as int);
        lemma_prev_stored_end_para(paragraphs@, pr as int);
    }
    let prev = &paragraphs[pr];
    let prev_last = prev.line_segs[prev.line_segs.len() - 1];
    let prev_end = sat_add_i32(prev_last.vertical_pos, prev_last.line_height);
    let sbh = shape_spacing_before_hu(spacing_before_hu, para);
    let visible = para_has_visible_text(para);
    let no_controls = para.controls.len() == 0;
    let nsegs = para.line_segs.len();
    let adjacent = pr + 1 == para_idx;
    let bridge = bridge_count(paragraphs, pr + 1, para_idx);
    let next_v = next_first_stored_vpos(paragraphs, para_idx);
    let table_heading = adjacent && nsegs == 0 && no_controls && visible && sbh >= 500 && prev_end
        > body * 85 / 100 && has_tac_table(prev) && match next_v {
        Some(v) => v <= 4000,
        None => false,
    };
    let empty_bridge = nsegs == 0 && no_controls && visible && sbh >= 500 && bridge == 1 && prev_end
        > body * 80 / 100 && prev_end <= body * 85 / 100;
    let stored_heading = match first_seg_if_stored(para) {
        None => false,
        Some(cf) => {
            let v = cf.vertical_pos;
            let prev_prev_end: Option<i32> = match prev_stored_end_para(paragraphs, pr) {
                Some(i) => {
                    let segs = &paragraphs[i].line_segs;
                    let last = segs[segs.len() - 1];
                    Some(sat_add_i32(last.vertical_pos, last.line_height))
                },
                None => None,
            };
            let strict = sbh >= 500 && prev_end > body * 95 / 100 && v < 1500;
            let top_content_reset = prev.line_segs.len() == 1 && !is_synthetic_line_seg(
                &prev.line_segs[0],
            ) && prev.line_segs[0].vertical_pos == 0 && prev.controls.len() == 0
                && para_has_visible_text(prev) && shape_spacing_before_hu(spacing_before_hu, prev) < 250;
            let delayed = adjacent && nsegs >= 2 && sbh >= 500 && no_controls && visible && v > 0 && v
                <= 2500 && top_content_reset && match prev_prev_end {
                Some(e) => e > body * 70 / 100,
                None => false,
            };
            let bridged = bridge >= 2 && no_controls && visible && v <= 1500 && prev_end > body * 75
                / 100;
            let negative_wrap = adjacent && nsegs == 1 && sbh >= 250 && no_controls && visible && v < 0
                && match positive_vpos_end_before_negative_wrap(prev) {
                Some(e) => e > body * 75 / 100,
                None => false,
            };
            let bottom = adjacent && nsegs == 1 && sbh >= 250 && no_controls && visible && v > body * 75
                / 100 && match next_v {
                Some(nv) => nv > 0 && nv <= 4000 && v > nv,
                None => false,
            };
            strict || delayed || bridged || negative_wrap || bottom
        },
    };
    table_heading || empty_bridge || stored_heading
}

/// A heading whose first stored line starts below 1500 is not a reset to the
/// top of a page: a break can then come only from a start within 2500 (the
/// delayed heading after a one-line top-of-page paragraph) or from a next
/// paragraph whose first line restarts higher, within `(0, 4000]`.  In
/// particular a heading that continues lower on the page, with no such next
/// paragraph, never breaks.
pub proof fn lemma_low_heading_breaks_only_before_a_restart(
    para: Paragraph,
    ps: Seq<Paragraph>,
    sb: Seq<i32>,
    para_idx: int,
    body: int,
    prev_para_idx: Option<usize>,
)
    requires
        para.line_segs@.len() > 0,
        !spec_synthetic(para.line_segs@[0]),
        para.line_segs@[0].vertical_pos > 1500,
        spec_hwp3_variant_vpos_reset_break(para, ps, sb, para_idx, body, prev_para_idx),
    ensures
        para.line_segs@[0].vertical_pos <= 2500 || ({
            &&& 0 <= para_idx + 1 < ps.len()
            &&& ps[para_idx + 1].line_segs@.len() > 0
            &&& 0 < ps[para_idx + 1].line_segs@[0].vertical_pos <= 4000
            &&& ps[para_idx + 1].line_segs@[0].vertical_pos < para.line_segs@[0].vertical_pos
        }),
{
}

/// Only a heading with visible text, no controls and at least 500 HWPUNIT of
/// space above can break when it has no stored segment at all.
pub proof fn lemma_segmentless_heading_needs_space_above(
    para: Paragraph,
    ps: Seq<Paragraph>,
    sb: Seq<i32>,
    para_idx: int,
    body: int,
    prev_para_idx: Option<usize>,
)
    requires
        para.line_segs@.len() == 0,
        spec_hwp3_variant_vpos_reset_break(para, ps, sb, para_idx, body, prev_para_idx),
    ensures
        spec_para_visible(para),
        para.controls@.len() == 0,
        (para.para_shape_id as int) < sb.len() && sb[para.para_shape_id as int] >= 500,
{
}

/// A heading that anchors controls breaks only as a reset to the top of the
/// page: its first stored segment starts above 1500 and it has at least 500
/// HWPUNIT of space above.
pub proof fn lemma_heading_with_controls_breaks_only_at_the_top(
    para: Paragraph,
    ps: Seq<Paragraph>,
    sb: Seq<i32>,
    para_idx: int,
    body: int,
    prev_para_idx: Option<usize>,
)
    requires
        para.controls@.len() > 0,
        spec_hwp3_variant_vpos_reset_break(para, ps, sb, para_idx, body, prev_para_idx),
    ensures
        para.line_segs@.len() > 0,
        !spec_synthetic(para.line_segs@[0]),
        para.line_segs@[0].vertical_pos < 1500,
        (para.para_shape_id as int) < sb.len() && sb[para.para_shape_id as int] >= 500,
{
}

/// No break without a positive body height, text in the heading, and a
/// previous paragraph to measure from.
pub proof fn lemma_break_needs_body_text_and_previous(
    para: Paragraph,
    ps: Seq<Paragraph>,
    sb: Seq<i32>,
    para_idx: int,
    body: int,
    prev_para_idx: Option<usize>,
)
    requires
        body <= 0 || para.text@.len() == 0 || prev_para_idx is None,
    ensures
        !spec_hwp3_variant_vpos_reset_break(para, ps, sb, para_idx, body, prev_para_idx),
{
}

} // verus!
