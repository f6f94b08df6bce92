//! Page items, square-wrapped objects and the small placement policies of the
//! typesetter.
use vstd::prelude::*;
use crate::text::{is_blank, spec_blank};
use crate::arith::{sat_add_i32, sat_double_usize, spec_clamp_i32, spec_sat_double};
use crate::model::{signed_hwpunit, spec_signed_hwpunit, CommonObjAttr, Control, HorzRelTo, PageItem, Paragraph, ShapeKind, TextWrap};

verus! {

/// Full-page images get a page each only when there are at least two and they
/// are a strict majority of the paragraph's flow pictures.
pub open spec fn spec_majority_fullpage_images(fullpage_count: usize, noninline: usize) -> bool {
    fullpage_count >= 2 && spec_sat_double(fullpage_count) > noninline
}

/// Whether at least two full-page images are a strict majority of the
/// paragraph's non-inline flow pictures (twice the count, saturated, exceeds
/// the number of pictures).
pub fn has_majority_fullpage_images(fullpage_count: usize, noninline_picture_count: usize) -> (r:
    bool)
    ensures
        r == spec_majority_fullpage_images(fullpage_count, noninline_picture_count),
{
    fullpage_count >= 2 && sat_double_usize(fullpage_count) > noninline_picture_count
}

/// The number of consecutive stored tail lines that may be placed past the
/// budget before the chain is broken.
pub const SAVED_TAIL_FIT_CHAIN_CAP: usize = 2;

/// What a stored tail-line fit does to the chain of such fits.
#[derive(Debug, Clone, Copy, PartialEq, Eq)]
pub enum SavedTailFitChainDecision {
    NoChange,
    Advance,
    Break,
}

/// The chain decision for one line.
pub open spec fn spec_saved_tail_fit_chain_decision(
    tail_fit_chain: usize,
    saved_tail_vpos_fit: bool,
    hwp_authoritative: bool,
    native_reset_tail_fits_footnote_boundary: bool,
) -> SavedTailFitChainDecision {
    if !saved_tail_vpos_fit || hwp_authoritative || native_reset_tail_fits_footnote_boundary {
        SavedTailFitChainDecision::NoChange
    } else if tail_fit_chain >= SAVED_TAIL_FIT_CHAIN_CAP {
        SavedTailFitChainDecision::Break
    } else {
        SavedTailFitChainDecision::Advance
    }
}

/// The decision for a line: a line that is no stored tail fit, or that an
/// authoritative HWP boundary or an actual native footnote boundary admits,
/// leaves the chain as it is; otherwise the chain advances while it is below
/// the cap and breaks once it reaches it.
pub fn saved_tail_fit_chain_decision(
    tail_fit_chain: usize,
    saved_tail_vpos_fit: bool,
    hwp_authoritative: bool,
    native_hwp5_reset_tail_fits_actual_footnote_boundary: bool,
) -> (r: SavedTailFitChainDecision)
    ensures
        r == spec_saved_tail_fit_chain_decision(
            tail_fit_chain,
            saved_tail_vpos_fit,
            hwp_authoritative,
            native_hwp5_reset_tail_fits_actual_footnote_boundary,
        ),
{
    if !saved_tail_vpos_fit || hwp_authoritative
        || native_hwp5_reset_tail_fits_actual_footnote_boundary {
        SavedTailFitChainDecision::NoChange
    } else if tail_fit_chain >= SAVED_TAIL_FIT_CHAIN_CAP {
        SavedTailFitChainDecision::Break
    } else {
        SavedTailFitChainDecision::Advance
    }
}

/// The paragraph that a global index names: body paragraphs first, then the
/// endnote paragraphs after them.
pub open spec fn spec_paragraph_by_global_index(
    body: Seq<Paragraph>,
    endnotes: Seq<Paragraph>,
    i: int,
) -> Option<Paragraph> {
    if i < body.len() {
        Some(body[i])
    } else if i - body.len() < endnotes.len() {
        Some(endnotes[i - body.len()])
    } else {
        None
    }
}

/// The paragraph at a global index: a body paragraph below the body length, an
/// endnote paragraph (counted from the body length) above it, or none.
pub fn paragraph_by_global_index<'a>(
    body_paragraphs: &'a Vec<Paragraph>,
    endnote_paragraphs: &'a Vec<Paragraph>,
    para_index: usize,
) -> (r: Option<&'a Paragraph>)
    ensures
        match r {
            Some(p) => spec_paragraph_by_global_index(
                body_paragraphs@,
                endnote_paragraphs@,
                para_index as int,
            ) == Some(*p),
            None => spec_paragraph_by_global_index(
                body_paragraphs@,
                endnote_paragraphs@,
                para_index as int,
            ) is None,
        },
{
    if para_index < body_paragraphs.len() {
        Some(&body_paragraphs[para_index])
    } else {
        let k = para_index - body_paragraphs.len();
        if k < endnote_paragraphs.len() {
            Some(&endnote_paragraphs[k])
        } else {
            None
        }
    }
}

/// The paragraph that a page item comes from.
pub open spec fn spec_page_item_para_index(item: PageItem) -> Option<usize> {
    match item {
        PageItem::FullParagraph { para_index } => Some(para_index),
        PageItem::PartialParagraph { para_index, .. } => Some(para_index),
        PageItem::Table { para_index, .. } => Some(para_index),
        PageItem::PartialTable { para_index, .. } => Some(para_index),
        PageItem::Shape { para_index, .. } => Some(para_index),
        PageItem::EndnoteSeparator => None,
    }
}

/// The index of the paragraph that the page item comes from; an endnote
/// separator comes from none.
pub fn page_item_para_index(item: &PageItem) -> (r: Option<usize>)
    ensures
        r == spec_page_item_para_index(*item),
{
    match item {
        PageItem::FullParagraph { para_index } => Some(*para_index),
        PageItem::PartialParagraph { para_index, .. } => Some(*para_index),
        PageItem::Table { para_index, .. } => Some(*para_index),
        PageItem::PartialTable { para_index, .. } => Some(*para_index),
        PageItem::Shape { para_index, .. } => Some(*para_index),
        PageItem::EndnoteSeparator => None,
    }
}

/// The stored position of the line at index `line` of paragraph `i`, if both exist.
pub open spec fn spec_line_vpos(ps: Seq<Paragraph>, i: int, line: int) -> Option<i32> {
    if 0 <= i < ps.len() && 0 <= line < ps[i].line_segs@.len() {
        Some(ps[i].line_segs@[line].vertical_pos)
    } else {
        None
    }
}

/// The stored position where a page item starts.
pub open spec fn spec_page_item_vpos_base(item: PageItem, ps: Seq<Paragraph>) -> Option<i32> {
    match item {
        PageItem::PartialParagraph { para_index, start_line, .. } => spec_line_vpos(
            ps,
            para_index as int,
            start_line as int,
        ),
        PageItem::EndnoteSeparator => None,
        _ => spec_line_vpos(ps, spec_page_item_para_index(item)->0 as int, 0),
    }
}

/// The stored position where the page item starts: the position of its first
/// line (a partial paragraph's start line), or none when the paragraph or line
/// is missing or the item is an endnote separator.
pub fn page_item_vpos_base(item: &PageItem, paragraphs: &Vec<Paragraph>) -> (r: Option<i32>)
    ensures
        r == spec_page_item_vpos_base(*item, paragraphs@),
{
    let (pi, line) = match item {
        PageItem::PartialParagraph { para_index, start_line, .. } => (*para_index, *start_line),
        PageItem::FullParagraph { para_index } => (*para_index, 0),
        PageItem::Table { para_index, .. } => (*para_index, 0),
        PageItem::PartialTable { para_index, .. } => (*para_index, 0),
        PageItem::Shape { para_index, .. } => (*para_index, 0),
        PageItem::EndnoteSeparator => {
            return None;
        },
    };
    if pi < paragraphs.len() && line < paragraphs[pi].line_segs.len() {
        Some(paragraphs[pi].line_segs[line].vertical_pos)
    } else {
        None
    }
}

/// The common attributes of a non-inline square-wrapped picture or shape.
pub open spec fn spec_non_tac_square_float_common(c: Control) -> Option<CommonObjAttr> {
    match c {
        Control::Picture(p) => if !p.common.treat_as_char && p.common.text_wrap is Square {
            Some(p.common)
        } else {
            None
        },
        Control::Shape(s) => if !s.common.treat_as_char && s.common.text_wrap is Square {
            Some(s.common)
        } else {
            None
        },
        _ => None,
    }
}

/// The common attributes of the control when it is a non-inline, square-wrapped
/// picture or shape of any kind.
pub fn non_tac_square_float_common(ctrl: &Control) -> (r: Option<&CommonObjAttr>)
    ensures
        match r {
            Some(c) => spec_non_tac_square_float_common(*ctrl) == Some(*c),
            None => spec_non_tac_square_float_common(*ctrl) is None,
        },
{
    let common = match ctrl {
        Control::Picture(pic) => &pic.common,
        Control::Shape(shape) => shape.common(),
        _ => {
            return None;
        },
    };
    if !common.treat_as_char && matches!(common.text_wrap, TextWrap::Square) {
        Some(common)
    } else {
        None
    }
}

/// The common attributes of a non-inline square-wrapped picture (a picture
/// control, or a shape drawn as a picture).
pub open spec fn spec_non_tac_square_picture_common(c: Control) -> Option<CommonObjAttr> {
    match c {
        Control::Picture(p) => if !p.common.treat_as_char && p.common.text_wrap is Square {
            Some(p.common)
        } else {
            None
        },
        Control::Shape(s) => if s.kind is Picture && !s.common.treat_as_char
            && s.common.text_wrap is Square {
            Some(s.common)
        } else {
            None
        },
        _ => None,
    }
}

/// The common attributes of the control when it is a non-inline square-wrapped
/// picture, whether a picture control or a shape drawn as a picture.
pub fn non_tac_square_picture_common(ctrl: &Control) -> (r: Option<&CommonObjAttr>)
    ensures
        match r {
            Some(c) => spec_non_tac_square_picture_common(*ctrl) == Some(*c),
            None => spec_non_tac_square_picture_common(*ctrl) is None,
        },
{
    let common = match ctrl {
        Control::Picture(pic) => &pic.common,
        Control::Shape(shape) => {
            if matches!(shape.kind, ShapeKind::Picture) {
                shape.common()
            } else {
                return None;
            }
        },
        _ => {
            return None;
        },
    };
    if !common.treat_as_char && matches!(common.text_wrap, TextWrap::Square) {
        Some(common)
    } else {
        None
    }
}

/// The position of the first square float at or after `i`.
pub open spec fn spec_first_square_float_from(cs: Seq<Control>, i: int) -> Option<int>
    decreases cs.len() - i,
{
    if i < 0 || i >= cs.len() {
        None
    } else if spec_non_tac_square_float_common(cs[i]) is Some {
        Some(i)
    } else {
        spec_first_square_float_from(cs, i + 1)
    }
}

/// The left lane that a single square float reaching the column's right edge
/// leaves for the text beside it.
pub open spec fn spec_square_float_left_lane_width(p: Paragraph, col_w: i32) -> Option<i32> {
    match spec_first_square_float_from(p.controls@, 0) {
        None => None,
        Some(k) => if spec_first_square_float_from(p.controls@, k + 1) is Some {
            None
        } else {
            let c = spec_non_tac_square_float_common(p.controls@[k])->0;
            let lane = spec_signed_hwpunit(c.horizontal_offset);
            let right = spec_clamp_i32(
                spec_clamp_i32(lane + spec_signed_hwpunit(c.width)) + c.margin.right as i32,
            );
            if !(c.horz_rel_to is Para || c.horz_rel_to is Column) {
                None
            } else if lane > 0 && lane < col_w && right >= col_w - 200 {
                Some(lane)
            } else {
                None
            }
        },
    }
}

proof fn lemma_first_square_float(cs: Seq<Control>, i: int)
    ensures
        spec_first_square_float_from(cs, i) matches Some(k) ==> i <= k < cs.len()
            && spec_non_tac_square_float_common(cs[k]) is Some,
    decreases cs.len() - i,
{
    if 0 <= i < cs.len() && spec_non_tac_square_float_common(cs[i]) is None {
        lemma_first_square_float(cs, i + 1);
    }
}

/// The position of the first square float at or after `from`.
pub fn first_square_float_from(cs: &Vec<Control>, from: usize) -> (r: Option<usize>)
    ensures
        match r {
            Some(k) => spec_first_square_float_from(cs@, from as int) == Some(k as int) && k
                < cs@.len(),
            None => spec_first_square_float_from(cs@, from as int) is None,
        },
{
    let mut k = from;
    while k < cs.len()
        invariant
            from <= k,
            spec_first_square_float_from(cs@, from as int) == spec_first_square_float_from(
                cs@,
                k as int,
            ),
        decreases cs@.len() - k,
    {
        if non_tac_square_float_common(&cs[k]).is_some() {
            return Some(k);
        }
        k += 1;
    }
    None
}

/// The width of the left lane beside the paragraph's single non-inline square
/// float, when that float is placed relative to the paragraph or column, starts
/// at a positive offset inside the column, and reaches (within 200 HWPUNIT) the
/// column's right edge: the lane is the float's horizontal offset.
pub fn square_float_left_lane_width(para: &Paragraph, col_w_hu: i32) -> (r: Option<i32>)
    ensures
        r == spec_square_float_left_lane_width(*para, col_w_hu),
{
    let k = match first_square_float_from(&para.controls, 0) {
        Some(k) => k,
        None => {
            return None;
        },
    };
    proof {
        lemma_first_square_float(para.controls@, 0);
    }
    let n = para.controls.len();
    assert(k < n);
    if first_square_float_from(&para.controls, k + 1).is_some() {
        return None;
    }
    let common = match non_tac_square_float_common(&para.controls[k]) {
        Some(c) => c,
        None => {
            return None;
        },
    };
    if !(matches!(common.horz_rel_to, HorzRelTo::Para) || matches!(
        common.horz_rel_to,
        HorzRelTo::Column
    )) {
        return None;
    }
    let lane = signed_hwpunit(common.horizontal_offset);
    let right_edge = sat_add_i32(
        sat_add_i32(lane, signed_hwpunit(common.width)),
        common.margin.right as i32,
    );
    if lane > 0 && lane < col_w_hu && right_edge >= col_w_hu - 200 {
        Some(lane)
    } else {
        None
    }
}

/// A stored segment inside the band `[start, end)` with the expected column
/// start and a width within 200 HWPUNIT of the expected one.
pub open spec fn spec_seg_in_band(
    s: crate::model::LineSeg,
    start: i32,
    end: i32,
    cs: i32,
    sw: i32,
) -> bool {
    &&& start <= s.vertical_pos
    &&& s.vertical_pos < end
    &&& s.column_start == cs
    &&& -200 <= s.segment_width - sw <= 200
}

/// Some segment of the paragraph lies in the band.
pub open spec fn spec_para_in_band(p: Paragraph, start: i32, end: i32, cs: i32, sw: i32) -> bool {
    exists|k: int|
        0 <= k < p.line_segs@.len() && spec_seg_in_band(#[trigger] p.line_segs@[k], start, end, cs, sw)
}

/// The number of consecutive paragraphs from `j` on that lie in the band.
pub open spec fn spec_band_run(ps: Seq<Paragraph>, j: int, start: i32, end: i32, cs: i32, sw: i32) -> nat
    decreases ps.len() - j,
{
    if j < 0 || j >= ps.len() || !spec_para_in_band(ps[j], start, end, cs, sw) {
        0
    } else {
        1 + spec_band_run(ps, j + 1, start, end, cs, sw)
    }
}

/// Whether some segment of the paragraph lies in the band.
pub fn para_in_band(p: &Paragraph, start: i32, end: i32, cs: i32, sw: i32) -> (r: bool)
    ensures
        r == spec_para_in_band(*p, start, end, cs, sw),
{
    let mut k: usize = 0;
    while k < p.line_segs.len()
        invariant
            k <= p.line_segs@.len(),
            forall|m: int|
                0 <= m < k ==> !spec_seg_in_band(#[trigger] p.line_segs@[m], start, end, cs, sw),
        decreases p.line_segs@.len() - k,
    {
        let s = &p.line_segs[k];
        let dw: i64 = s.segment_width as i64 - sw as i64;
        if start <= s.vertical_pos && s.vertical_pos < end && s.column_start == cs && -200 <= dw
            && dw <= 200 {
            return true;
        }
        k += 1;
    }
    false
}

/// The consecutive paragraphs, from `first_para_index` on, that belong to the
/// stored wrap band of a square picture: each has a stored segment whose
/// position lies in `[band_start_vpos, band_end_vpos)` with the expected column
/// start and a width within 200 HWPUNIT of the expected one.  The run stops at
/// the first paragraph outside the band; an empty band yields none.
pub fn square_picture_wrap_band_target_paragraphs(
    paragraphs: &Vec<Paragraph>,
    first_para_index: usize,
    band_start_vpos: i32,
    band_end_vpos: i32,
    expected_column_start: i32,
    expected_segment_width: i32,
) -> (r: Vec<usize>)
    ensures
        band_end_vpos <= band_start_vpos ==> r@.len() == 0,
        band_end_vpos > band_start_vpos ==> r@.len() == spec_band_run(
            paragraphs@,
            first_para_index as int,
            band_start_vpos,
            band_end_vpos,
            expected_column_start,
            expected_segment_width,
        ),
        forall|k: int| 0 <= k < r@.len() ==> #[trigger] r@[k] == first_para_index + k,
{
    let mut targets: Vec<usize> = Vec::new();
    if band_end_vpos <= band_start_vpos {
        return targets;
    }
    let mut j = first_para_index;
    while j < paragraphs.len()
        invariant
            first_para_index <= j,
            j > paragraphs@.len() ==> j == first_para_index,
            targets@.len() == j - first_para_index,
            forall|k: int| 0 <= k < targets@.len() ==> #[trigger] targets@[k] == first_para_index + k,
            spec_band_run(
                paragraphs@,
                first_para_index as int,
                band_start_vpos,
                band_end_vpos,
                expected_column_start,
                expected_segment_width,
            ) == targets@.len() + spec_band_run(
                paragraphs@,
                j as int,
                band_start_vpos,
                band_end_vpos,
                expected_column_start,
                expected_segment_width,
            ),
        decreases paragraphs@.len() - j,
    {
        if !para_in_band(
            &paragraphs[j],
            band_start_vpos,
            band_end_vpos,
            expected_column_start,
            expected_segment_width,
        ) {
            return targets;
        }
        targets.push(j);
        j += 1;
    }
    targets
}

/// Full-page images get a page each exactly when there are at least two and
/// they are a strict majority: exactly half is not enough.  (Twice the count is
/// saturated, so the one input on which this differs from exact arithmetic is a
/// picture count of `usize::MAX` with twice the image count beyond it.)
pub proof fn lemma_majority_is_strict(fullpage_count: usize, noninline_picture_count: usize)
    requires
        2 * fullpage_count <= usize::MAX || noninline_picture_count < usize::MAX,
    ensures
        spec_majority_fullpage_images(fullpage_count, noninline_picture_count) <==> (fullpage_count
            >= 2 && 2 * fullpage_count > noninline_picture_count),
{
}

/// The chain of stored tail fits past the budget never grows beyond the cap:
/// it advances only below the cap and breaks once it reaches it, and a line
/// that is no stored tail fit, or that an authoritative boundary admits, never
/// changes it.
pub proof fn lemma_tail_fit_chain_bounded(
    tail_fit_chain: usize,
    saved_tail_vpos_fit: bool,
    hwp_authoritative: bool,
    footnote_boundary: bool,
)
    ensures
        ({
            let d = spec_saved_tail_fit_chain_decision(
                tail_fit_chain,
                saved_tail_vpos_fit,
                hwp_authoritative,
                footnote_boundary,
            );
            &&& d is Advance ==> tail_fit_chain + 1 <= SAVED_TAIL_FIT_CHAIN_CAP
            &&& d is Break ==> tail_fit_chain >= SAVED_TAIL_FIT_CHAIN_CAP
            &&& (!saved_tail_vpos_fit || hwp_authoritative || footnote_boundary) ==> d is NoChange
        }),
{
}

/// Every paragraph of the band run lies in the band, and the run stops at the
/// first paragraph that does not (or at the end of the section).
pub proof fn lemma_band_run_members(
    ps: Seq<Paragraph>,
    j: int,
    start: i32,
    end: i32,
    cs: i32,
    sw: i32,
)
    requires
        0 <= j,
    ensures
        j + spec_band_run(ps, j, start, end, cs, sw) <= ps.len() || spec_band_run(
            ps,
            j,
            start,
            end,
            cs,
            sw,
        ) == 0,
        forall|k: int|
            0 <= k < spec_band_run(ps, j, start, end, cs, sw) ==> spec_para_in_band(
                #[trigger] ps[j + k],
                start,
                end,
                cs,
                sw,
            ),
        j + spec_band_run(ps, j, start, end, cs, sw) < ps.len() ==> !spec_para_in_band(
            ps[j + spec_band_run(ps, j, start, end, cs, sw)],
            start,
            end,
            cs,
            sw,
        ),
    decreases ps.len() - j,
{
    if j < ps.len() && spec_para_in_band(ps[j], start, end, cs, sw) {
        lemma_band_run_members(ps, j + 1, start, end, cs, sw);
        assert forall|k: int|
            0 <= k < spec_band_run(ps, j, start, end, cs, sw) implies spec_para_in_band(
            #[trigger] ps[j + k],
            start,
            end,
            cs,
            sw,
        ) by {
            if k > 0 {
                assert(ps[j + k] == ps[(j + 1) + (k - 1)]);
            }
        }
    }
}

/// A paragraph with blank text and no controls.
pub open spec fn spec_empty_only_para(ps: Seq<Paragraph>, i: usize) -> bool {
    i < ps.len() && spec_blank(ps[i as int].text@) && ps[i as int].controls@.len() == 0
}

/// An item that a page holding only a fresh table continuation may carry
/// besides the continuation: a (partial) paragraph that is empty.
pub open spec fn spec_fresh_continuation_page_item(item: PageItem, ps: Seq<Paragraph>) -> bool {
    match item {
        PageItem::PartialTable { is_continuation, .. } => is_continuation,
        PageItem::FullParagraph { para_index } => spec_empty_only_para(ps, para_index),
        PageItem::PartialParagraph { para_index, .. } => spec_empty_only_para(ps, para_index),
        _ => false,
    }
}

/// The page holds a continued table fragment and otherwise only empty paragraphs.
pub open spec fn spec_page_holds_only_fresh_table_continuation(
    items: Seq<PageItem>,
    filled_past_fresh_ratio: bool,
    ps: Seq<Paragraph>,
) -> bool {
    &&& items.len() > 0
    &&& !filled_past_fresh_ratio
    &&& forall|k: int| 0 <= k < items.len() ==> spec_fresh_continuation_page_item(#[trigger] items[k], ps)
    &&& exists|k: int|
        0 <= k < items.len() && (#[trigger] items[k] matches PageItem::PartialTable {
            is_continuation,
            ..
        } && is_continuation)
}

/// Whether the current page holds only the fresh continuation of a split table:
/// it is filled no further than the fresh-continuation ratio of the available
/// height (`filled_past_fresh_ratio` is that comparison, made on the measured
/// heights), it has a continued table fragment, and every other item is a
/// paragraph with blank text and no controls.
pub fn page_holds_only_fresh_table_continuation(
    current_items: &Vec<PageItem>,
    filled_past_fresh_ratio: bool,
    paragraphs: &Vec<Paragraph>,
) -> (r: bool)
    ensures
        r == spec_page_holds_only_fresh_table_continuation(
            current_items@,
            filled_past_fresh_ratio,
            paragraphs@,
        ),
{
    if current_items.len() == 0 || filled_past_fresh_ratio {
        return false;
    }
    let mut has_continuation = false;
    let mut k: usize = 0;
    while k < current_items.len()
        invariant
            k <= current_items@.len(),
            forall|j: int| 0 <= j < k ==> spec_fresh_continuation_page_item(#[trigger] current_items@[j], paragraphs@),
            has_continuation == exists|j: int|
                0 <= j < k && (#[trigger] current_items@[j] matches PageItem::PartialTable {
                    is_continuation,
                    ..
                } && is_continuation),
        decreases current_items@.len() - k,
    {
        let ok = match &current_items[k] {
            PageItem::PartialTable { is_continuation, .. } => {
                if *is_continuation {
                    has_continuation = true;
                    true
                } else {
                    false
                }
            },
            PageItem::FullParagraph { para_index } => *para_index < paragraphs.len() && is_blank(
                &paragraphs[*para_index].text,
            ) && paragraphs[*para_index].controls.len() == 0,
            PageItem::PartialParagraph { para_index, .. } => *para_index < paragraphs.len()
                && is_blank(&paragraphs[*para_index].text) && paragraphs[*para_index].controls.len()
                == 0,
            _ => false,
        };
        if !ok {
            return false;
        }
        k += 1;
    }
    has_continuation
}

} // verus!
