//! The square-wrap band of a non-inline square picture: which following
//! paragraphs flow beside it, and how the band is opened and closed.
use vstd::prelude::*;
use crate::layout::{
    non_tac_square_picture_common, paragraph_by_global_index, spec_non_tac_square_picture_common,
    spec_paragraph_by_global_index,
};
use crate::model::{spec_signed_hwpunit, Control, Paragraph};
use crate::text::{is_blank, spec_blank};

verus! {

/// The page width and side margins, in HWPUNIT.
#[derive(Debug, Clone, Copy, PartialEq, Eq, Default)]
pub struct PageDef {
    pub width: u32,
    pub margin_left: u32,
    pub margin_right: u32,
}

/// The square-wrap fields of the typesetter's state: the column start and
/// segment width of the active band (`-1` when no band is active), the
/// paragraph that anchors it, whether any stored segment of a following
/// paragraph may match, and whether the band was derived from the object's
/// own geometry.
#[derive(Debug, Clone, Copy, PartialEq, Eq)]
pub struct SquareWrapState {
    pub wrap_around_cs: i32,
    pub wrap_around_sw: i32,
    pub wrap_around_table_para: usize,
    pub wrap_around_any_seg: bool,
    pub wrap_around_derived_band: bool,
}

/// A paragraph that flows beside a square picture: the anchor paragraph, the
/// band's column start and width, and the picture's right margin.
#[derive(Debug, Clone, Copy, PartialEq, Eq)]
pub struct WrapAnchorRef {
    pub anchor_para_index: usize,
    pub anchor_cs: i32,
    pub anchor_sw: i32,
    pub anchor_image_margin_right: i32,
}

/// The position of the first non-inline square picture at or after `i`.
pub open spec fn spec_first_square_picture_from(cs: Seq<Control>, i: int) -> Option<int>
    decreases cs.len() - i,
{
    if i < 0 || i >= cs.len() {
        None
    } else if spec_non_tac_square_picture_common(cs[i]) is Some {
        Some(i)
    } else {
        spec_first_square_picture_from(cs, i + 1)
    }
}

proof fn lemma_first_square_picture(cs: Seq<Control>, i: int)
    ensures
        spec_first_square_picture_from(cs, i) matches Some(k) ==> i <= k < cs.len()
            && spec_non_tac_square_picture_common(cs[k]) is Some,
    decreases cs.len() - i,
{
    if 0 <= i < cs.len() && spec_non_tac_square_picture_common(cs[i]) is None {
        lemma_first_square_picture(cs, i + 1);
    }
}

/// The first stored segment's column start and width of a paragraph (0 when it has none).
pub open spec fn spec_first_seg_cs(p: Paragraph) -> int {
    if p.line_segs@.len() > 0 {
        p.line_segs@[0].column_start as int
    } else {
        0
    }
}

pub open spec fn spec_first_seg_sw(p: Paragraph) -> int {
    if p.line_segs@.len() > 0 {
        p.line_segs@[0].segment_width as int
    } else {
        0
    }
}

/// The body width of the page: its width less both side margins.
pub open spec fn spec_body_width(page: PageDef) -> int {
    spec_signed_hwpunit(page.width) - spec_signed_hwpunit(page.margin_left) - spec_signed_hwpunit(
        page.margin_right,
    )
}

/// The column start that a paragraph flowing right of the anchor's first
/// square picture is expected to have: the picture's right edge plus twice its
/// right margin, measured from the body's left edge (0 without such a picture).
pub open spec fn spec_expected_image_cs(anchor: Paragraph, page: PageDef) -> int {
    match spec_first_square_picture_from(anchor.controls@, 0) {
        Some(k) => {
            let c = spec_non_tac_square_picture_common(anchor.controls@[k])->0;
            spec_signed_hwpunit(c.horizontal_offset) + spec_signed_hwpunit(c.width) + 2
                * c.margin.right - spec_signed_hwpunit(page.margin_left)
        },
        None => 0,
    }
}

/// Whether the paragraph continues the active square-wrap band.
pub open spec fn spec_continues_square_band(
    st: SquareWrapState,
    anchor: Paragraph,
    para: Paragraph,
    page: PageDef,
) -> bool {
    let para_cs = spec_first_seg_cs(para);
    let para_sw = spec_first_seg_sw(para);
    let is_empty = spec_blank(para.text@) && para.controls@.len() == 0;
    let any_seg = exists|k: int|
        0 <= k < para.line_segs@.len() && (#[trigger] para.line_segs@[k]).column_start
            == st.wrap_around_cs && para.line_segs@[k].segment_width == st.wrap_around_sw;
    let body_w = spec_body_width(page);
    let sw0 = st.wrap_around_sw == 0 && is_empty && para_sw > 0 && body_w > 1 && para_sw < body_w
        / 2;
    let expected = spec_expected_image_cs(anchor, page);
    let image = st.wrap_around_cs == 0 && expected > 0 && -200 < para_cs - expected < 200 && para_sw
        > 0 && para_cs + para_sw <= body_w + 200;
    let cs_only = st.wrap_around_any_seg && para_cs == st.wrap_around_cs && para_sw > 0;
    ||| (para_cs == st.wrap_around_cs && para_sw == st.wrap_around_sw)
    ||| (any_seg && (is_empty || st.wrap_around_any_seg))
    ||| sw0
    ||| image
    ||| cs_only
}

/// The wrap anchor that the paragraph gets from the active band.
pub open spec fn spec_square_picture_wrap_anchor(
    st: SquareWrapState,
    body: Seq<Paragraph>,
    endnotes: Seq<Paragraph>,
    para: Paragraph,
    page: PageDef,
) -> Option<WrapAnchorRef> {
    if st.wrap_around_cs < 0 {
        None
    } else {
        match spec_paragraph_by_global_index(body, endnotes, st.wrap_around_table_para as int) {
            None => None,
            Some(anchor) => if !spec_continues_square_band(st, anchor, para, page) {
                None
            } else {
                match spec_first_square_picture_from(anchor.controls@, 0) {
                    None => None,
                    Some(k) => Some(
                        WrapAnchorRef {
                            anchor_para_index: st.wrap_around_table_para,
                            anchor_cs: st.wrap_around_cs,
                            anchor_sw: st.wrap_around_sw,
                            anchor_image_margin_right: spec_non_tac_square_picture_common(
                                anchor.controls@[k],
                            )->0.margin.right as i32,
                        },
                    ),
                }
            },
        }
    }
}

/// The position of the first non-inline square picture.
fn first_square_picture(cs: &Vec<Control>) -> (r: Option<usize>)
    ensures
        match r {
            Some(k) => spec_first_square_picture_from(cs@, 0) == Some(k as int) && k < cs@.len(),
            None => spec_first_square_picture_from(cs@, 0) is None,
        },
{
    let mut k: usize = 0;
    while k < cs.len()
        invariant
            k <= cs@.len(),
            spec_first_square_picture_from(cs@, 0) == spec_first_square_picture_from(cs@, k as int),
        decreases cs@.len() - k,
    {
        if non_tac_square_picture_common(&cs[k]).is_some() {
            return Some(k);
        }
        k += 1;
    }
    None
}

/// Whether some stored segment of the paragraph has the band's column start and width.
fn any_seg_matches(para: &Paragraph, cs: i32, sw: i32) -> (r: bool)
    ensures
        r == exists|k: int|
            0 <= k < para.line_segs@.len() && (#[trigger] para.line_segs@[k]).column_start == cs
                && para.line_segs@[k].segment_width == sw,
{
    let mut k: usize = 0;
    while k < para.line_segs.len()
        invariant
            k <= para.line_segs@.len(),
            forall|j: int|
                0 <= j < k ==> !((#[trigger] para.line_segs@[j]).column_start == cs
                    && para.line_segs@[j].segment_width == sw),
        decreases para.line_segs@.len() - k,
    {
        if para.line_segs[k].column_start == cs && para.line_segs[k].segment_width == sw {
            return true;
        }
        k += 1;
    }
    false
}

/// The wrap anchor of a paragraph that follows a square picture while its band
/// is active: the paragraph continues the band when its first stored segment
/// has the band's column start and width; or some stored segment does and the
/// paragraph is empty or the band accepts any segment; or the band has no
/// width and the empty paragraph is narrower than half the body; or (for a
/// band at column start 0) its first segment starts within 200 HWPUNIT of the
/// column right of the anchor's picture and fits the body; or the band accepts
/// any segment and the column start matches.  The anchor paragraph is found by
/// its global index among the body and endnote paragraphs, and must still hold
/// a non-inline square picture, whose right margin the anchor carries.
pub fn square_picture_wrap_anchor_for_para(
    st: &SquareWrapState,
    endnote_paragraphs: &Vec<Paragraph>,
    body_paragraphs: &Vec<Paragraph>,
    para: &Paragraph,
    page_def: &PageDef,
) -> (r: Option<WrapAnchorRef>)
    ensures
        r == spec_square_picture_wrap_anchor(
            *st,
            body_paragraphs@,
            endnote_paragraphs@,
            *para,
            *page_def,
        ),
{
    if st.wrap_around_cs < 0 {
        return None;
    }
    let para_cs: i64 = if para.line_segs.len() > 0 {
        para.line_segs[0].column_start as i64
    } else {
        0
    };
    let para_sw: i64 = if para.line_segs.len() > 0 {
        para.line_segs[0].segment_width as i64
    } else {
        0
    };
    let is_empty_para = is_blank(&para.text) && para.controls.len() == 0;
    let any_seg = any_seg_matches(para, st.wrap_around_cs, st.wrap_around_sw);
    let body_w: i64 = (page_def.width as i32) as i64 - (page_def.margin_left as i32) as i64 - (
    page_def.margin_right as i32) as i64;
    let sw0_match = st.wrap_around_sw == 0 && is_empty_para && para_sw > 0 && body_w > 1 && para_sw
        < body_w / 2;
    let anchor_para = match paragraph_by_global_index(
        body_paragraphs,
        endnote_paragraphs,
        st.wrap_around_table_para,
    ) {
        Some(a) => a,
        None => {
            return None;
        },
    };
    let pic = first_square_picture(&anchor_para.controls);
    proof {
        lemma_first_square_picture(anchor_para.controls@, 0);
    }
    let anchor_image_match = if st.wrap_around_cs == 0 {
        let expected: i64 = match pic {
            Some(k) => {
                let common = non_tac_square_picture_common(&anchor_para.controls[k]);
                match common {
                    Some(c) => (c.horizontal_offset as i32) as i64 + (c.width as i32) as i64 + 2
                        * (c.margin.right as i64) - (page_def.margin_left as i32) as i64,
                    None => 0,
                }
            },
            None => 0,
        };
        expected > 0 && -200 < para_cs - expected && para_cs - expected < 200 && para_sw > 0
            && para_cs + para_sw <= body_w + 200
    } else {
        false
    };
    let cs_only_match = st.wrap_around_any_seg && para_cs == st.wrap_around_cs as i64 && para_sw > 0;
    let matched = (para_cs == st.wrap_around_cs as i64 && para_sw == st.wrap_around_sw as i64) || (
    any_seg && (is_empty_para || st.wrap_around_any_seg)) || sw0_match || anchor_image_match
        || cs_only_match;
    if !matched {
        return None;
    }
    match pic {
        Some(k) => match non_tac_square_picture_common(&anchor_para.controls[k]) {
            Some(c) => Some(
                WrapAnchorRef {
                    anchor_para_index: st.wrap_around_table_para,
                    anchor_cs: st.wrap_around_cs,
                    anchor_sw: st.wrap_around_sw,
                    anchor_image_margin_right: c.margin.right as i32,
                },
            ),
            None => None,
        },
        None => None,
    }
}

/// What registering a paragraph against the square-wrap band did.
#[derive(Debug, Clone, Copy, PartialEq, Eq)]
pub enum SquareWrapStep {
    /// No band is active; nothing changed.
    Inactive,
    /// The paragraph continues the band: the caller records this anchor for it.
    Anchored(WrapAnchorRef),
    /// The paragraph ends the band: the band was cleared, and the caller
    /// closes the band's reserved height.
    Closed,
}

/// The state with the band cleared.
pub open spec fn spec_cleared(st: SquareWrapState) -> SquareWrapState {
    SquareWrapState {
        wrap_around_cs: -1i32,
        wrap_around_sw: -1i32,
        wrap_around_any_seg: false,
        wrap_around_derived_band: false,
        ..st
    }
}

/// Registers a paragraph against the active square-wrap band: with no active
/// band nothing changes; a paragraph that continues the band is anchored to
/// it; any other paragraph clears the band.
pub fn maybe_register_square_picture_wrap_anchor(
    st: &mut SquareWrapState,
    endnote_paragraphs: &Vec<Paragraph>,
    body_paragraphs: &Vec<Paragraph>,
    para: &Paragraph,
    page_def: &PageDef,
) -> (r: SquareWrapStep)
    ensures
        old(st).wrap_around_cs < 0 ==> r == SquareWrapStep::Inactive && *final(st) == *old(st),
        old(st).wrap_around_cs >= 0 ==> match spec_square_picture_wrap_anchor(
            *old(st),
            body_paragraphs@,
            endnote_paragraphs@,
            *para,
            *page_def,
        ) {
            Some(a) => r == SquareWrapStep::Anchored(a) && *final(st) == *old(st),
            None => r == SquareWrapStep::Closed && *final(st) == spec_cleared(*old(st)),
        },
{
    if st.wrap_around_cs < 0 {
        return SquareWrapStep::Inactive;
    }
    match square_picture_wrap_anchor_for_para(st, endnote_paragraphs, body_paragraphs, para, page_def) {
        Some(anchor) => SquareWrapStep::Anchored(anchor),
        None => {
            st.wrap_around_cs = -1;
            st.wrap_around_sw = -1;
            st.wrap_around_any_seg = false;
            st.wrap_around_derived_band = false;
            SquareWrapStep::Closed
        },
    }
}

/// Whether some control of the paragraph is a non-inline square picture.
pub open spec fn spec_has_square_picture(p: Paragraph) -> bool {
    spec_first_square_picture_from(p.controls@, 0) is Some
}

/// The state after a paragraph with a square picture opens a band.
pub open spec fn spec_activated(st: SquareWrapState, para_index: usize, p: Paragraph) -> SquareWrapState {
    let cs = spec_first_seg_cs(p);
    let sw = spec_first_seg_sw(p);
    if spec_has_square_picture(p) && (cs > 0 || sw > 0) {
        SquareWrapState {
            wrap_around_cs: cs as i32,
            wrap_around_sw: sw as i32,
            wrap_around_table_para: para_index,
            wrap_around_any_seg: true,
            wrap_around_derived_band: false,
        }
    } else {
        st
    }
}

/// Opens a square-wrap band at a paragraph that holds a non-inline square
/// picture, when its first stored segment has a positive column start or
/// width: the band takes that column start and width, any stored segment of a
/// following paragraph may match, and the paragraph becomes the band's anchor.
/// Otherwise the state is unchanged.
pub fn activate_square_picture_wrap_for_para(
    st: &mut SquareWrapState,
    para_index: usize,
    para: &Paragraph,
)
    ensures
        *final(st) == spec_activated(*old(st), para_index, *para),
{
    if first_square_picture(&para.controls).is_none() {
        return;
    }
    let anchor_cs: i32 = if para.line_segs.len() > 0 {
        para.line_segs[0].column_start
    } else {
        0
    };
    let anchor_sw: i32 = if para.line_segs.len() > 0 {
        para.line_segs[0].segment_width
    } else {
        0
    };
    if anchor_cs > 0 || anchor_sw > 0 {
        st.wrap_around_cs = anchor_cs;
        st.wrap_around_sw = anchor_sw;
        st.wrap_around_table_para = para_index;
        st.wrap_around_any_seg = true;
        st.wrap_around_derived_band = false;
    }
}

/// A band opened at a paragraph anchors that paragraph's own continuation: a
/// later paragraph whose first stored segment has the band's column start and
/// width continues the band, provided the anchor paragraph is found again and
/// still holds its square picture.
pub proof fn lemma_activated_band_anchors_matching_paragraph(
    st: SquareWrapState,
    para_index: usize,
    anchor: Paragraph,
    body: Seq<Paragraph>,
    endnotes: Seq<Paragraph>,
    next: Paragraph,
    page: PageDef,
)
    requires
        spec_has_square_picture(anchor),
        spec_first_seg_cs(anchor) > 0 || spec_first_seg_sw(anchor) > 0,
        spec_first_seg_cs(anchor) >= 0,
        spec_paragraph_by_global_index(body, endnotes, para_index as int) == Some(anchor),
        spec_first_seg_cs(next) == spec_first_seg_cs(anchor),
        spec_first_seg_sw(next) == spec_first_seg_sw(anchor),
    ensures
        spec_square_picture_wrap_anchor(
            spec_activated(st, para_index, anchor),
            body,
            endnotes,
            next,
            page,
        ) is Some,
{
}

proof fn lemma_square_picture_found(cs: Seq<Control>, i: int, k: int)
    requires
        0 <= i <= k < cs.len(),
        spec_non_tac_square_picture_common(cs[k]) is Some,
    ensures
        spec_first_square_picture_from(cs, i) is Some,
    decreases k - i,
{
    if spec_non_tac_square_picture_common(cs[i]) is None {
        lemma_square_picture_found(cs, i + 1, k);
    }
}

/// While a band that accepts any segment is active, a paragraph whose first
/// stored segment starts at the band's column start, with any positive width,
/// flows beside the picture: it is anchored to the band (anchor paragraph,
/// column start and width of the band), provided the anchor paragraph is found
/// and still holds a non-inline square picture.
pub proof fn lemma_same_start_continues_open_band(
    st: SquareWrapState,
    body: Seq<Paragraph>,
    endnotes: Seq<Paragraph>,
    anchor: Paragraph,
    k: int,
    para: Paragraph,
    page: PageDef,
)
    requires
        st.wrap_around_cs >= 0,
        st.wrap_around_any_seg,
        spec_paragraph_by_global_index(body, endnotes, st.wrap_around_table_para as int) == Some(
            anchor,
        ),
        0 <= k < anchor.controls@.len(),
        spec_non_tac_square_picture_common(anchor.controls@[k]) is Some,
        para.line_segs@.len() > 0,
        para.line_segs@[0].column_start == st.wrap_around_cs,
        para.line_segs@[0].segment_width > 0,
    ensures
        spec_square_picture_wrap_anchor(st, body, endnotes, para, page) matches Some(a) && a.anchor_para_index
            == st.wrap_around_table_para && a.anchor_cs == st.wrap_around_cs && a.anchor_sw
            == st.wrap_around_sw,
{
    lemma_square_picture_found(anchor.controls@, 0, k);
}

/// While a band is active, a paragraph whose first stored segment has exactly
/// the band's column start and width continues it, provided the anchor
/// paragraph is found and still holds a non-inline square picture.
pub proof fn lemma_same_geometry_continues_band(
    st: SquareWrapState,
    body: Seq<Paragraph>,
    endnotes: Seq<Paragraph>,
    anchor: Paragraph,
    k: int,
    para: Paragraph,
    page: PageDef,
)
    requires
        st.wrap_around_cs >= 0,
        spec_paragraph_by_global_index(body, endnotes, st.wrap_around_table_para as int) == Some(
            anchor,
        ),
        0 <= k < anchor.controls@.len(),
        spec_non_tac_square_picture_common(anchor.controls@[k]) is Some,
        para.line_segs@.len() > 0,
        para.line_segs@[0].column_start == st.wrap_around_cs,
        para.line_segs@[0].segment_width == st.wrap_around_sw,
    ensures
        spec_square_picture_wrap_anchor(st, body, endnotes, para, page) is Some,
{
    lemma_square_picture_found(anchor.controls@, 0, k);
}

/// An anchor is only ever given by an active band whose anchor paragraph is
/// found and holds a non-inline square picture; it names the band's anchor
/// paragraph, column start and width, and the right margin of the first such
/// picture.
pub proof fn lemma_wrap_anchor_comes_from_the_band(
    st: SquareWrapState,
    body: Seq<Paragraph>,
    endnotes: Seq<Paragraph>,
    para: Paragraph,
    page: PageDef,
)
    requires
        spec_square_picture_wrap_anchor(st, body, endnotes, para, page) is Some,
    ensures
        ({
            let a = spec_square_picture_wrap_anchor(st, body, endnotes, para, page)->0;
            &&& st.wrap_around_cs >= 0
            &&& a.anchor_para_index == st.wrap_around_table_para
            &&& a.anchor_cs == st.wrap_around_cs
            &&& a.anchor_sw == st.wrap_around_sw
            &&& exists|anchor: Paragraph, k: int|
                spec_paragraph_by_global_index(body, endnotes, st.wrap_around_table_para as int)
                    == Some(anchor) && 0 <= k < anchor.controls@.len() && ((
                #[trigger] spec_non_tac_square_picture_common(anchor.controls@[k])) matches Some(c)
                    && a.anchor_image_margin_right == c.margin.right as i32)
        }),
{
    let anchor = spec_paragraph_by_global_index(
        body,
        endnotes,
        st.wrap_around_table_para as int,
    )->0;
    lemma_first_square_picture(anchor.controls@, 0);
    let k = spec_first_square_picture_from(anchor.controls@, 0)->0;
    assert(spec_non_tac_square_picture_common(anchor.controls@[k]) is Some);
}

} // verus!
