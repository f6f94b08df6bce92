//! What a paragraph holds: visible text, inline or floating objects, and the
//! anchor shapes that the typesetter treats specially.
use vstd::prelude::*;
use crate::model::{
    is_page_bottom_fixed_float, is_para_topbottom_float, signed_hwpunit, spec_object_common,
    spec_page_bottom_fixed_float, spec_para_topbottom_float, spec_picture_or_shape_common,
    spec_signed_hwpunit, AutoNumberType, ColumnBreakType, CommonObjAttr, Control, Paragraph,
    Picture, TextWrap, VertRelTo,
};
use crate::text::{
    count_non_whitespace, has_non_whitespace, has_visible, is_blank, skip_whitespace, spec_blank,
    spec_count_non_ws, spec_has_non_whitespace, spec_has_visible, spec_trim_start,
};

verus! {

/// The paragraph's text has a visible character.
pub open spec fn spec_para_visible(p: Paragraph) -> bool {
    spec_has_visible(p.text@)
}

/// The paragraph's text has a visible, non-white-space character.
pub open spec fn spec_para_non_whitespace(p: Paragraph) -> bool {
    spec_has_non_whitespace(p.text@)
}

/// Whether the paragraph's text has a visible character.
pub fn para_has_visible_text(para: &Paragraph) -> (r: bool)
    ensures
        r == spec_para_visible(*para),
{
    has_visible(&para.text)
}

/// Whether the paragraph's text has a visible character other than white space.
pub fn para_has_non_whitespace_text(para: &Paragraph) -> (r: bool)
    ensures
        r == spec_para_non_whitespace(*para),
{
    has_non_whitespace(&para.text)
}

/// A paragraph that may take the one-shot strict plain-text fit: it has
/// non-white-space text and no controls.
pub open spec fn spec_strict_plain_text_fit_eligible(p: Paragraph) -> bool {
    spec_para_non_whitespace(p) && p.controls@.len() == 0
}

/// Consumes the one-shot strict plain-text fit that an empty-host float table
/// leaves pending: it is taken by the next paragraph with non-white-space text
/// and no controls, and only once.
pub fn take_strict_plain_text_fit_after_empty_host_float_once(
    pending: &mut bool,
    para: &Paragraph,
) -> (r: bool)
    ensures
        r == (*old(pending) && spec_strict_plain_text_fit_eligible(*para)),
        *final(pending) == (*old(pending) && !r),
{
    if !*pending || !para_has_non_whitespace_text(para) || para.controls.len() != 0 {
        return false;
    }
    *pending = false;
    true
}

/// A table control that is a paragraph-relative top-and-bottom float with a
/// non-positive vertical offset.
pub open spec fn spec_non_positive_topbottom_table(c: Control) -> bool {
    match c {
        Control::Table(t) => spec_para_topbottom_float(t.common) && spec_signed_hwpunit(
            t.common.vertical_offset,
        ) <= 0,
        _ => false,
    }
}

/// Whether a control after `control_index` is a paragraph-relative
/// top-and-bottom table float whose vertical offset is not positive.
pub fn has_following_non_positive_visible_float(para: &Paragraph, control_index: usize) -> (r: bool)
    requires
        control_index < usize::MAX,
    ensures
        r == exists|i: int|
            control_index < i < para.controls@.len() && spec_non_positive_topbottom_table(
                #[trigger] para.controls@[i],
            ),
{
    let mut i = control_index + 1;
    while i < para.controls.len()
        invariant
            control_index < i,
            forall|j: int|
                control_index < j < i && j < para.controls@.len()
                    ==> !spec_non_positive_topbottom_table(#[trigger] para.controls@[j]),
        decreases para.controls@.len() - i,
    {
        match &para.controls[i] {
            Control::Table(t) => {
                if is_para_topbottom_float(&t.common) && signed_hwpunit(t.common.vertical_offset)
                    <= 0 {
                    return true;
                }
            },
            _ => {},
        }
        i += 1;
    }
    false
}

/// A non-inline table drawn in front of or behind the text.
pub open spec fn spec_overlay_table(c: Control) -> bool {
    match c {
        Control::Table(t) => !t.common.treat_as_char && (t.common.text_wrap is InFrontOfText
            || t.common.text_wrap is BehindText),
        _ => false,
    }
}

/// Whether the paragraph has no non-white-space text and anchors a non-inline
/// table drawn in front of or behind the text.
#[verifier::loop_isolation(false)]
pub fn para_is_non_tac_overlay_table_anchor(para: &Paragraph) -> (r: bool)
    ensures
        r == (!spec_para_non_whitespace(*para) && exists|i: int|
            0 <= i < para.controls@.len() && spec_overlay_table(#[trigger] para.controls@[i])),
{
    if para_has_non_whitespace_text(para) {
        return false;
    }
    let mut i: usize = 0;
    while i < para.controls.len()
        invariant
            i <= para.controls@.len(),
            forall|j: int| 0 <= j < i ==> !spec_overlay_table(#[trigger] para.controls@[j]),
        decreases para.controls@.len() - i,
    {
        match &para.controls[i] {
            Control::Table(t) => {
                if !t.common.treat_as_char && (matches!(t.common.text_wrap, TextWrap::InFrontOfText)
                    || matches!(t.common.text_wrap, TextWrap::BehindText)) {
                    assert(spec_overlay_table(para.controls@[i as int]));
                    return true;
                }
            },
            _ => {},
        }
        i += 1;
    }
    false
}

/// A table control that is a paragraph-relative top-and-bottom float.
pub open spec fn spec_topbottom_table(c: Control) -> bool {
    match c {
        Control::Table(t) => spec_para_topbottom_float(t.common),
        _ => false,
    }
}

/// Whether some control of the paragraph is a paragraph-relative top-and-bottom table float.
pub fn para_has_topbottom_table(para: &Paragraph) -> (r: bool)
    ensures
        r == exists|i: int|
            0 <= i < para.controls@.len() && spec_topbottom_table(#[trigger] para.controls@[i]),
{
    let mut i: usize = 0;
    while i < para.controls.len()
        invariant
            i <= para.controls@.len(),
            forall|j: int| 0 <= j < i ==> !spec_topbottom_table(#[trigger] para.controls@[j]),
        decreases para.controls@.len() - i,
    {
        match &para.controls[i] {
            Control::Table(t) => {
                if is_para_topbottom_float(&t.common) {
                    return true;
                }
            },
            _ => {},
        }
        i += 1;
    }
    false
}

/// Whether the paragraph has no visible text and anchors a paragraph-relative
/// top-and-bottom table float.
pub fn para_is_empty_topbottom_table_anchor(para: &Paragraph) -> (r: bool)
    ensures
        r == (!spec_para_visible(*para) && exists|i: int|
            0 <= i < para.controls@.len() && spec_topbottom_table(#[trigger] para.controls@[i])),
{
    !para_has_visible_text(para) && para_has_topbottom_table(para)
}

/// An inline (treat-as-char) table.
pub open spec fn spec_tac_table(c: Control) -> bool {
    match c {
        Control::Table(t) => t.common.treat_as_char,
        _ => false,
    }
}

/// Whether the paragraph has no visible text and holds an inline table.
#[verifier::loop_isolation(false)]
pub fn para_is_empty_tac_table_anchor(para: &Paragraph) -> (r: bool)
    ensures
        r == (!spec_para_visible(*para) && exists|i: int|
            0 <= i < para.controls@.len() && spec_tac_table(#[trigger] para.controls@[i])),
{
    if para_has_visible_text(para) {
        return false;
    }
    let mut i: usize = 0;
    while i < para.controls.len()
        invariant
            i <= para.controls@.len(),
            forall|j: int| 0 <= j < i ==> !spec_tac_table(#[trigger] para.controls@[j]),
        decreases para.controls@.len() - i,
    {
        match &para.controls[i] {
            Control::Table(t) => {
                if t.common.treat_as_char {
                    assert(spec_tac_table(para.controls@[i as int]));
                    return true;
                }
            },
            _ => {},
        }
        i += 1;
    }
    false
}

/// An inline (treat-as-char) equation.
pub open spec fn spec_tac_equation(c: Control) -> bool {
    match c {
        Control::Equation(e) => e.common.treat_as_char,
        _ => false,
    }
}

/// Whether the control is present and is an inline equation.
pub fn is_treat_as_char_equation_control(ctrl: Option<&Control>) -> (r: bool)
    ensures
        r == match ctrl {
            Some(c) => spec_tac_equation(*c),
            None => false,
        },
{
    match ctrl {
        Some(Control::Equation(e)) => e.common.treat_as_char,
        _ => false,
    }
}

/// Some control of the paragraph is an inline equation.
pub open spec fn spec_para_has_tac_equation(p: Paragraph) -> bool {
    exists|i: int| 0 <= i < p.controls@.len() && spec_tac_equation(#[trigger] p.controls@[i])
}

/// Whether some control of the paragraph is an inline equation.
pub fn para_has_tac_equation(para: &Paragraph) -> (r: bool)
    ensures
        r == spec_para_has_tac_equation(*para),
{
    let mut i: usize = 0;
    while i < para.controls.len()
        invariant
            i <= para.controls@.len(),
            forall|j: int| 0 <= j < i ==> !spec_tac_equation(#[trigger] para.controls@[j]),
        decreases para.controls@.len() - i,
    {
        if is_treat_as_char_equation_control(Some(&para.controls[i])) {
            return true;
        }
        i += 1;
    }
    false
}

/// Whether the paragraph has visible text or an inline equation.
pub fn para_has_visible_text_or_equation(para: &Paragraph) -> (r: bool)
    ensures
        r == (spec_para_visible(*para) || spec_para_has_tac_equation(*para)),
{
    para_has_visible_text(para) || para_has_tac_equation(para)
}

/// Whether the paragraph has both visible text and an inline equation.
pub fn para_has_visible_text_and_treat_as_char_equation(para: &Paragraph) -> (r: bool)
    ensures
        r == (spec_para_visible(*para) && spec_para_has_tac_equation(*para)),
{
    para_has_visible_text(para) && para_has_tac_equation(para)
}

/// An auto-number control that counts endnotes.
pub open spec fn spec_endnote_autonumber(c: Control) -> bool {
    match c {
        Control::AutoNumber(n) => n.number_type is Endnote,
        _ => false,
    }
}

/// Whether the paragraph is an automatically made endnote heading: an endnote
/// auto-number with at most one visible, non-white-space character of text.
#[verifier::loop_isolation(false)]
pub fn para_is_short_auto_endnote_marker(para: &Paragraph) -> (r: bool)
    ensures
        r == (spec_count_non_ws(para.text@) <= 1 && exists|i: int|
            0 <= i < para.controls@.len() && spec_endnote_autonumber(#[trigger] para.controls@[i])),
{
    if count_non_whitespace(&para.text) > 1 {
        return false;
    }
    let mut i: usize = 0;
    while i < para.controls.len()
        invariant
            i <= para.controls@.len(),
            forall|j: int| 0 <= j < i ==> !spec_endnote_autonumber(#[trigger] para.controls@[j]),
        decreases para.controls@.len() - i,
    {
        match &para.controls[i] {
            Control::AutoNumber(n) => {
                if matches!(n.number_type, AutoNumberType::Endnote) {
                    assert(spec_endnote_autonumber(para.controls@[i as int]));
                    return true;
                }
            },
            _ => {},
        }
        i += 1;
    }
    false
}

/// An inline (treat-as-char) picture or shape.
pub open spec fn spec_tac_picture_or_shape(c: Control) -> bool {
    match c {
        Control::Picture(p) => p.common.treat_as_char,
        Control::Shape(s) => s.common.treat_as_char,
        _ => false,
    }
}

/// Whether the control is an inline picture or shape.
pub fn is_tac_picture_or_shape(c: &Control) -> (r: bool)
    ensures
        r == spec_tac_picture_or_shape(*c),
{
    match c {
        Control::Picture(p) => p.common.treat_as_char,
        Control::Shape(s) => s.common().treat_as_char,
        _ => false,
    }
}

/// Some control of the paragraph is an inline picture or shape.
pub open spec fn spec_para_has_tac_picture_or_shape(p: Paragraph) -> bool {
    exists|i: int|
        0 <= i < p.controls@.len() && spec_tac_picture_or_shape(#[trigger] p.controls@[i])
}

/// Whether some control of the paragraph is an inline picture or shape.
pub fn para_has_treat_as_char_picture_or_shape(para: &Paragraph) -> (r: bool)
    ensures
        r == spec_para_has_tac_picture_or_shape(*para),
{
    let mut i: usize = 0;
    while i < para.controls.len()
        invariant
            i <= para.controls@.len(),
            forall|j: int| 0 <= j < i ==> !spec_tac_picture_or_shape(#[trigger] para.controls@[j]),
        decreases para.controls@.len() - i,
    {
        if is_tac_picture_or_shape(&para.controls[i]) {
            return true;
        }
        i += 1;
    }
    false
}

/// Whether the paragraph has no visible text and holds an inline picture or shape.
pub fn para_is_treat_as_char_picture_only(para: &Paragraph) -> (r: bool)
    ensures
        r == (!spec_para_visible(*para) && spec_para_has_tac_picture_or_shape(*para)),
{
    !para_has_visible_text(para) && para_has_treat_as_char_picture_or_shape(para)
}

/// The paragraph's visible payload is inline pictures or shapes and nothing else.
pub open spec fn spec_only_tac_picture_or_shape(p: Paragraph) -> bool {
    &&& !spec_para_visible(p)
    &&& p.controls@.len() > 0
    &&& forall|i: int|
        0 <= i < p.controls@.len() ==> spec_tac_picture_or_shape(#[trigger] p.controls@[i])
}

/// Whether the paragraph has no visible text, some controls, and every control
/// is an inline picture or shape.
#[verifier::loop_isolation(false)]
pub fn para_has_only_treat_as_char_picture_or_shape(para: &Paragraph) -> (r: bool)
    ensures
        r == spec_only_tac_picture_or_shape(*para),
{
    if para_has_visible_text(para) || para.controls.len() == 0 {
        return false;
    }
    let mut i: usize = 0;
    while i < para.controls.len()
        invariant
            i <= para.controls@.len(),
            forall|j: int| 0 <= j < i ==> spec_tac_picture_or_shape(#[trigger] para.controls@[j]),
        decreases para.controls@.len() - i,
    {
        if !is_tac_picture_or_shape(&para.controls[i]) {
            return false;
        }
        i += 1;
    }
    true
}

/// The common attributes of a non-inline picture or shape.
pub open spec fn spec_non_tac_picture_or_shape_common(c: Control) -> Option<CommonObjAttr> {
    match spec_picture_or_shape_common(c) {
        Some(common) => if !common.treat_as_char {
            Some(common)
        } else {
            None
        },
        None => None,
    }
}

/// The common attributes of the control when it is a non-inline picture or shape.
pub fn non_tac_picture_or_shape_common(ctrl: &Control) -> (r: Option<&CommonObjAttr>)
    ensures
        match r {
            Some(c) => spec_non_tac_picture_or_shape_common(*ctrl) == Some(*c),
            None => spec_non_tac_picture_or_shape_common(*ctrl) is None,
        },
{
    match ctrl {
        Control::Picture(pic) => {
            if !pic.common.treat_as_char {
                Some(&pic.common)
            } else {
                None
            }
        },
        Control::Shape(shape) => {
            if !shape.common().treat_as_char {
                Some(shape.common())
            } else {
                None
            }
        },
        _ => None,
    }
}

/// Whether some control of the paragraph is a non-inline picture or shape.
pub fn para_has_non_tac_picture_or_shape(para: &Paragraph) -> (r: bool)
    ensures
        r == exists|i: int|
            0 <= i < para.controls@.len() && spec_non_tac_picture_or_shape_common(
                #[trigger] para.controls@[i],
            ) is Some,
{
    let mut i: usize = 0;
    while i < para.controls.len()
        invariant
            i <= para.controls@.len(),
            forall|j: int|
                0 <= j < i ==> spec_non_tac_picture_or_shape_common(
                    #[trigger] para.controls@[j],
                ) is None,
        decreases para.controls@.len() - i,
    {
        if non_tac_picture_or_shape_common(&para.controls[i]).is_some() {
            return true;
        }
        i += 1;
    }
    false
}

/// A picture that takes part in the body flow: non-inline and neither behind
/// nor in front of the text.
pub open spec fn spec_flow_noninline_picture(c: Control) -> Option<Picture> {
    match c {
        Control::Picture(p) => if !p.common.treat_as_char && !(p.common.text_wrap is BehindText)
            && !(p.common.text_wrap is InFrontOfText) {
            Some(*p)
        } else {
            None
        },
        _ => None,
    }
}

/// The picture of the control when it is a non-inline picture that takes part
/// in the body flow (not placed behind or in front of the text).
pub fn flow_noninline_picture(ctrl: &Control) -> (r: Option<&Picture>)
    ensures
        match r {
            Some(p) => spec_flow_noninline_picture(*ctrl) == Some(*p),
            None => spec_flow_noninline_picture(*ctrl) is None,
        },
{
    match ctrl {
        Control::Picture(pic) => {
            if !pic.common.treat_as_char && !matches!(pic.common.text_wrap, TextWrap::BehindText)
                && !matches!(pic.common.text_wrap, TextWrap::InFrontOfText) {
                Some(pic)
            } else {
                None
            }
        },
        _ => None,
    }
}

/// The paragraph holds only column definitions around blank text.
pub open spec fn spec_columndef_only_separator(p: Paragraph) -> bool {
    &&& spec_blank(p.text@)
    &&& p.controls@.len() > 0
    &&& forall|i: int| 0 <= i < p.controls@.len() ==> (#[trigger] p.controls@[i]) is ColumnDef
}

/// Whether the paragraph's text is blank and its controls, of which there is
/// at least one, are all column definitions.
#[verifier::loop_isolation(false)]
pub fn para_is_columndef_only_separator(para: &Paragraph) -> (r: bool)
    ensures
        r == spec_columndef_only_separator(*para),
{
    if !is_blank(&para.text) || para.controls.len() == 0 {
        return false;
    }
    let mut i: usize = 0;
    while i < para.controls.len()
        invariant
            i <= para.controls@.len(),
            forall|j: int| 0 <= j < i ==> (#[trigger] para.controls@[j]) is ColumnDef,
        decreases para.controls@.len() - i,
    {
        if !matches!(&para.controls[i], Control::ColumnDef) {
            return false;
        }
        i += 1;
    }
    true
}

/// A paragraph that the search for neighbouring overlays passes over: blank
/// text with no controls or only column definitions.
pub open spec fn spec_overlay_search_skips(p: Paragraph) -> bool {
    spec_blank(p.text@) && (p.controls@.len() == 0 || spec_columndef_only_separator(p))
}

/// The nearest paragraph before index `i` that the overlay search does not pass over.
pub open spec fn spec_prev_overlay_candidate(ps: Seq<Paragraph>, i: int) -> Option<int>
    decreases i,
{
    if i <= 0 {
        None
    } else if i - 1 < ps.len() && !spec_overlay_search_skips(ps[i - 1]) {
        Some(i - 1)
    } else {
        spec_prev_overlay_candidate(ps, i - 1)
    }
}

/// The nearest paragraph at or after index `i` that the overlay search does not pass over.
pub open spec fn spec_next_overlay_candidate(ps: Seq<Paragraph>, i: int) -> Option<int>
    decreases ps.len() - i,
{
    if i < 0 || i >= ps.len() {
        None
    } else if !spec_overlay_search_skips(ps[i]) {
        Some(i)
    } else {
        spec_next_overlay_candidate(ps, i + 1)
    }
}

/// The nearest significant paragraphs on both sides of `i` are floating-overlay anchors.
pub open spec fn spec_columndef_separator_between_floating_overlays(
    i: int,
    ps: Seq<Paragraph>,
    overlay: Seq<bool>,
) -> bool {
    &&& spec_prev_overlay_candidate(ps, i) matches Some(a) && overlay[a]
    &&& spec_next_overlay_candidate(ps, i + 1) matches Some(b) && overlay[b]
}

proof fn lemma_prev_overlay_candidate(ps: Seq<Paragraph>, i: int)
    ensures
        spec_prev_overlay_candidate(ps, i) matches Some(a) ==> 0 <= a < i && a < ps.len(),
    decreases i,
{
    if i > 0 {
        lemma_prev_overlay_candidate(ps, i - 1);
    }
}

proof fn lemma_next_overlay_candidate(ps: Seq<Paragraph>, i: int)
    ensures
        spec_next_overlay_candidate(ps, i) matches Some(b) ==> i <= b < ps.len(),
    decreases ps.len() - i,
{
    if 0 <= i < ps.len() {
        lemma_next_overlay_candidate(ps, i + 1);
    }
}

/// Whether the paragraph is passed over by the search for neighbouring overlays.
fn overlay_search_skips(para: &Paragraph) -> (r: bool)
    ensures
        r == spec_overlay_search_skips(*para),
{
    is_blank(&para.text) && (para.controls.len() == 0 || para_is_columndef_only_separator(para))
}

/// Whether the separator paragraph at `para_idx` stands between two floating
/// overlays: the nearest paragraph before it and the nearest after it that are
/// not blank with no controls or only column definitions are both overlay
/// anchors.  `overlay_anchor[k]` is the layout's verdict on whether paragraph
/// `k` anchors a floating overlay.
pub fn columndef_separator_between_floating_overlays(
    para_idx: usize,
    paragraphs: &Vec<Paragraph>,
    overlay_anchor: &Vec<bool>,
) -> (r: bool)
    requires
        overlay_anchor@.len() == paragraphs@.len(),
        para_idx < usize::MAX,
    ensures
        r == spec_columndef_separator_between_floating_overlays(
            para_idx as int,
            paragraphs@,
            overlay_anchor@,
        ),
{
    proof {
        lemma_prev_overlay_candidate(paragraphs@, para_idx as int);
        lemma_next_overlay_candidate(paragraphs@, para_idx + 1);
    }
    let prev = prev_overlay_candidate(paragraphs, para_idx);
    let a = match prev {
        Some(a) => a,
        None => {
            return false;
        },
    };
    if !overlay_anchor[a] {
        return false;
    }
    let next = next_overlay_candidate(paragraphs, para_idx + 1);
    match next {
        Some(b) => overlay_anchor[b],
        None => false,
    }
}

/// The nearest paragraph before `para_idx` that the overlay search does not pass over.
fn prev_overlay_candidate(paragraphs: &Vec<Paragraph>, para_idx: usize) -> (r: Option<usize>)
    ensures
        r is None <==> spec_prev_overlay_candidate(paragraphs@, para_idx as int) is None,
        r matches Some(k) ==> spec_prev_overlay_candidate(paragraphs@, para_idx as int) == Some(k as int),
{
    let n = paragraphs.len();
    let mut k: usize = if para_idx < n {
        para_idx
    } else {
        n
    };
    proof {
        lemma_prev_beyond_len(paragraphs@, para_idx as int);
        lemma_prev_overlay_candidate(paragraphs@, para_idx as int);
    }
    while k > 0
        invariant
            k <= n,
            n == paragraphs@.len(),
            spec_prev_overlay_candidate(paragraphs@, para_idx as int) == spec_prev_overlay_candidate(
                paragraphs@,
                k as int,
            ),
        decreases k,
    {
        if !overlay_search_skips(&paragraphs[k - 1]) {
            return Some(k - 1);
        }
        k -= 1;
    }
    None
}

/// The nearest paragraph at or after `from` that the overlay search does not pass over.
fn next_overlay_candidate(paragraphs: &Vec<Paragraph>, from: usize) -> (r: Option<usize>)
    ensures
        r is None <==> spec_next_overlay_candidate(paragraphs@, from as int) is None,
        r matches Some(k) ==> spec_next_overlay_candidate(paragraphs@, from as int) == Some(k as int),
{
    let n = paragraphs.len();
    let mut j: usize = from;
    proof {
        lemma_next_overlay_candidate(paragraphs@, from as int);
    }
    while j < n
        invariant
            n == paragraphs@.len(),
            from <= j,
            spec_next_overlay_candidate(paragraphs@, from as int) == spec_next_overlay_candidate(
                paragraphs@,
                j as int,
            ),
        decreases n - j,
    {
        if !overlay_search_skips(&paragraphs[j]) {
            return Some(j);
        }
        j += 1;
    }
    None
}

proof fn lemma_prev_beyond_len(ps: Seq<Paragraph>, i: int)
    ensures
        i > ps.len() ==> spec_prev_overlay_candidate(ps, i) == spec_prev_overlay_candidate(
            ps,
            ps.len() as int,
        ),
    decreases i,
{
    if i > ps.len() {
        lemma_prev_beyond_len(ps, i - 1);
    }
}

/// A non-inline square-wrapped table placed relative to the paper or page.
pub open spec fn spec_paper_page_square_table(c: Control) -> bool {
    match c {
        Control::Table(t) => !t.common.treat_as_char && t.common.text_wrap is Square && (
        t.common.vert_rel_to is Paper || t.common.vert_rel_to is Page),
        _ => false,
    }
}

/// The paragraph has no visible text and anchors a paper/page square table.
pub open spec fn spec_paper_page_square_empty_table_anchor(p: Paragraph) -> bool {
    !spec_para_visible(p) && exists|i: int|
        0 <= i < p.controls@.len() && spec_paper_page_square_table(#[trigger] p.controls@[i])
}

/// Whether the paragraph has no visible text and anchors a non-inline
/// square-wrapped table placed relative to the paper or the page.
#[verifier::loop_isolation(false)]
pub fn para_is_paper_page_square_empty_table_anchor(para: &Paragraph) -> (r: bool)
    ensures
        r == spec_paper_page_square_empty_table_anchor(*para),
{
    if para_has_visible_text(para) {
        return false;
    }
    let mut i: usize = 0;
    while i < para.controls.len()
        invariant
            i <= para.controls@.len(),
            forall|j: int| 0 <= j < i ==> !spec_paper_page_square_table(#[trigger] para.controls@[j]),
        decreases para.controls@.len() - i,
    {
        match &para.controls[i] {
            Control::Table(t) => {
                if !t.common.treat_as_char && matches!(t.common.text_wrap, TextWrap::Square) && (
                matches!(t.common.vert_rel_to, VertRelTo::Paper) || matches!(
                    t.common.vert_rel_to,
                    VertRelTo::Page
                )) {
                    assert(spec_paper_page_square_table(para.controls@[i as int]));
                    return true;
                }
            },
            _ => {},
        }
        i += 1;
    }
    false
}

/// A section, column definition or bookmark control.
pub open spec fn spec_scaffold_control(c: Control) -> bool {
    c is SectionDef || c is ColumnDef || c is Bookmark
}

/// The paragraph at `i` is a page/section-breaking paragraph of section,
/// column and bookmark controls right before a paper/page square table anchor.
pub open spec fn spec_pre_paper_page_square_table_scaffold(i: int, ps: Seq<Paragraph>) -> bool {
    &&& 0 <= i < ps.len()
    &&& !spec_para_visible(ps[i])
    &&& (ps[i].column_type is Page || ps[i].column_type is Section)
    &&& forall|j: int|
        0 <= j < ps[i].controls@.len() ==> spec_scaffold_control(#[trigger] ps[i].controls@[j])
    &&& i + 1 < ps.len()
    &&& spec_paper_page_square_empty_table_anchor(ps[i + 1])
}

/// Whether the paragraph at `para_idx` has no visible text, starts with a page
/// or section break, holds only section/column definitions and bookmarks, and
/// is followed by a paper/page square table anchor.
#[verifier::loop_isolation(false)]
pub fn para_is_pre_paper_page_square_table_scaffold(
    para_idx: usize,
    paragraphs: &Vec<Paragraph>,
) -> (r: bool)
    ensures
        r == spec_pre_paper_page_square_table_scaffold(para_idx as int, paragraphs@),
{
    if para_idx >= paragraphs.len() {
        return false;
    }
    let para = &paragraphs[para_idx];
    if para_has_visible_text(para) || !(matches!(para.column_type, ColumnBreakType::Page)
        || matches!(para.column_type, ColumnBreakType::Section)) {
        return false;
    }
    let mut i: usize = 0;
    while i < para.controls.len()
        invariant
            i <= para.controls@.len(),
            forall|j: int| 0 <= j < i ==> spec_scaffold_control(#[trigger] para.controls@[j]),
        decreases para.controls@.len() - i,
    {
        let c = &para.controls[i];
        if !(matches!(c, Control::SectionDef) || matches!(c, Control::ColumnDef) || matches!(
            c,
            Control::Bookmark
        )) {
            assert(!spec_scaffold_control(para.controls@[i as int]));
            return false;
        }
        i += 1;
    }
    para_idx + 1 < paragraphs.len() && para_is_paper_page_square_empty_table_anchor(
        &paragraphs[para_idx + 1],
    )
}

/// The paragraph at `i` is an empty separator (no controls, or a column break
/// holding only column definitions) right after a paper/page square table
/// anchor and right before visible text.
pub open spec fn spec_post_paper_page_square_table_scaffold(i: int, ps: Seq<Paragraph>) -> bool {
    &&& 0 <= i < ps.len()
    &&& !spec_para_visible(ps[i])
    &&& ((ps[i].column_type is NoBreak && ps[i].controls@.len() == 0) || (
    ps[i].column_type is Column && spec_columndef_only_separator(ps[i])))
    &&& spec_paper_page_square_empty_table_anchor(ps[if i >= 1 {
        i - 1
    } else {
        0
    }])
    &&& i + 1 < ps.len()
    &&& spec_para_visible(ps[i + 1])
}

/// Whether the paragraph at `para_idx` is an empty separator between a
/// paper/page square table anchor (the paragraph before it, or itself when it
/// is the first) and visible text.
pub fn para_is_post_paper_page_square_table_scaffold(
    para_idx: usize,
    paragraphs: &Vec<Paragraph>,
) -> (r: bool)
    ensures
        r == spec_post_paper_page_square_table_scaffold(para_idx as int, paragraphs@),
{
    if para_idx >= paragraphs.len() {
        return false;
    }
    let para = &paragraphs[para_idx];
    if para_has_visible_text(para) {
        return false;
    }
    let empty_no_control_para = matches!(para.column_type, ColumnBreakType::NoBreak)
        && para.controls.len() == 0;
    let columndef_only_separator = matches!(para.column_type, ColumnBreakType::Column)
        && para_is_columndef_only_separator(para);
    if !empty_no_control_para && !columndef_only_separator {
        return false;
    }
    let prev = if para_idx >= 1 {
        para_idx - 1
    } else {
        0
    };
    para_is_paper_page_square_empty_table_anchor(&paragraphs[prev]) && para_idx + 1
        < paragraphs.len() && para_has_visible_text(&paragraphs[para_idx + 1])
}

/// An object control (shape, table, picture, equation) that is not inline.
pub open spec fn spec_floating_object(c: Control) -> bool {
    match spec_object_common(c) {
        Some(common) => !common.treat_as_char,
        None => false,
    }
}

/// Some control of the paragraph is a non-inline object.
pub open spec fn spec_para_has_floating_object(p: Paragraph) -> bool {
    exists|i: int| 0 <= i < p.controls@.len() && spec_floating_object(#[trigger] p.controls@[i])
}

/// Whether the paragraph holds a non-inline shape, table, picture or equation.
pub fn para_has_floating_object(para: &Paragraph) -> (r: bool)
    ensures
        r == spec_para_has_floating_object(*para),
{
    let mut i: usize = 0;
    while i < para.controls.len()
        invariant
            i <= para.controls@.len(),
            forall|j: int| 0 <= j < i ==> !spec_floating_object(#[trigger] para.controls@[j]),
        decreases para.controls@.len() - i,
    {
        let floating = match &para.controls[i] {
            Control::Shape(s) => !s.common().treat_as_char,
            Control::Table(t) => !t.common.treat_as_char,
            Control::Picture(p) => !p.common.treat_as_char,
            Control::Equation(e) => !e.common.treat_as_char,
            _ => false,
        };
        if floating {
            return true;
        }
        i += 1;
    }
    false
}

/// A table fixed to the bottom of the page.
pub open spec fn spec_page_bottom_fixed_table(c: Control) -> bool {
    match c {
        Control::Table(t) => spec_page_bottom_fixed_float(t.common),
        _ => false,
    }
}

/// The paragraph has no visible text and anchors a table fixed to the page bottom.
pub open spec fn spec_page_bottom_fixed_table_anchor(p: Paragraph) -> bool {
    !spec_para_visible(p) && exists|i: int|
        0 <= i < p.controls@.len() && spec_page_bottom_fixed_table(#[trigger] p.controls@[i])
}

/// Whether the paragraph has no visible text and anchors a non-inline table
/// aligned to the bottom of the page.
#[verifier::loop_isolation(false)]
pub fn para_is_page_bottom_fixed_table_anchor(para: &Paragraph) -> (r: bool)
    ensures
        r == spec_page_bottom_fixed_table_anchor(*para),
{
    if para_has_visible_text(para) {
        return false;
    }
    let mut i: usize = 0;
    while i < para.controls.len()
        invariant
            i <= para.controls@.len(),
            forall|j: int| 0 <= j < i ==> !spec_page_bottom_fixed_table(#[trigger] para.controls@[j]),
        decreases para.controls@.len() - i,
    {
        match &para.controls[i] {
            Control::Table(t) => {
                if is_page_bottom_fixed_float(&t.common) {
                    assert(spec_page_bottom_fixed_table(para.controls@[i as int]));
                    return true;
                }
            },
            _ => {},
        }
        i += 1;
    }
    false
}

/// A picture or shape that is a paragraph-relative top-and-bottom float.
pub open spec fn spec_topbottom_picture_or_shape(c: Control) -> bool {
    match spec_picture_or_shape_common(c) {
        Some(common) => spec_para_topbottom_float(common),
        None => false,
    }
}

/// Whether the paragraph has controls and every one is a picture or shape that
/// floats top-and-bottom relative to the paragraph.
#[verifier::loop_isolation(false)]
pub fn para_controls_only_topbottom_floats(para: &Paragraph) -> (r: bool)
    ensures
        r == (para.controls@.len() > 0 && forall|i: int|
            0 <= i < para.controls@.len() ==> spec_topbottom_picture_or_shape(
                #[trigger] para.controls@[i],
            )),
{
    if para.controls.len() == 0 {
        return false;
    }
    let mut i: usize = 0;
    while i < para.controls.len()
        invariant
            i <= para.controls@.len(),
            forall|j: int|
                0 <= j < i ==> spec_topbottom_picture_or_shape(#[trigger] para.controls@[j]),
        decreases para.controls@.len() - i,
    {
        let ok = match &para.controls[i] {
            Control::Picture(p) => is_para_topbottom_float(&p.common),
            Control::Shape(s) => is_para_topbottom_float(s.common()),
            _ => false,
        };
        if !ok {
            return false;
        }
        i += 1;
    }
    true
}

/// An inline picture or shape with top-and-bottom wrapping.
pub open spec fn spec_tac_topbottom_picture_or_shape(c: Control) -> bool {
    match spec_picture_or_shape_common(c) {
        Some(common) => common.treat_as_char && common.text_wrap is TopAndBottom,
        None => false,
    }
}

/// Whether the paragraph has controls and every one is an inline picture or
/// shape with top-and-bottom wrapping.
#[verifier::loop_isolation(false)]
pub fn para_controls_only_tac_topbottom_objects(para: &Paragraph) -> (r: bool)
    ensures
        r == (para.controls@.len() > 0 && forall|i: int|
            0 <= i < para.controls@.len() ==> spec_tac_topbottom_picture_or_shape(
                #[trigger] para.controls@[i],
            )),
{
    if para.controls.len() == 0 {
        return false;
    }
    let mut i: usize = 0;
    while i < para.controls.len()
        invariant
            i <= para.controls@.len(),
            forall|j: int|
                0 <= j < i ==> spec_tac_topbottom_picture_or_shape(#[trigger] para.controls@[j]),
        decreases para.controls@.len() - i,
    {
        let ok = match &para.controls[i] {
            Control::Picture(p) => p.common.treat_as_char && matches!(
                p.common.text_wrap,
                TextWrap::TopAndBottom
            ),
            Control::Shape(s) => s.common().treat_as_char && matches!(
                s.common().text_wrap,
                TextWrap::TopAndBottom
            ),
            _ => false,
        };
        if !ok {
            return false;
        }
        i += 1;
    }
    true
}

/// A non-inline top-and-bottom object placed relative to the page.
pub open spec fn spec_page_anchored_block_common(c: CommonObjAttr) -> bool {
    !c.treat_as_char && c.vert_rel_to is Page && c.text_wrap is TopAndBottom
}

/// A table, picture or shape that is a page-anchored top-and-bottom block.
pub open spec fn spec_page_anchored_block(c: Control) -> bool {
    match c {
        Control::Table(t) => spec_page_anchored_block_common(t.common),
        Control::Picture(p) => spec_page_anchored_block_common(p.common),
        Control::Shape(s) => spec_page_anchored_block_common(s.common),
        _ => false,
    }
}

/// Whether the paragraph holds a table, picture or shape that is a non-inline
/// top-and-bottom block placed relative to the page.
pub fn para_hosts_page_anchored_block(para: &Paragraph) -> (r: bool)
    ensures
        r == exists|i: int|
            0 <= i < para.controls@.len() && spec_page_anchored_block(#[trigger] para.controls@[i]),
{
    let mut i: usize = 0;
    while i < para.controls.len()
        invariant
            i <= para.controls@.len(),
            forall|j: int| 0 <= j < i ==> !spec_page_anchored_block(#[trigger] para.controls@[j]),
        decreases para.controls@.len() - i,
    {
        let c = match &para.controls[i] {
            Control::Table(t) => Some(&t.common),
            Control::Picture(p) => Some(&p.common),
            Control::Shape(s) => Some(s.common()),
            _ => None,
        };
        match c {
            Some(common) => {
                if !common.treat_as_char && matches!(common.vert_rel_to, VertRelTo::Page)
                    && matches!(common.text_wrap, TextWrap::TopAndBottom) {
                    return true;
                }
            },
            None => {},
        }
        i += 1;
    }
    false
}

/// The text, once leading white space is trimmed, starts with a list marker
/// (`.`, `-`, `·` or `•`).
pub open spec fn spec_list_continuation_tail(t: Seq<char>) -> bool {
    let s = spec_trim_start(t);
    s.len() > 0 && (s[0] == '.' || s[0] == '-' || s[0] == '·' || s[0] == '•')
}

/// Whether the paragraph's text, after leading white space, starts with `.`,
/// `-`, `·` or `•`.
pub fn paragraph_text_looks_like_list_continuation_tail(para: &Paragraph) -> (r: bool)
    ensures
        r == spec_list_continuation_tail(para.text@),
{
    let k = skip_whitespace(&para.text, 0);
    if k >= para.text.len() {
        return false;
    }
    let c = para.text[k];
    c == '.' || c == '-' || c == '·' || c == '•'
}

/// Text with a non-white-space visible character is visible text.
pub proof fn lemma_non_whitespace_text_is_visible(p: Paragraph)
    requires
        spec_para_non_whitespace(p),
    ensures
        spec_para_visible(p),
{
    let i = choose|i: int|
        0 <= i < p.text@.len() && crate::text::spec_visible_non_ws_char(#[trigger] p.text@[i]);
    assert(crate::text::spec_visible_char(p.text@[i]));
}

/// The one-shot strict fit is taken at most once: after a paragraph takes it,
/// the next paragraph cannot, whatever it holds; a paragraph that does not
/// qualify leaves it pending as it was.
pub proof fn lemma_strict_fit_consumed_once(pending: bool, first: Paragraph, second: Paragraph)
    ensures
        ({
            let taken = pending && spec_strict_plain_text_fit_eligible(first);
            let after = pending && !taken;
            &&& taken ==> !(after && spec_strict_plain_text_fit_eligible(second))
            &&& !spec_strict_plain_text_fit_eligible(first) ==> after == pending
        }),
{
}

/// A paragraph whose payload is only inline pictures or shapes is an inline
/// picture-only paragraph.
pub proof fn lemma_exclusive_tac_picture_is_picture_only(p: Paragraph)
    requires
        spec_only_tac_picture_or_shape(p),
    ensures
        !spec_para_visible(p) && spec_para_has_tac_picture_or_shape(p),
{
    assert(spec_tac_picture_or_shape(p.controls@[0]));
}

/// The separator between floating overlays has a significant paragraph on each
/// side, before it and after it.
pub proof fn lemma_separator_between_overlays_has_neighbours(
    i: int,
    ps: Seq<Paragraph>,
    overlay: Seq<bool>,
)
    requires
        spec_columndef_separator_between_floating_overlays(i, ps, overlay),
    ensures
        exists|a: int, b: int|
            0 <= a < i && i < b < ps.len() && !spec_overlay_search_skips(#[trigger] ps[a])
                && !spec_overlay_search_skips(#[trigger] ps[b]) && overlay[a] && overlay[b],
{
    lemma_prev_overlay_candidate(ps, i);
    lemma_next_overlay_candidate(ps, i + 1);
    lemma_prev_candidate_significant(ps, i);
    lemma_next_candidate_significant(ps, i + 1);
    let a = spec_prev_overlay_candidate(ps, i)->0;
    let b = spec_next_overlay_candidate(ps, i + 1)->0;
    assert(!spec_overlay_search_skips(ps[a]) && !spec_overlay_search_skips(ps[b]));
}

proof fn lemma_prev_candidate_significant(ps: Seq<Paragraph>, i: int)
    ensures
        spec_prev_overlay_candidate(ps, i) matches Some(a) ==> !spec_overlay_search_skips(ps[a]),
    decreases i,
{
    if i > 0 {
        lemma_prev_candidate_significant(ps, i - 1);
    }
}

proof fn lemma_next_candidate_significant(ps: Seq<Paragraph>, i: int)
    ensures
        spec_next_overlay_candidate(ps, i) matches Some(b) ==> !spec_overlay_search_skips(ps[b]),
    decreases ps.len() - i,
{
    if 0 <= i < ps.len() {
        lemma_next_candidate_significant(ps, i + 1);
    }
}

/// A table, shape or picture that is not inline.
pub open spec fn spec_floating_block(c: Control) -> bool {
    match c {
        Control::Table(t) => !t.common.treat_as_char,
        Control::Shape(sh) => !sh.common.treat_as_char,
        Control::Picture(pic) => !pic.common.treat_as_char,
        _ => false,
    }
}

/// A paragraph that starts a new band: it starts with a break or holds a
/// column definition.
pub open spec fn spec_starts_band(p: Paragraph) -> bool {
    !(p.column_type is NoBreak) || exists|i: int|
        0 <= i < p.controls@.len() && (#[trigger] p.controls@[i]) is ColumnDef
}

/// Some paragraph from `j` on, before the first one after `start` that starts
/// a new band, holds a non-inline table, shape or picture.
pub open spec fn spec_band_has_floating_from(ps: Seq<Paragraph>, start: int, j: int) -> bool
    decreases ps.len() - j,
{
    if j < 0 || j >= ps.len() {
        false
    } else if j > start && spec_starts_band(ps[j]) {
        false
    } else if exists|i: int|
        0 <= i < ps[j].controls@.len() && spec_floating_block(#[trigger] ps[j].controls@[i]) {
        true
    } else {
        spec_band_has_floating_from(ps, start, j + 1)
    }
}

fn starts_band(p: &Paragraph) -> (r: bool)
    ensures
        r == spec_starts_band(*p),
{
    if !matches!(p.column_type, ColumnBreakType::NoBreak) {
        return true;
    }
    let mut i: usize = 0;
    while i < p.controls.len()
        invariant
            i <= p.controls@.len(),
            forall|k: int| 0 <= k < i ==> !((#[trigger] p.controls@[k]) is ColumnDef),
        decreases p.controls@.len() - i,
    {
        if matches!(&p.controls[i], Control::ColumnDef) {
            return true;
        }
        i += 1;
    }
    false
}

fn has_floating_block(p: &Paragraph) -> (r: bool)
    ensures
        r == exists|i: int| 0 <= i < p.controls@.len() && spec_floating_block(#[trigger] p.controls@[i]),
{
    let mut i: usize = 0;
    while i < p.controls.len()
        invariant
            i <= p.controls@.len(),
            forall|k: int| 0 <= k < i ==> !spec_floating_block(#[trigger] p.controls@[k]),
        decreases p.controls@.len() - i,
    {
        let floating = match &p.controls[i] {
            Control::Table(t) => !t.common.treat_as_char,
            Control::Shape(sh) => !sh.common().treat_as_char,
            Control::Picture(pic) => !pic.common.treat_as_char,
            _ => false,
        };
        if floating {
            assert(spec_floating_block(p.controls@[i as int]));
            return true;
        }
        i += 1;
    }
    false
}

/// Whether the band that follows an explicit column break at `para_idx` (up to
/// the next paragraph that starts with a break or holds a column definition)
/// holds a non-inline table, shape or picture.
pub fn upcoming_band_has_floating_object(para_idx: usize, paragraphs: &Vec<Paragraph>) -> (r: bool)
    requires
        para_idx <= paragraphs@.len(),
    ensures
        r == spec_band_has_floating_from(paragraphs@, para_idx as int, para_idx as int),
{
    let mut j: usize = para_idx;
    while j < paragraphs.len()
        invariant
            para_idx <= j <= paragraphs@.len(),
            spec_band_has_floating_from(paragraphs@, para_idx as int, para_idx as int)
                == spec_band_has_floating_from(paragraphs@, para_idx as int, j as int),
        decreases paragraphs@.len() - j,
    {
        if j > para_idx && starts_band(&paragraphs[j]) {
            return false;
        }
        if has_floating_block(&paragraphs[j]) {
            return true;
        }
        j += 1;
    }
    false
}

} // verus!
