use typeset::model::{CommonObjAttr, Control, LineSeg, Paragraph, Picture, TextWrap};
use typeset::square_wrap::{
    activate_square_picture_wrap_for_para, maybe_register_square_picture_wrap_anchor,
    square_picture_wrap_anchor_for_para, PageDef, SquareWrapState, SquareWrapStep, WrapAnchorRef,
};

fn a4() -> PageDef {
    PageDef {
        width: 59528,
        margin_left: 8504,
        margin_right: 8504,
    }
}

fn square_picture(horizontal_offset: u32, width: u32, margin_right: i16) -> Control {
    let mut common = CommonObjAttr {
        text_wrap: TextWrap::Square,
        horizontal_offset,
        width,
        ..Default::default()
    };
    common.margin.right = margin_right;
    Control::Picture(Box::new(Picture { common }))
}

fn para(cs: i32, sw: i32, text: &str, controls: Vec<Control>) -> Paragraph {
    Paragraph {
        text: text.chars().collect(),
        controls,
        line_segs: vec![LineSeg {
            column_start: cs,
            segment_width: sw,
            ..Default::default()
        }],
        ..Default::default()
    }
}

fn inactive() -> SquareWrapState {
    SquareWrapState {
        wrap_around_cs: -1,
        wrap_around_sw: -1,
        wrap_around_table_para: 0,
        wrap_around_any_seg: false,
        wrap_around_derived_band: false,
    }
}

#[test]
fn band_opens_at_the_picture_and_carries_matching_paragraphs() {
    let body = vec![
        para(20_000, 25_000, "", vec![square_picture(0, 18_000, 300)]),
        para(20_000, 25_000, "옆 글", Vec::new()),
        para(0, 42_520, "아래 글", Vec::new()),
    ];
    let mut st = inactive();
    activate_square_picture_wrap_for_para(&mut st, 0, &body[0]);
    assert_eq!(
        st,
        SquareWrapState {
            wrap_around_cs: 20_000,
            wrap_around_sw: 25_000,
            wrap_around_table_para: 0,
            wrap_around_any_seg: true,
            wrap_around_derived_band: false,
        }
    );
    let step = maybe_register_square_picture_wrap_anchor(&mut st, &Vec::new(), &body, &body[1], &a4());
    assert_eq!(
        step,
        SquareWrapStep::Anchored(WrapAnchorRef {
            anchor_para_index: 0,
            anchor_cs: 20_000,
            anchor_sw: 25_000,
            anchor_image_margin_right: 300,
        })
    );
    let step = maybe_register_square_picture_wrap_anchor(&mut st, &Vec::new(), &body, &body[2], &a4());
    assert_eq!(step, SquareWrapStep::Closed);
    assert_eq!(st.wrap_around_cs, -1);
    assert_eq!(st.wrap_around_sw, -1);
    assert!(!st.wrap_around_any_seg);
    let step = maybe_register_square_picture_wrap_anchor(&mut st, &Vec::new(), &body, &body[1], &a4());
    assert_eq!(step, SquareWrapStep::Inactive);
}

#[test]
fn band_does_not_open_without_a_square_picture_or_geometry() {
    let mut st = inactive();
    activate_square_picture_wrap_for_para(&mut st, 3, &para(20_000, 25_000, "", Vec::new()));
    assert_eq!(st, inactive());
    activate_square_picture_wrap_for_para(&mut st, 3, &para(0, 0, "", vec![square_picture(0, 1, 0)]));
    assert_eq!(st, inactive());
}

#[test]
fn paragraph_right_of_the_picture_matches_a_zero_start_band() {
    let body = vec![para(0, 0, "", vec![square_picture(10_000, 8_000, 500)])];
    let st = SquareWrapState {
        wrap_around_cs: 0,
        wrap_around_sw: 12_345,
        wrap_around_table_para: 0,
        wrap_around_any_seg: false,
        wrap_around_derived_band: false,
    };
    let beside = para(10_400, 30_000, "본문", Vec::new());
    assert_eq!(
        square_picture_wrap_anchor_for_para(&st, &Vec::new(), &body, &beside, &a4()),
        Some(WrapAnchorRef {
            anchor_para_index: 0,
            anchor_cs: 0,
            anchor_sw: 12_345,
            anchor_image_margin_right: 500,
        })
    );
    let too_far = para(10_700, 30_000, "본문", Vec::new());
    assert_eq!(square_picture_wrap_anchor_for_para(&st, &Vec::new(), &body, &too_far, &a4()), None);
    let too_wide = para(10_400, 32_400, "본문", Vec::new());
    assert_eq!(square_picture_wrap_anchor_for_para(&st, &Vec::new(), &body, &too_wide, &a4()), None);
}

#[test]
fn empty_narrow_paragraph_matches_a_band_without_width() {
    let body = vec![para(5, 0, "", vec![square_picture(0, 100, 0)])];
    let st = SquareWrapState {
        wrap_around_cs: 5_000,
        wrap_around_sw: 0,
        wrap_around_table_para: 0,
        wrap_around_any_seg: false,
        wrap_around_derived_band: false,
    };
    let narrow = para(0, 20_000, " ", Vec::new());
    assert!(square_picture_wrap_anchor_for_para(&st, &Vec::new(), &body, &narrow, &a4()).is_some());
    let wide = para(0, 22_000, " ", Vec::new());
    assert!(square_picture_wrap_anchor_for_para(&st, &Vec::new(), &body, &wide, &a4()).is_none());
    let with_text = para(0, 20_000, "글", Vec::new());
    assert!(square_picture_wrap_anchor_for_para(&st, &Vec::new(), &body, &with_text, &a4()).is_none());
}

#[test]
fn anchor_in_the_endnotes_and_missing_anchor() {
    let body = vec![para(0, 0, "", Vec::new())];
    let endnotes = vec![para(20_000, 25_000, "", vec![square_picture(0, 18_000, 7)])];
    let st = SquareWrapState {
        wrap_around_cs: 20_000,
        wrap_around_sw: 25_000,
        wrap_around_table_para: 1,
        wrap_around_any_seg: true,
        wrap_around_derived_band: false,
    };
    let next = para(20_000, 25_000, "x", Vec::new());
    assert_eq!(
        square_picture_wrap_anchor_for_para(&st, &endnotes, &body, &next, &a4())
            .map(|a| a.anchor_image_margin_right),
        Some(7)
    );
    let missing = SquareWrapState {
        wrap_around_table_para: 5,
        ..st
    };
    assert_eq!(square_picture_wrap_anchor_for_para(&missing, &endnotes, &body, &next, &a4()), None);
}
