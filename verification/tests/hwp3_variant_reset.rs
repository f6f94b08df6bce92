use typeset::model::{CommonObjAttr, Control, LineSeg, Paragraph, Table};
use typeset::variant::judge_hwp3_variant_vpos_reset_break;

const BODY: i32 = 80_000;

fn seg(vertical_pos: i32, line_height: i32) -> LineSeg {
    LineSeg {
        vertical_pos,
        line_height,
        ..Default::default()
    }
}

fn para(text: &str, shape: u16, segs: Vec<LineSeg>) -> Paragraph {
    Paragraph {
        text: text.chars().collect(),
        para_shape_id: shape,
        line_segs: segs,
        ..Default::default()
    }
}

fn heading_spacing(sb: i32) -> Vec<i32> {
    vec![0, sb]
}

#[test]
fn heading_at_the_top_after_a_full_page_breaks() {
    let ps = vec![para("본문", 0, vec![seg(70_000, 7_000)]), para("제목", 1, vec![seg(0, 1_000)])];
    assert!(judge_hwp3_variant_vpos_reset_break(&ps[1], &ps, &heading_spacing(600), 1, BODY, Some(0)));
    assert!(!judge_hwp3_variant_vpos_reset_break(&ps[1], &ps, &heading_spacing(400), 1, BODY, Some(0)));
    assert!(!judge_hwp3_variant_vpos_reset_break(&ps[1], &ps, &heading_spacing(600), 1, BODY, None));
    assert!(!judge_hwp3_variant_vpos_reset_break(&ps[1], &ps, &heading_spacing(600), 1, 0, Some(0)));
    assert!(!judge_hwp3_variant_vpos_reset_break(&ps[1], &ps, &Vec::new(), 1, BODY, Some(0)));
    let empty_text = para("", 1, vec![seg(0, 1_000)]);
    assert!(!judge_hwp3_variant_vpos_reset_break(&empty_text, &ps, &heading_spacing(600), 1, BODY, Some(0)));
}

#[test]
fn previous_paragraph_with_a_synthetic_last_segment_is_passed_over() {
    let synthetic = LineSeg {
        tag: LineSeg::TAG_IMPLEMENTATION_PROPERTY,
        ..seg(0, 1_000)
    };
    let ps = vec![
        para("본문", 0, vec![seg(70_000, 7_000)]),
        para("합성", 0, vec![synthetic]),
        para("제목", 1, vec![seg(0, 1_000)]),
    ];
    assert!(judge_hwp3_variant_vpos_reset_break(&ps[2], &ps, &heading_spacing(600), 2, BODY, Some(1)));
    assert!(!judge_hwp3_variant_vpos_reset_break(&ps[2], &ps, &heading_spacing(600), 2, BODY, Some(99)));
}

#[test]
fn heading_without_segments_after_an_inline_table() {
    let mut table = Table {
        common: CommonObjAttr::default(),
        ..Default::default()
    };
    table.common.treat_as_char = true;
    let mut host = para("", 0, vec![seg(65_000, 4_000)]);
    host.controls = vec![Control::Table(Box::new(table))];
    let ps = vec![host, para("표 제목", 1, Vec::new()), para("다음", 0, vec![seg(3_000, 1_000)])];
    assert!(judge_hwp3_variant_vpos_reset_break(&ps[1], &ps, &heading_spacing(600), 1, BODY, Some(0)));
    let far = vec![
        para("", 0, vec![seg(65_000, 4_000)]),
        para("표 제목", 1, Vec::new()),
        para("다음", 0, vec![seg(3_000, 1_000)]),
    ];
    assert!(!judge_hwp3_variant_vpos_reset_break(&far[1], &far, &heading_spacing(600), 1, BODY, Some(0)));
}

#[test]
fn heading_without_segments_after_one_dropped_paragraph() {
    let ps = vec![
        para("본문", 0, vec![seg(60_000, 6_000)]),
        para("누락", 0, Vec::new()),
        para("제목", 1, Vec::new()),
    ];
    assert!(judge_hwp3_variant_vpos_reset_break(&ps[2], &ps, &heading_spacing(600), 2, BODY, Some(1)));
    let higher = vec![
        para("본문", 0, vec![seg(60_000, 9_000)]),
        para("누락", 0, Vec::new()),
        para("제목", 1, Vec::new()),
    ];
    assert!(!judge_hwp3_variant_vpos_reset_break(&higher[2], &higher, &heading_spacing(600), 2, BODY, Some(1)));
}

#[test]
fn one_line_heading_at_the_bottom_before_the_next_page() {
    let ps = vec![
        para("본문", 0, vec![seg(50_000, 1_000)]),
        para("제목", 1, vec![seg(65_000, 1_000)]),
        para("다음", 0, vec![seg(2_000, 1_000)]),
    ];
    assert!(judge_hwp3_variant_vpos_reset_break(&ps[1], &ps, &heading_spacing(300), 1, BODY, Some(0)));
    assert!(!judge_hwp3_variant_vpos_reset_break(&ps[1], &ps, &heading_spacing(200), 1, BODY, Some(0)));
}

#[test]
fn one_line_heading_after_a_negative_wrap() {
    let ps = vec![
        para("본문", 0, vec![seg(62_000, 2_000), seg(-100, 1_000)]),
        para("제목", 1, vec![seg(-500, 1_000)]),
    ];
    assert!(judge_hwp3_variant_vpos_reset_break(&ps[1], &ps, &heading_spacing(300), 1, BODY, Some(0)));
}
