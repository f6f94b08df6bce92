use typeset::anchors::visible_host_is_numbered_table_caption;
use typeset::layout::{
    has_majority_fullpage_images, saved_tail_fit_chain_decision,
    square_picture_wrap_band_target_paragraphs, SavedTailFitChainDecision,
};
use typeset::model::{
    AutoNumber, AutoNumberType, Cell, CharShapeRef, ColumnBreakType, Control, LineSeg, NewNumber,
    Paragraph, Picture, Table, TablePageBreak,
};
use typeset::paragraph::{
    para_has_only_treat_as_char_picture_or_shape, take_strict_plain_text_fit_after_empty_host_float_once,
};
use typeset::stored::{preceding_stored_vpos, saved_flow_marks_page_last, stored_vpos_rewinds};
use typeset::tables::is_reparsed_single_column_cell_split_row;

fn text(s: &str) -> Vec<char> {
    s.chars().collect()
}

/// An empty cell as a table editor creates it: one empty paragraph with one
/// default line segment.
fn new_empty_cell(col: u16, row: u16, width: u32, height: u32, border_fill_id: u16) -> Cell {
    Cell {
        row,
        col,
        row_span: 1,
        col_span: 1,
        width,
        height,
        border_fill_id,
        paragraphs: vec![Paragraph {
            char_count: 1,
            line_segs: vec![LineSeg::default()],
            char_shapes: vec![CharShapeRef::default()],
            ..Default::default()
        }],
        ..Default::default()
    }
}

/// An empty cell cloned from a template cell: the template's format with the
/// paragraph instance id zeroed, no text.
fn cell_from_template(col: u16, row: u16, width: u32, height: u32, template: &Cell) -> Cell {
    let src = &template.paragraphs[0];
    let mut header = src.raw_header_extra.clone();
    if header.len() >= 10 {
        for b in &mut header[6..10] {
            *b = 0;
        }
    }
    Cell {
        row,
        col,
        row_span: 1,
        col_span: 1,
        width,
        height,
        border_fill_id: template.border_fill_id,
        padding: template.padding,
        paragraphs: vec![Paragraph {
            char_count: 1,
            para_shape_id: src.para_shape_id,
            style_id: src.style_id,
            char_shapes: src.char_shapes.iter().take(1).copied().collect(),
            line_segs: src.line_segs.iter().take(1).copied().collect(),
            raw_header_extra: header,
            ..Default::default()
        }],
        raw_list_extra: template.raw_list_extra.clone(),
        list_header_width_ref: template.list_header_width_ref,
        text_direction: template.text_direction,
        vertical_align: template.vertical_align,
        apply_inner_margin: template.apply_inner_margin,
        is_header: template.is_header,
    }
}

fn single_column_split_topology() -> Table {
    let mut heading = new_empty_cell(0, 0, 20_000, 1_000, 1);
    heading.col_span = 2;
    heading.paragraphs[0].text = text("머리");
    heading.paragraphs[0].char_count = 3;

    let mut body = new_empty_cell(0, 1, 10_000, 2_000, 2);
    body.paragraphs[0].text = text("긴 본문");
    body.paragraphs[0].char_count = 5;
    body.paragraphs[0].raw_header_extra = vec![0; 12];
    body.paragraphs[0].raw_header_extra[6..10].copy_from_slice(&42_u32.to_le_bytes());
    let peer = cell_from_template(1, 1, 10_000, 2_000, &body);

    Table {
        row_count: 2,
        col_count: 2,
        cells: vec![heading, body, peer],
        page_break: TablePageBreak::RowBreak,
        ..Default::default()
    }
}

fn para_at_vpos(vpos: i32) -> Paragraph {
    Paragraph {
        line_segs: vec![LineSeg {
            vertical_pos: vpos,
            line_height: 1300,
            text_height: 1300,
            ..Default::default()
        }],
        ..Default::default()
    }
}

#[test]
fn fullpage_image_single_page_policy_requires_strict_majority() {
    assert!(!has_majority_fullpage_images(0, 0));
    assert!(!has_majority_fullpage_images(1, 1));
    assert!(!has_majority_fullpage_images(2, 4));
    assert!(has_majority_fullpage_images(2, 3));
    assert!(has_majority_fullpage_images(3, 5));
}

#[test]
fn single_column_vpos_reset_gate_requires_exclusive_tac_picture_or_shape() {
    let tac_picture = || {
        let mut picture = Picture::default();
        picture.common.treat_as_char = true;
        Control::Picture(Box::new(picture))
    };

    let picture_only = Paragraph {
        controls: vec![tac_picture()],
        ..Default::default()
    };
    assert!(para_has_only_treat_as_char_picture_or_shape(&picture_only));

    let mut table = Table::default();
    table.common.treat_as_char = true;
    let mixed_controls = Paragraph {
        controls: vec![tac_picture(), Control::Table(Box::new(table))],
        ..Default::default()
    };
    assert!(
        !para_has_only_treat_as_char_picture_or_shape(&mixed_controls),
        "TAC 그림과 표가 섞인 문단은 단일 단 vpos-reset 강제 분리 대상이 아니다"
    );

    let picture_with_text = Paragraph {
        text: text("설명"),
        controls: vec![tac_picture()],
        ..Default::default()
    };
    assert!(!para_has_only_treat_as_char_picture_or_shape(&picture_with_text));
}

#[test]
fn visible_host_caption_classifier_excludes_section_headings() {
    let mut para = Paragraph {
        text: text("표 27. EU 미성년자 생존 장기기증 허용 국가 규정"),
        ..Default::default()
    };
    assert!(visible_host_is_numbered_table_caption(&para));

    para.text = text("Table 27. Minor living donation rules");
    assert!(visible_host_is_numbered_table_caption(&para));

    para.text = text("1. 편성기준");
    assert!(
        !visible_host_is_numbered_table_caption(&para),
        "#2097 section heading must not be pre-emitted as a table caption"
    );

    para.text = text("표 작성 기준");
    assert!(
        !visible_host_is_numbered_table_caption(&para),
        "a word beginning with 표 is not a numbered caption"
    );

    para.text = text("표  ");
    para.controls = vec![Control::AutoNumber(AutoNumber {
        number_type: AutoNumberType::Table,
        ..Default::default()
    })];
    assert!(
        visible_host_is_numbered_table_caption(&para),
        "literal이 아닌 표 AutoNumber도 visible-host 캡션이다"
    );

    para.text = text("번호를 다시 시작하는 표");
    para.controls = vec![Control::NewNumber(NewNumber {
        number_type: AutoNumberType::Table,
        number: 27,
    })];
    assert!(visible_host_is_numbered_table_caption(&para));

    para.text = text("표 작성 기준");
    para.controls = vec![Control::AutoNumber(AutoNumber {
        number_type: AutoNumberType::Picture,
        ..Default::default()
    })];
    assert!(!visible_host_is_numbered_table_caption(&para));

    para.text = text("1. 편성기준");
    para.controls = vec![Control::NewNumber(NewNumber {
        number_type: AutoNumberType::Page,
        number: 1,
    })];
    assert!(!visible_host_is_numbered_table_caption(&para));
}

#[test]
fn reparsed_single_column_split_topology_is_narrow() {
    let split = single_column_split_topology();
    assert!(
        is_reparsed_single_column_cell_split_row(&split, 1),
        "1열 표의 본문 셀을 1×2로 분할한 저장 구조는 식별한다"
    );
    assert!(
        !is_reparsed_single_column_cell_split_row(&split, 0),
        "전폭 행 자체는 분할 행이 아니다"
    );

    let mut unsplit = single_column_split_topology();
    unsplit.col_count = 1;
    unsplit.cells.truncate(2);
    unsplit.cells[0].col_span = 1;
    unsplit.cells[1].width = 20_000;
    assert!(
        !is_reparsed_single_column_cell_split_row(&unsplit, 1),
        "원본 1열 giant-cell에는 strict cut을 적용하지 않는다"
    );

    let mut ordinary_two_column = single_column_split_topology();
    ordinary_two_column.cells[2].paragraphs[0].text = text("일반 우측 본문");
    ordinary_two_column.cells[2].paragraphs[0].char_count = 8;
    assert!(
        !is_reparsed_single_column_cell_split_row(&ordinary_two_column, 1),
        "병합 제목행과 일반 2열 데이터행 조합은 #2097 bottom squeeze를 보존한다"
    );

    let mut authored_blank = single_column_split_topology();
    authored_blank.cells[2].paragraphs[0].has_para_text = true;
    assert!(
        !is_reparsed_single_column_cell_split_row(&authored_blank, 1),
        "빈 문자열이어도 PARA_TEXT를 가진 자연 작성 셀은 분할 템플릿 빈 셀이 아니다"
    );

    let mut natural_blank = single_column_split_topology();
    natural_blank.cells[2].paragraphs[0].raw_header_extra[6..10]
        .copy_from_slice(&7_u32.to_le_bytes());
    assert!(
        !is_reparsed_single_column_cell_split_row(&natural_blank, 1),
        "독립 instanceId를 가진 자연 작성 빈 셀은 zeroed template clone이 아니다"
    );

    let mut blank_left = single_column_split_topology();
    blank_left.cells[1].col = 1;
    blank_left.cells[2].col = 0;
    assert!(
        !is_reparsed_single_column_cell_split_row(&blank_left, 1),
        "빈 왼쪽/본문 오른쪽의 자연 2열 행은 split_cell_into(1×2) 형상이 아니다"
    );

    let mut mixed_grid = single_column_split_topology();
    mixed_grid.cells.push(new_empty_cell(1, 0, 10_000, 1_000, 1));
    mixed_grid.cells[0].col_span = 1;
    assert!(
        !is_reparsed_single_column_cell_split_row(&mixed_grid, 1),
        "다른 행이 원래부터 다열이면 1열→2열 분할 저장 구조가 아니다"
    );
}

#[test]
fn saved_tail_fit_chain_stops_on_third_applicable_line() {
    assert_eq!(
        saved_tail_fit_chain_decision(0, true, false, false),
        SavedTailFitChainDecision::Advance,
        "첫 저장 꼬리줄은 허용한다"
    );
    assert_eq!(
        saved_tail_fit_chain_decision(1, true, false, false),
        SavedTailFitChainDecision::Advance,
        "둘째 저장 꼬리줄은 허용한다"
    );
    assert_eq!(
        saved_tail_fit_chain_decision(2, true, false, false),
        SavedTailFitChainDecision::Break,
        "셋째 저장 꼬리줄에서 예산 초과 연쇄를 끊는다"
    );
}

#[test]
fn saved_tail_fit_chain_keeps_authoritative_boundary_exceptions() {
    assert_eq!(
        saved_tail_fit_chain_decision(2, true, true, false),
        SavedTailFitChainDecision::NoChange,
        "HWP 권위 경계는 저장 꼬리줄 상한으로 중단하지 않는다"
    );
    assert_eq!(
        saved_tail_fit_chain_decision(2, true, false, true),
        SavedTailFitChainDecision::NoChange,
        "native HWP5 실제 각주 경계 예외는 저장 꼬리줄 상한으로 중단하지 않는다"
    );
    assert_eq!(
        saved_tail_fit_chain_decision(2, false, false, false),
        SavedTailFitChainDecision::NoChange,
        "저장 꼬리줄 판정이 아니면 연쇄 상태를 바꾸지 않는다"
    );
}

#[test]
fn stored_vpos_rewind_ignores_synthetic_line_segments() {
    let previous = Paragraph {
        line_segs: vec![
            LineSeg {
                vertical_pos: 41_645,
                ..Default::default()
            },
            LineSeg {
                vertical_pos: 0,
                tag: LineSeg::TAG_IMPLEMENTATION_PROPERTY,
                ..Default::default()
            },
        ],
        ..Default::default()
    };
    let current_segs = vec![
        LineSeg {
            vertical_pos: 0,
            tag: LineSeg::TAG_IMPLEMENTATION_PROPERTY,
            ..Default::default()
        },
        LineSeg {
            vertical_pos: 1_000,
            ..Default::default()
        },
    ];
    let current = Paragraph {
        line_segs: current_segs.clone(),
        ..Default::default()
    };
    let paragraphs = vec![
        previous,
        Paragraph {
            line_segs: current_segs,
            ..Default::default()
        },
    ];

    let previous_vpos = preceding_stored_vpos(&paragraphs, 1);
    assert_eq!(previous_vpos, Some(41_645));
    assert!(stored_vpos_rewinds(previous_vpos, &current));
}

#[test]
fn issue2439_strict_following_plain_text_fit_is_consumed_once() {
    let plain = Paragraph {
        text: text("signature"),
        ..Default::default()
    };
    let mut pending = true;
    assert!(take_strict_plain_text_fit_after_empty_host_float_once(
        &mut pending,
        &plain
    ));
    assert!(!pending);
    assert!(!take_strict_plain_text_fit_after_empty_host_float_once(
        &mut pending,
        &plain
    ));

    let mut pending = true;
    let empty = Paragraph {
        char_count: 1,
        line_segs: vec![LineSeg::default()],
        ..Default::default()
    };
    assert!(!take_strict_plain_text_fit_after_empty_host_float_once(
        &mut pending,
        &empty,
    ));
    assert!(
        pending,
        "an ineligible paragraph must not consume the one-shot"
    );
    assert!(take_strict_plain_text_fit_after_empty_host_float_once(
        &mut pending,
        &plain,
    ));
}

#[test]
fn test_saved_flow_marks_page_last() {
    let doc_end = vec![para_at_vpos(0), para_at_vpos(72626)];
    assert!(saved_flow_marks_page_last(&doc_end, 1));

    let reset = vec![para_at_vpos(72626), para_at_vpos(700)];
    assert!(saved_flow_marks_page_last(&reset, 0));

    let cumulative = vec![para_at_vpos(72626), para_at_vpos(74902)];
    assert!(!saved_flow_marks_page_last(&cumulative, 0));

    let with_empty = vec![
        para_at_vpos(72626),
        Paragraph::default(),
        para_at_vpos(74902),
    ];
    assert!(!saved_flow_marks_page_last(&with_empty, 0));

    let mut page_break_next = para_at_vpos(140204);
    page_break_next.column_type = ColumnBreakType::Page;
    let cumulative_with_break = vec![para_at_vpos(137484), page_break_next];
    assert!(saved_flow_marks_page_last(&cumulative_with_break, 0));
}

#[test]
fn issue_3821_square_picture_wrap_band_is_bounded_and_contiguous() {
    let seg = |vertical_pos, column_start, segment_width| LineSeg {
        vertical_pos,
        column_start,
        segment_width,
        ..Default::default()
    };
    let paragraphs = vec![
        Paragraph {
            line_segs: vec![seg(-2000, 0, 45352), seg(0, 0, 25139), seg(2000, 0, 25139)],
            ..Default::default()
        },
        Paragraph {
            line_segs: vec![seg(4000, 0, 25139)],
            ..Default::default()
        },
        Paragraph {
            line_segs: vec![seg(4600, 0, 25139)],
            ..Default::default()
        },
        Paragraph {
            line_segs: vec![seg(5200, 0, 25139)],
            ..Default::default()
        },
        Paragraph {
            line_segs: vec![seg(21800, 0, 25139)],
            ..Default::default()
        },
        Paragraph {
            line_segs: vec![seg(23800, 0, 25139)],
            ..Default::default()
        },
    ];

    assert_eq!(
        square_picture_wrap_band_target_paragraphs(&paragraphs, 0, 0, 23231, 0, 25139),
        vec![0, 1, 2, 3, 4],
        "actual image band must include p1693..p1697 and stop before p1698",
    );
}
