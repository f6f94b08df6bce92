use typeset::deferred::{CoanchoredTableQuery, DeferredTableControl, DeferredTableFlushPoint};
use typeset::layout::{
    has_majority_fullpage_images, page_holds_only_fresh_table_continuation, page_item_para_index,
    page_item_vpos_base, paragraph_by_global_index, square_float_left_lane_width,
    square_picture_wrap_band_target_paragraphs,
};
use typeset::model::{
    AutoNumber, AutoNumberType, Cell, ColumnBreakType, CommonObjAttr, Control, HorzRelTo, LineSeg,
    PageItem, Paragraph, Picture, ShapeKind, ShapeObject, Table, TablePageBreak, TextWrap,
    VertRelTo,
};
use typeset::paragraph::{
    columndef_separator_between_floating_overlays, para_has_non_whitespace_text,
    para_has_visible_text, para_is_short_auto_endnote_marker,
    paragraph_text_looks_like_list_continuation_tail,
};
use typeset::stored::{
    paragraph_forces_page_boundary_after, paragraph_saved_vpos_reset_starts_new_page_after,
    positive_vpos_end_before_negative_wrap, preceding_stored_vpos, stored_vpos_rewinds,
    stored_zero_vpos_after_near_full_line,
};
use typeset::paragraph::{
    upcoming_band_has_floating_object, para_has_only_treat_as_char_picture_or_shape, para_is_treat_as_char_picture_only,
};
use typeset::tables::{
    is_single_noninline_picture_table, is_stored_anchor_picture_table,
    is_two_row_picture_caption_rowbreak_table, row_geometry_table,
    row_has_no_text_or_controls,
};
use typeset::text::debug_brief_line_text;

fn text(s: &str) -> Vec<char> {
    s.chars().collect()
}

fn seg(vertical_pos: i32) -> LineSeg {
    LineSeg {
        vertical_pos,
        line_height: 1000,
        ..Default::default()
    }
}

fn synthetic(vertical_pos: i32) -> LineSeg {
    LineSeg {
        vertical_pos,
        tag: LineSeg::TAG_IMPLEMENTATION_PROPERTY,
        ..Default::default()
    }
}

fn para_with_segs(segs: Vec<LineSeg>) -> Paragraph {
    Paragraph {
        line_segs: segs,
        ..Default::default()
    }
}

#[test]
fn debug_excerpt_escapes_and_cuts() {
    assert_eq!(debug_brief_line_text("a\tb", 10), "a\\tb");
    assert_eq!(debug_brief_line_text("x\r\ny", 10), "x\\r\\ny");
    assert_eq!(debug_brief_line_text("\u{FFFC}표", 10), "<TAC>표");
    assert_eq!(debug_brief_line_text("a\u{7}b", 10), "a b");
    assert_eq!(debug_brief_line_text("abcdef", 3), "abc…");
    assert_eq!(debug_brief_line_text("abc", 3), "abc");
    assert_eq!(debug_brief_line_text("", 0), "");
    assert_eq!(debug_brief_line_text("ab", 0), "…");
}

#[test]
fn whitespace_only_text_is_not_non_whitespace_but_may_be_visible() {
    let ideographic_space = Paragraph {
        text: text(" \u{3000} "),
        ..Default::default()
    };
    assert!(para_has_visible_text(&ideographic_space));
    assert!(!para_has_non_whitespace_text(&ideographic_space));

    let letter = Paragraph {
        text: text("  가"),
        ..Default::default()
    };
    assert!(para_has_non_whitespace_text(&letter));
    assert!(para_has_visible_text(&letter));

    let object_only = Paragraph {
        text: text("\u{FFFC}\r"),
        ..Default::default()
    };
    assert!(!para_has_visible_text(&object_only));
}

#[test]
fn list_continuation_tail_looks_past_leading_space() {
    for (s, expected) in [
        ("  . 항목", true),
        ("- 다음", true),
        ("\u{3000}· 점", true),
        ("• 글머리", true),
        ("1. 번호", false),
        ("", false),
    ] {
        let p = Paragraph {
            text: text(s),
            ..Default::default()
        };
        assert_eq!(paragraph_text_looks_like_list_continuation_tail(&p), expected, "{s:?}");
    }
}

#[test]
fn short_auto_endnote_marker_allows_one_visible_character() {
    let endnote_number = || {
        Control::AutoNumber(AutoNumber {
            number_type: AutoNumberType::Endnote,
            number: 1,
        })
    };
    let marker = Paragraph {
        text: text(" ① "),
        controls: vec![endnote_number()],
        ..Default::default()
    };
    assert!(para_is_short_auto_endnote_marker(&marker));
    let titled = Paragraph {
        text: text("문항"),
        controls: vec![endnote_number()],
        ..Default::default()
    };
    assert!(!para_is_short_auto_endnote_marker(&titled));
    let no_number = Paragraph {
        text: text("①"),
        ..Default::default()
    };
    assert!(!para_is_short_auto_endnote_marker(&no_number));
}

#[test]
fn majority_is_strict_even_for_huge_counts() {
    let half = usize::MAX / 2 + 1;
    assert!(has_majority_fullpage_images(half, usize::MAX - 1));
    assert!(!has_majority_fullpage_images(4, 8));
    assert!(has_majority_fullpage_images(5, 9));
}

#[test]
fn synthetic_segments_do_not_make_a_rewind() {
    let previous = vec![para_with_segs(vec![seg(30_000), synthetic(0)])];
    let prev_vpos = preceding_stored_vpos(&previous, 1);
    assert_eq!(prev_vpos, Some(30_000));
    let only_synthetic = para_with_segs(vec![synthetic(0)]);
    assert!(!stored_vpos_rewinds(prev_vpos, &only_synthetic));
    let with_stored = para_with_segs(vec![synthetic(0), seg(100)]);
    assert!(stored_vpos_rewinds(prev_vpos, &with_stored));
    assert!(!stored_vpos_rewinds(Some(4_000), &with_stored));
    assert!(!stored_vpos_rewinds(None, &with_stored));
}

#[test]
fn preceding_position_passes_over_paragraphs_without_stored_segments() {
    let paragraphs = vec![
        para_with_segs(vec![seg(100), seg(2_000)]),
        Paragraph::default(),
        para_with_segs(vec![synthetic(9_000)]),
        para_with_segs(vec![seg(0)]),
    ];
    assert_eq!(preceding_stored_vpos(&paragraphs, 3), Some(2_000));
    assert_eq!(preceding_stored_vpos(&paragraphs, 0), None);
    assert_eq!(preceding_stored_vpos(&paragraphs, 99), Some(0));
}

#[test]
fn hwp3_variant_widens_the_single_column_reset() {
    let current = para_with_segs(vec![seg(60_000)]);
    let next = para_with_segs(vec![seg(1_000)]);
    assert!(!paragraph_saved_vpos_reset_starts_new_page_after(&current, &next, 1, false));
    assert!(paragraph_saved_vpos_reset_starts_new_page_after(&current, &next, 1, true));
    assert!(paragraph_saved_vpos_reset_starts_new_page_after(&current, &next, 2, false));
    let shallow = para_with_segs(vec![seg(4_000)]);
    assert!(!paragraph_saved_vpos_reset_starts_new_page_after(&shallow, &next, 2, true));

    let mut page_break = para_with_segs(vec![seg(70_000)]);
    page_break.column_type = ColumnBreakType::Page;
    assert!(paragraph_forces_page_boundary_after(&shallow, &page_break, 1, false));
    assert!(paragraph_forces_page_boundary_after(&current, &next, 1, true));
}

#[test]
fn zero_start_after_a_line_reaching_the_body_bottom() {
    let paragraphs = vec![
        para_with_segs(vec![LineSeg {
            vertical_pos: 60_000,
            line_height: 9_000,
            ..Default::default()
        }]),
        para_with_segs(vec![seg(0)]),
    ];
    assert!(stored_zero_vpos_after_near_full_line(&paragraphs, 1, 80_000));
    assert!(!stored_zero_vpos_after_near_full_line(&paragraphs, 1, 90_000));
    assert!(!stored_zero_vpos_after_near_full_line(&paragraphs, 1, 0));
    assert!(!stored_zero_vpos_after_near_full_line(&paragraphs, 0, 80_000));
}

#[test]
fn positive_end_before_a_negative_wrapped_last_line() {
    let p = para_with_segs(vec![
        LineSeg {
            vertical_pos: 5_000,
            line_height: 1_200,
            ..Default::default()
        },
        LineSeg {
            vertical_pos: 2_000,
            line_height: 4_500,
            ..Default::default()
        },
        synthetic(90_000),
        seg(-3_000),
    ]);
    assert_eq!(positive_vpos_end_before_negative_wrap(&p), Some(6_500));
    let positive_last = para_with_segs(vec![seg(5_000), seg(6_000)]);
    assert_eq!(positive_vpos_end_before_negative_wrap(&positive_last), None);
    let only_negative = para_with_segs(vec![seg(-10), seg(-5)]);
    assert_eq!(positive_vpos_end_before_negative_wrap(&only_negative), None);
}

#[test]
fn global_index_reaches_endnotes_after_the_body() {
    let body = vec![para_with_segs(vec![seg(1)]), para_with_segs(vec![seg(2)])];
    let endnotes = vec![para_with_segs(vec![seg(3)])];
    let first = |i| paragraph_by_global_index(&body, &endnotes, i).map(|p| p.line_segs[0].vertical_pos);
    assert_eq!(first(0), Some(1));
    assert_eq!(first(1), Some(2));
    assert_eq!(first(2), Some(3));
    assert_eq!(first(3), None);
}

#[test]
fn page_item_positions() {
    let paragraphs = vec![
        para_with_segs(vec![seg(100), seg(1_100)]),
        Paragraph::default(),
    ];
    let partial = PageItem::PartialParagraph {
        para_index: 0,
        start_line: 1,
        end_line: 2,
    };
    assert_eq!(page_item_para_index(&partial), Some(0));
    assert_eq!(page_item_vpos_base(&partial, &paragraphs), Some(1_100));
    let table = PageItem::Table {
        para_index: 0,
        control_index: 0,
    };
    assert_eq!(page_item_vpos_base(&table, &paragraphs), Some(100));
    let empty = PageItem::FullParagraph { para_index: 1 };
    assert_eq!(page_item_vpos_base(&empty, &paragraphs), None);
    let missing = PageItem::Shape {
        para_index: 7,
        control_index: 0,
    };
    assert_eq!(page_item_para_index(&missing), Some(7));
    assert_eq!(page_item_vpos_base(&missing, &paragraphs), None);
    assert_eq!(page_item_para_index(&PageItem::EndnoteSeparator), None);
    assert_eq!(page_item_vpos_base(&PageItem::EndnoteSeparator, &paragraphs), None);
}

fn square_float(horizontal_offset: u32, width: u32, right_margin: i16) -> Control {
    let mut common = CommonObjAttr {
        text_wrap: TextWrap::Square,
        horz_rel_to: HorzRelTo::Column,
        horizontal_offset,
        width,
        ..Default::default()
    };
    common.margin.right = right_margin;
    Control::Shape(Box::new(ShapeObject {
        kind: ShapeKind::Rectangle,
        common,
    }))
}

#[test]
fn left_lane_of_a_square_float_at_the_column_edge() {
    let p = Paragraph {
        controls: vec![square_float(29_138, 12_000, 0)],
        ..Default::default()
    };
    assert_eq!(square_float_left_lane_width(&p, 41_200), Some(29_138));
    assert_eq!(square_float_left_lane_width(&p, 41_500), None);
    let two = Paragraph {
        controls: vec![square_float(29_138, 12_000, 0), square_float(100, 100, 0)],
        ..Default::default()
    };
    assert_eq!(square_float_left_lane_width(&two, 41_200), None);
    let at_left = Paragraph {
        controls: vec![square_float(0, 41_200, 0)],
        ..Default::default()
    };
    assert_eq!(square_float_left_lane_width(&at_left, 41_200), None);
}

#[test]
fn empty_wrap_band_targets_nothing() {
    let paragraphs = vec![para_with_segs(vec![seg(0)])];
    assert!(square_picture_wrap_band_target_paragraphs(&paragraphs, 0, 10, 10, 0, 1_000).is_empty());
    assert_eq!(
        square_picture_wrap_band_target_paragraphs(&paragraphs, 5, 0, 10, 0, 0),
        Vec::<usize>::new()
    );
}

fn rowbreak_table(vertical_offset: u32) -> Table {
    Table {
        common: CommonObjAttr {
            text_wrap: TextWrap::TopAndBottom,
            vert_rel_to: VertRelTo::Para,
            vertical_offset,
            ..Default::default()
        },
        page_break: TablePageBreak::RowBreak,
        ..Default::default()
    }
}

#[test]
fn coanchored_rowbreak_tables() {
    let empty = Paragraph::default();
    let query = CoanchoredTableQuery::new(&empty);
    let below = rowbreak_table(500);
    let at_anchor = rowbreak_table(0);
    assert!(query.is_deferred_coanchored_rowbreak_table(&below, false));
    assert!(query.is_coanchored_rowbreak_split_trigger_table(&below, false));
    assert!(!query.is_deferred_coanchored_rowbreak_table(&at_anchor, false));
    assert!(query.is_coanchored_rowbreak_split_trigger_table(&at_anchor, false));
    assert!(!query.is_coanchored_rowbreak_split_trigger_table(&below, true));
    let negative = rowbreak_table((-200i32) as u32);
    assert!(!query.is_deferred_coanchored_rowbreak_table(&negative, false));

    let continued = vec![PageItem::PartialTable {
        para_index: 0,
        control_index: 0,
        start_row: 3,
        end_row: 5,
        is_continuation: true,
    }];
    assert!(query.should_defer_remaining_coanchored_rowbreak_tables(&at_anchor, false, 2, &continued, 1));
    assert!(!query.should_defer_remaining_coanchored_rowbreak_tables(&at_anchor, false, 1, &continued, 1));
    let fresh = vec![PageItem::PartialTable {
        para_index: 0,
        control_index: 0,
        start_row: 0,
        end_row: 2,
        is_continuation: false,
    }];
    assert!(!query.should_defer_remaining_coanchored_rowbreak_tables(&at_anchor, false, 2, &fresh, 1));
    assert!(!query.should_defer_remaining_coanchored_rowbreak_tables(&at_anchor, false, 2, &Vec::new(), 1));

    let text_host = Paragraph {
        text: text("본문"),
        ..Default::default()
    };
    let text_query = CoanchoredTableQuery::new(&text_host);
    assert!(!text_query.is_coanchored_rowbreak_split_trigger_table(&below, false));
}

#[test]
fn deferred_tables_wait_for_visible_text_between() {
    let deferred = DeferredTableControl {
        para_index: 1,
        control_index: 0,
        is_first_placed: true,
        is_last_placed: false,
    };
    let paragraphs = vec![
        Paragraph::default(),
        Paragraph::default(),
        Paragraph::default(),
        Paragraph {
            text: text("본문"),
            ..Default::default()
        },
        Paragraph::default(),
    ];
    assert!(DeferredTableFlushPoint::BeforeTableParagraph(1).keeps_pending(&deferred, &paragraphs));
    assert!(!DeferredTableFlushPoint::BeforeTableParagraph(3).keeps_pending(&deferred, &paragraphs));
    assert!(DeferredTableFlushPoint::BeforeTableParagraph(4).keeps_pending(&deferred, &paragraphs));
    assert!(DeferredTableFlushPoint::AfterTableParagraph(0).keeps_pending(&deferred, &paragraphs));
    assert!(!DeferredTableFlushPoint::AfterTableParagraph(2).keeps_pending(&deferred, &paragraphs));
    assert!(!DeferredTableFlushPoint::SectionEnd.keeps_pending(&deferred, &paragraphs));
}

#[test]
fn separator_between_two_overlays() {
    let overlay = || Paragraph {
        text: text("x"),
        ..Default::default()
    };
    let blank = || Paragraph {
        text: text("  "),
        ..Default::default()
    };
    let column_def = || Paragraph {
        controls: vec![Control::ColumnDef],
        ..Default::default()
    };
    let paragraphs = vec![overlay(), blank(), column_def(), blank(), overlay()];
    let flags = vec![true, false, false, false, true];
    assert!(columndef_separator_between_floating_overlays(2, &paragraphs, &flags));
    let flags_next_plain = vec![true, false, false, false, false];
    assert!(!columndef_separator_between_floating_overlays(2, &paragraphs, &flags_next_plain));
    assert!(!columndef_separator_between_floating_overlays(0, &paragraphs, &flags));
    assert!(!columndef_separator_between_floating_overlays(4, &paragraphs, &flags));
}

fn cell_with(row: u16, row_span: u16, text_value: &str, controls: Vec<Control>) -> Cell {
    Cell {
        row,
        row_span,
        col_span: 1,
        paragraphs: vec![Paragraph {
            text: text(text_value),
            controls,
            ..Default::default()
        }],
        ..Default::default()
    }
}

#[test]
fn row_without_text_or_controls() {
    let table = Table {
        row_count: 3,
        col_count: 1,
        cells: vec![
            cell_with(0, 1, " \u{1} \r", Vec::new()),
            cell_with(1, 1, "값", Vec::new()),
            cell_with(2, 1, "", vec![Control::Bookmark]),
            cell_with(0, 2, "걸친 칸", Vec::new()),
        ],
        ..Default::default()
    };
    assert!(row_has_no_text_or_controls(&table, 0));
    assert!(!row_has_no_text_or_controls(&table, 1));
    assert!(!row_has_no_text_or_controls(&table, 2));
    assert!(!row_has_no_text_or_controls(&table, 5));
}

#[test]
fn fresh_continuation_page() {
    let paragraphs = vec![
        Paragraph::default(),
        Paragraph {
            text: text("본문"),
            ..Default::default()
        },
    ];
    let continued = PageItem::PartialTable {
        para_index: 0,
        control_index: 0,
        start_row: 4,
        end_row: 6,
        is_continuation: true,
    };
    let empty_para = PageItem::FullParagraph { para_index: 0 };
    assert!(page_holds_only_fresh_table_continuation(&vec![continued, empty_para], false, &paragraphs));
    assert!(!page_holds_only_fresh_table_continuation(&vec![continued, empty_para], true, &paragraphs));
    assert!(!page_holds_only_fresh_table_continuation(&vec![empty_para], false, &paragraphs));
    assert!(!page_holds_only_fresh_table_continuation(&vec![], false, &paragraphs));
    let text_para = PageItem::FullParagraph { para_index: 1 };
    assert!(!page_holds_only_fresh_table_continuation(&vec![continued, text_para], false, &paragraphs));
}

#[test]
fn row_geometry_unwraps_empty_wrappers_until_a_real_table() {
    let inner = Table {
        row_count: 3,
        col_count: 2,
        ..Default::default()
    };
    let middle = Table {
        row_count: 1,
        col_count: 1,
        cells: vec![Cell {
            paragraphs: vec![Paragraph {
                text: text(" \r\n"),
                controls: vec![Control::Bookmark, Control::Table(Box::new(inner))],
                ..Default::default()
            }],
            ..Default::default()
        }],
        ..Default::default()
    };
    let outer = Table {
        row_count: 1,
        col_count: 1,
        cells: vec![Cell {
            paragraphs: vec![Paragraph {
                controls: vec![Control::Table(Box::new(middle))],
                ..Default::default()
            }],
            ..Default::default()
        }],
        ..Default::default()
    };
    let geometry = row_geometry_table(&outer);
    assert_eq!((geometry.row_count, geometry.col_count), (3, 2));
    let again = row_geometry_table(geometry);
    assert!(std::ptr::eq(again, geometry));

    let captioned = Table {
        row_count: 1,
        col_count: 1,
        cells: vec![Cell {
            paragraphs: vec![Paragraph {
                text: text("캡션"),
                controls: vec![Control::Table(Box::new(Table::default()))],
                ..Default::default()
            }],
            ..Default::default()
        }],
        ..Default::default()
    };
    assert!(std::ptr::eq(row_geometry_table(&captioned), &captioned));
}

#[test]
fn picture_control_is_not_a_square_float_when_inline() {
    let mut pic = Picture::default();
    pic.common.treat_as_char = true;
    let p = Paragraph {
        controls: vec![Control::Picture(Box::new(pic))],
        ..Default::default()
    };
    assert_eq!(square_float_left_lane_width(&p, 40_000), None);
}

#[test]
fn exclusive_inline_picture_paragraph_is_a_picture_only_paragraph() {
    let mut pic = Picture::default();
    pic.common.treat_as_char = true;
    let p = Paragraph {
        text: text("\u{FFFC}"),
        controls: vec![
            Control::Picture(Box::new(pic)),
            Control::Shape(Box::new(ShapeObject {
                kind: ShapeKind::Ellipse,
                common: CommonObjAttr {
                    treat_as_char: true,
                    ..Default::default()
                },
            })),
        ],
        ..Default::default()
    };
    assert!(para_has_only_treat_as_char_picture_or_shape(&p));
    assert!(para_is_treat_as_char_picture_only(&p));
}

#[test]
fn single_picture_table_is_a_stored_anchor_picture_table() {
    let table = Table {
        row_count: 1,
        col_count: 1,
        page_break: TablePageBreak::RowBreak,
        cells: vec![Cell {
            row_span: 1,
            col_span: 1,
            paragraphs: vec![Paragraph {
                text: text(" "),
                controls: vec![Control::Picture(Box::new(Picture::default()))],
                ..Default::default()
            }],
            ..Default::default()
        }],
        ..Default::default()
    };
    assert!(is_single_noninline_picture_table(&table));
    assert!(is_stored_anchor_picture_table(&table));
}

#[test]
fn band_after_a_column_break_ends_at_the_next_break_or_column_definition() {
    let floating_table = || Control::Table(Box::new(Table::default()));
    let mut inline = Table::default();
    inline.common.treat_as_char = true;
    let mut broken = Paragraph {
        controls: vec![floating_table()],
        ..Default::default()
    };
    broken.column_type = ColumnBreakType::Column;
    let paragraphs = vec![
        Paragraph {
            controls: vec![Control::Table(Box::new(inline))],
            ..Default::default()
        },
        Paragraph::default(),
        broken,
        Paragraph {
            controls: vec![Control::ColumnDef, floating_table()],
            ..Default::default()
        },
    ];
    assert!(!upcoming_band_has_floating_object(0, &paragraphs));
    assert!(upcoming_band_has_floating_object(2, &paragraphs));
    assert!(upcoming_band_has_floating_object(3, &paragraphs));
    assert!(!upcoming_band_has_floating_object(4, &paragraphs));
}

#[test]
fn picture_caption_table_must_split_by_row() {
    let make = |page_break| Table {
        row_count: 2,
        col_count: 1,
        page_break,
        cells: vec![
            Cell {
                row: 0,
                row_span: 1,
                col_span: 1,
                paragraphs: vec![Paragraph {
                    controls: vec![Control::Picture(Box::new(Picture::default()))],
                    ..Default::default()
                }],
                ..Default::default()
            },
            Cell {
                row: 1,
                row_span: 1,
                col_span: 1,
                paragraphs: vec![Paragraph {
                    text: text("그림 1. 설명"),
                    ..Default::default()
                }],
                ..Default::default()
            },
        ],
        ..Default::default()
    };
    assert!(is_two_row_picture_caption_rowbreak_table(&make(TablePageBreak::RowBreak)));
    assert!(!is_two_row_picture_caption_rowbreak_table(&make(TablePageBreak::CellBreak)));
    assert!(!is_two_row_picture_caption_rowbreak_table(&make(TablePageBreak::NoBreak)));
}
