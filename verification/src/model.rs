//! The document model read by the typesetting queries: paragraphs with their
//! stored line segments, the controls anchored in them, and tables with cells.
//!
//! Only the fields that the queries read are held, as plain values.
use vstd::prelude::*;

verus! {

/// How an object lets the surrounding text flow.
#[derive(Debug, Clone, Copy, PartialEq, Eq, Default)]
pub enum TextWrap {
    #[default]
    Square,
    TopAndBottom,
    BehindText,
    InFrontOfText,
}

/// What an object's vertical position is measured from.
#[derive(Debug, Clone, Copy, PartialEq, Eq, Default)]
pub enum VertRelTo {
    #[default]
    Paper,
    Page,
    Para,
}

/// What an object's horizontal position is measured from.
#[derive(Debug, Clone, Copy, PartialEq, Eq, Default)]
pub enum HorzRelTo {
    #[default]
    Paper,
    Page,
    Column,
    Para,
}

/// Vertical alignment of an object within its reference area.
#[derive(Debug, Clone, Copy, PartialEq, Eq, Default)]
pub enum VertAlign {
    #[default]
    Top,
    Center,
    Bottom,
    Inside,
    Outside,
}

/// Outer margins of an object, in HWPUNIT.
#[derive(Debug, Clone, Copy, PartialEq, Eq, Default)]
pub struct Margin {
    pub left: i16,
    pub right: i16,
    pub top: i16,
    pub bottom: i16,
}

/// Attributes shared by every anchored object (table, picture, shape, equation).
#[derive(Debug, Clone, Copy, PartialEq, Eq, Default)]
pub struct CommonObjAttr {
    pub treat_as_char: bool,
    pub flow_with_text: bool,
    pub allow_overlap: bool,
    pub text_wrap: TextWrap,
    pub vert_rel_to: VertRelTo,
    pub horz_rel_to: HorzRelTo,
    pub vert_align: VertAlign,
    /// Stored unsigned; negative offsets are two's complement (see [`signed_hwpunit`]).
    pub vertical_offset: u32,
    pub horizontal_offset: u32,
    pub width: u32,
    pub height: u32,
    pub margin: Margin,
}

/// One stored line segment (`LINE_SEG`) of a paragraph, in HWPUNIT.
#[derive(Debug, Clone, Copy, PartialEq, Eq, Default)]
pub struct LineSeg {
    pub text_start: u32,
    pub vertical_pos: i32,
    pub line_height: i32,
    pub text_height: i32,
    pub baseline_distance: i32,
    pub line_spacing: i32,
    pub column_start: i32,
    pub segment_width: i32,
    pub tag: u32,
}

impl LineSeg {
    /// Tag bit: the segment is the first segment of its line.
    pub const TAG_FIRST_SEGMENT: u32 = 0x0002_0000;
    /// Tag bit: the segment was made by a program, not stored by a layout.
    pub const TAG_IMPLEMENTATION_PROPERTY: u32 = 0x8000_0000;
}

/// The break that a paragraph starts with.
#[derive(Debug, Clone, Copy, PartialEq, Eq, Default)]
pub enum ColumnBreakType {
    #[default]
    NoBreak,
    Section,
    MultiColumn,
    Page,
    Column,
}

/// A character shape run start of a paragraph.
#[derive(Debug, Clone, Copy, PartialEq, Eq, Default)]
pub struct CharShapeRef {
    pub start_pos: u32,
    pub char_shape_id: u32,
}

/// Kind of number an auto-number control counts.
#[derive(Debug, Clone, Copy, PartialEq, Eq, Default)]
pub enum AutoNumberType {
    #[default]
    Page,
    Footnote,
    Endnote,
    Picture,
    Table,
    Equation,
}

/// An automatic number in the text.
#[derive(Debug, Clone, Copy, PartialEq, Eq, Default)]
pub struct AutoNumber {
    pub number_type: AutoNumberType,
    pub number: u16,
}

/// A control that restarts a numbering.
#[derive(Debug, Clone, Copy, PartialEq, Eq, Default)]
pub struct NewNumber {
    pub number_type: AutoNumberType,
    pub number: u16,
}

/// A picture object.
#[derive(Debug, Clone, Copy, PartialEq, Eq, Default)]
pub struct Picture {
    pub common: CommonObjAttr,
}

/// An equation object.
#[derive(Debug, Clone, Copy, PartialEq, Eq, Default)]
pub struct Equation {
    pub common: CommonObjAttr,
}

/// The kind of a drawing object.
#[derive(Debug, Clone, Copy, PartialEq, Eq, Default)]
pub enum ShapeKind {
    #[default]
    Rectangle,
    Line,
    Ellipse,
    Polygon,
    Curve,
    Group,
    Picture,
}

/// A drawing object; a picture drawn as a shape carries the picture's attributes.
#[derive(Debug, Clone, Copy, PartialEq, Eq, Default)]
pub struct ShapeObject {
    pub kind: ShapeKind,
    pub common: CommonObjAttr,
}

impl ShapeObject {
    /// The object's common attributes.
    pub fn common(&self) -> (r: &CommonObjAttr)
        ensures
            *r == self.common,
    {
        &self.common
    }
}

/// A control anchored in a paragraph.
#[derive(Debug, Default)]
pub enum Control {
    SectionDef,
    ColumnDef,
    Table(Box<Table>),
    Picture(Box<Picture>),
    Shape(Box<ShapeObject>),
    Equation(Box<Equation>),
    AutoNumber(AutoNumber),
    NewNumber(NewNumber),
    PageHide,
    Bookmark,
    Header,
    Footer,
    Footnote,
    Endnote,
    PageNumberPos,
    #[default]
    Form,
}

/// A paragraph with its text, controls and stored line segments.
#[derive(Debug, Default)]
pub struct Paragraph {
    pub text: Vec<char>,
    pub char_count: u32,
    pub controls: Vec<Control>,
    pub line_segs: Vec<LineSeg>,
    pub char_shapes: Vec<CharShapeRef>,
    pub para_shape_id: u16,
    pub style_id: u8,
    pub column_type: ColumnBreakType,
    pub has_para_text: bool,
    /// Raw paragraph header bytes beyond the fixed fields; bytes 6..10 hold the instance id.
    pub raw_header_extra: Vec<u8>,
}

/// How a table may be split across pages.
#[derive(Debug, Clone, Copy, PartialEq, Eq, Default)]
pub enum TablePageBreak {
    #[default]
    NoBreak,
    CellBreak,
    RowBreak,
}

/// Inner padding of a cell, in HWPUNIT.
#[derive(Debug, Clone, Copy, PartialEq, Eq, Default)]
pub struct Padding {
    pub left: i16,
    pub right: i16,
    pub top: i16,
    pub bottom: i16,
}

/// A table cell.
#[derive(Debug, Default)]
pub struct Cell {
    pub row: u16,
    pub col: u16,
    pub row_span: u16,
    pub col_span: u16,
    pub width: u32,
    pub height: u32,
    pub border_fill_id: u16,
    pub padding: Padding,
    pub paragraphs: Vec<Paragraph>,
    pub raw_list_extra: Vec<u8>,
    pub list_header_width_ref: u32,
    pub text_direction: u8,
    pub vertical_align: u8,
    pub apply_inner_margin: bool,
    pub is_header: bool,
}

/// A table control.
#[derive(Debug, Default)]
pub struct Table {
    pub common: CommonObjAttr,
    pub row_count: u16,
    pub col_count: u16,
    pub cells: Vec<Cell>,
    pub page_break: TablePageBreak,
    pub outer_margin_top: i16,
    pub outer_margin_bottom: i16,
    pub raw_table_record_attr: u32,
}

/// One item placed on a page by the typesetter.
#[derive(Debug, Clone, Copy, PartialEq, Eq)]
pub enum PageItem {
    FullParagraph { para_index: usize },
    PartialParagraph { para_index: usize, start_line: usize, end_line: usize },
    Table { para_index: usize, control_index: usize },
    PartialTable {
        para_index: usize,
        control_index: usize,
        start_row: usize,
        end_row: usize,
        is_continuation: bool,
    },
    Shape { para_index: usize, control_index: usize },
    EndnoteSeparator,
}

/// A stored HWPUNIT offset read as the signed value it encodes.
pub open spec fn spec_signed_hwpunit(v: u32) -> i32 {
    v as i32
}

/// Reads a stored offset as the signed value it encodes (two's complement).
pub fn signed_hwpunit(v: u32) -> (r: i32)
    ensures
        r == spec_signed_hwpunit(v),
{
    v as i32
}

/// A non-inline object placed top-and-bottom relative to its paragraph.
pub open spec fn spec_para_topbottom_float(c: CommonObjAttr) -> bool {
    &&& !c.treat_as_char
    &&& c.text_wrap is TopAndBottom
    &&& c.vert_rel_to is Para
}

/// Whether the object is a non-inline, top-and-bottom, paragraph-relative float.
pub fn is_para_topbottom_float(c: &CommonObjAttr) -> (r: bool)
    ensures
        r == spec_para_topbottom_float(*c),
{
    !c.treat_as_char && matches!(c.text_wrap, TextWrap::TopAndBottom) && matches!(
        c.vert_rel_to,
        VertRelTo::Para
    )
}

/// A non-inline object fixed to the bottom of the page.
pub open spec fn spec_page_bottom_fixed_float(c: CommonObjAttr) -> bool {
    &&& !c.treat_as_char
    &&& c.vert_rel_to is Page
    &&& c.vert_align is Bottom
}

/// Whether the object is a non-inline object aligned to the page bottom.
pub fn is_page_bottom_fixed_float(c: &CommonObjAttr) -> (r: bool)
    ensures
        r == spec_page_bottom_fixed_float(*c),
{
    !c.treat_as_char && matches!(c.vert_rel_to, VertRelTo::Page) && matches!(
        c.vert_align,
        VertAlign::Bottom
    )
}

/// The common attributes of an object control (table, picture, shape, equation).
pub open spec fn spec_object_common(c: Control) -> Option<CommonObjAttr> {
    match c {
        Control::Table(t) => Some(t.common),
        Control::Picture(p) => Some(p.common),
        Control::Shape(s) => Some(s.common),
        Control::Equation(e) => Some(e.common),
        _ => None,
    }
}

/// The common attributes of a picture or shape control.
pub open spec fn spec_picture_or_shape_common(c: Control) -> Option<CommonObjAttr> {
    match c {
        Control::Picture(p) => Some(p.common),
        Control::Shape(s) => Some(s.common),
        _ => None,
    }
}

/// A segment made by a program rather than stored by a layout.
pub open spec fn spec_synthetic(ls: LineSeg) -> bool {
    ls.tag & 0x8000_0000u32 != 0
}

} // verus!
