//! The draw plan: the sequence of primitive instructions that draws a chart.

use vstd::prelude::*;
use vstd::string::StringExecFns;

use crate::color::Rgb;
use crate::geometry::{trunc_div, Point, Rect};
use crate::layout::{
    bar_views, markers_bounded, BarGeometry, BarView, ChartLayout, Frame, Marker, BAR_BORDER,
};
use crate::number::{decimal_digits, decimal_text};
use crate::text::{display_title, display_title_spec};

verus! {

/// What an area is filled or a line is stroked with.
#[derive(Clone, Copy, Debug, PartialEq, Eq, Structural)]
pub enum Paint {
    White,
    Black,
    /// The light grey of the tick lines.
    Grid,
    /// The color of a bar.
    Bar(Rgb),
}

/// The style of a serif font.
#[derive(Clone, Copy, Debug, PartialEq, Eq, Structural)]
pub enum FontStyle {
    Regular,
    Bold,
    Italic,
}

/// A serif font of a style and a height.
#[derive(Clone, Copy, Debug, PartialEq, Eq, Structural)]
pub struct Font {
    pub style: FontStyle,
    pub height: i64,
}

/// The side of a text that stands at its anchor.
#[derive(Clone, Copy, Debug, PartialEq, Eq, Structural)]
pub enum TextAlign {
    Right,
    Center,
}

/// One primitive drawing operation.
#[derive(Debug, PartialEq, Eq)]
pub enum DrawInstruction {
    SetFillColor(Paint),
    SetStrokeColor(Paint),
    SetLineWidth(i64),
    SetFont(Font),
    FillRect(Rect),
    StrokeRect(Rect),
    /// Strokes the open line through the points.
    StrokePath { points: Vec<Point> },
    FillText { text: String, at: Point, align: TextAlign },
    Save,
    Restore,
    Translate(Point),
    /// Turns the surface clockwise by so many degrees.
    Rotate { degrees: u32 },
}

/// A drawing operation as a mathematical value.
pub enum Instruction {
    SetFillColor(Paint),
    SetStrokeColor(Paint),
    SetLineWidth(int),
    SetFont(Font),
    FillRect(Rect),
    StrokeRect(Rect),
    StrokePath { points: Seq<Point> },
    FillText { text: Seq<char>, at: Point, align: TextAlign },
    Save,
    Restore,
    Translate(Point),
    Rotate { degrees: nat },
}

impl View for DrawInstruction {
    type V = Instruction;

    open spec fn view(&self) -> Instruction {
        match *self {
            DrawInstruction::SetFillColor(paint) => Instruction::SetFillColor(paint),
            DrawInstruction::SetStrokeColor(paint) => Instruction::SetStrokeColor(paint),
            DrawInstruction::SetLineWidth(width) => Instruction::SetLineWidth(width as int),
            DrawInstruction::SetFont(font) => Instruction::SetFont(font),
            DrawInstruction::FillRect(rect) => Instruction::FillRect(rect),
            DrawInstruction::StrokeRect(rect) => Instruction::StrokeRect(rect),
            DrawInstruction::StrokePath { points } => Instruction::StrokePath { points: points@ },
            DrawInstruction::FillText { text, at, align } => Instruction::FillText {
                text: text@,
                at,
                align,
            },
            DrawInstruction::Save => Instruction::Save,
            DrawInstruction::Restore => Instruction::Restore,
            DrawInstruction::Translate(by) => Instruction::Translate(by),
            DrawInstruction::Rotate { degrees } => Instruction::Rotate { degrees: degrees as nat },
        }
    }
}

/// The instructions that a vector of drawing operations stands for.
pub open spec fn plan_views(plan: Seq<DrawInstruction>) -> Seq<Instruction> {
    plan.map_values(|i: DrawInstruction| i@)
}

/// The width of the lines of the border around the surface.
pub const BORDER_WIDTH: i64 = 2000;

/// The quarter turn that sets the caption of the vertical axis upright.
pub const CAPTION_TURN: u32 = 270;

/// The white background over the whole surface.
pub open spec fn background_section(f: Frame) -> Seq<Instruction> {
    seq![
        Instruction::SetFillColor(Paint::White),
        Instruction::FillRect(
            Rect { left: 0, top: 0, right: f.surface_width, bottom: f.surface_height },
        ),
    ]
}

/// The label of a tick: its value in decimal digits, and a space that
/// keeps it clear of the axis.
pub open spec fn marker_label(value: u32) -> Seq<char> {
    decimal_digits(value as nat).push(' ')
}

/// The line and the label of one tick. The line starts where the label
/// starts and runs to the right end of the axis. The label ends at the
/// vertical axis, lifted a little above the line.
pub open spec fn marker_instructions(f: Frame, m: Marker) -> Seq<Instruction> {
    seq![
        Instruction::StrokePath {
            points: seq![
                Point { x: (f.marker_x - m.label_width) as i64, y: m.y },
                Point { x: f.axis_right, y: m.y },
            ],
        },
        Instruction::FillText {
            text: marker_label(m.value),
            at: Point { x: f.marker_x, y: (m.y - f.metrics.marker_lift) as i64 },
            align: TextAlign::Right,
        },
    ]
}

/// The lines and labels of the ticks, one tick after the other.
pub open spec fn marker_run(f: Frame, markers: Seq<Marker>) -> Seq<Instruction>
    decreases markers.len(),
{
    if markers.len() == 0 {
        Seq::empty()
    } else {
        marker_run(f, markers.drop_last()) + marker_instructions(f, markers.last())
    }
}

/// The ticks of the vertical axis: grey lines with black labels.
pub open spec fn marker_section(f: Frame, markers: Seq<Marker>) -> Seq<Instruction> {
    seq![
        Instruction::SetStrokeColor(Paint::Grid),
        Instruction::SetFillColor(Paint::Black),
        Instruction::SetFont(
            Font { style: FontStyle::Regular, height: f.metrics.marker_font_height },
        ),
    ] + marker_run(f, markers)
}

/// One bar: its rectangle filled in its color and outlined, its category
/// under it and its total above it.
pub open spec fn bar_instructions(f: Frame, b: BarView) -> Seq<Instruction> {
    seq![
        Instruction::SetFillColor(Paint::Bar(b.fill_color)),
        Instruction::FillRect(b.rect),
        Instruction::StrokeRect(b.rect),
        Instruction::SetFillColor(Paint::Black),
        Instruction::SetFont(
            Font { style: FontStyle::Regular, height: f.metrics.label_font_height },
        ),
        Instruction::FillText { text: b.category, at: b.label_anchor, align: TextAlign::Center },
        Instruction::SetFont(
            Font { style: FontStyle::Regular, height: f.metrics.count_font_height },
        ),
        Instruction::FillText {
            text: decimal_digits(b.total),
            at: b.count_anchor,
            align: TextAlign::Center,
        },
    ]
}

/// The bars, one after the other, from left to right.
pub open spec fn bar_run(f: Frame, bars: Seq<BarView>) -> Seq<Instruction>
    decreases bars.len(),
{
    if bars.len() == 0 {
        Seq::empty()
    } else {
        bar_run(f, bars.drop_last()) + bar_instructions(f, bars.last())
    }
}

/// The bars, outlined in black.
pub open spec fn bar_section(f: Frame, bars: Seq<BarView>) -> Seq<Instruction> {
    seq![
        Instruction::SetLineWidth(BAR_BORDER as int),
        Instruction::SetStrokeColor(Paint::Black),
    ] + bar_run(f, bars)
}

/// The two axes, drawn as one line: from the right end of the horizontal
/// axis to the foot of the vertical axis, and up to its head.
pub open spec fn axis_section(f: Frame) -> Seq<Instruction> {
    seq![
        Instruction::SetLineWidth(f.metrics.axis_thickness as int),
        Instruction::StrokePath {
            points: seq![
                Point { x: f.axis_right, y: f.y_base },
                Point { x: f.marker_x, y: f.y_base },
                Point { x: f.marker_x, y: f.y_top },
            ],
        },
    ]
}

/// The middle of the plot from left to right.
pub open spec fn plot_middle(f: Frame) -> int {
    f.regions.plot.rect.left + trunc_div(f.regions.plot.width as int, 2)
}

/// The title, in bold, centered over the plot in the top region.
pub open spec fn title_section(f: Frame, title: Seq<char>) -> Seq<Instruction> {
    seq![
        Instruction::SetFont(Font { style: FontStyle::Bold, height: f.metrics.title_font_height }),
        Instruction::SetFillColor(Paint::Black),
        Instruction::FillText {
            text: title,
            at: Point {
                x: plot_middle(f) as i64,
                y: (f.regions.top.rect.top + trunc_div(f.regions.top.height as int, 2) + trunc_div(
                    f.metrics.title_font_height as int,
                    2,
                )) as i64,
            },
            align: TextAlign::Center,
        },
    ]
}

/// The caption of the vertical axis, in italics, set upright in the left
/// margin: the surface is moved and turned for it, and restored after.
pub open spec fn y_caption_section(f: Frame, caption: Seq<char>) -> Seq<Instruction> {
    seq![
        Instruction::Save,
        Instruction::Translate(
            Point {
                x: (f.regions.left.rect.left + trunc_div(f.regions.left.width as int, 2)
                    + f.metrics.y_caption_font_height) as i64,
                y: (trunc_div(f.surface_height as int, 2) - f.metrics.axis_thickness
                    - f.metrics.label_font_height) as i64,
            },
        ),
        Instruction::Rotate { degrees: CAPTION_TURN as nat },
        Instruction::SetFont(
            Font { style: FontStyle::Italic, height: f.metrics.y_caption_font_height },
        ),
        Instruction::SetFillColor(Paint::Black),
        Instruction::FillText { text: caption, at: Point { x: 0, y: 0 }, align: TextAlign::Center },
        Instruction::Restore,
    ]
}

/// The caption of the horizontal axis, in italics, centered under the plot
/// in the bottom region.
pub open spec fn x_caption_section(f: Frame, caption: Seq<char>) -> Seq<Instruction> {
    seq![
        Instruction::SetFont(
            Font { style: FontStyle::Italic, height: f.metrics.x_caption_font_height },
        ),
        Instruction::SetFillColor(Paint::Black),
        Instruction::FillText {
            text: caption,
            at: Point {
                x: plot_middle(f) as i64,
                y: (f.regions.bottom.rect.top + trunc_div(f.regions.bottom.height as int, 2))
                    as i64,
            },
            align: TextAlign::Center,
        },
    ]
}

/// The border: a white line around the surface, and a black one around the
/// display area.
pub open spec fn border_section(f: Frame) -> Seq<Instruction> {
    seq![
        Instruction::SetLineWidth(BORDER_WIDTH as int),
        Instruction::SetStrokeColor(Paint::White),
        Instruction::StrokeRect(
            Rect { left: 0, top: 0, right: f.surface_width, bottom: f.surface_height },
        ),
        Instruction::SetLineWidth(BORDER_WIDTH as int),
        Instruction::SetStrokeColor(Paint::Black),
        Instruction::StrokeRect(display_rect(f)),
    ]
}

/// The rectangle of the display area, which the five regions fill.
pub open spec fn display_rect(f: Frame) -> Rect {
    Rect {
        left: f.regions.top.rect.left,
        top: f.regions.top.rect.top,
        right: f.regions.bottom.rect.right,
        bottom: f.regions.bottom.rect.bottom,
    }
}

/// The captions of a chart.
pub struct Captions {
    pub title: Seq<char>,
    pub x_axis: Seq<char>,
    pub y_axis: Seq<char>,
}

/// The whole plan, in drawing order: background, ticks, bars, axes, title,
/// the two captions, and the border.
pub open spec fn plan_spec(f: Frame, markers: Seq<Marker>, bars: Seq<BarView>, captions: Captions)
    -> Seq<Instruction> {
    background_section(f) + marker_section(f, markers) + bar_section(f, bars) + axis_section(f)
        + title_section(f, captions.title) + y_caption_section(f, captions.y_axis)
        + x_caption_section(f, captions.x_axis) + border_section(f)
}

/// The views of a plan to which one instruction is added.
proof fn lemma_views_push(plan: Seq<DrawInstruction>, next: DrawInstruction)
    ensures
        plan_views(plan.push(next)) == plan_views(plan).push(next@),
{
    assert(plan_views(plan.push(next)) =~= plan_views(plan).push(next@));
}

/// Adds one instruction to the end of a plan.
fn put(plan: &mut Vec<DrawInstruction>, next: DrawInstruction)
    ensures
        plan_views(final(plan)@) == plan_views(old(plan)@).push(next@),
{
    proof {
        lemma_views_push(plan@, next);
    }
    plan.push(next);
}

/// Writes the label of a tick.
pub fn marker_text(value: u32) -> (label: String)
    ensures
        label@ == marker_label(value),
{
    let mut label = decimal_text(value);
    proof {
        reveal_strlit(" ");
    }
    label.append(" ");
    assert(label@ =~= marker_label(value));
    label
}

/// Adds the ticks of the vertical axis to a plan.
fn put_markers(plan: &mut Vec<DrawInstruction>, f: &Frame, markers: &Vec<Marker>)
    requires
        f.wf(),
        markers_bounded(markers@),
    ensures
        plan_views(final(plan)@) == plan_views(old(plan)@) + marker_section(*f, markers@),
{
    let ghost start = plan_views(plan@);
    put(plan, DrawInstruction::SetStrokeColor(Paint::Grid));
    put(plan, DrawInstruction::SetFillColor(Paint::Black));
    put(
        plan,
        DrawInstruction::SetFont(
            Font { style: FontStyle::Regular, height: f.metrics.marker_font_height },
        ),
    );
    let ghost head = seq![
        Instruction::SetStrokeColor(Paint::Grid),
        Instruction::SetFillColor(Paint::Black),
        Instruction::SetFont(
            Font { style: FontStyle::Regular, height: f.metrics.marker_font_height },
        ),
    ];
    assert(plan_views(plan@) =~= start + head + marker_run(*f, markers@.take(0)));
    let mut k: usize = 0;
    while k < markers.len()
        invariant
            k <= markers.len(),
            f.wf(),
            markers_bounded(markers@),
            plan_views(plan@) == start + head + marker_run(*f, markers@.take(k as int)),
        decreases markers.len() - k,
    {
        let m = markers[k];
        let ghost before = plan_views(plan@);
        let mut points: Vec<Point> = Vec::new();
        points.push(Point { x: f.marker_x - m.label_width as i64, y: m.y });
        points.push(Point { x: f.axis_right, y: m.y });
        assert(points@ =~= seq![
            Point { x: (f.marker_x - m.label_width) as i64, y: m.y },
            Point { x: f.axis_right, y: m.y },
        ]);
        put(plan, DrawInstruction::StrokePath { points });
        put(
            plan,
            DrawInstruction::FillText {
                text: marker_text(m.value),
                at: Point { x: f.marker_x, y: m.y - f.metrics.marker_lift },
                align: TextAlign::Right,
            },
        );
        proof {
            assert(markers@.take(k + 1).drop_last() =~= markers@.take(k as int));
            assert(markers@.take(k + 1).last() == m);
            assert(plan_views(plan@) =~= before + marker_instructions(*f, m));
        }
        k += 1;
    }
    assert(markers@.take(k as int) =~= markers@);
    assert(start + head + marker_run(*f, markers@) =~= start + marker_section(*f, markers@));
}

/// Adds the bars to a plan.
fn put_bars(plan: &mut Vec<DrawInstruction>, f: &Frame, bars: &Vec<BarGeometry>)
    ensures
        plan_views(final(plan)@) == plan_views(old(plan)@) + bar_section(*f, bar_views(bars@)),
{
    let ghost start = plan_views(plan@);
    let ghost views = bar_views(bars@);
    put(plan, DrawInstruction::SetLineWidth(BAR_BORDER));
    put(plan, DrawInstruction::SetStrokeColor(Paint::Black));
    let ghost head = seq![
        Instruction::SetLineWidth(BAR_BORDER as int),
        Instruction::SetStrokeColor(Paint::Black),
    ];
    assert(plan_views(plan@) =~= start + head + bar_run(*f, views.take(0)));
    let mut k: usize = 0;
    while k < bars.len()
        invariant
            k <= bars.len(),
            views == bar_views(bars@),
            plan_views(plan@) == start + head + bar_run(*f, views.take(k as int)),
        decreases bars.len() - k,
    {
        let b = &bars[k];
        let ghost before = plan_views(plan@);
        put(plan, DrawInstruction::SetFillColor(Paint::Bar(b.fill_color)));
        put(plan, DrawInstruction::FillRect(b.rect));
        put(plan, DrawInstruction::StrokeRect(b.rect));
        put(plan, DrawInstruction::SetFillColor(Paint::Black));
        put(
            plan,
            DrawInstruction::SetFont(
                Font { style: FontStyle::Regular, height: f.metrics.label_font_height },
            ),
        );
        put(
            plan,
            DrawInstruction::FillText {
                text: b.category.clone(),
                at: b.label_anchor,
                align: TextAlign::Center,
            },
        );
        put(
            plan,
            DrawInstruction::SetFont(
                Font { style: FontStyle::Regular, height: f.metrics.count_font_height },
            ),
        );
        put(
            plan,
            DrawInstruction::FillText {
                text: decimal_text(b.total),
                at: b.count_anchor,
                align: TextAlign::Center,
            },
        );
        proof {
            assert(views.take(k + 1).drop_last() =~= views.take(k as int));
            assert(views.take(k + 1).last() == b@);
            assert(plan_views(plan@) =~= before + bar_instructions(*f, b@));
        }
        k += 1;
    }
    assert(views.take(k as int) =~= views);
    assert(start + head + bar_run(*f, views) =~= start + bar_section(*f, views));
}

/// Adds the axes to a plan.
fn put_axis(plan: &mut Vec<DrawInstruction>, f: &Frame)
    ensures
        plan_views(final(plan)@) == plan_views(old(plan)@) + axis_section(*f),
{
    let ghost start = plan_views(plan@);
    put(plan, DrawInstruction::SetLineWidth(f.metrics.axis_thickness));
    let mut points: Vec<Point> = Vec::new();
    points.push(Point { x: f.axis_right, y: f.y_base });
    points.push(Point { x: f.marker_x, y: f.y_base });
    points.push(Point { x: f.marker_x, y: f.y_top });
    assert(points@ =~= seq![
        Point { x: f.axis_right, y: f.y_base },
        Point { x: f.marker_x, y: f.y_base },
        Point { x: f.marker_x, y: f.y_top },
    ]);
    put(plan, DrawInstruction::StrokePath { points });
    assert(plan_views(plan@) =~= start + axis_section(*f));
}

/// Adds the title and the two captions to a plan.
fn put_captions(
    plan: &mut Vec<DrawInstruction>,
    f: &Frame,
    title: String,
    x_axis: String,
    y_axis: String,
)
    requires
        f.wf(),
    ensures
        plan_views(final(plan)@) == plan_views(old(plan)@) + title_section(*f, title@)
            + y_caption_section(*f, y_axis@) + x_caption_section(*f, x_axis@),
{
    let ghost start = plan_views(plan@);
    let middle: i64 = f.regions.plot.rect.left + f.regions.plot.width / 2;
    put(
        plan,
        DrawInstruction::SetFont(
            Font { style: FontStyle::Bold, height: f.metrics.title_font_height },
        ),
    );
    put(plan, DrawInstruction::SetFillColor(Paint::Black));
    put(
        plan,
        DrawInstruction::FillText {
            text: title,
            at: Point {
                x: middle,
                y: f.regions.top.rect.top + f.regions.top.height / 2 + f.metrics.title_font_height
                    / 2,
            },
            align: TextAlign::Center,
        },
    );
    assert(plan_views(plan@) =~= start + title_section(*f, title@));
    let ghost titled = plan_views(plan@);
    put(plan, DrawInstruction::Save);
    put(
        plan,
        DrawInstruction::Translate(
            Point {
                x: f.regions.left.rect.left + f.regions.left.width / 2
                    + f.metrics.y_caption_font_height,
                y: f.surface_height / 2 - f.metrics.axis_thickness - f.metrics.label_font_height,
            },
        ),
    );
    put(plan, DrawInstruction::Rotate { degrees: CAPTION_TURN });
    put(
        plan,
        DrawInstruction::SetFont(
            Font { style: FontStyle::Italic, height: f.metrics.y_caption_font_height },
        ),
    );
    put(plan, DrawInstruction::SetFillColor(Paint::Black));
    put(
        plan,
        DrawInstruction::FillText {
            text: y_axis,
            at: Point { x: 0, y: 0 },
            align: TextAlign::Center,
        },
    );
    put(plan, DrawInstruction::Restore);
    assert(plan_views(plan@) =~= titled + y_caption_section(*f, y_axis@));
    let ghost turned = plan_views(plan@);
    put(
        plan,
        DrawInstruction::SetFont(
            Font { style: FontStyle::Italic, height: f.metrics.x_caption_font_height },
        ),
    );
    put(plan, DrawInstruction::SetFillColor(Paint::Black));
    put(
        plan,
        DrawInstruction::FillText {
            text: x_axis,
            at: Point {
                x: middle,
                y: f.regions.bottom.rect.top + f.regions.bottom.height / 2,
            },
            align: TextAlign::Center,
        },
    );
    assert(plan_views(plan@) =~= turned + x_caption_section(*f, x_axis@));
}

/// Adds the border to a plan.
fn put_border(plan: &mut Vec<DrawInstruction>, f: &Frame)
    ensures
        plan_views(final(plan)@) == plan_views(old(plan)@) + border_section(*f),
{
    let ghost start = plan_views(plan@);
    put(plan, DrawInstruction::SetLineWidth(BORDER_WIDTH));
    put(plan, DrawInstruction::SetStrokeColor(Paint::White));
    put(
        plan,
        DrawInstruction::StrokeRect(
            Rect { left: 0, top: 0, right: f.surface_width, bottom: f.surface_height },
        ),
    );
    put(plan, DrawInstruction::SetLineWidth(BORDER_WIDTH));
    put(plan, DrawInstruction::SetStrokeColor(Paint::Black));
    put(
        plan,
        DrawInstruction::StrokeRect(
            Rect {
                left: f.regions.top.rect.left,
                top: f.regions.top.rect.top,
                right: f.regions.bottom.rect.right,
                bottom: f.regions.bottom.rect.bottom,
            },
        ),
    );
    assert(plan_views(plan@) =~= start + border_section(*f));
}

/// Composes the draw plan of a laid-out chart.
///
/// The title is drawn without the file extensions of a database. The plan
/// holds nothing but what the layout and the captions give.
pub fn emit(chart: &ChartLayout, title: &str, x_axis: &str, y_axis: &str) -> (plan: Vec<
    DrawInstruction,
>)
    requires
        chart.wf(),
    ensures
        plan_views(plan@) == plan_spec(
            chart.frame,
            chart.markers@,
            bar_views(chart.bars@),
            Captions { title: display_title_spec(title@), x_axis: x_axis@, y_axis: y_axis@ },
        ),
{
    let f = &chart.frame;
    let mut plan: Vec<DrawInstruction> = Vec::new();
    assert(plan_views(plan@) =~= Seq::<Instruction>::empty());
    put(&mut plan, DrawInstruction::SetFillColor(Paint::White));
    put(
        &mut plan,
        DrawInstruction::FillRect(
            Rect { left: 0, top: 0, right: f.surface_width, bottom: f.surface_height },
        ),
    );
    assert(plan_views(plan@) =~= background_section(*f));
    put_markers(&mut plan, f, &chart.markers);
    put_bars(&mut plan, f, &chart.bars);
    put_axis(&mut plan, f);
    put_captions(
        &mut plan,
        f,
        display_title(title),
        String::from_str(x_axis),
        String::from_str(y_axis),
    );
    put_border(&mut plan, f);
    plan
}

} // verus!
