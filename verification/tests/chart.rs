use barchart::axis::AxisScale;
use barchart::chart::{draw_bar_chart, measure_markers, prepare, render};
use barchart::color::Rgb;
use barchart::data::{ColumnLayout, DbData, Record};
use barchart::error::ChartError;
use barchart::geometry::{Point, Rect};
use barchart::order::{SortDirection, SortKey};
use barchart::plan::{marker_text, DrawInstruction, Font, FontStyle, Paint, TextAlign};

fn field(value: &str) -> Record {
    Record { name: String::from("col"), kind: 3, value: String::from(value) }
}

fn row(category: &str, count: &str) -> Vec<Record> {
    let mut fields = Vec::new();
    for i in 0..13 {
        if i == 10 {
            fields.push(field(category));
        } else if i == 12 {
            fields.push(field(count));
        } else {
            fields.push(field("x"));
        }
    }
    fields
}

fn dataset(rows: Vec<Vec<Record>>) -> DbData {
    let row_count = rows.len() as i32;
    DbData {
        title: String::from("fruit.sqlite"),
        tablename: String::from("sales"),
        x_axis_label: String::from("Category"),
        y_axis_label: String::from("Items"),
        records: rows,
        col_names: Vec::new(),
        row_count,
        col_count: 13,
    }
}

fn fruit() -> DbData {
    dataset(vec![row("A", "2"), row("B", "10"), row("A", "3"), row("C", "1")])
}

fn measure(text: &str, _font: Font) -> u32 {
    text.chars().count() as u32 * 7_000
}

fn font(style: FontStyle, height: i64) -> DrawInstruction {
    DrawInstruction::SetFont(Font { style, height })
}

fn text(text: &str, x: i64, y: i64, align: TextAlign) -> DrawInstruction {
    DrawInstruction::FillText { text: String::from(text), at: Point { x, y }, align }
}

fn line(points: &[(i64, i64)]) -> DrawInstruction {
    DrawInstruction::StrokePath { points: points.iter().map(|&(x, y)| Point { x, y }).collect() }
}

fn bar_names(plan: &[DrawInstruction]) -> Vec<String> {
    let mut names = Vec::new();
    let mut after_bar = false;
    for step in plan {
        match step {
            DrawInstruction::StrokeRect(_) => after_bar = true,
            DrawInstruction::FillText { text, .. } => {
                if after_bar {
                    names.push(text.clone());
                    after_bar = false;
                }
            }
            _ => {}
        }
    }
    names
}

#[test]
fn prepare_aggregates_orders_and_scales() {
    let chart = prepare(&fruit(), ColumnLayout::standard(), SortKey::ByTotal, SortDirection::Ascending).unwrap();
    let bars: Vec<(&str, u32)> = chart.bars.iter().map(|b| (b.name.as_str(), b.num)).collect();
    assert_eq!(bars, vec![("B", 10), ("A", 5), ("C", 1)]);
    assert_eq!(chart.max_total, 10);
    assert_eq!(chart.scale, AxisScale { max_value: 20, step: 10 });
}

#[test]
fn prepare_keeps_the_sum_of_the_counts() {
    let chart = prepare(&fruit(), ColumnLayout::standard(), SortKey::ByCategoryName, SortDirection::Descending).unwrap();
    assert_eq!(chart.bars.iter().map(|b| b.num).sum::<u32>(), 2 + 10 + 3 + 1);
}

#[test]
fn prepare_fails_on_a_malformed_row() {
    let data = dataset(vec![row("A", "2"), row("B", "abc")]);
    let result = prepare(&data, ColumnLayout::standard(), SortKey::ByTotal, SortDirection::Ascending);
    assert_eq!(result.err(), Some(ChartError::MalformedRow { row: 1 }));
}

#[test]
fn marker_text_ends_with_a_space() {
    assert_eq!(marker_text(0), "0 ");
    assert_eq!(marker_text(150), "150 ");
}

#[test]
fn measure_markers_measures_every_label_of_the_scale() {
    let regular = Font { style: FontStyle::Regular, height: 10_392 };
    let widths = measure_markers(AxisScale { max_value: 20, step: 10 }, regular, &measure);
    assert_eq!(widths, vec![14_000, 21_000, 21_000]);
    let small = Font { style: FontStyle::Italic, height: 555 };
    let heights =
        measure_markers(AxisScale { max_value: 10, step: 1 }, small, &|_: &str, f: Font| f.height as u32);
    assert_eq!(heights, vec![555; 11]);
}

#[test]
fn draw_bar_chart_gives_the_whole_plan() {
    let plan = draw_bar_chart(0, &fruit(), 1, 0, 800, 600, measure).unwrap();
    let grey = Paint::Grid;
    let expected = vec![
        DrawInstruction::SetFillColor(Paint::White),
        DrawInstruction::FillRect(Rect { left: 0, top: 0, right: 800_000, bottom: 600_000 }),
        DrawInstruction::SetStrokeColor(grey),
        DrawInstruction::SetFillColor(Paint::Black),
        font(FontStyle::Regular, 10_392),
        line(&[(48_350, 524_252), (737_650, 524_252)]),
        text("0 ", 62_350, 522_174, TextAlign::Right),
        line(&[(41_350, 292_726), (737_650, 292_726)]),
        text("10 ", 62_350, 290_648, TextAlign::Right),
        line(&[(41_350, 61_200), (737_650, 61_200)]),
        text("20 ", 62_350, 59_122, TextAlign::Right),
        DrawInstruction::SetLineWidth(1_000),
        DrawInstruction::SetStrokeColor(Paint::Black),
        DrawInstruction::SetFillColor(Paint::Bar(Rgb { red: 121, green: 157, blue: 243 })),
        DrawInstruction::FillRect(Rect { left: 107_370, top: 478_640, right: 241_430, bottom: 524_252 }),
        DrawInstruction::StrokeRect(Rect { left: 107_370, top: 478_640, right: 241_430, bottom: 524_252 }),
        DrawInstruction::SetFillColor(Paint::Black),
        font(FontStyle::Regular, 10_392),
        text("C", 174_900, 538_800, TextAlign::Center),
        font(FontStyle::Regular, 10_392),
        text("1", 174_900, 474_484, TextAlign::Center),
        DrawInstruction::SetFillColor(Paint::Bar(Rgb { red: 192, green: 243, blue: 121 })),
        DrawInstruction::FillRect(Rect { left: 332_470, top: 296_190, right: 466_530, bottom: 524_252 }),
        DrawInstruction::StrokeRect(Rect { left: 332_470, top: 296_190, right: 466_530, bottom: 524_252 }),
        DrawInstruction::SetFillColor(Paint::Black),
        font(FontStyle::Regular, 10_392),
        text("A", 400_000, 538_800, TextAlign::Center),
        font(FontStyle::Regular, 10_392),
        text("5", 400_000, 292_034, TextAlign::Center),
        DrawInstruction::SetFillColor(Paint::Bar(Rgb { red: 243, green: 121, blue: 228 })),
        DrawInstruction::FillRect(Rect { left: 557_570, top: 68_127, right: 691_630, bottom: 524_252 }),
        DrawInstruction::StrokeRect(Rect { left: 557_570, top: 68_127, right: 691_630, bottom: 524_252 }),
        DrawInstruction::SetFillColor(Paint::Black),
        font(FontStyle::Regular, 10_392),
        text("B", 625_100, 538_800, TextAlign::Center),
        font(FontStyle::Regular, 10_392),
        text("10", 625_100, 63_971, TextAlign::Center),
        DrawInstruction::SetLineWidth(2_771),
        line(&[(737_650, 524_252), (62_350, 524_252), (62_350, 61_200)]),
        font(FontStyle::Bold, 17_320),
        DrawInstruction::SetFillColor(Paint::Black),
        text("fruit", 400_000, 40_010, TextAlign::Center),
        DrawInstruction::Save,
        DrawInstruction::Translate(Point { x: 31_817, y: 286_837 }),
        DrawInstruction::Rotate { degrees: 270 },
        font(FontStyle::Italic, 10_392),
        DrawInstruction::SetFillColor(Paint::Black),
        text("Items", 0, 0, TextAlign::Center),
        DrawInstruction::Restore,
        font(FontStyle::Italic, 10_392),
        DrawInstruction::SetFillColor(Paint::Black),
        text("Category", 400_000, 568_650, TextAlign::Center),
        DrawInstruction::SetLineWidth(2_000),
        DrawInstruction::SetStrokeColor(Paint::White),
        DrawInstruction::StrokeRect(Rect { left: 0, top: 0, right: 800_000, bottom: 600_000 }),
        DrawInstruction::SetLineWidth(2_000),
        DrawInstruction::SetStrokeColor(Paint::Black),
        DrawInstruction::StrokeRect(Rect { left: 1_500, top: 1_500, right: 798_500, bottom: 598_500 }),
    ];
    assert_eq!(plan.len(), expected.len());
    for (i, (got, want)) in plan.iter().zip(expected.iter()).enumerate() {
        assert_eq!(got, want, "instruction {}", i);
    }
}

#[test]
fn draw_bar_chart_is_the_same_on_every_call() {
    let first = draw_bar_chart(123, &fruit(), 0, 1, 640, 480, measure).unwrap();
    let second = draw_bar_chart(123, &fruit(), 0, 1, 640, 480, measure).unwrap();
    assert_eq!(first, second);
}

#[test]
fn draw_bar_chart_keeps_the_bar_order_on_another_surface() {
    for (order_by, direction, names) in [
        (1u32, 0u32, vec!["C", "A", "B"]),
        (1, 1, vec!["B", "A", "C"]),
        (0, 0, vec!["A", "B", "C"]),
        (0, 1, vec!["C", "B", "A"]),
    ] {
        let small = draw_bar_chart(0, &fruit(), order_by, direction, 320, 200, measure).unwrap();
        let large = draw_bar_chart(0, &fruit(), order_by, direction, 1920, 1080, measure).unwrap();
        assert_eq!(bar_names(&small), names);
        assert_eq!(bar_names(&large), names);
    }
}

#[test]
fn draw_bar_chart_fails_on_a_count_that_is_no_number() {
    let data = dataset(vec![row("A", "2"), row("B", "abc"), row("C", "1")]);
    let result = draw_bar_chart(0, &data, 1, 0, 800, 600, measure);
    assert_eq!(result, Err(ChartError::MalformedRow { row: 1 }));
}

#[test]
fn draw_bar_chart_fails_on_a_short_row() {
    let data = dataset(vec![vec![field("A"), field("2")]]);
    let result = draw_bar_chart(0, &data, 1, 0, 800, 600, measure);
    assert_eq!(result, Err(ChartError::MalformedRow { row: 0 }));
}

#[test]
fn draw_bar_chart_fails_on_a_surface_without_width_or_height() {
    assert_eq!(draw_bar_chart(0, &fruit(), 1, 0, 0, 600, measure), Err(ChartError::DegenerateSurface));
    assert_eq!(draw_bar_chart(0, &fruit(), 1, 0, 800, 0, measure), Err(ChartError::DegenerateSurface));
}

#[test]
fn draw_bar_chart_reports_a_malformed_row_before_the_surface() {
    let data = dataset(vec![row("A", "x")]);
    assert_eq!(draw_bar_chart(0, &data, 1, 0, 0, 0, measure), Err(ChartError::MalformedRow { row: 0 }));
}

#[test]
fn draw_bar_chart_of_no_rows_draws_axes_without_bars() {
    let plan = draw_bar_chart(0, &dataset(Vec::new()), 1, 0, 800, 600, measure).unwrap();
    assert!(bar_names(&plan).is_empty());
    let labels: Vec<&str> = plan
        .iter()
        .filter_map(|step| match step {
            DrawInstruction::FillText { text, align: TextAlign::Right, .. } => Some(text.as_str()),
            _ => None,
        })
        .collect();
    assert_eq!(labels, vec!["0 ", "1 ", "2 ", "3 ", "4 ", "5 ", "6 ", "7 ", "8 ", "9 ", "10 "]);
    assert_eq!(plan.len(), 2 + 3 + 22 + 2 + 2 + 3 + 7 + 3 + 6);
    assert_eq!(plan[5], line(&[(48_350, 524_252), (737_650, 524_252)]));
    assert_eq!(plan[7], line(&[(48_350, 477_947), (737_650, 477_947)]));
    assert_eq!(plan[25], line(&[(41_350, 61_200), (737_650, 61_200)]));
    assert_eq!(plan[29], DrawInstruction::SetLineWidth(2_771));
    assert_eq!(plan[30], line(&[(737_650, 524_252), (62_350, 524_252), (62_350, 61_200)]));
}

#[test]
fn render_draws_a_prepared_chart() {
    let data = fruit();
    let chart = prepare(&data, ColumnLayout::standard(), SortKey::ByTotal, SortDirection::Descending).unwrap();
    let plan = render(&data, &chart, 0, 800, 600, &vec![14_000, 21_000, 21_000]).unwrap();
    assert_eq!(plan, draw_bar_chart(0, &data, 1, 0, 800, 600, measure).unwrap());
    assert_eq!(
        render(&data, &chart, 0, 0, 600, &vec![14_000, 21_000, 21_000]),
        Err(ChartError::DegenerateSurface)
    );
}

#[test]
fn the_palette_seed_changes_the_colors_and_nothing_else() {
    let one = draw_bar_chart(0, &fruit(), 1, 0, 800, 600, measure).unwrap();
    let other = draw_bar_chart(2_500_000_000, &fruit(), 1, 0, 800, 600, measure).unwrap();
    assert_eq!(one.len(), other.len());
    let mut changed = 0;
    for (a, b) in one.iter().zip(other.iter()) {
        if a != b {
            assert!(matches!(a, DrawInstruction::SetFillColor(Paint::Bar(_))));
            assert!(matches!(b, DrawInstruction::SetFillColor(Paint::Bar(_))));
            changed += 1;
        }
    }
    assert_eq!(changed, 3);
}
