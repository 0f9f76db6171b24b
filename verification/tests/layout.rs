use barchart::aggregate::DrawObject;
use barchart::axis::AxisScale;
use barchart::color::Rgb;
use barchart::error::ChartError;
use barchart::geometry::{Point, Rect};
use barchart::layout::{bars, frame, layout, markers, metrics, widest_marker, BarGeometry, Marker, Metrics};

fn entries() -> Vec<DrawObject> {
    vec![
        DrawObject::new(String::from("C"), 1),
        DrawObject::new(String::from("A"), 5),
        DrawObject::new(String::from("B"), 10),
    ]
}

#[test]
fn metrics_are_fractions_of_the_area_root() {
    assert_eq!(
        metrics(800, 600),
        Metrics {
            area_root: 692_820,
            title_font_height: 17_320,
            y_caption_font_height: 10_392,
            x_caption_font_height: 10_392,
            count_font_height: 10_392,
            label_font_height: 10_392,
            marker_font_height: 10_392,
            text_gap: 4_156,
            axis_thickness: 2_771,
            marker_lift: 2_078,
        }
    );
}

#[test]
fn metrics_of_the_smallest_and_the_largest_surface() {
    let small = metrics(1, 1);
    assert_eq!(small.area_root, 1_000);
    assert_eq!(small.title_font_height, 25);
    assert_eq!(small.text_gap, 6);
    let large = metrics(u32::MAX, u32::MAX);
    assert_eq!(large.area_root, 4_294_967_295_000);
    assert_eq!(large.title_font_height, 107_374_182_375);
}

#[test]
fn widest_marker_is_the_largest_width() {
    assert_eq!(widest_marker(&vec![]), 0);
    assert_eq!(widest_marker(&vec![14_000, 21_000, 20_000]), 21_000);
}

#[test]
fn frame_of_a_surface_of_800_by_600() {
    let f = frame(800, 600, 21_000).unwrap();
    assert_eq!(f.surface_width, 800_000);
    assert_eq!(f.surface_height, 600_000);
    assert_eq!(f.widest_marker, 21_000);
    assert_eq!(f.base_line, 517_325);
    assert_eq!(f.vert_size, 456_125);
    assert_eq!(f.y_base, 524_252);
    assert_eq!(f.y_top, 61_200);
    assert_eq!(f.y_length, 463_052);
    assert_eq!(f.marker_x, 62_350);
    assert_eq!(f.axis_right, 737_650);
    assert_eq!(f.axis_right - f.marker_x, f.horiz_size);
    assert_eq!(f.horiz_size, 675_300);
}

#[test]
fn frame_refuses_a_surface_without_width_or_height() {
    assert_eq!(frame(0, 5, 0), Err(ChartError::DegenerateSurface));
    assert_eq!(frame(5, 0, 0), Err(ChartError::DegenerateSurface));
}

#[test]
fn markers_stand_at_every_step_of_the_scale() {
    let f = frame(800, 600, 21_000).unwrap();
    let ticks = markers(&f, AxisScale { max_value: 20, step: 10 }, &vec![14_000, 21_000, 21_000]);
    assert_eq!(
        ticks,
        vec![
            Marker { value: 0, y: 524_252, label_width: 14_000 },
            Marker { value: 10, y: 292_726, label_width: 21_000 },
            Marker { value: 20, y: 61_200, label_width: 21_000 },
        ]
    );
}

#[test]
fn bars_share_the_width_of_the_frame() {
    let f = frame(800, 600, 21_000).unwrap();
    let placed = bars(&f, &entries(), 10, 0);
    assert_eq!(
        placed,
        vec![
            BarGeometry {
                category: String::from("C"),
                total: 1,
                rect: Rect { left: 107_370, top: 478_640, right: 241_430, bottom: 524_252 },
                label_anchor: Point { x: 174_900, y: 538_800 },
                count_anchor: Point { x: 174_900, y: 474_484 },
                fill_color: Rgb { red: 121, green: 157, blue: 243 },
            },
            BarGeometry {
                category: String::from("A"),
                total: 5,
                rect: Rect { left: 332_470, top: 296_190, right: 466_530, bottom: 524_252 },
                label_anchor: Point { x: 400_000, y: 538_800 },
                count_anchor: Point { x: 400_000, y: 292_034 },
                fill_color: Rgb { red: 192, green: 243, blue: 121 },
            },
            BarGeometry {
                category: String::from("B"),
                total: 10,
                rect: Rect { left: 557_570, top: 68_127, right: 691_630, bottom: 524_252 },
                label_anchor: Point { x: 625_100, y: 538_800 },
                count_anchor: Point { x: 625_100, y: 63_971 },
                fill_color: Rgb { red: 243, green: 121, blue: 228 },
            },
        ]
    );
}

#[test]
fn bars_of_no_entries_are_none() {
    let f = frame(800, 600, 0).unwrap();
    assert!(bars(&f, &Vec::new(), 0, 0).is_empty());
}

#[test]
fn bars_have_no_height_when_every_total_is_zero() {
    let f = frame(800, 600, 0).unwrap();
    let placed = bars(&f, &vec![DrawObject::new(String::from("none"), 0)], 0, 0);
    assert_eq!(placed.len(), 1);
    assert_eq!(placed[0].rect.top, placed[0].rect.bottom);
}

#[test]
fn bars_keep_the_order_of_the_entries_on_every_surface() {
    for (w, h) in [(800u32, 600u32), (320, 200), (5000, 90), (1, 1)] {
        let f = frame(w, h, 9_000).unwrap();
        let placed = bars(&f, &entries(), 10, 123);
        let names: Vec<&str> = placed.iter().map(|b| b.category.as_str()).collect();
        assert_eq!(names, vec!["C", "A", "B"]);
        let totals: Vec<u32> = placed.iter().map(|b| b.total).collect();
        assert_eq!(totals, vec![1, 5, 10]);
    }
}

#[test]
fn layout_puts_frame_markers_and_bars_together() {
    let chart = layout(
        800,
        600,
        &entries(),
        AxisScale { max_value: 20, step: 10 },
        10,
        &vec![14_000, 21_000, 21_000],
        0,
    )
    .unwrap();
    assert_eq!(chart.frame, frame(800, 600, 21_000).unwrap());
    assert_eq!(chart.markers.len(), 3);
    assert_eq!(chart.markers[1], Marker { value: 10, y: 292_726, label_width: 21_000 });
    assert_eq!(chart.bars, bars(&chart.frame, &entries(), 10, 0));
}

#[test]
fn layout_refuses_a_surface_without_width() {
    let result = layout(0, 600, &entries(), AxisScale { max_value: 20, step: 10 }, 10, &vec![1, 2, 3], 0);
    assert_eq!(result.err(), Some(ChartError::DegenerateSurface));
}
