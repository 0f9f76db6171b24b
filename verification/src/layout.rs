//! The layout of a chart on a surface: font sizes and gaps, the frame in
//! which bars and ticks are placed, the ticks, and the bars.

use vstd::prelude::*;

use crate::aggregate::{tallies_of, DrawObject, Tally};
use crate::axis::AxisScale;
use crate::color::{color_walk, next_colors_spec, Rgb};
use crate::error::ChartError;
use crate::geometry::{
    floor_sqrt, floor_sqrt_spec, lemma_floor_sqrt_below, lemma_share_bound, share, share_of,
    trunc_div, Point, Rect, UNIT,
};
use crate::region::{
    lemma_partition_exact, partition, partition_spec, region_bounded, RegionSet,
};

verus! {

/// The width of the outline of a bar.
pub const BAR_BORDER: i64 = 1000;

/// The font heights, gaps and line widths of a chart. Each is a fixed
/// fraction of the square root of the surface's area, so that text and
/// spacing scale with the surface in either dimension.
#[derive(Clone, Copy, Debug, PartialEq, Eq, Structural)]
pub struct Metrics {
    pub area_root: i64,
    pub title_font_height: i64,
    pub y_caption_font_height: i64,
    pub x_caption_font_height: i64,
    pub count_font_height: i64,
    pub label_font_height: i64,
    pub marker_font_height: i64,
    pub text_gap: i64,
    pub axis_thickness: i64,
    pub marker_lift: i64,
}

/// The square root of the area of a surface of `width` by `height` pixels,
/// rounded down to a whole coordinate unit.
pub open spec fn area_root_spec(width: u32, height: u32) -> int {
    floor_sqrt_spec(width * height * (UNIT * UNIT))
}

/// `parts` thousandths of `length`, rounded down.
pub open spec fn per_mille(length: int, parts: int) -> int {
    length * parts / 1000
}

/// The metrics of a surface of `width` by `height` pixels: the title at 2.5%
/// of the area root, captions, labels, counts and tick labels at 1.5%, the
/// gap around text at 0.6%, the axis at 0.4% and the lift of a tick label
/// above its line at 0.3%.
pub open spec fn metrics_spec(width: u32, height: u32) -> Metrics {
    let root = area_root_spec(width, height);
    Metrics {
        area_root: root as i64,
        title_font_height: per_mille(root, 25) as i64,
        y_caption_font_height: per_mille(root, 15) as i64,
        x_caption_font_height: per_mille(root, 15) as i64,
        count_font_height: per_mille(root, 15) as i64,
        label_font_height: per_mille(root, 15) as i64,
        marker_font_height: per_mille(root, 15) as i64,
        text_gap: per_mille(root, 6) as i64,
        axis_thickness: per_mille(root, 4) as i64,
        marker_lift: per_mille(root, 3) as i64,
    }
}

/// The area root of a surface is below the width of the widest surface.
pub proof fn lemma_area_root_bound(width: u32, height: u32)
    ensures
        0 <= area_root_spec(width, height) < 0x1_0000_0000 * UNIT,
{
    let n = width * height * (UNIT * UNIT);
    let bound = 0x1_0000_0000 * UNIT;
    assert(0 <= n < bound * bound) by (nonlinear_arith)
        requires
            n == width * height * (1000 * 1000),
            bound == 0x1_0000_0000 * 1000,
            0 <= width < 0x1_0000_0000,
            0 <= height < 0x1_0000_0000,
    ;
    lemma_floor_sqrt_below(n, bound);
}

/// Computes the metrics of a surface of `width` by `height` pixels.
pub fn metrics(width: u32, height: u32) -> (m: Metrics)
    ensures
        m == metrics_spec(width, height),
{
    proof {
        lemma_area_root_bound(width, height);
        assert(width * height * (UNIT * UNIT) < 0x1_0000_0000 * 0x1_0000_0000 * 1_000_000)
            by (nonlinear_arith)
            requires
                0 <= width < 0x1_0000_0000,
                0 <= height < 0x1_0000_0000,
        ;
        assert(width * height <= 0x1_0000_0000 * 0x1_0000_0000) by (nonlinear_arith)
            requires
                0 <= width < 0x1_0000_0000,
                0 <= height < 0x1_0000_0000,
        ;
    }
    let area: u128 = (width as u128) * (height as u128);
    let root: i64 = floor_sqrt(area * 1_000_000) as i64;
    Metrics {
        area_root: root,
        title_font_height: root * 25 / 1000,
        y_caption_font_height: root * 15 / 1000,
        x_caption_font_height: root * 15 / 1000,
        count_font_height: root * 15 / 1000,
        label_font_height: root * 15 / 1000,
        marker_font_height: root * 15 / 1000,
        text_gap: root * 6 / 1000,
        axis_thickness: root * 4 / 1000,
        marker_lift: root * 3 / 1000,
    }
}

/// The lines between which the bars and ticks of a chart are placed.
#[derive(Clone, Copy, Debug, PartialEq, Eq, Structural)]
pub struct Frame {
    /// The width of the surface.
    pub surface_width: i64,
    /// The height of the surface.
    pub surface_height: i64,
    pub regions: RegionSet,
    pub metrics: Metrics,
    /// The width of the widest tick label.
    pub widest_marker: i64,
    /// The line on which the bar labels stand.
    pub base_line: i64,
    /// The height from the top of the plot down to the base line.
    pub vert_size: i64,
    /// The foot of the bars and of the vertical axis.
    pub y_base: i64,
    /// The head of the vertical axis.
    pub y_top: i64,
    /// The length of the vertical axis.
    pub y_length: i64,
    /// The right edge of the tick labels, where the vertical axis stands.
    pub marker_x: i64,
    /// The right end of the horizontal axis and of the tick lines.
    pub axis_right: i64,
    /// The width that the bars share.
    pub horiz_size: i64,
}

/// The largest size that any length of a frame can have.
pub const FRAME_LIMIT: i64 = 10_000_000_000_000;

impl Frame {
    /// Whether the lengths of the frame are small enough to compute with.
    pub open spec fn wf(&self) -> bool {
        &&& 0 <= self.widest_marker <= u32::MAX
        &&& -FRAME_LIMIT <= self.base_line <= FRAME_LIMIT
        &&& -FRAME_LIMIT <= self.vert_size <= FRAME_LIMIT
        &&& -FRAME_LIMIT <= self.y_base <= FRAME_LIMIT
        &&& -FRAME_LIMIT <= self.y_top <= FRAME_LIMIT
        &&& -FRAME_LIMIT <= self.y_length <= FRAME_LIMIT
        &&& -FRAME_LIMIT <= self.marker_x <= FRAME_LIMIT
        &&& -FRAME_LIMIT <= self.axis_right <= FRAME_LIMIT
        &&& -FRAME_LIMIT <= self.horiz_size <= FRAME_LIMIT
        &&& 0 <= self.surface_width <= FRAME_LIMIT
        &&& 0 <= self.surface_height <= FRAME_LIMIT
        &&& region_bounded(self.regions.top)
        &&& region_bounded(self.regions.bottom)
        &&& region_bounded(self.regions.left)
        &&& region_bounded(self.regions.right)
        &&& region_bounded(self.regions.plot)
        &&& 0 <= self.metrics.title_font_height <= FRAME_LIMIT
        &&& 0 <= self.metrics.y_caption_font_height <= FRAME_LIMIT
        &&& 0 <= self.metrics.label_font_height <= FRAME_LIMIT
        &&& 0 <= self.metrics.text_gap <= FRAME_LIMIT
        &&& 0 <= self.metrics.axis_thickness <= FRAME_LIMIT
        &&& 0 <= self.metrics.marker_lift <= FRAME_LIMIT
    }
}

/// The frame of a surface of `width` by `height` pixels whose widest tick
/// label is `widest` wide.
///
/// The base line lies above the bottom of the plot by the axis, a line of
/// label text and two text gaps. The bars stand on the axis, one text gap
/// below the base line. The bars and the tick lines keep clear of the tick
/// labels on the left, and by as much on the right.
pub open spec fn frame_spec(width: u32, height: u32, widest: u32) -> Frame {
    let regions = partition_spec(width, height);
    let metrics = metrics_spec(width, height);
    let plot = regions.plot;
    let base_line = plot.rect.bottom - metrics.axis_thickness - metrics.label_font_height - 2
        * metrics.text_gap;
    let y_base = base_line + metrics.axis_thickness + metrics.text_gap;
    Frame {
        surface_width: (width * UNIT) as i64,
        surface_height: (height * UNIT) as i64,
        regions,
        metrics,
        widest_marker: widest as i64,
        base_line: base_line as i64,
        vert_size: (base_line - plot.rect.top) as i64,
        y_base: y_base as i64,
        y_top: plot.rect.top,
        y_length: (y_base - plot.rect.top) as i64,
        marker_x: (plot.rect.left + widest) as i64,
        axis_right: (plot.rect.right - widest) as i64,
        horiz_size: (plot.width - 2 * widest) as i64,
    }
}

/// Computes the frame of a surface. A surface without width or without
/// height has none.
pub fn frame(width: u32, height: u32, widest: u32) -> (result: Result<Frame, ChartError>)
    ensures
        result is Err <==> width == 0 || height == 0,
        result matches Err(e) ==> e == ChartError::DegenerateSurface,
        result matches Ok(f) ==> {
            &&& f == frame_spec(width, height, widest)
            &&& f.wf()
            &&& f.axis_right - f.marker_x == f.horiz_size
            &&& f.y_base - f.y_top == f.y_length
        },
{
    let regions = match partition(width, height) {
        Ok(regions) => regions,
        Err(e) => {
            return Err(e);
        },
    };
    let metrics = metrics(width, height);
    proof {
        lemma_partition_exact(width, height);
        lemma_area_root_bound(width, height);
    }
    let plot = regions.plot;
    let base_line: i64 = plot.rect.bottom - metrics.axis_thickness - metrics.label_font_height - 2
        * metrics.text_gap;
    let y_base: i64 = base_line + metrics.axis_thickness + metrics.text_gap;
    Ok(
        Frame {
            surface_width: width as i64 * UNIT,
            surface_height: height as i64 * UNIT,
            regions,
            metrics,
            widest_marker: widest as i64,
            base_line,
            vert_size: base_line - plot.rect.top,
            y_base,
            y_top: plot.rect.top,
            y_length: y_base - plot.rect.top,
            marker_x: plot.rect.left + widest as i64,
            axis_right: plot.rect.right - widest as i64,
            horiz_size: plot.width - 2 * (widest as i64),
        },
    )
}

/// The largest of `widths`, and zero when there is none.
pub open spec fn widest(widths: Seq<u32>) -> u32
    decreases widths.len(),
{
    if widths.len() == 0 {
        0
    } else if widths.last() > widest(widths.drop_last()) {
        widths.last()
    } else {
        widest(widths.drop_last())
    }
}

/// Finds the width of the widest tick label.
pub fn widest_marker(widths: &Vec<u32>) -> (w: u32)
    ensures
        w == widest(widths@),
{
    let mut w: u32 = 0;
    let mut k: usize = 0;
    while k < widths.len()
        invariant
            k <= widths.len(),
            w == widest(widths@.take(k as int)),
        decreases widths.len() - k,
    {
        assert(widths@.take(k + 1).drop_last() =~= widths@.take(k as int));
        if widths[k] > w {
            w = widths[k];
        }
        k += 1;
    }
    assert(widths@.take(k as int) =~= widths@);
    w
}

/// A tick of the vertical axis: its value, the height at which its line is
/// drawn, and the measured width of its label.
#[derive(Clone, Copy, Debug, PartialEq, Eq, Structural)]
pub struct Marker {
    pub value: u32,
    pub y: i64,
    pub label_width: u32,
}

/// Tick `k` of a scale: it stands above the foot of the axis by the share of
/// the axis length that its value has of the scale's ceiling.
pub open spec fn marker_spec(f: Frame, scale: AxisScale, widths: Seq<u32>, k: int) -> Marker {
    Marker {
        value: scale.marker_value(k) as u32,
        y: (f.y_base - share(f.y_length as int, scale.marker_value(k), scale.max_value as int))
            as i64,
        label_width: widths[k],
    }
}

/// Whether every tick stands at a height that is small enough to compute
/// with.
pub open spec fn markers_bounded(markers: Seq<Marker>) -> bool {
    forall|k: int|
        0 <= k < markers.len() ==> -2 * FRAME_LIMIT <= (#[trigger] markers[k]).y <= 2 * FRAME_LIMIT
}

/// The ticks of a scale, from zero up to its ceiling.
pub open spec fn markers_spec(f: Frame, scale: AxisScale, widths: Seq<u32>) -> Seq<Marker> {
    Seq::new(scale.marker_count() as nat, |k: int| marker_spec(f, scale, widths, k))
}

/// Places the ticks of `scale` in the frame, one for each measured width.
pub fn markers(f: &Frame, scale: AxisScale, widths: &Vec<u32>) -> (ticks: Vec<Marker>)
    requires
        f.wf(),
        scale.wf(),
        widths@.len() == scale.marker_count(),
    ensures
        ticks@ == markers_spec(*f, scale, widths@),
        markers_bounded(ticks@),
{
    let mut ticks: Vec<Marker> = Vec::new();
    let mut k: usize = 0;
    while k < widths.len()
        invariant
            k <= widths.len(),
            f.wf(),
            scale.wf(),
            widths@.len() == scale.marker_count(),
            ticks@.len() == k,
            markers_bounded(ticks@),
            forall|j: int| 0 <= j < k ==> ticks@[j] == marker_spec(*f, scale, widths@, j),
        decreases widths.len() - k,
    {
        proof {
            let step = scale.step as int;
            let top = scale.max_value as int;
            assert(k <= top / step);
            assert(k * step <= top) by (nonlinear_arith)
                requires
                    0 <= k <= top / step,
                    step > 0,
                    top >= 0,
            ;
            assert(k * step >= 0) by (nonlinear_arith)
                requires
                    0 <= k,
                    step > 0,
            ;
            lemma_share_bound(f.y_length as int, k * step, top);
        }
        let value: u32 = ((k as u64) * (scale.step as u64)) as u32;
        let rise = share_of(f.y_length, value, scale.max_value);
        ticks.push(Marker { value, y: f.y_base - rise, label_width: widths[k] });
        k += 1;
    }
    assert(ticks@ =~= markers_spec(*f, scale, widths@));
    ticks
}

/// One bar of a laid-out chart.
#[derive(Debug, PartialEq, Eq)]
pub struct BarGeometry {
    pub category: String,
    pub total: u32,
    pub rect: Rect,
    pub label_anchor: Point,
    pub count_anchor: Point,
    pub fill_color: Rgb,
}

/// A bar as a mathematical value.
pub struct BarView {
    pub category: Seq<char>,
    pub total: nat,
    pub rect: Rect,
    pub label_anchor: Point,
    pub count_anchor: Point,
    pub fill_color: Rgb,
}

impl View for BarGeometry {
    type V = BarView;

    open spec fn view(&self) -> BarView {
        BarView {
            category: self.category@,
            total: self.total as nat,
            rect: self.rect,
            label_anchor: self.label_anchor,
            count_anchor: self.count_anchor,
            fill_color: self.fill_color,
        }
    }
}

/// The bars that a vector of bar geometries stands for.
pub open spec fn bar_views(bars: Seq<BarGeometry>) -> Seq<BarView> {
    bars.map_values(|b: BarGeometry| b@)
}

/// The width of the slot of one bar when `n` bars share the frame.
pub open spec fn slot_width(f: Frame, n: int) -> int {
    trunc_div(f.horiz_size as int, n)
}

/// The width of a bar: six tenths of its slot.
pub open spec fn bar_width(f: Frame, n: int) -> int {
    share(slot_width(f, n), 6, 10)
}

/// The gap between two bars: what a slot has left beside its bar.
pub open spec fn bar_gap(f: Frame, n: int) -> int {
    slot_width(f, n) - bar_width(f, n)
}

/// The left edge of bar `k` of `n`: half a gap from the vertical axis, then
/// one slot for each bar before it.
pub open spec fn bar_left(f: Frame, n: int, k: int) -> int {
    f.marker_x + trunc_div(bar_gap(f, n), 2) + k * slot_width(f, n)
}

/// The height of a bar: the share of the plot's height that its total has
/// of the largest total. Where the largest total is zero, bars have no
/// height.
pub open spec fn bar_height(f: Frame, total: int, max_total: int) -> int {
    if max_total > 0 {
        share(f.vert_size as int, total, max_total)
    } else {
        0
    }
}

/// Bar `k` of the chart: its rectangle stands on the foot of the axis, its
/// label is centered under it at the bottom of the plot, its count is
/// centered one text gap above it, and its color is the one at its place in
/// the color sequence of the seed.
pub open spec fn bar_spec(f: Frame, entries: Seq<Tally>, max_total: u32, seed: u64, k: int)
    -> BarView {
    let n = entries.len() as int;
    let left = bar_left(f, n, k);
    let height = bar_height(f, entries[k].total as int, max_total as int);
    let middle = left + trunc_div(bar_width(f, n), 2);
    BarView {
        category: entries[k].category,
        total: entries[k].total,
        rect: Rect {
            left: left as i64,
            top: (f.y_base - height) as i64,
            right: (left + bar_width(f, n) - BAR_BORDER) as i64,
            bottom: f.y_base,
        },
        label_anchor: Point { x: middle as i64, y: f.regions.plot.rect.bottom },
        count_anchor: Point {
            x: middle as i64,
            y: (f.y_base - height - f.metrics.text_gap) as i64,
        },
        fill_color: next_colors_spec(seed, entries.len())[k],
    }
}

/// The bars of the chart, in the order of `entries`.
pub open spec fn bars_spec(f: Frame, entries: Seq<Tally>, max_total: u32, seed: u64) -> Seq<
    BarView,
> {
    Seq::new(entries.len(), |k: int| bar_spec(f, entries, max_total, seed, k))
}

/// Whether no total of `entries` exceeds `max_total`.
pub open spec fn totals_within(entries: Seq<Tally>, max_total: u32) -> bool {
    forall|k: int| 0 <= k < entries.len() ==> (#[trigger] entries[k]).total <= max_total
}

/// The slots of the bars before bar `k` take up no more than the width that
/// the bars share.
pub proof fn lemma_slots_bound(horiz: int, n: int, k: int)
    requires
        0 <= k < n,
    ensures
        horiz >= 0 ==> 0 <= k * trunc_div(horiz, n) <= horiz,
        horiz <= 0 ==> horiz <= k * trunc_div(horiz, n) <= 0,
        horiz >= 0 ==> 0 <= trunc_div(horiz, n) <= horiz,
        horiz <= 0 ==> horiz <= trunc_div(horiz, n) <= 0,
{
    let size = if horiz >= 0 {
        horiz
    } else {
        -horiz
    };
    let q = size / n;
    assert(0 <= q <= size && 0 <= k * q <= size) by (nonlinear_arith)
        requires
            0 <= k < n,
            size >= 0,
            q == size / n,
    ;
    if horiz < 0 {
        assert(k * (-q) == -(k * q)) by (nonlinear_arith);
    }
}

/// Whether the bars stand in the order of the entries: as many bars as
/// entries, and each bar with the category and the total of the entry at
/// its place.
pub open spec fn keeps_order(bars: Seq<BarGeometry>, entries: Seq<DrawObject>) -> bool {
    &&& bars.len() == entries.len()
    &&& forall|k: int|
        0 <= k < entries.len() ==> (#[trigger] bars[k]).category@ == entries[k].name@
            && bars[k].total == entries[k].num
}

/// Places one bar for each entry in the frame, in the order of the entries.
pub fn bars(f: &Frame, entries: &Vec<DrawObject>, max_total: u32, seed: u64) -> (placed: Vec<
    BarGeometry,
>)
    requires
        f.wf(),
        totals_within(tallies_of(entries@), max_total),
    ensures
        bar_views(placed@) == bars_spec(*f, tallies_of(entries@), max_total, seed),
        keeps_order(placed@, entries@),
{
    let mut placed: Vec<BarGeometry> = Vec::new();
    let n = entries.len();
    if n == 0 {
        assert(bar_views(placed@) =~= bars_spec(*f, tallies_of(entries@), max_total, seed));
        return placed;
    }
    let ghost tallies = tallies_of(entries@);
    proof {
        lemma_slots_bound(f.horiz_size as int, n as int, 0);
    }
    let slot: i64 = ((f.horiz_size as i128) / (n as i128)) as i64;
    assert(slot == slot_width(*f, n as int));
    proof {
        lemma_share_bound(slot as int, 6, 10);
    }
    let width: i64 = share_of(slot, 6, 10);
    let gap: i64 = slot - width;
    let first_left: i64 = f.marker_x + gap / 2;
    let half_width: i64 = width / 2;
    let colors = color_walk(seed, n);
    let mut k: usize = 0;
    while k < n
        invariant
            k <= n,
            n == entries.len(),
            n > 0,
            f.wf(),
            tallies == tallies_of(entries@),
            totals_within(tallies, max_total),
            slot == slot_width(*f, n as int),
            width == bar_width(*f, n as int),
            gap == bar_gap(*f, n as int),
            first_left == f.marker_x + trunc_div(gap as int, 2),
            half_width == trunc_div(width as int, 2),
            -FRAME_LIMIT <= slot <= FRAME_LIMIT,
            -FRAME_LIMIT <= width <= FRAME_LIMIT,
            -2 * FRAME_LIMIT <= first_left <= 2 * FRAME_LIMIT,
            colors@ == next_colors_spec(seed, n as nat),
            placed@.len() == k,
            forall|j: int|
                0 <= j < k ==> (#[trigger] placed@[j])@ == bar_spec(
                    *f,
                    tallies,
                    max_total,
                    seed,
                    j,
                ),
        decreases n - k,
    {
        let entry = &entries[k];
        proof {
            lemma_slots_bound(f.horiz_size as int, n as int, k as int);
            assert(tallies[k as int] == entry@);
            assert(entry.num <= max_total);
            if max_total > 0 {
                lemma_share_bound(f.vert_size as int, entry.num as int, max_total as int);
            }
        }
        let left: i64 = first_left + ((k as i128) * (slot as i128)) as i64;
        let height: i64 = if max_total > 0 {
            share_of(f.vert_size, entry.num, max_total)
        } else {
            0
        };
        let middle: i64 = left + half_width;
        let bar = BarGeometry {
            category: entry.name.clone(),
            total: entry.num,
            rect: Rect {
                left,
                top: f.y_base - height,
                right: left + width - BAR_BORDER,
                bottom: f.y_base,
            },
            label_anchor: Point { x: middle, y: f.regions.plot.rect.bottom },
            count_anchor: Point { x: middle, y: f.y_base - height - f.metrics.text_gap },
            fill_color: colors[k],
        };
        assert(bar@ == bar_spec(*f, tallies, max_total, seed, k as int));
        placed.push(bar);
        k += 1;
    }
    assert(bar_views(placed@) =~= bars_spec(*f, tallies, max_total, seed));
    assert forall|j: int| 0 <= j < entries@.len() implies (#[trigger] placed@[j]).category@
        == entries@[j].name@ && placed@[j].total == entries@[j].num by {
        assert(placed@[j]@ == bar_spec(*f, tallies, max_total, seed, j));
        assert(tallies[j] == entries@[j]@);
    }
    placed
}

/// The bars stand in the order of the entries, whatever the frame: each bar
/// carries the category and the total of the entry at its place.
pub proof fn lemma_bars_keep_order(f: Frame, entries: Seq<Tally>, max_total: u32, seed: u64)
    ensures
        bars_spec(f, entries, max_total, seed).len() == entries.len(),
        forall|k: int|
            0 <= k < entries.len() ==> {
                let bar = #[trigger] bars_spec(f, entries, max_total, seed)[k];
                bar.category == entries[k].category && bar.total == entries[k].total
            },
{
}

/// The first tick stands at the foot of the vertical axis, and a tick whose
/// value is the ceiling of the scale stands at its head.
pub proof fn lemma_marker_ends(f: Frame, scale: AxisScale, widths: Seq<u32>, k: int)
    requires
        f.wf(),
        scale.wf(),
        f.y_length == f.y_base - f.y_top,
    ensures
        marker_spec(f, scale, widths, 0).y == f.y_base,
        marker_spec(f, scale, widths, 0).value == 0,
        scale.marker_value(k) == scale.max_value ==> marker_spec(f, scale, widths, k).y == f.y_top,
{
    let top = scale.max_value as int;
    let length = f.y_length as int;
    assert(share(length, 0, top) == 0) by (nonlinear_arith)
        requires
            top > 0,
    ;
    if scale.marker_value(k) == top {
        if length >= 0 {
            assert((length * top) / top == length) by (nonlinear_arith)
                requires
                    top > 0,
            ;
            assert(length * top >= 0) by (nonlinear_arith)
                requires
                    top > 0,
                    length >= 0,
            ;
        } else {
            assert(((-length) * top) / top == -length) by (nonlinear_arith)
                requires
                    top > 0,
            ;
            assert(length * top < 0 && -(length * top) == (-length) * top) by (nonlinear_arith)
                requires
                    top > 0,
                    length < 0,
            ;
        }
    }
}

/// A bar without items has no height, a bar with the largest total reaches
/// the top of the plot, and on a frame of positive height a bar with more
/// items is at least as high as one with fewer.
pub proof fn lemma_bar_heights(f: Frame, total: int, more: int, max_total: int)
    requires
        0 <= total <= more <= max_total,
    ensures
        bar_height(f, 0, max_total) == 0,
        max_total > 0 ==> bar_height(f, max_total, max_total) == f.vert_size,
        f.vert_size >= 0 ==> 0 <= bar_height(f, total, max_total) <= bar_height(
            f,
            more,
            max_total,
        ) <= f.vert_size,
{
    let v = f.vert_size as int;
    if max_total > 0 {
        assert(share(v, 0, max_total) == 0) by (nonlinear_arith)
            requires
                max_total > 0,
        ;
        if v >= 0 {
            assert((v * max_total) / max_total == v) by (nonlinear_arith)
                requires
                    max_total > 0,
            ;
            assert(0 <= v * total <= v * more <= v * max_total) by (nonlinear_arith)
                requires
                    0 <= total <= more <= max_total,
                    v >= 0,
            ;
            assert(0 <= (v * total) / max_total <= (v * more) / max_total <= (v * max_total)
                / max_total) by (nonlinear_arith)
                requires
                    0 <= v * total <= v * more <= v * max_total,
                    max_total > 0,
            ;
        } else {
            assert(((-v) * max_total) / max_total == -v) by (nonlinear_arith)
                requires
                    max_total > 0,
            ;
            assert(v * max_total < 0 && -(v * max_total) == (-v) * max_total) by (nonlinear_arith)
                requires
                    max_total > 0,
                    v < 0,
            ;
        }
    }
}

/// Where the bars have width to share, they stand from left to right
/// without overlapping: each bar ends before the next begins.
pub proof fn lemma_bars_left_to_right(
    f: Frame,
    entries: Seq<Tally>,
    max_total: u32,
    seed: u64,
    j: int,
    k: int,
)
    requires
        f.wf(),
        f.horiz_size >= 0,
        0 <= j < k < entries.len(),
    ensures
        bars_spec(f, entries, max_total, seed)[j].rect.right <= bars_spec(
            f,
            entries,
            max_total,
            seed,
        )[k].rect.left,
        bars_spec(f, entries, max_total, seed)[j].rect.left <= bars_spec(
            f,
            entries,
            max_total,
            seed,
        )[j].rect.right + BAR_BORDER,
{
    let n = entries.len() as int;
    let slot = slot_width(f, n);
    let width = bar_width(f, n);
    lemma_slots_bound(f.horiz_size as int, n, j);
    lemma_slots_bound(f.horiz_size as int, n, k);
    lemma_share_bound(slot, 6, 10);
    assert(j * slot + slot <= k * slot) by (nonlinear_arith)
        requires
            j < k,
            slot >= 0,
    ;
}

/// A chart laid out on a surface: the frame, the ticks of the vertical
/// axis, and the bars from left to right.
pub struct ChartLayout {
    pub frame: Frame,
    pub markers: Vec<Marker>,
    pub bars: Vec<BarGeometry>,
}

impl ChartLayout {
    /// Whether the lengths of the layout are small enough to compute with.
    pub open spec fn wf(&self) -> bool {
        self.frame.wf() && markers_bounded(self.markers@)
    }
}

/// Lays a chart out on a surface of `width` by `height` pixels.
///
/// `entries` are the bars in draw order, `max_total` the largest of their
/// totals, `scale` the scale of the vertical axis and `marker_widths` the
/// measured widths of its tick labels, from the tick at zero upward. The
/// bars stand in the order of the entries, whatever the surface. A surface
/// without width or without height is refused.
pub fn layout(
    width: u32,
    height: u32,
    entries: &Vec<DrawObject>,
    scale: AxisScale,
    max_total: u32,
    marker_widths: &Vec<u32>,
    seed: u64,
) -> (result: Result<ChartLayout, ChartError>)
    requires
        scale.wf(),
        marker_widths@.len() == scale.marker_count(),
        totals_within(tallies_of(entries@), max_total),
    ensures
        result is Err <==> width == 0 || height == 0,
        result matches Err(e) ==> e == ChartError::DegenerateSurface,
        result matches Ok(chart) ==> {
            &&& chart.wf()
            &&& chart.frame == frame_spec(width, height, widest(marker_widths@))
            &&& chart.markers@ == markers_spec(chart.frame, scale, marker_widths@)
            &&& bar_views(chart.bars@) == bars_spec(
                chart.frame,
                tallies_of(entries@),
                max_total,
                seed,
            )
            &&& keeps_order(chart.bars@, entries@)
        },
{
    let f = match frame(width, height, widest_marker(marker_widths)) {
        Ok(f) => f,
        Err(e) => {
            return Err(e);
        },
    };
    let ticks = markers(&f, scale, marker_widths);
    let placed = bars(&f, entries, max_total, seed);
    Ok(ChartLayout { frame: f, markers: ticks, bars: placed })
}

} // verus!
