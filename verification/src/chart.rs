//! The whole pipeline: from a dataset and a surface to a draw plan.

use vstd::prelude::*;

use crate::aggregate::{
    aggregate, highest_total, lemma_highest_total, lemma_tabulate_empty, lemma_tabulate_sum,
    row_fault, row_tallies, rows_sound, sum_totals, tabulate, tallies_of, DrawObject, Tally,
};
use crate::axis::{axis_scale, axis_scale_spec, lemma_axis_scale, AxisScale};
use crate::data::{ColumnLayout, DbData, Record};
use crate::error::ChartError;
use crate::layout::{
    bars_spec, frame_spec, layout, lemma_bars_keep_order, markers_spec, metrics, metrics_spec,
    totals_within, widest,
};
use crate::order::{
    draw_order, lemma_draw_order, lemma_draw_order_members, order, SortDirection, SortKey,
};
use crate::plan::{
    emit, marker_label, marker_text, plan_spec, plan_views, Captions, DrawInstruction, Font,
    FontStyle, Instruction,
};
use crate::text::display_title_spec;

verus! {

/// What a chart shows: the bars in draw order, the largest of their totals,
/// and the scale of the vertical axis.
pub struct ChartData {
    pub bars: Vec<DrawObject>,
    pub max_total: u32,
    pub scale: AxisScale,
}

impl ChartData {
    /// Whether the parts fit together: no bar exceeds the largest total, and
    /// the scale can be laid out.
    pub open spec fn wf(&self) -> bool {
        self.scale.wf() && totals_within(tallies_of(self.bars@), self.max_total)
    }

    /// Whether the chart has no bars, as the chart of a dataset without rows
    /// has. Such a chart is drawn with its axes and captions alone.
    pub fn is_empty_dataset(&self) -> (empty: bool)
        ensures
            empty == (self.bars@.len() == 0),
    {
        self.bars.len() == 0
    }
}

/// The totals per category of the rows of a dataset.
pub open spec fn chart_totals(rows: Seq<Vec<Record>>, columns: ColumnLayout) -> Seq<Tally> {
    tabulate(row_tallies(rows, columns, rows.len() as int))
}

/// The bars of a dataset in draw order.
pub open spec fn chart_bars(
    rows: Seq<Vec<Record>>,
    columns: ColumnLayout,
    key: SortKey,
    direction: SortDirection,
) -> Seq<Tally> {
    draw_order(chart_totals(rows, columns), key, direction)
}

/// Whether `e` is the failure of the first row that causes one.
pub open spec fn first_fault(rows: Seq<Vec<Record>>, columns: ColumnLayout, e: ChartError)
    -> bool {
    exists|i: int|
        0 <= i < rows.len() && rows_sound(rows, columns, i) && #[trigger] row_fault(
            rows,
            columns,
            i,
        ) == Some(e)
}

/// The bars in draw order hold, in sum, what the rows of the dataset hold.
pub proof fn lemma_totals_preserved(
    rows: Seq<Vec<Record>>,
    columns: ColumnLayout,
    key: SortKey,
    direction: SortDirection,
)
    ensures
        sum_totals(chart_bars(rows, columns, key, direction)) == sum_totals(
            row_tallies(rows, columns, rows.len() as int),
        ),
{
    lemma_tabulate_sum(row_tallies(rows, columns, rows.len() as int));
    lemma_draw_order(chart_totals(rows, columns), key, direction);
}

/// No bar of the draw order exceeds the highest total.
pub proof fn lemma_bars_within(s: Seq<Tally>, key: SortKey, direction: SortDirection)
    ensures
        forall|k: int|
            0 <= k < draw_order(s, key, direction).len() ==> (#[trigger] draw_order(
                s,
                key,
                direction,
            )[k]).total <= highest_total(s),
{
    let d = draw_order(s, key, direction);
    lemma_highest_total(s);
    assert forall|k: int| 0 <= k < d.len() implies (#[trigger] d[k]).total <= highest_total(s) by {
        lemma_draw_order_members(s, key, direction, k);
        let j = choose|j: int| 0 <= j < s.len() && s[j] == d[k];
        assert(s[j].total <= highest_total(s));
    }
}

/// Aggregates the rows of a dataset, puts the totals into draw order and
/// picks the scale of the vertical axis.
///
/// The first malformed row, or the first that carries a total past
/// `u32::MAX`, ends the render with its failure. A dataset without rows is
/// no failure: it gives a chart without bars on the scale of zero.
pub fn prepare(
    data: &DbData,
    columns: ColumnLayout,
    key: SortKey,
    direction: SortDirection,
) -> (result: Result<ChartData, ChartError>)
    ensures
        match result {
            Ok(chart) => {
                &&& rows_sound(data.records@, columns, data.records@.len() as int)
                &&& chart.wf()
                &&& tallies_of(chart.bars@) == chart_bars(data.records@, columns, key, direction)
                &&& chart.max_total == highest_total(chart_totals(data.records@, columns))
                &&& chart.scale == axis_scale_spec(chart.max_total)
                &&& chart.bars@.len() == 0 <==> data.records@.len() == 0
                &&& sum_totals(tallies_of(chart.bars@)) == sum_totals(
                    row_tallies(data.records@, columns, data.records@.len() as int),
                )
            },
            Err(e) => first_fault(data.records@, columns, e),
        },
{
    let (totals, max_total) = match aggregate(&data.records, columns) {
        Ok(found) => found,
        Err(e) => {
            return Err(e);
        },
    };
    let bars = order(&totals, key, direction);
    let scale = axis_scale(max_total);
    proof {
        lemma_axis_scale(max_total);
        lemma_bars_within(totals@, key, direction);
        lemma_draw_order(totals@, key, direction);
        lemma_tabulate_empty(row_tallies(data.records@, columns, data.records@.len() as int));
    }
    Ok(ChartData { bars, max_total, scale })
}

/// The plan of a chart on a surface of `width` by `height` pixels, given
/// the measured widths of the tick labels.
pub open spec fn render_spec(
    bars: Seq<Tally>,
    max_total: u32,
    scale: AxisScale,
    captions: Captions,
    palette: u64,
    width: u32,
    height: u32,
    marker_widths: Seq<u32>,
) -> Seq<Instruction> {
    let f = frame_spec(width, height, widest(marker_widths));
    plan_spec(
        f,
        markers_spec(f, scale, marker_widths),
        bars_spec(f, bars, max_total, palette),
        captions,
    )
}

/// The scale of the vertical axis of a dataset's chart: that of its
/// highest total.
pub open spec fn chart_scale(rows: Seq<Vec<Record>>, columns: ColumnLayout) -> AxisScale {
    axis_scale_spec(highest_total(chart_totals(rows, columns)) as u32)
}

/// The plan of a dataset's chart on a surface of `width` by `height`
/// pixels, given the measured widths of the tick labels.
pub open spec fn chart_plan(
    data: &DbData,
    columns: ColumnLayout,
    key: SortKey,
    direction: SortDirection,
    palette: u64,
    width: u32,
    height: u32,
    marker_widths: Seq<u32>,
) -> Seq<Instruction> {
    render_spec(
        chart_bars(data.records@, columns, key, direction),
        highest_total(chart_totals(data.records@, columns)) as u32,
        chart_scale(data.records@, columns),
        captions_of(data),
        palette,
        width,
        height,
        marker_widths,
    )
}

/// The captions that a dataset gives its chart.
pub open spec fn captions_of(data: &DbData) -> Captions {
    Captions {
        title: display_title_spec(data.title@),
        x_axis: data.x_axis_label@,
        y_axis: data.y_axis_label@,
    }
}

/// Draws a prepared chart on a surface of `width` by `height` pixels.
///
/// `marker_widths` are the measured widths of the tick labels of the
/// chart's scale, from the label of zero upward. The palette starts at the
/// hue `palette`. A surface without width or without height is refused, and
/// nothing is drawn on it.
pub fn render(
    data: &DbData,
    chart: &ChartData,
    palette: u64,
    width: u32,
    height: u32,
    marker_widths: &Vec<u32>,
) -> (result: Result<Vec<DrawInstruction>, ChartError>)
    requires
        chart.wf(),
        marker_widths@.len() == chart.scale.marker_count(),
    ensures
        result is Err <==> width == 0 || height == 0,
        result matches Err(e) ==> e == ChartError::DegenerateSurface,
        result matches Ok(plan) ==> plan_views(plan@) == render_spec(
            tallies_of(chart.bars@),
            chart.max_total,
            chart.scale,
            captions_of(data),
            palette,
            width,
            height,
            marker_widths@,
        ),
{
    let placed = match layout(
        width,
        height,
        &chart.bars,
        chart.scale,
        chart.max_total,
        marker_widths,
        palette,
    ) {
        Ok(placed) => placed,
        Err(e) => {
            return Err(e);
        },
    };
    Ok(
        emit(
            &placed,
            data.title.as_str(),
            data.x_axis_label.as_str(),
            data.y_axis_label.as_str(),
        ),
    )
}

/// The bars of a dataset's chart stand in the draw order on every surface:
/// the bar at each place carries the category and the total of the entry at
/// that place of the draw order, and the color of that place, whatever the
/// size of the surface and the widths of the tick labels. So two renders of
/// one dataset with one sort setting show the same bars in the same order.
pub proof fn lemma_bar_order_keeps_under_resize(
    data: &DbData,
    columns: ColumnLayout,
    key: SortKey,
    direction: SortDirection,
    palette: u64,
    width: u32,
    height: u32,
    marker_widths: Seq<u32>,
    other_width: u32,
    other_height: u32,
    other_marker_widths: Seq<u32>,
)
    ensures
        ({
            let entries = chart_bars(data.records@, columns, key, direction);
            let max_total = highest_total(chart_totals(data.records@, columns)) as u32;
            let here = bars_spec(
                frame_spec(width, height, widest(marker_widths)),
                entries,
                max_total,
                palette,
            );
            let there = bars_spec(
                frame_spec(other_width, other_height, widest(other_marker_widths)),
                entries,
                max_total,
                palette,
            );
            &&& here.len() == entries.len()
            &&& there.len() == entries.len()
            &&& forall|k: int|
                0 <= k < entries.len() ==> (#[trigger] here[k]).category == entries[k].category
                    && here[k].total == entries[k].total && there[k].category
                    == entries[k].category && there[k].total == entries[k].total
                    && here[k].fill_color == there[k].fill_color
        }),
{
    let entries = chart_bars(data.records@, columns, key, direction);
    let max_total = highest_total(chart_totals(data.records@, columns)) as u32;
    lemma_bars_keep_order(
        frame_spec(width, height, widest(marker_widths)),
        entries,
        max_total,
        palette,
    );
    lemma_bars_keep_order(
        frame_spec(other_width, other_height, widest(other_marker_widths)),
        entries,
        max_total,
        palette,
    );
}

/// Whether `width` is what `measure` can give for the label of `value` set
/// in `font`.
pub open spec fn measures<F: Fn(&str, Font) -> u32>(
    measure: F,
    value: u32,
    font: Font,
    width: u32,
) -> bool {
    exists|label: &str|
        label@ == marker_label(value) && #[trigger] measure.ensures((label, font), width)
}

/// The font of the tick labels on a surface of `width` by `height` pixels.
pub open spec fn marker_font_spec(width: u32, height: u32) -> Font {
    Font { style: FontStyle::Regular, height: metrics_spec(width, height).marker_font_height }
}

/// Whether `widths` are what `measure` gave for the tick labels of `scale`,
/// from the label of zero upward, set in `font`.
pub open spec fn measured_by<F: Fn(&str, Font) -> u32>(
    measure: F,
    scale: AxisScale,
    font: Font,
    widths: Seq<u32>,
) -> bool {
    &&& widths.len() == scale.marker_count()
    &&& forall|k: int|
        0 <= k < widths.len() ==> #[trigger] measures(
            measure,
            scale.marker_value(k) as u32,
            font,
            widths[k],
        )
}

/// Has the host measure the tick labels of `scale`, from the label of zero
/// upward, set in `font`.
pub fn measure_markers<F: Fn(&str, Font) -> u32>(
    scale: AxisScale,
    font: Font,
    measure: &F,
) -> (widths: Vec<u32>)
    requires
        scale.wf(),
        forall|text: &str, any: Font| measure.requires((text, any)),
    ensures
        measured_by(*measure, scale, font, widths@),
{
    let count: usize = (scale.max_value / scale.step) as usize + 1;
    let mut widths: Vec<u32> = Vec::new();
    let mut k: usize = 0;
    while k < count
        invariant
            k <= count,
            count == scale.marker_count(),
            scale.wf(),
            forall|text: &str, any: Font| measure.requires((text, any)),
            widths@.len() == k,
            forall|j: int|
                0 <= j < k ==> #[trigger] measures(
                    *measure,
                    scale.marker_value(j) as u32,
                    font,
                    widths@[j],
                ),
        decreases count - k,
    {
        proof {
            let step = scale.step as int;
            let top = scale.max_value as int;
            assert(0 <= k * step <= top) by (nonlinear_arith)
                requires
                    0 <= k <= top / step,
                    step > 0,
                    top >= 0,
            ;
        }
        let value: u32 = ((k as u64) * (scale.step as u64)) as u32;
        let label = marker_text(value);
        let text = label.as_str();
        let width = measure(text, font);
        let ghost before = widths@;
        widths.push(width);
        proof {
            assert(measure.ensures((text, font), width));
            assert(measures(*measure, value, font, width));
            assert forall|j: int| 0 <= j < k + 1 implies #[trigger] measures(
                *measure,
                scale.marker_value(j) as u32,
                font,
                widths@[j],
            ) by {
                if j < k {
                    assert(widths@[j] == before[j]);
                }
            }
        }
        k += 1;
    }
    widths
}

/// Draws the bar chart of a dataset on a surface of `width` by `height`
/// pixels.
///
/// The rows are aggregated by the standard column layout and sorted as the
/// codes `order_by` and `order_direction` say. The host measures the tick
/// labels through `measure`, which is handed a text and its font. The
/// palette starts at the hue `palette`.
///
/// A render either fails as a whole or gives the whole plan. It fails with
/// the failure of the first faulty row, and, where no row is faulty, on a
/// surface without width or without height.
pub fn draw_bar_chart<F: Fn(&str, Font) -> u32>(
    palette: u64,
    data: &DbData,
    order_by: u32,
    order_direction: u32,
    width: u32,
    height: u32,
    measure: F,
) -> (result: Result<Vec<DrawInstruction>, ChartError>)
    requires
        forall|text: &str, font: Font| measure.requires((text, font)),
    ensures
        match result {
            Ok(plan) => {
                &&& rows_sound(
                    data.records@,
                    ColumnLayout::standard_spec(),
                    data.records@.len() as int,
                )
                &&& width > 0 && height > 0
                &&& exists|widths: Seq<u32>|
                    measured_by(
                        measure,
                        chart_scale(data.records@, ColumnLayout::standard_spec()),
                        marker_font_spec(width, height),
                        widths,
                    ) && plan_views(plan@) == #[trigger] chart_plan(
                        data,
                        ColumnLayout::standard_spec(),
                        SortKey::of_code(order_by),
                        SortDirection::of_code(order_direction),
                        palette,
                        width,
                        height,
                        widths,
                    )
            },
            Err(e) => {
                ||| first_fault(data.records@, ColumnLayout::standard_spec(), e)
                ||| {
                    &&& rows_sound(
                        data.records@,
                        ColumnLayout::standard_spec(),
                        data.records@.len() as int,
                    )
                    &&& width == 0 || height == 0
                    &&& e == ChartError::DegenerateSurface
                }
            },
        },
{
    let columns = ColumnLayout::standard();
    let key = SortKey::from_code(order_by);
    let direction = SortDirection::from_code(order_direction);
    let chart = match prepare(data, columns, key, direction) {
        Ok(chart) => chart,
        Err(e) => {
            return Err(e);
        },
    };
    if width == 0 || height == 0 {
        return Err(ChartError::DegenerateSurface);
    }
    let font = Font {
        style: FontStyle::Regular,
        height: metrics(width, height).marker_font_height,
    };
    let widths = measure_markers(chart.scale, font, &measure);
    let result = render(data, &chart, palette, width, height, &widths);
    proof {
        if result is Ok {
            assert(plan_views(result->Ok_0@) == chart_plan(
                data,
                columns,
                key,
                direction,
                palette,
                width,
                height,
                widths@,
            ));
        }
    }
    result
}

} // verus!
