//! The partition of the drawing surface into title, caption, margin and
//! plot regions.

use vstd::prelude::*;

use crate::error::ChartError;
use crate::geometry::{overlap, within, Rect, UNIT};

verus! {

/// The width of the border of the surface, in pixels.
pub const BORDER: i64 = 2;

/// The pixel that is kept free beside the border.
pub const EDGE: i64 = 1;

/// The distance of the display area from each edge of the surface: half of
/// what the border and the free pixel take from the surface, a pixel and a
/// half.
pub const PADDING: i64 = 1500;

/// A region of the surface: its rectangle, and the width and height of it.
#[derive(Clone, Copy, Debug, PartialEq, Eq, Structural)]
pub struct Region {
    pub rect: Rect,
    pub width: i64,
    pub height: i64,
}

impl Region {
    /// Whether the width and the height are those of the rectangle.
    pub open spec fn wf(&self) -> bool {
        &&& self.rect.right - self.rect.left == self.width
        &&& self.rect.bottom - self.rect.top == self.height
    }
}

/// The five regions of a surface, and the size of the display area that
/// they divide among them.
#[derive(Clone, Copy, Debug, PartialEq, Eq, Structural)]
pub struct RegionSet {
    pub display_width: i64,
    pub display_height: i64,
    pub top: Region,
    pub bottom: Region,
    pub left: Region,
    pub right: Region,
    pub plot: Region,
}

impl RegionSet {
    /// Whether each region has the width and the height of its rectangle.
    pub open spec fn wf(&self) -> bool {
        &&& self.top.wf()
        &&& self.bottom.wf()
        &&& self.left.wf()
        &&& self.right.wf()
        &&& self.plot.wf()
    }
}

/// The width or height of the display area on a surface that is `pixels`
/// wide or high: the surface less the border and one pixel.
pub open spec fn display_extent(pixels: u32) -> int {
    (pixels - BORDER - EDGE) * UNIT
}

/// The region of the given width and height whose upper left corner is at
/// `left` and `top`.
pub open spec fn region_at(left: int, top: int, width: int, height: int) -> Region {
    Region {
        rect: Rect {
            left: left as i64,
            top: top as i64,
            right: (left + width) as i64,
            bottom: (top + height) as i64,
        },
        width: width as i64,
        height: height as i64,
    }
}

/// The regions of a surface of `width` by `height` pixels.
///
/// The display area lies in the middle of the surface. The plot takes nine
/// tenths of its width and eight tenths of its height, in its middle. The
/// left and right margins share the remaining width evenly, beside the plot.
/// The top and bottom regions share the remaining height evenly, over the
/// whole width, above and below it.
pub open spec fn partition_spec(width: u32, height: u32) -> RegionSet {
    let display_width = display_extent(width);
    let display_height = display_extent(height);
    let plot_width = display_width * 9 / 10;
    let plot_height = display_height * 8 / 10;
    let margin_width = (display_width - plot_width) / 2;
    let margin_height = (display_height - plot_height) / 2;
    let origin = PADDING as int;
    RegionSet {
        display_width: display_width as i64,
        display_height: display_height as i64,
        top: region_at(origin, origin, display_width, margin_height),
        bottom: region_at(
            origin,
            origin + margin_height + plot_height,
            display_width,
            margin_height,
        ),
        left: region_at(origin, origin + margin_height, margin_width, plot_height),
        right: region_at(
            origin + margin_width + plot_width,
            origin + margin_height,
            margin_width,
            plot_height,
        ),
        plot: region_at(origin + margin_width, origin + margin_height, plot_width, plot_height),
    }
}

/// The largest size that any coordinate of a partition can have.
pub const REGION_LIMIT: i64 = 4_400_000_000_000;

/// Whether every edge, the width and the height of `region` are within the
/// limit.
pub open spec fn region_bounded(region: Region) -> bool {
    &&& -REGION_LIMIT <= region.rect.left <= REGION_LIMIT
    &&& -REGION_LIMIT <= region.rect.top <= REGION_LIMIT
    &&& -REGION_LIMIT <= region.rect.right <= REGION_LIMIT
    &&& -REGION_LIMIT <= region.rect.bottom <= REGION_LIMIT
    &&& -REGION_LIMIT <= region.width <= REGION_LIMIT
    &&& -REGION_LIMIT <= region.height <= REGION_LIMIT
}

/// Whether no two of the five regions overlap.
pub open spec fn regions_disjoint(r: RegionSet) -> bool {
    &&& !overlap(r.top.rect, r.bottom.rect)
    &&& !overlap(r.top.rect, r.left.rect)
    &&& !overlap(r.top.rect, r.right.rect)
    &&& !overlap(r.top.rect, r.plot.rect)
    &&& !overlap(r.bottom.rect, r.left.rect)
    &&& !overlap(r.bottom.rect, r.right.rect)
    &&& !overlap(r.bottom.rect, r.plot.rect)
    &&& !overlap(r.left.rect, r.right.rect)
    &&& !overlap(r.left.rect, r.plot.rect)
    &&& !overlap(r.right.rect, r.plot.rect)
}

/// Whether the plot is nine tenths as wide and eight tenths as high as the
/// display area, and the margins share the rest evenly.
pub open spec fn shares_exact(r: RegionSet) -> bool {
    &&& r.plot.width * 10 == r.display_width * 9
    &&& r.plot.height * 10 == r.display_height * 8
    &&& r.left.width == r.right.width
    &&& r.left.width + r.plot.width + r.right.width == r.display_width
    &&& r.top.height == r.bottom.height
    &&& r.top.height + r.plot.height + r.bottom.height == r.display_height
    &&& r.top.width == r.display_width
    &&& r.bottom.width == r.display_width
    &&& r.left.height == r.plot.height
    &&& r.right.height == r.plot.height
}

/// Whether the regions lie edge to edge: the margins beside the plot, the
/// top and bottom regions above and below the three, over their whole width.
pub open spec fn regions_abut(r: RegionSet) -> bool {
    &&& r.left.rect.right == r.plot.rect.left
    &&& r.plot.rect.right == r.right.rect.left
    &&& r.top.rect.bottom == r.plot.rect.top
    &&& r.plot.rect.bottom == r.bottom.rect.top
    &&& r.left.rect.top == r.plot.rect.top && r.right.rect.top == r.plot.rect.top
    &&& r.left.rect.bottom == r.plot.rect.bottom && r.right.rect.bottom == r.plot.rect.bottom
    &&& r.top.rect.left == r.left.rect.left && r.bottom.rect.left == r.left.rect.left
    &&& r.top.rect.right == r.right.rect.right && r.bottom.rect.right == r.right.rect.right
}

/// The tenths and twentieths of a display area of whole pixels are whole
/// coordinate units.
proof fn lemma_tenths(w: int, h: int)
    ensures
        (w * 1000) * 9 / 10 == w * 900,
        (h * 1000) * 8 / 10 == h * 800,
        (w * 1000 - w * 900) / 2 == w * 50,
        (h * 1000 - h * 800) / 2 == h * 100,
{
}

/// The partition of a surface written without division: every length is a
/// whole multiple of the display area's size in pixels.
proof fn lemma_partition_linear(width: u32, height: u32)
    ensures
        ({
            let w = width - BORDER - EDGE;
            let h = height - BORDER - EDGE;
            let o = PADDING as int;
            partition_spec(width, height) == (RegionSet {
                display_width: (w * 1000) as i64,
                display_height: (h * 1000) as i64,
                top: region_at(o, o, w * 1000, h * 100),
                bottom: region_at(o, o + h * 900, w * 1000, h * 100),
                left: region_at(o, o + h * 100, w * 50, h * 800),
                right: region_at(o + w * 950, o + h * 100, w * 50, h * 800),
                plot: region_at(o + w * 50, o + h * 100, w * 900, h * 800),
            })
        }),
{
    lemma_tenths(width - BORDER - EDGE, height - BORDER - EDGE);
}

/// The rectangle of each region has the width and the height of the region.
/// The plot is exactly nine tenths as wide and eight tenths as high as the
/// display area, the margins share the rest evenly, and the regions lie edge
/// to edge. The plot lies in the middle of the surface. No coordinate leaves
/// the limit.
pub proof fn lemma_partition_exact(width: u32, height: u32)
    ensures
        ({
            let r = partition_spec(width, height);
            &&& r.display_width == display_extent(width)
            &&& r.display_height == display_extent(height)
            &&& r.wf()
            &&& shares_exact(r)
            &&& (r.plot.rect.right - r.plot.rect.left) * 10 == r.display_width * 9
            &&& (r.plot.rect.bottom - r.plot.rect.top) * 10 == r.display_height * 8
            &&& regions_abut(r)
            &&& r.plot.rect.left + r.plot.rect.right == width * UNIT
            &&& r.plot.rect.top + r.plot.rect.bottom == height * UNIT
            &&& region_bounded(r.top)
            &&& region_bounded(r.bottom)
            &&& region_bounded(r.left)
            &&& region_bounded(r.right)
            &&& region_bounded(r.plot)
        }),
{
    lemma_partition_linear(width, height);
}

/// No two of the five regions of a surface overlap, whatever its size.
pub proof fn lemma_regions_disjoint(width: u32, height: u32)
    ensures
        regions_disjoint(partition_spec(width, height)),
{
    lemma_partition_linear(width, height);
}

/// On a surface that is at least as large as its border and the free pixel,
/// the five regions lie within the surface, and keep the padding clear on
/// every side.
pub proof fn lemma_regions_within_surface(width: u32, height: u32)
    requires
        width >= BORDER + EDGE,
        height >= BORDER + EDGE,
    ensures
        ({
            let r = partition_spec(width, height);
            let display = Rect {
                left: PADDING,
                top: PADDING,
                right: (width * UNIT - PADDING) as i64,
                bottom: (height * UNIT - PADDING) as i64,
            };
            &&& within(r.top.rect, display)
            &&& within(r.bottom.rect, display)
            &&& within(r.left.rect, display)
            &&& within(r.right.rect, display)
            &&& within(r.plot.rect, display)
            &&& r.top.rect.left == display.left && r.top.rect.top == display.top
            &&& r.bottom.rect.right == display.right && r.bottom.rect.bottom == display.bottom
        }),
{
    lemma_partition_linear(width, height);
}

/// Divides a surface of `width` by `height` pixels into its five regions.
///
/// The rectangle of the plot is nine tenths as wide and eight tenths as
/// high as the display area, exactly, and lies in its middle. The margins
/// share the rest evenly, and no two regions overlap. A surface without
/// width or without height is refused.
pub fn partition(width: u32, height: u32) -> (result: Result<RegionSet, ChartError>)
    ensures
        result is Err <==> width == 0 || height == 0,
        result matches Err(e) ==> e == ChartError::DegenerateSurface,
        result matches Ok(regions) ==> {
            &&& regions == partition_spec(width, height)
            &&& regions.wf()
            &&& (regions.plot.rect.right - regions.plot.rect.left) * 10 == regions.display_width
                * 9
            &&& (regions.plot.rect.bottom - regions.plot.rect.top) * 10
                == regions.display_height * 8
            &&& shares_exact(regions)
            &&& regions_abut(regions)
            &&& regions_disjoint(regions)
        },
{
    if width == 0 || height == 0 {
        return Err(ChartError::DegenerateSurface);
    }
    proof {
        lemma_partition_linear(width, height);
        lemma_partition_exact(width, height);
        lemma_regions_disjoint(width, height);
    }
    let w: i64 = width as i64 - BORDER - EDGE;
    let h: i64 = height as i64 - BORDER - EDGE;
    let o: i64 = PADDING;
    Ok(
        RegionSet {
            display_width: w * UNIT,
            display_height: h * UNIT,
            top: region(o, o, w * 1000, h * 100),
            bottom: region(o, o + h * 900, w * 1000, h * 100),
            left: region(o, o + h * 100, w * 50, h * 800),
            right: region(o + w * 950, o + h * 100, w * 50, h * 800),
            plot: region(o + w * 50, o + h * 100, w * 900, h * 800),
        },
    )
}

/// Builds the region of the given width and height at `left` and `top`.
fn region(left: i64, top: i64, width: i64, height: i64) -> (r: Region)
    requires
        -REGION_LIMIT <= left <= REGION_LIMIT,
        -REGION_LIMIT <= top <= REGION_LIMIT,
        -REGION_LIMIT <= width <= REGION_LIMIT,
        -REGION_LIMIT <= height <= REGION_LIMIT,
    ensures
        r == region_at(left as int, top as int, width as int, height as int),
        r.wf(),
{
    Region {
        rect: Rect { left, top, right: left + width, bottom: top + height },
        width,
        height,
    }
}

} // verus!
