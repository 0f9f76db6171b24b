//! Vertical axis scale: the ceiling value and tick increment.

use vstd::prelude::*;

verus! {

/// The rounded-up ceiling of the vertical axis and the increment between ticks.
#[derive(Clone, Copy, Debug, PartialEq, Eq, Structural)]
pub struct AxisScale {
    pub max_value: u32,
    pub step: u32,
}

/// The scale that `axis_scale` picks for a given largest total.
///
/// Below 10 the axis is fixed at 10 with unit steps. From 10 up to 99 the
/// ceiling is the next multiple of 10 strictly above the value, and from 100
/// up to 499 the next multiple of 50 strictly above it. From 500 on the axis
/// is fixed at 1000 with steps of 100, however large the value.
pub open spec fn axis_scale_spec(max_value: u32) -> AxisScale {
    if max_value < 10 {
        AxisScale { max_value: 10, step: 1 }
    } else if max_value < 100 {
        AxisScale { max_value: (max_value + 10 - max_value % 10) as u32, step: 10 }
    } else if max_value < 500 {
        AxisScale { max_value: (max_value + 50 - max_value % 50) as u32, step: 50 }
    } else {
        AxisScale { max_value: 1000, step: 100 }
    }
}

impl AxisScale {
    /// Whether ticks can be laid out on this scale: the ceiling and the step
    /// are positive, and the ticks can be counted.
    pub open spec fn wf(&self) -> bool {
        self.max_value > 0 && self.step > 0 && self.max_value / self.step < usize::MAX
    }

    /// The number of ticks: one at zero, and one at every step up to the
    /// ceiling.
    pub open spec fn marker_count(&self) -> int {
        self.max_value / self.step + 1
    }

    /// The value at tick `k`.
    pub open spec fn marker_value(&self, k: int) -> int {
        k * self.step
    }
}

/// The scale of any value can be laid out, is a whole number of steps and
/// has at most eleven ticks. It lies strictly above the value as long as the
/// value is below 500.
pub proof fn lemma_axis_scale(max_value: u32)
    ensures
        axis_scale_spec(max_value).wf(),
        axis_scale_spec(max_value).max_value % axis_scale_spec(max_value).step == 0,
        axis_scale_spec(max_value).max_value <= 1000,
        max_value < 500 ==> axis_scale_spec(max_value).max_value > max_value,
        axis_scale_spec(max_value).marker_count() <= 11,
{
    let v = max_value as int;
    if 10 <= v < 100 {
        let top = v + 10 - v % 10;
        assert(top == (v / 10 + 1) * 10);
        assert(top % 10 == 0);
        assert(top / 10 == v / 10 + 1);
        assert(axis_scale_spec(max_value).max_value == top);
        assert(axis_scale_spec(max_value).step == 10);
        assert(axis_scale_spec(max_value).marker_count() == top / 10 + 1);
    } else if 100 <= v < 500 {
        let top = v + 50 - v % 50;
        assert(top == (v / 50 + 1) * 50);
        assert(top % 50 == 0);
        assert(top / 50 == v / 50 + 1);
        assert(axis_scale_spec(max_value).max_value == top);
        assert(axis_scale_spec(max_value).step == 50);
        assert(axis_scale_spec(max_value).marker_count() == top / 50 + 1);
    } else if v < 10 {
        assert(10u32 % 1u32 == 0 && 10u32 / 1u32 == 10);
    } else {
        assert(1000u32 % 100u32 == 0 && 1000u32 / 100u32 == 10);
    }
}

/// Derives the axis ceiling and tick step from the largest total.
pub fn axis_scale(max_value: u32) -> (scale: AxisScale)
    ensures
        scale == axis_scale_spec(max_value),
        scale.wf(),
{
    proof {
        lemma_axis_scale(max_value);
    }
    if max_value < 10 {
        AxisScale { max_value: 10, step: 1 }
    } else if max_value < 100 {
        AxisScale { max_value: max_value + 10 - max_value % 10, step: 10 }
    } else if max_value < 500 {
        AxisScale { max_value: max_value + 50 - max_value % 50, step: 50 }
    } else {
        AxisScale { max_value: 1000, step: 100 }
    }
}

} // verus!
