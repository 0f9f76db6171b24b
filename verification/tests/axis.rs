use barchart::axis::{axis_scale, AxisScale};

#[test]
fn axis_scale_below_ten_is_fixed() {
    assert_eq!(axis_scale(0), AxisScale { max_value: 10, step: 1 });
    assert_eq!(axis_scale(9), AxisScale { max_value: 10, step: 1 });
}

#[test]
fn axis_scale_rounds_up_to_the_next_ten() {
    assert_eq!(axis_scale(10), AxisScale { max_value: 20, step: 10 });
    assert_eq!(axis_scale(15), AxisScale { max_value: 20, step: 10 });
    assert_eq!(axis_scale(99), AxisScale { max_value: 100, step: 10 });
}

#[test]
fn axis_scale_rounds_up_to_the_next_fifty() {
    assert_eq!(axis_scale(100), AxisScale { max_value: 150, step: 50 });
    assert_eq!(axis_scale(149), AxisScale { max_value: 150, step: 50 });
    assert_eq!(axis_scale(150), AxisScale { max_value: 200, step: 50 });
    assert_eq!(axis_scale(499), AxisScale { max_value: 500, step: 50 });
}

#[test]
fn axis_scale_is_capped_from_five_hundred() {
    assert_eq!(axis_scale(500), AxisScale { max_value: 1000, step: 100 });
    assert_eq!(axis_scale(5000), AxisScale { max_value: 1000, step: 100 });
    assert_eq!(axis_scale(u32::MAX), AxisScale { max_value: 1000, step: 100 });
}
