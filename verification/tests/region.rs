use barchart::error::ChartError;
use barchart::geometry::{floor_sqrt, share_of, Rect};
use barchart::region::{partition, Region, RegionSet};

fn overlap(a: &Rect, b: &Rect) -> bool {
    a.left < a.right
        && b.left < b.right
        && a.left < b.right
        && b.left < a.right
        && a.top < a.bottom
        && b.top < b.bottom
        && a.top < b.bottom
        && b.top < a.bottom
}

fn regions(set: &RegionSet) -> [Region; 5] {
    [set.top, set.bottom, set.left, set.right, set.plot]
}

#[test]
fn partition_of_a_surface_of_800_by_600() {
    let set = partition(800, 600).unwrap();
    assert_eq!(set.display_width, 797_000);
    assert_eq!(set.display_height, 597_000);
    assert_eq!(
        set.top,
        Region {
            rect: Rect { left: 1_500, top: 1_500, right: 798_500, bottom: 61_200 },
            width: 797_000,
            height: 59_700,
        }
    );
    assert_eq!(
        set.bottom,
        Region {
            rect: Rect { left: 1_500, top: 538_800, right: 798_500, bottom: 598_500 },
            width: 797_000,
            height: 59_700,
        }
    );
    assert_eq!(
        set.left,
        Region {
            rect: Rect { left: 1_500, top: 61_200, right: 41_350, bottom: 538_800 },
            width: 39_850,
            height: 477_600,
        }
    );
    assert_eq!(
        set.right,
        Region {
            rect: Rect { left: 758_650, top: 61_200, right: 798_500, bottom: 538_800 },
            width: 39_850,
            height: 477_600,
        }
    );
    assert_eq!(
        set.plot,
        Region {
            rect: Rect { left: 41_350, top: 61_200, right: 758_650, bottom: 538_800 },
            width: 717_300,
            height: 477_600,
        }
    );
}

#[test]
fn partition_of_a_surface_of_1003_by_600() {
    let set = partition(1003, 600).unwrap();
    assert_eq!(set.display_width, 1_000_000);
    assert_eq!(set.plot.rect, Rect { left: 51_500, top: 61_200, right: 951_500, bottom: 538_800 });
    assert_eq!(set.plot.rect.right - set.plot.rect.left, 900_000);
}

#[test]
fn partition_gives_the_plot_nine_tenths_by_eight_tenths() {
    for (w, h) in [(800u32, 600u32), (1, 1), (3, 3), (10, 13), (1920, 1080), (u32::MAX, u32::MAX)] {
        let set = partition(w, h).unwrap();
        let plot_width = set.plot.rect.right - set.plot.rect.left;
        let plot_height = set.plot.rect.bottom - set.plot.rect.top;
        assert_eq!(plot_width * 10, set.display_width * 9);
        assert_eq!(plot_height * 10, set.display_height * 8);
        assert_eq!(set.left.width + set.plot.width + set.right.width, set.display_width);
        assert_eq!(set.top.height + set.plot.height + set.bottom.height, set.display_height);
        assert_eq!(set.left.width, set.right.width);
        assert_eq!(set.top.height, set.bottom.height);
        if set.display_width != 0 {
            assert!((plot_width as f64 / set.display_width as f64 - 0.9).abs() < 1e-12);
            assert!((plot_height as f64 / set.display_height as f64 - 0.8).abs() < 1e-12);
        }
    }
}

#[test]
fn partition_gives_every_region_the_size_of_its_rectangle() {
    for (w, h) in [(800u32, 600u32), (1, 1), (3, 3), (10, 13), (1003, 600), (u32::MAX, u32::MAX)] {
        let set = partition(w, h).unwrap();
        for region in regions(&set) {
            assert_eq!(region.rect.right - region.rect.left, region.width);
            assert_eq!(region.rect.bottom - region.rect.top, region.height);
        }
    }
}

#[test]
fn partition_puts_the_plot_in_the_middle_of_the_surface() {
    for (w, h) in [(800u32, 600u32), (1, 1), (10, 13), (1003, 600), (u32::MAX, 7)] {
        let set = partition(w, h).unwrap();
        assert_eq!(set.plot.rect.left + set.plot.rect.right, w as i64 * 1000);
        assert_eq!(set.plot.rect.top + set.plot.rect.bottom, h as i64 * 1000);
    }
}

#[test]
fn partition_fills_the_display_area() {
    let set = partition(800, 600).unwrap();
    let area: i64 = regions(&set).iter().map(|r| r.width * r.height).sum();
    assert_eq!(area, set.display_width * set.display_height);
    assert_eq!(set.top.rect.left, 1_500);
    assert_eq!(set.bottom.rect.right, 800_000 - 1_500);
    assert_eq!(set.bottom.rect.bottom, 600_000 - 1_500);
}

#[test]
fn partition_regions_do_not_overlap() {
    for w in [1u32, 2, 3, 4, 5, 6, 9, 10, 11, 50, 800, 4000] {
        for h in [1u32, 2, 3, 4, 12, 13, 14, 600, 3000] {
            let set = partition(w, h).unwrap();
            let all = regions(&set);
            for i in 0..5 {
                for j in 0..5 {
                    if i != j {
                        assert!(!overlap(&all[i].rect, &all[j].rect));
                    }
                }
            }
        }
    }
}

#[test]
fn partition_is_the_same_on_every_call() {
    assert_eq!(partition(1024, 768), partition(1024, 768));
}

#[test]
fn partition_refuses_a_surface_without_width_or_height() {
    assert_eq!(partition(0, 600), Err(ChartError::DegenerateSurface));
    assert_eq!(partition(800, 0), Err(ChartError::DegenerateSurface));
    assert_eq!(partition(0, 0), Err(ChartError::DegenerateSurface));
}

#[test]
fn partition_of_the_smallest_surface() {
    let set = partition(1, 1).unwrap();
    assert_eq!(set.display_width, -2_000);
    assert_eq!(set.plot.width, -1_800);
    assert_eq!(set.plot.height, -1_600);
    assert_eq!(set.plot.rect, Rect { left: 1_400, top: 1_300, right: -400, bottom: -300 });
}

#[test]
fn floor_sqrt_rounds_down() {
    assert_eq!(floor_sqrt(0), 0);
    assert_eq!(floor_sqrt(1), 1);
    assert_eq!(floor_sqrt(99), 9);
    assert_eq!(floor_sqrt(100), 10);
    assert_eq!(floor_sqrt(480_000_000_000), 692_820);
    assert_eq!(floor_sqrt(u128::MAX), u64::MAX);
}

#[test]
fn share_of_rounds_toward_zero() {
    assert_eq!(share_of(10, 1, 3), 3);
    assert_eq!(share_of(-10, 1, 3), -3);
    assert_eq!(share_of(7, 6, 10), 4);
    assert_eq!(share_of(-7, 6, 10), -4);
    assert_eq!(share_of(i64::MAX, 1, 1), i64::MAX);
    assert_eq!(share_of(i64::MIN, 5, 5), i64::MIN);
    assert_eq!(share_of(1000, 0, 5), 0);
}

#[test]
fn floor_sqrt_agrees_with_squaring() {
    let mut n: u128 = 1;
    for _ in 0..120 {
        let root = floor_sqrt(n) as u128;
        assert!(root * root <= n);
        assert!(n - root * root <= 2 * root);
        n = n.wrapping_mul(3).wrapping_add(7);
    }
}
