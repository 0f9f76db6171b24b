use barchart::aggregate::{CategoryTotals, DrawObject};
use barchart::order::{key_precedes, order, SortDirection, SortKey};

fn totals(pairs: &[(&str, u32)]) -> CategoryTotals {
    let mut totals = CategoryTotals::new();
    for (name, num) in pairs {
        assert!(totals.add(&String::from(*name), *num));
    }
    totals
}

fn names(bars: &[DrawObject]) -> Vec<&str> {
    bars.iter().map(|b| b.name.as_str()).collect()
}

// The first pass of the sort puts the largest key first, and the flag
// `Descending` reverses it: the flag names the opposite of the outcome.

#[test]
fn order_by_total_with_the_descending_flag_puts_the_smallest_first() {
    let bars = order(&totals(&[("A", 5), ("B", 10), ("C", 1)]), SortKey::ByTotal, SortDirection::Descending);
    assert_eq!(names(&bars), vec!["C", "A", "B"]);
}

#[test]
fn order_by_total_with_the_ascending_flag_puts_the_largest_first() {
    let bars = order(&totals(&[("A", 5), ("B", 10), ("C", 1)]), SortKey::ByTotal, SortDirection::Ascending);
    assert_eq!(names(&bars), vec!["B", "A", "C"]);
}

#[test]
fn order_by_name_with_the_descending_flag_runs_from_a_to_z() {
    let bars = order(
        &totals(&[("B", 10), ("C", 1), ("A", 5)]),
        SortKey::ByCategoryName,
        SortDirection::Descending,
    );
    assert_eq!(names(&bars), vec!["A", "B", "C"]);
}

#[test]
fn order_by_name_with_the_ascending_flag_runs_from_z_to_a() {
    let bars = order(
        &totals(&[("B", 10), ("C", 1), ("A", 5)]),
        SortKey::ByCategoryName,
        SortDirection::Ascending,
    );
    assert_eq!(names(&bars), vec!["C", "B", "A"]);
}

#[test]
fn order_keeps_the_totals_with_their_names() {
    let bars = order(&totals(&[("A", 5), ("B", 10), ("C", 1)]), SortKey::ByTotal, SortDirection::Ascending);
    assert_eq!(
        bars,
        vec![
            DrawObject::new(String::from("B"), 10),
            DrawObject::new(String::from("A"), 5),
            DrawObject::new(String::from("C"), 1),
        ]
    );
}

#[test]
fn order_keeps_equal_totals_in_order_of_first_occurrence() {
    let t = totals(&[("x", 3), ("y", 7), ("z", 3), ("w", 7), ("v", 3)]);
    let bars = order(&t, SortKey::ByTotal, SortDirection::Ascending);
    assert_eq!(names(&bars), vec!["y", "w", "x", "z", "v"]);
    let bars = order(&t, SortKey::ByTotal, SortDirection::Descending);
    assert_eq!(names(&bars), vec!["v", "z", "x", "w", "y"]);
}

#[test]
fn order_of_nothing_is_nothing() {
    let bars = order(&CategoryTotals::new(), SortKey::ByTotal, SortDirection::Descending);
    assert!(bars.is_empty());
}

#[test]
fn order_keeps_the_sum_of_the_totals() {
    let t = totals(&[("x", 3), ("y", 7), ("z", 30), ("w", 0)]);
    for key in [SortKey::ByCategoryName, SortKey::ByTotal] {
        for direction in [SortDirection::Ascending, SortDirection::Descending] {
            let bars = order(&t, key, direction);
            assert_eq!(bars.len(), 4);
            assert_eq!(bars.iter().map(|b| b.num).sum::<u32>(), 40);
        }
    }
}

#[test]
fn order_compares_names_character_by_character() {
    let bars = order(
        &totals(&[("pear", 1), ("Pear", 2), ("pea", 3), ("peach", 4)]),
        SortKey::ByCategoryName,
        SortDirection::Descending,
    );
    assert_eq!(names(&bars), vec!["Pear", "pea", "peach", "pear"]);
}

#[test]
fn sort_codes_select_key_and_direction() {
    assert_eq!(SortKey::from_code(0), SortKey::ByCategoryName);
    assert_eq!(SortKey::from_code(1), SortKey::ByTotal);
    assert_eq!(SortKey::from_code(7), SortKey::ByTotal);
    assert_eq!(SortDirection::from_code(0), SortDirection::Descending);
    assert_eq!(SortDirection::from_code(1), SortDirection::Ascending);
    assert_eq!(SortDirection::from_code(9), SortDirection::Ascending);
}

#[test]
fn key_precedes_compares_by_the_chosen_key() {
    let a = DrawObject::new(String::from("a"), 9);
    let b = DrawObject::new(String::from("b"), 2);
    assert!(key_precedes(&a, &b, SortKey::ByCategoryName));
    assert!(!key_precedes(&b, &a, SortKey::ByCategoryName));
    assert!(!key_precedes(&a, &b, SortKey::ByTotal));
    assert!(key_precedes(&b, &a, SortKey::ByTotal));
    assert!(key_precedes(&a, &a, SortKey::ByTotal));
}

#[test]
fn order_agrees_with_a_stable_sort_and_a_reversal() {
    let mut seed: u32 = 12345;
    for round in 0..40 {
        let mut t = CategoryTotals::new();
        let mut reference: Vec<(String, u32)> = Vec::new();
        for i in 0..(round % 9) {
            seed = seed.wrapping_mul(1_103_515_245).wrapping_add(12_345);
            let name = format!("{}{}", ["k", "K", "ka", "", "z"][(seed >> 16) as usize % 5], i);
            let num = (seed >> 8) % 4;
            assert!(t.add(&name, num));
            reference.push((name, num));
        }
        for key in [SortKey::ByCategoryName, SortKey::ByTotal] {
            for direction in [SortDirection::Ascending, SortDirection::Descending] {
                let mut expected = reference.clone();
                match key {
                    SortKey::ByCategoryName => expected.sort_by(|a, b| b.0.cmp(&a.0)),
                    SortKey::ByTotal => expected.sort_by(|a, b| b.1.cmp(&a.1)),
                }
                if direction == SortDirection::Descending {
                    expected.reverse();
                }
                let bars: Vec<(String, u32)> =
                    order(&t, key, direction).into_iter().map(|b| (b.name, b.num)).collect();
                assert_eq!(bars, expected);
            }
        }
    }
}
