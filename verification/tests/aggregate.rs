use barchart::aggregate::{aggregate, CategoryTotals, DrawObject};
use barchart::data::{ColumnLayout, Record};
use barchart::error::ChartError;

fn field(value: &str) -> Record {
    Record { name: String::from("col"), kind: 3, value: String::from(value) }
}

fn row(category: &str, count: &str) -> Vec<Record> {
    let mut fields = Vec::new();
    for i in 0..13 {
        if i == 10 {
            fields.push(field(category));
        } else if i == 12 {
            fields.push(field(count));
        } else {
            fields.push(field("x"));
        }
    }
    fields
}

fn entries(totals: &CategoryTotals) -> Vec<(String, u32)> {
    totals.entries().iter().map(|e| (e.name.clone(), e.num)).collect()
}

#[test]
fn draw_object_new_keeps_its_fields() {
    let entry = DrawObject::new(String::from("pears"), 7);
    assert_eq!(entry.name, "pears");
    assert_eq!(entry.num, 7);
}

#[test]
fn standard_layout_reads_columns_ten_and_twelve() {
    assert_eq!(
        ColumnLayout::standard(),
        ColumnLayout { category_column: 10, count_column: 12 }
    );
}

#[test]
fn aggregate_sums_counts_per_category() {
    let rows = vec![row("A", "2"), row("B", "10"), row("A", "3"), row("C", "1")];
    let (totals, highest) = aggregate(&rows, ColumnLayout::standard()).unwrap();
    assert_eq!(
        entries(&totals),
        vec![
            (String::from("A"), 5),
            (String::from("B"), 10),
            (String::from("C"), 1)
        ]
    );
    assert_eq!(highest, 10);
    assert_eq!(totals.len(), 3);
    assert_eq!(totals.get(&String::from("A")), Some(5));
    assert_eq!(totals.get(&String::from("D")), None);
}

#[test]
fn aggregate_reports_the_highest_total_not_the_highest_count() {
    let rows = vec![row("A", "4"), row("B", "5"), row("A", "4")];
    let (_, highest) = aggregate(&rows, ColumnLayout::standard()).unwrap();
    assert_eq!(highest, 8);
}

#[test]
fn aggregate_of_no_rows_is_empty() {
    let rows: Vec<Vec<Record>> = Vec::new();
    let (totals, highest) = aggregate(&rows, ColumnLayout::standard()).unwrap();
    assert_eq!(totals.len(), 0);
    assert_eq!(highest, 0);
}

#[test]
fn aggregate_keeps_the_sum_of_all_counts() {
    let rows = vec![
        row("A", "2"),
        row("B", "10"),
        row("A", "3"),
        row("C", "1"),
        row("B", "0"),
        row("C", "40"),
    ];
    let (totals, _) = aggregate(&rows, ColumnLayout::standard()).unwrap();
    let sum: u64 = totals.entries().iter().map(|e| e.num as u64).sum();
    assert_eq!(sum, 2 + 10 + 3 + 1 + 0 + 40);
}

#[test]
fn aggregate_fails_on_a_count_that_is_no_number() {
    let rows = vec![row("A", "2"), row("B", "abc"), row("C", "1")];
    assert_eq!(
        aggregate(&rows, ColumnLayout::standard()).err(),
        Some(ChartError::MalformedRow { row: 1 })
    );
}

#[test]
fn aggregate_fails_on_a_negative_count() {
    let rows = vec![row("A", "-2")];
    assert_eq!(
        aggregate(&rows, ColumnLayout::standard()).err(),
        Some(ChartError::MalformedRow { row: 0 })
    );
}

#[test]
fn aggregate_fails_on_a_short_row() {
    let mut short = row("A", "2");
    short.pop();
    let rows = vec![row("A", "2"), row("B", "3"), short];
    assert_eq!(
        aggregate(&rows, ColumnLayout::standard()).err(),
        Some(ChartError::MalformedRow { row: 2 })
    );
}

#[test]
fn aggregate_fails_on_the_first_malformed_row() {
    let rows = vec![row("A", ""), row("B", "abc")];
    assert_eq!(
        aggregate(&rows, ColumnLayout::standard()).err(),
        Some(ChartError::MalformedRow { row: 0 })
    );
}

#[test]
fn aggregate_fails_when_a_total_leaves_32_bits() {
    let rows = vec![row("A", "4294967295"), row("B", "4294967295"), row("A", "1")];
    assert_eq!(
        aggregate(&rows, ColumnLayout::standard()).err(),
        Some(ChartError::TotalOverflow { row: 2 })
    );
}

#[test]
fn aggregate_reads_the_columns_of_its_layout() {
    let rows = vec![
        vec![field("3"), field("pears")],
        vec![field("4"), field("pears")],
        vec![field("1"), field("plums")],
    ];
    let layout = ColumnLayout { category_column: 1, count_column: 0 };
    let (totals, highest) = aggregate(&rows, layout).unwrap();
    assert_eq!(
        entries(&totals),
        vec![(String::from("pears"), 7), (String::from("plums"), 1)]
    );
    assert_eq!(highest, 7);
}

#[test]
fn category_totals_add_refuses_an_overflow_and_keeps_the_total() {
    let mut totals = CategoryTotals::new();
    assert!(totals.add(&String::from("A"), u32::MAX - 1));
    assert!(totals.add(&String::from("A"), 1));
    assert!(!totals.add(&String::from("A"), 1));
    assert_eq!(totals.get(&String::from("A")), Some(u32::MAX));
    assert_eq!(totals.highest(), u32::MAX);
}
