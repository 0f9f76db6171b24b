//! The tabular dataset that a chart is drawn from.

use vstd::prelude::*;

verus! {

/// One field of a row. The value arrives as text whatever its logical type.
#[derive(Debug, PartialEq, Eq)]
pub struct Record {
    pub name: String,
    pub kind: i32,
    pub value: String,
}

/// A dataset handed over by the host: captions, rows and column names.
#[derive(Debug, PartialEq, Eq)]
pub struct DbData {
    pub title: String,
    pub tablename: String,
    pub x_axis_label: String,
    pub y_axis_label: String,
    pub records: Vec<Vec<Record>>,
    pub col_names: Vec<String>,
    pub row_count: i32,
    pub col_count: i32,
}

/// The columns from which the category name and the item count are read.
#[derive(Clone, Copy, Debug, PartialEq, Eq, Structural)]
pub struct ColumnLayout {
    pub category_column: usize,
    pub count_column: usize,
}

impl ColumnLayout {
    /// The layout of the tables that the host serves: the category name in
    /// column 10 and the item count in column 12.
    pub open spec fn standard_spec() -> ColumnLayout {
        ColumnLayout { category_column: 10, count_column: 12 }
    }

    /// The layout of the tables that the host serves.
    pub fn standard() -> (layout: ColumnLayout)
        ensures
            layout == ColumnLayout::standard_spec(),
    {
        ColumnLayout { category_column: 10, count_column: 12 }
    }
}

} // verus!
