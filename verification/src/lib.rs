//! Layout and aggregation engine for categorical bar charts.

pub mod aggregate;
pub mod axis;
pub mod chart;
pub mod color;
pub mod data;
pub mod error;
pub mod geometry;
pub mod layout;
pub mod number;
pub mod order;
pub mod plan;
pub mod region;
pub mod text;
