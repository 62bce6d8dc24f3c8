//! Relay overcurrent curve catalogue, spreadsheet selection and paste logic, pasted-text
//! parsing, and the integer side of relay curve estimation.

pub mod app;
pub mod curves;
pub mod estimator;
pub mod icon;
pub mod plot_view;
pub mod spreadsheet;
pub mod text;
pub mod theme;

pub use app::AppTab;
pub use curves::{CurveDefinition, CurveStandard, CurveType};
pub use estimator::{EstimationError, RelayEstimator};
pub use spreadsheet::SpreadsheetGrid;
