//! The dashboard: what it holds, how it takes keys, and what it shows.

pub mod keys;
pub mod list;
pub mod log_view;
pub mod model;
pub mod picker;
pub mod screen;
pub mod view;

pub use crate::tui::model::{DashboardModel, OverallStatus};
