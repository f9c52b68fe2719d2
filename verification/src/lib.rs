//! The verified core of a Tilt dashboard.

pub mod text;
pub mod order;
pub mod logs;
pub mod digest;
pub mod json;
pub mod paths;
pub mod style;
pub mod tilt;
pub mod project;
pub mod panel;
pub mod session;
pub mod tui;
