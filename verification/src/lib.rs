//! Frame logic for a small OLED demo: a bounded text buffer, a decimal
//! counter line and a logo that bounces between two rows.

pub mod bounce;
pub mod counter;
pub mod decimal;
pub mod fmt_buf;
pub mod lifecycle;
