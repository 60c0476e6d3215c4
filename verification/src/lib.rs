//! A deduplicated, indexed style table for spreadsheet documents.
//!
//! A [`StyleTable`] takes CSS-like style declarations one by one. For each it
//! keeps one cell format, which names a font, a fill and a number format by
//! index or code; equal fonts and fills are kept once.

pub mod color;
pub mod declaration;
pub mod format;
pub mod props;
pub mod table;
pub mod text;
pub mod units;

pub use crate::color::{alpha_text, color_to_argb, str_alpha_to_hex, str_to_hex, value_to_hex};
pub use crate::declaration::{Measures, NumericTexts, Style};
pub use crate::format::{get_format_code, FIRST_CUSTOM_CODE};
pub use crate::props::{style_to_props, Align, Fill, Font};
pub use crate::table::{CellFormat, StyleTable};
pub use crate::units::{px_text, px_to_pt};
